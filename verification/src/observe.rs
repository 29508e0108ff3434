//! What is written down about each exchange.
//!
//! An exchange that got an upstream answer leaves one [`ObservationRecord`],
//! made as soon as the answer's head is known and before its body is
//! relayed. One whose upstream could not be reached leaves one
//! [`FailureRecord`] instead, which has neither status nor latency.

use vstd::prelude::*;
use http::HeaderMap;
use crate::artifact::{CranInfo, CranInfoView};
use crate::classify::{classification, parse_cran};
use crate::headers::{header_entries, is_plain_name, logged_header, logged_text};

verus! {

/// One proxied request, as logged.
#[derive(Clone, Debug, PartialEq, Eq)]
pub struct ObservationRecord {
    pub path: String,
    /// Status of the upstream's answer.
    pub status: u16,
    /// Time from dispatch to the answer's head, in milliseconds.
    pub latency_ms: u128,
    /// `User-Agent` of the request, or `-`.
    pub ua: String,
    /// `Range` of the request, or `-`.
    pub range: String,
    /// `ETag` of the answer, or `-`.
    pub etag_out: String,
    /// `Content-Length` of the answer, or `-`.
    pub content_length: String,
    /// What the path says about the artifact.
    pub derived: CranInfo,
}

/// Mathematical value of an [`ObservationRecord`].
pub struct ObservationView {
    pub path: Seq<char>,
    pub status: u16,
    pub latency_ms: u128,
    pub ua: Seq<char>,
    pub range: Seq<char>,
    pub etag_out: Seq<char>,
    pub content_length: Seq<char>,
    pub derived: CranInfoView,
}

impl View for ObservationRecord {
    type V = ObservationView;

    open spec fn view(&self) -> ObservationView {
        ObservationView {
            path: self.path@,
            status: self.status,
            latency_ms: self.latency_ms,
            ua: self.ua@,
            range: self.range@,
            etag_out: self.etag_out@,
            content_length: self.content_length@,
            derived: self.derived@,
        }
    }
}

/// One request whose upstream could not be reached, as logged.
#[derive(Clone, Debug, PartialEq, Eq)]
pub struct FailureRecord {
    /// The transport's account of what went wrong.
    pub error: String,
    pub path: String,
    /// `User-Agent` of the request, or `-`.
    pub ua: String,
}

/// Mathematical value of a [`FailureRecord`].
pub struct FailureView {
    pub error: Seq<char>,
    pub path: Seq<char>,
    pub ua: Seq<char>,
}

impl View for FailureRecord {
    type V = FailureView;

    open spec fn view(&self) -> FailureView {
        FailureView { error: self.error@, path: self.path@, ua: self.ua@ }
    }
}

/// The record of a request for `path` that was answered with `status` after
/// `latency_ms`, given the contents of the request's and the answer's
/// headers.
pub open spec fn observation(
    path: Seq<char>,
    status: u16,
    latency_ms: u128,
    request: Seq<(Seq<char>, Seq<u8>)>,
    response: Seq<(Seq<char>, Seq<u8>)>,
) -> ObservationView {
    ObservationView {
        path,
        status,
        latency_ms,
        ua: logged_text(request, "user-agent"@),
        range: logged_text(request, "range"@),
        etag_out: logged_text(response, "etag"@),
        content_length: logged_text(response, "content-length"@),
        derived: classification(path),
    }
}

proof fn lemma_logged_names_plain()
    ensures
        is_plain_name("user-agent"@),
        is_plain_name("range"@),
        is_plain_name("etag"@),
        is_plain_name("content-length"@),
{
    reveal_strlit("user-agent");
    reveal_strlit("range");
    reveal_strlit("etag");
    reveal_strlit("content-length");
}

/// Makes the record of an answered request.
pub fn observe(
    path: &str,
    status: u16,
    latency_ms: u128,
    request: &HeaderMap,
    response: &HeaderMap,
) -> (record: ObservationRecord)
    ensures
        record@ == observation(path@, status, latency_ms, header_entries(*request), header_entries(*response)),
{
    proof {
        lemma_logged_names_plain();
    }
    ObservationRecord {
        path: path.to_owned(),
        status,
        latency_ms,
        ua: logged_header(request, "user-agent"),
        range: logged_header(request, "range"),
        etag_out: logged_header(response, "etag"),
        content_length: logged_header(response, "content-length"),
        derived: parse_cran(path),
    }
}

/// Makes the record of a request whose upstream could not be reached.
pub fn observe_failure(error: &str, path: &str, request: &HeaderMap) -> (record: FailureRecord)
    ensures
        record@ == (FailureView {
            error: error@,
            path: path@,
            ua: logged_text(header_entries(*request), "user-agent"@),
        }),
{
    proof {
        lemma_logged_names_plain();
    }
    FailureRecord {
        error: error.to_owned(),
        path: path.to_owned(),
        ua: logged_header(request, "user-agent"),
    }
}

} // verus!
