//! Where a request goes: the upstream origin with the inbound path and query.
//!
//! URLs are handled by the `url` crate and pass through here as text.

use vstd::prelude::*;
use vstd::utf8::encode_utf8;

verus! {

/// Longest text, in bytes, that is handed to the URL parser.
pub const MAX_TEXT_BYTES: usize = 0x1000_0000;

/// Whether `text` is short enough to be handed to the URL parser.
pub open spec fn within_limit(text: Seq<char>) -> bool {
    encode_utf8(text).len() <= MAX_TEXT_BYTES
}

/// Tests a text against the limit.
fn fits(text: &str) -> (ok: bool)
    ensures
        ok == within_limit(text@),
{
    text.as_bytes().len() <= MAX_TEXT_BYTES
}

/// The URL `url` after its path was replaced by `path`, as the `url` crate
/// writes it; `None` where `url` does not parse as an absolute URL.
pub uninterp spec fn url_with_path(url: Seq<char>, path: Seq<char>) -> Option<Seq<char>>;

/// The URL `url` after its query was replaced by `query`, or removed for
/// `None`, as the `url` crate writes it; the whole `None` where `url` does not
/// parse as an absolute URL.
pub uninterp spec fn url_with_query(url: Seq<char>, query: Option<Seq<char>>) -> Option<Seq<char>>;

/// Parses `url` with `url::Url::parse`, replaces its path with
/// `url::Url::set_path` and hands the URL back as text. The outcome is only
/// named, not described. The bound keeps the 32-bit offsets that the `url`
/// crate works with from overflowing.
#[verifier::external_body]
fn set_path(url: &str, path: &str) -> (out: Option<String>)
    requires
        within_limit(url@),
        within_limit(path@),
    ensures
        out.deep_view() == url_with_path(url@, path@),
{
    match url::Url::parse(url) {
        Ok(mut parsed) => {
            parsed.set_path(path);
            Some(parsed.into())
        }
        Err(_) => None,
    }
}

/// Parses `url` with `url::Url::parse`, replaces its query with
/// `url::Url::set_query` and hands the URL back as text. The outcome is only
/// named, not described. The bound keeps the 32-bit offsets that the `url`
/// crate works with from overflowing.
#[verifier::external_body]
fn set_query(url: &str, query: Option<&str>) -> (out: Option<String>)
    requires
        within_limit(url@),
        query is Some ==> within_limit(query.unwrap()@),
    ensures
        out.deep_view() == url_with_query(url@, query.deep_view()),
{
    match url::Url::parse(url) {
        Ok(mut parsed) => {
            parsed.set_query(query);
            Some(parsed.into())
        }
        Err(_) => None,
    }
}

/// The address of the upstream request for an inbound path and query, as a
/// function of what the URL crate makes of them.
///
/// Scheme, host and port are those of `base`; `path` and `query` take the
/// place of whatever path and query `base` had. There is no address where
/// `base` is no absolute URL, or where a text exceeds [`MAX_TEXT_BYTES`].
pub open spec fn target(base: Seq<char>, path: Seq<char>, query: Option<Seq<char>>) -> Option<Seq<char>> {
    if within_limit(base) && within_limit(path) && (query is Some ==> within_limit(query.unwrap())) {
        match url_with_path(base, path) {
            Some(moved) => if within_limit(moved) {
                url_with_query(moved, query)
            } else {
                None
            },
            None => None,
        }
    } else {
        None
    }
}

/// Builds the address of the upstream request: `base` with the path and query
/// of the inbound request.
pub fn target_url(base: &str, path: &str, query: Option<&str>) -> (url: Option<String>)
    ensures
        url.deep_view() == target(base@, path@, query.deep_view()),
{
    if !fits(base) || !fits(path) {
        return None;
    }
    if let Some(q) = query {
        if !fits(q) {
            return None;
        }
    }
    match set_path(base, path) {
        Some(moved) => {
            if fits(moved.as_str()) {
                set_query(moved.as_str(), query)
            } else {
                None
            }
        }
        None => None,
    }
}

} // verus!
