//! Header hygiene: what must not cross the proxy, and how header values are
//! read for the log.
//!
//! Headers stay in the `http` crate's `HeaderMap`. Its contents are modelled
//! as the sequence of (name, value) pairs that the map yields when it is
//! walked: the names in the order in which they first came in, the values of
//! one name together and in the order in which they were added. Sanitizing
//! keeps that order: the result is built from the pairs that stay, one after
//! the other.

use vstd::prelude::*;
use vstd::string::StrSliceExecFns;
use http::{HeaderMap, HeaderValue};

verus! {

/// `http::HeaderMap`, opaque here: what it holds is spoken of through
/// [`header_entries`].
#[verifier::external_type_specification]
#[verifier::external_body]
#[verifier::reject_recursive_types(T)]
pub struct ExHeaderMap<T>(http::HeaderMap<T>);

/// `http::HeaderValue`, the value type of the header maps used here.
#[verifier::external_type_specification]
#[verifier::external_body]
pub struct ExHeaderValue(http::HeaderValue);

/// What a header map holds: its (name, value) pairs in the order in which
/// `http::HeaderMap::iter` yields them.
pub uninterp spec fn header_entries(headers: HeaderMap<HeaderValue>) -> Seq<(Seq<char>, Seq<u8>)>;

/// Most pairs that a header set may have to be sanitized. Far above what any
/// request or answer carries, and low enough that building a map of so many
/// names never outgrows the largest table that the `http` crate allows.
pub const MAX_HEADERS: usize = 4096;

/// Names that the map looks up exactly as written: non-empty, short, made of
/// lower-case letters, digits and hyphens.
pub open spec fn is_plain_name(name: Seq<char>) -> bool {
    &&& 0 < name.len() <= 64
    &&& forall|i: int| 0 <= i < name.len() ==> {
        let c = #[trigger] name[i];
        ('a' <= c <= 'z') || ('0' <= c <= '9') || c == '-'
    }
}

/// The lower-case form of an ASCII letter; any other character is itself.
pub open spec fn lower(c: char) -> char {
    if 'A' <= c <= 'Z' {
        ((c as u8) + 32) as char
    } else {
        c
    }
}

/// The name with its ASCII letters in lower case.
pub open spec fn lower_case(name: Seq<char>) -> Seq<char> {
    Seq::new(name.len(), |i: int| lower(name[i]))
}

/// Hop-by-hop and connection-management headers, by their lower-case names.
/// They belong to one transport connection and are never forwarded.
pub open spec fn is_hop_header(name: Seq<char>) -> bool {
    ||| name == "connection"@
    ||| name == "proxy-connection"@
    ||| name == "keep-alive"@
    ||| name == "transfer-encoding"@
    ||| name == "te"@
    ||| name == "upgrade"@
    ||| name == "trailer"@
    ||| name == "host"@
}

/// Whether the name is that of a hop-by-hop header, whatever its casing.
pub open spec fn names_hop_header(name: Seq<char>) -> bool {
    is_hop_header(lower_case(name))
}

/// The pairs of `entries` without those of a hop-by-hop name, the others as
/// they were and in the order in which they stood.
pub open spec fn sanitized(entries: Seq<(Seq<char>, Seq<u8>)>) -> Seq<(Seq<char>, Seq<u8>)>
    decreases entries.len(),
{
    if entries.len() == 0 {
        entries
    } else if names_hop_header(entries.last().0) {
        sanitized(entries.drop_last())
    } else {
        sanitized(entries.drop_last()).push(entries.last())
    }
}

/// Position of the last pair named `name`, or -1 where there is none.
pub open spec fn last_position(entries: Seq<(Seq<char>, Seq<u8>)>, name: Seq<char>) -> int
    decreases entries.len(),
{
    if entries.len() == 0 {
        -1
    } else if entries.last().0 == name {
        entries.len() - 1
    } else {
        last_position(entries.drop_last(), name)
    }
}

/// The pairs after one more value was added under `name`: it stands behind
/// the values that the name has already, or at the very end for a new name.
pub open spec fn appended(entries: Seq<(Seq<char>, Seq<u8>)>, name: Seq<char>, value: Seq<u8>) -> Seq<
    (Seq<char>, Seq<u8>),
> {
    let at = last_position(entries, name);
    if at < 0 {
        entries.push((name, value))
    } else {
        entries.insert(at + 1, (name, value))
    }
}

/// Whether the pairs named `name` up to position `upto` stand together: from
/// the first of them on, every pair up to `upto` has that name.
pub open spec fn stands_together(entries: Seq<(Seq<char>, Seq<u8>)>, name: Seq<char>, upto: int) -> bool {
    forall|a: int, b: int|
        #![trigger entries[a], entries[b]]
        0 <= a <= b <= upto && entries[a].0 == name ==> entries[b].0 == name
}

/// The first value held under `name`, if any.
pub open spec fn first_value(entries: Seq<(Seq<char>, Seq<u8>)>, name: Seq<char>) -> Option<Seq<u8>>
    decreases entries.len(),
{
    if entries.len() == 0 {
        None
    } else if entries.first().0 == name {
        Some(entries.first().1)
    } else {
        first_value(entries.drop_first(), name)
    }
}

/// Bytes that may appear in a header value read as text: printable ASCII and
/// the horizontal tab.
pub open spec fn is_visible_ascii(b: u8) -> bool {
    (32 <= b < 127) || b == 9
}

/// A header value as text: its bytes as characters if all are visible ASCII.
pub open spec fn visible_text(value: Seq<u8>) -> Option<Seq<char>> {
    if forall|i: int| 0 <= i < value.len() ==> is_visible_ascii(#[trigger] value[i]) {
        Some(Seq::new(value.len(), |i: int| value[i] as char))
    } else {
        None
    }
}

/// What the log shows for header `name`: the text of its first value, or `-`
/// where the header is absent or its value is not text.
pub open spec fn logged_text(entries: Seq<(Seq<char>, Seq<u8>)>, name: Seq<char>) -> Seq<char> {
    match first_value(entries, name) {
        Some(value) => match visible_text(value) {
            Some(text) => text,
            None => "-"@,
        },
        None => "-"@,
    }
}

/// `http::HeaderMap::new`: a map without any header.
#[verifier::external_body]
fn new_headers() -> (headers: HeaderMap)
    ensures
        header_entries(headers) == Seq::<(Seq<char>, Seq<u8>)>::empty(),
{
    HeaderMap::new()
}

/// `http::HeaderMap::len`: the number of values, which is the number of
/// pairs that the map yields.
#[verifier::external_body]
fn entry_count(headers: &HeaderMap) -> (n: usize)
    ensures
        n == header_entries(*headers).len(),
{
    headers.len()
}

/// The name of the pair at position `i` of `http::HeaderMap::iter`, as
/// `http::HeaderName::as_str` gives it; `None` past the end. The pairs of one
/// name stand together: if the name stood at an earlier position, it stands
/// at every position from there to `i`.
#[verifier::external_body]
fn entry_name(headers: &HeaderMap, i: usize) -> (name: Option<String>)
    ensures
        match name {
            Some(text) => {
                &&& i < header_entries(*headers).len()
                &&& text@ == header_entries(*headers)[i as int].0
                &&& stands_together(header_entries(*headers), text@, i as int)
            },
            None => i >= header_entries(*headers).len(),
        },
{
    headers.iter().nth(i).map(|(name, _)| name.as_str().to_owned())
}

/// Takes the pair at position `i` of `http::HeaderMap::iter` on `from` and
/// adds it to `to` with `http::HeaderMap::append`, name and value as they
/// are: the value goes behind those that `to` holds under the name, or a new
/// name is added at the end. `append` panics only where the map would have to
/// grow past the crate's largest table of 32768 slots. A map asks to grow
/// when its names fill three quarters of its table, or a fifth of it while
/// lookups run long, so one of fewer than 6554 names never asks for more than
/// the largest table; the bound here is well below that.
#[verifier::external_body]
fn append_entry(to: &mut HeaderMap, from: &HeaderMap, i: usize)
    requires
        i < header_entries(*from).len(),
        header_entries(*old(to)).len() < MAX_HEADERS,
    ensures
        header_entries(*final(to)) == appended(
            header_entries(*old(to)),
            header_entries(*from)[i as int].0,
            header_entries(*from)[i as int].1,
        ),
{
    if let Some((name, value)) = from.iter().nth(i) {
        to.append(name, value.clone());
    }
}

/// `http::HeaderMap::get` with a string key: the first value held under the
/// name, copied out as bytes, or `None` where the name is absent. The map
/// looks a plain name up as written.
#[verifier::external_body]
fn get_header(headers: &HeaderMap, name: &str) -> (value: Option<Vec<u8>>)
    requires
        is_plain_name(name@),
    ensures
        match value {
            Some(bytes) => first_value(header_entries(*headers), name@) == Some(bytes@),
            None => first_value(header_entries(*headers), name@) is None,
        },
{
    headers.get(name).map(|v| v.as_bytes().to_vec())
}

/// `String::push`: appends one character.
pub assume_specification[ String::push ](s: &mut String, c: char)
    ensures
        final(s)@ == old(s)@.push(c),
;

/// Puts an ASCII letter in lower case.
fn lower_char(c: char) -> (l: char)
    ensures
        l == lower(c),
{
    if 'A' <= c && c <= 'Z' {
        ((c as u8) + 32) as char
    } else {
        c
    }
}

/// Compares a name, whatever its casing, with a lower-case literal.
fn is_name(name: &str, literal: &str) -> (same: bool)
    ensures
        same == (lower_case(name@) == literal@),
{
    let n = name.unicode_len();
    if n != literal.unicode_len() {
        return false;
    }
    let mut i: usize = 0;
    while i < n
        invariant
            i <= n,
            n == name@.len(),
            n == literal@.len(),
            forall|j: int| 0 <= j < i ==> lower(name@[j]) == literal@[j],
        decreases n - i,
    {
        if lower_char(name.get_char(i)) != literal.get_char(i) {
            assert(lower_case(name@)[i as int] != literal@[i as int]);
            return false;
        }
        i += 1;
    }
    assert(lower_case(name@) =~= literal@);
    true
}

/// Tests a header name, whatever its casing, against the hop-by-hop names.
pub fn is_hop_name(name: &str) -> (yes: bool)
    ensures
        yes == names_hop_header(name@),
{
    is_name(name, "connection") || is_name(name, "proxy-connection") || is_name(name, "keep-alive") || is_name(
        name,
        "transfer-encoding",
    ) || is_name(name, "te") || is_name(name, "upgrade") || is_name(name, "trailer") || is_name(name, "host")
}

/// Every pair that is left after sanitizing stood in the original.
proof fn lemma_sanitized_from(entries: Seq<(Seq<char>, Seq<u8>)>, j: int)
    requires
        0 <= j < sanitized(entries).len(),
    ensures
        !names_hop_header(sanitized(entries)[j].0),
        exists|a: int| 0 <= a < entries.len() && entries[a] == sanitized(entries)[j],
    decreases entries.len(),
{
    if entries.len() > 0 {
        let rest = entries.drop_last();
        if j < sanitized(rest).len() {
            lemma_sanitized_from(rest, j);
            let a = choose|a: int| 0 <= a < rest.len() && rest[a] == sanitized(rest)[j];
            assert(entries[a] == sanitized(entries)[j]);
        } else {
            assert(entries[entries.len() - 1] == sanitized(entries)[j]);
        }
    }
}

/// Sanitizing never adds a pair.
proof fn lemma_sanitized_len(entries: Seq<(Seq<char>, Seq<u8>)>)
    ensures
        sanitized(entries).len() <= entries.len(),
    decreases entries.len(),
{
    if entries.len() > 0 {
        lemma_sanitized_len(entries.drop_last());
    }
}

/// A name that no pair has is at no position.
proof fn lemma_absent_name(entries: Seq<(Seq<char>, Seq<u8>)>, name: Seq<char>)
    requires
        forall|j: int| 0 <= j < entries.len() ==> (#[trigger] entries[j]).0 != name,
    ensures
        last_position(entries, name) == -1,
    decreases entries.len(),
{
    if entries.len() > 0 {
        assert(entries[entries.len() - 1].0 != name);
        assert forall|j: int| 0 <= j < entries.drop_last().len() implies (#[trigger] entries.drop_last()[j]).0
            != name by {
            assert(entries.drop_last()[j] == entries[j]);
        }
        lemma_absent_name(entries.drop_last(), name);
    }
}

/// The sanitized copy of a header set.
fn without_hop_headers(headers: &HeaderMap) -> (out: HeaderMap)
    requires
        header_entries(*headers).len() <= MAX_HEADERS,
    ensures
        header_entries(out) == sanitized(header_entries(*headers)),
{
    let ghost all = header_entries(*headers);
    let n = entry_count(headers);
    let mut out = new_headers();
    let mut i: usize = 0;
    assert(all.take(0) =~= Seq::<(Seq<char>, Seq<u8>)>::empty());
    while i < n
        invariant
            i <= n,
            n == all.len(),
            n <= MAX_HEADERS,
            all == header_entries(*headers),
            header_entries(out) == sanitized(all.take(i as int)),
        decreases n - i,
    {
        let ghost before = all.take(i as int);
        let ghost kept = sanitized(before);
        proof {
            lemma_sanitized_len(before);
            assert(all.take(i + 1).drop_last() =~= before);
            assert(all.take(i + 1).last() == all[i as int]);
        }
        match entry_name(headers, i) {
            Some(name) => {
                if !is_hop_name(name.as_str()) {
                    proof {
                        if exists|j: int| 0 <= j < kept.len() && (#[trigger] kept[j]).0 == name@ {
                            let j = choose|j: int| 0 <= j < kept.len() && (#[trigger] kept[j]).0 == name@;
                            lemma_sanitized_from(before, j);
                            let a = choose|a: int| 0 <= a < before.len() && before[a] == kept[j];
                            assert(all[a].0 == name@);
                            assert(all[i - 1].0 == name@);
                            assert(before.last() == all[i - 1]);
                            assert(kept.last().0 == name@);
                            assert(last_position(kept, name@) == kept.len() - 1);
                            assert(kept.insert(kept.len() as int, all[i as int]) =~= kept.push(all[i as int]));
                        } else {
                            lemma_absent_name(kept, name@);
                        }
                        assert(appended(kept, all[i as int].0, all[i as int].1) == kept.push(all[i as int]));
                    }
                    append_entry(&mut out, headers, i);
                }
            },
            None => {},
        }
        i += 1;
    }
    assert(all.take(n as int) =~= all);
    out
}

/// Removes the hop-by-hop and connection-management headers, whatever the
/// casing of their names, so that the next hop's transport sets its own. Used
/// alike on what goes upstream and on what comes back. No other header is
/// touched, and those that stay keep their order.
pub fn strip_hop_headers(headers: &mut HeaderMap)
    requires
        header_entries(*old(headers)).len() <= MAX_HEADERS,
    ensures
        header_entries(*final(headers)) == sanitized(header_entries(*old(headers))),
{
    let out = without_hop_headers(headers);
    *headers = out;
}

/// As [`strip_hop_headers`], for a header set of any size: one with more than
/// [`MAX_HEADERS`] pairs is left as it is, and the answer is `false`.
pub fn try_strip_hop_headers(headers: &mut HeaderMap) -> (done: bool)
    ensures
        done == (header_entries(*old(headers)).len() <= MAX_HEADERS),
        done ==> header_entries(*final(headers)) == sanitized(header_entries(*old(headers))),
        !done ==> header_entries(*final(headers)) == header_entries(*old(headers)),
{
    if entry_count(headers) <= MAX_HEADERS {
        strip_hop_headers(headers);
        true
    } else {
        false
    }
}

/// The headers to hand to the client for an upstream answer: all of the
/// upstream's, less the hop-by-hop ones, in the upstream's order.
pub fn relay_headers(upstream: &HeaderMap) -> (out: HeaderMap)
    requires
        header_entries(*upstream).len() <= MAX_HEADERS,
    ensures
        header_entries(out) == sanitized(header_entries(*upstream)),
{
    without_hop_headers(upstream)
}

/// As [`relay_headers`], for a header set of any size: there is no result
/// for one with more than [`MAX_HEADERS`] pairs.
pub fn try_relay_headers(upstream: &HeaderMap) -> (out: Option<HeaderMap>)
    ensures
        out is Some == (header_entries(*upstream).len() <= MAX_HEADERS),
        out is Some ==> header_entries(out.unwrap()) == sanitized(header_entries(*upstream)),
{
    if entry_count(upstream) <= MAX_HEADERS {
        Some(relay_headers(upstream))
    } else {
        None
    }
}

/// Reads a header value as text, as `http::HeaderValue::to_str` does.
pub fn value_text(value: &[u8]) -> (text: Option<String>)
    ensures
        text.deep_view() == visible_text(value@),
{
    let mut text = String::new();
    let mut i: usize = 0;
    while i < value.len()
        invariant
            i <= value.len(),
            text@.len() == i,
            forall|j: int| 0 <= j < i ==> is_visible_ascii(#[trigger] value@[j]),
            forall|j: int| 0 <= j < i ==> text@[j] == value@[j] as char,
        decreases value.len() - i,
    {
        let b: u8 = value[i];
        if !((32 <= b && b < 127) || b == 9) {
            return None;
        }
        text.push(b as char);
        i += 1;
    }
    assert(text@ =~= visible_text(value@).unwrap());
    Some(text)
}

/// The text that the log shows for header `name`.
pub(crate) fn logged_header(headers: &HeaderMap, name: &str) -> (text: String)
    requires
        is_plain_name(name@),
    ensures
        text@ == logged_text(header_entries(*headers), name@),
{
    match get_header(headers, name) {
        Some(value) => match value_text(value.as_slice()) {
            Some(text) => text,
            None => "-".to_owned(),
        },
        None => "-".to_owned(),
    }
}

/// After sanitizing, no hop-by-hop header is left, in whatever casing its
/// name is written, and every pair that is left stood in the original.
pub proof fn lemma_sanitized_holds_no_hop_header(entries: Seq<(Seq<char>, Seq<u8>)>, j: int)
    requires
        0 <= j < sanitized(entries).len(),
    ensures
        !names_hop_header(sanitized(entries)[j].0),
        entries.contains(sanitized(entries)[j]),
{
    lemma_sanitized_from(entries, j);
    let a = choose|a: int| 0 <= a < entries.len() && entries[a] == sanitized(entries)[j];
    assert(entries[a] == sanitized(entries)[j]);
}

/// Sanitizing goes pair by pair and keeps the order: what is left of two
/// header sets written one after the other is what is left of the first
/// followed by what is left of the second. So every pair that is not of a
/// hop-by-hop name stays, repeated names keep all their values, and the pairs
/// that stay stand in the order in which they stood before.
pub proof fn lemma_sanitized_in_order(first: Seq<(Seq<char>, Seq<u8>)>, second: Seq<(Seq<char>, Seq<u8>)>)
    ensures
        sanitized(first + second) == sanitized(first) + sanitized(second),
    decreases second.len(),
{
    if second.len() == 0 {
        assert(first + second =~= first);
        assert(sanitized(first) + sanitized(second) =~= sanitized(first));
    } else {
        assert((first + second).drop_last() =~= first + second.drop_last());
        assert((first + second).last() == second.last());
        lemma_sanitized_in_order(first, second.drop_last());
        assert(sanitized(first + second) =~= sanitized(first) + sanitized(second));
    }
}

/// What is left of a single pair: nothing if its name is a hop-by-hop one,
/// else the pair itself.
pub proof fn lemma_sanitized_one(entry: (Seq<char>, Seq<u8>))
    ensures
        sanitized(seq![entry]) == if names_hop_header(entry.0) {
            Seq::<(Seq<char>, Seq<u8>)>::empty()
        } else {
            seq![entry]
        },
{
    assert(seq![entry].drop_last() =~= Seq::<(Seq<char>, Seq<u8>)>::empty());
    assert(sanitized(seq![entry].drop_last()).len() == 0);
    assert(seq![entry].last() == entry);
    if names_hop_header(entry.0) {
        assert(sanitized(seq![entry]) =~= Seq::<(Seq<char>, Seq<u8>)>::empty());
    } else {
        assert(sanitized(seq![entry]) =~= seq![entry]);
    }
}

/// Sanitizing read from the front: the first pair goes if its name is a
/// hop-by-hop one and stays in front otherwise, and the rest is sanitized in
/// the same way.
pub proof fn lemma_sanitized_front(entry: (Seq<char>, Seq<u8>), rest: Seq<(Seq<char>, Seq<u8>)>)
    ensures
        sanitized(seq![entry] + rest) == if names_hop_header(entry.0) {
            sanitized(rest)
        } else {
            seq![entry] + sanitized(rest)
        },
{
    lemma_sanitized_in_order(seq![entry], rest);
    lemma_sanitized_one(entry);
    if names_hop_header(entry.0) {
        assert(Seq::<(Seq<char>, Seq<u8>)>::empty() + sanitized(rest) =~= sanitized(rest));
    }
}

/// A header set without hop-by-hop names is left exactly as it is.
pub proof fn lemma_clean_set_unchanged(entries: Seq<(Seq<char>, Seq<u8>)>)
    requires
        forall|j: int| 0 <= j < entries.len() ==> !names_hop_header((#[trigger] entries[j]).0),
    ensures
        sanitized(entries) == entries,
    decreases entries.len(),
{
    if entries.len() > 0 {
        let rest = entries.drop_last();
        assert forall|j: int| 0 <= j < rest.len() implies !names_hop_header((#[trigger] rest[j]).0) by {
            assert(rest[j] == entries[j]);
        }
        lemma_clean_set_unchanged(rest);
        assert(!names_hop_header(entries[entries.len() - 1].0));
        assert(sanitized(entries) =~= entries);
    }
}

/// Sanitizing a second time changes nothing.
pub proof fn lemma_second_pass_changes_nothing(entries: Seq<(Seq<char>, Seq<u8>)>)
    ensures
        sanitized(sanitized(entries)) == sanitized(entries),
{
    assert forall|j: int| 0 <= j < sanitized(entries).len() implies !names_hop_header(
        (#[trigger] sanitized(entries)[j]).0,
    ) by {
        lemma_sanitized_from(entries, j);
    }
    lemma_clean_set_unchanged(sanitized(entries));
}

} // verus!
