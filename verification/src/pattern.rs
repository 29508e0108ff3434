//! Pattern matching on request paths, done by the `regex` crate.

use vstd::prelude::*;

verus! {

/// The capture groups of the leftmost match of `pattern` in `text`, group 0
/// (the whole match) first; a group that took no part in the match is `None`.
/// The whole is `None` where nothing matches or `pattern` is no valid
/// expression.
pub uninterp spec fn regex_captures(pattern: Seq<char>, text: Seq<char>) -> Option<Seq<Option<Seq<char>>>>;

/// Compiles `pattern` with `regex::Regex::new` and searches `text` with
/// `regex::Regex::captures`, copying out the text of every group. Nothing is
/// proved of the search itself: the contract only gives its outcome the name
/// [`regex_captures`].
#[verifier::external_body]
pub(crate) fn captures(pattern: &str, text: &str) -> (groups: Option<Vec<Option<String>>>)
    ensures
        groups.deep_view() == regex_captures(pattern@, text@),
{
    match regex::Regex::new(pattern) {
        Ok(re) => re.captures(text).map(|c| c.iter().map(|m| m.map(|m| m.as_str().to_owned())).collect()),
        Err(_) => None,
    }
}

} // verus!
