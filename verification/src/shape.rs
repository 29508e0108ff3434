//! Literal tests on the bytes of a path: how it begins, how it ends, and
//! whether what follows a directory is a single segment.

use vstd::prelude::*;

verus! {

/// The byte that separates path segments.
pub const SLASH: u8 = 47;

/// Whether `text` begins with `prefix`.
pub open spec fn starts_with(text: Seq<u8>, prefix: Seq<u8>) -> bool {
    prefix.len() <= text.len() && text.subrange(0, prefix.len() as int) == prefix
}

/// Whether `text` ends with `suffix`.
pub open spec fn ends_with(text: Seq<u8>, suffix: Seq<u8>) -> bool {
    suffix.len() <= text.len() && text.subrange(text.len() - suffix.len(), text.len() as int) == suffix
}

/// Whether `text` has no separator at or after position `from`.
pub open spec fn single_segment(text: Seq<u8>, from: int) -> bool {
    forall|i: int| from <= i < text.len() ==> #[trigger] text[i] != SLASH
}

/// Tests whether `text` begins with `prefix`.
pub fn has_prefix(text: &[u8], prefix: &[u8]) -> (yes: bool)
    ensures
        yes == starts_with(text@, prefix@),
{
    if prefix.len() > text.len() {
        return false;
    }
    let mut i: usize = 0;
    while i < prefix.len()
        invariant
            i <= prefix.len() <= text.len(),
            forall|j: int| 0 <= j < i ==> text@[j] == prefix@[j],
        decreases prefix.len() - i,
    {
        if text[i] != prefix[i] {
            assert(text@.subrange(0, prefix@.len() as int)[i as int] != prefix@[i as int]);
            return false;
        }
        i += 1;
    }
    assert(text@.subrange(0, prefix@.len() as int) =~= prefix@);
    true
}

/// Tests whether `text` ends with `suffix`.
pub fn has_suffix(text: &[u8], suffix: &[u8]) -> (yes: bool)
    ensures
        yes == ends_with(text@, suffix@),
{
    if suffix.len() > text.len() {
        return false;
    }
    let skip: usize = text.len() - suffix.len();
    let mut i: usize = 0;
    while i < suffix.len()
        invariant
            i <= suffix.len() <= text.len(),
            skip == text.len() - suffix.len(),
            forall|j: int| 0 <= j < i ==> text@[skip + j] == suffix@[j],
        decreases suffix.len() - i,
    {
        if text[skip + i] != suffix[i] {
            assert(text@.subrange(skip as int, text@.len() as int)[i as int] != suffix@[i as int]);
            return false;
        }
        i += 1;
    }
    assert(text@.subrange(skip as int, text@.len() as int) =~= suffix@);
    true
}

/// Tests whether `text` has no separator at or after position `from`.
pub fn is_single_segment(text: &[u8], from: usize) -> (yes: bool)
    ensures
        yes == single_segment(text@, from as int),
{
    let mut i: usize = from;
    while i < text.len()
        invariant
            from <= i,
            forall|j: int| from <= j < i && j < text@.len() ==> #[trigger] text@[j] != SLASH,
        decreases text.len() - i,
    {
        if text[i] == SLASH {
            return false;
        }
        i += 1;
    }
    true
}

/// A text that begins with `prefix` has the bytes of `prefix` at its start.
pub proof fn lemma_prefix_byte(text: Seq<u8>, prefix: Seq<u8>, i: int)
    requires
        starts_with(text, prefix),
        0 <= i < prefix.len(),
    ensures
        text[i] == prefix[i],
{
    assert(text.subrange(0, prefix.len() as int)[i] == text[i]);
}

/// A text that ends with `suffix` has the bytes of `suffix` at its end: the
/// `k`-th byte from the end of one is the `k`-th from the end of the other.
pub proof fn lemma_suffix_byte(text: Seq<u8>, suffix: Seq<u8>, k: int)
    requires
        ends_with(text, suffix),
        1 <= k <= suffix.len(),
    ensures
        text[text.len() - k] == suffix[suffix.len() - k],
{
    assert(text.subrange(text.len() - suffix.len(), text.len() as int)[suffix.len() - k] == text[text.len() - k]);
}

} // verus!
