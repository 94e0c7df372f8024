//! Substring search over byte sequences.

use vstd::prelude::*;

verus! {

/// `needle` stands in `haystack` at offset `at`.
pub open spec fn occurs_at(haystack: Seq<u8>, needle: Seq<u8>, at: int) -> bool {
    &&& 0 <= at
    &&& at + needle.len() <= haystack.len()
    &&& haystack.subrange(at, at + needle.len()) == needle
}

/// `at` is the least offset at which `needle` stands in `haystack`.
pub open spec fn is_first_occurrence(haystack: Seq<u8>, needle: Seq<u8>, at: int) -> bool {
    &&& occurs_at(haystack, needle, at)
    &&& forall|j: int| 0 <= j < at ==> !occurs_at(haystack, needle, j)
}

/// The least offset at which `needle` stands in `haystack`, if it stands there at all.
pub open spec fn first_occurrence(haystack: Seq<u8>, needle: Seq<u8>) -> Option<int> {
    if exists|i: int| is_first_occurrence(haystack, needle, i) {
        Some(choose|i: int| is_first_occurrence(haystack, needle, i))
    } else {
        None
    }
}

/// A least offset is the only one: it is what `first_occurrence` names.
pub proof fn lemma_first_occurrence_found(haystack: Seq<u8>, needle: Seq<u8>, at: int)
    requires
        is_first_occurrence(haystack, needle, at),
    ensures
        first_occurrence(haystack, needle) == Some(at),
{
    let c = choose|i: int| is_first_occurrence(haystack, needle, i);
    assert(is_first_occurrence(haystack, needle, c));
    if c < at {
        assert(!occurs_at(haystack, needle, c));
    } else if at < c {
        assert(!occurs_at(haystack, needle, at));
    }
}

/// Where `needle` stands at some offset, it stands at a least one.
pub proof fn lemma_occurrence_has_first(haystack: Seq<u8>, needle: Seq<u8>, at: int)
    requires
        occurs_at(haystack, needle, at),
    ensures
        exists|i: int| is_first_occurrence(haystack, needle, i),
    decreases at,
{
    if exists|k: int| 0 <= k < at && occurs_at(haystack, needle, k) {
        let k = choose|k: int| 0 <= k < at && occurs_at(haystack, needle, k);
        lemma_occurrence_has_first(haystack, needle, k);
    } else {
        assert(is_first_occurrence(haystack, needle, at));
    }
}

/// What `first_occurrence` names is the least offset at which `needle` stands, and it
/// names none only where `needle` stands nowhere.
pub proof fn lemma_first_occurrence(haystack: Seq<u8>, needle: Seq<u8>)
    ensures
        first_occurrence(haystack, needle) matches Some(at) ==> is_first_occurrence(
            haystack,
            needle,
            at,
        ),
        first_occurrence(haystack, needle) is None ==> forall|j: int|
            !occurs_at(haystack, needle, j),
{
    if first_occurrence(haystack, needle) is None {
        assert forall|j: int| !occurs_at(haystack, needle, j) by {
            if occurs_at(haystack, needle, j) {
                lemma_occurrence_has_first(haystack, needle, j);
            }
        }
    }
}

/// Tells whether `needle` stands in `haystack` at offset `at`.
fn matches_at(haystack: &[u8], needle: &[u8], at: usize) -> (same: bool)
    requires
        at + needle@.len() <= haystack@.len(),
    ensures
        same == occurs_at(haystack@, needle@, at as int),
{
    let h: usize = haystack.len();
    let n: usize = needle.len();
    let mut k: usize = 0;
    while k < n
        invariant
            h == haystack@.len(),
            n == needle@.len(),
            at + n <= h,
            k <= n,
            forall|m: int| 0 <= m < k ==> haystack@[at + m] == needle@[m],
        decreases n - k,
    {
        if haystack[at + k] != needle[k] {
            assert(haystack@.subrange(at as int, at + n)[k as int] != needle@[k as int]);
            return false;
        }
        k += 1;
    }
    assert(haystack@.subrange(at as int, at + n) =~= needle@);
    true
}

/// Finds the first place where `needle` stands in `haystack` by trying every offset in turn.
///
/// An empty `needle` stands at offset 0 of every `haystack`.
pub fn find_subsequence(haystack: &[u8], needle: &[u8]) -> (found: Option<usize>)
    ensures
        found matches Some(i) ==> is_first_occurrence(haystack@, needle@, i as int),
        found is None ==> forall|j: int| !occurs_at(haystack@, needle@, j),
{
    let h: usize = haystack.len();
    let n: usize = needle.len();
    if n > h {
        return None;
    }
    let last: usize = h - n;
    let mut i: usize = 0;
    while i <= last
        invariant
            h == haystack@.len(),
            n == needle@.len(),
            last == h - n,
            i <= last + 1,
            forall|j: int| 0 <= j < i ==> !occurs_at(haystack@, needle@, j),
        decreases last + 1 - i,
    {
        if matches_at(haystack, needle, i) {
            return Some(i);
        }
        assert(n > 0) by {
            if n == 0 {
                assert(haystack@.subrange(i as int, i as int) =~= needle@);
            }
        }
        i += 1;
    }
    None
}

/// The longest text that `find_bytes` takes, `i32::MAX` bytes.
pub const FIND_BYTES_LIMIT: usize = 2147483647;

/// Finds the first place where `pattern` stands in `text` with `twoway::find_bytes`.
///
/// Trusted: the result is the least offset at which `pattern` occurs in `text`, and `None`
/// exactly when it occurs nowhere. An empty `pattern` is found at offset 0.
///
/// This is claimed of texts of at most `i32::MAX` bytes only. Where the processor offers
/// it, that function scans the text sixteen bytes at a time and counts the bytes that are
/// left in a signed 32-bit number, so it can miss an occurrence in a longer text.
#[verifier::external_body]
pub(crate) fn find_bytes(text: &[u8], pattern: &[u8]) -> (found: Option<usize>)
    requires
        text@.len() <= i32::MAX,
    ensures
        found matches Some(i) ==> is_first_occurrence(text@, pattern@, i as int),
        found is None ==> forall|j: int| !occurs_at(text@, pattern@, j),
{
    twoway::find_bytes(text, pattern)
}

} // verus!
