//! Substring tests on driver-reported strings.

use vstd::prelude::*;

verus! {

/// `needle` occurs in `hay` at some position.
pub open spec fn has_substring(hay: Seq<char>, needle: Seq<char>) -> bool {
    exists|i: int| 0 <= i && i + needle.len() <= hay.len() && #[trigger] hay.subrange(i, i + needle.len()) == needle
}

/// `hay` begins with `prefix`.
pub open spec fn has_prefix(hay: Seq<char>, prefix: Seq<char>) -> bool {
    prefix.len() <= hay.len() && hay.subrange(0, prefix.len() as int) == prefix
}

/// Whether `p` occurs in `h` at position `start`.
fn matches_at(h: &Vec<char>, p: &Vec<char>, start: usize) -> (b: bool)
    requires
        start + p@.len() <= h@.len(),
    ensures
        b == (h@.subrange(start as int, start + p@.len()) == p@),
{
    let hl = h.len();
    let mut k: usize = 0;
    while k < p.len()
        invariant
            start + p@.len() <= h@.len(),
            hl == h@.len(),
            0 <= k <= p@.len(),
            forall|j: int| 0 <= j < k ==> h@[start + j] == p@[j],
        decreases p@.len() - k,
    {
        if h[start + k] != p[k] {
            assert(h@.subrange(start as int, start + p@.len())[k as int] != p@[k as int]);
            return false;
        }
        k = k + 1;
    }
    assert(h@.subrange(start as int, start + p@.len()) =~= p@);
    true
}

/// Whether `needle` occurs in `hay` (what `str::contains` answers for a
/// string pattern).
pub(crate) fn str_contains(hay: &str, needle: &str) -> (b: bool)
    ensures
        b == has_substring(hay@, needle@),
{
    let h = chars_of(hay);
    let p = chars_of(needle);
    if p.len() > h.len() {
        return false;
    }
    let last = h.len() - p.len();
    let mut i: usize = 0;
    while i <= last
        invariant
            h@ == hay@,
            p@ == needle@,
            last == h@.len() - p@.len(),
            p@.len() <= h@.len(),
            0 <= i <= last,
            forall|j: int| 0 <= j < i ==> #[trigger] h@.subrange(j, j + p@.len()) != p@,
        decreases last - i,
    {
        if matches_at(&h, &p, i) {
            return true;
        }
        if i == last {
            assert(forall|j: int| 0 <= j <= last ==> #[trigger] h@.subrange(j, j + p@.len()) != p@);
            return false;
        }
        i = i + 1;
    }
    false
}

/// Whether `hay` begins with `prefix` (what `str::starts_with` answers
/// for a string pattern).
pub(crate) fn str_starts_with(hay: &str, prefix: &str) -> (b: bool)
    ensures
        b == has_prefix(hay@, prefix@),
{
    let h = chars_of(hay);
    let p = chars_of(prefix);
    if p.len() > h.len() {
        return false;
    }
    matches_at(&h, &p, 0)
}

/// The characters of a string, in order.
pub fn chars_of(s: &str) -> (v: Vec<char>)
    ensures
        v@ == s@,
{
    let mut v: Vec<char> = Vec::new();
    for c in it: s.chars()
        invariant
            v@ == it.seq().take(it.index() as int),
            it.seq() == s@,
    {
        v.push(c);
        assert(v@ =~= it.seq().take(it.index() + 1));
    }
    assert(v@ =~= s@);
    v
}

} // verus!
