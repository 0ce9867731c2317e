//! Byte-level scanning helpers: finding a delimiter and copying a range.

use vstd::prelude::*;

verus! {

/// Index of the first occurrence of `b` in `s`, or `s.len()` when `b` does
/// not occur.
pub open spec fn first_idx(s: Seq<u8>, b: u8) -> nat
    decreases s.len(),
{
    if s.len() == 0 {
        0
    } else if s[0] == b {
        0
    } else {
        1 + first_idx(s.drop_first(), b)
    }
}

/// `first_idx(s, b)` is pinned down by a scan that saw no `b` before `i`
/// and either `b` at `i` or the end of `s`.
pub proof fn lemma_first_idx_at(s: Seq<u8>, b: u8, i: nat)
    requires
        i <= s.len(),
        forall|j: int| 0 <= j < i ==> s[j] != b,
        i < s.len() ==> s[i as int] == b,
    ensures
        first_idx(s, b) == i,
    decreases i,
{
    if s.len() == 0 {
    } else if s[0] == b {
        assert(i == 0);
    } else {
        assert(s[0] != b);
        assert(i >= 1);
        lemma_first_idx_at(s.drop_first(), b, (i - 1) as nat);
    }
}

/// First position of `b` in `v` within `[start, end)`, or `end` when `b`
/// does not occur there.
pub fn find_in_range(v: &Vec<u8>, start: usize, end: usize, b: u8) -> (r: usize)
    requires
        start <= end <= v@.len(),
    ensures
        start <= r <= end,
        forall|j: int| start <= j < r ==> v@[j] != b,
        r < end ==> v@[r as int] == b,
{
    let mut i: usize = start;
    while i < end
        invariant
            start <= i <= end <= v@.len(),
            forall|j: int| start <= j < i ==> v@[j] != b,
        decreases end - i,
    {
        if v[i] == b {
            return i;
        }
        i = i + 1;
    }
    i
}

/// A fresh vector holding the bytes of `v` in `[start, end)`.
pub fn subvec(v: &Vec<u8>, start: usize, end: usize) -> (r: Vec<u8>)
    requires
        start <= end <= v@.len(),
    ensures
        r@ == v@.subrange(start as int, end as int),
{
    let mut out: Vec<u8> = Vec::new();
    let mut i: usize = start;
    while i < end
        invariant
            start <= i <= end <= v@.len(),
            out@ == v@.subrange(start as int, i as int),
        decreases end - i,
    {
        out.push(v[i]);
        assert(out@ =~= v@.subrange(start as int, i + 1));
        i = i + 1;
    }
    out
}

} // verus!
