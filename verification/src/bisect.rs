//! Insertion-point search over a sorted slice: the classic "bisect right",
//! which lands to the right of any run of elements equal to the probe.

use vstd::prelude::*;

verus! {

/// Index, relative to `lo`, of the first element of `a[lo..hi]` that is
/// greater than `v`; `hi - lo` when no such element exists.
pub fn bisect_right_range(a: &[usize], v: usize, lo: usize, hi: usize) -> (r: usize)
    requires
        lo <= hi <= a@.len(),
        forall|i: int, j: int| lo <= i <= j < hi ==> a@[i] <= a@[j],
    ensures
        r <= hi - lo,
        forall|i: int| lo <= i < lo + r ==> a@[i] <= v,
        forall|i: int| lo + r <= i < hi ==> a@[i] > v,
{
    let mut i1: usize = lo;
    let mut i2: usize = hi;
    while i1 != i2
        invariant
            lo <= i1 <= i2 <= hi <= a@.len(),
            forall|i: int, j: int| lo <= i <= j < hi ==> a@[i] <= a@[j],
            forall|i: int| lo <= i < i1 ==> a@[i] <= v,
            forall|i: int| i2 <= i < hi ==> a@[i] > v,
        decreases i2 - i1,
    {
        let ix = i1 + (i2 - i1) / 2;
        if a[ix] <= v {
            i1 = ix + 1;
        } else {
            i2 = ix;
        }
    }
    i1 - lo
}

/// The insertion point for `v` in the whole sorted slice `a`: every element
/// strictly before it is `<= v`, every element from it on is `> v`.
pub fn right(a: &[usize], v: usize) -> (r: usize)
    requires
        forall|i: int, j: int| 0 <= i <= j < a@.len() ==> a@[i] <= a@[j],
    ensures
        r <= a@.len(),
        forall|i: int| 0 <= i < r ==> a@[i] <= v,
        forall|i: int| r <= i < a@.len() ==> a@[i] > v,
{
    bisect_right_range(a, v, 0, a.len())
}

} // verus!
