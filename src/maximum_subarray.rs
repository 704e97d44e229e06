//! The maximum-subarray problem: given a sequence of numbers, find a contiguous
//! run of it whose sum is as large as possible.
//!
//! Three algorithms are offered. [`naive::naive_algorithm`] and
//! [`kadanes_algorithm`] consider the empty run as a candidate, so on input
//! without a positive element they answer with the empty range `0..0` and the
//! value zero. [`shamos::shamos_algorithm`] only considers non-empty runs once
//! the input is non-empty, so there it answers with a run of length one.
use std::ops::Range;

use vstd::prelude::*;

pub mod kadanes;
pub mod naive;
pub mod shamos;

pub use kadanes::kadanes_algorithm;



verus! {

/// A maximal subarray of some slice.
#[derive(Debug, PartialEq, Eq)]
pub struct MaximumSubarray<T> {
    /// Indices of the subarray, as pertaining to the original slice.
    pub range: Range<usize>,
    /// The sum over all the elements of `slice[range]`.
    pub value: T,
}

/// Sum of the first `k` elements of `s`.
pub open spec fn prefix_sum(s: Seq<i64>, k: int) -> int
    decreases k,
{
    if k <= 0 || k > s.len() {
        0
    } else {
        prefix_sum(s, k - 1) + s[k - 1]
    }
}

/// Sum of the elements `s[lo..hi]`, for `0 <= lo <= hi <= s.len()`.
pub open spec fn range_sum(s: Seq<i64>, lo: int, hi: int) -> int {
    prefix_sum(s, hi) - prefix_sum(s, lo)
}

/// Every contiguous run of `s` has a sum that an `i64` can hold.
pub open spec fn sums_fit(s: Seq<i64>) -> bool {
    forall|lo: int, hi: int|
        0 <= lo <= hi <= s.len() ==> i64::MIN <= #[trigger] range_sum(s, lo, hi) <= i64::MAX
}

/// `r` names a run of `s` and carries that run's sum.
pub open spec fn is_subarray_of(s: Seq<i64>, r: MaximumSubarray<i64>) -> bool {
    &&& r.range.start <= r.range.end <= s.len()
    &&& r.value == range_sum(s, r.range.start as int, r.range.end as int)
}

/// No run of `s`, the empty ones included, sums to more than `value`.
pub open spec fn bounds_all_runs(s: Seq<i64>, value: int) -> bool {
    forall|lo: int, hi: int| 0 <= lo <= hi <= s.len() ==> #[trigger] range_sum(s, lo, hi) <= value
}

/// No non-empty run of `s` sums to more than `value`.
pub open spec fn bounds_nonempty_runs(s: Seq<i64>, value: int) -> bool {
    forall|lo: int, hi: int| 0 <= lo < hi <= s.len() ==> #[trigger] range_sum(s, lo, hi) <= value
}

/// `r` is a best run of `s` when the empty run counts as a candidate, and it is
/// the empty range at the start exactly when no run has a positive sum.
pub open spec fn is_max_with_empty(s: Seq<i64>, r: MaximumSubarray<i64>) -> bool {
    &&& is_subarray_of(s, r)
    &&& bounds_all_runs(s, r.value as int)
    &&& r.value == 0 ==> r.range.start == 0 && r.range.end == 0
}

/// `r` is a best non-empty run of the non-empty sequence `s`.
pub open spec fn is_max_nonempty(s: Seq<i64>, r: MaximumSubarray<i64>) -> bool {
    &&& is_subarray_of(s, r)
    &&& r.range.start < r.range.end
    &&& bounds_nonempty_runs(s, r.value as int)
}

/// On a non-empty sequence the three algorithms agree on the best sum, once a
/// result whose sum is not positive is read as the empty run with value zero:
/// the two that count the empty run give the same value, and that value is
/// the divide-and-conquer value where it is positive and zero otherwise.
pub proof fn lemma_algorithms_agree(
    s: Seq<i64>,
    naive: MaximumSubarray<i64>,
    shamos: MaximumSubarray<i64>,
    kadane: MaximumSubarray<i64>,
)
    requires
        s.len() > 0,
        is_max_with_empty(s, naive),
        is_max_nonempty(s, shamos),
        is_max_with_empty(s, kadane),
    ensures
        naive.value == kadane.value,
        naive.value == (if shamos.value > 0 {
            shamos.value
        } else {
            0
        }),
{
    assert(range_sum(s, 0, 0) == 0);
    assert(range_sum(s, naive.range.start as int, naive.range.end as int) == naive.value);
    assert(range_sum(s, shamos.range.start as int, shamos.range.end as int) == shamos.value);
}

} // verus!
