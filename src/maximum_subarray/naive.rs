//! The brute-force solution, in `O(n^2)` time: every run is visited, and the
//! sum of a run is built from the sum of the run one shorter, in `O(1)`.
use std::ops::Range;

use vstd::prelude::*;

use crate::maximum_subarray::{is_max_with_empty, range_sum, sums_fit, MaximumSubarray};

verus! {

/// The run `lo..hi` comes no later than `i..j` in the order of the scan:
/// by start, then by end.
pub open spec fn scanned(lo: int, hi: int, i: int, j: int) -> bool {
    lo < i || (lo == i && hi <= j)
}

/// Finds a run of `data` with the greatest sum, the empty run included.
///
/// Of the runs with the greatest positive sum, the one with the smallest start
/// is returned, and of those the shortest. Without a positive run the result
/// is the empty range `0..0` with value zero.
pub fn naive_algorithm(data: &[i64]) -> (r: MaximumSubarray<i64>)
    requires
        sums_fit(data@),
    ensures
        is_max_with_empty(data@, r),
        r.value > 0 ==> forall|lo: int, hi: int|
            0 <= lo < hi <= data@.len() && #[trigger] range_sum(data@, lo, hi) == r.value
                ==> scanned(r.range.start as int, r.range.end as int, lo, hi),
{
    let n = data.len();
    let mut left: usize = 0;
    let mut right: usize = 0;
    let mut max_sum: i64 = 0;

    for i in 0..n
        invariant
            n == data@.len(),
            sums_fit(data@),
            left <= right <= n,
            max_sum == range_sum(data@, left as int, right as int),
            max_sum >= 0,
            max_sum == 0 ==> left == 0 && right == 0,
            max_sum > 0 ==> left < right && left < i,
            forall|lo: int, hi: int|
                0 <= lo <= hi <= n && lo < i ==> #[trigger] range_sum(data@, lo, hi) <= max_sum,
            max_sum > 0 ==> forall|lo: int, hi: int|
                0 <= lo < hi <= n && lo < i && #[trigger] range_sum(data@, lo, hi) == max_sum
                    ==> scanned(left as int, right as int, lo, hi),
    {
        let mut last_sum: i64 = 0;
        for j in i..n
            invariant
                n == data@.len(),
                i < n,
                sums_fit(data@),
                left <= right <= n,
                last_sum == range_sum(data@, i as int, j as int),
                max_sum == range_sum(data@, left as int, right as int),
                max_sum >= 0,
                max_sum == 0 ==> left == 0 && right == 0,
                max_sum > 0 ==> left < right && scanned(left as int, right as int, i as int, j as int),
                forall|lo: int, hi: int|
                    0 <= lo <= hi <= n && scanned(lo, hi, i as int, j as int)
                        ==> #[trigger] range_sum(data@, lo, hi) <= max_sum,
                max_sum > 0 ==> forall|lo: int, hi: int|
                    0 <= lo < hi <= n && scanned(lo, hi, i as int, j as int)
                        && #[trigger] range_sum(data@, lo, hi) == max_sum
                        ==> scanned(left as int, right as int, lo, hi),
        {
            assert(range_sum(data@, i as int, j + 1) == range_sum(data@, i as int, j as int) + data@[j as int]);
            last_sum = last_sum + data[j];
            if last_sum > max_sum {
                left = i;
                right = j + 1;
                max_sum = last_sum;
            }
        }
    }

    MaximumSubarray { range: Range { start: left, end: right }, value: max_sum }
}

} // verus!
