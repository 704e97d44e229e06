//! Kadane's algorithm, in `O(n)` time: a single scan keeps the best sum of a
//! run that ends at the current position, and the best sum seen so far.
use std::ops::Range;

use vstd::prelude::*;

use crate::maximum_subarray::{is_max_with_empty, range_sum, sums_fit, MaximumSubarray};

verus! {

/// Finds a run of `data` with the greatest sum, the empty run included.
///
/// Of the runs with the greatest positive sum, the one that ends first is
/// returned, and of those the shortest. Without a positive run the result is
/// the empty range `0..0` with value zero.
pub fn kadanes_algorithm(data: &[i64]) -> (r: MaximumSubarray<i64>)
    requires
        sums_fit(data@),
    ensures
        is_max_with_empty(data@, r),
        r.value > 0 ==> forall|lo: int, hi: int|
            0 <= lo < hi <= data@.len() && #[trigger] range_sum(data@, lo, hi) == r.value
                ==> r.range.end < hi || (r.range.end == hi && lo <= r.range.start),
{
    let n = data.len();
    let mut best_sum: i64 = 0;
    let mut current_sum: i64 = 0;
    let mut best_start: usize = 0;
    let mut best_end: usize = 0;
    let mut current_start: usize = 0;

    let mut i: usize = 0;
    while i < n
        invariant
            i <= n,
            n == data@.len(),
            sums_fit(data@),
            current_start <= i,
            i > 0 ==> current_start < i,
            current_sum == range_sum(data@, current_start as int, i as int),
            // `current_sum` is the best sum of a non-empty run that ends at `i`,
            // and `current_start` the latest start that reaches it.
            forall|lo: int| 0 <= lo < i ==> #[trigger] range_sum(data@, lo, i as int) <= current_sum,
            forall|lo: int|
                current_start < lo < i ==> #[trigger] range_sum(data@, lo, i as int) < current_sum,
            best_start <= best_end <= i,
            best_sum >= 0,
            best_sum == range_sum(data@, best_start as int, best_end as int),
            best_sum == 0 ==> best_start == 0 && best_end == 0,
            best_sum > 0 ==> best_start < best_end,
            forall|lo: int, hi: int|
                0 <= lo <= hi <= i ==> #[trigger] range_sum(data@, lo, hi) <= best_sum,
            best_sum > 0 ==> forall|lo: int, hi: int|
                0 <= lo < hi < best_end ==> #[trigger] range_sum(data@, lo, hi) < best_sum,
            best_sum > 0 ==> forall|lo: int|
                best_start < lo < best_end ==> #[trigger] range_sum(data@, lo, best_end as int)
                    < best_sum,
        decreases n - i,
    {
        let current_element = data[i];
        let ghost previous_sum = current_sum;
        assert(range_sum(data@, current_start as int, i + 1) == previous_sum + current_element);
        if current_sum <= 0 {
            current_start = i;
            current_sum = current_element;
        } else {
            current_sum = current_sum + current_element;
        }
        proof {
            assert forall|lo: int| 0 <= lo <= i implies #[trigger] range_sum(data@, lo, i + 1)
                <= current_sum && (current_start < lo ==> range_sum(data@, lo, i + 1)
                < current_sum) by {
                assert(range_sum(data@, lo, i + 1) == range_sum(data@, lo, i as int)
                    + current_element);
                if lo < i {
                    assert(range_sum(data@, lo, i as int) <= previous_sum);
                }
            }
        }

        if current_sum > best_sum {
            best_sum = current_sum;
            best_start = current_start;
            best_end = i + 1;
        }
        proof {
            assert forall|lo: int, hi: int| 0 <= lo <= hi <= i + 1 implies #[trigger] range_sum(
                data@,
                lo,
                hi,
            ) <= best_sum by {
                if hi == i + 1 && lo <= i {
                    assert(range_sum(data@, lo, i + 1) <= current_sum);
                }
            }
        }
        i = i + 1;
    }

    MaximumSubarray { range: Range { start: best_start, end: best_end }, value: best_sum }
}

} // verus!
