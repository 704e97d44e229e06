//! The divide-and-conquer solution, in `O(n lg n)` time: a best run lies in the
//! left half, in the right half, or it passes the midpoint; the last kind is
//! found by extending from the midpoint in each direction.
use std::ops::Range;

use vstd::prelude::*;

use crate::maximum_subarray::{
    is_max_nonempty, is_subarray_of, range_sum, sums_fit, MaximumSubarray,
};

verus! {

/// The start of the best run of `s` that ends at `mid` and starts in
/// `lo..mid`, scanning from `mid - 1` down: of equal sums the start nearest
/// to `mid` is kept.
pub open spec fn crossing_start(s: Seq<i64>, lo: int, mid: int) -> int
    decreases mid - lo,
{
    if lo >= mid - 1 {
        mid - 1
    } else {
        let a = crossing_start(s, lo + 1, mid);
        if range_sum(s, lo, mid) > range_sum(s, a, mid) {
            lo
        } else {
            a
        }
    }
}

/// The end of the best run of `s` that starts at `mid` and ends in
/// `mid + 1..=hi`, scanning upwards: of equal sums the end nearest to `mid`
/// is kept.
pub open spec fn crossing_end(s: Seq<i64>, mid: int, hi: int) -> int
    decreases hi - mid,
{
    if hi <= mid + 1 {
        mid + 1
    } else {
        let b = crossing_end(s, mid, hi - 1);
        if range_sum(s, mid, hi) > range_sum(s, mid, b) {
            hi
        } else {
            b
        }
    }
}

/// The run, as start and end, that the divide-and-conquer algorithm picks
/// within `lo..hi`: the best of the left half's run, the right half's run and
/// the best run through the midpoint, preferring them in that order on equal
/// sums.
pub open spec fn divide_and_conquer_run(s: Seq<i64>, lo: int, hi: int) -> (int, int)
    decreases hi - lo,
{
    if hi - lo <= 1 {
        (lo, hi)
    } else {
        let mid = lo + (hi - lo) / 2;
        let left = divide_and_conquer_run(s, lo, mid);
        let right = divide_and_conquer_run(s, mid, hi);
        let cross = (crossing_start(s, lo, mid), crossing_end(s, mid, hi));
        let l = range_sum(s, left.0, left.1);
        let r = range_sum(s, right.0, right.1);
        let c = range_sum(s, cross.0, cross.1);
        if l >= r && l >= c {
            left
        } else if r >= l && r >= c {
            right
        } else {
            cross
        }
    }
}

/// Finds a non-empty run of `data` with the greatest sum.
///
/// The empty slice gives the empty range `0..0` with value zero. Unlike the
/// other algorithms, a non-empty slice always gives a non-empty run, also
/// where every element is negative: without a positive element the result is
/// a run of length one.
pub fn shamos_algorithm(data: &[i64]) -> (r: MaximumSubarray<i64>)
    requires
        sums_fit(data@),
    ensures
        data@.len() == 0 ==> r.range.start == 0 && r.range.end == 0 && r.value == 0,
        data@.len() > 0 ==> is_max_nonempty(data@, r),
        data@.len() > 0 && no_positive(data@, 0, data@.len() as int) ==> r.range.end
            == r.range.start + 1 && r.value == data@[r.range.start as int],
        data@.len() > 0 ==> (r.range.start as int, r.range.end as int) == divide_and_conquer_run(
            data@,
            0,
            data@.len() as int,
        ),
{
    if data.len() == 0 {
        return MaximumSubarray { range: Range { start: 0, end: 0 }, value: 0 };
    }
    let r = shamos_algorithm_recursion(data, 0, data.len());
    assert(range_sum(data@, r.range.start as int, r.range.start + 1) == data@[r.range.start as int]);
    r
}

/// A best non-empty run of `data` within `lo..hi`.
fn shamos_algorithm_recursion(data: &[i64], lo: usize, hi: usize) -> (r: MaximumSubarray<i64>)
    requires
        lo < hi <= data@.len(),
        sums_fit(data@),
    ensures
        is_subarray_of(data@, r),
        lo <= r.range.start < r.range.end <= hi,
        forall|a: int, b: int|
            lo <= a < b <= hi ==> #[trigger] range_sum(data@, a, b) <= r.value,
        no_positive(data@, lo as int, hi as int) ==> r.range.end == r.range.start + 1,
        (r.range.start as int, r.range.end as int) == divide_and_conquer_run(
            data@,
            lo as int,
            hi as int,
        ),
    decreases hi - lo,
{
    if hi - lo <= 1 {
        return MaximumSubarray { range: Range { start: lo, end: hi }, value: data[lo] };
    }
    let mid = lo + (hi - lo) / 2;

    // A best run lies (a) in the left half, (b) in the right half, or (c)
    // partly in both, and then passes the midpoint.
    let left = shamos_algorithm_recursion(data, lo, mid);
    let right = shamos_algorithm_recursion(data, mid, hi);
    let cross = find_max_crossing_subarray(data, lo, mid, hi);

    proof {
        assert forall|a: int, b: int| lo <= a < b <= hi implies #[trigger] range_sum(data@, a, b)
            <= left.value || range_sum(data@, a, b) <= right.value || range_sum(data@, a, b)
            <= cross.value by {
            if b <= mid {
                assert(range_sum(data@, a, b) <= left.value);
            } else if a >= mid {
                assert(range_sum(data@, a, b) <= right.value);
            } else {
                assert(range_sum(data@, a, b) <= cross.value);
            }
        }
        if no_positive(data@, lo as int, hi as int) {
            // A run through the midpoint sums to no more than its element just
            // before the midpoint, which the left half already offers alone.
            let a = cross.range.start as int;
            let b = cross.range.end as int;
            lemma_no_positive_sum(data@, a, mid - 1);
            lemma_no_positive_sum(data@, mid as int, b);
            assert(range_sum(data@, mid - 1, mid as int) <= left.value);
            assert(cross.value <= left.value);
        }
    }

    if left.value >= right.value && left.value >= cross.value {
        left
    } else if right.value >= left.value && right.value >= cross.value {
        right
    } else {
        cross
    }
}

/// No element of `s[lo..hi]` is positive.
pub open spec fn no_positive(s: Seq<i64>, lo: int, hi: int) -> bool {
    forall|k: int| lo <= k < hi ==> #[trigger] s[k] <= 0
}

/// A run without positive elements has a sum of at most zero.
proof fn lemma_no_positive_sum(s: Seq<i64>, lo: int, hi: int)
    requires
        0 <= lo <= hi <= s.len(),
        no_positive(s, lo, hi),
    ensures
        range_sum(s, lo, hi) <= 0,
    decreases hi - lo,
{
    if lo < hi {
        lemma_no_positive_sum(s, lo, hi - 1);
        assert(s[hi - 1] <= 0);
    }
}

/// A best run of `data` that starts in `lo..mid` and ends in `mid + 1..=hi`,
/// that is, one that passes the midpoint.
fn find_max_crossing_subarray(data: &[i64], lo: usize, mid: usize, hi: usize) -> (r:
    MaximumSubarray<i64>)
    requires
        lo < mid < hi <= data@.len(),
        sums_fit(data@),
    ensures
        is_subarray_of(data@, r),
        lo <= r.range.start < mid < r.range.end <= hi,
        r.range.start == crossing_start(data@, lo as int, mid as int),
        r.range.end == crossing_end(data@, mid as int, hi as int),
        forall|a: int, b: int|
            lo <= a < mid < b <= hi ==> #[trigger] range_sum(data@, a, b) <= r.value,
{
    // There is no `-infinity` to start from, so the first step of each
    // extension, which always happens, is taken before its loop.
    let mut left_sum: i64 = data[mid - 1];
    let mut sum: i64 = left_sum;
    let mut max_left: usize = mid - 1;
    let mut i: usize = mid - 1;

    while i > lo
        invariant
            lo <= i <= max_left < mid < hi <= data@.len(),
            sums_fit(data@),
            sum == range_sum(data@, i as int, mid as int),
            left_sum == range_sum(data@, max_left as int, mid as int),
            max_left == crossing_start(data@, i as int, mid as int),
            forall|a: int| i <= a < mid ==> #[trigger] range_sum(data@, a, mid as int) <= left_sum,
        decreases i,
    {
        i = i - 1;
        assert(range_sum(data@, i as int, mid as int) == data@[i as int] + sum);
        sum = sum + data[i];
        if sum > left_sum {
            left_sum = sum;
            max_left = i;
        }
    }

    let mut right_sum: i64 = data[mid];
    let mut sum: i64 = right_sum;
    // The exclusive end of the best extension to the right.
    let mut max_right: usize = mid + 1;
    let mut j: usize = mid + 1;

    while j < hi
        invariant
            mid < max_right <= j <= hi <= data@.len(),
            sums_fit(data@),
            sum == range_sum(data@, mid as int, j as int),
            right_sum == range_sum(data@, mid as int, max_right as int),
            max_right == crossing_end(data@, mid as int, j as int),
            forall|b: int| mid < b <= j ==> #[trigger] range_sum(data@, mid as int, b) <= right_sum,
        decreases hi - j,
    {
        assert(range_sum(data@, mid as int, j + 1) == sum + data@[j as int]);
        sum = sum + data[j];
        j = j + 1;
        if sum > right_sum {
            right_sum = sum;
            max_right = j;
        }
    }

    assert(range_sum(data@, max_left as int, max_right as int) == left_sum + right_sum);
    proof {
        assert forall|a: int, b: int| lo <= a < mid < b <= hi implies #[trigger] range_sum(
            data@,
            a,
            b,
        ) <= left_sum + right_sum by {
            assert(range_sum(data@, a, mid as int) <= left_sum);
            assert(range_sum(data@, mid as int, b) <= right_sum);
        }
    }
    MaximumSubarray {
        range: Range { start: max_left, end: max_right },
        value: left_sum + right_sum,
    }
}

} // verus!
