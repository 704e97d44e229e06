//! Merge sort, in `O(n lg n)` time: each half is sorted recursively, then the
//! two sorted halves are merged. The merge needs `O(n)` additional memory.
use vstd::prelude::*;

use crate::sorting::sorted;

verus! {

broadcast use vstd::seq_lib::group_to_multiset_ensures;

/// Sorts `data` in ascending order.
pub fn merge_sort(data: &mut Vec<i32>)
    ensures
        sorted(final(data)@),
        final(data)@.to_multiset() == old(data)@.to_multiset(),
{
    let end = data.len();
    if end <= 1 {
        return;
    }
    merge_sort_recursion(data, 0, end);
    assert(data@ =~= data@.subrange(0, end as int));
    assert(old(data)@ =~= old(data)@.subrange(0, end as int));
}

/// Sorts `data[start..end]`, leaving the rest of `data` as it is.
fn merge_sort_recursion(data: &mut Vec<i32>, start: usize, end: usize)
    requires
        start < end <= old(data)@.len(),
    ensures
        final(data)@.len() == old(data)@.len(),
        sorted(final(data)@.subrange(start as int, end as int)),
        final(data)@.subrange(start as int, end as int).to_multiset() == old(data)@.subrange(
            start as int,
            end as int,
        ).to_multiset(),
        forall|k: int|
            0 <= k < old(data)@.len() && !(start <= k < end) ==> #[trigger] final(data)@[k] == old(
                data,
            )@[k],
    decreases end - start,
{
    if start < end - 1 {
        let middle = start + (end - start) / 2;
        let ghost s0 = data@;
        merge_sort_recursion(data, start, middle);
        let ghost s1 = data@;
        merge_sort_recursion(data, middle, end);
        let ghost s2 = data@;
        proof {
            assert(s1.subrange(middle as int, end as int) =~= s0.subrange(middle as int, end as int));
            assert(s2.subrange(start as int, middle as int) =~= s1.subrange(start as int, middle as int));
            lemma_split_multiset(s0, start as int, middle as int, end as int);
            lemma_split_multiset(s2, start as int, middle as int, end as int);
        }
        merge(data, start, middle, end);
    } else {
        assert(sorted(data@.subrange(start as int, end as int)));
    }
}

/// The multiset of `s[lo..hi]` is that of `s[lo..mid]` plus that of `s[mid..hi]`.
proof fn lemma_split_multiset(s: Seq<i32>, lo: int, mid: int, hi: int)
    requires
        0 <= lo <= mid <= hi <= s.len(),
    ensures
        s.subrange(lo, hi).to_multiset() == s.subrange(lo, mid).to_multiset().add(
            s.subrange(mid, hi).to_multiset(),
        ),
{
    vstd::seq_lib::lemma_multiset_commutative(s.subrange(lo, mid), s.subrange(mid, hi));
    assert(s.subrange(lo, hi) =~= s.subrange(lo, mid) + s.subrange(mid, hi));
}

/// Merges the adjacent sorted runs `data[left..middle]` and
/// `data[middle..right]` into one sorted run in their place. Of equal
/// elements, those of the left run come first.
fn merge(data: &mut Vec<i32>, left: usize, middle: usize, right: usize)
    requires
        left <= middle <= right <= old(data)@.len(),
        sorted(old(data)@.subrange(left as int, middle as int)),
        sorted(old(data)@.subrange(middle as int, right as int)),
    ensures
        final(data)@.len() == old(data)@.len(),
        sorted(final(data)@.subrange(left as int, right as int)),
        final(data)@.subrange(left as int, right as int).to_multiset() == old(data)@.subrange(
            left as int,
            right as int,
        ).to_multiset(),
        forall|k: int|
            0 <= k < old(data)@.len() && !(left <= k < right) ==> #[trigger] final(data)@[k] == old(
                data,
            )@[k],
{
    let ghost l = data@.subrange(left as int, middle as int);
    let ghost r = data@.subrange(middle as int, right as int);
    let mut merged: Vec<i32> = Vec::with_capacity(right - left);
    let mut i: usize = left;
    let mut j: usize = middle;

    while i < middle || j < right
        invariant
            left <= i <= middle <= j <= right <= data@.len(),
            l == data@.subrange(left as int, middle as int),
            r == data@.subrange(middle as int, right as int),
            sorted(l),
            sorted(r),
            merged@.len() == (i - left) + (j - middle),
            sorted(merged@),
            merged@.to_multiset() == l.take(i - left).to_multiset().add(
                r.take(j - middle).to_multiset(),
            ),
            merged@.len() > 0 && i < middle ==> merged@.last() <= data@[i as int],
            merged@.len() > 0 && j < right ==> merged@.last() <= data@[j as int],
        decreases (middle - i) + (right - j),
    {
        if j >= right || (i < middle && !(data[j] < data[i])) {
            let item = data[i];
            proof {
                assert(l.take(i - left + 1) =~= l.take(i - left).push(item));
                assert(l[i - left] == item);
                if i + 1 < middle {
                    assert(l[i - left] <= l[i + 1 - left]);
                }
                if j < right {
                    assert(item <= data@[j as int]);
                }
            }
            merged.push(item);
            i = i + 1;
        } else {
            let item = data[j];
            proof {
                assert(r.take(j - middle + 1) =~= r.take(j - middle).push(item));
                assert(r[j - middle] == item);
                if j + 1 < right {
                    assert(r[j - middle] <= r[j + 1 - middle]);
                }
            }
            merged.push(item);
            j = j + 1;
        }
    }
    proof {
        assert(l.take(middle - left) =~= l);
        assert(r.take(right - middle) =~= r);
        lemma_split_multiset(data@, left as int, middle as int, right as int);
    }

    let ghost before = data@;
    let mut k: usize = 0;
    while k < merged.len()
        invariant
            merged@.len() == right - left,
            left <= right <= data@.len(),
            data@.len() == before.len(),
            k <= merged@.len(),
            forall|p: int| 0 <= p < k ==> #[trigger] data@[left + p] == merged@[p],
            forall|p: int|
                0 <= p < data@.len() && !(left <= p < left + k) ==> #[trigger] data@[p] == before[p],
        decreases merged@.len() - k,
    {
        data.set(left + k, merged[k]);
        k = k + 1;
    }
    assert forall|p: int| 0 <= p < merged@.len() implies data@.subrange(
        left as int,
        right as int,
    )[p] == merged@[p] by {
        assert(data@[left + p] == merged@[p]);
    }
    assert(data@.subrange(left as int, right as int) =~= merged@);
}

} // verus!
