//! Sorting algorithms: each one rearranges a sequence of integers into
//! ascending order, keeping the same elements with the same multiplicities.
use vstd::prelude::*;

pub mod bubble_sort;
pub mod insertion_sort;
pub mod merge_sort;
pub mod selection_sort;

verus! {

broadcast use vstd::seq_lib::group_to_multiset_ensures;

/// The elements of `s` are in ascending order.
pub open spec fn sorted(s: Seq<i32>) -> bool {
    forall|i: int, j: int| 0 <= i <= j < s.len() ==> s[i] <= s[j]
}

/// `s` with the elements at positions `i` and `j` exchanged.
pub open spec fn swapped(s: Seq<i32>, i: int, j: int) -> Seq<i32> {
    s.update(i, s[j]).update(j, s[i])
}

/// Exchanging two elements keeps the multiset of a sequence.
pub proof fn lemma_swap_keeps_elements(s: Seq<i32>, i: int, j: int)
    requires
        0 <= i < s.len(),
        0 <= j < s.len(),
    ensures
        swapped(s, i, j).to_multiset() == s.to_multiset(),
{
    broadcast use vstd::multiset::group_multiset_axioms;

    let t = s.update(i, s[j]);
    assert(t[j] == if i == j {
        s[i]
    } else {
        s[j]
    });
    assert(swapped(s, i, j).to_multiset() =~= s.to_multiset());
}

/// Exchanges the elements at positions `i` and `j` of a slice.
pub(crate) fn swap_in_slice(data: &mut [i32], i: usize, j: usize)
    requires
        i < old(data)@.len(),
        j < old(data)@.len(),
    ensures
        final(data)@ == swapped(old(data)@, i as int, j as int),
        final(data)@.to_multiset() == old(data)@.to_multiset(),
{
    proof {
        lemma_swap_keeps_elements(data@, i as int, j as int);
    }
    let a = data[i];
    let b = data[j];
    data[i] = b;
    data[j] = a;
}

/// Exchanges the elements at positions `i` and `j` of a vector.
pub(crate) fn swap_in_vec(data: &mut Vec<i32>, i: usize, j: usize)
    requires
        i < old(data)@.len(),
        j < old(data)@.len(),
    ensures
        final(data)@ == swapped(old(data)@, i as int, j as int),
        final(data)@.to_multiset() == old(data)@.to_multiset(),
{
    proof {
        lemma_swap_keeps_elements(data@, i as int, j as int);
    }
    let a = data[i];
    let b = data[j];
    data.set(i, b);
    data.set(j, a);
}

} // verus!
