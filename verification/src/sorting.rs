//! Sorting prices into ascending order, by merging.
use vstd::multiset::Multiset;
use vstd::prelude::*;
use vstd::seq_lib::{lemma_multiset_commutative, to_multiset_build};

verus! {

/// The values of `values` as mathematical integers.
pub open spec fn as_ints(values: Seq<i64>) -> Seq<int> {
    values.map_values(|v: i64| v as int)
}

/// No element of `values` is greater than a later one.
pub open spec fn is_sorted(values: Seq<int>) -> bool {
    forall|i: int, j: int| 0 <= i <= j < values.len() ==> values[i] <= values[j]
}

/// The elements of `values`, each as often as it occurs, in no order.
pub open spec fn bag(values: Seq<i64>) -> Multiset<int> {
    as_ints(values).to_multiset()
}

/// Nothing is in the bag of no elements.
pub proof fn lemma_bag_empty()
    ensures
        bag(Seq::<i64>::empty()) == Multiset::<int>::empty(),
{
    let none = as_ints(Seq::<i64>::empty());
    none.to_multiset_ensures();
}

/// An element no smaller than all of an ascending run may follow it.
proof fn lemma_push_keeps_sorted(values: Seq<i64>, value: i64)
    requires
        is_sorted(as_ints(values)),
        forall|k: int| 0 <= k < values.len() ==> values[k] <= value,
    ensures
        is_sorted(as_ints(values.push(value))),
{
    let longer = as_ints(values.push(value));
    assert forall|i: int, j: int| 0 <= i <= j < longer.len() implies longer[i] <= longer[j] by {
        if j < values.len() {
            assert(as_ints(values)[i] <= as_ints(values)[j]);
        } else if i < values.len() {
            assert(values[i] <= value);
        }
    }
}

/// Pushing an element adds it to the bag.
pub proof fn lemma_bag_push(values: Seq<i64>, value: i64)
    ensures
        bag(values.push(value)) == bag(values).insert(value as int),
{
    assert(as_ints(values.push(value)) =~= as_ints(values).push(value as int));
    to_multiset_build(as_ints(values), value as int);
}

/// The bag of a run of elements is the sum of the bags of its two parts.
proof fn lemma_bag_split(values: Seq<i64>, start: int, mid: int, end: int)
    requires
        0 <= start <= mid <= end <= values.len(),
    ensures
        bag(values.subrange(start, end)) == bag(values.subrange(start, mid)).add(
            bag(values.subrange(mid, end)),
        ),
{
    assert(as_ints(values.subrange(start, end)) =~= as_ints(values.subrange(start, mid))
        + as_ints(values.subrange(mid, end)));
    lemma_multiset_commutative(
        as_ints(values.subrange(start, mid)),
        as_ints(values.subrange(mid, end)),
    );
}

/// The first and last elements of an ascending arrangement of `values` are
/// the least and the greatest of `values`.
pub proof fn lemma_sorted_extrema(sorted: Seq<int>, values: Seq<int>)
    requires
        is_sorted(sorted),
        sorted.to_multiset() == values.to_multiset(),
        values.len() > 0,
    ensures
        sorted.len() == values.len(),
        sorted.first() == values.min(),
        sorted.last() == values.max(),
{
    sorted.to_multiset_ensures();
    values.to_multiset_ensures();
    values.min_ensures();
    values.max_ensures();
    assert(values.to_multiset().count(sorted.first()) > 0);
    assert(values.to_multiset().count(sorted.last()) > 0);
    assert(sorted.to_multiset().count(values.min()) > 0);
    assert(sorted.to_multiset().count(values.max()) > 0);
}

/// Merges two ascending runs into one.
fn merge(left: &Vec<i64>, right: &Vec<i64>) -> (merged: Vec<i64>)
    requires
        is_sorted(as_ints(left@)),
        is_sorted(as_ints(right@)),
    ensures
        is_sorted(as_ints(merged@)),
        bag(merged@) == bag(left@).add(bag(right@)),
{
    let mut merged: Vec<i64> = Vec::new();
    let mut i: usize = 0;
    let mut j: usize = 0;
    proof {
        lemma_bag_empty();
        assert(left@.take(0) =~= Seq::<i64>::empty());
        assert(right@.take(0) =~= Seq::<i64>::empty());
    }
    while i < left.len() || j < right.len()
        invariant
            i <= left.len(),
            j <= right.len(),
            is_sorted(as_ints(left@)),
            is_sorted(as_ints(right@)),
            is_sorted(as_ints(merged@)),
            bag(merged@) == bag(left@.take(i as int)).add(bag(right@.take(j as int))),
            forall|k: int| 0 <= k < merged.len() && i < left.len() ==> merged[k] <= left[i as int],
            forall|k: int|
                0 <= k < merged.len() && j < right.len() ==> merged[k] <= right[j as int],
        decreases left.len() - i + right.len() - j,
    {
        let ghost before = merged@;
        if j >= right.len() || (i < left.len() && left[i] <= right[j]) {
            let value = left[i];
            merged.push(value);
            proof {
                lemma_push_keeps_sorted(before, value);
                lemma_bag_push(before, value);
                lemma_bag_push(left@.take(i as int), value);
                assert(left@.take(i + 1) =~= left@.take(i as int).push(value));
                assert(i + 1 < left.len() ==> as_ints(left@)[i as int] <= as_ints(left@)[i + 1]);
            }
            i += 1;
        } else {
            let value = right[j];
            merged.push(value);
            proof {
                lemma_push_keeps_sorted(before, value);
                lemma_bag_push(before, value);
                lemma_bag_push(right@.take(j as int), value);
                assert(right@.take(j + 1) =~= right@.take(j as int).push(value));
                assert(j + 1 < right.len() ==> as_ints(right@)[j as int] <= as_ints(right@)[j
                    + 1]);
            }
            j += 1;
        }
    }
    proof {
        assert(left@.take(i as int) =~= left@);
        assert(right@.take(j as int) =~= right@);
    }
    merged
}

/// Sorts the elements of `values` from `start` up to `end`.
fn sort_range(values: &Vec<i64>, start: usize, end: usize) -> (sorted: Vec<i64>)
    requires
        start <= end <= values.len(),
    ensures
        is_sorted(as_ints(sorted@)),
        bag(sorted@) == bag(values@.subrange(start as int, end as int)),
    decreases end - start,
{
    if end - start == 0 {
        let sorted: Vec<i64> = Vec::new();
        assert(sorted@ =~= values@.subrange(start as int, end as int));
        sorted
    } else if end - start == 1 {
        let mut sorted: Vec<i64> = Vec::new();
        sorted.push(values[start]);
        assert(sorted@ =~= values@.subrange(start as int, end as int));
        sorted
    } else {
        let mid = start + (end - start) / 2;
        let left = sort_range(values, start, mid);
        let right = sort_range(values, mid, end);
        proof {
            lemma_bag_split(values@, start as int, mid as int, end as int);
        }
        merge(&left, &right)
    }
}

/// The elements of `values` in ascending order.
pub fn sort_ascending(values: &Vec<i64>) -> (sorted: Vec<i64>)
    ensures
        is_sorted(as_ints(sorted@)),
        bag(sorted@) == bag(values@),
{
    assert(values@.subrange(0, values.len() as int) =~= values@);
    sort_range(values, 0, values.len())
}

} // verus!
