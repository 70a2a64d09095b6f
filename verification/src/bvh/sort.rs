//! Sorting a span of surfaces by the minimum corner of their boxes.
use vstd::prelude::*;
use crate::aabb::AABB;
use crate::bvh::{axis_key, ids_valid, span_sorted};

verus! {

/// The sort key of one surface, as a machine integer.
pub(crate) fn key_value(boxes: &Vec<AABB>, id: usize, axis: usize) -> (key: i64)
    requires
        id < boxes.len(),
        axis < 3,
    ensures
        key == axis_key(boxes@, id, axis as int),
{
    boxes[id].minimum.axis(axis).rank_value()
}

/// Exchanging two items of a sequence keeps its multiset.
pub(crate) proof fn lemma_exchange_keeps_multiset(s: Seq<usize>, i: int, j: int)
    requires
        0 <= i < s.len(),
        0 <= j < s.len(),
    ensures
        s.update(i, s[j]).update(j, s[i]).to_multiset() == s.to_multiset(),
{
    broadcast use vstd::seq_lib::to_multiset_update;
    broadcast use vstd::multiset::group_multiset_axioms;

    let once = s.update(i, s[j]);
    let twice = once.update(j, s[i]);
    assert(once.to_multiset() == s.to_multiset().insert(s[j]).remove(s[i]));
    assert(twice.to_multiset() == once.to_multiset().insert(s[i]).remove(once[j]));
    assert(once[j] == s[j]);
    assert(s.to_multiset().count(s[i]) > 0 && s.to_multiset().count(s[j]) > 0) by {
        vstd::seq_lib::to_multiset_contains(s, s[i]);
        vstd::seq_lib::to_multiset_contains(s, s[j]);
        assert(s.contains(s[i]) && s.contains(s[j]));
    }
    assert forall|x: usize| twice.to_multiset().count(x) == s.to_multiset().count(x) by {}
    assert(twice.to_multiset() =~= s.to_multiset());
}

/// Two sequences with one multiset that differ only inside `[start, end)`
/// have one multiset inside it too.
pub(crate) proof fn lemma_span_keeps_multiset(before: Seq<usize>, after: Seq<usize>, start: int, end: int)
    requires
        0 <= start <= end <= before.len(),
        before.len() == after.len(),
        before.to_multiset() == after.to_multiset(),
        forall|k: int| 0 <= k < before.len() && !(start <= k < end) ==> before[k] == after[k],
    ensures
        before.subrange(start, end).to_multiset() == after.subrange(start, end).to_multiset(),
{
    broadcast use vstd::seq_lib::lemma_multiset_commutative;
    broadcast use vstd::multiset::group_multiset_axioms;

    let n = before.len() as int;
    let head = before.subrange(0, start);
    let tail = before.subrange(end, n);
    assert(head =~= after.subrange(0, start));
    assert(tail =~= after.subrange(end, n));
    assert(before =~= head + before.subrange(start, end) + tail);
    assert(after =~= head + after.subrange(start, end) + tail);
    let b = before.subrange(start, end).to_multiset();
    let a = after.subrange(start, end).to_multiset();
    assert(before.to_multiset() =~= head.to_multiset().add(b).add(tail.to_multiset()));
    assert(after.to_multiset() =~= head.to_multiset().add(a).add(tail.to_multiset()));
    assert forall|x: usize| b.count(x) == a.count(x) by {
        assert(before.to_multiset().count(x) == head.to_multiset().count(x) + b.count(x)
            + tail.to_multiset().count(x));
        assert(after.to_multiset().count(x) == head.to_multiset().count(x) + a.count(x)
            + tail.to_multiset().count(x));
    }
    assert(b =~= a);
}

/// Two sequences with one multiset inside `[start, end)` that agree outside
/// it have one multiset as a whole.
proof fn lemma_span_carries_multiset(before: Seq<usize>, after: Seq<usize>, start: int, end: int)
    requires
        0 <= start <= end <= before.len(),
        before.len() == after.len(),
        before.subrange(start, end).to_multiset() == after.subrange(start, end).to_multiset(),
        forall|k: int| 0 <= k < before.len() && !(start <= k < end) ==> before[k] == after[k],
    ensures
        before.to_multiset() == after.to_multiset(),
{
    broadcast use vstd::seq_lib::lemma_multiset_commutative;
    broadcast use vstd::multiset::group_multiset_axioms;

    let n = before.len() as int;
    let head = before.subrange(0, start);
    let tail = before.subrange(end, n);
    assert(head =~= after.subrange(0, start));
    assert(tail =~= after.subrange(end, n));
    assert(before =~= head + before.subrange(start, end) + tail);
    assert(after =~= head + after.subrange(start, end) + tail);
    let b = before.subrange(start, end).to_multiset();
    let a = after.subrange(start, end).to_multiset();
    assert(before.to_multiset() =~= head.to_multiset().add(b).add(tail.to_multiset()));
    assert(after.to_multiset() =~= head.to_multiset().add(a).add(tail.to_multiset()));
}

/// Merges two ascending vectors of surfaces into one.
fn merge(left: &Vec<usize>, right: &Vec<usize>, boxes: &Vec<AABB>, axis: usize) -> (merged: Vec<
    usize,
>)
    requires
        axis < 3,
        ids_valid(left@, boxes@),
        ids_valid(right@, boxes@),
        span_sorted(left@, 0, left.len() as int, boxes@, axis as int),
        span_sorted(right@, 0, right.len() as int, boxes@, axis as int),
        left.len() + right.len() <= usize::MAX,
    ensures
        merged.len() == left.len() + right.len(),
        merged@.to_multiset() == left@.to_multiset().add(right@.to_multiset()),
        ids_valid(merged@, boxes@),
        span_sorted(merged@, 0, merged.len() as int, boxes@, axis as int),
{
    broadcast use vstd::seq_lib::to_multiset_build;
    broadcast use vstd::multiset::group_multiset_axioms;

    let mut merged: Vec<usize> = Vec::new();
    let mut i: usize = 0;
    let mut j: usize = 0;
    proof {
        assert(left@.take(0) =~= Seq::<usize>::empty());
        assert(right@.take(0) =~= Seq::<usize>::empty());
        assert(merged@ =~= Seq::<usize>::empty());
        vstd::seq_lib::to_multiset_len(Seq::<usize>::empty());
        assert(Seq::<usize>::empty().to_multiset() =~= vstd::multiset::Multiset::<usize>::empty());
        assert(merged@.to_multiset() =~= left@.take(0).to_multiset().add(
            right@.take(0).to_multiset(),
        ));
    }
    while i < left.len() || j < right.len()
        invariant
            axis < 3,
            i <= left.len(),
            j <= right.len(),
            left.len() + right.len() <= usize::MAX,
            merged.len() == i + j,
            ids_valid(left@, boxes@),
            ids_valid(right@, boxes@),
            ids_valid(merged@, boxes@),
            span_sorted(left@, 0, left.len() as int, boxes@, axis as int),
            span_sorted(right@, 0, right.len() as int, boxes@, axis as int),
            span_sorted(merged@, 0, merged.len() as int, boxes@, axis as int),
            merged@.to_multiset() == left@.take(i as int).to_multiset().add(
                right@.take(j as int).to_multiset(),
            ),
            forall|k: int|
                0 <= k < merged.len() && i < left.len() ==> axis_key(
                    boxes@,
                    #[trigger] merged[k],
                    axis as int,
                ) <= axis_key(boxes@, left[i as int], axis as int),
            forall|k: int|
                0 <= k < merged.len() && j < right.len() ==> axis_key(
                    boxes@,
                    #[trigger] merged[k],
                    axis as int,
                ) <= axis_key(boxes@, right[j as int], axis as int),
        decreases left.len() - i + right.len() - j,
    {
        let from_left = if i >= left.len() {
            false
        } else if j >= right.len() {
            true
        } else {
            key_value(boxes, left[i], axis) <= key_value(boxes, right[j], axis)
        };
        let ghost before = merged@;
        if from_left {
            let item = left[i];
            merged.push(item);
            proof {
                assert(left@.take(i + 1) =~= left@.take(i as int).push(item));
                assert(merged@ == before.push(item));
                vstd::seq_lib::to_multiset_build(before, item);
                vstd::seq_lib::to_multiset_build(left@.take(i as int), item);
                assert(merged@.to_multiset() =~= left@.take(i + 1).to_multiset().add(
                    right@.take(j as int).to_multiset(),
                ));
            }
            i += 1;
        } else {
            let item = right[j];
            merged.push(item);
            proof {
                assert(right@.take(j + 1) =~= right@.take(j as int).push(item));
                assert(merged@ == before.push(item));
                vstd::seq_lib::to_multiset_build(before, item);
                vstd::seq_lib::to_multiset_build(right@.take(j as int), item);
                assert(merged@.to_multiset() =~= left@.take(i as int).to_multiset().add(
                    right@.take(j + 1).to_multiset(),
                ));
            }
            j += 1;
        }
    }
    proof {
        assert(left@.take(i as int) =~= left@);
        assert(right@.take(j as int) =~= right@);
    }
    merged
}

/// Sorts a vector of surfaces so that it ascends by the minimum corner of
/// their boxes on `axis`: the halves are sorted and merged.
fn merge_sort(items: &Vec<usize>, from: usize, to: usize, boxes: &Vec<AABB>, axis: usize) -> (sorted:
    Vec<usize>)
    requires
        axis < 3,
        from <= to <= items.len(),
        ids_valid(items@, boxes@),
    ensures
        sorted.len() == to - from,
        sorted@.to_multiset() == items@.subrange(from as int, to as int).to_multiset(),
        ids_valid(sorted@, boxes@),
        span_sorted(sorted@, 0, sorted.len() as int, boxes@, axis as int),
    decreases to - from,
{
    broadcast use vstd::seq_lib::lemma_multiset_commutative;

    let count = to - from;
    if count == 0 {
        let sorted: Vec<usize> = Vec::new();
        proof {
            assert(sorted@ =~= items@.subrange(from as int, to as int));
        }
        return sorted;
    }
    if count == 1 {
        let mut sorted: Vec<usize> = Vec::new();
        sorted.push(items[from]);
        proof {
            assert(sorted@ =~= items@.subrange(from as int, to as int));
        }
        return sorted;
    }
    let mid = from + count / 2;
    let left = merge_sort(items, from, mid, boxes, axis);
    let right = merge_sort(items, mid, to, boxes, axis);
    proof {
        assert(items@.subrange(from as int, to as int) =~= items@.subrange(from as int, mid as int)
            + items@.subrange(mid as int, to as int));
    }
    merge(&left, &right, boxes, axis)
}

/// Sorts `order[start..end]` so that it ascends by the minimum corner of the
/// surfaces' boxes on `axis`. The rest of `order` stays as it is.
pub fn sort_span(
    order: &mut Vec<usize>,
    start: usize,
    end: usize,
    boxes: &Vec<AABB>,
    axis: usize,
)
    requires
        start <= end <= old(order).len(),
        axis < 3,
        ids_valid(old(order)@, boxes@),
    ensures
        final(order).len() == old(order).len(),
        ids_valid(final(order)@, boxes@),
        forall|k: int|
            0 <= k < old(order).len() && !(start <= k < end) ==> final(order)[k] == old(order)[k],
        final(order)@.to_multiset() == old(order)@.to_multiset(),
        final(order)@.subrange(start as int, end as int).to_multiset() == old(order)@.subrange(
            start as int,
            end as int,
        ).to_multiset(),
        span_sorted(final(order)@, start as int, end as int, boxes@, axis as int),
{
    let ghost before = order@;
    let sorted = merge_sort(order, start, end, boxes, axis);
    let mut k: usize = 0;
    while k < sorted.len()
        invariant
            k <= sorted.len(),
            sorted.len() == end - start,
            start <= end <= order.len(),
            order.len() == before.len(),
            forall|j: int| 0 <= j < k ==> order[start + j] == sorted[j],
            forall|j: int|
                0 <= j < before.len() && !(start <= j < start + k) ==> order[j] == before[j],
        decreases sorted.len() - k,
    {
        order.set(start + k, sorted[k]);
        k += 1;
    }
    proof {
        assert(order@.subrange(start as int, end as int) =~= sorted@);
        lemma_span_carries_multiset(before, order@, start as int, end as int);
        assert forall|j: int| 0 <= j < order.len() implies (#[trigger] order[j]) < boxes.len() by {
            if start <= j < end {
                assert(order[j] == sorted[j - start]);
                assert(sorted@[j - start] < boxes.len());
            } else {
                assert(order[j] == before[j]);
                assert(before[j] < boxes.len());
            }
        }
        assert forall|i: int, j: int| start <= i <= j < end implies axis_key(
            boxes@,
            #[trigger] order[i],
            axis as int,
        ) <= axis_key(boxes@, #[trigger] order[j], axis as int) by {
            assert(order[i] == sorted[i - start]);
            assert(order[j] == sorted[j - start]);
        }
    }
}

} // verus!
