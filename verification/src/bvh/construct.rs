//! Building the hierarchy: a random axis at each node, a sort on it, and a
//! cut at the middle.
use vstd::prelude::*;
use crate::aabb::AABB;
use crate::bvh::laws::lemma_concat_members;
use crate::bvh::sort::{
    key_value, lemma_exchange_keeps_multiset, lemma_span_keeps_multiset, sort_span,
};
use crate::bvh::{axis_key, built_over, halved_on, halves_sorted, ids_valid, BVHChild, BVHNode};
use crate::hittable::HittableList;
use crate::random::{sample_range, thread_generator};

verus! {

/// Every item of a sequence's span is an item of any sequence with the same
/// multiset over that span.
proof fn lemma_span_member(a: Seq<usize>, b: Seq<usize>, start: int, end: int, k: int) -> (m: int)
    requires
        0 <= start <= k < end <= a.len(),
        end <= b.len(),
        a.subrange(start, end).to_multiset() == b.subrange(start, end).to_multiset(),
    ensures
        start <= m < end,
        b[m] == a[k],
{
    let sa = a.subrange(start, end);
    let sb = b.subrange(start, end);
    assert(sa[k - start] == a[k]);
    assert(sa.contains(a[k]));
    vstd::seq_lib::to_multiset_contains(sa, a[k]);
    vstd::seq_lib::to_multiset_contains(sb, a[k]);
    let w = choose|w: int| 0 <= w < sb.len() && sb[w] == a[k];
    w + start
}

impl BVHNode {
    /// Builds the hierarchy over the surfaces `order[start..end]`, whose
    /// boxes are `boxes`, and leaves that span in the arrangement that the
    /// hierarchy has.
    ///
    /// At each node a random axis is drawn. A pair is put in order on it;
    /// three or more surfaces are sorted on it and halved at the middle.
    /// Whatever the axes drawn, the hierarchy is [`BVHNode::arrange`] of the
    /// final arrangement, which holds the surfaces that the span held and is
    /// [`halves_sorted`].
    pub fn build(order: &mut Vec<usize>, start: usize, end: usize, boxes: &Vec<AABB>) -> (node:
        BVHNode)
        requires
            start < end <= old(order).len(),
            ids_valid(old(order)@, boxes@),
        ensures
            final(order).len() == old(order).len(),
            ids_valid(final(order)@, boxes@),
            forall|k: int|
                0 <= k < old(order).len() && !(start <= k < end) ==> final(order)[k] == old(
                    order,
                )[k],
            final(order)@.to_multiset() == old(order)@.to_multiset(),
            final(order)@.subrange(start as int, end as int).to_multiset() == old(
                order,
            )@.subrange(start as int, end as int).to_multiset(),
            halves_sorted(final(order)@.subrange(start as int, end as int), boxes@),
            node == BVHNode::arrange(final(order)@.subrange(start as int, end as int), boxes@),
            node.wf(boxes@),
        decreases end - start,
    {
        let ghost before = order@;
        let mut rng = thread_generator();
        let axis = sample_range(0, 3, &mut rng);
        let span = end - start;
        if span == 1 {
            let only = order[start];
            proof {
                assert(order@.subrange(start as int, end as int)[0] == only);
            }
            BVHNode::join(BVHChild::Leaf(only), BVHChild::Leaf(only), boxes)
        } else if span == 2 {
            let first = order[start];
            let second = order[start + 1];
            if key_value(boxes, first, axis) < key_value(boxes, second, axis) {
                proof {
                    let pair = order@.subrange(start as int, end as int);
                    assert(pair[0] == first && pair[1] == second);
                    assert(halved_on(pair, boxes@, axis as int));
                }
                BVHNode::join(BVHChild::Leaf(first), BVHChild::Leaf(second), boxes)
            } else {
                proof {
                    lemma_exchange_keeps_multiset(order@, start as int, start + 1);
                }
                order.set(start, second);
                order.set(start + 1, first);
                proof {
                    let pair = order@.subrange(start as int, end as int);
                    assert(pair[0] == second && pair[1] == first);
                    assert(halved_on(pair, boxes@, axis as int));
                    lemma_span_keeps_multiset(before, order@, start as int, end as int);
                }
                BVHNode::join(BVHChild::Leaf(second), BVHChild::Leaf(first), boxes)
            }
        } else {
            sort_span(order, start, end, boxes, axis);
            let ghost sorted = order@;
            let mid = start + span / 2;
            let left = BVHNode::build(order, start, mid, boxes);
            let ghost halfway = order@;
            let right = BVHNode::build(order, mid, end, boxes);
            proof {
                let whole = order@.subrange(start as int, end as int);
                let m = (mid - start) as int;
                assert(m == whole.len() / 2);
                assert(whole.take(m) =~= halfway.subrange(start as int, mid as int));
                assert(whole.skip(m) =~= order@.subrange(mid as int, end as int));
                assert(halfway.subrange(mid as int, end as int) =~= sorted.subrange(
                    mid as int,
                    end as int,
                ));
                assert forall|i: int, j: int| 0 <= i < m <= j < whole.len() implies axis_key(
                    boxes@,
                    #[trigger] whole[i],
                    axis as int,
                ) <= axis_key(boxes@, #[trigger] whole[j], axis as int) by {
                    let p = lemma_span_member(halfway, sorted, start as int, mid as int, start + i);
                    let q = lemma_span_member(order@, halfway, mid as int, end as int, start + j);
                    assert(whole[i] == halfway[start + i]);
                    assert(whole[j] == order@[start + j]);
                    assert(halfway[q] == sorted[q]);
                }
                assert(halved_on(whole, boxes@, axis as int));
                lemma_span_keeps_multiset(before, order@, start as int, end as int);
            }
            BVHNode::join(
                BVHChild::Node(Box::new(left)),
                BVHChild::Node(Box::new(right)),
                boxes,
            )
        }
    }
}

impl BVHNode {
    /// Builds the hierarchy over the surfaces `hittables[start..end]`, whose
    /// boxes are `boxes`. The span must hold a surface, and each must have
    /// its box in the table.
    pub fn new(hittables: Vec<usize>, start: usize, end: usize, boxes: &Vec<AABB>) -> (node:
        BVHNode)
        requires
            start < end <= hittables.len(),
            forall|k: int| start <= k < end ==> (#[trigger] hittables[k]) < boxes.len(),
        ensures
            node.wf(boxes@),
            built_over(node, hittables@.subrange(start as int, end as int), boxes@),
    {
        let mut order: Vec<usize> = Vec::new();
        let mut i: usize = start;
        while i < end
            invariant
                start <= i <= end <= hittables.len(),
                order@ == hittables@.subrange(start as int, i as int),
            decreases end - i,
        {
            order.push(hittables[i]);
            proof {
                assert(order@ =~= hittables@.subrange(start as int, i + 1));
            }
            i += 1;
        }
        let ghost span = order@;
        proof {
            assert forall|k: int| 0 <= k < order.len() implies (#[trigger] order[k]) < boxes.len() by {
                assert(order[k] == hittables[start + k]);
            }
        }
        let count = order.len();
        let node = BVHNode::build(&mut order, 0, count, boxes);
        proof {
            assert(order@.subrange(0, count as int) =~= order@);
            assert(span.subrange(0, count as int) =~= span);
        }
        node
    }

    /// Builds the hierarchy over the surfaces of a list, which must not be
    /// empty.
    pub fn from_list_hittable_list(hittable_list: &HittableList, boxes: &Vec<AABB>) -> (node:
        BVHNode)
        requires
            hittable_list.hittable_list.len() >= 1,
            ids_valid(hittable_list.hittable_list@, boxes@),
        ensures
            node.wf(boxes@),
            built_over(node, hittable_list.hittable_list@, boxes@),
    {
        let ids = hittable_list.hittable_list.clone();
        let count = ids.len();
        proof {
            assert(ids@ =~= hittable_list.hittable_list@);
            assert(ids@.subrange(0, count as int) =~= ids@);
        }
        BVHNode::new(ids, 0, count, boxes)
    }
}

/// The hierarchy over an arrangement is well-formed and holds exactly the
/// surfaces of the arrangement.
pub proof fn lemma_arrange_holds_ids(ids: Seq<usize>, boxes: Seq<AABB>)
    requires
        ids.len() >= 1,
        ids_valid(ids, boxes),
    ensures
        BVHNode::arrange(ids, boxes).wf(boxes),
        forall|id: usize| #[trigger]
            BVHNode::arrange(ids, boxes).leaves().contains(id) <==> ids.contains(id),
    decreases ids.len(),
{
    let node = BVHNode::arrange(ids, boxes);
    lemma_concat_members(node.left.leaves(), node.right.leaves());
    if ids.len() == 1 {
        assert(node.left.leaves() =~= seq![ids[0]]);
        assert(node.right.leaves() =~= seq![ids[0]]);
        assert(seq![ids[0]][0] == ids[0]);
        assert forall|id: usize| #[trigger] node.leaves().contains(id) <==> ids.contains(id) by {
            if ids.contains(id) {
                let k = choose|k: int| 0 <= k < ids.len() && ids[k] == id;
                assert(seq![ids[0]].contains(id));
            }
            if node.leaves().contains(id) {
                assert(seq![ids[0]].contains(id));
                let k = choose|k: int| 0 <= k < seq![ids[0]].len() && seq![ids[0]][k] == id;
                assert(ids[0] == id);
            }
        }
    } else if ids.len() == 2 {
        assert(node.left.leaves() =~= seq![ids[0]]);
        assert(node.right.leaves() =~= seq![ids[1]]);
        assert(node.leaves() =~= ids);
    } else {
        let mid = (ids.len() / 2) as int;
        let front = ids.take(mid);
        let back = ids.skip(mid);
        assert(ids_valid(front, boxes)) by {
            assert forall|k: int| 0 <= k < front.len() implies (#[trigger] front[k]) < boxes.len() by {
                assert(front[k] == ids[k]);
            }
        }
        assert(ids_valid(back, boxes)) by {
            assert forall|k: int| 0 <= k < back.len() implies (#[trigger] back[k]) < boxes.len() by {
                assert(back[k] == ids[mid + k]);
            }
        }
        lemma_arrange_holds_ids(front, boxes);
        lemma_arrange_holds_ids(back, boxes);
        assert(ids =~= front + back);
        lemma_concat_members(front, back);
        assert(node.left.leaves() == BVHNode::arrange(front, boxes).leaves());
        assert(node.right.leaves() == BVHNode::arrange(back, boxes).leaves());
    }
}

/// A hierarchy that was built over a list of surfaces holds exactly the
/// surfaces of the list.
pub proof fn lemma_built_holds_ids(node: BVHNode, ids: Seq<usize>, boxes: Seq<AABB>)
    requires
        ids.len() >= 1,
        ids_valid(ids, boxes),
        built_over(node, ids, boxes),
    ensures
        node.wf(boxes),
        forall|id: usize| node.leaves().contains(id) <==> ids.contains(id),
{
    let arrangement = choose|arrangement: Seq<usize>|
        arrangement.to_multiset() == ids.to_multiset() && halves_sorted(arrangement, boxes)
            && node == #[trigger] BVHNode::arrange(arrangement, boxes);
    vstd::seq_lib::to_multiset_len(arrangement);
    vstd::seq_lib::to_multiset_len(ids);
    assert forall|id: usize| arrangement.contains(id) <==> ids.contains(id) by {
        vstd::seq_lib::to_multiset_contains(arrangement, id);
        vstd::seq_lib::to_multiset_contains(ids, id);
    }
    assert(ids_valid(arrangement, boxes)) by {
        assert forall|k: int| 0 <= k < arrangement.len() implies (#[trigger] arrangement[k])
            < boxes.len() by {
            assert(arrangement.contains(arrangement[k]));
            assert(ids.contains(arrangement[k]));
            let j = choose|j: int| 0 <= j < ids.len() && ids[j] == arrangement[k];
        }
    }
    lemma_arrange_holds_ids(arrangement, boxes);
}

/// A table of boxes with the degenerate box in place of every missing one.
pub open spec fn filled(boxes: Seq<Option<AABB>>) -> Seq<AABB> {
    Seq::new(
        boxes.len(),
        |k: int|
            match boxes[k] {
                Some(bounds) => bounds,
                None => AABB::degenerate(),
            },
    )
}

/// Whether every surface of the list has a box in the table.
pub open spec fn all_boxed(ids: Seq<usize>, boxes: Seq<Option<AABB>>) -> bool {
    forall|k: int|
        0 <= k < ids.len() ==> (#[trigger] ids[k]) < boxes.len() && boxes[ids[k] as int] is Some
}

impl BVHNode {
    /// Builds the hierarchy over the surfaces of a list, given the box of
    /// each surface of the scene where it has one. There is no hierarchy
    /// over an empty list, nor over a surface without a box.
    pub fn over(hittable_list: &HittableList, boxes: &Vec<Option<AABB>>) -> (r: Option<BVHNode>)
        ensures
            r is Some <==> hittable_list.hittable_list.len() >= 1 && all_boxed(
                hittable_list.hittable_list@,
                boxes@,
            ),
            r matches Some(node) ==> node.wf(filled(boxes@)) && built_over(
                node,
                hittable_list.hittable_list@,
                filled(boxes@),
            ),
    {
        let ids = &hittable_list.hittable_list;
        if ids.len() == 0 {
            return None;
        }
        let mut k: usize = 0;
        while k < ids.len()
            invariant
                k <= ids.len(),
                ids@ == hittable_list.hittable_list@,
                forall|j: int|
                    0 <= j < k ==> (#[trigger] ids[j]) < boxes.len() && boxes[ids[j] as int] is Some,
            decreases ids.len() - k,
        {
            let id = ids[k];
            if id >= boxes.len() {
                return None;
            }
            if boxes[id].is_none() {
                return None;
            }
            k += 1;
        }
        let mut plain: Vec<AABB> = Vec::new();
        let mut n: usize = 0;
        while n < boxes.len()
            invariant
                n <= boxes.len(),
                plain.len() == n,
                forall|j: int| 0 <= j < n ==> plain[j] == filled(boxes@)[j],
            decreases boxes.len() - n,
        {
            let bounds = match boxes[n] {
                Some(bounds) => bounds,
                None => AABB::default(),
            };
            plain.push(bounds);
            n += 1;
        }
        proof {
            assert(plain@ =~= filled(boxes@));
        }
        Some(BVHNode::from_list_hittable_list(hittable_list, &plain))
    }
}

} // verus!
