//! The bounding volume hierarchy: a binary tree over the surfaces of a
//! scene, built by sorting and halving, and queried for the nearest hit.
//!
//! This module holds the tree and what it means to be well-formed and to
//! be built over a list of surfaces; [`sort`] orders a span of surfaces,
//! [`construct`] makes the tree, [`query`] asks it for the nearest hit, and
//! [`laws`] proves that the query finds what a linear scan finds.
use vstd::prelude::*;
use crate::aabb::AABB;

pub mod construct;
pub mod laws;
pub mod query;
pub mod sort;

verus! {

/// One side of a node: a surface, named by its index in the scene's table of
/// surfaces, or a further node.
#[derive(Debug)]
pub enum BVHChild {
    Leaf(usize),
    Node(Box<BVHNode>),
}

/// A node of the hierarchy. Its box is the union of the boxes of its two
/// sides ([`BVHNode::wf`]).
#[derive(Debug)]
pub struct BVHNode {
    pub left: BVHChild,
    pub right: BVHChild,
    pub bbox: AABB,
}

/// The number by which surface `id` is sorted on `axis`: the rank of the
/// minimum corner of its box on that axis.
pub open spec fn axis_key(boxes: Seq<AABB>, id: usize, axis: int) -> int {
    boxes[id as int].minimum.axis_spec(axis).rank()
}

/// Whether `order[start..end]` ascends by [`axis_key`].
pub open spec fn span_sorted(
    order: Seq<usize>,
    start: int,
    end: int,
    boxes: Seq<AABB>,
    axis: int,
) -> bool {
    forall|i: int, j: int|
        start <= i <= j < end ==> axis_key(boxes, #[trigger] order[i], axis) <= axis_key(
            boxes,
            #[trigger] order[j],
            axis,
        )
}

/// Whether every index in the sequence names a box.
pub open spec fn ids_valid(ids: Seq<usize>, boxes: Seq<AABB>) -> bool {
    forall|k: int| 0 <= k < ids.len() ==> (#[trigger] ids[k]) < boxes.len()
}

/// Whether, on `axis`, no surface of the first half of `ids` comes after one
/// of the second half.
pub open spec fn halved_on(ids: Seq<usize>, boxes: Seq<AABB>, axis: int) -> bool {
    forall|i: int, j: int|
        0 <= i < ids.len() / 2 <= j < ids.len() ==> axis_key(boxes, #[trigger] ids[i], axis)
            <= axis_key(boxes, #[trigger] ids[j], axis)
}

/// Whether a sequence of surfaces is laid out as the build leaves it: on
/// some axis no surface of the first half comes after one of the second
/// half, and both halves are laid out so in turn. A pair is in order on some
/// axis; one surface alone is always laid out.
pub open spec fn halves_sorted(ids: Seq<usize>, boxes: Seq<AABB>) -> bool
    decreases ids.len(),
{
    if ids.len() <= 1 {
        true
    } else {
        let mid = (ids.len() / 2) as int;
        &&& exists|axis: int| 0 <= axis < 3 && #[trigger] halved_on(ids, boxes, axis)
        &&& ids.len() >= 3 ==> halves_sorted(ids.take(mid), boxes) && halves_sorted(
            ids.skip(mid),
            boxes,
        )
    }
}

impl BVHChild {
    /// The box of this side: the surface's own, or the node's.
    pub open spec fn bbox_of(self, boxes: Seq<AABB>) -> AABB {
        match self {
            BVHChild::Leaf(id) => boxes[id as int],
            BVHChild::Node(node) => node.bbox,
        }
    }

    /// The surfaces below this side, from left to right.
    pub open spec fn leaves(self) -> Seq<usize>
        decreases self,
    {
        match self {
            BVHChild::Leaf(id) => seq![id],
            BVHChild::Node(node) => node.leaves(),
        }
    }

    /// Whether every surface below names a box and every node below is
    /// well-formed.
    pub open spec fn wf(self, boxes: Seq<AABB>) -> bool
        decreases self,
    {
        match self {
            BVHChild::Leaf(id) => id < boxes.len(),
            BVHChild::Node(node) => node.wf(boxes),
        }
    }
}

impl BVHNode {
    /// The surfaces below this node, from left to right. A surface that
    /// stands alone in its node is listed twice.
    pub open spec fn leaves(self) -> Seq<usize>
        decreases self,
    {
        self.left.leaves() + self.right.leaves()
    }

    /// The invariant of the hierarchy: at every node the box is the union of
    /// the boxes of the two sides, and every surface names a box.
    pub open spec fn wf(self, boxes: Seq<AABB>) -> bool
        decreases self,
    {
        &&& self.left.wf(boxes)
        &&& self.right.wf(boxes)
        &&& self.bbox == AABB::surrounding_spec(self.left.bbox_of(boxes), self.right.bbox_of(boxes))
    }

    /// The node over two sides.
    pub open spec fn join_spec(left: BVHChild, right: BVHChild, boxes: Seq<AABB>) -> BVHNode {
        BVHNode {
            left,
            right,
            bbox: AABB::surrounding_spec(left.bbox_of(boxes), right.bbox_of(boxes)),
        }
    }

    /// The hierarchy over a sequence of surfaces in the given arrangement:
    /// one surface fills both sides of its node, two take a side each, and
    /// three or more are halved at the middle, each half under a node of its
    /// own.
    pub open spec fn arrange(ids: Seq<usize>, boxes: Seq<AABB>) -> BVHNode
        decreases ids.len(),
    {
        if ids.len() <= 1 {
            BVHNode::join_spec(BVHChild::Leaf(ids[0]), BVHChild::Leaf(ids[0]), boxes)
        } else if ids.len() == 2 {
            BVHNode::join_spec(BVHChild::Leaf(ids[0]), BVHChild::Leaf(ids[1]), boxes)
        } else {
            let mid = (ids.len() / 2) as int;
            BVHNode::join_spec(
                BVHChild::Node(Box::new(BVHNode::arrange(ids.take(mid), boxes))),
                BVHChild::Node(Box::new(BVHNode::arrange(ids.skip(mid), boxes))),
                boxes,
            )
        }
    }

    /// Joins two sides under a new node, whose box is the union of theirs.
    pub fn join(left: BVHChild, right: BVHChild, boxes: &Vec<AABB>) -> (node: BVHNode)
        requires
            left.wf(boxes@),
            right.wf(boxes@),
        ensures
            node == BVHNode::join_spec(left, right, boxes@),
            node.wf(boxes@),
    {
        let box_left = match &left {
            BVHChild::Leaf(id) => boxes[*id],
            BVHChild::Node(node) => node.bbox,
        };
        let box_right = match &right {
            BVHChild::Leaf(id) => boxes[*id],
            BVHChild::Node(node) => node.bbox,
        };
        BVHNode { left, right, bbox: AABB::surrounding_box(box_left, box_right) }
    }
}

/// Whether `node` is a hierarchy that a build may return for the surfaces
/// `ids`: the hierarchy over some arrangement of exactly those surfaces that
/// is laid out in sorted halves.
pub open spec fn built_over(node: BVHNode, ids: Seq<usize>, boxes: Seq<AABB>) -> bool {
    exists|arrangement: Seq<usize>|
        arrangement.to_multiset() == ids.to_multiset() && halves_sorted(arrangement, boxes)
            && node == #[trigger] BVHNode::arrange(arrangement, boxes)
}

/// Whether every index in the sequence is less than `bound`.
pub open spec fn all_below(ids: Seq<usize>, bound: int) -> bool {
    forall|k: int| 0 <= k < ids.len() ==> (#[trigger] ids[k]) < bound
}

impl BVHChild {
    /// Whether every surface below this side has an index less than `bound`.
    pub fn below(&self, bound: usize) -> (r: bool)
        ensures
            r == all_below(self.leaves(), bound as int),
        decreases self,
    {
        match self {
            BVHChild::Leaf(id) => {
                assert(self.leaves() =~= seq![*id]);
                assert(self.leaves()[0] == *id);
                *id < bound
            },
            BVHChild::Node(node) => {
                assert(self.leaves() =~= node.leaves());
                node.below(bound)
            },
        }
    }
}

impl BVHNode {
    /// Whether every surface below this node has an index less than `bound`.
    pub fn below(&self, bound: usize) -> (r: bool)
        ensures
            r == all_below(self.leaves(), bound as int),
        decreases self,
    {
        let left = self.left.below(bound);
        let right = self.right.below(bound);
        proof {
            let lefts = self.left.leaves();
            let rights = self.right.leaves();
            if left && right {
                assert forall|k: int| 0 <= k < self.leaves().len() implies (#[trigger] self.leaves()[k])
                    < bound by {
                    if k < lefts.len() {
                        assert(self.leaves()[k] == lefts[k]);
                    } else {
                        assert(self.leaves()[k] == rights[k - lefts.len()]);
                    }
                }
            }
            if !left {
                let k = choose|k: int| 0 <= k < lefts.len() && !((#[trigger] lefts[k]) < bound);
                assert(self.leaves()[k] == lefts[k]);
            }
            if !right {
                let k = choose|k: int| 0 <= k < rights.len() && !((#[trigger] rights[k]) < bound);
                assert(self.leaves()[lefts.len() + k] == rights[k]);
            }
        }
        left && right
    }
}

} // verus!
