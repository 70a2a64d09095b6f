//! What the query finds: a nearest hit, the same as a linear scan, whatever
//! axes the build drew.
use vstd::prelude::*;
use crate::aabb::{lemma_surrounding_box_is_union, Crossings, AABB};
use crate::bvh::construct::lemma_built_holds_ids;
use crate::bvh::{built_over, ids_valid, BVHChild, BVHNode};
use crate::hittable::{
    clipped, closest_so_far, is_nearest, lemma_nearest_is_unique, lemma_scan_finds_nearest,
    lemma_window_consistent_shorter, scan_spec, window_consistent, HitRecord,
};
use crate::scalar::Scalar;

verus! {

/// Whether every box in the table is free of NaN.
pub open spec fn boxes_are_numbers(boxes: Seq<AABB>) -> bool {
    forall|k: int| 0 <= k < boxes.len() ==> (#[trigger] boxes[k]).is_number()
}

/// Whether the ray passes, inside a window, through every box that encloses
/// the box of a surface that it hits inside that window. This is what a
/// bounding box means; it is a fact of the caller's arithmetic.
pub open spec fn ray_respects_boxes(
    boxes: Seq<AABB>,
    t_min: Scalar,
    crossings: spec_fn(AABB) -> Crossings,
    oracle: spec_fn(usize, Scalar, Scalar) -> Option<HitRecord>,
) -> bool {
    forall|id: usize, bounds: AABB, end: Scalar|
        #![trigger oracle(id, t_min, end), crossings(bounds)]
        id < boxes.len() && bounds.encloses(boxes[id as int]) && oracle(id, t_min, end) is Some
            ==> AABB::hit_spec(crossings(bounds), t_min, end)
}

/// The members of a concatenation are the members of its parts.
pub(crate) proof fn lemma_concat_members(a: Seq<usize>, b: Seq<usize>)
    ensures
        forall|x: usize| #[trigger] (a + b).contains(x) <==> a.contains(x) || b.contains(x),
{
    assert forall|x: usize| #[trigger] (a + b).contains(x) <==> a.contains(x) || b.contains(x) by {
        if (a + b).contains(x) {
            let k = choose|k: int| 0 <= k < (a + b).len() && (a + b)[k] == x;
            if k < a.len() {
                assert(a[k] == x);
            } else {
                assert(b[k - a.len()] == x);
            }
        }
        if a.contains(x) {
            let k = choose|k: int| 0 <= k < a.len() && a[k] == x;
            assert((a + b)[k] == x);
        }
        if b.contains(x) {
            let k = choose|k: int| 0 <= k < b.len() && b[k] == x;
            assert((a + b)[a.len() + k] == x);
        }
    }
}

/// In a well-formed hierarchy over boxes that are numbers, the box of a
/// side encloses the box of every surface below it.
pub proof fn lemma_side_encloses_leaves(side: BVHChild, boxes: Seq<AABB>, id: usize)
    requires
        side.wf(boxes),
        boxes_are_numbers(boxes),
        side.leaves().contains(id),
    ensures
        id < boxes.len(),
        side.bbox_of(boxes).is_number(),
        side.bbox_of(boxes).encloses(boxes[id as int]),
    decreases side,
{
    match side {
        BVHChild::Leaf(own) => {
            assert(side.leaves() =~= seq![own]);
            let k = choose|k: int| 0 <= k < side.leaves().len() && side.leaves()[k] == id;
            assert(id == own);
        },
        BVHChild::Node(node) => {
            lemma_node_encloses_leaves(*node, boxes, id);
        },
    }
}

/// In a well-formed hierarchy over boxes that are numbers, the box of a
/// node encloses the box of every surface below it.
pub proof fn lemma_node_encloses_leaves(node: BVHNode, boxes: Seq<AABB>, id: usize)
    requires
        node.wf(boxes),
        boxes_are_numbers(boxes),
        node.leaves().contains(id),
    ensures
        id < boxes.len(),
        node.bbox.is_number(),
        node.bbox.encloses(boxes[id as int]),
    decreases node,
{
    lemma_concat_members(node.left.leaves(), node.right.leaves());
    lemma_side_is_number(node.left, boxes);
    lemma_side_is_number(node.right, boxes);
    let box_left = node.left.bbox_of(boxes);
    let box_right = node.right.bbox_of(boxes);
    lemma_surrounding_box_is_union(box_left, box_right, node.bbox);
    if node.left.leaves().contains(id) {
        lemma_side_encloses_leaves(node.left, boxes, id);
    } else {
        lemma_side_encloses_leaves(node.right, boxes, id);
    }
}

/// In a well-formed hierarchy over boxes that are numbers, every box is a
/// number.
proof fn lemma_side_is_number(side: BVHChild, boxes: Seq<AABB>)
    requires
        side.wf(boxes),
        boxes_are_numbers(boxes),
    ensures
        side.bbox_of(boxes).is_number(),
    decreases side,
{
    match side {
        BVHChild::Leaf(own) => {},
        BVHChild::Node(node) => {
            lemma_side_is_number(node.left, boxes);
            lemma_side_is_number(node.right, boxes);
            lemma_surrounding_box_is_union(
                node.left.bbox_of(boxes),
                node.right.bbox_of(boxes),
                node.bbox,
            );
        },
    }
}

/// The query below one side finds a nearest hit among the surfaces below it.
pub proof fn lemma_side_finds_nearest(
    side: BVHChild,
    boxes: Seq<AABB>,
    t_min: Scalar,
    t_max: Scalar,
    crossings: spec_fn(AABB) -> Crossings,
    oracle: spec_fn(usize, Scalar, Scalar) -> Option<HitRecord>,
)
    requires
        side.wf(boxes),
        boxes_are_numbers(boxes),
        !t_max.is_nan_spec(),
        forall|id: usize| #[trigger]
            side.leaves().contains(id) ==> window_consistent(oracle, id, t_min, t_max),
        ray_respects_boxes(boxes, t_min, crossings, oracle),
    ensures
        is_nearest(
            side.hit_spec(t_min, t_max, crossings, oracle),
            side.leaves(),
            t_min,
            t_max,
            oracle,
        ),
    decreases side,
{
    match side {
        BVHChild::Leaf(own) => {
            assert(side.leaves() =~= seq![own]);
            assert(side.leaves()[0] == own);
            assert(side.leaves().contains(own));
            assert forall|id: usize| #[trigger] side.leaves().contains(id) implies id == own by {
                let k = choose|k: int| 0 <= k < side.leaves().len() && side.leaves()[k] == id;
            }
            assert(window_consistent(oracle, own, t_min, t_max));
        },
        BVHChild::Node(node) => {
            assert(side.leaves() =~= node.leaves());
            lemma_hierarchy_finds_nearest(*node, boxes, t_min, t_max, crossings, oracle);
        },
    }
}

/// The query finds a nearest hit: in a well-formed hierarchy over surfaces
/// that are window-consistent, and for a ray that respects the boxes, what
/// [`BVHNode::hit_spec`] returns is the hit of a surface of the hierarchy
/// and no farther than the hit of any other, and it returns none only where
/// none is hit.
pub proof fn lemma_hierarchy_finds_nearest(
    node: BVHNode,
    boxes: Seq<AABB>,
    t_min: Scalar,
    t_max: Scalar,
    crossings: spec_fn(AABB) -> Crossings,
    oracle: spec_fn(usize, Scalar, Scalar) -> Option<HitRecord>,
)
    requires
        node.wf(boxes),
        boxes_are_numbers(boxes),
        !t_max.is_nan_spec(),
        forall|id: usize| #[trigger]
            node.leaves().contains(id) ==> window_consistent(oracle, id, t_min, t_max),
        ray_respects_boxes(boxes, t_min, crossings, oracle),
    ensures
        is_nearest(
            node.hit_spec(t_min, t_max, crossings, oracle),
            node.leaves(),
            t_min,
            t_max,
            oracle,
        ),
    decreases node,
{
    let all = node.leaves();
    let lefts = node.left.leaves();
    let rights = node.right.leaves();
    lemma_concat_members(lefts, rights);
    if !AABB::hit_spec(crossings(node.bbox), t_min, t_max) {
        assert forall|id: usize| #[trigger] all.contains(id) implies oracle(id, t_min, t_max) is None by {
            lemma_node_encloses_leaves(node, boxes, id);
        }
    } else {
        assert forall|id: usize| #[trigger] lefts.contains(id) implies window_consistent(
            oracle,
            id,
            t_min,
            t_max,
        ) by {
            assert(all.contains(id));
        }
        lemma_side_finds_nearest(node.left, boxes, t_min, t_max, crossings, oracle);
        let left = node.left.hit_spec(t_min, t_max, crossings, oracle);
        let closest = closest_so_far(left, t_max);
        assert(closest.le_spec(t_max)) by {
            if let Some(record) = left {
                let w = choose|id: usize| #[trigger]
                    lefts.contains(id) && oracle(id, t_min, t_max) == Some(record);
                assert(all.contains(w));
            }
        }
        assert forall|id: usize| #[trigger] rights.contains(id) implies window_consistent(
            oracle,
            id,
            t_min,
            closest,
        ) by {
            assert(all.contains(id));
            lemma_window_consistent_shorter(oracle, id, t_min, t_max, closest);
        }
        lemma_side_finds_nearest(node.right, boxes, t_min, closest, crossings, oracle);
        let right = node.right.hit_spec(t_min, closest, crossings, oracle);
        assert forall|id: usize| #[trigger] rights.contains(id) implies oracle(id, t_min, closest)
            == clipped(oracle(id, t_min, t_max), closest) by {
            assert(all.contains(id));
        }
        match right {
            Some(record) => {
                let w = choose|id: usize| #[trigger]
                    rights.contains(id) && oracle(id, t_min, closest) == Some(record);
                assert(all.contains(w));
                assert(oracle(w, t_min, t_max) == Some(record));
                assert(record.t.le_spec(closest));
                assert forall|id: usize| #[trigger] all.contains(id) implies (oracle(
                    id,
                    t_min,
                    t_max,
                ) matches Some(other) ==> record.t.le_spec(other.t)) by {
                    if let Some(other) = oracle(id, t_min, t_max) {
                        assert(other.t.le_spec(t_max));
                        if lefts.contains(id) {
                            assert(left is Some);
                        } else {
                            assert(rights.contains(id));
                        }
                    }
                }
            },
            None => {
                match left {
                    Some(record) => {
                        let w = choose|id: usize| #[trigger]
                            lefts.contains(id) && oracle(id, t_min, t_max) == Some(record);
                        assert(all.contains(w));
                        assert forall|id: usize| #[trigger] all.contains(id) implies (oracle(
                            id,
                            t_min,
                            t_max,
                        ) matches Some(other) ==> record.t.le_spec(other.t)) by {
                            if let Some(other) = oracle(id, t_min, t_max) {
                                assert(other.t.le_spec(t_max));
                                if lefts.contains(id) {
                                } else {
                                    assert(rights.contains(id));
                                    assert(oracle(id, t_min, closest) is None);
                                }
                            }
                        }
                    },
                    None => {
                        assert forall|id: usize| #[trigger] all.contains(id) implies oracle(
                            id,
                            t_min,
                            t_max,
                        ) is None by {
                            if lefts.contains(id) {
                            } else {
                                assert(rights.contains(id));
                                assert(oracle(id, t_min, closest) is None);
                            }
                        }
                    },
                }
            },
        }
    }
}

/// The hierarchy and the linear scan agree: over the same surfaces, each
/// window-consistent, and for a ray that respects the boxes, either both
/// find no hit or both find a hit at the same distance; and where no two
/// surfaces are hit at one distance it is the same hit.
pub proof fn lemma_hierarchy_matches_scan(
    node: BVHNode,
    ids: Seq<usize>,
    boxes: Seq<AABB>,
    t_min: Scalar,
    t_max: Scalar,
    crossings: spec_fn(AABB) -> Crossings,
    oracle: spec_fn(usize, Scalar, Scalar) -> Option<HitRecord>,
)
    requires
        node.wf(boxes),
        boxes_are_numbers(boxes),
        forall|id: usize| node.leaves().contains(id) <==> ids.contains(id),
        !t_max.is_nan_spec(),
        forall|id: usize| #[trigger] ids.contains(id) ==> window_consistent(oracle, id, t_min, t_max),
        ray_respects_boxes(boxes, t_min, crossings, oracle),
    ensures
        node.hit_spec(t_min, t_max, crossings, oracle) is Some <==> scan_spec(
            ids,
            t_min,
            t_max,
            oracle,
        ) is Some,
        node.hit_spec(t_min, t_max, crossings, oracle) matches Some(a) ==> scan_spec(
            ids,
            t_min,
            t_max,
            oracle,
        ) matches Some(b) && a.t.same_value_spec(b.t),
        (forall|p: usize, q: usize|
            #![trigger ids.contains(p), ids.contains(q)]
            ids.contains(p) && ids.contains(q) && oracle(p, t_min, t_max) is Some && oracle(
                q,
                t_min,
                t_max,
            ) is Some && oracle(p, t_min, t_max).unwrap().t.same_value_spec(
                oracle(q, t_min, t_max).unwrap().t,
            ) ==> oracle(p, t_min, t_max) == oracle(q, t_min, t_max)) ==> node.hit_spec(
            t_min,
            t_max,
            crossings,
            oracle,
        ) == scan_spec(ids, t_min, t_max, oracle),
{
    assert forall|id: usize| #[trigger] node.leaves().contains(id) implies window_consistent(
        oracle,
        id,
        t_min,
        t_max,
    ) by {
        assert(ids.contains(id));
    }
    lemma_hierarchy_finds_nearest(node, boxes, t_min, t_max, crossings, oracle);
    lemma_scan_finds_nearest(ids, t_min, t_max, oracle);
    lemma_nearest_is_unique(
        scan_spec(ids, t_min, t_max, oracle),
        node.hit_spec(t_min, t_max, crossings, oracle),
        ids,
        node.leaves(),
        t_min,
        t_max,
        oracle,
    );
}

/// The axes that a build draws do not show in the picture: two hierarchies
/// built over the same surfaces find, for the same ray, a hit at the same
/// distance or both none; and where no two surfaces are hit at one distance
/// they find the same hit.
pub proof fn lemma_builds_agree(
    first: BVHNode,
    second: BVHNode,
    ids: Seq<usize>,
    boxes: Seq<AABB>,
    t_min: Scalar,
    t_max: Scalar,
    crossings: spec_fn(AABB) -> Crossings,
    oracle: spec_fn(usize, Scalar, Scalar) -> Option<HitRecord>,
)
    requires
        ids.len() >= 1,
        ids_valid(ids, boxes),
        built_over(first, ids, boxes),
        built_over(second, ids, boxes),
        boxes_are_numbers(boxes),
        !t_max.is_nan_spec(),
        forall|id: usize| #[trigger] ids.contains(id) ==> window_consistent(oracle, id, t_min, t_max),
        ray_respects_boxes(boxes, t_min, crossings, oracle),
    ensures
        first.hit_spec(t_min, t_max, crossings, oracle) is Some <==> second.hit_spec(
            t_min,
            t_max,
            crossings,
            oracle,
        ) is Some,
        first.hit_spec(t_min, t_max, crossings, oracle) matches Some(a) ==> second.hit_spec(
            t_min,
            t_max,
            crossings,
            oracle,
        ) matches Some(b) && a.t.same_value_spec(b.t),
        (forall|p: usize, q: usize|
            #![trigger ids.contains(p), ids.contains(q)]
            ids.contains(p) && ids.contains(q) && oracle(p, t_min, t_max) is Some && oracle(
                q,
                t_min,
                t_max,
            ) is Some && oracle(p, t_min, t_max).unwrap().t.same_value_spec(
                oracle(q, t_min, t_max).unwrap().t,
            ) ==> oracle(p, t_min, t_max) == oracle(q, t_min, t_max)) ==> first.hit_spec(
            t_min,
            t_max,
            crossings,
            oracle,
        ) == second.hit_spec(t_min, t_max, crossings, oracle),
{
    lemma_built_holds_ids(first, ids, boxes);
    lemma_built_holds_ids(second, ids, boxes);
    lemma_hierarchy_matches_scan(first, ids, boxes, t_min, t_max, crossings, oracle);
    lemma_hierarchy_matches_scan(second, ids, boxes, t_min, t_max, crossings, oracle);
}

} // verus!
