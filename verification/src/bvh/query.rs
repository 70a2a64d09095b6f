//! Asking the hierarchy for the nearest hit of a ray.
use vstd::prelude::*;
use crate::aabb::{Crossings, AABB};
use crate::bvh::laws::{boxes_are_numbers, lemma_hierarchy_finds_nearest, ray_respects_boxes};
use crate::bvh::{BVHChild, BVHNode};
use crate::hittable::{
    askable, closest_so_far, given_for, is_nearest, probe_follows, reported, window_consistent,
    HitRecord,
};
use crate::scalar::Scalar;

verus! {

/// Whether `oracle` tells what the function value answers for the plane
/// crossings of the ray with a box: every answer that its contract allows
/// is the oracle's.
pub open spec fn crossings_follow<C: Fn(AABB) -> Crossings>(
    crossings: C,
    oracle: spec_fn(AABB) -> Crossings,
) -> bool {
    forall|bounds: AABB, r: Crossings| #[trigger]
        call_ensures(crossings, (bounds,), r) ==> r == oracle(bounds)
}

impl BVHChild {
    /// The hit below this side: the surface's own answer, or the node's.
    pub open spec fn hit_spec(
        self,
        t_min: Scalar,
        t_max: Scalar,
        crossings: spec_fn(AABB) -> Crossings,
        oracle: spec_fn(usize, Scalar, Scalar) -> Option<HitRecord>,
    ) -> Option<HitRecord>
        decreases self,
    {
        match self {
            BVHChild::Leaf(id) => oracle(id, t_min, t_max),
            BVHChild::Node(node) => node.hit_spec(t_min, t_max, crossings, oracle),
        }
    }

    /// The nearest hit below this side inside the window, if there is one.
    fn nearest<C: Fn(AABB) -> Crossings, P: Fn(usize, Scalar, Scalar) -> Option<HitRecord>>(
        &self,
        t_min: Scalar,
        t_max: Scalar,
        crossings: &C,
        probe: &P,
    ) -> (found: Option<HitRecord>)
        requires
            forall|bounds: AABB| call_requires(*crossings, (bounds,)),
            forall|k: int| 0 <= k < self.leaves().len() ==> askable(*probe, #[trigger] self.leaves()[k]),
        ensures
            forall|
                met: spec_fn(AABB) -> Crossings,
                oracle: spec_fn(usize, Scalar, Scalar) -> Option<HitRecord>,
            |
                crossings_follow(*crossings, met) && probe_follows(*probe, oracle) ==> found
                    == #[trigger] self.hit_spec(t_min, t_max, met, oracle),
            found matches Some(record) ==> exists|k: int|
                0 <= k < self.leaves().len() && given_for(
                    *probe,
                    #[trigger] self.leaves()[k],
                    t_min,
                    record,
                ),
        decreases self,
    {
        match self {
            BVHChild::Leaf(id) => {
                assert(self.leaves() =~= seq![*id]);
                assert(self.leaves()[0] == *id);
                let found = probe(*id, t_min, t_max);
                proof {
                    if let Some(record) = found {
                        assert(call_ensures(*probe, (*id, t_min, t_max), Some(record)));
                        assert(given_for(*probe, self.leaves()[0], t_min, record));
                    }
                    assert forall|
                        met: spec_fn(AABB) -> Crossings,
                        oracle: spec_fn(usize, Scalar, Scalar) -> Option<HitRecord>,
                    |
                        crossings_follow(*crossings, met) && probe_follows(
                            *probe,
                            oracle,
                        ) implies found == #[trigger] self.hit_spec(t_min, t_max, met, oracle) by {
                        assert(found == oracle(*id, t_min, t_max));
                    }
                }
                found
            },
            BVHChild::Node(node) => {
                assert(self.leaves() =~= node.leaves());
                let found = node.nearest(t_min, t_max, crossings, probe);
                proof {
                    assert forall|
                        met: spec_fn(AABB) -> Crossings,
                        oracle: spec_fn(usize, Scalar, Scalar) -> Option<HitRecord>,
                    |
                        crossings_follow(*crossings, met) && probe_follows(
                            *probe,
                            oracle,
                        ) implies found == #[trigger] self.hit_spec(t_min, t_max, met, oracle) by {
                        assert(found == node.hit_spec(t_min, t_max, met, oracle));
                    }
                }
                found
            },
        }
    }
}

impl BVHNode {
    /// The query: nothing if the ray misses the node's box inside the
    /// window; otherwise the left side is asked, then the right side inside
    /// the window that the left side's hit has left, and a hit on the right
    /// replaces one on the left.
    pub open spec fn hit_spec(
        self,
        t_min: Scalar,
        t_max: Scalar,
        crossings: spec_fn(AABB) -> Crossings,
        oracle: spec_fn(usize, Scalar, Scalar) -> Option<HitRecord>,
    ) -> Option<HitRecord>
        decreases self,
    {
        if !AABB::hit_spec(crossings(self.bbox), t_min, t_max) {
            None
        } else {
            let left = self.left.hit_spec(t_min, t_max, crossings, oracle);
            let right = self.right.hit_spec(
                t_min,
                closest_so_far(left, t_max),
                crossings,
                oracle,
            );
            match right {
                Some(record) => Some(record),
                None => left,
            }
        }
    }

    /// The nearest hit below this node inside the window, if there is one.
    ///
    /// `crossings` gives the plane crossings of the ray with a box, and
    /// `probe` asks one surface for its hit inside a window. For all
    /// oracles that tell what the two answer, the result is
    /// [`BVHNode::hit_spec`] of those oracles; and it is a nearest hit
    /// among the surfaces of the hierarchy ([`is_nearest`]) where the
    /// hierarchy is well-formed, the surfaces are window-consistent and
    /// the ray respects the boxes. In any case a hit is an answer that
    /// `probe` gave for a surface of this hierarchy.
    pub fn nearest<C: Fn(AABB) -> Crossings, P: Fn(usize, Scalar, Scalar) -> Option<HitRecord>>(
        &self,
        t_min: Scalar,
        t_max: Scalar,
        crossings: &C,
        probe: &P,
    ) -> (found: Option<HitRecord>)
        requires
            forall|bounds: AABB| call_requires(*crossings, (bounds,)),
            forall|k: int| 0 <= k < self.leaves().len() ==> askable(*probe, #[trigger] self.leaves()[k]),
        ensures
            forall|
                met: spec_fn(AABB) -> Crossings,
                oracle: spec_fn(usize, Scalar, Scalar) -> Option<HitRecord>,
            |
                crossings_follow(*crossings, met) && probe_follows(*probe, oracle) ==> found
                    == #[trigger] self.hit_spec(t_min, t_max, met, oracle),
            found matches Some(record) ==> exists|k: int|
                0 <= k < self.leaves().len() && given_for(
                    *probe,
                    #[trigger] self.leaves()[k],
                    t_min,
                    record,
                ),
            forall|
                boxes: Seq<AABB>,
                met: spec_fn(AABB) -> Crossings,
                oracle: spec_fn(usize, Scalar, Scalar) -> Option<HitRecord>,
            |
                crossings_follow(*crossings, met) && probe_follows(*probe, oracle) && self.wf(boxes)
                    && boxes_are_numbers(boxes) && !t_max.is_nan_spec() && (forall|id: usize| #[trigger]
                    self.leaves().contains(id) ==> window_consistent(oracle, id, t_min, t_max))
                    && #[trigger] ray_respects_boxes(boxes, t_min, met, oracle) ==> is_nearest(
                    found,
                    self.leaves(),
                    t_min,
                    t_max,
                    oracle,
                ),
        decreases self,
    {
        let crossed = crossings(self.bbox);
        if !AABB::hit(crossed, t_min, t_max) {
            proof {
                assert forall|
                    met: spec_fn(AABB) -> Crossings,
                    oracle: spec_fn(usize, Scalar, Scalar) -> Option<HitRecord>,
                |
                    crossings_follow(*crossings, met) && probe_follows(*probe, oracle) implies None::<
                    HitRecord,
                > == #[trigger] self.hit_spec(t_min, t_max, met, oracle) by {
                    assert(crossed == met(self.bbox));
                }
                self.lemma_found_is_nearest(t_min, t_max, *crossings, *probe, None);
            }
            return None;
        }
        let ghost left_count = self.left.leaves().len() as int;
        proof {
            assert forall|k: int| 0 <= k < self.left.leaves().len() implies askable(
                *probe,
                #[trigger] self.left.leaves()[k],
            ) by {
                assert(self.leaves()[k] == self.left.leaves()[k]);
            }
            assert forall|k: int| 0 <= k < self.right.leaves().len() implies askable(
                *probe,
                #[trigger] self.right.leaves()[k],
            ) by {
                assert(self.leaves()[left_count + k] == self.right.leaves()[k]);
            }
        }
        let left = self.left.nearest(t_min, t_max, crossings, probe);
        let closest = match left {
            Some(record) => record.t,
            None => t_max,
        };
        let right = self.right.nearest(t_min, closest, crossings, probe);
        let found = match right {
            Some(record) => Some(record),
            None => left,
        };
        proof {
            if let Some(record) = found {
                if right.is_some() {
                    let k = choose|k: int|
                        0 <= k < self.right.leaves().len() && given_for(
                            *probe,
                            #[trigger] self.right.leaves()[k],
                            t_min,
                            record,
                        );
                    assert(self.leaves()[left_count + k] == self.right.leaves()[k]);
                } else {
                    let k = choose|k: int|
                        0 <= k < self.left.leaves().len() && given_for(
                            *probe,
                            #[trigger] self.left.leaves()[k],
                            t_min,
                            record,
                        );
                    assert(self.leaves()[k] == self.left.leaves()[k]);
                }
            }
            assert forall|
                met: spec_fn(AABB) -> Crossings,
                oracle: spec_fn(usize, Scalar, Scalar) -> Option<HitRecord>,
            |
                crossings_follow(*crossings, met) && probe_follows(*probe, oracle) implies found
                == #[trigger] self.hit_spec(t_min, t_max, met, oracle) by {
                assert(crossed == met(self.bbox));
                assert(left == self.left.hit_spec(t_min, t_max, met, oracle));
                assert(right == self.right.hit_spec(t_min, closest, met, oracle));
            }
            self.lemma_found_is_nearest(t_min, t_max, *crossings, *probe, found);
        }
        found
    }

    /// What the query returns is a nearest hit, under the conditions of
    /// [`lemma_hierarchy_finds_nearest`].
    proof fn lemma_found_is_nearest<
        C: Fn(AABB) -> Crossings,
        P: Fn(usize, Scalar, Scalar) -> Option<HitRecord>,
    >(self, t_min: Scalar, t_max: Scalar, crossings: C, probe: P, found: Option<HitRecord>)
        requires
            forall|
                met: spec_fn(AABB) -> Crossings,
                oracle: spec_fn(usize, Scalar, Scalar) -> Option<HitRecord>,
            |
                crossings_follow(crossings, met) && probe_follows(probe, oracle) ==> found
                    == #[trigger] self.hit_spec(t_min, t_max, met, oracle),
        ensures
            forall|
                boxes: Seq<AABB>,
                met: spec_fn(AABB) -> Crossings,
                oracle: spec_fn(usize, Scalar, Scalar) -> Option<HitRecord>,
            |
                crossings_follow(crossings, met) && probe_follows(probe, oracle) && self.wf(boxes)
                    && boxes_are_numbers(boxes) && !t_max.is_nan_spec() && (forall|id: usize| #[trigger]
                    self.leaves().contains(id) ==> window_consistent(oracle, id, t_min, t_max))
                    && #[trigger] ray_respects_boxes(boxes, t_min, met, oracle) ==> is_nearest(
                    found,
                    self.leaves(),
                    t_min,
                    t_max,
                    oracle,
                ),
    {
        assert forall|
            boxes: Seq<AABB>,
            met: spec_fn(AABB) -> Crossings,
            oracle: spec_fn(usize, Scalar, Scalar) -> Option<HitRecord>,
        |
            crossings_follow(crossings, met) && probe_follows(probe, oracle) && self.wf(boxes)
                && boxes_are_numbers(boxes) && !t_max.is_nan_spec() && (forall|id: usize| #[trigger]
                self.leaves().contains(id) ==> window_consistent(oracle, id, t_min, t_max))
                && #[trigger] ray_respects_boxes(boxes, t_min, met, oracle) implies is_nearest(
            found,
            self.leaves(),
            t_min,
            t_max,
            oracle,
        ) by {
            assert(found == self.hit_spec(t_min, t_max, met, oracle));
            lemma_hierarchy_finds_nearest(self, boxes, t_min, t_max, met, oracle);
        }
    }

    /// The query in the form of the common surface contract: `true` and the
    /// record filled in on a hit, `false` and the record untouched on a miss.
    pub fn hit<C: Fn(AABB) -> Crossings, P: Fn(usize, Scalar, Scalar) -> Option<HitRecord>>(
        &self,
        t_min: Scalar,
        t_max: Scalar,
        crossings: &C,
        probe: &P,
        hit_record: &mut HitRecord,
    ) -> (hit: bool)
        requires
            forall|bounds: AABB| call_requires(*crossings, (bounds,)),
            forall|k: int| 0 <= k < self.leaves().len() ==> askable(*probe, #[trigger] self.leaves()[k]),
        ensures
            forall|
                met: spec_fn(AABB) -> Crossings,
                oracle: spec_fn(usize, Scalar, Scalar) -> Option<HitRecord>,
            |
                crossings_follow(*crossings, met) && probe_follows(*probe, oracle) ==> (
                match #[trigger] self.hit_spec(t_min, t_max, met, oracle) {
                    Some(record) => hit && *final(hit_record) == record,
                    None => !hit && *final(hit_record) == *old(hit_record),
                }),
            forall|
                boxes: Seq<AABB>,
                met: spec_fn(AABB) -> Crossings,
                oracle: spec_fn(usize, Scalar, Scalar) -> Option<HitRecord>,
            |
                crossings_follow(*crossings, met) && probe_follows(*probe, oracle) && self.wf(boxes)
                    && boxes_are_numbers(boxes) && !t_max.is_nan_spec() && (forall|id: usize| #[trigger]
                    self.leaves().contains(id) ==> window_consistent(oracle, id, t_min, t_max))
                    && #[trigger] ray_respects_boxes(boxes, t_min, met, oracle) ==> is_nearest(
                    reported(hit, *final(hit_record)),
                    self.leaves(),
                    t_min,
                    t_max,
                    oracle,
                ),
            !hit ==> *final(hit_record) == *old(hit_record),
            hit ==> exists|k: int|
                0 <= k < self.leaves().len() && given_for(
                    *probe,
                    #[trigger] self.leaves()[k],
                    t_min,
                    *final(hit_record),
                ),
    {
        match self.nearest(t_min, t_max, crossings, probe) {
            Some(record) => {
                *hit_record = record;
                true
            },
            None => false,
        }
    }
}

} // verus!
