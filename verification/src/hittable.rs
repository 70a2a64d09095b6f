//! Hit records, and the choice of the nearest hit among several surfaces.
use vstd::prelude::*;
use crate::aabb::{lemma_surrounding_box_is_union, AABB};
use crate::scalar::Scalar;
use crate::vec3::{Color, Point3, Vec3};

verus! {

/// What is known of the place where a ray meets a surface.
///
/// `material` names the surface's material by its index in the scene's
/// table of materials.
#[derive(Clone, Copy, Debug, PartialEq, Eq, Structural)]
pub struct HitRecord {
    pub point: Point3,
    pub normal: Vec3,
    pub t: Scalar,
    pub u: Scalar,
    pub v: Scalar,
    pub front_face: bool,
    pub material: usize,
    pub background: Color,
}

impl HitRecord {
    /// The record with the normal turned against the ray: `outward_normal`
    /// itself where the ray comes from outside, `facing` being negative,
    /// and its negation where it comes from inside.
    pub open spec fn faced(self, facing: Scalar, outward_normal: Vec3) -> HitRecord {
        let front_face = facing.lt_spec(Scalar::zero_spec());
        HitRecord {
            normal: if front_face {
                outward_normal
            } else {
                outward_normal.neg_spec()
            },
            front_face,
            ..self
        }
    }

    /// Sets the normal and the side of the surface that was hit. `facing` is
    /// the dot product of the ray's direction with `outward_normal`.
    pub fn set_face_normal(&mut self, facing: Scalar, outward_normal: Vec3)
        ensures
            *final(self) == old(self).faced(facing, outward_normal),
    {
        let front_face = facing.lt(Scalar::zero());
        let normal = if front_face {
            outward_normal
        } else {
            outward_normal.neg()
        };
        self.normal = normal;
        self.front_face = front_face;
    }

    /// The record of all zeros, facing back, with material 0.
    pub open spec fn blank() -> HitRecord {
        HitRecord {
            point: Vec3::zero_spec(),
            normal: Vec3::zero_spec(),
            t: Scalar::zero_spec(),
            u: Scalar::zero_spec(),
            v: Scalar::zero_spec(),
            front_face: false,
            material: 0,
            background: Vec3::zero_spec(),
        }
    }

    /// The ambient colour that the record carries, whatever the place.
    pub fn emitted(&self, _u: Scalar, _v: Scalar, _p: &Point3) -> (r: Color)
        ensures
            r == self.background,
    {
        self.background
    }
}

impl Default for HitRecord {
    /// The blank record.
    fn default() -> (r: HitRecord)
        ensures
            r == HitRecord::blank(),
    {
        HitRecord {
            point: Vec3::zero(),
            normal: Vec3::zero(),
            t: Scalar::zero(),
            u: Scalar::zero(),
            v: Scalar::zero(),
            front_face: false,
            material: 0,
            background: Vec3::zero(),
        }
    }
}

/// The unordered composite: a list of surfaces, each named by its index in
/// the scene's table of surfaces.
#[derive(Debug)]
pub struct HittableList {
    pub hittable_list: Vec<usize>,
}

/// Whether `oracle` tells what the probe answers: every answer that the
/// probe's contract allows to a question is the oracle's answer to it.
pub open spec fn probe_follows<P: Fn(usize, Scalar, Scalar) -> Option<HitRecord>>(
    probe: P,
    oracle: spec_fn(usize, Scalar, Scalar) -> Option<HitRecord>,
) -> bool {
    forall|id: usize, t_min: Scalar, t_max: Scalar, r: Option<HitRecord>|
        #[trigger] call_ensures(probe, (id, t_min, t_max), r) ==> r == oracle(id, t_min, t_max)
}

/// Whether a probe may be asked about surface `id`, whatever the window.
pub open spec fn askable<P: Fn(usize, Scalar, Scalar) -> Option<HitRecord>>(
    probe: P,
    id: usize,
) -> bool {
    forall|t_min: Scalar, t_max: Scalar| call_requires(probe, (id, t_min, t_max))
}

/// Whether `record` is a hit that the probe's contract allows for surface
/// `id` inside some window that starts at `t_min`.
pub open spec fn given_for<P: Fn(usize, Scalar, Scalar) -> Option<HitRecord>>(
    probe: P,
    id: usize,
    t_min: Scalar,
    record: HitRecord,
) -> bool {
    exists|t_max: Scalar| #[trigger] call_ensures(probe, (id, t_min, t_max), Some(record))
}

/// What a surface reports through the common contract: the record on a
/// hit, nothing on a miss.
pub open spec fn reported(hit: bool, record: HitRecord) -> Option<HitRecord> {
    if hit {
        Some(record)
    } else {
        None
    }
}

/// The end of the window that is left once `found` has been found: a hit
/// can only be replaced by one that is no farther.
pub open spec fn closest_so_far(found: Option<HitRecord>, t_max: Scalar) -> Scalar {
    match found {
        Some(record) => record.t,
        None => t_max,
    }
}

/// The linear scan: the surfaces are probed in order, each inside the window
/// that the hits before it have left, and the last hit stands.
pub open spec fn scan_spec(
    ids: Seq<usize>,
    t_min: Scalar,
    t_max: Scalar,
    oracle: spec_fn(usize, Scalar, Scalar) -> Option<HitRecord>,
) -> Option<HitRecord>
    decreases ids.len(),
{
    if ids.len() == 0 {
        None
    } else {
        let found = scan_spec(ids.drop_last(), t_min, t_max, oracle);
        match oracle(ids.last(), t_min, closest_so_far(found, t_max)) {
            Some(record) => Some(record),
            None => found,
        }
    }
}

/// Probes the surfaces `ids` in order and returns the last hit, each probe
/// confined to the window that the hits before it have left. For every
/// oracle that tells what `probe` answers, the result is [`scan_spec`] of
/// that oracle; and where the surfaces are window-consistent it is a
/// nearest hit among them ([`is_nearest`]).
pub fn scan<P: Fn(usize, Scalar, Scalar) -> Option<HitRecord>>(
    ids: &Vec<usize>,
    t_min: Scalar,
    t_max: Scalar,
    probe: &P,
) -> (found: Option<HitRecord>)
    requires
        forall|k: int| 0 <= k < ids.len() ==> askable(*probe, #[trigger] ids[k]),
    ensures
        forall|oracle: spec_fn(usize, Scalar, Scalar) -> Option<HitRecord>|
            probe_follows(*probe, oracle) ==> found == #[trigger] scan_spec(
                ids@,
                t_min,
                t_max,
                oracle,
            ),
        found matches Some(record) ==> exists|k: int|
            0 <= k < ids.len() && given_for(*probe, #[trigger] ids[k], t_min, record),
        forall|oracle: spec_fn(usize, Scalar, Scalar) -> Option<HitRecord>|
            probe_follows(*probe, oracle) && !t_max.is_nan_spec() && (forall|id: usize| #[trigger]
                ids@.contains(id) ==> window_consistent(oracle, id, t_min, t_max))
                ==> #[trigger] is_nearest(found, ids@, t_min, t_max, oracle),
{
    let mut found: Option<HitRecord> = None;
    let mut i: usize = 0;
    while i < ids.len()
        invariant
            i <= ids.len(),
            forall|k: int| 0 <= k < ids.len() ==> askable(*probe, #[trigger] ids[k]),
            forall|oracle: spec_fn(usize, Scalar, Scalar) -> Option<HitRecord>|
                probe_follows(*probe, oracle) ==> found == #[trigger] scan_spec(
                    ids@.take(i as int),
                    t_min,
                    t_max,
                    oracle,
                ),
            found matches Some(record) ==> exists|k: int|
                0 <= k < i && given_for(*probe, #[trigger] ids[k], t_min, record),
        decreases ids.len() - i,
    {
        let closest = match found {
            Some(record) => record.t,
            None => t_max,
        };
        let probed = probe(ids[i], t_min, closest);
        let ghost before = found;
        if let Some(record) = probed {
            found = Some(record);
        }
        proof {
            assert(ids@.take(i + 1).drop_last() =~= ids@.take(i as int));
            assert(ids@.take(i + 1).last() == ids[i as int]);
            assert forall|oracle: spec_fn(usize, Scalar, Scalar) -> Option<HitRecord>|
                probe_follows(*probe, oracle) implies found == #[trigger] scan_spec(
                ids@.take(i + 1),
                t_min,
                t_max,
                oracle,
            ) by {
                assert(before == scan_spec(ids@.take(i as int), t_min, t_max, oracle));
                assert(probed == oracle(ids[i as int], t_min, closest));
            }
        }
        i += 1;
    }
    proof {
        assert(ids@.take(i as int) =~= ids@);
        assert forall|oracle: spec_fn(usize, Scalar, Scalar) -> Option<HitRecord>|
            probe_follows(*probe, oracle) && !t_max.is_nan_spec() && (forall|id: usize| #[trigger]
                ids@.contains(id) ==> window_consistent(
                    oracle,
                    id,
                    t_min,
                    t_max,
                )) implies #[trigger] is_nearest(found, ids@, t_min, t_max, oracle) by {
            assert(found == scan_spec(ids@, t_min, t_max, oracle));
            lemma_scan_finds_nearest(ids@, t_min, t_max, oracle);
        }
    }
    found
}

/// A hit kept only if it lies inside a window that ends at `end`.
pub open spec fn clipped(full: Option<HitRecord>, end: Scalar) -> Option<HitRecord> {
    match full {
        Some(record) => if record.t.le_spec(end) {
            Some(record)
        } else {
            None
        },
        None => None,
    }
}

/// Whether surface `id` answers as a fixed surface does when the window is
/// cut short: its hit inside `[t_min, t_max]` lies inside the window, and
/// inside a shorter window it gives that same hit or, where the hit lies
/// beyond the end, none.
pub open spec fn window_consistent(
    oracle: spec_fn(usize, Scalar, Scalar) -> Option<HitRecord>,
    id: usize,
    t_min: Scalar,
    t_max: Scalar,
) -> bool {
    &&& oracle(id, t_min, t_max) matches Some(record) ==> record.t.le_spec(t_max)
    &&& forall|end: Scalar|
        end.le_spec(t_max) ==> #[trigger] oracle(id, t_min, end) == clipped(
            oracle(id, t_min, t_max),
            end,
        )
}

/// Whether `found` is a nearest hit among the surfaces `ids` inside the
/// window: the hit of one of them, and no farther than the hit of any; or
/// no hit where none of them is hit.
pub open spec fn is_nearest(
    found: Option<HitRecord>,
    ids: Seq<usize>,
    t_min: Scalar,
    t_max: Scalar,
    oracle: spec_fn(usize, Scalar, Scalar) -> Option<HitRecord>,
) -> bool {
    match found {
        Some(record) => {
            &&& exists|id: usize| #[trigger]
                ids.contains(id) && oracle(id, t_min, t_max) == Some(record)
            &&& forall|id: usize| #[trigger]
                ids.contains(id) ==> (oracle(id, t_min, t_max) matches Some(other)
                    ==> record.t.le_spec(other.t))
        },
        None => forall|id: usize| #[trigger] ids.contains(id) ==> oracle(id, t_min, t_max) is None,
    }
}

/// A surface that is window-consistent over a window is so over every
/// shorter window with the same start.
pub proof fn lemma_window_consistent_shorter(
    oracle: spec_fn(usize, Scalar, Scalar) -> Option<HitRecord>,
    id: usize,
    t_min: Scalar,
    t_max: Scalar,
    end: Scalar,
)
    requires
        window_consistent(oracle, id, t_min, t_max),
        end.le_spec(t_max),
    ensures
        window_consistent(oracle, id, t_min, end),
{
    assert(oracle(id, t_min, end) == clipped(oracle(id, t_min, t_max), end));
    assert forall|shorter: Scalar| shorter.le_spec(end) implies #[trigger] oracle(
        id,
        t_min,
        shorter,
    ) == clipped(oracle(id, t_min, end), shorter) by {
        assert(shorter.le_spec(t_max));
        assert(oracle(id, t_min, shorter) == clipped(oracle(id, t_min, t_max), shorter));
    }
}

/// The linear scan finds a nearest hit: over surfaces that are
/// window-consistent, what it returns is the hit of one of them and no
/// farther than the hit of any other, and it returns none only where none
/// is hit.
pub proof fn lemma_scan_finds_nearest(
    ids: Seq<usize>,
    t_min: Scalar,
    t_max: Scalar,
    oracle: spec_fn(usize, Scalar, Scalar) -> Option<HitRecord>,
)
    requires
        !t_max.is_nan_spec(),
        forall|id: usize| #[trigger] ids.contains(id) ==> window_consistent(oracle, id, t_min, t_max),
    ensures
        is_nearest(scan_spec(ids, t_min, t_max, oracle), ids, t_min, t_max, oracle),
    decreases ids.len(),
{
    if ids.len() == 0 {
        assert forall|id: usize| #[trigger] ids.contains(id) implies oracle(id, t_min, t_max) is None by {}
    } else {
        let front = ids.drop_last();
        let last = ids.last();
        assert(ids.contains(last)) by {
            assert(ids[ids.len() - 1] == last);
        }
        assert forall|id: usize| #[trigger] front.contains(id) implies ids.contains(id) by {
            let k = choose|k: int| 0 <= k < front.len() && front[k] == id;
            assert(ids[k] == id);
        }
        assert forall|id: usize| #[trigger] ids.contains(id) implies front.contains(id) || id == last by {
            let k = choose|k: int| 0 <= k < ids.len() && ids[k] == id;
            if k < ids.len() - 1 {
                assert(front[k] == id);
            }
        }
        lemma_scan_finds_nearest(front, t_min, t_max, oracle);
        let found = scan_spec(front, t_min, t_max, oracle);
        let closest = closest_so_far(found, t_max);
        assert(closest.le_spec(t_max)) by {
            if let Some(record) = found {
                let w = choose|id: usize| #[trigger]
                    front.contains(id) && oracle(id, t_min, t_max) == Some(record);
                assert(ids.contains(w));
            }
        }
        assert(window_consistent(oracle, last, t_min, t_max));
        assert(oracle(last, t_min, closest) == clipped(oracle(last, t_min, t_max), closest));
        let result = scan_spec(ids, t_min, t_max, oracle);
        match oracle(last, t_min, closest) {
            Some(record) => {
                assert(result == Some(record));
                assert(oracle(last, t_min, t_max) == Some(record));
                assert forall|id: usize| #[trigger] ids.contains(id) implies (oracle(
                    id,
                    t_min,
                    t_max,
                ) matches Some(other) ==> record.t.le_spec(other.t)) by {
                    if let Some(other) = oracle(id, t_min, t_max) {
                        if front.contains(id) {
                            assert(found is Some);
                        }
                    }
                }
            },
            None => {
                assert(result == found);
                match found {
                    Some(record) => {
                        let w = choose|id: usize| #[trigger]
                            front.contains(id) && oracle(id, t_min, t_max) == Some(record);
                        assert(ids.contains(w));
                        assert forall|id: usize| #[trigger] ids.contains(id) implies (oracle(
                            id,
                            t_min,
                            t_max,
                        ) matches Some(other) ==> record.t.le_spec(other.t)) by {
                            if front.contains(id) {
                            }
                        }
                    },
                    None => {
                        assert forall|id: usize| #[trigger] ids.contains(id) implies oracle(
                            id,
                            t_min,
                            t_max,
                        ) is None by {
                            if front.contains(id) {
                            }
                        }
                    },
                }
            },
        }
    }
}

/// Two nearest hits among the same surfaces lie at the same distance, and
/// are the same hit where no two surfaces are hit at one distance.
pub proof fn lemma_nearest_is_unique(
    first: Option<HitRecord>,
    second: Option<HitRecord>,
    ids: Seq<usize>,
    others: Seq<usize>,
    t_min: Scalar,
    t_max: Scalar,
    oracle: spec_fn(usize, Scalar, Scalar) -> Option<HitRecord>,
)
    requires
        is_nearest(first, ids, t_min, t_max, oracle),
        is_nearest(second, others, t_min, t_max, oracle),
        forall|id: usize| ids.contains(id) <==> others.contains(id),
        forall|id: usize| #[trigger] ids.contains(id) ==> window_consistent(oracle, id, t_min, t_max),
    ensures
        first is Some <==> second is Some,
        first matches Some(a) ==> second matches Some(b) && a.t.same_value_spec(b.t),
        (forall|p: usize, q: usize|
            #![trigger ids.contains(p), ids.contains(q)]
            ids.contains(p) && ids.contains(q) && oracle(p, t_min, t_max) is Some && oracle(
                q,
                t_min,
                t_max,
            ) is Some && oracle(p, t_min, t_max).unwrap().t.same_value_spec(
                oracle(q, t_min, t_max).unwrap().t,
            ) ==> oracle(p, t_min, t_max) == oracle(q, t_min, t_max)) ==> first == second,
{
    if let Some(a) = first {
        let p = choose|id: usize| #[trigger] ids.contains(id) && oracle(id, t_min, t_max) == Some(a);
        assert(others.contains(p));
        assert(second is Some);
        let b = second.unwrap();
        let q = choose|id: usize| #[trigger]
            others.contains(id) && oracle(id, t_min, t_max) == Some(b);
        assert(ids.contains(q));
        assert(a.t.le_spec(b.t));
        assert(b.t.le_spec(a.t));
    } else {
        if let Some(b) = second {
            let q = choose|id: usize| #[trigger]
                others.contains(id) && oracle(id, t_min, t_max) == Some(b);
            assert(ids.contains(q));
        }
    }
}

/// The union of the boxes of the surfaces `ids`, folded from the left;
/// undefined for no surface, and where a surface has no box.
pub open spec fn union_spec(ids: Seq<usize>, boxes: Seq<Option<AABB>>) -> Option<AABB>
    decreases ids.len(),
{
    if ids.len() == 0 {
        None
    } else if ids.len() == 1 {
        boxes[ids[0] as int]
    } else {
        match (union_spec(ids.drop_last(), boxes), boxes[ids.last() as int]) {
            (Some(front), Some(last)) => Some(AABB::surrounding_spec(front, last)),
            _ => None,
        }
    }
}

impl HittableList {
    /// The empty list.
    pub fn new() -> (r: HittableList)
        ensures
            r.hittable_list@ == Seq::<usize>::empty(),
    {
        HittableList { hittable_list: Vec::new() }
    }

    /// Appends a surface.
    pub fn add(&mut self, hittable: usize)
        ensures
            final(self).hittable_list@ == old(self).hittable_list@.push(hittable),
    {
        self.hittable_list.push(hittable);
    }

    /// The nearest hit among the surfaces of the list inside the window:
    /// `true` and the record filled in on a hit, `false` and the record
    /// untouched on a miss.
    ///
    /// `probe` asks one surface for its hit inside a window. For every
    /// oracle that tells what `probe` answers, the result is [`scan_spec`]
    /// of that oracle, and a nearest hit ([`is_nearest`]) where the
    /// surfaces are window-consistent. In any case a hit is an answer that
    /// `probe` gave for a surface of the list.
    pub fn hit<P: Fn(usize, Scalar, Scalar) -> Option<HitRecord>>(
        &self,
        t_min: Scalar,
        t_max: Scalar,
        probe: &P,
        hit_record: &mut HitRecord,
    ) -> (hit: bool)
        requires
            forall|k: int|
                0 <= k < self.hittable_list.len() ==> askable(
                    *probe,
                    #[trigger] self.hittable_list[k],
                ),
        ensures
            forall|oracle: spec_fn(usize, Scalar, Scalar) -> Option<HitRecord>|
                probe_follows(*probe, oracle) ==> (match #[trigger] scan_spec(
                    self.hittable_list@,
                    t_min,
                    t_max,
                    oracle,
                ) {
                    Some(record) => hit && *final(hit_record) == record,
                    None => !hit && *final(hit_record) == *old(hit_record),
                }),
            !hit ==> *final(hit_record) == *old(hit_record),
            hit ==> exists|k: int|
                0 <= k < self.hittable_list.len() && given_for(
                    *probe,
                    #[trigger] self.hittable_list[k],
                    t_min,
                    *final(hit_record),
                ),
            forall|oracle: spec_fn(usize, Scalar, Scalar) -> Option<HitRecord>|
                probe_follows(*probe, oracle) && !t_max.is_nan_spec() && (forall|id: usize| #[trigger]
                    self.hittable_list@.contains(id) ==> window_consistent(
                        oracle,
                        id,
                        t_min,
                        t_max,
                    )) ==> #[trigger] is_nearest(
                    reported(hit, *final(hit_record)),
                    self.hittable_list@,
                    t_min,
                    t_max,
                    oracle,
                ),
    {
        match scan(&self.hittable_list, t_min, t_max, probe) {
            Some(record) => {
                *hit_record = record;
                true
            },
            None => false,
        }
    }

    /// The box around the whole list: `true` and the union of the surfaces'
    /// boxes in `output_box`; `false`, and `output_box` untouched, where the
    /// list is empty or a surface has no box. `boxes` holds the box of each
    /// surface of the scene, by index.
    pub fn bounding_box(&self, boxes: &Vec<Option<AABB>>, output_box: &mut AABB) -> (defined: bool)
        requires
            forall|k: int|
                0 <= k < self.hittable_list.len() ==> (#[trigger] self.hittable_list[k])
                    < boxes.len(),
        ensures
            defined == union_spec(self.hittable_list@, boxes@).is_some(),
            defined ==> Some(*final(output_box)) == union_spec(self.hittable_list@, boxes@),
            !defined ==> *final(output_box) == *old(output_box),
    {
        if self.hittable_list.len() == 0 {
            return false;
        }
        let mut union = match boxes[self.hittable_list[0]] {
            Some(first) => first,
            None => {
                proof {
                    lemma_union_needs_every_box(self.hittable_list@, boxes@, 0);
                }
                return false;
            },
        };
        let mut i: usize = 1;
        proof {
            assert(self.hittable_list@.take(1).len() == 1);
            assert(self.hittable_list@.take(1)[0] == self.hittable_list[0]);
        }
        while i < self.hittable_list.len()
            invariant
                1 <= i <= self.hittable_list.len(),
                forall|k: int|
                    0 <= k < self.hittable_list.len() ==> (#[trigger] self.hittable_list[k])
                        < boxes.len(),
                union_spec(self.hittable_list@.take(i as int), boxes@) == Some(union),
            decreases self.hittable_list.len() - i,
        {
            proof {
                assert(self.hittable_list@.take(i + 1).drop_last() =~= self.hittable_list@.take(
                    i as int,
                ));
                assert(self.hittable_list@.take(i + 1).last() == self.hittable_list[i as int]);
            }
            match boxes[self.hittable_list[i]] {
                Some(next) => {
                    union = AABB::surrounding_box(union, next);
                },
                None => {
                    proof {
                        lemma_union_needs_every_box(self.hittable_list@, boxes@, i as int);
                    }
                    return false;
                },
            }
            i += 1;
        }
        proof {
            assert(self.hittable_list@.take(i as int) =~= self.hittable_list@);
        }
        *output_box = union;
        true
    }
}

/// The union is undefined as soon as one surface has no box.
pub proof fn lemma_union_needs_every_box(ids: Seq<usize>, boxes: Seq<Option<AABB>>, k: int)
    requires
        0 <= k < ids.len(),
        boxes[ids[k] as int] is None,
    ensures
        union_spec(ids, boxes) is None,
    decreases ids.len(),
{
    if ids.len() >= 2 && k < ids.len() - 1 {
        assert(ids.drop_last()[k] == ids[k]);
        lemma_union_needs_every_box(ids.drop_last(), boxes, k);
    }
}

/// Where the union is defined and the boxes are numbers, it is a number and
/// encloses the box of every surface.
pub proof fn lemma_union_encloses_each(ids: Seq<usize>, boxes: Seq<Option<AABB>>, k: int)
    requires
        0 <= k < ids.len(),
        union_spec(ids, boxes) is Some,
        forall|j: int|
            0 <= j < ids.len() ==> (boxes[(#[trigger] ids[j]) as int] matches Some(b)
                ==> b.is_number()),
    ensures
        boxes[ids[k] as int] is Some,
        union_spec(ids, boxes).unwrap().is_number(),
        union_spec(ids, boxes).unwrap().encloses(boxes[ids[k] as int].unwrap()),
    decreases ids.len(),
{
    if ids.len() == 1 {
    } else {
        let front = ids.drop_last();
        assert forall|j: int| 0 <= j < front.len() implies (boxes[(#[trigger] front[j]) as int] matches Some(
            b,
        ) ==> b.is_number()) by {
            assert(front[j] == ids[j]);
        }
        let front_union = union_spec(front, boxes).unwrap();
        let last = boxes[ids.last() as int].unwrap();
        assert(ids[ids.len() - 1] == ids.last());
        lemma_union_encloses_each(front, boxes, 0);
        lemma_surrounding_box_is_union(front_union, last, front_union);
        if k < ids.len() - 1 {
            lemma_union_encloses_each(front, boxes, k);
            assert(front[k] == ids[k]);
        }
    }
}

} // verus!
