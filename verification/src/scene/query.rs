//! Asking a scene for the nearest hit of a ray on one of its surfaces.
use vstd::prelude::*;
use crate::aabb::{Crossings, AABB};
use crate::bvh::query::crossings_follow;
use crate::constant_medium::{
    advance_follows, boundary_follows, span_spec, ConstantMedium, Flight,
};
use crate::hittable::{probe_follows, reported, scan, scan_spec, HitRecord};
use crate::ray::Ray;
use crate::scalar::Scalar;
use crate::scene::{Scene, Surface};

verus! {

/// The arithmetic of a scene as mathematical functions: for each question
/// that the traversal asks of the caller, the answer.
pub struct Oracles {
    /// The hit of a sphere, a rectangle or a cube inside a window.
    pub leaf: spec_fn(usize, Ray, Scalar, Scalar) -> Option<HitRecord>,
    /// The plane crossings of a ray with a box.
    pub crossings: spec_fn(AABB, Ray) -> Crossings,
    /// A ray carried into the frame of a moved or turned surface.
    pub enter: spec_fn(usize, Ray) -> Ray,
    /// A hit carried back out of that frame, given the ray inside it.
    pub leave: spec_fn(usize, Ray, HitRecord) -> HitRecord,
    /// The ray parameter just behind a hit.
    pub advance: spec_fn(Scalar) -> Scalar,
    /// The flight of a ray through a medium, between two parameters.
    pub flight: spec_fn(usize, Ray, Scalar, Scalar) -> Flight,
}

/// Whether the oracles tell what the six function values answer: every
/// answer that the contract of one of them allows is the oracle's.
pub open spec fn geometry_follows<
    L: Fn(usize, Ray, Scalar, Scalar) -> Option<HitRecord>,
    C: Fn(AABB, Ray) -> Crossings,
    E: Fn(usize, Ray) -> Ray,
    V: Fn(usize, Ray, HitRecord) -> HitRecord,
    A: Fn(Scalar) -> Scalar,
    F: Fn(usize, Ray, Scalar, Scalar) -> Flight,
>(leaf: L, crossings: C, enter: E, leave: V, advance: A, flight: F, o: Oracles) -> bool {
    &&& forall|id: usize, ray: Ray, t_min: Scalar, t_max: Scalar, r: Option<HitRecord>| #[trigger]
        call_ensures(leaf, (id, ray, t_min, t_max), r) ==> r == (o.leaf)(id, ray, t_min, t_max)
    &&& forall|bounds: AABB, ray: Ray, r: Crossings| #[trigger]
        call_ensures(crossings, (bounds, ray), r) ==> r == (o.crossings)(bounds, ray)
    &&& forall|id: usize, ray: Ray, r: Ray| #[trigger]
        call_ensures(enter, (id, ray), r) ==> r == (o.enter)(id, ray)
    &&& forall|id: usize, ray: Ray, record: HitRecord, r: HitRecord| #[trigger]
        call_ensures(leave, (id, ray, record), r) ==> r == (o.leave)(id, ray, record)
    &&& advance_follows(advance, o.advance)
    &&& forall|id: usize, ray: Ray, t1: Scalar, t2: Scalar, r: Flight| #[trigger]
        call_ensures(flight, (id, ray, t1, t2), r) ==> r == (o.flight)(id, ray, t1, t2)
}

/// Whether each of the six function values may be asked anything.
pub open spec fn geometry_total<
    L: Fn(usize, Ray, Scalar, Scalar) -> Option<HitRecord>,
    C: Fn(AABB, Ray) -> Crossings,
    E: Fn(usize, Ray) -> Ray,
    V: Fn(usize, Ray, HitRecord) -> HitRecord,
    A: Fn(Scalar) -> Scalar,
    F: Fn(usize, Ray, Scalar, Scalar) -> Flight,
>(leaf: L, crossings: C, enter: E, leave: V, advance: A, flight: F) -> bool {
    &&& forall|id: usize, ray: Ray, t_min: Scalar, t_max: Scalar|
        call_requires(leaf, (id, ray, t_min, t_max))
    &&& forall|bounds: AABB, ray: Ray| call_requires(crossings, (bounds, ray))
    &&& forall|id: usize, ray: Ray| call_requires(enter, (id, ray))
    &&& forall|id: usize, ray: Ray, record: HitRecord| call_requires(leave, (id, ray, record))
    &&& forall|t: Scalar| call_requires(advance, (t,))
    &&& forall|id: usize, ray: Ray, t1: Scalar, t2: Scalar| call_requires(flight, (id, ray, t1, t2))
}

/// The plane crossings of one ray, as a function of the box.
pub open spec fn crossings_along(ray: Ray, o: Oracles) -> spec_fn(AABB) -> Crossings {
    |bounds: AABB| (o.crossings)(bounds, ray)
}

/// The hit of one part inside a window, as a function of the window.
pub open spec fn edge_of(
    parts: spec_fn(usize, Scalar, Scalar) -> Option<HitRecord>,
    part: usize,
) -> spec_fn(Scalar, Scalar) -> Option<HitRecord> {
    |t_min: Scalar, t_max: Scalar| parts(part, t_min, t_max)
}

/// The hits of the parts of surface `bound`, which stand before it, as a
/// function of the part and the window; what does not stand before it is
/// never hit.
pub open spec fn part_hits(surfaces: Seq<Surface>, bound: int, ray: Ray, o: Oracles) -> spec_fn(
    usize,
    Scalar,
    Scalar,
) -> Option<HitRecord>
    decreases bound, 0int,
{
    |part: usize, t_min: Scalar, t_max: Scalar|
        if part < bound {
            hit_spec(surfaces, part as int, ray, t_min, t_max, o)
        } else {
            None
        }
}

/// The hit of a medium, given the stretch of the ray inside its boundary:
/// none without a stretch, and otherwise what the flight decides.
pub open spec fn medium_hit(medium: ConstantMedium, span: Option<(Scalar, Scalar)>, id: usize, ray: Ray, o: Oracles) -> Option<
    HitRecord,
> {
    match span {
        None => None,
        Some(stretch) => {
            let drawn = (o.flight)(id, ray, stretch.0, stretch.1);
            if ConstantMedium::scattered_inside(drawn) {
                Some(medium.scattered_record(drawn, HitRecord::blank()))
            } else {
                None
            }
        },
    }
}

/// The hit of a moved or turned surface: the ray is carried into the
/// surface's frame, the surface is asked there, and its hit is carried back.
pub open spec fn framed_hit(
    inside: Option<HitRecord>,
    id: usize,
    inner_ray: Ray,
    o: Oracles,
) -> Option<HitRecord> {
    match inside {
        Some(record) => Some((o.leave)(id, inner_ray, record)),
        None => None,
    }
}

/// The nearest hit of a ray on surface `id` inside the window: the answer
/// of the arithmetic for a sphere, a rectangle or a cube; the linear scan
/// for a list; the query of the hierarchy; for a medium the flight through
/// the stretch inside its boundary; and for a moved or turned surface the
/// hit of the surface itself in its own frame.
pub open spec fn hit_spec(
    surfaces: Seq<Surface>,
    id: int,
    ray: Ray,
    t_min: Scalar,
    t_max: Scalar,
    o: Oracles,
) -> Option<HitRecord>
    decreases id, 1int,
{
    if id < 0 || id >= surfaces.len() {
        None
    } else {
        match surfaces[id] {
            Surface::List(list) => scan_spec(
                list.hittable_list@,
                t_min,
                t_max,
                part_hits(surfaces, id, ray, o),
            ),
            Surface::Bvh(node) => node.hit_spec(
                t_min,
                t_max,
                crossings_along(ray, o),
                part_hits(surfaces, id, ray, o),
            ),
            Surface::ConstantMedium(medium) => medium_hit(
                medium,
                span_spec(
                    edge_of(part_hits(surfaces, id, ray, o), medium.boundary),
                    o.advance,
                    t_min,
                    t_max,
                ),
                id as usize,
                ray,
                o,
            ),
            Surface::Translate(moved) => framed_hit(
                part_hits(surfaces, id, (o.enter)(id as usize, ray), o)(
                    moved.hittable,
                    t_min,
                    t_max,
                ),
                id as usize,
                (o.enter)(id as usize, ray),
                o,
            ),
            Surface::RotateY(turned) => framed_hit(
                part_hits(surfaces, id, (o.enter)(id as usize, ray), o)(
                    turned.hittable,
                    t_min,
                    t_max,
                ),
                id as usize,
                (o.enter)(id as usize, ray),
                o,
            ),
            _ => (o.leaf)(id as usize, ray, t_min, t_max),
        }
    }
}

/// Whether `found` is what the traversal owes for surface `id`: for all
/// oracles that tell what the six function values answer, it is
/// [`hit_spec`] of those oracles.
pub open spec fn answers<
    L: Fn(usize, Ray, Scalar, Scalar) -> Option<HitRecord>,
    C: Fn(AABB, Ray) -> Crossings,
    E: Fn(usize, Ray) -> Ray,
    V: Fn(usize, Ray, HitRecord) -> HitRecord,
    A: Fn(Scalar) -> Scalar,
    F: Fn(usize, Ray, Scalar, Scalar) -> Flight,
>(
    surfaces: Seq<Surface>,
    id: int,
    ray: Ray,
    t_min: Scalar,
    t_max: Scalar,
    leaf: L,
    crossings: C,
    enter: E,
    leave: V,
    advance: A,
    flight: F,
    found: Option<HitRecord>,
) -> bool {
    forall|o: Oracles|
        geometry_follows(leaf, crossings, enter, leave, advance, flight, o) ==> found
            == #[trigger] hit_spec(surfaces, id, ray, t_min, t_max, o)
}

impl Scene {
    /// The nearest hit of a ray on the surface `id` inside the window, if
    /// there is one; none for an index that names no surface.
    ///
    /// The six function values do the arithmetic: `leaf` gives the hit of a
    /// sphere, a rectangle or a cube, `crossings` the plane crossings of a
    /// ray with a box, `enter` and `leave` carry a ray into the frame of a
    /// moved or turned surface and a hit back out of it, `advance` gives
    /// the parameter just behind a hit, and `flight` draws a flight through
    /// a medium. For all oracles that tell what the six answer, the result
    /// is [`hit_spec`] of those oracles.
    pub fn nearest<
        L: Fn(usize, Ray, Scalar, Scalar) -> Option<HitRecord>,
        C: Fn(AABB, Ray) -> Crossings,
        E: Fn(usize, Ray) -> Ray,
        V: Fn(usize, Ray, HitRecord) -> HitRecord,
        A: Fn(Scalar) -> Scalar,
        F: Fn(usize, Ray, Scalar, Scalar) -> Flight,
    >(
        &self,
        id: usize,
        ray: &Ray,
        t_min: Scalar,
        t_max: Scalar,
        leaf: &L,
        crossings: &C,
        enter: &E,
        leave: &V,
        advance: &A,
        flight: &F,
    ) -> (found: Option<HitRecord>)
        requires
            geometry_total(*leaf, *crossings, *enter, *leave, *advance, *flight),
        ensures
            answers(
                self@,
                id as int,
                *ray,
                t_min,
                t_max,
                *leaf,
                *crossings,
                *enter,
                *leave,
                *advance,
                *flight,
                found,
            ),
        decreases id,
    {
        let surface = match self.get(id) {
            Some(surface) => surface,
            None => {
                return None;
            },
        };
        let probe = |part: usize, lo: Scalar, hi: Scalar| -> (r: Option<HitRecord>)
            ensures
                part < id ==> answers(
                    self@,
                    part as int,
                    *ray,
                    lo,
                    hi,
                    *leaf,
                    *crossings,
                    *enter,
                    *leave,
                    *advance,
                    *flight,
                    r,
                ),
                part >= id ==> r is None,
            {
                if part < id {
                    self.nearest(part, ray, lo, hi, leaf, crossings, enter, leave, advance, flight)
                } else {
                    None
                }
            };
        proof {
            assert forall|o: Oracles|
                geometry_follows(
                    *leaf,
                    *crossings,
                    *enter,
                    *leave,
                    *advance,
                    *flight,
                    o,
                ) implies #[trigger] probe_follows(probe, part_hits(self@, id as int, *ray, o)) by {
                assert forall|part: usize, lo: Scalar, hi: Scalar, r: Option<HitRecord>| #[trigger]
                    call_ensures(probe, (part, lo, hi), r) implies r == part_hits(
                    self@,
                    id as int,
                    *ray,
                    o,
                )(part, lo, hi) by {
                    if part < id {
                        assert(r == hit_spec(self@, part as int, *ray, lo, hi, o));
                    }
                }
            }
        }
        match surface {
            Surface::List(list) => {
                let found = scan(&list.hittable_list, t_min, t_max, &probe);
                proof {
                    assert forall|o: Oracles|
                        geometry_follows(
                            *leaf,
                            *crossings,
                            *enter,
                            *leave,
                            *advance,
                            *flight,
                            o,
                        ) implies found == #[trigger] hit_spec(
                        self@,
                        id as int,
                        *ray,
                        t_min,
                        t_max,
                        o,
                    ) by {
                        assert(probe_follows(probe, part_hits(self@, id as int, *ray, o)));
                        assert(found == scan_spec(
                            list.hittable_list@,
                            t_min,
                            t_max,
                            part_hits(self@, id as int, *ray, o),
                        ));
                    }
                }
                found
            },
            Surface::Bvh(node) => {
                let crossed = |bounds: AABB| -> (r: Crossings)
                    ensures
                        call_ensures(*crossings, (bounds, *ray), r),
                    { crossings(bounds, *ray) };
                let found = node.nearest(t_min, t_max, &crossed, &probe);
                proof {
                    assert forall|o: Oracles|
                        geometry_follows(
                            *leaf,
                            *crossings,
                            *enter,
                            *leave,
                            *advance,
                            *flight,
                            o,
                        ) implies found == #[trigger] hit_spec(
                        self@,
                        id as int,
                        *ray,
                        t_min,
                        t_max,
                        o,
                    ) by {
                        assert(probe_follows(probe, part_hits(self@, id as int, *ray, o)));
                        assert(crossings_follow(crossed, crossings_along(*ray, o)));
                        assert(found == node.hit_spec(
                            t_min,
                            t_max,
                            crossings_along(*ray, o),
                            part_hits(self@, id as int, *ray, o),
                        ));
                    }
                }
                found
            },
            Surface::ConstantMedium(medium) => {
                let boundary = |lo: Scalar, hi: Scalar| -> (r: Option<HitRecord>)
                    ensures
                        call_ensures(probe, (medium.boundary, lo, hi), r),
                    { probe(medium.boundary, lo, hi) };
                let drawn_here = |t1: Scalar, t2: Scalar| -> (r: Flight)
                    ensures
                        call_ensures(*flight, (id, *ray, t1, t2), r),
                    { flight(id, *ray, t1, t2) };
                let mut record = HitRecord::default();
                let hit = medium.hit(t_min, t_max, &boundary, advance, &drawn_here, &mut record);
                let found = if hit {
                    Some(record)
                } else {
                    None
                };
                proof {
                    assert forall|o: Oracles|
                        geometry_follows(
                            *leaf,
                            *crossings,
                            *enter,
                            *leave,
                            *advance,
                            *flight,
                            o,
                        ) implies found == #[trigger] hit_spec(
                        self@,
                        id as int,
                        *ray,
                        t_min,
                        t_max,
                        o,
                    ) by {
                        let parts = part_hits(self@, id as int, *ray, o);
                        let edge = edge_of(parts, medium.boundary);
                        assert(probe_follows(probe, parts));
                        assert(boundary_follows(boundary, edge));
                        let span = span_spec(edge, o.advance, t_min, t_max);
                        assert(hit_spec(self@, id as int, *ray, t_min, t_max, o) == medium_hit(
                            *medium,
                            span,
                            id,
                            *ray,
                            o,
                        ));
                    }
                }
                found
            },
            Surface::Translate(moved) => {
                let inner_ray = enter(id, *ray);
                let inside = if moved.hittable < id {
                    self.nearest(
                        moved.hittable,
                        &inner_ray,
                        t_min,
                        t_max,
                        leaf,
                        crossings,
                        enter,
                        leave,
                        advance,
                        flight,
                    )
                } else {
                    None
                };
                let found = match inside {
                    Some(record) => Some(leave(id, inner_ray, record)),
                    None => None,
                };
                proof {
                    assert forall|o: Oracles|
                        geometry_follows(
                            *leaf,
                            *crossings,
                            *enter,
                            *leave,
                            *advance,
                            *flight,
                            o,
                        ) implies found == #[trigger] hit_spec(
                        self@,
                        id as int,
                        *ray,
                        t_min,
                        t_max,
                        o,
                    ) by {
                        assert(inner_ray == (o.enter)(id, *ray));
                        if moved.hittable < id {
                            assert(inside == hit_spec(
                                self@,
                                moved.hittable as int,
                                inner_ray,
                                t_min,
                                t_max,
                                o,
                            ));
                        }
                        assert(inside == part_hits(self@, id as int, inner_ray, o)(
                            moved.hittable,
                            t_min,
                            t_max,
                        ));
                        assert(hit_spec(self@, id as int, *ray, t_min, t_max, o) == framed_hit(
                            inside,
                            id,
                            inner_ray,
                            o,
                        ));
                    }
                }
                found
            },
            Surface::RotateY(turned) => {
                let inner_ray = enter(id, *ray);
                let inside = if turned.hittable < id {
                    self.nearest(
                        turned.hittable,
                        &inner_ray,
                        t_min,
                        t_max,
                        leaf,
                        crossings,
                        enter,
                        leave,
                        advance,
                        flight,
                    )
                } else {
                    None
                };
                let found = match inside {
                    Some(record) => Some(leave(id, inner_ray, record)),
                    None => None,
                };
                proof {
                    assert forall|o: Oracles|
                        geometry_follows(
                            *leaf,
                            *crossings,
                            *enter,
                            *leave,
                            *advance,
                            *flight,
                            o,
                        ) implies found == #[trigger] hit_spec(
                        self@,
                        id as int,
                        *ray,
                        t_min,
                        t_max,
                        o,
                    ) by {
                        assert(inner_ray == (o.enter)(id, *ray));
                        if turned.hittable < id {
                            assert(inside == hit_spec(
                                self@,
                                turned.hittable as int,
                                inner_ray,
                                t_min,
                                t_max,
                                o,
                            ));
                        }
                        assert(inside == part_hits(self@, id as int, inner_ray, o)(
                            turned.hittable,
                            t_min,
                            t_max,
                        ));
                        assert(hit_spec(self@, id as int, *ray, t_min, t_max, o) == framed_hit(
                            inside,
                            id,
                            inner_ray,
                            o,
                        ));
                    }
                }
                found
            },
            _ => {
                let found = leaf(id, *ray, t_min, t_max);
                proof {
                    assert forall|o: Oracles|
                        geometry_follows(
                            *leaf,
                            *crossings,
                            *enter,
                            *leave,
                            *advance,
                            *flight,
                            o,
                        ) implies found == #[trigger] hit_spec(
                        self@,
                        id as int,
                        *ray,
                        t_min,
                        t_max,
                        o,
                    ) by {
                        assert(found == (o.leaf)(id, *ray, t_min, t_max));
                    }
                }
                found
            },
        }
    }

    /// The query in the form of the common surface contract: `true` and the
    /// record filled in on a hit, `false` and the record untouched on a miss.
    pub fn hit<
        L: Fn(usize, Ray, Scalar, Scalar) -> Option<HitRecord>,
        C: Fn(AABB, Ray) -> Crossings,
        E: Fn(usize, Ray) -> Ray,
        V: Fn(usize, Ray, HitRecord) -> HitRecord,
        A: Fn(Scalar) -> Scalar,
        F: Fn(usize, Ray, Scalar, Scalar) -> Flight,
    >(
        &self,
        id: usize,
        ray: &Ray,
        t_min: Scalar,
        t_max: Scalar,
        leaf: &L,
        crossings: &C,
        enter: &E,
        leave: &V,
        advance: &A,
        flight: &F,
        hit_record: &mut HitRecord,
    ) -> (hit: bool)
        requires
            geometry_total(*leaf, *crossings, *enter, *leave, *advance, *flight),
        ensures
            !hit ==> *final(hit_record) == *old(hit_record),
            answers(
                self@,
                id as int,
                *ray,
                t_min,
                t_max,
                *leaf,
                *crossings,
                *enter,
                *leave,
                *advance,
                *flight,
                reported(hit, *final(hit_record)),
            ),
    {
        match self.nearest(id, ray, t_min, t_max, leaf, crossings, enter, leave, advance, flight) {
            Some(record) => {
                *hit_record = record;
                true
            },
            None => false,
        }
    }
}

} // verus!
