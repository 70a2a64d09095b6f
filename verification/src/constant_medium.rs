//! The constant medium: a homogeneous fog bounded by another surface.
use vstd::prelude::*;
use crate::aabb::AABB;
use crate::hittable::HitRecord;
use crate::scalar::Scalar;
use crate::vec3::Point3;

verus! {

/// A medium of constant density inside the surface `boundary`.
/// `phase_function` names the isotropic material of the medium in the
/// scene's table, and `negative_inverse_density` is `-1 / density`.
#[derive(Clone, Copy, Debug, PartialEq, Eq, Structural)]
pub struct ConstantMedium {
    pub boundary: usize,
    pub phase_function: usize,
    pub negative_inverse_density: Scalar,
}

/// One random flight through the medium, computed for the stretch of the
/// ray that lies inside the boundary: the length of that stretch, the
/// distance after which the ray is scattered, and the ray parameter and the
/// point at that distance.
#[derive(Clone, Copy, Debug, PartialEq, Eq, Structural)]
pub struct Flight {
    pub distance_inside_boundary: Scalar,
    pub hit_distance: Scalar,
    pub t: Scalar,
    pub point: Point3,
}

/// The stretch of the ray inside the boundary, cut to the window: entry and
/// exit are moved to the ends of the window where they lie outside it,
/// nothing is left where the entry is then not before the exit, and an
/// entry behind the ray's origin is moved to the origin.
pub open spec fn clip_spec(entry: Scalar, exit: Scalar, t_min: Scalar, t_max: Scalar) -> Option<
    (Scalar, Scalar),
> {
    let t1 = if entry.lt_spec(t_min) {
        t_min
    } else {
        entry
    };
    let t2 = if exit.gt_spec(t_max) {
        t_max
    } else {
        exit
    };
    if t1.ge_spec(t2) {
        None
    } else {
        Some((t1.max_spec(Scalar::zero_spec()), t2))
    }
}

/// Decides [`clip_spec`].
pub fn clip(entry: Scalar, exit: Scalar, t_min: Scalar, t_max: Scalar) -> (r: Option<
    (Scalar, Scalar),
>)
    ensures
        r == clip_spec(entry, exit, t_min, t_max),
{
    let t1 = if entry.lt(t_min) {
        t_min
    } else {
        entry
    };
    let t2 = if exit.gt(t_max) {
        t_max
    } else {
        exit
    };
    if t1.ge(t2) {
        None
    } else {
        Some((t1.max(Scalar::zero()), t2))
    }
}

/// The stretch that is left lies inside the window and in front of the
/// ray's origin, and is not empty.
pub proof fn lemma_clip_stays_inside(entry: Scalar, exit: Scalar, t_min: Scalar, t_max: Scalar)
    requires
        !entry.is_nan_spec() && !exit.is_nan_spec(),
        !t_min.is_nan_spec() && !t_max.is_nan_spec(),
        Scalar::zero_spec().le_spec(t_min),
    ensures
        clip_spec(entry, exit, t_min, t_max) matches Some(span) ==> t_min.le_spec(span.0)
            && span.0.lt_spec(span.1) && span.1.le_spec(t_max) && entry.le_spec(span.0)
            && span.1.le_spec(exit),
{
}

/// Whether `oracle` tells what the boundary answers when asked for its hit
/// inside a window.
pub open spec fn boundary_follows<B: Fn(Scalar, Scalar) -> Option<HitRecord>>(
    boundary: B,
    oracle: spec_fn(Scalar, Scalar) -> Option<HitRecord>,
) -> bool {
    forall|t_min: Scalar, t_max: Scalar, r: Option<HitRecord>| #[trigger]
        call_ensures(boundary, (t_min, t_max), r) ==> r == oracle(t_min, t_max)
}

/// Whether `oracle` tells what the arithmetic answers for the parameter just
/// behind a hit, `t + 0.0001`.
pub open spec fn advance_follows<A: Fn(Scalar) -> Scalar>(
    advance: A,
    oracle: spec_fn(Scalar) -> Scalar,
) -> bool {
    forall|t: Scalar, r: Scalar| #[trigger] call_ensures(advance, (t,), r) ==> r == oracle(t)
}

/// The stretch of the ray inside the boundary, cut to the window: the
/// boundary is asked for its first hit anywhere on the line, then for its
/// first hit behind that one, and the two are clipped.
pub open spec fn span_spec(
    edge: spec_fn(Scalar, Scalar) -> Option<HitRecord>,
    step: spec_fn(Scalar) -> Scalar,
    t_min: Scalar,
    t_max: Scalar,
) -> Option<(Scalar, Scalar)> {
    match edge(Scalar::infinity_spec().neg_spec(), Scalar::infinity_spec()) {
        None => None,
        Some(first) => match edge(step(first.t), Scalar::infinity_spec()) {
            None => None,
            Some(second) => clip_spec(first.t, second.t, t_min, t_max),
        },
    }
}

impl ConstantMedium {
    /// A medium inside `boundary`, with `-1 / density` and the material that scatters inside it.
    pub fn new(boundary: usize, negative_inverse_density: Scalar, phase_function: usize) -> (r:
        ConstantMedium)
        ensures
            r == (ConstantMedium { boundary, phase_function, negative_inverse_density }),
    {
        ConstantMedium { boundary, phase_function, negative_inverse_density }
    }

    /// Whether a flight ends inside the medium: it does unless the ray
    /// would travel farther than the boundary lets it.
    pub open spec fn scattered_inside(flight: Flight) -> bool {
        !flight.hit_distance.gt_spec(flight.distance_inside_boundary)
    }

    /// The record of a scattering: the flight's parameter and point and the
    /// medium's material; the normal is left as it was, for the medium
    /// scatters in any direction.
    pub open spec fn scattered_record(self, drawn: Flight, before: HitRecord) -> HitRecord {
        HitRecord { t: drawn.t, point: drawn.point, material: self.phase_function, ..before }
    }

    /// Decides whether the ray is scattered inside the medium.
    ///
    /// `boundary` asks the bounding surface for its hit inside a window,
    /// `advance` computes the parameter just behind a hit, and `flight`
    /// draws one random flight for the stretch between two parameters. For
    /// all oracles that tell what the first two answer, the stretch is
    /// [`span_spec`]; with no stretch there is no hit, and otherwise there
    /// is a flight that `flight` gave for the stretch, which decides: on a
    /// hit the record gets the flight's parameter and point and the
    /// medium's material, on a miss it is untouched.
    pub fn hit<
        B: Fn(Scalar, Scalar) -> Option<HitRecord>,
        A: Fn(Scalar) -> Scalar,
        F: Fn(Scalar, Scalar) -> Flight,
    >(
        &self,
        t_min: Scalar,
        t_max: Scalar,
        boundary: &B,
        advance: &A,
        flight: &F,
        hit_record: &mut HitRecord,
    ) -> (hit: bool)
        requires
            forall|lo: Scalar, hi: Scalar| call_requires(*boundary, (lo, hi)),
            forall|t: Scalar| call_requires(*advance, (t,)),
            forall|t1: Scalar, t2: Scalar| call_requires(*flight, (t1, t2)),
        ensures
            !hit ==> *final(hit_record) == *old(hit_record),
            forall|edge: spec_fn(Scalar, Scalar) -> Option<HitRecord>, step: spec_fn(Scalar) -> Scalar|
                boundary_follows(*boundary, edge) && advance_follows(*advance, step) ==> (
                match #[trigger] span_spec(edge, step, t_min, t_max) {
                    None => !hit,
                    Some(span) => exists|drawn: Flight| #[trigger]
                        call_ensures(*flight, (span.0, span.1), drawn) && hit
                            == ConstantMedium::scattered_inside(drawn) && (hit ==> *final(hit_record)
                            == self.scattered_record(drawn, *old(hit_record))),
                }),
    {
        let infinity = Scalar::infinity();
        let first = match boundary(infinity.neg(), infinity) {
            Some(first) => first,
            None => {
                return false;
            },
        };
        let behind = advance(first.t);
        let second = match boundary(behind, infinity) {
            Some(second) => second,
            None => {
                return false;
            },
        };
        let span = match clip(first.t, second.t, t_min, t_max) {
            Some(span) => span,
            None => {
                return false;
            },
        };
        let drawn = flight(span.0, span.1);
        if drawn.hit_distance.gt(drawn.distance_inside_boundary) {
            return false;
        }
        hit_record.t = drawn.t;
        hit_record.point = drawn.point;
        hit_record.material = self.phase_function;
        true
    }

    /// The box of the medium is the box of its boundary.
    pub fn bounding_box(&self, boundary_box: Option<AABB>, output_box: &mut AABB) -> (defined: bool)
        ensures
            defined == boundary_box.is_some(),
            defined ==> Some(*final(output_box)) == boundary_box,
            !defined ==> *final(output_box) == *old(output_box),
    {
        match boundary_box {
            Some(bounds) => {
                *output_box = bounds;
                true
            },
            None => false,
        }
    }
}

} // verus!
