//! Spheres, fixed and moving: the choice of the root at which a ray hits.
use vstd::prelude::*;
use crate::hittable::HitRecord;
use crate::scalar::Scalar;
use crate::vec3::Point3;

verus! {

/// A sphere. `material` names its material in the scene's table.
#[derive(Clone, Copy, Debug, PartialEq, Eq, Structural)]
pub struct Sphere {
    pub center: Point3,
    pub radius: Scalar,
    pub material: usize,
}

/// A sphere whose centre moves in a straight line from `start_point` at
/// `start_time` to `end_point` at `end_time`.
#[derive(Clone, Copy, Debug, PartialEq, Eq, Structural)]
pub struct MovingSphere {
    pub start_point: Point3,
    pub end_point: Point3,
    pub start_time: Scalar,
    pub end_time: Scalar,
    pub radius: Scalar,
    pub material: usize,
}

/// Whether a root of the intersection equation lies outside the window.
pub open spec fn root_check_spec(root: Scalar, t_min: Scalar, t_max: Scalar) -> bool {
    root.lt_spec(t_min) || t_max.lt_spec(root)
}

/// Computes [`root_check_spec`].
#[verifier::when_used_as_spec(root_check_spec)]
pub fn root_check(root: Scalar, t_min: Scalar, t_max: Scalar) -> (outside: bool)
    ensures
        outside == root_check_spec(root, t_min, t_max),
{
    root.lt(t_min) || t_max.lt(root)
}

/// The root at which a ray hits a sphere: none where the discriminant is
/// negative; else the smaller root if the window holds it, else the larger
/// root if the window holds that, else none.
pub open spec fn nearest_root_spec(
    discriminant: Scalar,
    smaller: Scalar,
    larger: Scalar,
    t_min: Scalar,
    t_max: Scalar,
) -> Option<Scalar> {
    if discriminant.lt_spec(Scalar::zero_spec()) {
        None
    } else if !root_check_spec(smaller, t_min, t_max) {
        Some(smaller)
    } else if !root_check_spec(larger, t_min, t_max) {
        Some(larger)
    } else {
        None
    }
}

/// Chooses the root at which a ray hits a sphere. `smaller` and `larger`
/// are the two roots of the intersection equation, `(-b - sqrt(d)) / a` and
/// `(-b + sqrt(d)) / a`, and `discriminant` is `d`.
pub fn nearest_root(
    discriminant: Scalar,
    smaller: Scalar,
    larger: Scalar,
    t_min: Scalar,
    t_max: Scalar,
) -> (root: Option<Scalar>)
    ensures
        root == nearest_root_spec(discriminant, smaller, larger, t_min, t_max),
{
    if discriminant.lt(Scalar::zero()) {
        None
    } else if !root_check(smaller, t_min, t_max) {
        Some(smaller)
    } else if !root_check(larger, t_min, t_max) {
        Some(larger)
    } else {
        None
    }
}

/// The smaller root is reported first: whenever the window holds it, it is
/// the root chosen; and a root that is chosen lies inside the window.
pub proof fn lemma_smaller_root_first(
    discriminant: Scalar,
    smaller: Scalar,
    larger: Scalar,
    t_min: Scalar,
    t_max: Scalar,
)
    requires
        Scalar::zero_spec().le_spec(discriminant),
        !smaller.is_nan_spec(),
        !larger.is_nan_spec(),
    ensures
        t_min.le_spec(smaller) && smaller.le_spec(t_max) ==> nearest_root_spec(
            discriminant,
            smaller,
            larger,
            t_min,
            t_max,
        ) == Some(smaller),
        !t_min.is_nan_spec() && !t_max.is_nan_spec() ==> (nearest_root_spec(
            discriminant,
            smaller,
            larger,
            t_min,
            t_max,
        ) matches Some(root) ==> t_min.le_spec(root) && root.le_spec(t_max)),
{
}

/// In exact arithmetic, a ray that starts outside a sphere and points at
/// its centre meets it twice in front of its origin. With `oc` the origin
/// less the centre, the direction `-k * oc` for some `k >= 1`, and the
/// radius squared `rr`, the coefficients of the intersection equation are
/// `a = |d|^2`, `half_b = oc . d` and `c = |oc|^2 - rr`; the discriminant
/// `half_b^2 - a * c` is positive, so there are two roots, and it is less
/// than `half_b^2` with `half_b` negative, so both roots are positive.
pub proof fn lemma_centred_ray_has_two_roots(x: int, y: int, z: int, k: int, rr: int)
    requires
        k >= 1,
        rr > 0,
        x * x + y * y + z * z > rr,
    ensures
        ({
            let a = (k * x) * (k * x) + (k * y) * (k * y) + (k * z) * (k * z);
            let half_b = x * (-k * x) + y * (-k * y) + z * (-k * z);
            let c = x * x + y * y + z * z - rr;
            let discriminant = half_b * half_b - a * c;
            a > 0 && half_b < 0 && 0 < discriminant < half_b * half_b
        }),
{
    let xx = x * x;
    let yy = y * y;
    let zz = z * z;
    let kk = k * k;
    let n = xx + yy + zz;
    let a = (k * x) * (k * x) + (k * y) * (k * y) + (k * z) * (k * z);
    let half_b = x * (-k * x) + y * (-k * y) + z * (-k * z);
    let c = n - rr;
    assert((k * x) * (k * x) == (k * k) * (x * x)) by (nonlinear_arith);
    assert((k * y) * (k * y) == (k * k) * (y * y)) by (nonlinear_arith);
    assert((k * z) * (k * z) == (k * k) * (z * z)) by (nonlinear_arith);
    assert(x * (-k * x) == -(k * (x * x))) by (nonlinear_arith);
    assert(y * (-k * y) == -(k * (y * y))) by (nonlinear_arith);
    assert(z * (-k * z) == -(k * (z * z))) by (nonlinear_arith);
    assert(kk * n == kk * xx + kk * yy + kk * zz) by (nonlinear_arith)
        requires
            n == xx + yy + zz,
    ;
    assert(k * n == k * xx + k * yy + k * zz) by (nonlinear_arith)
        requires
            n == xx + yy + zz,
    ;
    assert(a == kk * n);
    assert(half_b == -(k * n));
    let kn = k * n;
    assert(kk >= 1 && kn >= 1) by (nonlinear_arith)
        requires
            k >= 1,
            n >= 1,
            kk == k * k,
            kn == k * n,
    ;
    assert(kk * n == kn * k) by (nonlinear_arith)
        requires
            kk == k * k,
            kn == k * n,
    ;
    assert(kn * kn == (kn * k) * n) by (nonlinear_arith)
        requires
            kn == k * n,
    ;
    assert(a >= 1) by (nonlinear_arith)
        requires
            a == kk * n,
            kk >= 1,
            n >= 1,
    ;
    assert(half_b * half_b == kn * kn) by (nonlinear_arith)
        requires
            half_b == -kn,
    ;
    assert(a * c == a * n - a * rr) by (nonlinear_arith)
        requires
            c == n - rr,
    ;
    assert(half_b * half_b - a * c == a * rr);
    assert(a * rr > 0) by (nonlinear_arith)
        requires
            a >= 1,
            rr > 0,
    ;
    assert(a * c > 0) by (nonlinear_arith)
        requires
            a >= 1,
            c >= 1,
    ;
}

/// Cutting the window short does not change the root, it only loses it:
/// inside a shorter window the root chosen is the root chosen in the longer
/// one, if the shorter window still holds it, and none otherwise.
pub proof fn lemma_root_survives_shorter_window(
    discriminant: Scalar,
    smaller: Scalar,
    larger: Scalar,
    t_min: Scalar,
    t_max: Scalar,
    end: Scalar,
)
    requires
        smaller.le_spec(larger),
        end.le_spec(t_max),
    ensures
        nearest_root_spec(discriminant, smaller, larger, t_min, end) == (match nearest_root_spec(
            discriminant,
            smaller,
            larger,
            t_min,
            t_max,
        ) {
            Some(root) => if root.le_spec(end) {
                Some(root)
            } else {
                None
            },
            None => None,
        }),
{
}

/// The record after a sphere of the given material was asked: on a hit the
/// distance and the material are set, the rest is left to the caller, who
/// computes the point, the normal and the surface coordinates from the
/// distance; on a miss the record is untouched.
pub open spec fn sphere_hit_spec(
    material: usize,
    discriminant: Scalar,
    smaller: Scalar,
    larger: Scalar,
    t_min: Scalar,
    t_max: Scalar,
    record: HitRecord,
) -> Option<HitRecord> {
    match nearest_root_spec(discriminant, smaller, larger, t_min, t_max) {
        Some(root) => Some(HitRecord { t: root, material, ..record }),
        None => None,
    }
}

impl Sphere {
    /// The sphere around `center`.
    pub fn new(center: Point3, radius: Scalar, material: usize) -> (r: Sphere)
        ensures
            r == (Sphere { center, radius, material }),
    {
        Sphere { center, radius, material }
    }

    /// Decides whether the ray hits the sphere inside the window, from the
    /// discriminant and the two roots of the intersection equation, and
    /// records the distance and the material of the hit.
    pub fn hit(
        &self,
        discriminant: Scalar,
        smaller: Scalar,
        larger: Scalar,
        t_min: Scalar,
        t_max: Scalar,
        hit_record: &mut HitRecord,
    ) -> (hit: bool)
        ensures
            match sphere_hit_spec(
                self.material,
                discriminant,
                smaller,
                larger,
                t_min,
                t_max,
                *old(hit_record),
            ) {
                Some(record) => hit && *final(hit_record) == record,
                None => !hit && *final(hit_record) == *old(hit_record),
            },
    {
        match nearest_root(discriminant, smaller, larger, t_min, t_max) {
            Some(root) => {
                hit_record.t = root;
                hit_record.material = self.material;
                true
            },
            None => false,
        }
    }
}

impl MovingSphere {
    /// The sphere that moves from `start_point` to `end_point` between the two times.
    pub fn new(
        start_point: Point3,
        end_point: Point3,
        start_time: Scalar,
        end_time: Scalar,
        radius: Scalar,
        material: usize,
    ) -> (r: MovingSphere)
        ensures
            r == (MovingSphere { start_point, end_point, start_time, end_time, radius, material }),
    {
        MovingSphere { start_point, end_point, start_time, end_time, radius, material }
    }

    /// Decides whether the ray hits the sphere, at its place at the ray's
    /// time, inside the window, and records the distance and the material.
    pub fn hit(
        &self,
        discriminant: Scalar,
        smaller: Scalar,
        larger: Scalar,
        t_min: Scalar,
        t_max: Scalar,
        hit_record: &mut HitRecord,
    ) -> (hit: bool)
        ensures
            match sphere_hit_spec(
                self.material,
                discriminant,
                smaller,
                larger,
                t_min,
                t_max,
                *old(hit_record),
            ) {
                Some(record) => hit && *final(hit_record) == record,
                None => !hit && *final(hit_record) == *old(hit_record),
            },
    {
        match nearest_root(discriminant, smaller, larger, t_min, t_max) {
            Some(root) => {
                hit_record.t = root;
                hit_record.material = self.material;
                true
            },
            None => false,
        }
    }
}

} // verus!
