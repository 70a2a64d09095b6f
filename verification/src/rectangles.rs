//! Rectangles that lie in a plane of constant z, y or x.
use vstd::prelude::*;
use crate::hittable::HitRecord;
use crate::scalar::Scalar;

verus! {

/// Whether a ray that crosses a rectangle's plane at distance `t`, at the
/// in-plane coordinates `(a, b)`, hits the rectangle `[a0, a1] x [b0, b1]`
/// inside the window: the distance lies inside the window and the place
/// inside the rectangle, the edges included.
pub open spec fn crosses_inside(
    t: Scalar,
    a: Scalar,
    b: Scalar,
    a0: Scalar,
    a1: Scalar,
    b0: Scalar,
    b1: Scalar,
    t_min: Scalar,
    t_max: Scalar,
) -> bool {
    !(t.lt_spec(t_min) || t.gt_spec(t_max)) && !(a.lt_spec(a0) || a.gt_spec(a1) || b.lt_spec(b0)
        || b.gt_spec(b1))
}

/// Decides [`crosses_inside`].
pub fn rectangle_crossed(
    t: Scalar,
    a: Scalar,
    b: Scalar,
    a0: Scalar,
    a1: Scalar,
    b0: Scalar,
    b1: Scalar,
    t_min: Scalar,
    t_max: Scalar,
) -> (r: bool)
    ensures
        r == crosses_inside(t, a, b, a0, a1, b0, b1, t_min, t_max),
{
    if t.lt(t_min) || t.gt(t_max) {
        return false;
    }
    if a.lt(a0) || a.gt(a1) || b.lt(b0) || b.gt(b1) {
        return false;
    }
    true
}

/// On numbers, a rectangle is crossed exactly where the distance lies in
/// the closed window and the place in the closed rectangle.
pub proof fn lemma_crossing_is_closed_containment(
    t: Scalar,
    a: Scalar,
    b: Scalar,
    a0: Scalar,
    a1: Scalar,
    b0: Scalar,
    b1: Scalar,
    t_min: Scalar,
    t_max: Scalar,
)
    requires
        !t.is_nan_spec() && !a.is_nan_spec() && !b.is_nan_spec(),
        !a0.is_nan_spec() && !a1.is_nan_spec() && !b0.is_nan_spec() && !b1.is_nan_spec(),
        !t_min.is_nan_spec() && !t_max.is_nan_spec(),
    ensures
        crosses_inside(t, a, b, a0, a1, b0, b1, t_min, t_max) <==> t_min.le_spec(t) && t.le_spec(
            t_max,
        ) && a0.le_spec(a) && a.le_spec(a1) && b0.le_spec(b) && b.le_spec(b1),
{
}

/// A rectangle in the plane `z = k`, spanning `[x0, x1] x [y0, y1]`.
#[derive(Clone, Copy, Debug, PartialEq, Eq, Structural)]
pub struct XyRectangle {
    pub material: usize,
    pub x0: Scalar,
    pub x1: Scalar,
    pub y0: Scalar,
    pub y1: Scalar,
    pub k: Scalar,
}

/// A rectangle in the plane `y = k`, spanning `[x0, x1] x [z0, z1]`.
#[derive(Clone, Copy, Debug, PartialEq, Eq, Structural)]
pub struct XzRectangle {
    pub material: usize,
    pub x0: Scalar,
    pub x1: Scalar,
    pub z0: Scalar,
    pub z1: Scalar,
    pub k: Scalar,
}

/// A rectangle in the plane `x = k`, spanning `[y0, y1] x [z0, z1]`.
#[derive(Clone, Copy, Debug, PartialEq, Eq, Structural)]
pub struct YzRectangle {
    pub material: usize,
    pub y0: Scalar,
    pub y1: Scalar,
    pub z0: Scalar,
    pub z1: Scalar,
    pub k: Scalar,
}

impl XyRectangle {
    /// The rectangle with the given extent, in the plane at `k`.
    pub fn new(x0: Scalar, x1: Scalar, y0: Scalar, y1: Scalar, k: Scalar, material: usize) -> (r:
        XyRectangle)
        ensures
            r == (XyRectangle { material, x0, x1, y0, y1, k }),
    {
        XyRectangle { material, x0, x1, y0, y1, k }
    }

    /// Decides whether a ray that crosses the plane at distance `t`, at
    /// `(x, y)`, hits the rectangle inside the window, and records the
    /// distance and the material of the hit.
    pub fn hit(
        &self,
        t: Scalar,
        x: Scalar,
        y: Scalar,
        t_min: Scalar,
        t_max: Scalar,
        hit_record: &mut HitRecord,
    ) -> (hit: bool)
        ensures
            hit == crosses_inside(t, x, y, self.x0, self.x1, self.y0, self.y1, t_min, t_max),
            hit ==> *final(hit_record) == (HitRecord {
                t,
                material: self.material,
                ..*old(hit_record)
            }),
            !hit ==> *final(hit_record) == *old(hit_record),
    {
        if !rectangle_crossed(t, x, y, self.x0, self.x1, self.y0, self.y1, t_min, t_max) {
            return false;
        }
        hit_record.t = t;
        hit_record.material = self.material;
        true
    }
}

impl XzRectangle {
    /// The rectangle with the given extent, in the plane at `k`.
    pub fn new(x0: Scalar, x1: Scalar, z0: Scalar, z1: Scalar, k: Scalar, material: usize) -> (r:
        XzRectangle)
        ensures
            r == (XzRectangle { material, x0, x1, z0, z1, k }),
    {
        XzRectangle { material, x0, x1, z0, z1, k }
    }

    /// Decides whether a ray that crosses the plane at distance `t`, at
    /// `(x, z)`, hits the rectangle inside the window, and records the
    /// distance and the material of the hit.
    pub fn hit(
        &self,
        t: Scalar,
        x: Scalar,
        z: Scalar,
        t_min: Scalar,
        t_max: Scalar,
        hit_record: &mut HitRecord,
    ) -> (hit: bool)
        ensures
            hit == crosses_inside(t, x, z, self.x0, self.x1, self.z0, self.z1, t_min, t_max),
            hit ==> *final(hit_record) == (HitRecord {
                t,
                material: self.material,
                ..*old(hit_record)
            }),
            !hit ==> *final(hit_record) == *old(hit_record),
    {
        if !rectangle_crossed(t, x, z, self.x0, self.x1, self.z0, self.z1, t_min, t_max) {
            return false;
        }
        hit_record.t = t;
        hit_record.material = self.material;
        true
    }
}

impl YzRectangle {
    /// The rectangle with the given extent, in the plane at `k`.
    pub fn new(y0: Scalar, y1: Scalar, z0: Scalar, z1: Scalar, k: Scalar, material: usize) -> (r:
        YzRectangle)
        ensures
            r == (YzRectangle { material, y0, y1, z0, z1, k }),
    {
        YzRectangle { material, y0, y1, z0, z1, k }
    }

    /// Decides whether a ray that crosses the plane at distance `t`, at
    /// `(y, z)`, hits the rectangle inside the window, and records the
    /// distance and the material of the hit.
    pub fn hit(
        &self,
        t: Scalar,
        y: Scalar,
        z: Scalar,
        t_min: Scalar,
        t_max: Scalar,
        hit_record: &mut HitRecord,
    ) -> (hit: bool)
        ensures
            hit == crosses_inside(t, y, z, self.y0, self.y1, self.z0, self.z1, t_min, t_max),
            hit ==> *final(hit_record) == (HitRecord {
                t,
                material: self.material,
                ..*old(hit_record)
            }),
            !hit ==> *final(hit_record) == *old(hit_record),
    {
        if !rectangle_crossed(t, y, z, self.y0, self.y1, self.z0, self.z1, t_min, t_max) {
            return false;
        }
        hit_record.t = t;
        hit_record.material = self.material;
        true
    }
}

} // verus!
