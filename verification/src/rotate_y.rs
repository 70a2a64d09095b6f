//! A surface turned about the vertical axis.
use vstd::prelude::*;
use crate::aabb::AABB;
use crate::scalar::Scalar;
use crate::vec3::Point3;

verus! {

/// The surface `hittable` turned about the y axis, with the sine and the
/// cosine of the angle, and the box around the turned surface.
#[derive(Clone, Copy, Debug, PartialEq, Eq, Structural)]
pub struct RotateY {
    pub hittable: usize,
    pub sin_theta: Scalar,
    pub cos_theta: Scalar,
    pub has_box: bool,
    pub bbox: AABB,
}

impl RotateY {
    /// Takes the sine and the cosine of the angle and the eight corners of
    /// the surface's box after the turn; the box of the turned surface is
    /// the box around them. `has_box` tells whether the surface has a box.
    pub fn new(
        hittable: usize,
        sin_theta: Scalar,
        cos_theta: Scalar,
        has_box: bool,
        turned_corners: &Vec<Point3>,
    ) -> (r: RotateY)
        ensures
            r == (RotateY {
                hittable,
                sin_theta,
                cos_theta,
                has_box,
                bbox: AABB::around_spec(turned_corners@),
            }),
    {
        RotateY { hittable, sin_theta, cos_theta, has_box, bbox: AABB::around(turned_corners) }
    }

    /// The box around the turned surface, and whether the surface has one.
    pub fn bounding_box(&self, output_box: &mut AABB) -> (defined: bool)
        ensures
            defined == self.has_box,
            *final(output_box) == self.bbox,
    {
        *output_box = self.bbox;
        self.has_box
    }
}

} // verus!
