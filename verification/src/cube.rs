//! The cube: six rectangles between two opposite corners.
use vstd::prelude::*;
use crate::aabb::AABB;
use crate::hittable::{askable, given_for, probe_follows, scan, scan_spec, HitRecord};
use crate::rectangles::{XyRectangle, XzRectangle, YzRectangle};
use crate::scalar::Scalar;
use crate::vec3::Point3;

verus! {

/// The six sides of a cube: for each pair of planes the far side first.
#[derive(Clone, Copy, Debug, PartialEq, Eq, Structural)]
pub struct Sides {
    pub back: XyRectangle,
    pub front: XyRectangle,
    pub top: XzRectangle,
    pub bottom: XzRectangle,
    pub right: YzRectangle,
    pub left: YzRectangle,
}

/// An axis-aligned cube between the corners `box_min` and `box_max`.
#[derive(Clone, Copy, Debug, PartialEq, Eq, Structural)]
pub struct Cube {
    pub box_min: Point3,
    pub box_max: Point3,
    pub sides: Sides,
}

impl Cube {
    /// The six sides between two corners, all of one material.
    pub open spec fn sides_spec(box_min: Point3, box_max: Point3, material: usize) -> Sides {
        Sides {
            back: XyRectangle {
                material,
                x0: box_min.x,
                x1: box_max.x,
                y0: box_min.y,
                y1: box_max.y,
                k: box_max.z,
            },
            front: XyRectangle {
                material,
                x0: box_min.x,
                x1: box_max.x,
                y0: box_min.y,
                y1: box_max.y,
                k: box_min.z,
            },
            top: XzRectangle {
                material,
                x0: box_min.x,
                x1: box_max.x,
                z0: box_min.z,
                z1: box_max.z,
                k: box_max.y,
            },
            bottom: XzRectangle {
                material,
                x0: box_min.x,
                x1: box_max.x,
                z0: box_min.z,
                z1: box_max.z,
                k: box_min.y,
            },
            right: YzRectangle {
                material,
                y0: box_min.y,
                y1: box_max.y,
                z0: box_min.z,
                z1: box_max.z,
                k: box_max.x,
            },
            left: YzRectangle {
                material,
                y0: box_min.y,
                y1: box_max.y,
                z0: box_min.z,
                z1: box_max.z,
                k: box_min.x,
            },
        }
    }

    /// The order in which the sides are asked: back, front, top, bottom,
    /// right, left, numbered from 0.
    pub open spec fn side_order() -> Seq<usize> {
        seq![0usize, 1usize, 2usize, 3usize, 4usize, 5usize]
    }

    /// The cube between two corners, all of one material.
    pub fn new(box_min: Point3, box_max: Point3, material: usize) -> (r: Cube)
        ensures
            r == (Cube { box_min, box_max, sides: Cube::sides_spec(box_min, box_max, material) }),
    {
        let sides = Sides {
            back: XyRectangle::new(
                box_min.x,
                box_max.x,
                box_min.y,
                box_max.y,
                box_max.z,
                material,
            ),
            front: XyRectangle::new(
                box_min.x,
                box_max.x,
                box_min.y,
                box_max.y,
                box_min.z,
                material,
            ),
            top: XzRectangle::new(box_min.x, box_max.x, box_min.z, box_max.z, box_max.y, material),
            bottom: XzRectangle::new(
                box_min.x,
                box_max.x,
                box_min.z,
                box_max.z,
                box_min.y,
                material,
            ),
            right: YzRectangle::new(
                box_min.y,
                box_max.y,
                box_min.z,
                box_max.z,
                box_max.x,
                material,
            ),
            left: YzRectangle::new(
                box_min.y,
                box_max.y,
                box_min.z,
                box_max.z,
                box_min.x,
                material,
            ),
        };
        Cube { box_min, box_max, sides }
    }

    /// The nearest hit among the six sides inside the window. `probe` asks
    /// one side, named by its number in [`Cube::side_order`], for its hit
    /// inside a window.
    pub fn hit<P: Fn(usize, Scalar, Scalar) -> Option<HitRecord>>(
        &self,
        t_min: Scalar,
        t_max: Scalar,
        probe: &P,
        hit_record: &mut HitRecord,
    ) -> (hit: bool)
        requires
            forall|side: usize| side < 6 ==> askable(*probe, side),
        ensures
            forall|oracle: spec_fn(usize, Scalar, Scalar) -> Option<HitRecord>|
                probe_follows(*probe, oracle) ==> (match #[trigger] scan_spec(
                    Cube::side_order(),
                    t_min,
                    t_max,
                    oracle,
                ) {
                    Some(record) => hit && *final(hit_record) == record,
                    None => !hit && *final(hit_record) == *old(hit_record),
                }),
            !hit ==> *final(hit_record) == *old(hit_record),
            hit ==> exists|side: usize|
                side < 6 && #[trigger] given_for(*probe, side, t_min, *final(hit_record)),
    {
        let mut order: Vec<usize> = Vec::new();
        order.push(0);
        order.push(1);
        order.push(2);
        order.push(3);
        order.push(4);
        order.push(5);
        proof {
            assert(order@ =~= Cube::side_order());
        }
        match scan(&order, t_min, t_max, probe) {
            Some(record) => {
                *hit_record = record;
                true
            },
            None => false,
        }
    }

    /// The box of the cube: its two corners.
    pub fn bounding_box(&self, output_box: &mut AABB) -> (defined: bool)
        ensures
            defined,
            *final(output_box) == (AABB { minimum: self.box_min, maximum: self.box_max }),
    {
        *output_box = AABB::new(self.box_min, self.box_max);
        true
    }
}

} // verus!
