//! Triples of scalars, used as points, directions and colours.
use vstd::prelude::*;
use crate::scalar::Scalar;

verus! {

/// Three scalars. No invariant: a pure value.
#[derive(Clone, Copy, Debug, PartialEq, Eq, Structural)]
pub struct Vec3 {
    pub x: Scalar,
    pub y: Scalar,
    pub z: Scalar,
}

/// A colour, one scalar per channel.
pub type Color = Vec3;

/// A position.
pub type Point3 = Vec3;

/// The bound of the near-zero test, 1e-8.
pub const NEAR_ZERO_BITS: u64 = 0x3e45_798e_e230_8c3a;

/// The largest channel value that is displayed, 0.999.
pub const CHANNEL_MAX_BITS: u64 = 0x3fef_f7ce_d916_872b;

/// A candidate of the rejection sampling: a random point of the cube
/// `[-1, 1)^3`, or of the square `[-1, 1)^2` in the plane `z = 0`, and the
/// square of its length.
#[derive(Clone, Copy, Debug, PartialEq, Eq, Structural)]
pub struct Candidate {
    pub point: Vec3,
    pub length_squared: Scalar,
}

/// Whether a candidate lies inside the unit sphere.
pub open spec fn accepted(candidate: Candidate) -> bool {
    candidate.length_squared.lt_spec(Scalar::one_spec())
}

/// Whether `point` is what rejection sampling may return: the point of a
/// candidate that `draw` gave and that lies inside the unit sphere; or,
/// given up after `usize::MAX` candidates in a row that lie outside, which
/// chance does not produce, the origin, and then `draw` has given a
/// candidate that lies outside.
pub open spec fn sampled<D: Fn() -> Candidate>(draw: D, point: Point3) -> bool {
    ||| exists|candidate: Candidate| #[trigger]
        call_ensures(draw, (), candidate) && accepted(candidate) && candidate.point == point
    ||| point == Vec3::zero_spec() && exists|candidate: Candidate| #[trigger]
        call_ensures(draw, (), candidate) && !accepted(candidate)
}

/// Draws candidates until one lies inside the unit sphere, and returns its
/// point.
fn sample_by_rejection<D: Fn() -> Candidate>(draw: &D) -> (point: Point3)
    requires
        call_requires(*draw, ()),
    ensures
        sampled(*draw, point),
{
    let mut left: usize = usize::MAX;
    while left > 0
        invariant
            call_requires(*draw, ()),
            left < usize::MAX ==> exists|candidate: Candidate| #[trigger]
                call_ensures(*draw, (), candidate) && !accepted(candidate),
        decreases left,
    {
        let candidate = draw();
        if candidate.length_squared.lt(Scalar::one()) {
            return candidate.point;
        }
        left -= 1;
    }
    Vec3::zero()
}

/// A random point inside the unit sphere, by rejection: `draw` gives a
/// random point of the cube `[-1, 1)^3` with the square of its length, and
/// the first one inside the sphere is returned.
pub fn random_in_unit_sphere<D: Fn() -> Candidate>(draw: &D) -> (point: Point3)
    requires
        call_requires(*draw, ()),
    ensures
        sampled(*draw, point),
{
    sample_by_rejection(draw)
}

impl Vec3 {
    /// The vector of three positive zeros.
    pub open spec fn zero_spec() -> Vec3 {
        Vec3 { x: Scalar::zero_spec(), y: Scalar::zero_spec(), z: Scalar::zero_spec() }
    }

    /// The vector of three ones.
    pub open spec fn one_spec() -> Vec3 {
        Vec3 { x: Scalar::one_spec(), y: Scalar::one_spec(), z: Scalar::one_spec() }
    }

    /// The component on axis 0, 1 or 2.
    pub open spec fn axis_spec(self, axis: int) -> Scalar {
        if axis == 0 {
            self.x
        } else if axis == 1 {
            self.y
        } else {
            self.z
        }
    }

    /// Each component negated.
    pub open spec fn neg_spec(self) -> Vec3 {
        Vec3 { x: self.x.neg_spec(), y: self.y.neg_spec(), z: self.z.neg_spec() }
    }

    /// Whether every component is smaller than 1e-8 in absolute value.
    pub open spec fn near_zero_spec(self) -> bool {
        let bound = Scalar { bits: NEAR_ZERO_BITS };
        self.x.abs_spec().lt_spec(bound) && self.y.abs_spec().lt_spec(bound)
            && self.z.abs_spec().lt_spec(bound)
    }

    /// The component-wise minimum.
    pub open spec fn min_spec(self, other: Vec3) -> Vec3 {
        Vec3 {
            x: self.x.min_spec(other.x),
            y: self.y.min_spec(other.y),
            z: self.z.min_spec(other.z),
        }
    }

    /// The component-wise maximum.
    pub open spec fn max_spec(self, other: Vec3) -> Vec3 {
        Vec3 {
            x: self.x.max_spec(other.x),
            y: self.y.max_spec(other.y),
            z: self.z.max_spec(other.z),
        }
    }

    /// Whether no component is a NaN.
    pub open spec fn is_number(self) -> bool {
        !self.x.is_nan_spec() && !self.y.is_nan_spec() && !self.z.is_nan_spec()
    }

    /// Whether each component is at most the matching component of `other`.
    pub open spec fn le_spec(self, other: Vec3) -> bool {
        self.x.le_spec(other.x) && self.y.le_spec(other.y) && self.z.le_spec(other.z)
    }

    /// Computes [`Vec3::zero_spec`].
    #[verifier::when_used_as_spec(zero_spec)]
    pub fn zero() -> (r: Vec3)
        ensures
            r == Vec3::zero_spec(),
    {
        Vec3 { x: Scalar::zero(), y: Scalar::zero(), z: Scalar::zero() }
    }

    /// Computes [`Vec3::one_spec`].
    #[verifier::when_used_as_spec(one_spec)]
    pub fn one() -> (r: Vec3)
        ensures
            r == Vec3::one_spec(),
    {
        Vec3 { x: Scalar::one(), y: Scalar::one(), z: Scalar::one() }
    }

    /// The vector with the given components.
    pub fn new(x: Scalar, y: Scalar, z: Scalar) -> (r: Vec3)
        ensures
            r == (Vec3 { x, y, z }),
    {
        Vec3 { x, y, z }
    }

    /// The three components in order.
    pub fn as_vector(self) -> (r: Vec<Scalar>)
        ensures
            r@ == seq![self.x, self.y, self.z],
    {
        let mut components: Vec<Scalar> = Vec::new();
        components.push(self.x);
        components.push(self.y);
        components.push(self.z);
        assert(components@ =~= seq![self.x, self.y, self.z]);
        components
    }

    /// Computes [`Vec3::axis_spec_of`].
    #[verifier::when_used_as_spec(axis_spec_of)]
    pub fn axis(self, axis: usize) -> (r: Scalar)
        requires
            axis < 3,
        ensures
            r == self.axis_spec(axis as int),
    {
        if axis == 0 {
            self.x
        } else if axis == 1 {
            self.y
        } else {
            self.z
        }
    }

    /// [`Vec3::axis_spec`] on a machine index.
    pub open spec fn axis_spec_of(self, axis: usize) -> Scalar {
        self.axis_spec(axis as int)
    }

    /// Computes [`Vec3::neg_spec`].
    #[verifier::when_used_as_spec(neg_spec)]
    pub fn neg(self) -> (r: Vec3)
        ensures
            r == self.neg_spec(),
    {
        Vec3 { x: self.x.neg(), y: self.y.neg(), z: self.z.neg() }
    }

    /// Computes [`Vec3::near_zero_spec`].
    #[verifier::when_used_as_spec(near_zero_spec)]
    pub fn near_zero(self) -> (r: bool)
        ensures
            r == self.near_zero_spec(),
    {
        let bound = Scalar { bits: NEAR_ZERO_BITS };
        self.x.abs().lt(bound) && self.y.abs().lt(bound) && self.z.abs().lt(bound)
    }

    /// A random point inside the unit disk of the plane `z = 0`, by
    /// rejection: `draw` gives a random point of the square `[-1, 1)^2` in
    /// that plane with the square of its length, and the first one inside
    /// the disk is returned.
    pub fn random_in_unit_disk<D: Fn() -> Candidate>(draw: &D) -> (point: Point3)
        requires
            call_requires(*draw, ()),
        ensures
            sampled(*draw, point),
    {
        sample_by_rejection(draw)
    }

    /// The bytes in which a colour is displayed: each channel is held to
    /// `[0, 0.999]` and turned into a byte ([`Scalar::byte_spec`]).
    pub open spec fn write_color_spec(self) -> (u8, u8, u8) {
        let top = Scalar { bits: CHANNEL_MAX_BITS };
        (
            self.x.clamp_spec(Scalar::zero_spec(), top).byte_spec() as u8,
            self.y.clamp_spec(Scalar::zero_spec(), top).byte_spec() as u8,
            self.z.clamp_spec(Scalar::zero_spec(), top).byte_spec() as u8,
        )
    }

    /// The bytes of a pixel, given the colour after averaging and gamma
    /// correction.
    pub fn write_color(&self) -> (r: (u8, u8, u8))
        ensures
            r == self.write_color_spec(),
    {
        let top = Scalar { bits: CHANNEL_MAX_BITS };
        let bottom = Scalar::zero();
        (
            self.x.clamp(bottom, top).to_byte(),
            self.y.clamp(bottom, top).to_byte(),
            self.z.clamp(bottom, top).to_byte(),
        )
    }

    /// Computes [`Vec3::min_spec`].
    #[verifier::when_used_as_spec(min_spec)]
    pub fn min(self, other: Vec3) -> (r: Vec3)
        ensures
            r == self.min_spec(other),
    {
        Vec3 { x: self.x.min(other.x), y: self.y.min(other.y), z: self.z.min(other.z) }
    }

    /// Computes [`Vec3::max_spec`].
    #[verifier::when_used_as_spec(max_spec)]
    pub fn max(self, other: Vec3) -> (r: Vec3)
        ensures
            r == self.max_spec(other),
    {
        Vec3 { x: self.x.max(other.x), y: self.y.max(other.y), z: self.z.max(other.z) }
    }
}

} // verus!
