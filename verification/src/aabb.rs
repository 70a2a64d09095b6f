//! Axis-aligned bounding boxes: union, enclosure, and the slab test.
use vstd::prelude::*;
use crate::scalar::Scalar;
use crate::vec3::{Point3, Vec3};

verus! {

/// An axis-aligned box, given by two opposite corners.
///
/// A box that bounds something has `minimum <= maximum` on every axis
/// ([`AABB::ordered`]); the default box, all zeros, is the degenerate start
/// value.
#[derive(Clone, Copy, Debug, PartialEq, Eq, Structural)]
pub struct AABB {
    pub minimum: Point3,
    pub maximum: Point3,
}

/// The ray parameters at which a ray meets the two planes that bound a box
/// on one axis: `(plane - origin) / direction` for the minimum and for the
/// maximum plane. Either may be the larger, either may be infinite, and
/// either is a NaN where the ray runs inside the plane.
#[derive(Clone, Copy, Debug, PartialEq, Eq, Structural)]
pub struct Crossing {
    pub at_minimum: Scalar,
    pub at_maximum: Scalar,
}

/// The plane crossings of one ray with one box, axis by axis.
#[derive(Clone, Copy, Debug, PartialEq, Eq, Structural)]
pub struct Crossings {
    pub x: Crossing,
    pub y: Crossing,
    pub z: Crossing,
}

/// An interval of ray parameters.
#[derive(Clone, Copy, Debug, PartialEq, Eq, Structural)]
pub struct Window {
    pub t_min: Scalar,
    pub t_max: Scalar,
}

impl Crossing {
    /// The parameter at which the ray enters the slab.
    pub open spec fn entry(self) -> Scalar {
        self.at_minimum.min_spec(self.at_maximum)
    }

    /// The parameter at which the ray leaves the slab.
    pub open spec fn exit(self) -> Scalar {
        self.at_minimum.max_spec(self.at_maximum)
    }

    /// Whether neither parameter is a NaN.
    pub open spec fn is_number(self) -> bool {
        !self.at_minimum.is_nan_spec() && !self.at_maximum.is_nan_spec()
    }
}

impl Window {
    /// The window cut down to the part that lies inside one slab.
    pub open spec fn narrow_spec(self, crossing: Crossing) -> Window {
        Window {
            t_min: crossing.entry().max_spec(self.t_min),
            t_max: crossing.exit().min_spec(self.t_max),
        }
    }

    /// Whether the window holds no parameter: its end is at or before its start.
    pub open spec fn is_empty_spec(self) -> bool {
        self.t_max.le_spec(self.t_min)
    }

    /// Computes [`Window::narrow_spec`].
    #[verifier::when_used_as_spec(narrow_spec)]
    pub fn narrow(self, crossing: Crossing) -> (r: Window)
        ensures
            r == self.narrow_spec(crossing),
    {
        let entry = crossing.at_minimum.min(crossing.at_maximum);
        let exit = crossing.at_minimum.max(crossing.at_maximum);
        Window { t_min: entry.max(self.t_min), t_max: exit.min(self.t_max) }
    }

    /// Computes [`Window::is_empty_spec`].
    #[verifier::when_used_as_spec(is_empty_spec)]
    pub fn is_empty(self) -> (r: bool)
        ensures
            r == self.is_empty_spec(),
    {
        self.t_max.le(self.t_min)
    }
}

impl AABB {
    /// Whether the minimum corner is at most the maximum corner on every axis.
    pub open spec fn ordered(self) -> bool {
        self.minimum.le_spec(self.maximum)
    }

    /// Whether no coordinate is a NaN.
    pub open spec fn is_number(self) -> bool {
        self.minimum.is_number() && self.maximum.is_number()
    }

    /// Whether `inner` lies inside this box.
    pub open spec fn encloses(self, inner: AABB) -> bool {
        self.minimum.le_spec(inner.minimum) && inner.maximum.le_spec(self.maximum)
    }

    /// Whether the point lies inside this box.
    pub open spec fn holds(self, point: Point3) -> bool {
        self.minimum.le_spec(point) && point.le_spec(self.maximum)
    }

    /// The degenerate box with both corners at the origin.
    pub open spec fn degenerate() -> AABB {
        AABB { minimum: Vec3::zero_spec(), maximum: Vec3::zero_spec() }
    }

    /// The union of two boxes: the component-wise minimum of the minimum
    /// corners and maximum of the maximum corners.
    pub open spec fn surrounding_spec(box0: AABB, box1: AABB) -> AABB {
        AABB {
            minimum: box0.minimum.min_spec(box1.minimum),
            maximum: box0.maximum.max_spec(box1.maximum),
        }
    }

    /// The box from which an enclosure of points starts: it holds nothing,
    /// its minimum corner at positive and its maximum corner at negative
    /// infinity.
    pub open spec fn nothing_spec() -> AABB {
        AABB {
            minimum: Vec3 {
                x: Scalar::infinity_spec(),
                y: Scalar::infinity_spec(),
                z: Scalar::infinity_spec(),
            },
            maximum: Vec3 {
                x: Scalar::infinity_spec().neg_spec(),
                y: Scalar::infinity_spec().neg_spec(),
                z: Scalar::infinity_spec().neg_spec(),
            },
        }
    }

    /// The box stretched to hold one more point.
    pub open spec fn stretched(self, point: Point3) -> AABB {
        AABB { minimum: self.minimum.min_spec(point), maximum: self.maximum.max_spec(point) }
    }

    /// The component-wise extrema of a sequence of points, taken in order
    /// from [`AABB::nothing_spec`].
    pub open spec fn around_spec(points: Seq<Point3>) -> AABB
        decreases points.len(),
    {
        if points.len() == 0 {
            AABB::nothing_spec()
        } else {
            AABB::around_spec(points.drop_last()).stretched(points.last())
        }
    }

    /// The slab test: the window is narrowed by the x, the y and the z slab
    /// in turn, and the ray misses as soon as the window is empty.
    pub open spec fn hit_spec(crossings: Crossings, t_min: Scalar, t_max: Scalar) -> bool {
        let w0 = Window { t_min, t_max };
        let w1 = w0.narrow_spec(crossings.x);
        let w2 = w1.narrow_spec(crossings.y);
        let w3 = w2.narrow_spec(crossings.z);
        !w1.is_empty_spec() && !w2.is_empty_spec() && !w3.is_empty_spec()
    }

    /// The same question asked without narrowing: does every interval start,
    /// the window's and each slab's entry, lie before every interval end,
    /// the window's and each slab's exit.
    pub open spec fn intervals_overlap(crossings: Crossings, t_min: Scalar, t_max: Scalar) -> bool {
        let ex = crossings.x.entry();
        let ey = crossings.y.entry();
        let ez = crossings.z.entry();
        let lx = crossings.x.exit();
        let ly = crossings.y.exit();
        let lz = crossings.z.exit();
        &&& t_min.lt_spec(t_max) && t_min.lt_spec(lx) && t_min.lt_spec(ly) && t_min.lt_spec(lz)
        &&& ex.lt_spec(t_max) && ex.lt_spec(lx) && ex.lt_spec(ly) && ex.lt_spec(lz)
        &&& ey.lt_spec(t_max) && ey.lt_spec(lx) && ey.lt_spec(ly) && ey.lt_spec(lz)
        &&& ez.lt_spec(t_max) && ez.lt_spec(lx) && ez.lt_spec(ly) && ez.lt_spec(lz)
    }

    /// The box between two corners.
    pub fn new(minimum: Point3, maximum: Point3) -> (r: AABB)
        ensures
            r == (AABB { minimum, maximum }),
    {
        AABB { minimum, maximum }
    }

    /// The smallest box around two boxes.
    pub fn surrounding_box(box0: AABB, box1: AABB) -> (r: AABB)
        ensures
            r == AABB::surrounding_spec(box0, box1),
    {
        AABB {
            minimum: box0.minimum.min(box1.minimum),
            maximum: box0.maximum.max(box1.maximum),
        }
    }

    /// The smallest box around the given points; [`AABB::nothing_spec`] if
    /// there are none.
    pub fn around(points: &Vec<Point3>) -> (r: AABB)
        ensures
            r == AABB::around_spec(points@),
    {
        let infinity = Scalar::infinity();
        let low = infinity.neg();
        let mut bounds = AABB {
            minimum: Vec3 { x: infinity, y: infinity, z: infinity },
            maximum: Vec3 { x: low, y: low, z: low },
        };
        let mut i: usize = 0;
        while i < points.len()
            invariant
                i <= points.len(),
                bounds == AABB::around_spec(points@.take(i as int)),
            decreases points.len() - i,
        {
            let point = points[i];
            proof {
                assert(points@.take(i + 1).drop_last() =~= points@.take(i as int));
            }
            bounds = AABB {
                minimum: bounds.minimum.min(point),
                maximum: bounds.maximum.max(point),
            };
            i += 1;
        }
        proof {
            assert(points@.take(i as int) =~= points@);
        }
        bounds
    }

    /// Whether a ray with the given plane crossings passes through the box
    /// somewhere inside the open window `(t_min, t_max)`.
    pub fn hit(crossings: Crossings, t_min: Scalar, t_max: Scalar) -> (r: bool)
        ensures
            r == AABB::hit_spec(crossings, t_min, t_max),
    {
        let mut window = Window { t_min, t_max };
        window = window.narrow(crossings.x);
        if window.is_empty() {
            return false;
        }
        window = window.narrow(crossings.y);
        if window.is_empty() {
            return false;
        }
        window = window.narrow(crossings.z);
        !window.is_empty()
    }
}

impl Default for AABB {
    /// The degenerate box with both corners at the origin.
    fn default() -> (r: AABB)
        ensures
            r == AABB::degenerate(),
    {
        AABB { minimum: Vec3::zero(), maximum: Vec3::zero() }
    }
}

/// The union of two boxes encloses both, is ordered when they are, and lies
/// inside every box that encloses both.
pub proof fn lemma_surrounding_box_is_union(box0: AABB, box1: AABB, outer: AABB)
    requires
        box0.is_number(),
        box1.is_number(),
    ensures
        AABB::surrounding_spec(box0, box1).is_number(),
        AABB::surrounding_spec(box0, box1).encloses(box0),
        AABB::surrounding_spec(box0, box1).encloses(box1),
        box0.ordered() && box1.ordered() ==> AABB::surrounding_spec(box0, box1).ordered(),
        outer.encloses(box0) && outer.encloses(box1) ==> outer.encloses(
            AABB::surrounding_spec(box0, box1),
        ),
{
}

/// Enclosure is transitive, so a box that encloses a union encloses its parts.
pub proof fn lemma_encloses_transitive(a: AABB, b: AABB, c: AABB)
    requires
        a.encloses(b),
        b.encloses(c),
    ensures
        a.encloses(c),
{
}

/// The box around a sequence of points that are numbers holds each of them.
pub proof fn lemma_around_holds_points(points: Seq<Point3>, i: int)
    requires
        0 <= i < points.len(),
        forall|j: int| 0 <= j < points.len() ==> (#[trigger] points[j]).is_number(),
    ensures
        AABB::around_spec(points).holds(points[i]),
        AABB::around_spec(points).is_number(),
    decreases points.len(),
{
    let front = points.drop_last();
    if points.len() == 1 {
        assert(front.len() == 0);
        assert(AABB::around_spec(front) == AABB::nothing_spec());
    } else {
        assert forall|j: int| 0 <= j < front.len() implies (#[trigger] front[j]).is_number() by {
            assert(front[j] == points[j]);
        }
        if i < points.len() - 1 {
            lemma_around_holds_points(front, i);
            assert(front[i] == points[i]);
        } else {
            lemma_around_holds_points(front, 0);
        }
    }
}

/// The slab test agrees with the direct comparison of all interval ends:
/// on crossings and a window that are numbers, the ray passes exactly when
/// every interval start lies before every interval end.
pub proof fn lemma_hit_matches_interval_overlap(crossings: Crossings, t_min: Scalar, t_max: Scalar)
    requires
        crossings.x.is_number(),
        crossings.y.is_number(),
        crossings.z.is_number(),
        !t_min.is_nan_spec(),
        !t_max.is_nan_spec(),
    ensures
        AABB::hit_spec(crossings, t_min, t_max) == AABB::intervals_overlap(crossings, t_min, t_max),
{
}

/// A box that lies behind the ray on some axis is missed by every window
/// that starts at or after the ray's origin.
pub proof fn lemma_box_behind_ray_is_missed(crossings: Crossings, t_min: Scalar, t_max: Scalar)
    requires
        crossings.x.is_number(),
        crossings.y.is_number(),
        crossings.z.is_number(),
        !t_max.is_nan_spec(),
        Scalar::zero_spec().le_spec(t_min),
        crossings.x.exit().lt_spec(Scalar::zero_spec()) || crossings.y.exit().lt_spec(
            Scalar::zero_spec(),
        ) || crossings.z.exit().lt_spec(Scalar::zero_spec()),
    ensures
        !AABB::hit_spec(crossings, t_min, t_max),
{
}

/// Narrowing the window can only turn a hit into a miss.
pub proof fn lemma_hit_monotone_in_window(
    crossings: Crossings,
    t_min: Scalar,
    t_max: Scalar,
    closer: Scalar,
)
    requires
        crossings.x.is_number(),
        crossings.y.is_number(),
        crossings.z.is_number(),
        !t_min.is_nan_spec(),
        !t_max.is_nan_spec(),
        closer.le_spec(t_max),
        AABB::hit_spec(crossings, t_min, closer),
    ensures
        AABB::hit_spec(crossings, t_min, t_max),
{
}

} // verus!
