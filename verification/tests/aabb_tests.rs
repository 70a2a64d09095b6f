use rust_raytracer::aabb::{Crossing, Crossings, Window, AABB};
use rust_raytracer::scalar::Scalar;
use rust_raytracer::vec3::Vec3;

fn s(x: f64) -> Scalar {
    Scalar::from_bits(x.to_bits())
}

fn f(x: Scalar) -> f64 {
    f64::from_bits(x.to_bits())
}

fn v(x: f64, y: f64, z: f64) -> Vec3 {
    Vec3::new(s(x), s(y), s(z))
}

fn next_unit(state: &mut u64) -> f64 {
    *state = state.wrapping_mul(6364136223846793005).wrapping_add(1442695040888963407);
    ((*state >> 11) as f64) / ((1u64 << 53) as f64)
}

fn between(state: &mut u64, low: f64, high: f64) -> f64 {
    low + (high - low) * next_unit(state)
}

fn crossing(low: f64, high: f64, origin: f64, direction: f64) -> Crossing {
    let inverse = 1.0 / direction;
    Crossing { at_minimum: s((low - origin) * inverse), at_maximum: s((high - origin) * inverse) }
}

fn crossings(bounds: &AABB, origin: [f64; 3], direction: [f64; 3]) -> Crossings {
    Crossings {
        x: crossing(f(bounds.minimum.x), f(bounds.maximum.x), origin[0], direction[0]),
        y: crossing(f(bounds.minimum.y), f(bounds.maximum.y), origin[1], direction[1]),
        z: crossing(f(bounds.minimum.z), f(bounds.maximum.z), origin[2], direction[2]),
    }
}

/// The reference: the window and the three slab intervals are intersected,
/// all at once, and the result must hold a parameter.
fn reference(bounds: &AABB, origin: [f64; 3], direction: [f64; 3], t_min: f64, t_max: f64) -> bool {
    let lows = [f(bounds.minimum.x), f(bounds.minimum.y), f(bounds.minimum.z)];
    let highs = [f(bounds.maximum.x), f(bounds.maximum.y), f(bounds.maximum.z)];
    let mut start = t_min;
    let mut end = t_max;
    for axis in 0..3 {
        let a = (lows[axis] - origin[axis]) / direction[axis];
        let b = (highs[axis] - origin[axis]) / direction[axis];
        let entry = if a < b { a } else { b };
        let exit = if a < b { b } else { a };
        if entry > start {
            start = entry;
        }
        if exit < end {
            end = exit;
        }
    }
    start < end
}

#[test]
fn new_keeps_the_corners() {
    let b = AABB::new(v(1.0, 2.0, 3.0), v(4.0, 5.0, 6.0));
    assert_eq!(b.minimum, v(1.0, 2.0, 3.0));
    assert_eq!(b.maximum, v(4.0, 5.0, 6.0));
}

#[test]
fn default_box_is_all_zero() {
    let b = AABB::default();
    assert_eq!(b.minimum, v(0.0, 0.0, 0.0));
    assert_eq!(b.maximum, v(0.0, 0.0, 0.0));
}

#[test]
fn surrounding_box_takes_minimum_and_maximum_by_component() {
    let a = AABB::new(v(0.0, -1.0, 2.0), v(1.0, 1.0, 3.0));
    let b = AABB::new(v(-2.0, 0.0, 2.5), v(0.5, 4.0, 2.75));
    let u = AABB::surrounding_box(a, b);
    assert_eq!(u.minimum, v(-2.0, -1.0, 2.0));
    assert_eq!(u.maximum, v(1.0, 4.0, 3.0));
    let w = AABB::surrounding_box(b, a);
    assert_eq!(w, u);
}

#[test]
fn surrounding_box_of_a_box_with_itself_is_the_box() {
    let a = AABB::new(v(0.0, -1.0, 2.0), v(1.0, 1.0, 3.0));
    assert_eq!(AABB::surrounding_box(a, a), a);
}

#[test]
fn surrounding_box_encloses_both_on_random_boxes() {
    let mut state = 7u64;
    for _ in 0..2000 {
        let mut corners = [[0.0f64; 3]; 4];
        for corner in corners.iter_mut() {
            for c in corner.iter_mut() {
                *c = between(&mut state, -100.0, 100.0);
            }
        }
        let a = AABB::new(
            v(corners[0][0], corners[0][1], corners[0][2]),
            v(corners[1][0], corners[1][1], corners[1][2]),
        );
        let b = AABB::new(
            v(corners[2][0], corners[2][1], corners[2][2]),
            v(corners[3][0], corners[3][1], corners[3][2]),
        );
        let u = AABB::surrounding_box(a, b);
        for k in 0..3 {
            let low = f(u.minimum.axis(k));
            let high = f(u.maximum.axis(k));
            assert_eq!(low, corners[0][k].min(corners[2][k]));
            assert_eq!(high, corners[1][k].max(corners[3][k]));
        }
    }
}

#[test]
fn around_no_points_is_the_inverted_infinite_box() {
    let b = AABB::around(&Vec::new());
    assert_eq!(b.minimum, v(f64::INFINITY, f64::INFINITY, f64::INFINITY));
    assert_eq!(b.maximum, v(f64::NEG_INFINITY, f64::NEG_INFINITY, f64::NEG_INFINITY));
}

#[test]
fn around_points_takes_the_extrema() {
    let points = vec![v(1.0, 5.0, -2.0), v(-3.0, 2.0, 0.0), v(0.5, 9.0, -7.0)];
    let b = AABB::around(&points);
    assert_eq!(b.minimum, v(-3.0, 2.0, -7.0));
    assert_eq!(b.maximum, v(1.0, 9.0, 0.0));
}

#[test]
fn window_narrows_to_the_slab() {
    let w = Window { t_min: s(0.0), t_max: s(10.0) };
    let n = w.narrow(Crossing { at_minimum: s(7.0), at_maximum: s(2.0) });
    assert_eq!(f(n.t_min), 2.0);
    assert_eq!(f(n.t_max), 7.0);
    assert!(!n.is_empty());
    let m = n.narrow(Crossing { at_minimum: s(8.0), at_maximum: s(9.0) });
    assert!(m.is_empty());
    let touching = Window { t_min: s(3.0), t_max: s(3.0) };
    assert!(touching.is_empty());
}

#[test]
fn ray_through_the_middle_hits() {
    let b = AABB::new(v(-1.0, -1.0, -1.0), v(1.0, 1.0, 1.0));
    let c = crossings(&b, [0.0, 0.0, -5.0], [0.0, 0.0, 1.0]);
    assert!(AABB::hit(c, s(0.0001), s(f64::INFINITY)));
    assert!(!AABB::hit(c, s(0.0001), s(3.0)));
    assert!(!AABB::hit(c, s(7.0), s(f64::INFINITY)));
    assert!(AABB::hit(c, s(5.0), s(f64::INFINITY)));
}

#[test]
fn ray_beside_the_box_misses() {
    let b = AABB::new(v(-1.0, -1.0, -1.0), v(1.0, 1.0, 1.0));
    let c = crossings(&b, [3.0, 0.0, -5.0], [0.0, 0.0, 1.0]);
    assert!(!AABB::hit(c, s(0.0001), s(f64::INFINITY)));
}

#[test]
fn box_behind_the_ray_is_missed() {
    let b = AABB::new(v(-1.0, -1.0, -1.0), v(1.0, 1.0, 1.0));
    let c = crossings(&b, [0.0, 0.0, 5.0], [0.0, 0.0, 1.0]);
    assert!(!AABB::hit(c, s(0.0001), s(f64::INFINITY)));
    assert!(AABB::hit(c, s(f64::NEG_INFINITY), s(f64::INFINITY)));
}

#[test]
fn slab_test_matches_the_reference_on_random_boxes_and_rays() {
    let mut state = 99u64;
    let mut hits = 0;
    for _ in 0..10000 {
        let mut low = [0.0f64; 3];
        let mut high = [0.0f64; 3];
        let mut origin = [0.0f64; 3];
        let mut direction = [0.0f64; 3];
        for k in 0..3 {
            let a = between(&mut state, -10.0, 10.0);
            let b = between(&mut state, -10.0, 10.0);
            low[k] = a.min(b);
            high[k] = a.max(b);
            origin[k] = between(&mut state, -20.0, 20.0);
            direction[k] = between(&mut state, -1.0, 1.0);
        }
        let bounds = AABB::new(v(low[0], low[1], low[2]), v(high[0], high[1], high[2]));
        let t_min = 0.0001;
        let t_max = if next_unit(&mut state) < 0.5 { f64::INFINITY } else { between(&mut state, 0.0, 40.0) };
        let got = AABB::hit(crossings(&bounds, origin, direction), s(t_min), s(t_max));
        let want = reference(&bounds, origin, direction, t_min, t_max);
        assert_eq!(got, want);
        if got {
            hits += 1;
        }
    }
    assert!(hits > 100);
    assert!(hits < 9900);
}

#[test]
fn slab_test_matches_the_reference_on_axis_parallel_rays() {
    let mut state = 5u64;
    for _ in 0..3000 {
        let mut low = [0.0f64; 3];
        let mut high = [0.0f64; 3];
        let mut origin = [0.0f64; 3];
        let mut direction = [0.0f64; 3];
        for k in 0..3 {
            let a = between(&mut state, -10.0, 10.0);
            let b = between(&mut state, -10.0, 10.0);
            low[k] = a.min(b);
            high[k] = a.max(b);
            origin[k] = between(&mut state, -12.0, 12.0);
            direction[k] = if next_unit(&mut state) < 0.5 { 0.0 } else { between(&mut state, -1.0, 1.0) };
        }
        let bounds = AABB::new(v(low[0], low[1], low[2]), v(high[0], high[1], high[2]));
        let got = AABB::hit(crossings(&bounds, origin, direction), s(0.0001), s(f64::INFINITY));
        let want = reference(&bounds, origin, direction, 0.0001, f64::INFINITY);
        assert_eq!(got, want);
    }
}

#[test]
fn ray_without_direction_misses_unless_it_starts_inside() {
    let b = AABB::new(v(-1.0, -1.0, -1.0), v(1.0, 1.0, 1.0));
    let outside = crossings(&b, [3.0, 0.0, 0.0], [0.0, 0.0, 0.0]);
    assert!(!AABB::hit(outside, s(0.0001), s(f64::INFINITY)));
    let inside = crossings(&b, [0.5, 0.0, -0.5], [0.0, 0.0, 0.0]);
    assert!(AABB::hit(inside, s(0.0001), s(f64::INFINITY)));
}

#[test]
fn ray_inside_a_bounding_plane_misses() {
    let b = AABB::new(v(-1.0, -1.0, -1.0), v(1.0, 1.0, 1.0));
    let c = crossings(&b, [-1.0, 0.0, -5.0], [0.0, 0.0, 1.0]);
    assert!(f(c.x.at_minimum).is_nan());
    assert_eq!(f(c.x.at_maximum), f64::INFINITY);
    assert!(!AABB::hit(c, s(0.0001), s(f64::INFINITY)));
}

#[test]
fn crossings_that_are_all_nan_leave_the_window_as_it_is() {
    let nan = Crossing { at_minimum: s(f64::NAN), at_maximum: s(f64::NAN) };
    let all = Crossings { x: nan, y: nan, z: nan };
    assert!(AABB::hit(all, s(0.0001), s(f64::INFINITY)));
    assert!(!AABB::hit(all, s(2.0), s(1.0)));
    let w = Window { t_min: s(1.0), t_max: s(2.0) }.narrow(nan);
    assert_eq!(f(w.t_min), 1.0);
    assert_eq!(f(w.t_max), 2.0);
}
