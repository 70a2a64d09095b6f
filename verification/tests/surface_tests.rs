use rust_raytracer::aabb::AABB;
use rust_raytracer::constant_medium::{clip, ConstantMedium, Flight};
use rust_raytracer::cube::Cube;
use rust_raytracer::hittable::{scan, HitRecord, HittableList};
use rust_raytracer::rectangles::{rectangle_crossed, XyRectangle, XzRectangle, YzRectangle};
use rust_raytracer::rotate_y::RotateY;
use rust_raytracer::scalar::Scalar;
use rust_raytracer::sphere::{nearest_root, root_check, MovingSphere, Sphere};
use rust_raytracer::vec3::Vec3;
use std::cell::Cell;

fn sf_s(x: f64) -> Scalar {
    Scalar::from_bits(x.to_bits())
}

fn sf_f(x: Scalar) -> f64 {
    f64::from_bits(x.to_bits())
}

fn sf_v(x: f64, y: f64, z: f64) -> Vec3 {
    Vec3::new(sf_s(x), sf_s(y), sf_s(z))
}

fn record_at(t: f64, material: usize) -> HitRecord {
    let mut record = HitRecord::default();
    record.t = sf_s(t);
    record.material = material;
    record
}

/// A surface that is hit at a fixed distance, if the window holds it.
fn fixed(distances: &[Option<f64>], id: usize, lo: Scalar, hi: Scalar) -> Option<HitRecord> {
    match distances[id] {
        Some(t) if sf_f(lo) <= t && t <= sf_f(hi) => Some(record_at(t, id)),
        _ => None,
    }
}

#[test]
fn set_face_normal_turns_the_normal_against_the_ray() {
    let mut record = HitRecord::default();
    record.set_face_normal(sf_s(-0.5), sf_v(0.0, 1.0, 0.0));
    assert!(record.front_face);
    assert_eq!(record.normal, sf_v(0.0, 1.0, 0.0));
    record.set_face_normal(sf_s(0.5), sf_v(0.0, 1.0, 0.0));
    assert!(!record.front_face);
    assert_eq!(record.normal, sf_v(-0.0, -1.0, -0.0));
    record.set_face_normal(sf_s(0.0), sf_v(1.0, 0.0, 0.0));
    assert!(!record.front_face);
    assert_eq!(record.normal, sf_v(-1.0, -0.0, -0.0));
    record.set_face_normal(sf_s(f64::NAN), sf_v(1.0, 0.0, 0.0));
    assert!(!record.front_face);
}

#[test]
fn set_face_normal_leaves_the_other_fields() {
    let mut record = record_at(4.0, 9);
    record.point = sf_v(1.0, 2.0, 3.0);
    record.set_face_normal(sf_s(-1.0), sf_v(0.0, 0.0, 1.0));
    assert_eq!(record.t, sf_s(4.0));
    assert_eq!(record.material, 9);
    assert_eq!(record.point, sf_v(1.0, 2.0, 3.0));
}

#[test]
fn emitted_of_a_record_is_its_background() {
    let mut record = HitRecord::default();
    record.background = sf_v(0.7, 0.8, 1.0);
    assert_eq!(record.emitted(sf_s(0.1), sf_s(0.2), &sf_v(1.0, 1.0, 1.0)), sf_v(0.7, 0.8, 1.0));
}

#[test]
fn list_starts_empty_and_keeps_the_order_of_adding() {
    let mut list = HittableList::new();
    assert!(list.hittable_list.is_empty());
    list.add(4);
    list.add(2);
    list.add(4);
    assert_eq!(list.hittable_list, vec![4, 2, 4]);
}

#[test]
fn list_reports_the_nearest_hit() {
    let distances = [Some(5.0), None, Some(2.0), Some(9.0), Some(3.0)];
    let mut list = HittableList::new();
    for id in 0..5 {
        list.add(id);
    }
    let probe = |id: usize, lo: Scalar, hi: Scalar| fixed(&distances, id, lo, hi);
    let mut record = HitRecord::default();
    assert!(list.hit(sf_s(0.0001), sf_s(f64::INFINITY), &probe, &mut record));
    assert_eq!(record, record_at(2.0, 2));
    assert!(list.hit(sf_s(2.5), sf_s(f64::INFINITY), &probe, &mut record));
    assert_eq!(record, record_at(3.0, 4));
    assert!(list.hit(sf_s(0.0001), sf_s(2.0), &probe, &mut record));
    assert_eq!(record, record_at(2.0, 2));
}

#[test]
fn list_passes_a_shrinking_window_to_each_surface() {
    let distances = [Some(5.0), Some(7.0), Some(2.0), Some(3.0)];
    let asked = Cell::new(0usize);
    let ends: [Cell<f64>; 4] = [Cell::new(0.0), Cell::new(0.0), Cell::new(0.0), Cell::new(0.0)];
    let probe = |id: usize, lo: Scalar, hi: Scalar| {
        ends[id].set(sf_f(hi));
        asked.set(asked.get() + 1);
        fixed(&distances, id, lo, hi)
    };
    let found = scan(&vec![0, 1, 2, 3], sf_s(0.0001), sf_s(100.0), &probe);
    assert_eq!(found, Some(record_at(2.0, 2)));
    assert_eq!(asked.get(), 4);
    assert_eq!(ends[0].get(), 100.0);
    assert_eq!(ends[1].get(), 5.0);
    assert_eq!(ends[2].get(), 5.0);
    assert_eq!(ends[3].get(), 2.0);
}

#[test]
fn empty_list_is_never_hit() {
    let list = HittableList::new();
    let probe = |_id: usize, _lo: Scalar, _hi: Scalar| Some(record_at(1.0, 0));
    let mut record = record_at(8.0, 3);
    assert!(!list.hit(sf_s(0.0001), sf_s(f64::INFINITY), &probe, &mut record));
    assert_eq!(record, record_at(8.0, 3));
}

#[test]
fn list_of_misses_leaves_the_record() {
    let distances = [None, None];
    let mut list = HittableList::new();
    list.add(0);
    list.add(1);
    let probe = |id: usize, lo: Scalar, hi: Scalar| fixed(&distances, id, lo, hi);
    let mut record = record_at(8.0, 3);
    assert!(!list.hit(sf_s(0.0001), sf_s(f64::INFINITY), &probe, &mut record));
    assert_eq!(record, record_at(8.0, 3));
}

#[test]
fn list_among_equal_distances_keeps_the_last() {
    let distances = [Some(2.0), Some(2.0)];
    let probe = |id: usize, lo: Scalar, hi: Scalar| fixed(&distances, id, lo, hi);
    assert_eq!(scan(&vec![0, 1], sf_s(0.0), sf_s(10.0), &probe), Some(record_at(2.0, 1)));
}

#[test]
fn list_box_is_the_union_of_the_boxes() {
    let boxes = vec![
        Some(AABB::new(sf_v(0.0, 0.0, 0.0), sf_v(1.0, 1.0, 1.0))),
        Some(AABB::new(sf_v(-2.0, 3.0, 0.5), sf_v(0.5, 4.0, 0.75))),
        Some(AABB::new(sf_v(0.0, 0.0, -9.0), sf_v(0.5, 0.5, 0.5))),
        None,
    ];
    let mut list = HittableList::new();
    list.add(0);
    list.add(1);
    list.add(2);
    let mut out = AABB::default();
    assert!(list.bounding_box(&boxes, &mut out));
    assert_eq!(out, AABB::new(sf_v(-2.0, 0.0, -9.0), sf_v(1.0, 4.0, 1.0)));
    let mut single = HittableList::new();
    single.add(1);
    assert!(single.bounding_box(&boxes, &mut out));
    assert_eq!(out, boxes[1].unwrap());
}

#[test]
fn list_box_is_undefined_for_an_empty_list_or_a_missing_box() {
    let boxes = vec![Some(AABB::new(sf_v(0.0, 0.0, 0.0), sf_v(1.0, 1.0, 1.0))), None];
    let marker = AABB::new(sf_v(7.0, 7.0, 7.0), sf_v(8.0, 8.0, 8.0));
    let mut out = marker;
    assert!(!HittableList::new().bounding_box(&boxes, &mut out));
    assert_eq!(out, marker);
    let mut list = HittableList::new();
    list.add(0);
    list.add(1);
    list.add(0);
    assert!(!list.bounding_box(&boxes, &mut out));
    assert_eq!(out, marker);
    let mut first_missing = HittableList::new();
    first_missing.add(1);
    assert!(!first_missing.bounding_box(&boxes, &mut out));
    assert_eq!(out, marker);
}

#[test]
fn root_check_tells_roots_outside_the_window() {
    assert!(root_check(sf_s(0.5), sf_s(1.0), sf_s(2.0)));
    assert!(root_check(sf_s(2.5), sf_s(1.0), sf_s(2.0)));
    assert!(!root_check(sf_s(1.0), sf_s(1.0), sf_s(2.0)));
    assert!(!root_check(sf_s(2.0), sf_s(1.0), sf_s(2.0)));
    assert!(!root_check(sf_s(1.5), sf_s(1.0), sf_s(2.0)));
    assert!(!root_check(sf_s(f64::NAN), sf_s(1.0), sf_s(2.0)));
}

#[test]
fn nearest_root_prefers_the_smaller_root() {
    let none: Option<Scalar> = None;
    assert_eq!(nearest_root(sf_s(4.0), sf_s(3.0), sf_s(7.0), sf_s(0.0001), sf_s(f64::INFINITY)), Some(sf_s(3.0)));
    assert_eq!(nearest_root(sf_s(4.0), sf_s(-3.0), sf_s(7.0), sf_s(0.0001), sf_s(f64::INFINITY)), Some(sf_s(7.0)));
    assert_eq!(nearest_root(sf_s(4.0), sf_s(-7.0), sf_s(-3.0), sf_s(0.0001), sf_s(f64::INFINITY)), none);
    assert_eq!(nearest_root(sf_s(4.0), sf_s(3.0), sf_s(7.0), sf_s(0.0001), sf_s(2.0)), none);
    assert_eq!(nearest_root(sf_s(4.0), sf_s(3.0), sf_s(7.0), sf_s(4.0), sf_s(6.0)), none);
    assert_eq!(nearest_root(sf_s(-1.0), sf_s(3.0), sf_s(7.0), sf_s(0.0001), sf_s(f64::INFINITY)), none);
    assert_eq!(nearest_root(sf_s(0.0), sf_s(5.0), sf_s(5.0), sf_s(0.0001), sf_s(f64::INFINITY)), Some(sf_s(5.0)));
}

#[test]
fn ray_toward_the_centre_of_a_sphere_has_two_roots_and_reports_the_smaller() {
    let mut state = 77u64;
    let mut unit = || {
        state = state.wrapping_mul(6364136223846793005).wrapping_add(1442695040888963407);
        ((state >> 11) as f64) / ((1u64 << 53) as f64)
    };
    for _ in 0..10000 {
        let center = [20.0 * unit() - 10.0, 20.0 * unit() - 10.0, 20.0 * unit() - 10.0];
        let radius = 0.1 + 3.0 * unit();
        let away = [unit() - 0.5, unit() - 0.5, unit() - 0.5];
        let norm = (away[0] * away[0] + away[1] * away[1] + away[2] * away[2]).sqrt();
        if norm < 1e-3 {
            continue;
        }
        let distance = radius * (1.5 + 5.0 * unit());
        let origin = [
            center[0] + away[0] / norm * distance,
            center[1] + away[1] / norm * distance,
            center[2] + away[2] / norm * distance,
        ];
        let scale = 0.2 + 3.0 * unit();
        let direction = [
            (center[0] - origin[0]) * scale,
            (center[1] - origin[1]) * scale,
            (center[2] - origin[2]) * scale,
        ];
        let oc = [origin[0] - center[0], origin[1] - center[1], origin[2] - center[2]];
        let a = direction[0] * direction[0] + direction[1] * direction[1] + direction[2] * direction[2];
        let half_b = oc[0] * direction[0] + oc[1] * direction[1] + oc[2] * direction[2];
        let c = oc[0] * oc[0] + oc[1] * oc[1] + oc[2] * oc[2] - radius * radius;
        let discriminant = half_b * half_b - a * c;
        assert!(discriminant > 0.0);
        let smaller = (-half_b - discriminant.sqrt()) / a;
        let larger = (-half_b + discriminant.sqrt()) / a;
        assert!(0.0 < smaller && smaller < larger);
        let sphere = Sphere::new(sf_v(center[0], center[1], center[2]), sf_s(radius), 5);
        let mut record = HitRecord::default();
        assert!(sphere.hit(
            sf_s(discriminant),
            sf_s(smaller),
            sf_s(larger),
            sf_s(0.0001),
            sf_s(f64::INFINITY),
            &mut record
        ));
        assert_eq!(record.t, sf_s(smaller));
        assert_eq!(record.material, 5);
    }
}

#[test]
fn sphere_hit_records_distance_and_material() {
    let sphere = Sphere::new(sf_v(0.0, 0.0, 0.0), sf_s(1.0), 3);
    assert_eq!(sphere.center, sf_v(0.0, 0.0, 0.0));
    assert_eq!(sphere.radius, sf_s(1.0));
    let mut record = HitRecord::default();
    record.point = sf_v(9.0, 9.0, 9.0);
    assert!(sphere.hit(sf_s(1.0), sf_s(-2.0), sf_s(4.0), sf_s(0.0001), sf_s(10.0), &mut record));
    assert_eq!(record.t, sf_s(4.0));
    assert_eq!(record.material, 3);
    assert_eq!(record.point, sf_v(9.0, 9.0, 9.0));
    let before = record;
    assert!(!sphere.hit(sf_s(-1.0), sf_s(2.0), sf_s(4.0), sf_s(0.0001), sf_s(10.0), &mut record));
    assert_eq!(record, before);
}

#[test]
fn moving_sphere_hit_records_distance_and_material() {
    let sphere = MovingSphere::new(sf_v(0.0, 0.0, 0.0), sf_v(0.0, 1.0, 0.0), sf_s(0.0), sf_s(1.0), sf_s(0.2), 6);
    assert_eq!(sphere.end_point, sf_v(0.0, 1.0, 0.0));
    assert_eq!(sphere.end_time, sf_s(1.0));
    let mut record = HitRecord::default();
    assert!(sphere.hit(sf_s(1.0), sf_s(2.0), sf_s(4.0), sf_s(0.0001), sf_s(10.0), &mut record));
    assert_eq!(record.t, sf_s(2.0));
    assert_eq!(record.material, 6);
    let before = record;
    assert!(!sphere.hit(sf_s(1.0), sf_s(12.0), sf_s(14.0), sf_s(0.0001), sf_s(10.0), &mut record));
    assert_eq!(record, before);
}

#[test]
fn rectangle_is_crossed_inside_its_extent_and_the_window() {
    let r = |t: f64, a: f64, b: f64| {
        rectangle_crossed(sf_s(t), sf_s(a), sf_s(b), sf_s(0.0), sf_s(2.0), sf_s(-1.0), sf_s(1.0), sf_s(0.0001), sf_s(50.0))
    };
    assert!(r(1.0, 1.0, 0.0));
    assert!(r(50.0, 0.0, -1.0));
    assert!(r(1.0, 2.0, 1.0));
    assert!(!r(51.0, 1.0, 0.0));
    assert!(!r(0.0, 1.0, 0.0));
    assert!(!r(1.0, -0.1, 0.0));
    assert!(!r(1.0, 2.1, 0.0));
    assert!(!r(1.0, 1.0, -1.1));
    assert!(!r(1.0, 1.0, 1.1));
}

#[test]
fn rectangles_record_distance_and_material() {
    let xy = XyRectangle::new(sf_s(0.0), sf_s(2.0), sf_s(0.0), sf_s(3.0), sf_s(5.0), 1);
    let xz = XzRectangle::new(sf_s(0.0), sf_s(2.0), sf_s(0.0), sf_s(3.0), sf_s(5.0), 2);
    let yz = YzRectangle::new(sf_s(0.0), sf_s(2.0), sf_s(0.0), sf_s(3.0), sf_s(5.0), 3);
    assert_eq!(xy.k, sf_s(5.0));
    assert_eq!(xz.z1, sf_s(3.0));
    assert_eq!(yz.y1, sf_s(2.0));
    let mut record = HitRecord::default();
    assert!(xy.hit(sf_s(4.0), sf_s(1.0), sf_s(2.5), sf_s(0.0001), sf_s(10.0), &mut record));
    assert_eq!((record.t, record.material), (sf_s(4.0), 1));
    assert!(xz.hit(sf_s(5.0), sf_s(1.0), sf_s(2.5), sf_s(0.0001), sf_s(10.0), &mut record));
    assert_eq!((record.t, record.material), (sf_s(5.0), 2));
    assert!(yz.hit(sf_s(6.0), sf_s(1.0), sf_s(2.5), sf_s(0.0001), sf_s(10.0), &mut record));
    assert_eq!((record.t, record.material), (sf_s(6.0), 3));
    let before = record;
    assert!(!xy.hit(sf_s(4.0), sf_s(2.5), sf_s(2.5), sf_s(0.0001), sf_s(10.0), &mut record));
    assert!(!xz.hit(sf_s(4.0), sf_s(1.0), sf_s(3.5), sf_s(0.0001), sf_s(10.0), &mut record));
    assert!(!yz.hit(sf_s(14.0), sf_s(1.0), sf_s(2.5), sf_s(0.0001), sf_s(10.0), &mut record));
    assert_eq!(record, before);
}

#[test]
fn cube_has_six_sides_between_its_corners() {
    let cube = Cube::new(sf_v(1.0, 2.0, 3.0), sf_v(4.0, 5.0, 6.0), 8);
    assert_eq!(cube.sides.back, XyRectangle::new(sf_s(1.0), sf_s(4.0), sf_s(2.0), sf_s(5.0), sf_s(6.0), 8));
    assert_eq!(cube.sides.front, XyRectangle::new(sf_s(1.0), sf_s(4.0), sf_s(2.0), sf_s(5.0), sf_s(3.0), 8));
    assert_eq!(cube.sides.top, XzRectangle::new(sf_s(1.0), sf_s(4.0), sf_s(3.0), sf_s(6.0), sf_s(5.0), 8));
    assert_eq!(cube.sides.bottom, XzRectangle::new(sf_s(1.0), sf_s(4.0), sf_s(3.0), sf_s(6.0), sf_s(2.0), 8));
    assert_eq!(cube.sides.right, YzRectangle::new(sf_s(2.0), sf_s(5.0), sf_s(3.0), sf_s(6.0), sf_s(4.0), 8));
    assert_eq!(cube.sides.left, YzRectangle::new(sf_s(2.0), sf_s(5.0), sf_s(3.0), sf_s(6.0), sf_s(1.0), 8));
    let mut out = AABB::default();
    assert!(cube.bounding_box(&mut out));
    assert_eq!(out, AABB::new(sf_v(1.0, 2.0, 3.0), sf_v(4.0, 5.0, 6.0)));
}

#[test]
fn cube_reports_the_nearest_side() {
    let cube = Cube::new(sf_v(-1.0, -1.0, -1.0), sf_v(1.0, 1.0, 1.0), 8);
    let distances = [Some(6.0), Some(4.0), None, None, None, None];
    let probe = |id: usize, lo: Scalar, hi: Scalar| fixed(&distances, id, lo, hi);
    let mut record = HitRecord::default();
    assert!(cube.hit(sf_s(0.0001), sf_s(f64::INFINITY), &probe, &mut record));
    assert_eq!(record, record_at(4.0, 1));
    let nothing = [None, None, None, None, None, None];
    let miss = |id: usize, lo: Scalar, hi: Scalar| fixed(&nothing, id, lo, hi);
    let before = record;
    assert!(!cube.hit(sf_s(0.0001), sf_s(f64::INFINITY), &miss, &mut record));
    assert_eq!(record, before);
}

#[test]
fn clip_cuts_the_stretch_to_the_window() {
    let none: Option<(Scalar, Scalar)> = None;
    assert_eq!(clip(sf_s(2.0), sf_s(5.0), sf_s(0.0001), sf_s(f64::INFINITY)), Some((sf_s(2.0), sf_s(5.0))));
    assert_eq!(clip(sf_s(-2.0), sf_s(5.0), sf_s(0.0001), sf_s(f64::INFINITY)), Some((sf_s(0.0001), sf_s(5.0))));
    assert_eq!(clip(sf_s(2.0), sf_s(5.0), sf_s(0.0001), sf_s(3.0)), Some((sf_s(2.0), sf_s(3.0))));
    assert_eq!(clip(sf_s(2.0), sf_s(5.0), sf_s(6.0), sf_s(9.0)), none);
    assert_eq!(clip(sf_s(2.0), sf_s(5.0), sf_s(0.0), sf_s(1.0)), none);
    assert_eq!(clip(sf_s(-5.0), sf_s(-2.0), sf_s(-10.0), sf_s(10.0)), Some((sf_s(0.0), sf_s(-2.0))));
    assert_eq!(clip(sf_s(3.0), sf_s(3.0), sf_s(0.0), sf_s(10.0)), none);
}

#[test]
fn medium_scatters_when_the_flight_ends_inside() {
    let medium = ConstantMedium::new(4, sf_s(-100.0), 9);
    assert_eq!(medium.boundary, 4);
    assert_eq!(medium.negative_inverse_density, sf_s(-100.0));
    let boundary = |lo: Scalar, _hi: Scalar| {
        if sf_f(lo) <= 2.0 {
            Some(record_at(2.0, 0))
        } else if sf_f(lo) <= 5.0 {
            Some(record_at(5.0, 0))
        } else {
            None
        }
    };
    let advance = |t: Scalar| sf_s(sf_f(t) + 0.0001);
    let span = Cell::new((0.0, 0.0));
    let short = |t1: Scalar, t2: Scalar| {
        span.set((sf_f(t1), sf_f(t2)));
        Flight {
            distance_inside_boundary: sf_s(sf_f(t2) - sf_f(t1)),
            hit_distance: sf_s(1.0),
            t: sf_s(sf_f(t1) + 1.0),
            point: sf_v(0.0, 0.0, sf_f(t1) + 1.0),
        }
    };
    let mut record = HitRecord::default();
    record.normal = sf_v(1.0, 0.0, 0.0);
    assert!(medium.hit(sf_s(0.0001), sf_s(f64::INFINITY), &boundary, &advance, &short, &mut record));
    assert_eq!(span.get(), (2.0, 5.0));
    assert_eq!(record.t, sf_s(3.0));
    assert_eq!(record.point, sf_v(0.0, 0.0, 3.0));
    assert_eq!(record.material, 9);
    assert_eq!(record.normal, sf_v(1.0, 0.0, 0.0));
    let long = |t1: Scalar, t2: Scalar| Flight {
        distance_inside_boundary: sf_s(sf_f(t2) - sf_f(t1)),
        hit_distance: sf_s(3.5),
        t: sf_s(sf_f(t1) + 3.5),
        point: sf_v(0.0, 0.0, 0.0),
    };
    let before = record;
    assert!(!medium.hit(sf_s(0.0001), sf_s(f64::INFINITY), &boundary, &advance, &long, &mut record));
    assert_eq!(record, before);
    let exact = |t1: Scalar, t2: Scalar| Flight {
        distance_inside_boundary: sf_s(sf_f(t2) - sf_f(t1)),
        hit_distance: sf_s(3.0),
        t: sf_s(5.0),
        point: sf_v(0.0, 0.0, 5.0),
    };
    assert!(medium.hit(sf_s(0.0001), sf_s(f64::INFINITY), &boundary, &advance, &exact, &mut record));
    assert_eq!(record.t, sf_s(5.0));
}

#[test]
fn medium_is_missed_when_the_boundary_is_not_crossed_twice() {
    let medium = ConstantMedium::new(4, sf_s(-100.0), 9);
    let advance = |t: Scalar| sf_s(sf_f(t) + 0.0001);
    let drawn = Cell::new(0);
    let flight = |t1: Scalar, _t2: Scalar| {
        drawn.set(drawn.get() + 1);
        Flight { distance_inside_boundary: sf_s(9.0), hit_distance: sf_s(0.0), t: t1, point: sf_v(0.0, 0.0, 0.0) }
    };
    let never = |_lo: Scalar, _hi: Scalar| None;
    let mut record = record_at(1.0, 1);
    assert!(!medium.hit(sf_s(0.0001), sf_s(f64::INFINITY), &never, &advance, &flight, &mut record));
    let once = |lo: Scalar, _hi: Scalar| if sf_f(lo) <= 2.0 { Some(record_at(2.0, 0)) } else { None };
    assert!(!medium.hit(sf_s(0.0001), sf_s(f64::INFINITY), &once, &advance, &flight, &mut record));
    let twice = |lo: Scalar, _hi: Scalar| {
        if sf_f(lo) <= 2.0 {
            Some(record_at(2.0, 0))
        } else {
            Some(record_at(5.0, 0))
        }
    };
    assert!(!medium.hit(sf_s(6.0), sf_s(f64::INFINITY), &twice, &advance, &flight, &mut record));
    assert_eq!(drawn.get(), 0);
    assert_eq!(record, record_at(1.0, 1));
    assert!(medium.hit(sf_s(0.0001), sf_s(f64::INFINITY), &twice, &advance, &flight, &mut record));
    assert_eq!(drawn.get(), 1);
}

#[test]
fn medium_box_is_the_box_of_the_boundary() {
    let medium = ConstantMedium::new(4, sf_s(-100.0), 9);
    let bounds = AABB::new(sf_v(0.0, 0.0, 0.0), sf_v(1.0, 1.0, 1.0));
    let mut out = AABB::default();
    assert!(medium.bounding_box(Some(bounds), &mut out));
    assert_eq!(out, bounds);
    assert!(!medium.bounding_box(None, &mut out));
    assert_eq!(out, bounds);
}

#[test]
fn rotation_keeps_the_box_around_the_turned_corners() {
    let corners = vec![
        sf_v(1.0, 0.0, 0.0),
        sf_v(0.0, 0.0, -1.0),
        sf_v(-1.0, 2.0, 0.0),
        sf_v(0.0, 2.0, 1.0),
    ];
    let turned = RotateY::new(3, sf_s(1.0), sf_s(0.0), true, &corners);
    assert_eq!(turned.hittable, 3);
    assert_eq!(turned.sin_theta, sf_s(1.0));
    assert_eq!(turned.cos_theta, sf_s(0.0));
    let mut out = AABB::default();
    assert!(turned.bounding_box(&mut out));
    assert_eq!(out, AABB::new(sf_v(-1.0, 0.0, -1.0), sf_v(1.0, 2.0, 1.0)));
    let boxless = RotateY::new(3, sf_s(1.0), sf_s(0.0), false, &corners);
    assert!(!boxless.bounding_box(&mut out));
    assert_eq!(out, AABB::new(sf_v(-1.0, 0.0, -1.0), sf_v(1.0, 2.0, 1.0)));
}
