use rust_raytracer::aabb::{Crossing, Crossings, AABB};
use rust_raytracer::bvh::sort::sort_span;
use rust_raytracer::bvh::{BVHChild, BVHNode};
use rust_raytracer::hittable::{scan, HitRecord, HittableList};
use rust_raytracer::scalar::Scalar;
use rust_raytracer::sphere::nearest_root;
use rust_raytracer::vec3::Vec3;

fn bvh_s(x: f64) -> Scalar {
    Scalar::from_bits(x.to_bits())
}

fn bvh_f(x: Scalar) -> f64 {
    f64::from_bits(x.to_bits())
}

fn bvh_v(x: f64, y: f64, z: f64) -> Vec3 {
    Vec3::new(bvh_s(x), bvh_s(y), bvh_s(z))
}

fn bvh_unit(state: &mut u64) -> f64 {
    *state = state.wrapping_mul(6364136223846793005).wrapping_add(1442695040888963407);
    ((*state >> 11) as f64) / ((1u64 << 53) as f64)
}

#[derive(Clone, Copy)]
struct Ball {
    center: [f64; 3],
    radius: f64,
}

fn ball_box(ball: &Ball) -> AABB {
    AABB::new(
        bvh_v(ball.center[0] - ball.radius, ball.center[1] - ball.radius, ball.center[2] - ball.radius),
        bvh_v(ball.center[0] + ball.radius, ball.center[1] + ball.radius, ball.center[2] + ball.radius),
    )
}

fn ball_hit(ball: &Ball, id: usize, origin: [f64; 3], direction: [f64; 3], t_min: Scalar, t_max: Scalar) -> Option<HitRecord> {
    let oc = [origin[0] - ball.center[0], origin[1] - ball.center[1], origin[2] - ball.center[2]];
    let a = direction[0] * direction[0] + direction[1] * direction[1] + direction[2] * direction[2];
    let half_b = oc[0] * direction[0] + oc[1] * direction[1] + oc[2] * direction[2];
    let c = oc[0] * oc[0] + oc[1] * oc[1] + oc[2] * oc[2] - ball.radius * ball.radius;
    let discriminant = half_b * half_b - a * c;
    let root = discriminant.sqrt();
    let smaller = (-half_b - root) / a;
    let larger = (-half_b + root) / a;
    match nearest_root(bvh_s(discriminant), bvh_s(smaller), bvh_s(larger), t_min, t_max) {
        Some(t) => {
            let mut record = HitRecord::default();
            record.t = t;
            record.material = id;
            let at = bvh_f(t);
            record.point = bvh_v(origin[0] + at * direction[0], origin[1] + at * direction[1], origin[2] + at * direction[2]);
            Some(record)
        }
        None => None,
    }
}

fn ray_crossings(bounds: AABB, origin: [f64; 3], direction: [f64; 3]) -> Crossings {
    let one = |low: Scalar, high: Scalar, o: f64, d: f64| {
        let inverse = 1.0 / d;
        Crossing {
            at_minimum: bvh_s((bvh_f(low) - o) * inverse),
            at_maximum: bvh_s((bvh_f(high) - o) * inverse),
        }
    };
    Crossings {
        x: one(bounds.minimum.x, bounds.maximum.x, origin[0], direction[0]),
        y: one(bounds.minimum.y, bounds.maximum.y, origin[1], direction[1]),
        z: one(bounds.minimum.z, bounds.maximum.z, origin[2], direction[2]),
    }
}

fn collect_leaves(node: &BVHNode, out: &mut Vec<usize>) {
    for side in [&node.left, &node.right] {
        match side {
            BVHChild::Leaf(id) => out.push(*id),
            BVHChild::Node(inner) => collect_leaves(inner, out),
        }
    }
}

fn side_box(side: &BVHChild, boxes: &Vec<AABB>) -> AABB {
    match side {
        BVHChild::Leaf(id) => boxes[*id],
        BVHChild::Node(inner) => inner.bbox,
    }
}

/// Checks the invariant at every node, and returns the number of distinct
/// surfaces that the node was built over.
fn check_node(node: &BVHNode, boxes: &Vec<AABB>) -> usize {
    let left_box = side_box(&node.left, boxes);
    let right_box = side_box(&node.right, boxes);
    assert_eq!(node.bbox, AABB::surrounding_box(left_box, right_box));
    match (&node.left, &node.right) {
        (BVHChild::Leaf(a), BVHChild::Leaf(b)) => {
            if a == b {
                1
            } else {
                2
            }
        }
        (BVHChild::Node(l), BVHChild::Node(r)) => {
            let left = check_node(l, boxes);
            let right = check_node(r, boxes);
            assert_eq!(left, (left + right) / 2);
            left + right
        }
        _ => panic!("a node has a surface on one side and a node on the other"),
    }
}

fn grid_of_balls(count: usize, state: &mut u64) -> Vec<Ball> {
    let mut balls = Vec::new();
    let mut k = 0;
    while balls.len() < count {
        let gx = (k % 5) as f64;
        let gy = ((k / 5) % 5) as f64;
        let gz = (k / 25) as f64;
        balls.push(Ball {
            center: [
                gx * 3.0 + bvh_unit(state) - 0.5,
                gy * 3.0 + bvh_unit(state) - 0.5,
                gz * 3.0 + bvh_unit(state) - 0.5,
            ],
            radius: 0.3 + 0.6 * bvh_unit(state),
        });
        k += 1;
    }
    balls
}

#[test]
fn one_surface_fills_both_sides() {
    let boxes = vec![AABB::new(bvh_v(0.0, 0.0, 0.0), bvh_v(1.0, 2.0, 3.0))];
    let node = BVHNode::new(vec![0], 0, 1, &boxes);
    assert!(matches!(node.left, BVHChild::Leaf(0)));
    assert!(matches!(node.right, BVHChild::Leaf(0)));
    assert_eq!(node.bbox, boxes[0]);
}

#[test]
fn two_surfaces_take_a_side_each() {
    let boxes = vec![
        AABB::new(bvh_v(5.0, 5.0, 5.0), bvh_v(6.0, 6.0, 6.0)),
        AABB::new(bvh_v(0.0, 0.0, 0.0), bvh_v(1.0, 1.0, 1.0)),
    ];
    for _ in 0..20 {
        let node = BVHNode::new(vec![0, 1], 0, 2, &boxes);
        assert!(matches!(node.left, BVHChild::Leaf(1)));
        assert!(matches!(node.right, BVHChild::Leaf(0)));
        assert_eq!(node.bbox, AABB::new(bvh_v(0.0, 0.0, 0.0), bvh_v(6.0, 6.0, 6.0)));
    }
}

#[test]
fn new_builds_only_over_the_span() {
    let boxes = vec![
        AABB::new(bvh_v(0.0, 0.0, 0.0), bvh_v(1.0, 1.0, 1.0)),
        AABB::new(bvh_v(2.0, 2.0, 2.0), bvh_v(3.0, 3.0, 3.0)),
        AABB::new(bvh_v(4.0, 4.0, 4.0), bvh_v(5.0, 5.0, 5.0)),
        AABB::new(bvh_v(6.0, 6.0, 6.0), bvh_v(7.0, 7.0, 7.0)),
        AABB::new(bvh_v(8.0, 8.0, 8.0), bvh_v(9.0, 9.0, 9.0)),
    ];
    let node = BVHNode::new(vec![4, 3, 2, 1, 0], 1, 4, &boxes);
    let mut leaves = Vec::new();
    collect_leaves(&node, &mut leaves);
    leaves.sort();
    leaves.dedup();
    assert_eq!(leaves, vec![1, 2, 3]);
    assert_eq!(node.bbox, AABB::new(bvh_v(2.0, 2.0, 2.0), bvh_v(7.0, 7.0, 7.0)));
    assert_eq!(check_node(&node, &boxes), 3);
}

#[test]
fn three_surfaces_are_halved_with_the_smallest_alone() {
    let boxes = vec![
        AABB::new(bvh_v(4.0, 4.0, 4.0), bvh_v(5.0, 5.0, 5.0)),
        AABB::new(bvh_v(0.0, 0.0, 0.0), bvh_v(1.0, 1.0, 1.0)),
        AABB::new(bvh_v(2.0, 2.0, 2.0), bvh_v(3.0, 3.0, 3.0)),
    ];
    for _ in 0..20 {
        let node = BVHNode::new(vec![0, 1, 2], 0, 3, &boxes);
        let mut leaves = Vec::new();
        collect_leaves(&node, &mut leaves);
        assert_eq!(leaves, vec![1, 1, 2, 0]);
    }
}

#[test]
fn build_keeps_the_invariant_and_the_surfaces() {
    let mut state = 11u64;
    for count in 1..60usize {
        let balls = grid_of_balls(count, &mut state);
        let boxes: Vec<AABB> = balls.iter().map(ball_box).collect();
        let ids: Vec<usize> = (0..count).rev().collect();
        let node = BVHNode::new(ids, 0, count, &boxes);
        assert_eq!(check_node(&node, &boxes), count);
        let mut leaves = Vec::new();
        collect_leaves(&node, &mut leaves);
        leaves.sort();
        leaves.dedup();
        assert_eq!(leaves, (0..count).collect::<Vec<usize>>());
    }
}

#[test]
fn build_rearranges_the_span_it_is_given() {
    let mut state = 3u64;
    let balls = grid_of_balls(17, &mut state);
    let boxes: Vec<AABB> = balls.iter().map(ball_box).collect();
    let mut order: Vec<usize> = (0..17).collect();
    let node = BVHNode::build(&mut order, 2, 15, &boxes);
    assert_eq!(order[0], 0);
    assert_eq!(order[1], 1);
    assert_eq!(order[15], 15);
    assert_eq!(order[16], 16);
    let mut span: Vec<usize> = order[2..15].to_vec();
    span.sort();
    assert_eq!(span, (2..15).collect::<Vec<usize>>());
    let mut leaves = Vec::new();
    collect_leaves(&node, &mut leaves);
    leaves.dedup();
    assert_eq!(leaves, order[2..15].to_vec());
}

#[test]
fn sort_span_sorts_by_the_minimum_corner_on_the_axis() {
    let boxes = vec![
        AABB::new(bvh_v(3.0, -1.0, 0.0), bvh_v(9.0, 9.0, 9.0)),
        AABB::new(bvh_v(1.0, 5.0, -2.0), bvh_v(9.0, 9.0, 9.0)),
        AABB::new(bvh_v(2.0, 0.0, 7.0), bvh_v(9.0, 9.0, 9.0)),
        AABB::new(bvh_v(-4.0, 2.0, 1.0), bvh_v(9.0, 9.0, 9.0)),
    ];
    let mut order = vec![0, 1, 2, 3];
    sort_span(&mut order, 0, 4, &boxes, 0);
    assert_eq!(order, vec![3, 1, 2, 0]);
    sort_span(&mut order, 0, 4, &boxes, 1);
    assert_eq!(order, vec![0, 2, 3, 1]);
    sort_span(&mut order, 0, 4, &boxes, 2);
    assert_eq!(order, vec![1, 0, 3, 2]);
    let mut part = vec![0, 1, 2, 3];
    sort_span(&mut part, 1, 3, &boxes, 2);
    assert_eq!(part, vec![0, 1, 2, 3]);
    sort_span(&mut part, 0, 2, &boxes, 0);
    assert_eq!(part, vec![1, 0, 2, 3]);
}

#[test]
fn sort_span_puts_negative_numbers_first() {
    let boxes = vec![
        AABB::new(bvh_v(0.0, 0.0, 0.0), bvh_v(1.0, 1.0, 1.0)),
        AABB::new(bvh_v(-1.0, 0.0, 0.0), bvh_v(1.0, 1.0, 1.0)),
        AABB::new(bvh_v(-5.0, 0.0, 0.0), bvh_v(1.0, 1.0, 1.0)),
        AABB::new(bvh_v(f64::NEG_INFINITY, 0.0, 0.0), bvh_v(1.0, 1.0, 1.0)),
        AABB::new(bvh_v(1e-300, 0.0, 0.0), bvh_v(1.0, 1.0, 1.0)),
    ];
    let mut order = vec![0, 1, 2, 3, 4];
    sort_span(&mut order, 0, 5, &boxes, 0);
    assert_eq!(order, vec![3, 2, 1, 0, 4]);
}

#[test]
fn join_takes_the_union_of_the_boxes() {
    let boxes = vec![
        AABB::new(bvh_v(0.0, 0.0, 0.0), bvh_v(1.0, 1.0, 1.0)),
        AABB::new(bvh_v(-2.0, 3.0, 0.5), bvh_v(0.5, 4.0, 0.75)),
    ];
    let node = BVHNode::join(BVHChild::Leaf(0), BVHChild::Leaf(1), &boxes);
    assert_eq!(node.bbox, AABB::new(bvh_v(-2.0, 0.0, 0.0), bvh_v(1.0, 4.0, 1.0)));
    let above = BVHNode::join(BVHChild::Node(Box::new(node)), BVHChild::Leaf(0), &boxes);
    assert_eq!(above.bbox, AABB::new(bvh_v(-2.0, 0.0, 0.0), bvh_v(1.0, 4.0, 1.0)));
}

#[test]
fn from_list_builds_over_the_whole_list() {
    let mut state = 21u64;
    let balls = grid_of_balls(9, &mut state);
    let boxes: Vec<AABB> = balls.iter().map(ball_box).collect();
    let mut list = HittableList::new();
    for id in 0..9 {
        list.add(id);
    }
    let node = BVHNode::from_list_hittable_list(&list, &boxes);
    assert_eq!(check_node(&node, &boxes), 9);
    assert_eq!(list.hittable_list, (0..9).collect::<Vec<usize>>());
}

#[test]
fn hierarchy_and_linear_scan_find_the_same_nearest_hit() {
    let mut state = 2024u64;
    let mut found_hits = 0;
    for count in 1..41usize {
        let balls = grid_of_balls(count, &mut state);
        let boxes: Vec<AABB> = balls.iter().map(ball_box).collect();
        let ids: Vec<usize> = (0..count).collect();
        let node = BVHNode::new(ids.clone(), 0, count, &boxes);
        let mut list = HittableList::new();
        for id in 0..count {
            list.add(id);
        }
        for _ in 0..150 {
            let origin = [
                -6.0 + 24.0 * bvh_unit(&mut state),
                -6.0 + 24.0 * bvh_unit(&mut state),
                -10.0 + 4.0 * bvh_unit(&mut state),
            ];
            let aim = balls[(bvh_unit(&mut state) * count as f64) as usize % count].center;
            let direction = [
                aim[0] - origin[0] + bvh_unit(&mut state) - 0.5,
                aim[1] - origin[1] + bvh_unit(&mut state) - 0.5,
                aim[2] - origin[2] + bvh_unit(&mut state) - 0.5,
            ];
            let probe = |id: usize, lo: Scalar, hi: Scalar| ball_hit(&balls[id], id, origin, direction, lo, hi);
            let crossed = |bounds: AABB| ray_crossings(bounds, origin, direction);
            let mut by_tree = HitRecord::default();
            let mut by_list = HitRecord::default();
            let hit_tree = node.hit(bvh_s(0.0001), bvh_s(f64::INFINITY), &crossed, &probe, &mut by_tree);
            let hit_list = list.hit(bvh_s(0.0001), bvh_s(f64::INFINITY), &probe, &mut by_list);
            assert_eq!(hit_tree, hit_list);
            if hit_tree {
                found_hits += 1;
                assert_eq!(by_tree.t, by_list.t);
                assert_eq!(by_tree.material, by_list.material);
                assert_eq!(by_tree, by_list);
                for id in 0..count {
                    if let Some(other) = probe(id, bvh_s(0.0001), bvh_s(f64::INFINITY)) {
                        assert!(bvh_f(by_tree.t) <= bvh_f(other.t));
                    }
                }
            } else {
                assert_eq!(by_tree, HitRecord::default());
                for id in 0..count {
                    assert!(probe(id, bvh_s(0.0001), bvh_s(f64::INFINITY)).is_none());
                }
            }
        }
    }
    assert!(found_hits > 1000);
}

#[test]
fn nearest_agrees_with_hit() {
    let mut state = 8u64;
    let balls = grid_of_balls(12, &mut state);
    let boxes: Vec<AABB> = balls.iter().map(ball_box).collect();
    let node = BVHNode::new((0..12).collect(), 0, 12, &boxes);
    let origin = [0.0, 0.0, -10.0];
    let direction = [balls[7].center[0], balls[7].center[1], balls[7].center[2] + 10.0];
    let probe = |id: usize, lo: Scalar, hi: Scalar| ball_hit(&balls[id], id, origin, direction, lo, hi);
    let crossed = |bounds: AABB| ray_crossings(bounds, origin, direction);
    let found = node.nearest(bvh_s(0.0001), bvh_s(f64::INFINITY), &crossed, &probe);
    let mut record = HitRecord::default();
    let hit = node.hit(bvh_s(0.0001), bvh_s(f64::INFINITY), &crossed, &probe, &mut record);
    assert!(hit);
    assert_eq!(found, Some(record));
    assert_eq!(scan(&(0..12).collect(), bvh_s(0.0001), bvh_s(f64::INFINITY), &probe), found);
}

#[test]
fn overlapping_surfaces_report_the_nearer_one() {
    let balls = vec![
        Ball { center: [0.0, 0.0, 5.0], radius: 2.0 },
        Ball { center: [0.0, 0.0, 4.0], radius: 2.0 },
        Ball { center: [0.0, 0.0, 6.0], radius: 2.0 },
    ];
    let boxes: Vec<AABB> = balls.iter().map(ball_box).collect();
    let origin = [0.0, 0.0, -10.0];
    let direction = [0.0, 0.0, 1.0];
    let probe = |id: usize, lo: Scalar, hi: Scalar| ball_hit(&balls[id], id, origin, direction, lo, hi);
    let crossed = |bounds: AABB| ray_crossings(bounds, origin, direction);
    for _ in 0..20 {
        let node = BVHNode::new(vec![0, 1, 2], 0, 3, &boxes);
        let mut record = HitRecord::default();
        assert!(node.hit(bvh_s(0.0001), bvh_s(f64::INFINITY), &crossed, &probe, &mut record));
        assert_eq!(record.material, 1);
        assert_eq!(bvh_f(record.t), 12.0);
    }
}

#[test]
fn a_miss_leaves_the_record_untouched() {
    let balls = vec![Ball { center: [0.0, 0.0, 5.0], radius: 1.0 }];
    let boxes: Vec<AABB> = balls.iter().map(ball_box).collect();
    let node = BVHNode::new(vec![0], 0, 1, &boxes);
    let origin = [5.0, 0.0, -10.0];
    let direction = [0.0, 0.0, 1.0];
    let probe = |id: usize, lo: Scalar, hi: Scalar| ball_hit(&balls[id], id, origin, direction, lo, hi);
    let crossed = |bounds: AABB| ray_crossings(bounds, origin, direction);
    let mut record = HitRecord::default();
    record.material = 77;
    record.t = bvh_s(3.0);
    let before = record;
    assert!(!node.hit(bvh_s(0.0001), bvh_s(f64::INFINITY), &crossed, &probe, &mut record));
    assert_eq!(record, before);
}

#[test]
fn build_draws_each_of_the_three_axes() {
    let boxes = vec![
        AABB::new(bvh_v(0.0, 2.0, 1.0), bvh_v(9.0, 9.0, 9.0)),
        AABB::new(bvh_v(1.0, 0.0, 2.0), bvh_v(9.0, 9.0, 9.0)),
        AABB::new(bvh_v(2.0, 1.0, 0.0), bvh_v(9.0, 9.0, 9.0)),
    ];
    let mut seen = [false; 3];
    for _ in 0..200 {
        let node = BVHNode::new(vec![0, 1, 2], 0, 3, &boxes);
        let mut leaves = Vec::new();
        collect_leaves(&node, &mut leaves);
        assert_eq!(leaves.len(), 4);
        assert_eq!(leaves[0], leaves[1]);
        seen[leaves[0]] = true;
    }
    assert_eq!(seen, [true, true, true]);
}

#[test]
fn two_builds_over_the_same_surfaces_find_the_same_hits() {
    let mut state = 4242u64;
    let balls = grid_of_balls(30, &mut state);
    let boxes: Vec<AABB> = balls.iter().map(ball_box).collect();
    let first = BVHNode::new((0..30).collect(), 0, 30, &boxes);
    let second = BVHNode::new((0..30).rev().collect(), 0, 30, &boxes);
    let mut hits = 0;
    for _ in 0..2000 {
        let origin = [-6.0 + 24.0 * bvh_unit(&mut state), -6.0 + 24.0 * bvh_unit(&mut state), -10.0];
        let aim = balls[(bvh_unit(&mut state) * 30.0) as usize % 30].center;
        let direction = [
            aim[0] - origin[0] + bvh_unit(&mut state) - 0.5,
            aim[1] - origin[1] + bvh_unit(&mut state) - 0.5,
            aim[2] - origin[2],
        ];
        let probe = |id: usize, lo: Scalar, hi: Scalar| ball_hit(&balls[id], id, origin, direction, lo, hi);
        let crossed = |bounds: AABB| ray_crossings(bounds, origin, direction);
        let a = first.nearest(bvh_s(0.0001), bvh_s(f64::INFINITY), &crossed, &probe);
        let b = second.nearest(bvh_s(0.0001), bvh_s(f64::INFINITY), &crossed, &probe);
        assert_eq!(a, b);
        if a.is_some() {
            hits += 1;
        }
    }
    assert!(hits > 500);
}
