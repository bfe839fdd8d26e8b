use volley_core::aabb::{aabbs_intersect, Aabb};
use volley_core::capsule::{max_collision_distance, Capsule};
use volley_core::handles::{AudioSource, CameraType, FrameBuffer};
use volley_core::geom::{
    distance_between_line_segments, distance_between_point_and_line_segment, Vec3,
};
use volley_core::quat::{partial_hamilton_product, partial_hamilton_product2, rotate_by_quat, Quat};

fn v(x: i64, y: i64, z: i64) -> Vec3 {
    Vec3::new(x, y, z)
}

#[test]
fn point_segment_perpendicular() {
    // Point above the middle of a segment: perpendicular distance 3.
    let d = distance_between_point_and_line_segment(&v(5, 3, 0), &v(0, 0, 0), &v(10, 0, 0));
    assert_eq!(d.num, 9 * d.den);
}

#[test]
fn point_segment_clamps_to_endpoint() {
    // The projection of (5,0,0) onto the line through (0,0,0)-(1,0,0) falls
    // far outside the segment: the distance is to the endpoint (1,0,0),
    // 4 units, not the perpendicular distance 0 to the infinite line.
    let d = distance_between_point_and_line_segment(&v(5, 0, 0), &v(0, 0, 0), &v(1, 0, 0));
    assert_eq!(d.num, 16);
    assert_eq!(d.den, 1);
}

#[test]
fn point_segment_degenerate_segment() {
    let d = distance_between_point_and_line_segment(&v(3, 4, 0), &v(0, 0, 0), &v(0, 0, 0));
    assert_eq!(d.num, 25);
    assert_eq!(d.den, 1);
}

#[test]
fn segments_crossing_distance_zero() {
    // Crossing segments touch: the distance is exactly zero.
    let d = distance_between_line_segments(
        &v(0, 0, 0),
        &v(0, 0, 2),
        &v(0, 0, 1),
        &v(1, 0, 1),
    );
    assert_eq!(d.num, 0);
}

#[test]
fn segments_parallel_overlap() {
    // Parallel segments overlapping in z: exactly the perpendicular offset 1.
    let d = distance_between_line_segments(
        &v(0, 0, 0),
        &v(0, 0, 10),
        &v(1, 0, 2),
        &v(1, 0, 5),
    );
    assert_eq!(d.num, d.den);
    assert!(d.den > 0);
}

#[test]
fn segments_skew_closest_interior() {
    // Skew segments whose closest points are interior: lines x-axis and a
    // z-shifted y-axis at height 2, distance 2.
    let d = distance_between_line_segments(
        &v(-5, 0, 0),
        &v(5, 0, 0),
        &v(0, -5, 2),
        &v(0, 5, 2),
    );
    assert_eq!(d.num, 4 * d.den);
}

#[test]
fn segments_distance_symmetric() {
    let a0 = v(-3, 1, 7);
    let a1 = v(4, -2, 5);
    let b0 = v(6, 6, -1);
    let b1 = v(-2, 3, 3);
    let d1 = distance_between_line_segments(&a0, &a1, &b0, &b1);
    let d2 = distance_between_line_segments(&b0, &b1, &a0, &a1);
    // Equal as rationals, whatever representation each direction picked.
    assert_eq!(d1.num * d2.den, d2.num * d1.den);
}

#[test]
fn segments_distance_non_negative() {
    let d = distance_between_line_segments(
        &v(1, 2, 3),
        &v(-1, -2, -3),
        &v(4, 0, 1),
        &v(4, 0, 2),
    );
    assert!(d.num >= 0);
    assert!(d.den >= 1);
}

#[test]
fn aabb_uninitialized_contains_nothing() {
    let bb = Aabb::new();
    assert!(!bb.contains_point(v(0, 0, 0)));
    assert!(!bb.contains_point(v(1, -5, 100)));
}

#[test]
fn aabb_single_point_exact() {
    // After covering one point and inflating by zero, the box contains
    // exactly that point.
    let mut bb = Aabb::new();
    bb.expand_to_include(v(1, 2, 3));
    bb.expand_by(0);
    assert!(bb.contains_point(v(1, 2, 3)));
    assert!(!bb.contains_point(v(0, 2, 3)));
    assert!(!bb.contains_point(v(2, 2, 3)));
    assert!(!bb.contains_point(v(1, 1, 3)));
    assert!(!bb.contains_point(v(1, 3, 3)));
    assert!(!bb.contains_point(v(1, 2, 2)));
    assert!(!bb.contains_point(v(1, 2, 4)));
}

#[test]
fn aabb_grows_and_inflates() {
    let mut bb = Aabb::new();
    bb.expand_to_include(v(0, 0, 0));
    bb.expand_to_include(v(10, -4, 2));
    bb.expand_by(1);
    assert!(bb.contains_point(v(-1, -5, -1)));
    assert!(bb.contains_point(v(11, 1, 3)));
    assert!(!bb.contains_point(v(12, 0, 0)));
}

#[test]
fn aabb_uninitialized_ignores_inflation() {
    let mut bb = Aabb::new();
    bb.expand_by(5);
    assert!(!bb.contains_point(v(0, 0, 0)));
}

#[test]
fn aabbs_intersect_by_corner() {
    let mut a = Aabb::new();
    a.expand_to_include(v(0, 0, 0));
    a.expand_to_include(v(10, 10, 10));
    let mut b = Aabb::new();
    b.expand_to_include(v(9, 9, 9));
    b.expand_to_include(v(20, 20, 20));
    assert!(aabbs_intersect(&a, &b));
    let mut c = Aabb::new();
    c.expand_to_include(v(11, 0, 0));
    c.expand_to_include(v(20, 10, 10));
    assert!(!aabbs_intersect(&a, &c));
}

#[test]
fn hamilton_products_match_formulas() {
    let q = Quat::from_xyzw(1, 2, 3, 4);
    let p = partial_hamilton_product2(&q, &v(5, 6, 7));
    // x: w*vx + y*vz - z*vy; y: w*vy - x*vz + z*vx; z: w*vz + x*vy - y*vx
    assert_eq!(p.x, 4 * 5 + 2 * 7 - 3 * 6);
    assert_eq!(p.y, 4 * 6 - 1 * 7 + 3 * 5);
    assert_eq!(p.z, 4 * 7 + 1 * 6 - 2 * 5);
    assert_eq!(p.w, -(1 * 5) - 2 * 6 - 3 * 7);
    let r = partial_hamilton_product(&Quat::from_xyzw(1, 0, 0, 0), &Quat::from_xyzw(0, 0, 0, 1));
    assert_eq!(r, v(1, 0, 0));
}

#[test]
fn rotate_half_turn_about_x() {
    // A half turn about the x axis at scale 32768 negates y and z and
    // multiplies by the squared scale.
    let q = Quat::from_xyzw(32768, 0, 0, 0);
    let r = rotate_by_quat(&v(0, 3, 5), &q);
    let s2: i64 = 32768 * 32768;
    assert_eq!(r, v(0, -3 * s2, -5 * s2));
}

#[test]
fn max_collision_distance_sums_shapes() {
    let bullet = Capsule::new(30, 3);
    let enemy = Capsule::new(40, 8);
    // Half-heights 15 and 20 plus radii 3 and 8.
    assert_eq!(max_collision_distance(&bullet, &enemy), 46);
}

#[test]
fn plain_handles_carry_their_data() {
    let fb = FrameBuffer { framebuffer_id: 7, texture_id: 9 };
    assert_eq!(fb.framebuffer_id, 7);
    assert_eq!(fb.texture_id, 9);
    assert_eq!(CameraType::Game, CameraType::Game);
    assert!(CameraType::Floating != CameraType::TopDown);
    let clip = AudioSource::new(vec![1, 2, 3]);
    assert_eq!(clip.bytes, vec![1, 2, 3]);
}
