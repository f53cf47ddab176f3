//! Tests for the fixed-point geometry: cross products, segment
//! intersection, point-in-polygon, and the integer square root.

use rage_platformer::geometry::{cross_of, point_in_polygon, segments_intersect, Vec2};
use rage_platformer::num::isqrt;

fn v(x: i64, y: i64) -> Vec2 {
    Vec2 { x, y }
}

#[test]
fn cross_of_matches_hand_computation() {
    // (3, 4) x (5, 6) = 3*6 - 4*5 = -2, scaled values included.
    assert_eq!(cross_of(v(3, 4), v(5, 6)), -2);
    assert_eq!(cross_of(v(1000, 0), v(0, 1000)), 1_000_000);
    assert_eq!(cross_of(v(0, 1000), v(1000, 0)), -1_000_000);
    assert_eq!(cross_of(v(2, 2), v(4, 4)), 0);
}

#[test]
fn crossing_segments_intersect() {
    // A plus sign: the two bars cross at the origin.
    assert!(segments_intersect(v(-1000, 0), v(1000, 0), v(0, -1000), v(0, 1000)));
    // Sharing only an endpoint still counts: t and u are allowed to be 0 or 1.
    assert!(segments_intersect(v(0, 0), v(1000, 0), v(1000, 0), v(1000, 1000)));
}

#[test]
fn distant_segments_do_not_intersect() {
    assert!(!segments_intersect(v(0, 0), v(1000, 0), v(0, 500), v(1000, 1500)));
    assert!(!segments_intersect(v(0, 0), v(1000, 0), v(5000, 0), v(5000, 1000)));
}

#[test]
fn collinear_overlapping_segments_report_no_intersection() {
    // Parallel directions give a zero cross product and the test answers
    // false, even though the segments overlap.
    assert!(!segments_intersect(v(0, 0), v(2000, 0), v(1000, 0), v(3000, 0)));
    assert!(!segments_intersect(v(0, 0), v(0, 2000), v(0, 1000), v(0, 3000)));
}

#[test]
fn point_in_unit_square() {
    // The unit square, in milliunits, walked in the order origin, up,
    // across, down.
    let square = vec![v(0, 0), v(0, 1000), v(1000, 1000), v(1000, 0)];
    assert!(point_in_polygon(v(500, 500), &square));
    assert!(!point_in_polygon(v(2000, 2000), &square));
    assert!(!point_in_polygon(v(-500, 500), &square));
}

#[test]
fn point_in_pentagon() {
    let pentagon = vec![
        v(775_000, -80_000),
        v(775_000, 250_000),
        v(1_075_000, 250_000),
        v(1_075_000, 0),
        v(975_000, -80_000),
    ];
    assert!(point_in_polygon(v(900_000, 100_000), &pentagon));
    assert!(!point_in_polygon(v(700_000, 100_000), &pentagon));
    assert!(!point_in_polygon(v(1_050_000, -70_000), &pentagon));
}

#[test]
fn isqrt_exact_values() {
    assert_eq!(isqrt(0), 0);
    assert_eq!(isqrt(1), 1);
    assert_eq!(isqrt(2), 1);
    assert_eq!(isqrt(3), 1);
    assert_eq!(isqrt(4), 2);
    assert_eq!(isqrt(99), 9);
    assert_eq!(isqrt(100), 10);
    assert_eq!(isqrt(10_000_000_000), 100_000);
    assert_eq!(isqrt(u64::MAX), 4_294_967_295);
}
