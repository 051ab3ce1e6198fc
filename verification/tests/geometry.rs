use boid_hand_detector::geometry::{gap, halfway, hypot_floor, within_radius};
use boid_hand_detector::{HandLandmarks, Point, Position, Vertex};

#[test]
fn test_point_distance() {
    let origin = Point::new(0, 0);
    let other = Point::new(3, 4);
    assert_eq!(origin.distance_to(&other), 5);
}

#[test]
fn test_position_distance() {
    let origin = Position::new(0, 0);
    let other = Position::new(3, 4);
    assert_eq!(origin.distance_to(&other), 5);
}

#[test]
fn test_pinch_distance() {
    let landmarks = HandLandmarks::new(Position::new(0, 0), Position::new(30, 40));
    assert_eq!(landmarks.pinch_distance(), 50);
}

#[test]
fn pinch_distance_does_not_depend_on_direction() {
    let a = Position::new(30, 40);
    let b = Position::new(0, 0);
    assert_eq!(HandLandmarks::new(a, b).pinch_distance(), 50);
    assert_eq!(HandLandmarks::new(b, a).pinch_distance(), 50);
    assert_eq!(HandLandmarks::new(a, a).pinch_distance(), 0);
    assert_eq!(a.distance_to(&b), b.distance_to(&a));
}

#[test]
fn distance_is_rounded_down() {
    // sqrt(2) = 1.41, sqrt(8) = 2.83, sqrt(24) = 4.90, sqrt(25) = 5.
    assert_eq!(hypot_floor(1, 1), 1);
    assert_eq!(hypot_floor(2, 2), 2);
    assert_eq!(Position::new(0, 0).distance_to(&Position::new(2, 4)), 4);
    assert_eq!(hypot_floor(0, 0), 0);
    assert_eq!(hypot_floor(0, 7), 7);
    assert_eq!(hypot_floor(7, 0), 7);
    assert_eq!(hypot_floor(5, 12), 13);
    assert_eq!(hypot_floor(12, 5), 13);
    assert_eq!(hypot_floor(9, 1), 9);
    assert_eq!(hypot_floor(20, 21), 29);
    assert_eq!(hypot_floor(20, 20), 28);
}

#[test]
fn distance_between_far_corners() {
    let m = u64::MAX;
    // floor(sqrt(2) * (2^64 - 1))
    let r = hypot_floor(m, m);
    assert_eq!(r, 26087635650665564423);
    assert_eq!(hypot_floor(m, 0), m as u128);
    assert_eq!(hypot_floor(0, m), m as u128);
    assert_eq!(hypot_floor(m, 1), m as u128);
    let far = Position::new(0, 0).distance_to(&Position::new(m, m));
    assert_eq!(far, r);
    assert_eq!(Point::new(usize::MAX, 0).distance_to(&Point::new(0, 0)), usize::MAX as u128);
    // 3-4-5 scaled by 2^60.
    let k = 1u64 << 60;
    assert_eq!(hypot_floor(3 * k, 4 * k), 5 * (k as u128));
}

#[test]
fn within_radius_is_strict() {
    assert!(within_radius(0, 0, 3, 4, 6));
    assert!(!within_radius(0, 0, 3, 4, 5));
    assert!(!within_radius(0, 0, 3, 4, 0));
    assert!(!within_radius(7, 7, 7, 7, 0));
    assert!(within_radius(7, 7, 7, 7, 1));
    assert!(within_radius(3, 4, 0, 0, 6));
    assert!(!within_radius(0, 0, u64::MAX, u64::MAX, u64::MAX));
    assert!(within_radius(0, 0, u64::MAX - 1, 0, u64::MAX));
    // 21^2 + 21^2 = 882 < 900 = 30^2, 22^2 + 21^2 = 925.
    assert!(Point::new(100, 100).is_within(&Point::new(121, 79), 30));
    assert!(!Point::new(100, 100).is_within(&Point::new(122, 79), 30));
    assert!(Position::new(10, 10).is_within(&Position::new(13, 14), 6));
    assert!(!Position::new(10, 10).is_within(&Position::new(13, 14), 5));
}

#[test]
fn gap_is_the_absolute_difference() {
    assert_eq!(gap(3, 10), 7);
    assert_eq!(gap(10, 3), 7);
    assert_eq!(gap(5, 5), 0);
    assert_eq!(gap(0, u64::MAX), u64::MAX);
}

#[test]
fn midpoint_rounds_down() {
    assert_eq!(halfway(3, 4), 3);
    assert_eq!(halfway(4, 3), 3);
    assert_eq!(halfway(4, 4), 4);
    assert_eq!(halfway(0, 0), 0);
    assert_eq!(halfway(usize::MAX, usize::MAX), usize::MAX);
    assert_eq!(halfway(usize::MAX, usize::MAX - 1), usize::MAX - 1);
    assert_eq!(halfway(0, usize::MAX), usize::MAX / 2);
    assert_eq!(Point::new(70, 40).midpoint(&Point::new(71, 41)), Point::new(70, 40));
    assert_eq!(Point::new(10, 20).midpoint(&Point::new(20, 10)), Point::new(15, 15));
}

#[test]
fn vertex_distance_and_position() {
    let a = Vertex::new(0, 0);
    let b = Vertex::new(5, 2);
    assert_eq!(a.distance_squared(&b), 29);
    assert_eq!(b.distance_squared(&a), 29);
    let far = Vertex::new(u32::MAX, u32::MAX);
    assert_eq!(a.distance_squared(&far), 2 * (u32::MAX as u128) * (u32::MAX as u128));
    assert_eq!(b.position(), Position::new(5, 2));
    assert_eq!(far.position(), Position::new(u32::MAX as u64, u32::MAX as u64));
}

#[test]
fn pinch_threshold_is_strict() {
    let landmarks = HandLandmarks::new(Position::new(100, 100), Position::new(130, 140));
    assert!(landmarks.is_pinched(51));
    assert!(!landmarks.is_pinched(50));
    assert!(!landmarks.is_pinched(0));
}
