use boid_hand_detector::fallback::simple_landmark_detection;
use boid_hand_detector::geometric::{collect_hull_points, extract_hand_landmarks};
use boid_hand_detector::polygon::{polygon_bounds, polygon_twice_area, select_contour, Bounds};
use boid_hand_detector::{HandLandmarks, HandTracker, Position, Vertex};

fn polygon(points: &[(u32, u32)]) -> Vec<Vertex> {
    points.iter().map(|&(x, y)| Vertex::new(x, y)).collect()
}

fn landmarks(thumb: (u64, u64), index: (u64, u64)) -> HandLandmarks {
    HandLandmarks::new(Position::new(thumb.0, thumb.1), Position::new(index.0, index.1))
}

/// A palm with two fingers that end in (120, 100) and (280, 90).
fn hand() -> Vec<Vertex> {
    polygon(&[
        (100, 300),
        (120, 100),
        (140, 200),
        (200, 210),
        (260, 200),
        (280, 90),
        (300, 300),
    ])
}

/// A rectangle of `width` by `height` with its corner at the origin.
fn rectangle(width: u32, height: u32) -> Vec<Vertex> {
    polygon(&[(0, 0), (width, 0), (width, height), (0, height)])
}

#[test]
fn area_of_simple_polygons() {
    assert_eq!(polygon_twice_area(&rectangle(10, 10)), 200);
    assert_eq!(polygon_twice_area(&polygon(&[(0, 0), (4, 0), (0, 3)])), 12);
    // The orientation does not matter.
    assert_eq!(polygon_twice_area(&polygon(&[(0, 3), (4, 0), (0, 0)])), 12);
    assert_eq!(polygon_twice_area(&polygon(&[(0, 10), (10, 10), (10, 0), (0, 0)])), 200);
    // Nor does the vertex at which the polygon begins.
    assert_eq!(polygon_twice_area(&polygon(&[(10, 0), (10, 10), (0, 10), (0, 0)])), 200);
    assert_eq!(
        polygon_twice_area(&polygon(&[
            (100, 300),
            (100, 200),
            (120, 100),
            (140, 200),
            (200, 210),
            (260, 200),
            (280, 90),
            (300, 200),
            (300, 300),
        ])),
        47200
    );
}

#[test]
fn area_of_degenerate_polygons_is_zero() {
    assert_eq!(polygon_twice_area(&Vec::new()), 0);
    assert_eq!(polygon_twice_area(&polygon(&[(5, 5)])), 0);
    assert_eq!(polygon_twice_area(&polygon(&[(0, 0), (9, 9)])), 0);
    assert_eq!(polygon_twice_area(&polygon(&[(0, 0), (5, 5), (10, 10)])), 0);
}

#[test]
fn area_of_the_largest_square() {
    let m = u32::MAX;
    let side = m as u128;
    assert_eq!(polygon_twice_area(&rectangle(m, m)), 2 * side * side);
}

#[test]
fn bounds_of_a_polygon() {
    assert_eq!(polygon_bounds(&Vec::new()), None);
    assert_eq!(
        polygon_bounds(&hand()),
        Some(Bounds { min_x: 100, max_x: 300, min_y: 90, max_y: 300 })
    );
    let dot = polygon_bounds(&polygon(&[(7, 9)])).unwrap();
    assert_eq!(dot, Bounds { min_x: 7, max_x: 7, min_y: 9, max_y: 9 });
    assert!(dot.is_degenerate());
    assert!(polygon_bounds(&polygon(&[(0, 0), (5, 0)])).unwrap().is_degenerate());
    assert!(polygon_bounds(&polygon(&[(0, 0), (0, 5)])).unwrap().is_degenerate());
    assert!(!polygon_bounds(&hand()).unwrap().is_degenerate());
}

#[test]
fn largest_contour_is_selected() {
    let contours = vec![rectangle(100, 60), rectangle(200, 100), rectangle(50, 50)];
    assert_eq!(select_contour(&contours, 5000), Some(1));
    assert_eq!(HandTracker::new().select_region(&contours), Some(1));
    // Of two contours of the largest area the first is selected.
    let twins = vec![rectangle(10, 10), rectangle(200, 100), rectangle(100, 200)];
    assert_eq!(select_contour(&twins, 5000), Some(1));
}

#[test]
fn contour_below_the_minimum_area_is_rejected() {
    let tracker = HandTracker::new();
    assert_eq!(tracker.select_region(&Vec::new()), None);
    // 4900 squared pixels.
    assert_eq!(tracker.select_region(&vec![rectangle(70, 70)]), None);
    // 4999.5 squared pixels: a 101 by 99 triangle.
    assert_eq!(tracker.select_region(&vec![polygon(&[(0, 0), (101, 0), (0, 99)])]), None);
    // 5000 squared pixels are not below the minimum of 5000.
    assert_eq!(tracker.select_region(&vec![rectangle(100, 50)]), Some(0));
    assert_eq!(tracker.select_region(&vec![rectangle(71, 71)]), Some(0));
    let lenient = HandTracker::new().with_min_contour_area(4900);
    assert_eq!(lenient.select_region(&vec![rectangle(70, 70)]), Some(0));
    let strict = HandTracker::new().with_min_contour_area(5001);
    assert_eq!(strict.select_region(&vec![rectangle(100, 50)]), None);
}

#[test]
fn hull_points_follow_the_hull() {
    let tips = collect_hull_points(&hand(), &vec![6, 5, 1, 0]);
    assert_eq!(
        tips,
        vec![
            Position::new(300, 300),
            Position::new(280, 90),
            Position::new(120, 100),
            Position::new(100, 300),
        ]
    );
    // An index that names no vertex is passed over.
    let some = collect_hull_points(&hand(), &vec![-1, 7, 5, i32::MAX, i32::MIN, 0]);
    assert_eq!(some, vec![Position::new(280, 90), Position::new(100, 300)]);
    assert_eq!(collect_hull_points(&Vec::new(), &vec![0, 1, 2]), Vec::new());
}

#[test]
fn two_leftmost_of_the_topmost_hull_vertices() {
    let found = extract_hand_landmarks(&hand(), &vec![0, 1, 5, 6], true, 30);
    // From the top: (280, 90), (120, 100), (100, 300), (300, 300).
    assert_eq!(found, Some(landmarks((100, 300), (120, 100))));
    assert_eq!(HandTracker::new().extract_hand_landmarks(&hand(), &vec![0, 1, 5, 6], true), found);
    // The order of the hull decides nothing but ties.
    assert_eq!(extract_hand_landmarks(&hand(), &vec![6, 5, 1, 0], true, 30), found);
}

#[test]
fn only_the_five_topmost_hull_vertices_count() {
    let contour = polygon(&[
        (50, 10),
        (40, 10),
        (30, 10),
        (20, 10),
        (10, 10),
        (5, 10),
        (0, 50),
        (60, 50),
    ]);
    // Six vertices share the top row: the first five of the hull are kept.
    let found = extract_hand_landmarks(&contour, &vec![0, 1, 2, 3, 4, 5, 6, 7], true, 30);
    assert_eq!(found, Some(landmarks((10, 10), (20, 10))));
    let reversed = extract_hand_landmarks(&contour, &vec![7, 6, 5, 4, 3, 2, 1, 0], true, 30);
    assert_eq!(reversed, Some(landmarks((5, 10), (10, 10))));
}

#[test]
fn hull_vertices_in_one_column_keep_hull_order() {
    let contour = polygon(&[
        (100, 300),
        (100, 200),
        (120, 100),
        (140, 200),
        (200, 210),
        (260, 200),
        (280, 90),
        (300, 200),
        (300, 300),
    ]);
    let found = extract_hand_landmarks(&contour, &vec![0, 1, 2, 6, 7, 8], true, 30);
    assert_eq!(found, Some(landmarks((100, 200), (100, 300))));
}

#[test]
fn fewer_than_three_hull_indices_give_nothing() {
    assert_eq!(extract_hand_landmarks(&hand(), &Vec::new(), true, 30), None);
    assert_eq!(extract_hand_landmarks(&hand(), &vec![1, 5], true, 30), None);
    assert_eq!(extract_hand_landmarks(&hand(), &vec![1, 5], false, 30), None);
}

#[test]
fn missing_defects_lead_to_the_fallback() {
    let found = extract_hand_landmarks(&hand(), &vec![0, 1, 5, 6], false, 30);
    assert_eq!(found, Some(landmarks((280, 90), (120, 100))));
    assert_eq!(found, simple_landmark_detection(&hand(), 30));
    assert_eq!(found, HandTracker::new().simple_landmark_detection(&hand()));
}

#[test]
fn too_few_hull_vertices_lead_to_the_fallback() {
    // Three hull indices, one of which names a vertex.
    let found = extract_hand_landmarks(&hand(), &vec![-1, 99, 5], true, 30);
    assert_eq!(found, Some(landmarks((280, 90), (120, 100))));
    let none = extract_hand_landmarks(&hand(), &vec![-1, 99, 100], true, 30);
    assert_eq!(none, found);
}

#[test]
fn fallback_takes_the_topmost_and_the_next_apart() {
    assert_eq!(
        simple_landmark_detection(&rectangle(10, 10), 30),
        Some(landmarks((0, 0), (10, 0)))
    );
    // The thumb tip may lie right of the index tip.
    let slanted = polygon(&[(100, 0), (0, 1), (0, 100), (100, 100)]);
    assert_eq!(simple_landmark_detection(&slanted, 30), Some(landmarks((100, 0), (0, 1))));
}

#[test]
fn fallback_separation_is_strict() {
    // (5, 2) lies at squared distance 29 from the topmost vertex (0, 0).
    let small = polygon(&[(0, 0), (5, 0), (5, 2), (0, 2)]);
    // No vertex lies apart: the first vertex stands in.
    assert_eq!(simple_landmark_detection(&small, 30), Some(landmarks((0, 0), (0, 0))));
    assert_eq!(simple_landmark_detection(&small, 29), Some(landmarks((0, 0), (0, 0))));
    assert_eq!(simple_landmark_detection(&small, 28), Some(landmarks((0, 0), (5, 2))));
    assert_eq!(simple_landmark_detection(&small, 24), Some(landmarks((0, 0), (5, 0))));
    assert_eq!(simple_landmark_detection(&small, 3), Some(landmarks((0, 0), (5, 0))));
    let configured = HandTracker::new().with_separation_squared(28);
    assert_eq!(configured.simple_landmark_detection(&small), Some(landmarks((0, 0), (5, 2))));
}

#[test]
fn fallback_rejects_a_polygon_without_area() {
    assert_eq!(simple_landmark_detection(&Vec::new(), 30), None);
    assert_eq!(simple_landmark_detection(&polygon(&[(0, 0), (5, 5), (10, 10)]), 30), None);
    assert_eq!(simple_landmark_detection(&polygon(&[(0, 0), (50, 0)]), 30), None);
    let line = polygon(&[(0, 0), (5, 5), (10, 10)]);
    assert_eq!(extract_hand_landmarks(&line, &vec![0, 1, 2], false, 30), None);
}

#[test]
fn landmarks_are_contour_vertices() {
    let contour = hand();
    for hull in [vec![0, 1, 5, 6], vec![6, 5, 1, 0], vec![3, 2, 4], vec![-1, 0, 6]] {
        for defects in [true, false] {
            if let Some(found) = extract_hand_landmarks(&contour, &hull, defects, 30) {
                for tip in [found.thumb_tip, found.index_tip] {
                    assert!(contour.iter().any(|v| v.position() == tip));
                }
                if defects && hull.iter().filter(|&&h| h >= 0).count() >= 2 {
                    assert!(found.thumb_tip.x <= found.index_tip.x);
                }
            }
        }
    }
}

/// A palm with two fingers whose tips lie `distance` apart; each tip has three vertices.
fn two_fingered(distance: u32) -> (Vec<Vertex>, Vec<i32>) {
    let left = 320 - distance / 2;
    let right = 320 + distance / 2;
    let contour = polygon(&[
        (100, 400),
        (left - 5, 105),
        (left, 100),
        (left + 5, 105),
        (320, 300),
        (right - 5, 105),
        (right, 100),
        (right + 5, 105),
        (540, 400),
    ]);
    (contour, vec![0, 1, 2, 3, 5, 6, 7, 8])
}

#[test]
fn hull_strategy_on_spreading_fingers() {
    let mut distances = Vec::new();
    for spread in [50u32, 100, 200] {
        let (contour, hull) = two_fingered(spread);
        let found = extract_hand_landmarks(&contour, &hull, true, 30).unwrap();
        // The five topmost hull vertices are the two tips and three of their shoulders;
        // the two leftmost of them lie on the left finger.
        let left = (320 - spread / 2) as u64;
        assert_eq!(found, landmarks((left - 5, 105), (left, 100)));
        assert!(found.thumb_tip.x < found.index_tip.x);
        distances.push(found.pinch_distance());
    }
    assert_eq!(distances, vec![7, 7, 7]);
    assert!(distances[0] <= distances[1] && distances[1] <= distances[2]);
}

#[test]
fn fallback_strategy_on_spreading_fingers() {
    let mut distances = Vec::new();
    for spread in [50u32, 100, 200] {
        let (contour, hull) = two_fingered(spread);
        let found = extract_hand_landmarks(&contour, &hull, false, 30).unwrap();
        let left = (320 - spread / 2) as u64;
        let right = (320 + spread / 2) as u64;
        // The topmost vertex is the left tip; the right tip is as high and lies apart.
        assert_eq!(found, landmarks((left, 100), (right, 100)));
        distances.push(found.pinch_distance());
    }
    assert_eq!(distances, vec![50, 100, 200]);
}
