use boid_hand_detector::landmarks::leftmost_pair;
use boid_hand_detector::sorting::{key_of, sort_by_axis, Axis};
use boid_hand_detector::{HandLandmarks, Position};

fn positions(points: &[(u64, u64)]) -> Vec<Position> {
    points.iter().map(|&(x, y)| Position::new(x, y)).collect()
}

#[test]
fn sorts_along_either_axis() {
    let input = positions(&[(3, 9), (1, 7), (2, 8)]);
    assert_eq!(sort_by_axis(&input, Axis::X), positions(&[(1, 7), (2, 8), (3, 9)]));
    assert_eq!(sort_by_axis(&input, Axis::Y), positions(&[(1, 7), (2, 8), (3, 9)]));
    let crossed = positions(&[(3, 1), (1, 3), (2, 2)]);
    assert_eq!(sort_by_axis(&crossed, Axis::X), positions(&[(1, 3), (2, 2), (3, 1)]));
    assert_eq!(sort_by_axis(&crossed, Axis::Y), positions(&[(3, 1), (2, 2), (1, 3)]));
    assert_eq!(key_of(&Position::new(4, 5), Axis::X), 4);
    assert_eq!(key_of(&Position::new(4, 5), Axis::Y), 5);
}

#[test]
fn equal_coordinates_keep_their_order() {
    let input = positions(&[(5, 1), (3, 2), (5, 3), (3, 4), (5, 5), (1, 6)]);
    assert_eq!(
        sort_by_axis(&input, Axis::X),
        positions(&[(1, 6), (3, 2), (3, 4), (5, 1), (5, 3), (5, 5)])
    );
    let level = positions(&[(9, 0), (8, 0), (7, 0)]);
    assert_eq!(sort_by_axis(&level, Axis::Y), level);
}

#[test]
fn sorted_input_is_unchanged() {
    let input = positions(&[(1, 5), (1, 4), (2, 3), (9, 0)]);
    assert_eq!(sort_by_axis(&input, Axis::X), input);
    assert_eq!(sort_by_axis(&Vec::new(), Axis::X), Vec::new());
    let one = positions(&[(4, 4)]);
    assert_eq!(sort_by_axis(&one, Axis::Y), one);
}

#[test]
fn sorting_keeps_every_entry() {
    let input = positions(&[(9, 1), (0, 2), (9, 1), (4, 4), (0, 0), (u64::MAX, 3), (7, 7)]);
    for axis in [Axis::X, Axis::Y] {
        let sorted = sort_by_axis(&input, axis);
        assert_eq!(sorted.len(), input.len());
        for w in sorted.windows(2) {
            assert!(key_of(&w[0], axis) <= key_of(&w[1], axis));
        }
        for p in &input {
            let before = input.iter().filter(|q| *q == p).count();
            let after = sorted.iter().filter(|q| *q == p).count();
            assert_eq!(before, after);
        }
    }
}

#[test]
fn leftmost_pair_needs_two_candidates() {
    assert_eq!(leftmost_pair(&Vec::new()), None);
    assert_eq!(leftmost_pair(&positions(&[(1, 1)])), None);
    assert_eq!(
        leftmost_pair(&positions(&[(9, 1), (2, 2)])),
        Some(HandLandmarks::new(Position::new(2, 2), Position::new(9, 1)))
    );
}

#[test]
fn leftmost_pair_prefers_the_earlier_of_equals() {
    let found = leftmost_pair(&positions(&[(7, 0), (3, 1), (9, 2), (3, 3), (3, 4)])).unwrap();
    assert_eq!(found.thumb_tip, Position::new(3, 1));
    assert_eq!(found.index_tip, Position::new(3, 3));
}
