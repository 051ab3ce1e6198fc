//! The two landmarks of a detected hand.

use vstd::prelude::*;
use crate::geometry::{is_floor_sqrt, lemma_floor_sqrt_unique, square, Position};
use crate::sorting::{lemma_stable_sort_properties, sort_by_axis, stable_sort, Axis};

verus! {

/// The tips of thumb and index finger, in the pixel space of the frame.
#[derive(Debug, Clone, Copy, PartialEq, Eq, Structural)]
pub struct HandLandmarks {
    pub thumb_tip: Position,
    pub index_tip: Position,
}

impl HandLandmarks {
    /// The landmarks with the given tips.
    pub fn new(thumb_tip: Position, index_tip: Position) -> (landmarks: Self)
        ensures
            landmarks.thumb_tip == thumb_tip,
            landmarks.index_tip == index_tip,
    {
        Self { thumb_tip, index_tip }
    }

    /// The squared distance between the two tips.
    pub open spec fn pinch_distance_squared(self) -> int {
        self.thumb_tip.dist_sq(self.index_tip)
    }

    /// The distance between the two tips, rounded down to whole pixels.
    pub fn pinch_distance(&self) -> (d: u128)
        ensures
            is_floor_sqrt(d as int, self.pinch_distance_squared()),
    {
        self.thumb_tip.distance_to(&self.index_tip)
    }

    /// Whether the two tips are closer to each other than `threshold` pixels.
    pub fn is_pinched(&self, threshold: u64) -> (pinched: bool)
        ensures
            pinched == (self.pinch_distance_squared() < square(threshold as int)),
    {
        self.thumb_tip.is_within(&self.index_tip, threshold)
    }
}

/// Where the two tips are a whole number `r` of pixels apart, the rounded distance is `r`.
pub proof fn lemma_whole_pinch_distance(landmarks: HandLandmarks, d: int, r: int)
    requires
        is_floor_sqrt(d, landmarks.pinch_distance_squared()),
        0 <= r,
        landmarks.pinch_distance_squared() == square(r),
    ensures
        d == r,
{
    crate::geometry::lemma_square_strictly_monotonic(r, r + 1);
    lemma_floor_sqrt_unique(d, r, landmarks.pinch_distance_squared());
}

/// The two leftmost of the candidates: the thumb tip is the leftmost, the index tip the next
/// one to the right; among candidates in one column the earlier one counts as further left.
/// With fewer than two candidates there are no landmarks.
pub open spec fn spec_leftmost_pair(candidates: Seq<Position>) -> Option<HandLandmarks> {
    if candidates.len() < 2 {
        None
    } else {
        let by_x = stable_sort(candidates, Axis::X);
        Some(HandLandmarks { thumb_tip: by_x[0], index_tip: by_x[1] })
    }
}

/// Picks thumb and index tip from the candidates.
pub fn leftmost_pair(candidates: &Vec<Position>) -> (landmarks: Option<HandLandmarks>)
    ensures
        landmarks == spec_leftmost_pair(candidates@),
        landmarks is Some <==> candidates@.len() >= 2,
{
    if candidates.len() < 2 {
        return None;
    }
    let by_x = sort_by_axis(candidates, Axis::X);
    Some(HandLandmarks::new(by_x[0], by_x[1]))
}

/// The thumb tip of a leftmost pair is never right of the index tip, and both tips are
/// among the candidates.
pub proof fn lemma_leftmost_pair_order(candidates: Seq<Position>)
    requires
        candidates.len() >= 2,
    ensures
        spec_leftmost_pair(candidates) matches Some(l) && {
            &&& l.thumb_tip.x <= l.index_tip.x
            &&& candidates.contains(l.thumb_tip)
            &&& candidates.contains(l.index_tip)
            &&& forall|i: int| 0 <= i < candidates.len() ==> l.thumb_tip.x <= (#[trigger] candidates[i]).x
        },
{
    let by_x = stable_sort(candidates, Axis::X);
    lemma_stable_sort_properties(candidates, Axis::X);
    assert(by_x.contains(by_x[0]));
    assert(by_x.contains(by_x[1]));
    vstd::seq_lib::to_multiset_contains(by_x, by_x[0]);
    vstd::seq_lib::to_multiset_contains(candidates, by_x[0]);
    vstd::seq_lib::to_multiset_contains(by_x, by_x[1]);
    vstd::seq_lib::to_multiset_contains(candidates, by_x[1]);
    assert(crate::sorting::key(by_x[0], Axis::X) <= crate::sorting::key(by_x[1], Axis::X));
    assert forall|i: int| 0 <= i < candidates.len() implies by_x[0].x <= (#[trigger] candidates[i]).x by {
        assert(candidates.contains(candidates[i]));
        vstd::seq_lib::to_multiset_contains(by_x, candidates[i]);
        vstd::seq_lib::to_multiset_contains(candidates, candidates[i]);
        assert(by_x.contains(candidates[i]));
        let j = choose|j: int| 0 <= j < by_x.len() && by_x[j] == candidates[i];
        assert(crate::sorting::key(by_x[0], Axis::X) <= crate::sorting::key(by_x[j], Axis::X));
    }
}

} // verus!
