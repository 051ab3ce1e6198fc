//! The geometric strategy: fingertips among the convex hull vertices of the boundary.

use vstd::prelude::*;
use crate::fallback::{simple_landmark_detection, spec_fallback};
use crate::geometry::{Position, Vertex};
use crate::landmarks::{leftmost_pair, lemma_leftmost_pair_order, spec_leftmost_pair, HandLandmarks};
use crate::sorting::{lemma_stable_sort_properties, sort_by_axis, stable_sort, Axis};

verus! {

/// The number of topmost hull vertices among which the two landmarks are picked.
pub const TOP_CANDIDATES: usize = 5;

/// The number of hull vertices below which a boundary has no landmarks.
pub const MIN_HULL_VERTICES: usize = 3;

/// `p` is the place of a vertex of the contour.
pub open spec fn is_vertex_position(contour: Seq<Vertex>, p: Position) -> bool {
    exists|i: int| 0 <= i < contour.len() && (#[trigger] contour[i]).spec_position() == p
}

/// The contour vertices that the hull indices name, in the order of the hull; an index
/// that names no vertex is passed over.
pub open spec fn hull_points(contour: Seq<Vertex>, hull: Seq<i32>) -> Seq<Position>
    decreases hull.len(),
{
    if hull.len() == 0 {
        Seq::empty()
    } else {
        let front = hull_points(contour, hull.drop_last());
        let h = hull.last();
        if 0 <= h < contour.len() {
            front.push(contour[h as int].spec_position())
        } else {
            front
        }
    }
}

/// The `TOP_CANDIDATES` topmost of the fingertip candidates, from the top down.
pub open spec fn topmost_candidates(tips: Seq<Position>) -> Seq<Position> {
    let by_y = stable_sort(tips, Axis::Y);
    if by_y.len() <= TOP_CANDIDATES {
        by_y
    } else {
        by_y.take(TOP_CANDIDATES as int)
    }
}

/// What the geometric strategy finds on a boundary polygon, given the indices of its
/// convex hull and whether its convexity defects could be computed.
///
/// Nothing with fewer than three hull indices. Without defects, or with fewer than two
/// hull vertices, what the fallback strategy finds. Else the two leftmost of the topmost
/// hull vertices.
pub open spec fn spec_extract(
    contour: Seq<Vertex>,
    hull: Seq<i32>,
    defects_found: bool,
    separation_squared: u64,
) -> Option<HandLandmarks> {
    if hull.len() < MIN_HULL_VERTICES {
        None
    } else if !defects_found || hull_points(contour, hull).len() < 2 {
        spec_fallback(contour, separation_squared)
    } else {
        spec_leftmost_pair(topmost_candidates(hull_points(contour, hull)))
    }
}

/// Every hull point is the place of a contour vertex, and there are no more hull points
/// than hull indices.
pub proof fn lemma_hull_points(contour: Seq<Vertex>, hull: Seq<i32>)
    ensures
        hull_points(contour, hull).len() <= hull.len(),
        forall|i: int|
            0 <= i < hull_points(contour, hull).len() ==> is_vertex_position(
                contour,
                #[trigger] hull_points(contour, hull)[i],
            ),
    decreases hull.len(),
{
    if hull.len() > 0 {
        let front = hull_points(contour, hull.drop_last());
        lemma_hull_points(contour, hull.drop_last());
        let h = hull.last();
        if 0 <= h < contour.len() {
            let all = hull_points(contour, hull);
            assert forall|i: int| 0 <= i < all.len() implies is_vertex_position(
                contour,
                #[trigger] all[i],
            ) by {
                if i < front.len() {
                    assert(all[i] == front[i]);
                } else {
                    assert(contour[h as int].spec_position() == all[i]);
                }
            }
        }
    }
}

/// The topmost candidates are candidates.
pub proof fn lemma_topmost_candidates(tips: Seq<Position>)
    ensures
        topmost_candidates(tips).len() <= tips.len(),
        topmost_candidates(tips).len() <= TOP_CANDIDATES,
        tips.len() >= 2 ==> topmost_candidates(tips).len() >= 2,
        forall|i: int|
            0 <= i < topmost_candidates(tips).len() ==> tips.contains(
                #[trigger] topmost_candidates(tips)[i],
            ),
{
    let by_y = stable_sort(tips, Axis::Y);
    let top = topmost_candidates(tips);
    lemma_stable_sort_properties(tips, Axis::Y);
    assert forall|i: int| 0 <= i < top.len() implies tips.contains(#[trigger] top[i]) by {
        assert(top[i] == by_y[i]);
        assert(by_y.contains(by_y[i]));
        vstd::seq_lib::to_multiset_contains(by_y, by_y[i]);
        vstd::seq_lib::to_multiset_contains(tips, by_y[i]);
    }
}

/// Where the hull decides, the thumb tip is never right of the index tip, and it is left of
/// it unless both tips lie in one column.
pub proof fn lemma_hull_thumb_is_left_of_index(
    contour: Seq<Vertex>,
    hull: Seq<i32>,
    separation_squared: u64,
    landmarks: HandLandmarks,
)
    requires
        hull_points(contour, hull).len() >= 2,
        spec_extract(contour, hull, true, separation_squared) == Some(landmarks),
    ensures
        landmarks.thumb_tip.x <= landmarks.index_tip.x,
        landmarks.thumb_tip.x != landmarks.index_tip.x ==> landmarks.thumb_tip.x
            < landmarks.index_tip.x,
{
    lemma_topmost_candidates(hull_points(contour, hull));
    lemma_leftmost_pair_order(topmost_candidates(hull_points(contour, hull)));
}

/// Collects the contour vertices that the hull indices name.
pub fn collect_hull_points(contour: &Vec<Vertex>, hull_indices: &Vec<i32>) -> (tips: Vec<Position>)
    ensures
        tips@ == hull_points(contour@, hull_indices@),
{
    let mut tips: Vec<Position> = Vec::new();
    let mut i: usize = 0;
    while i < hull_indices.len()
        invariant
            i <= hull_indices@.len(),
            tips@ == hull_points(contour@, hull_indices@.take(i as int)),
        decreases hull_indices@.len() - i,
    {
        let h: i32 = hull_indices[i];
        proof {
            let next = hull_indices@.take(i + 1);
            assert(next.drop_last() =~= hull_indices@.take(i as int));
            assert(next.last() == h);
        }
        if h >= 0 && (h as usize) < contour.len() {
            tips.push(contour[h as usize].position());
        }
        i += 1;
    }
    assert(hull_indices@.take(hull_indices@.len() as int) =~= hull_indices@);
    tips
}

/// Finds thumb and index tip on a boundary polygon.
///
/// `hull_indices` are the indices into `contour` of its convex hull, `defects_found` says
/// whether the convexity defects of the contour against that hull could be computed, and
/// `separation_squared` is handed on to the fallback strategy. Reported landmarks are
/// places of contour vertices.
pub fn extract_hand_landmarks(
    contour: &Vec<Vertex>,
    hull_indices: &Vec<i32>,
    defects_found: bool,
    separation_squared: u64,
) -> (landmarks: Option<HandLandmarks>)
    ensures
        landmarks == spec_extract(contour@, hull_indices@, defects_found, separation_squared),
        landmarks matches Some(l) ==> {
            &&& is_vertex_position(contour@, l.thumb_tip)
            &&& is_vertex_position(contour@, l.index_tip)
        },
        landmarks matches Some(l) ==> (defects_found && hull_points(contour@, hull_indices@).len()
            >= 2 ==> l.thumb_tip.x <= l.index_tip.x),
{
    if hull_indices.len() < MIN_HULL_VERTICES {
        return None;
    }
    if !defects_found {
        return simple_landmark_detection(contour, separation_squared);
    }
    let tips = collect_hull_points(contour, hull_indices);
    if tips.len() < 2 {
        return simple_landmark_detection(contour, separation_squared);
    }
    let mut by_y = sort_by_axis(&tips, Axis::Y);
    by_y.truncate(TOP_CANDIDATES);
    proof {
        let sorted = stable_sort(tips@, Axis::Y);
        assert(by_y@ =~= topmost_candidates(tips@));
        lemma_hull_points(contour@, hull_indices@);
        lemma_topmost_candidates(tips@);
        lemma_leftmost_pair_order(by_y@);
        let l = spec_leftmost_pair(by_y@).unwrap();
        assert(tips@.contains(l.thumb_tip));
        assert(tips@.contains(l.index_tip));
    }
    leftmost_pair(&by_y)
}

} // verus!
