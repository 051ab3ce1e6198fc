//! The tracker: hand landmarks from the boundary contours of a skin mask.
//!
//! Finding the contours of a mask and the convex hull of a contour is left to the caller's
//! image library. The tracker makes the decisions in between: which contour is the hand,
//! and which of its vertices are the landmarks.

use vstd::prelude::*;
use crate::fallback::{simple_landmark_detection, spec_fallback, DEFAULT_SEPARATION_SQUARED};
use crate::geometric::{extract_hand_landmarks, hull_points, is_vertex_position, spec_extract};
use crate::geometry::Vertex;
use crate::landmarks::HandLandmarks;
use crate::polygon::{select_contour, spec_select_contour, twice_area};

verus! {

/// The smallest area in squared pixels taken for a hand, unless configured otherwise.
pub const DEFAULT_MIN_CONTOUR_AREA: u64 = 5000;

/// Finds the landmarks of a hand on the contours of a skin mask.
#[derive(Debug, Clone, Copy, PartialEq, Eq, Structural)]
pub struct HandTracker {
    min_contour_area: u64,
    separation_squared: u64,
}

impl HandTracker {
    /// The area below which a contour is no hand.
    pub closed spec fn min_contour_area(&self) -> u64 {
        self.min_contour_area
    }

    /// The squared distance that the fallback strategy keeps between its two landmarks.
    pub closed spec fn separation_squared(&self) -> u64 {
        self.separation_squared
    }

    /// A tracker with the default configuration: an area of at least 5000 squared pixels,
    /// and a squared separation of more than 30.
    pub fn new() -> (tracker: Self)
        ensures
            tracker.min_contour_area() == DEFAULT_MIN_CONTOUR_AREA,
            tracker.separation_squared() == DEFAULT_SEPARATION_SQUARED,
    {
        Self {
            min_contour_area: DEFAULT_MIN_CONTOUR_AREA,
            separation_squared: DEFAULT_SEPARATION_SQUARED,
        }
    }

    /// The same tracker with another minimum area.
    pub fn with_min_contour_area(self, min_area: u64) -> (tracker: Self)
        ensures
            tracker.min_contour_area() == min_area,
            tracker.separation_squared() == self.separation_squared(),
    {
        Self { min_contour_area: min_area, ..self }
    }

    /// The same tracker with another separation for the fallback strategy.
    pub fn with_separation_squared(self, separation_squared: u64) -> (tracker: Self)
        ensures
            tracker.min_contour_area() == self.min_contour_area(),
            tracker.separation_squared() == separation_squared,
    {
        Self { separation_squared, ..self }
    }

    /// Selects the contour that is taken for the hand: the first of the largest, unless
    /// its area is below the minimum.
    pub fn select_region(&self, contours: &Vec<Vec<Vertex>>) -> (chosen: Option<usize>)
        ensures
            spec_select_contour(contours@, self.min_contour_area(), chosen),
    {
        select_contour(contours, self.min_contour_area)
    }

    /// Finds the landmarks on the selected contour, given the indices of its convex hull
    /// and whether its convexity defects could be computed.
    pub fn extract_hand_landmarks(
        &self,
        contour: &Vec<Vertex>,
        hull_indices: &Vec<i32>,
        defects_found: bool,
    ) -> (landmarks: Option<HandLandmarks>)
        ensures
            landmarks == spec_extract(
                contour@,
                hull_indices@,
                defects_found,
                self.separation_squared(),
            ),
            landmarks matches Some(l) ==> {
                &&& is_vertex_position(contour@, l.thumb_tip)
                &&& is_vertex_position(contour@, l.index_tip)
            },
            landmarks matches Some(l) ==> (defects_found && hull_points(
                contour@,
                hull_indices@,
            ).len() >= 2 ==> l.thumb_tip.x <= l.index_tip.x),
    {
        extract_hand_landmarks(contour, hull_indices, defects_found, self.separation_squared)
    }

    /// Finds the landmarks on the selected contour by the fallback strategy.
    pub fn simple_landmark_detection(&self, contour: &Vec<Vertex>) -> (landmarks: Option<
        HandLandmarks,
    >)
        ensures
            landmarks == spec_fallback(contour@, self.separation_squared()),
            landmarks is Some <==> twice_area(contour@) != 0,
            landmarks matches Some(l) ==> {
                &&& is_vertex_position(contour@, l.thumb_tip)
                &&& is_vertex_position(contour@, l.index_tip)
            },
    {
        simple_landmark_detection(contour, self.separation_squared)
    }
}

impl Default for HandTracker {
    fn default() -> (tracker: Self)
        ensures
            tracker.min_contour_area() == DEFAULT_MIN_CONTOUR_AREA,
            tracker.separation_squared() == DEFAULT_SEPARATION_SQUARED,
    {
        Self::new()
    }
}

/// Landmarks on a contour whose vertices lie inside a frame lie inside that frame.
pub proof fn lemma_landmarks_inside_frame(
    contour: Seq<Vertex>,
    landmarks: HandLandmarks,
    width: int,
    height: int,
)
    requires
        is_vertex_position(contour, landmarks.thumb_tip),
        is_vertex_position(contour, landmarks.index_tip),
        forall|i: int| 0 <= i < contour.len() ==> (#[trigger] contour[i]).x < width && contour[i].y < height,
    ensures
        0 <= landmarks.thumb_tip.x < width,
        0 <= landmarks.thumb_tip.y < height,
        0 <= landmarks.index_tip.x < width,
        0 <= landmarks.index_tip.y < height,
{
}

} // verus!
