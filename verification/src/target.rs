//! What to tell the consumer of the pointing signal, frame after frame.

use vstd::prelude::*;
use crate::geometry::{square, Position};
use crate::landmarks::HandLandmarks;

verus! {

/// The distance in pixels below which a new target is not worth sending, unless configured
/// otherwise.
pub const DEFAULT_MOVE_THRESHOLD: u64 = 5;

/// What to send to the consumer after a frame.
#[derive(Debug, Clone, Copy, PartialEq, Eq, Structural)]
pub enum TargetUpdate {
    /// Nothing: the consumer's target stands.
    Keep,
    /// The new target.
    Move(Position),
    /// That there is no target any more.
    Clear,
}

/// Remembers the target that the consumer holds, and decides what to send next.
#[derive(Debug, Clone, Copy, PartialEq, Eq, Structural)]
pub struct TargetNotifier {
    pub last_position: Option<Position>,
    pub move_threshold: u64,
}

/// The update that a detection calls for, when the consumer holds `last`.
///
/// With a hand the target is its index tip; it is sent unless the consumer holds a target
/// closer to it than `threshold`. Without a hand the target is cleared if the consumer
/// holds one.
pub open spec fn spec_plan(
    last: Option<Position>,
    threshold: u64,
    detection: Option<HandLandmarks>,
) -> TargetUpdate {
    match detection {
        Some(landmarks) => match last {
            Some(held) => if landmarks.index_tip.dist_sq(held) < square(threshold as int) {
                TargetUpdate::Keep
            } else {
                TargetUpdate::Move(landmarks.index_tip)
            },
            None => TargetUpdate::Move(landmarks.index_tip),
        },
        None => match last {
            Some(_) => TargetUpdate::Clear,
            None => TargetUpdate::Keep,
        },
    }
}

/// The target that the consumer holds once `update` has reached it.
pub open spec fn spec_confirm(last: Option<Position>, update: TargetUpdate) -> Option<Position> {
    match update {
        TargetUpdate::Keep => last,
        TargetUpdate::Move(position) => Some(position),
        TargetUpdate::Clear => None,
    }
}

impl TargetNotifier {
    /// A notifier for a consumer that holds no target yet.
    pub fn new() -> (notifier: Self)
        ensures
            notifier.last_position is None,
            notifier.move_threshold == DEFAULT_MOVE_THRESHOLD,
    {
        Self { last_position: None, move_threshold: DEFAULT_MOVE_THRESHOLD }
    }

    /// Decides what to send after a frame with the given detection.
    pub fn plan(&self, detection: &Option<HandLandmarks>) -> (update: TargetUpdate)
        ensures
            update == spec_plan(self.last_position, self.move_threshold, *detection),
    {
        match detection {
            Some(landmarks) => {
                let target = landmarks.index_tip;
                match self.last_position {
                    Some(held) => {
                        if target.is_within(&held, self.move_threshold) {
                            TargetUpdate::Keep
                        } else {
                            TargetUpdate::Move(target)
                        }
                    },
                    None => TargetUpdate::Move(target),
                }
            },
            None => {
                match self.last_position {
                    Some(_) => TargetUpdate::Clear,
                    None => TargetUpdate::Keep,
                }
            },
        }
    }

    /// Records that `update` has reached the consumer. An update that could not be
    /// delivered is not recorded, and is planned again after the next frame.
    pub fn confirm(&mut self, update: TargetUpdate)
        ensures
            final(self).last_position == spec_confirm(old(self).last_position, update),
            final(self).move_threshold == old(self).move_threshold,
    {
        match update {
            TargetUpdate::Keep => {},
            TargetUpdate::Move(position) => {
                self.last_position = Some(position);
            },
            TargetUpdate::Clear => {
                self.last_position = None;
            },
        }
    }
}

/// Once a clear has reached the consumer, frames without a hand call for nothing more: the
/// clear is sent once for each loss of the hand.
pub proof fn lemma_clear_is_sent_once(last: Option<Position>, threshold: u64)
    ensures
        spec_plan(spec_confirm(last, TargetUpdate::Clear), threshold, None) == TargetUpdate::Keep,
        spec_plan(
            spec_confirm(last, spec_plan(last, threshold, None)),
            threshold,
            None,
        ) == TargetUpdate::Keep,
{
}

/// A target that has just reached the consumer is not sent again while the index tip
/// stays where it is, given a positive threshold.
pub proof fn lemma_still_hand_is_silent(last: Option<Position>, threshold: u64, landmarks: HandLandmarks)
    requires
        threshold > 0,
    ensures
        spec_plan(
            spec_confirm(last, spec_plan(last, threshold, Some(landmarks))),
            threshold,
            Some(landmarks),
        ) == TargetUpdate::Keep,
{
    crate::geometry::lemma_dist_sq_nonnegative(
        landmarks.index_tip.x as int,
        landmarks.index_tip.y as int,
        landmarks.index_tip.x as int,
        landmarks.index_tip.y as int,
    );
    crate::geometry::lemma_square_strictly_monotonic(0, threshold as int);
    if let Some(held) = last {
        crate::geometry::lemma_dist_sq_nonnegative(
            landmarks.index_tip.x as int,
            landmarks.index_tip.y as int,
            held.x as int,
            held.y as int,
        );
    }
}

} // verus!
