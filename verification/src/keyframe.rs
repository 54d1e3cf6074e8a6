//! Keyframes: the anchors a track interpolates between.

use vstd::prelude::*;

use crate::easing::{EasingFunction, EasingType};
use crate::time::TrackTime;

verus! {

/// A single anchor on a track: a value at a point in time, together with the
/// easing selection that governs the outgoing segment toward the next
/// keyframe.
#[derive(Debug, Clone, Copy, PartialEq)]
pub struct Keyframe<T> {
    /// Offset of this keyframe from the start of the track.
    pub time: TrackTime,
    /// The value the track holds exactly at `time`.
    pub value: T,
    /// Curve family of the segment leaving this keyframe.
    pub easing_function: EasingFunction,
    /// Curve direction of the segment leaving this keyframe.
    pub easing_type: EasingType,
}

impl<T> Keyframe<T> {
    /// A keyframe at `time` holding `value`, with the default easing
    /// selection (`Linear`, `In`).
    pub fn new(time: TrackTime, value: T) -> (kf: Keyframe<T>)
        ensures
            kf.time == time,
            kf.value == value,
            kf.easing_function == EasingFunction::Linear,
            kf.easing_type == EasingType::In,
    {
        Keyframe {
            time,
            value,
            easing_function: EasingFunction::Linear,
            easing_type: EasingType::In,
        }
    }
}

} // verus!
