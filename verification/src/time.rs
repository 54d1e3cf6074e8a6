//! Time offsets on a track, with millisecond resolution.

use vstd::prelude::*;

verus! {

/// A non-negative offset from the start of a track, counted in milliseconds.
///
/// Keyframe times, segment durations and query times are all `TrackTime`
/// values; a host that keeps time in another unit converts at its edge.
#[derive(Clone, Copy, Debug, PartialEq, Eq, Structural)]
pub struct TrackTime {
    pub millis: u64,
}

impl TrackTime {
    /// The zero offset: the start of a track.
    pub fn zero() -> (t: TrackTime)
        ensures
            t.millis == 0,
    {
        TrackTime { millis: 0 }
    }

    /// An offset of `secs` whole seconds.
    pub fn from_secs(secs: u64) -> (t: TrackTime)
        requires
            secs * 1000 <= u64::MAX,
        ensures
            t.millis == secs * 1000,
    {
        TrackTime { millis: secs * 1000 }
    }

    /// An offset of `millis` milliseconds.
    pub fn from_millis(millis: u64) -> (t: TrackTime)
        ensures
            t.millis == millis,
    {
        TrackTime { millis }
    }

    /// The offset in milliseconds.
    pub fn as_millis(&self) -> (m: u64)
        ensures
            m == self.millis,
    {
        self.millis
    }

    /// Whether `self` lies strictly before `other`.
    pub fn lt(&self, other: &TrackTime) -> (r: bool)
        ensures
            r == (self.millis < other.millis),
    {
        self.millis < other.millis
    }

    /// Whether `self` lies at or before `other`.
    pub fn le(&self, other: &TrackTime) -> (r: bool)
        ensures
            r == (self.millis <= other.millis),
    {
        self.millis <= other.millis
    }

    /// The sum of two offsets.
    pub fn add(&self, other: &TrackTime) -> (t: TrackTime)
        requires
            self.millis + other.millis <= u64::MAX,
        ensures
            t.millis == self.millis + other.millis,
    {
        TrackTime { millis: self.millis + other.millis }
    }

    /// The distance from `earlier` to `self`, which must not precede it.
    pub fn since(&self, earlier: &TrackTime) -> (t: TrackTime)
        requires
            earlier.millis <= self.millis,
        ensures
            t.millis == self.millis - earlier.millis,
    {
        TrackTime { millis: self.millis - earlier.millis }
    }
}

} // verus!
