//! Heterogeneous tracks: one closed tagged variant over the supported value
//! kinds.
//!
//! Numeric scalar and vector kinds whose blending arithmetic is
//! floating-point are carried opaquely, as bit patterns ([`FloatBits`],
//! [`DoubleBits`]): the track logic never reads a value's magnitude, only the
//! host that applies an easing instruction does, converting at its edge.

use vstd::prelude::*;

use crate::time::TrackTime;
use crate::track::{duration_of, sample_of, Sample, Track};

verus! {

/// A single-precision scalar carried as its raw bit pattern.  The host
/// converts to and from its native representation at the boundary; the
/// carrier preserves the value exactly.
#[derive(Debug, Clone, Copy, PartialEq, Eq, Structural)]
pub struct FloatBits {
    pub bits: u32,
}

/// A double-precision scalar carried as its raw bit pattern.
#[derive(Debug, Clone, Copy, PartialEq, Eq, Structural)]
pub struct DoubleBits {
    pub bits: u64,
}

/// A value taken from a track, tagged with its kind.
#[derive(Debug, Clone, Copy, PartialEq)]
pub enum TrackValue {
    Bool(bool),
    Int(i32),
    Float(FloatBits),
    Double(DoubleBits),
    Long(i64),
    Vec2((FloatBits, FloatBits)),
    Vec3((FloatBits, FloatBits, FloatBits)),
    Vec4((FloatBits, FloatBits, FloatBits, FloatBits)),
}

/// A homogeneous track wrapped in its kind tag: the closed set of track
/// kinds a timeline can hold.
#[derive(Debug)]
pub enum TrackVariant {
    BoolTrack(Track<bool>),
    IntTrack(Track<i32>),
    FloatTrack(Track<FloatBits>),
    DoubleTrack(Track<DoubleBits>),
    LongTrack(Track<i64>),
    Vec2Track(Track<(FloatBits, FloatBits)>),
    Vec3Track(Track<(FloatBits, FloatBits, FloatBits)>),
    Vec4Track(Track<(FloatBits, FloatBits, FloatBits, FloatBits)>),
}

/// The sample `s` with its values wrapped into tagged [`TrackValue`]s; the
/// easing parameters are untouched.
pub open spec fn wrap_sample<K>(s: Sample<K>, wrap: spec_fn(K) -> TrackValue) -> Sample<
    TrackValue,
> {
    match s {
        Sample::Value(v) => Sample::Value(wrap(v)),
        Sample::Ease { start, end, elapsed, duration, function, easing_type } => Sample::Ease {
            start: wrap(start),
            end: wrap(end),
            elapsed,
            duration,
            function,
            easing_type,
        },
    }
}

impl TrackVariant {
    /// Well-formedness: the wrapped track's keyframes are sorted by time.
    pub open spec fn wf(&self) -> bool {
        match self {
            TrackVariant::BoolTrack(t) => t.wf(),
            TrackVariant::IntTrack(t) => t.wf(),
            TrackVariant::FloatTrack(t) => t.wf(),
            TrackVariant::DoubleTrack(t) => t.wf(),
            TrackVariant::LongTrack(t) => t.wf(),
            TrackVariant::Vec2Track(t) => t.wf(),
            TrackVariant::Vec3Track(t) => t.wf(),
            TrackVariant::Vec4Track(t) => t.wf(),
        }
    }

    /// How many keyframes the wrapped track holds.
    pub open spec fn keyframe_count(&self) -> nat {
        match self {
            TrackVariant::BoolTrack(t) => t@.len(),
            TrackVariant::IntTrack(t) => t@.len(),
            TrackVariant::FloatTrack(t) => t@.len(),
            TrackVariant::DoubleTrack(t) => t@.len(),
            TrackVariant::LongTrack(t) => t@.len(),
            TrackVariant::Vec2Track(t) => t@.len(),
            TrackVariant::Vec3Track(t) => t@.len(),
            TrackVariant::Vec4Track(t) => t@.len(),
        }
    }

    /// The wrapped track's duration; see [`duration_of`].
    pub open spec fn spec_duration(&self) -> TrackTime {
        match self {
            TrackVariant::BoolTrack(t) => duration_of(t@),
            TrackVariant::IntTrack(t) => duration_of(t@),
            TrackVariant::FloatTrack(t) => duration_of(t@),
            TrackVariant::DoubleTrack(t) => duration_of(t@),
            TrackVariant::LongTrack(t) => duration_of(t@),
            TrackVariant::Vec2Track(t) => duration_of(t@),
            TrackVariant::Vec3Track(t) => duration_of(t@),
            TrackVariant::Vec4Track(t) => duration_of(t@),
        }
    }

    /// What sampling the wrapped track at `time` yields, with the value or
    /// segment endpoints tagged by kind; see [`sample_of`].
    pub open spec fn spec_sample(&self, time: TrackTime) -> Sample<TrackValue> {
        match self {
            TrackVariant::BoolTrack(t) => wrap_sample(
                sample_of(t@, time),
                |v: bool| TrackValue::Bool(v),
            ),
            TrackVariant::IntTrack(t) => wrap_sample(
                sample_of(t@, time),
                |v: i32| TrackValue::Int(v),
            ),
            TrackVariant::FloatTrack(t) => wrap_sample(
                sample_of(t@, time),
                |v: FloatBits| TrackValue::Float(v),
            ),
            TrackVariant::DoubleTrack(t) => wrap_sample(
                sample_of(t@, time),
                |v: DoubleBits| TrackValue::Double(v),
            ),
            TrackVariant::LongTrack(t) => wrap_sample(
                sample_of(t@, time),
                |v: i64| TrackValue::Long(v),
            ),
            TrackVariant::Vec2Track(t) => wrap_sample(
                sample_of(t@, time),
                |v: (FloatBits, FloatBits)| TrackValue::Vec2(v),
            ),
            TrackVariant::Vec3Track(t) => wrap_sample(
                sample_of(t@, time),
                |v: (FloatBits, FloatBits, FloatBits)| TrackValue::Vec3(v),
            ),
            TrackVariant::Vec4Track(t) => wrap_sample(
                sample_of(t@, time),
                |v: (FloatBits, FloatBits, FloatBits, FloatBits)| TrackValue::Vec4(v),
            ),
        }
    }

    /// Whether the wrapped track holds any keyframe; sampling demands it.
    pub fn has_keyframes(&self) -> (r: bool)
        ensures
            r == (self.keyframe_count() > 0),
    {
        match self {
            TrackVariant::BoolTrack(t) => t.get_keyframes().len() > 0,
            TrackVariant::IntTrack(t) => t.get_keyframes().len() > 0,
            TrackVariant::FloatTrack(t) => t.get_keyframes().len() > 0,
            TrackVariant::DoubleTrack(t) => t.get_keyframes().len() > 0,
            TrackVariant::LongTrack(t) => t.get_keyframes().len() > 0,
            TrackVariant::Vec2Track(t) => t.get_keyframes().len() > 0,
            TrackVariant::Vec3Track(t) => t.get_keyframes().len() > 0,
            TrackVariant::Vec4Track(t) => t.get_keyframes().len() > 0,
        }
    }

    /// The wrapped track's duration: the time of its last keyframe, or the
    /// zero sentinel if it is empty.
    pub fn get_duration(&self) -> (d: TrackTime)
        ensures
            d == self.spec_duration(),
    {
        match self {
            TrackVariant::BoolTrack(t) => t.get_duration(),
            TrackVariant::IntTrack(t) => t.get_duration(),
            TrackVariant::FloatTrack(t) => t.get_duration(),
            TrackVariant::DoubleTrack(t) => t.get_duration(),
            TrackVariant::LongTrack(t) => t.get_duration(),
            TrackVariant::Vec2Track(t) => t.get_duration(),
            TrackVariant::Vec3Track(t) => t.get_duration(),
            TrackVariant::Vec4Track(t) => t.get_duration(),
        }
    }

    /// Samples the wrapped track at `time`, one dispatch arm per value kind.
    ///
    /// The track must have at least one keyframe.  The result carries tagged
    /// values; a host that receives an easing instruction converts the two
    /// endpoint values to its native representation, applies the named curve,
    /// and converts back.
    pub fn sample(&self, time: TrackTime) -> (r: Sample<TrackValue>)
        requires
            self.wf(),
            self.keyframe_count() > 0,
        ensures
            r == self.spec_sample(time),
    {
        match self {
            TrackVariant::BoolTrack(t) => match t.sample(time) {
                Sample::Value(v) => Sample::Value(TrackValue::Bool(v)),
                Sample::Ease { start, end, elapsed, duration, function, easing_type } => (
                Sample::Ease {
                    start: TrackValue::Bool(start),
                    end: TrackValue::Bool(end),
                    elapsed,
                    duration,
                    function,
                    easing_type,
                }),
            },
            TrackVariant::IntTrack(t) => match t.sample(time) {
                Sample::Value(v) => Sample::Value(TrackValue::Int(v)),
                Sample::Ease { start, end, elapsed, duration, function, easing_type } => (
                Sample::Ease {
                    start: TrackValue::Int(start),
                    end: TrackValue::Int(end),
                    elapsed,
                    duration,
                    function,
                    easing_type,
                }),
            },
            TrackVariant::FloatTrack(t) => match t.sample(time) {
                Sample::Value(v) => Sample::Value(TrackValue::Float(v)),
                Sample::Ease { start, end, elapsed, duration, function, easing_type } => (
                Sample::Ease {
                    start: TrackValue::Float(start),
                    end: TrackValue::Float(end),
                    elapsed,
                    duration,
                    function,
                    easing_type,
                }),
            },
            TrackVariant::DoubleTrack(t) => match t.sample(time) {
                Sample::Value(v) => Sample::Value(TrackValue::Double(v)),
                Sample::Ease { start, end, elapsed, duration, function, easing_type } => (
                Sample::Ease {
                    start: TrackValue::Double(start),
                    end: TrackValue::Double(end),
                    elapsed,
                    duration,
                    function,
                    easing_type,
                }),
            },
            TrackVariant::LongTrack(t) => match t.sample(time) {
                Sample::Value(v) => Sample::Value(TrackValue::Long(v)),
                Sample::Ease { start, end, elapsed, duration, function, easing_type } => (
                Sample::Ease {
                    start: TrackValue::Long(start),
                    end: TrackValue::Long(end),
                    elapsed,
                    duration,
                    function,
                    easing_type,
                }),
            },
            TrackVariant::Vec2Track(t) => match t.sample(time) {
                Sample::Value(v) => Sample::Value(TrackValue::Vec2(v)),
                Sample::Ease { start, end, elapsed, duration, function, easing_type } => (
                Sample::Ease {
                    start: TrackValue::Vec2(start),
                    end: TrackValue::Vec2(end),
                    elapsed,
                    duration,
                    function,
                    easing_type,
                }),
            },
            TrackVariant::Vec3Track(t) => match t.sample(time) {
                Sample::Value(v) => Sample::Value(TrackValue::Vec3(v)),
                Sample::Ease { start, end, elapsed, duration, function, easing_type } => (
                Sample::Ease {
                    start: TrackValue::Vec3(start),
                    end: TrackValue::Vec3(end),
                    elapsed,
                    duration,
                    function,
                    easing_type,
                }),
            },
            TrackVariant::Vec4Track(t) => match t.sample(time) {
                Sample::Value(v) => Sample::Value(TrackValue::Vec4(v)),
                Sample::Ease { start, end, elapsed, duration, function, easing_type } => (
                Sample::Ease {
                    start: TrackValue::Vec4(start),
                    end: TrackValue::Vec4(end),
                    elapsed,
                    duration,
                    function,
                    easing_type,
                }),
            },
        }
    }

    /// The wrapped boolean track.  Asking a variant for a track of another
    /// kind than it holds is a wiring bug on the caller's side.
    pub fn as_bool_track(&self) -> (t: &Track<bool>)
        requires
            self is BoolTrack,
        ensures
            t == &self->BoolTrack_0,
    {
        match self {
            TrackVariant::BoolTrack(t) => t,
            _ => unreached(),
        }
    }

    /// The wrapped integer track; see [`Self::as_bool_track`].
    pub fn as_int_track(&self) -> (t: &Track<i32>)
        requires
            self is IntTrack,
        ensures
            t == &self->IntTrack_0,
    {
        match self {
            TrackVariant::IntTrack(t) => t,
            _ => unreached(),
        }
    }

    /// The wrapped single-precision track; see [`Self::as_bool_track`].
    pub fn as_float_track(&self) -> (t: &Track<FloatBits>)
        requires
            self is FloatTrack,
        ensures
            t == &self->FloatTrack_0,
    {
        match self {
            TrackVariant::FloatTrack(t) => t,
            _ => unreached(),
        }
    }

    /// The wrapped double-precision track; see [`Self::as_bool_track`].
    pub fn as_double_track(&self) -> (t: &Track<DoubleBits>)
        requires
            self is DoubleTrack,
        ensures
            t == &self->DoubleTrack_0,
    {
        match self {
            TrackVariant::DoubleTrack(t) => t,
            _ => unreached(),
        }
    }

    /// The wrapped long-integer track; see [`Self::as_bool_track`].
    pub fn as_long_track(&self) -> (t: &Track<i64>)
        requires
            self is LongTrack,
        ensures
            t == &self->LongTrack_0,
    {
        match self {
            TrackVariant::LongTrack(t) => t,
            _ => unreached(),
        }
    }

    /// The wrapped two-component vector track; see [`Self::as_bool_track`].
    pub fn as_vec2_track(&self) -> (t: &Track<(FloatBits, FloatBits)>)
        requires
            self is Vec2Track,
        ensures
            t == &self->Vec2Track_0,
    {
        match self {
            TrackVariant::Vec2Track(t) => t,
            _ => unreached(),
        }
    }

    /// The wrapped three-component vector track; see [`Self::as_bool_track`].
    pub fn as_vec3_track(&self) -> (t: &Track<(FloatBits, FloatBits, FloatBits)>)
        requires
            self is Vec3Track,
        ensures
            t == &self->Vec3Track_0,
    {
        match self {
            TrackVariant::Vec3Track(t) => t,
            _ => unreached(),
        }
    }

    /// The wrapped four-component vector track; see [`Self::as_bool_track`].
    pub fn as_vec4_track(&self) -> (t: &Track<(FloatBits, FloatBits, FloatBits, FloatBits)>)
        requires
            self is Vec4Track,
        ensures
            t == &self->Vec4Track_0,
    {
        match self {
            TrackVariant::Vec4Track(t) => t,
            _ => unreached(),
        }
    }

    /// A mutable borrow of the wrapped boolean track; asking a variant for a
    /// track of another kind than it holds is a wiring bug on the caller's
    /// side.  The kind tag is kept whatever the caller does to the track.
    pub fn as_bool_track_mut(&mut self) -> (t: &mut Track<bool>)
        requires
            *old(self) is BoolTrack,
        ensures
            *t == (*old(self))->BoolTrack_0,
            *final(self) == TrackVariant::BoolTrack(*final(t)),
    {
        match self {
            TrackVariant::BoolTrack(track) => track,
            _ => unreached(),
        }
    }

    /// A mutable borrow of the wrapped integer track; asking a variant for a
    /// track of another kind than it holds is a wiring bug on the caller's
    /// side.  The kind tag is kept whatever the caller does to the track.
    pub fn as_int_track_mut(&mut self) -> (t: &mut Track<i32>)
        requires
            *old(self) is IntTrack,
        ensures
            *t == (*old(self))->IntTrack_0,
            *final(self) == TrackVariant::IntTrack(*final(t)),
    {
        match self {
            TrackVariant::IntTrack(track) => track,
            _ => unreached(),
        }
    }

    /// A mutable borrow of the wrapped single-precision track; asking a variant for a
    /// track of another kind than it holds is a wiring bug on the caller's
    /// side.  The kind tag is kept whatever the caller does to the track.
    pub fn as_float_track_mut(&mut self) -> (t: &mut Track<FloatBits>)
        requires
            *old(self) is FloatTrack,
        ensures
            *t == (*old(self))->FloatTrack_0,
            *final(self) == TrackVariant::FloatTrack(*final(t)),
    {
        match self {
            TrackVariant::FloatTrack(track) => track,
            _ => unreached(),
        }
    }

    /// A mutable borrow of the wrapped double-precision track; asking a variant for a
    /// track of another kind than it holds is a wiring bug on the caller's
    /// side.  The kind tag is kept whatever the caller does to the track.
    pub fn as_double_track_mut(&mut self) -> (t: &mut Track<DoubleBits>)
        requires
            *old(self) is DoubleTrack,
        ensures
            *t == (*old(self))->DoubleTrack_0,
            *final(self) == TrackVariant::DoubleTrack(*final(t)),
    {
        match self {
            TrackVariant::DoubleTrack(track) => track,
            _ => unreached(),
        }
    }

    /// A mutable borrow of the wrapped long-integer track; asking a variant for a
    /// track of another kind than it holds is a wiring bug on the caller's
    /// side.  The kind tag is kept whatever the caller does to the track.
    pub fn as_long_track_mut(&mut self) -> (t: &mut Track<i64>)
        requires
            *old(self) is LongTrack,
        ensures
            *t == (*old(self))->LongTrack_0,
            *final(self) == TrackVariant::LongTrack(*final(t)),
    {
        match self {
            TrackVariant::LongTrack(track) => track,
            _ => unreached(),
        }
    }

    /// A mutable borrow of the wrapped two-component vector track; asking a variant for a
    /// track of another kind than it holds is a wiring bug on the caller's
    /// side.  The kind tag is kept whatever the caller does to the track.
    pub fn as_vec2_track_mut(&mut self) -> (t: &mut Track<(FloatBits, FloatBits)>)
        requires
            *old(self) is Vec2Track,
        ensures
            *t == (*old(self))->Vec2Track_0,
            *final(self) == TrackVariant::Vec2Track(*final(t)),
    {
        match self {
            TrackVariant::Vec2Track(track) => track,
            _ => unreached(),
        }
    }

    /// A mutable borrow of the wrapped three-component vector track; asking a variant for a
    /// track of another kind than it holds is a wiring bug on the caller's
    /// side.  The kind tag is kept whatever the caller does to the track.
    pub fn as_vec3_track_mut(&mut self) -> (t: &mut Track<(FloatBits, FloatBits, FloatBits)>)
        requires
            *old(self) is Vec3Track,
        ensures
            *t == (*old(self))->Vec3Track_0,
            *final(self) == TrackVariant::Vec3Track(*final(t)),
    {
        match self {
            TrackVariant::Vec3Track(track) => track,
            _ => unreached(),
        }
    }

    /// A mutable borrow of the wrapped four-component vector track; asking a variant for a
    /// track of another kind than it holds is a wiring bug on the caller's
    /// side.  The kind tag is kept whatever the caller does to the track.
    pub fn as_vec4_track_mut(&mut self) -> (t: &mut Track<(FloatBits, FloatBits, FloatBits, FloatBits)>)
        requires
            *old(self) is Vec4Track,
        ensures
            *t == (*old(self))->Vec4Track_0,
            *final(self) == TrackVariant::Vec4Track(*final(t)),
    {
        match self {
            TrackVariant::Vec4Track(track) => track,
            _ => unreached(),
        }
    }
}

} // verus!
