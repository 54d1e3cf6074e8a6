//! A keyframe-timeline interpolation library.
//!
//! A `Track` is a time-ordered sequence of keyframes; a `Timeline` is a named
//! collection of heterogeneous tracks sharing one time axis.  Sampling a track
//! at a point in time either yields a keyframe value directly (exact match or
//! clamped hold at the boundaries) or an easing instruction for the segment
//! between the two bracketing keyframes.
//!
//! An empty track, and a timeline with no tracks, report the zero duration
//! sentinel rather than failing; querying a value on an empty track is a
//! caller error.

pub mod easing;
pub mod keyframe;
pub mod loader;
pub mod time;
pub mod timeline;
pub mod track;
pub mod variant;
