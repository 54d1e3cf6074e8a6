use timeline_easing::easing::{EasingFunction, EasingType};
use timeline_easing::keyframe::Keyframe;
use timeline_easing::time::TrackTime;
use timeline_easing::timeline::Timeline;
use timeline_easing::track::{Sample, Track};
use timeline_easing::variant::{FloatBits, TrackVariant};

fn float_keyframe(millis: u64, value: f32) -> Keyframe<FloatBits> {
    Keyframe {
        time: TrackTime::from_millis(millis),
        value: FloatBits {
            bits: value.to_bits(),
        },
        easing_function: EasingFunction::Linear,
        easing_type: EasingType::In,
    }
}

#[test]
fn single_keyframe_holds_everywhere() {
    let mut t = Track::<i64>::default();
    t.add_keyframe(Keyframe::new(TrackTime::from_secs(5), 42i64));
    for millis in [0u64, 1, 4999, 5000, 5001, 360_000] {
        assert_eq!(t.sample(TrackTime::from_millis(millis)), Sample::Value(42));
    }
}

#[test]
fn timeline_max_duration_over_two_tracks() {
    let mut short_track = Track::<FloatBits>::default();
    short_track.add_keyframe(float_keyframe(0, 0.0));
    short_track.add_keyframe(float_keyframe(2000, 1.0));
    let mut long_track = Track::<FloatBits>::default();
    long_track.add_keyframe(float_keyframe(100, 3.0));
    long_track.add_keyframe(float_keyframe(3400, 4.0));
    let mut tl = Timeline::new();
    tl.add("short", TrackVariant::FloatTrack(short_track));
    tl.add("long", TrackVariant::FloatTrack(long_track));
    assert_eq!(tl.get_max_duration(), TrackTime::from_millis(3400));
}

#[test]
fn empty_track_and_timeline_have_zero_duration() {
    let t = Track::<FloatBits>::default();
    assert_eq!(t.get_duration(), TrackTime::from_millis(0));
    let tl = Timeline::new();
    assert_eq!(tl.get_max_duration(), TrackTime::from_millis(0));
}

#[test]
fn insertion_order_does_not_matter() {
    let times: [u64; 5] = [643, 826, 1594, 2033, 2260];
    let values: [f32; 5] = [0.5855, 0.1415, 0.4433, 0.4003, 0.5867];
    let mut sorted_track = Track::<FloatBits>::default();
    for i in 0..5 {
        sorted_track.add_keyframe(float_keyframe(times[i], values[i]));
    }
    let shuffled: [usize; 5] = [3, 0, 4, 1, 2];
    let mut shuffled_track = Track::<FloatBits>::default();
    for &i in shuffled.iter() {
        shuffled_track.add_keyframe(float_keyframe(times[i], values[i]));
    }
    for millis in [0u64, 643, 700, 826, 1000, 1594, 2000, 2033, 2200, 2260, 9999] {
        let q = TrackTime::from_millis(millis);
        assert_eq!(sorted_track.sample(q), shuffled_track.sample(q));
    }
}

#[test]
fn exact_time_returns_stored_value_without_blending() {
    let mut t = Track::<FloatBits>::default();
    t.add_keyframe(float_keyframe(1000, 10.0));
    t.add_keyframe(float_keyframe(2000, 20.0));
    t.add_keyframe(float_keyframe(3000, 30.0));
    assert_eq!(
        t.sample(TrackTime::from_millis(2000)),
        Sample::Value(FloatBits { bits: 20.0f32.to_bits() })
    );
}

#[test]
fn first_keyframe_wins_on_duplicate_times() {
    let mut t = Track::<FloatBits>::default();
    t.add_keyframe(float_keyframe(1000, 1.0));
    t.add_keyframe(float_keyframe(1000, 2.0));
    t.add_keyframe(float_keyframe(2000, 3.0));
    // The keyframe added first stays first among equals, and an exact query
    // returns it.
    assert_eq!(
        t.sample(TrackTime::from_millis(1000)),
        Sample::Value(FloatBits { bits: 1.0f32.to_bits() })
    );
}

#[test]
fn segment_between_keyframes_reports_bracketing_pair() {
    let mut t = Track::<FloatBits>::default();
    let mut first = float_keyframe(1000, 0.0);
    first.easing_function = EasingFunction::Bounce;
    first.easing_type = EasingType::InOut;
    let mut second = float_keyframe(3000, 8.0);
    second.easing_function = EasingFunction::Elastic;
    second.easing_type = EasingType::Out;
    t.add_keyframe(second);
    t.add_keyframe(first);
    match t.sample(TrackTime::from_millis(1500)) {
        Sample::Ease {
            start,
            end,
            elapsed,
            duration,
            function,
            easing_type,
        } => {
            assert_eq!(f32::from_bits(start.bits), 0.0);
            assert_eq!(f32::from_bits(end.bits), 8.0);
            assert_eq!(elapsed, TrackTime::from_millis(500));
            assert_eq!(duration, TrackTime::from_millis(2000));
            // The opening keyframe's easing selection governs the segment.
            assert_eq!(function, EasingFunction::Bounce);
            assert_eq!(easing_type, EasingType::InOut);
        }
        other => panic!("expected an easing instruction, got {:?}", other),
    }
}

#[test]
fn timeline_add_replaces_track_under_same_name() {
    let mut first = Track::<FloatBits>::default();
    first.add_keyframe(float_keyframe(1000, 1.0));
    let mut second = Track::<FloatBits>::default();
    second.add_keyframe(float_keyframe(5000, 2.0));
    let mut tl = Timeline::new();
    tl.add("only", TrackVariant::FloatTrack(first));
    tl.add("only", TrackVariant::FloatTrack(second));
    assert_eq!(tl.len(), 1);
    assert_eq!(tl.get_max_duration(), TrackTime::from_millis(5000));
}

#[test]
fn bool_track_holds_segment_start() {
    let mut t = Track::<bool>::default();
    t.add_keyframe(Keyframe::new(TrackTime::from_secs(1), true));
    t.add_keyframe(Keyframe::new(TrackTime::from_secs(3), false));
    assert_eq!(t.get_value(TrackTime::from_secs(0)), true);
    assert_eq!(t.get_value(TrackTime::from_secs(2)), true);
    assert_eq!(t.get_value(TrackTime::from_secs(3)), false);
    assert_eq!(t.get_value(TrackTime::from_secs(9)), false);
}
