use timeline_easing::easing::{EasingFunction, EasingType};
use timeline_easing::keyframe::Keyframe;
use timeline_easing::time::TrackTime;
use timeline_easing::timeline::Timeline;
use timeline_easing::track::{EasableValue, Sample, Track};
use timeline_easing::variant::{FloatBits, TrackValue, TrackVariant};

/// An `f32` scalar with host-side easing, as a host application would define
/// it: linear and sine blends delegate to the numeric formulas.
#[derive(Clone, Copy, Debug, PartialEq)]
struct Scalar(f32);

impl EasableValue for Scalar {
    // `ease_spec` is the specification-level member of the trait; in an
    // unverified build it is an ordinary method, and for this kind it
    // coincides with the computation.
    fn ease_spec(
        self,
        next: Self,
        elapsed: TrackTime,
        duration: TrackTime,
        function: EasingFunction,
        easing_type: EasingType,
    ) -> Self {
        self.ease_between(next, elapsed, duration, function, easing_type)
    }

    fn ease_between(
        self,
        next: Self,
        elapsed: TrackTime,
        duration: TrackTime,
        function: EasingFunction,
        easing_type: EasingType,
    ) -> Self {
        let t = elapsed.as_millis() as f32 / 1000.0;
        let d = duration.as_millis() as f32 / 1000.0;
        let b = self.0;
        let c = next.0 - self.0;
        let v = match (function, easing_type) {
            (EasingFunction::Linear, _) => c * t / d + b,
            (EasingFunction::Sine, EasingType::In) => {
                -c * (t / d * std::f32::consts::FRAC_PI_2).cos() + c + b
            }
            _ => panic!("easing selection not exercised by these tests"),
        };
        Scalar(v)
    }
}

fn float_keyframe(secs: u64, value: f32) -> Keyframe<FloatBits> {
    Keyframe {
        time: TrackTime::from_secs(secs),
        value: FloatBits {
            bits: value.to_bits(),
        },
        easing_function: EasingFunction::Linear,
        easing_type: EasingType::In,
    }
}

fn scalar_keyframe(secs: u64, value: f32, f: EasingFunction, ty: EasingType) -> Keyframe<Scalar> {
    Keyframe {
        time: TrackTime::from_secs(secs),
        value: Scalar(value),
        easing_function: f,
        easing_type: ty,
    }
}

#[test]
fn new() {
    let tl = Timeline::new();
    assert_eq!(tl.len(), 0);
}

#[test]
fn new_track() {
    let mut tl = Timeline::new();
    tl.add("test", TrackVariant::FloatTrack(Track::default()));
    assert_eq!(tl.len(), 1);
    assert_eq!(tl.contains_key("test"), true);
}

#[test]
fn new_keyframe() {
    let mut t = Track::<FloatBits>::default();
    t.add_keyframe(float_keyframe(1, 0.0));
    assert_eq!(t.get_keyframes().len(), 1);
    assert_eq!(t.get_keyframes()[0].time, TrackTime::from_secs(1));
    assert_eq!(f32::from_bits(t.get_keyframes()[0].value.bits), 0.0);
}

#[test]
fn new_keyframes() {
    let mut t = Track::<FloatBits>::default();
    t.add_keyframe(float_keyframe(1, 0.0));
    t.add_keyframe(float_keyframe(2, 1.0));
    assert_eq!(t.get_keyframes().len(), 2);
    assert_eq!(t.get_keyframes()[0].time, TrackTime::from_secs(1));
    assert_eq!(t.get_keyframes()[1].time, TrackTime::from_secs(2));
    assert_eq!(f32::from_bits(t.get_keyframes()[0].value.bits), 0.0);
    assert_eq!(f32::from_bits(t.get_keyframes()[1].value.bits), 1.0);
}

#[test]
fn new_keyframes_need_sortd() {
    let mut t = Track::<FloatBits>::default();
    t.add_keyframe(float_keyframe(2, 1.0));
    t.add_keyframe(float_keyframe(1, 0.0));
    assert_eq!(t.get_keyframes().len(), 2);
    assert_eq!(t.get_keyframes()[0].time, TrackTime::from_secs(1));
    assert_eq!(t.get_keyframes()[1].time, TrackTime::from_secs(2));
    assert_eq!(f32::from_bits(t.get_keyframes()[0].value.bits), 0.0);
    assert_eq!(f32::from_bits(t.get_keyframes()[1].value.bits), 1.0);
}

#[test]
fn get_value_test() {
    let mut t = Track::<Scalar>::default();
    t.add_keyframe(scalar_keyframe(1, 0.0, EasingFunction::Linear, EasingType::In));
    t.add_keyframe(scalar_keyframe(2, 1.0, EasingFunction::Linear, EasingType::In));
    assert_eq!(t.get_value(TrackTime::from_secs(1)), Scalar(0.0));
    assert_eq!(t.get_value(TrackTime::from_secs(2)), Scalar(1.0));
    assert_eq!(t.get_value(TrackTime::from_millis(1500)), Scalar(0.5));
}

/// Applies the linear blend a host would apply to a tagged easing
/// instruction on a single-precision track.
fn apply_float_sample(sample: Sample<TrackValue>) -> f32 {
    match sample {
        Sample::Value(TrackValue::Float(v)) => f32::from_bits(v.bits),
        Sample::Ease {
            start: TrackValue::Float(a),
            end: TrackValue::Float(b),
            elapsed,
            duration,
            function: EasingFunction::Linear,
            easing_type: _,
        } => {
            let t = elapsed.as_millis() as f32 / 1000.0;
            let d = duration.as_millis() as f32 / 1000.0;
            let b0 = f32::from_bits(a.bits);
            let c = f32::from_bits(b.bits) - b0;
            c * t / d + b0
        }
        _ => panic!("unexpected sample"),
    }
}

#[test]
fn get_value_from_timeline_test() {
    let mut tl = Timeline::new();
    let mut t = Track::<FloatBits>::default();
    t.add_keyframe(float_keyframe(1, 0.0));
    t.add_keyframe(float_keyframe(2, 1.0));
    tl.add("test", TrackVariant::FloatTrack(t));
    let v = apply_float_sample(tl.sample("test", TrackTime::from_secs(1)));
    assert_eq!(v, 0.0);
    let v = apply_float_sample(tl.sample("test", TrackTime::from_secs(2)));
    assert_eq!(v, 1.0);
    let v = apply_float_sample(tl.sample("test", TrackTime::from_millis(1500)));
    assert_eq!(v, 0.5);
}

#[test]
fn get_duration_test() {
    let mut t = Track::<FloatBits>::default();
    t.add_keyframe(float_keyframe(1, 0.0));
    t.add_keyframe(float_keyframe(2, 1.0));
    assert_eq!(t.get_duration(), TrackTime::from_secs(2));
}

#[test]
fn get_value_exceeded_duration_test() {
    let mut t = Track::<FloatBits>::default();
    t.add_keyframe(float_keyframe(1, 0.0));
    t.add_keyframe(float_keyframe(2, 1.0));
    assert_eq!(t.sample(TrackTime::from_secs(3)), Sample::Value(FloatBits { bits: 1.0f32.to_bits() }));
    assert_eq!(t.sample(TrackTime::from_secs(4)), Sample::Value(FloatBits { bits: 1.0f32.to_bits() }));
}

#[test]
fn get_value_before_zero_test() {
    let mut t = Track::<FloatBits>::default();
    t.add_keyframe(float_keyframe(1, 0.0));
    t.add_keyframe(float_keyframe(2, 1.0));
    assert_eq!(t.sample(TrackTime::from_secs(0)), Sample::Value(FloatBits { bits: 0.0f32.to_bits() }));
}

#[test]
fn get_value_easing_sine_test() {
    let mut t = Track::<Scalar>::default();
    t.add_keyframe(scalar_keyframe(1, 0.0, EasingFunction::Sine, EasingType::In));
    t.add_keyframe(scalar_keyframe(2, 1.0, EasingFunction::Sine, EasingType::In));
    assert_eq!(t.get_value(TrackTime::from_secs(1)), Scalar(0.0));
    assert_eq!(t.get_value(TrackTime::from_secs(2)), Scalar(1.0));
    let v = t.get_value(TrackTime::from_millis(1500)).0;
    let expected = 0.29289323f32;
    assert!(((v - expected) / expected).abs() <= 0.0001);
}
