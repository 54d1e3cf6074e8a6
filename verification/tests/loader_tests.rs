use timeline_easing::easing::{EasingFunction, EasingType};
use timeline_easing::loader::{
    keyframe_from_entry, timecode_to_duration, track_from_entries, KeyframeEntry, LoadError,
};
use timeline_easing::time::TrackTime;

#[test]
fn timecode_basic() {
    assert_eq!(
        timecode_to_duration("00:00:00:643"),
        Ok(TrackTime::from_millis(643))
    );
    assert_eq!(
        timecode_to_duration("00:00:01:594"),
        Ok(TrackTime::from_millis(1594))
    );
    assert_eq!(
        timecode_to_duration("01:02:03:004"),
        Ok(TrackTime::from_millis(3600_000 + 2 * 60_000 + 3000 + 4))
    );
}

#[test]
fn timecode_accepts_short_and_long_fields() {
    assert_eq!(timecode_to_duration("0:0:0:0"), Ok(TrackTime::from_millis(0)));
    assert_eq!(
        timecode_to_duration("0:0:0:5000"),
        Ok(TrackTime::from_millis(5000))
    );
    assert_eq!(
        timecode_to_duration("9999999:0:0:0"),
        Ok(TrackTime::from_millis(9_999_999 * 3_600_000))
    );
}

#[test]
fn timecode_rejects_wrong_field_count() {
    assert_eq!(timecode_to_duration(""), Err(LoadError::MalformedTimecode));
    assert_eq!(timecode_to_duration("00:00:00"), Err(LoadError::MalformedTimecode));
    assert_eq!(
        timecode_to_duration("00:00:00:00:00"),
        Err(LoadError::MalformedTimecode)
    );
}

#[test]
fn timecode_rejects_non_digits() {
    assert_eq!(timecode_to_duration("aa:00:00:000"), Err(LoadError::MalformedTimecode));
    assert_eq!(timecode_to_duration("00:00:00:"), Err(LoadError::MalformedTimecode));
    assert_eq!(timecode_to_duration(":00:00:000"), Err(LoadError::MalformedTimecode));
    assert_eq!(
        timecode_to_duration("00:00:0.5:000"),
        Err(LoadError::MalformedTimecode)
    );
    assert_eq!(
        timecode_to_duration("00:00:00:12345678"),
        Err(LoadError::MalformedTimecode)
    );
}

fn entry(easefunc: u8, easetype: u8, time: &str, value: f32) -> KeyframeEntry<f32> {
    KeyframeEntry {
        easefunc,
        easetype,
        time: time.to_string(),
        value,
    }
}

#[test]
fn entry_decodes_selectors_and_time() {
    let kf = keyframe_from_entry(&entry(4, 2, "00:00:00:826", 0.1415)).unwrap();
    assert_eq!(kf.time, TrackTime::from_millis(826));
    assert_eq!(kf.value, 0.1415);
    assert_eq!(kf.easing_function, EasingFunction::Cubic);
    assert_eq!(kf.easing_type, EasingType::InOut);
}

#[test]
fn entry_rejects_out_of_range_selectors() {
    assert_eq!(
        keyframe_from_entry(&entry(11, 0, "00:00:00:000", 0.0)),
        Err(LoadError::EasingFunctionOutOfRange)
    );
    assert_eq!(
        keyframe_from_entry(&entry(0, 3, "00:00:00:000", 0.0)),
        Err(LoadError::EasingTypeOutOfRange)
    );
    // A malformed timecode is reported before a bad selector.
    assert_eq!(
        keyframe_from_entry(&entry(11, 3, "nonsense", 0.0)),
        Err(LoadError::MalformedTimecode)
    );
}

#[test]
fn track_from_entries_sorts_by_time() {
    let entries = vec![
        entry(0, 0, "00:00:02:033", 0.4003),
        entry(0, 0, "00:00:00:643", 0.5855),
        entry(1, 1, "00:00:01:594", 0.4433),
    ];
    let track = track_from_entries(entries).unwrap();
    let ks = track.get_keyframes();
    assert_eq!(ks.len(), 3);
    assert_eq!(ks[0].time, TrackTime::from_millis(643));
    assert_eq!(ks[1].time, TrackTime::from_millis(1594));
    assert_eq!(ks[2].time, TrackTime::from_millis(2033));
    assert_eq!(ks[1].easing_function, EasingFunction::Sine);
    assert_eq!(ks[1].easing_type, EasingType::Out);
    assert_eq!(ks[1].value, 0.4433);
}

#[test]
fn track_from_entries_is_all_or_nothing() {
    let entries = vec![
        entry(0, 0, "00:00:01:000", 1.0),
        entry(0, 0, "bad", 2.0),
        entry(0, 0, "00:00:03:000", 3.0),
    ];
    assert_eq!(
        track_from_entries(entries).map(|_| ()),
        Err(LoadError::MalformedTimecode)
    );
}
