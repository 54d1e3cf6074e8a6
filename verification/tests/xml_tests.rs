use quickxml_to_serde::{xml_str_to_json, Config};
use serde_json::Value;

use timeline_easing::loader::{track_from_entries, KeyframeEntry};
use timeline_easing::time::TrackTime;
use timeline_easing::timeline::Timeline;
use timeline_easing::variant::{FloatBits, TrackVariant};

fn to_json(xml: &str) -> Value {
    xml_str_to_json(xml, &Config::new_with_defaults()).unwrap()
}

#[test]
fn test_xml_to_json() {
    let xml = r#"<root><a>1</a><b>2</b></root>"#;
    let json = to_json(xml);
    let expected: Value = serde_json::from_str(r#"{"root":{"a":1,"b":2}}"#).unwrap();
    assert_eq!(json, expected);
}

#[test]
fn test_xml_attr_to_json() {
    let xml = r#"<root a="1" b="2"></root>"#;
    let json = to_json(xml);
    let expected: Value = serde_json::from_str(r#"{"root":{"@a":1,"@b":2}}"#).unwrap();
    assert_eq!(json, expected);
}

#[test]
fn test_xml_attr_and_child_to_json() {
    let xml = r#"<root a="1"><b>2</b></root>"#;
    let json = to_json(xml);
    let expected: Value = serde_json::from_str(r#"{"root":{"@a":1,"b":2}}"#).unwrap();
    assert_eq!(json, expected);
}

/// Reads the keyframe entries out of a converted track description, as a
/// host would before handing them to the library.
fn entries_from_json(json: &Value) -> Vec<KeyframeEntry<FloatBits>> {
    json["keyframes"]["key"]
        .as_array()
        .unwrap()
        .iter()
        .map(|e| KeyframeEntry {
            easefunc: e["easefunc"].as_u64().unwrap() as u8,
            easetype: e["easetype"].as_u64().unwrap() as u8,
            time: e["time"].as_str().unwrap().to_string(),
            value: FloatBits {
                bits: (e["value"].as_f64().unwrap() as f32).to_bits(),
            },
        })
        .collect()
}

#[test]
fn xml_load_test() {
    let xml = r#"
<keyframes>
    <key>
        <easefunc>0</easefunc>
        <easetype>0</easetype>
        <time>00:00:00:643</time>
        <value>0.585546851</value>
    </key>
    <key>
        <easefunc>4</easefunc>
        <easetype>2</easetype>
        <time>00:00:00:826</time>
        <value>0.141503930</value>
    </key>
    <key>
        <easefunc>1</easefunc>
        <easetype>1</easetype>
        <time>00:00:01:594</time>
        <value>0.443359375</value>
    </key>
    <key>
        <easefunc>0</easefunc>
        <easetype>2</easetype>
        <time>00:00:02:033</time>
        <value>0.400390625</value>
    </key>
    <key>
        <easefunc>4</easefunc>
        <easetype>0</easetype>
        <time>00:00:02:260</time>
        <value>0.586718738</value>
    </key>
</keyframes>"#;

    let json = to_json(xml);
    let entries = entries_from_json(&json);
    let track = track_from_entries(entries).unwrap();

    let mut tl = Timeline::new();
    tl.add("test", TrackVariant::FloatTrack(track));

    let track = tl.get("test").unwrap().as_float_track();
    assert_eq!(track.get_keyframes().len(), 5);
    assert_eq!(track.get_keyframes()[0].time, TrackTime::from_millis(643));
    assert_eq!(track.get_keyframes()[4].time, TrackTime::from_millis(2260));
}
