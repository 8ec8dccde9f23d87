//! Discovery topics and payloads.

use boss::discovery::{DeviceInfo, DiscoveryTopic, SwitchConfig, DEFAULT_PREFIX};
use boss::error::Error;
use serde_json::Value;

// A representative ESPHome `switch` discovery payload, using Home
// Assistant's abbreviated keys (the shape this parser must handle).
const EXAMPLE_SWITCH: &[u8] = br#"{"name":"Example Lamp Switch","stat_t":"examplelamp/switch/example_lamp_switch/state","cmd_t":"examplelamp/switch/example_lamp_switch/command","avty_t":"examplelamp/status","uniq_id":"ESPswitchexample_lamp_switch","dev":{"ids":"aabbccddeeff","name":"examplelamp","sw":"2025.5.0","mdl":"esp01_1m","mf":"Espressif","cns":[["mac","aabbccddeeff"]]}}"#;

fn text(v: &Value, key: &str) -> Result<String, String> {
    match v[key].as_str() {
        Some(s) => Ok(s.to_owned()),
        None => Err(format!("missing field `{key}`")),
    }
}

fn decode(payload: &[u8]) -> Result<SwitchConfig, String> {
    let v: Value = serde_json::from_slice(payload).map_err(|e| e.to_string())?;
    let dev = &v["dev"];
    let mut connections = Vec::new();
    for pair in dev["cns"].as_array().cloned().unwrap_or_default() {
        let kind = pair[0].as_str().ok_or("bad connection")?;
        let value = pair[1].as_str().ok_or("bad connection")?;
        connections.push((kind.to_owned(), value.to_owned()));
    }
    Ok(SwitchConfig {
        name: text(&v, "name")?,
        state_topic: text(&v, "stat_t")?,
        command_topic: text(&v, "cmd_t")?,
        availability_topic: text(&v, "avty_t").ok(),
        unique_id: text(&v, "uniq_id")?,
        device: DeviceInfo {
            identifiers: text(dev, "ids").unwrap_or_default(),
            name: text(dev, "name").unwrap_or_default(),
            sw_version: text(dev, "sw").unwrap_or_default(),
            model: text(dev, "mdl").unwrap_or_default(),
            manufacturer: text(dev, "mf").unwrap_or_default(),
            connections,
        },
    })
}

#[test]
fn parses_switch_payload() {
    let c = SwitchConfig::parse("homeassistant/switch/x/y/config", decode(EXAMPLE_SWITCH)).unwrap();
    assert_eq!(c.name, "Example Lamp Switch");
    assert_eq!(
        c.command_topic,
        "examplelamp/switch/example_lamp_switch/command"
    );
    assert_eq!(c.availability_topic.as_deref(), Some("examplelamp/status"));
    assert_eq!(c.unique_id, "ESPswitchexample_lamp_switch");
    assert_eq!(c.device.identifiers, "aabbccddeeff");
    assert_eq!(c.device.manufacturer, "Espressif");
    assert_eq!(c.device.model, "esp01_1m");
    assert_eq!(
        c.device.connections,
        vec![("mac".to_owned(), "aabbccddeeff".to_owned())]
    );
}

#[test]
fn rejects_garbage_payload() {
    assert!(SwitchConfig::parse("t", decode(b"not json")).is_err());
}

#[test]
fn a_rejected_payload_names_topic_and_cause() {
    match SwitchConfig::parse("a/b", Err("expected value".to_owned())) {
        Err(Error::Discovery { topic, source }) => {
            assert_eq!(topic, "a/b");
            assert_eq!(source, "expected value");
        }
        other => panic!("{other:?}"),
    }
}

#[test]
fn the_topic_does_not_decide() {
    let a = SwitchConfig::parse("a", decode(EXAMPLE_SWITCH)).unwrap();
    let b = SwitchConfig::parse("b", decode(EXAMPLE_SWITCH)).unwrap();
    assert_eq!(a, b);
}

#[test]
fn parses_three_part_discovery_topic() {
    let t = DiscoveryTopic::parse(
        DEFAULT_PREFIX,
        "homeassistant/switch/examplelamp/example_lamp_switch/config",
    )
    .unwrap();
    assert_eq!(t.component, "switch");
    assert_eq!(t.node_id, "examplelamp");
    assert_eq!(t.object_id, "example_lamp_switch");
}

#[test]
fn parses_node_less_discovery_topic() {
    let t = DiscoveryTopic::parse(DEFAULT_PREFIX, "homeassistant/sensor/temp/config").unwrap();
    assert_eq!(t.component, "sensor");
    assert_eq!(t.node_id, "");
    assert_eq!(t.object_id, "temp");
}

#[test]
fn rejects_non_config_and_wrong_prefix() {
    assert!(DiscoveryTopic::parse(DEFAULT_PREFIX, "homeassistant/switch/x/state").is_err());
    assert!(DiscoveryTopic::parse(DEFAULT_PREFIX, "other/switch/x/y/config").is_err());
}

#[test]
fn rejected_topics_are_named() {
    for topic in [
        "",
        "homeassistant",
        "homeassistant/config",
        "homeassistant/switch/config",
        "homeassistant/a/b/c/d/config",
        "homeassistantswitch/x/y/config",
        "homeassistant/switch/x/yconfig",
        "homeassistant/switch/x/y/config/",
    ] {
        match DiscoveryTopic::parse(DEFAULT_PREFIX, topic) {
            Err(Error::DiscoveryTopic(named)) => assert_eq!(named, topic),
            other => panic!("{topic}: {other:?}"),
        }
    }
}

#[test]
fn parts_may_be_empty_and_not_ascii() {
    let t = DiscoveryTopic::parse("präfix", "präfix/lämp///config").unwrap();
    assert_eq!((t.component, t.node_id, t.object_id), ("lämp", "", ""));
    let t = DiscoveryTopic::parse("", "/switch/x/config").unwrap();
    assert_eq!((t.component, t.node_id, t.object_id), ("switch", "", "x"));
}

#[test]
fn a_prefix_may_hold_slashes() {
    let t = DiscoveryTopic::parse("home/ha", "home/ha/switch/n/o/config").unwrap();
    assert_eq!((t.component, t.node_id, t.object_id), ("switch", "n", "o"));
}

#[test]
fn written_topics_read_back() {
    for (component, node_id, object_id) in [("switch", "n", "o"), ("sensor", "", "x")] {
        let topic = format!("{DEFAULT_PREFIX}/{component}/{node_id}/{object_id}/config");
        let t = DiscoveryTopic::parse(DEFAULT_PREFIX, &topic).unwrap();
        assert_eq!((t.component, t.node_id, t.object_id), (component, node_id, object_id));
    }
}
