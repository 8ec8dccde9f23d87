//! Routing of incoming messages.

use boss::bridge::model::Delivery;
use boss::bridge::node::MAX_DEVICES;
use boss::bridge::Bridge;
use boss::discovery::{DeviceInfo, SwitchConfig};
use boss::mqtt::Incoming;
use boss::router::{on_message, MessageStep};

fn message(topic: &str, payload: &str) -> Incoming {
    Incoming {
        topic: topic.to_owned(),
        payload: payload.as_bytes().to_vec(),
        retain: false,
    }
}

fn lamp() -> SwitchConfig {
    SwitchConfig {
        name: "Lamp".to_owned(),
        state_topic: "lamp/state".to_owned(),
        command_topic: "lamp/command".to_owned(),
        availability_topic: Some("lamp/status".to_owned()),
        unique_id: "lamp".to_owned(),
        device: DeviceInfo {
            identifiers: String::new(),
            name: String::new(),
            sw_version: String::new(),
            model: String::new(),
            manufacturer: String::new(),
            connections: vec![],
        },
    }
}

#[test]
fn announcements_of_switches_are_told_apart() {
    let mut bridge = Bridge::new([0; MAX_DEVICES]);
    let mut step = |topic: &str| on_message(&mut bridge, "homeassistant", &message(topic, "{}"));
    assert_eq!(step("homeassistant/switch/n/o/config"), MessageStep::Announcement);
    assert_eq!(step("homeassistant/switch/o/config"), MessageStep::Announcement);
    for other in [
        "homeassistant/sensor/n/o/config",
        "homeassistant/switches/n/o/config",
        "homeassistant/switch/n/o/state",
        "other/switch/n/o/config",
    ] {
        assert_eq!(step(other), MessageStep::Delivered(Delivery::Unrouted), "{other}");
    }
}

#[test]
fn updates_are_delivered() {
    let mut bridge = Bridge::new([0; MAX_DEVICES]);
    let cfg = lamp();
    bridge.add_switch(&cfg).unwrap();
    bridge.state_subscribed(0, &cfg, Ok(())).unwrap();
    assert_eq!(
        on_message(&mut bridge, "homeassistant", &message("lamp/state", "ON")),
        MessageStep::Delivered(Delivery::State { slots: vec![0], on: true })
    );
    assert_eq!(
        on_message(&mut bridge, "homeassistant", &message("lamp/status", "offline")),
        MessageStep::Delivered(Delivery::Availability { online: false })
    );
    assert!(!bridge.device_views()[0].reachable);
}

#[test]
fn an_announcement_is_not_delivered() {
    let mut bridge = Bridge::new([0; MAX_DEVICES]);
    let mut cfg = lamp();
    cfg.state_topic = "homeassistant/switch/n/o/config".to_owned();
    bridge.add_switch(&cfg).unwrap();
    let m = message("homeassistant/switch/n/o/config", "ON");
    assert_eq!(on_message(&mut bridge, "homeassistant", &m), MessageStep::Announcement);
    assert_eq!(
        on_message(&mut bridge, "ha", &m),
        MessageStep::Delivered(Delivery::State { slots: vec![0], on: true })
    );
}
