//! The bridge and its devices.

use boss::bridge::bridged::BridgedHandler;
use boss::bridge::model::{
    Delivery, RouteError, SwitchCluster, Target, BRIDGED_ID, DESC_ID, GROUPS_ID, ONOFF_ID,
};
use boss::bridge::node::{clusters, EndpointKind, MAX_DEVICES};
use boss::bridge::routes::RouteTable;
use boss::bridge::switch::{Activation, MqttOnOff, ReportStep, StartUpOnOff};
use boss::bridge::{AddStep, AttributeChange, Bridge, NotifyStep, RootEndpoints};
use boss::discovery::{DeviceInfo, SwitchConfig};
use boss::error::Error;

fn switch(id: &str, availability: bool) -> SwitchConfig {
    SwitchConfig {
        name: format!("Switch {id}"),
        state_topic: format!("{id}/state"),
        command_topic: format!("{id}/command"),
        availability_topic: if availability { Some(format!("{id}/status")) } else { None },
        unique_id: id.to_owned(),
        device: DeviceInfo {
            identifiers: String::new(),
            name: String::new(),
            sw_version: String::new(),
            model: String::new(),
            manufacturer: String::new(),
            connections: vec![],
        },
    }
}

fn empty() -> Bridge {
    Bridge::new([7; MAX_DEVICES])
}

fn bridged(count: usize) -> Bridge {
    let mut b = empty();
    for i in 0..count {
        let cfg = switch(&format!("s{i}"), true);
        b.add_switch(&cfg).unwrap();
        b.state_subscribed(i, &cfg, Ok(())).unwrap();
    }
    b
}

#[test]
fn a_switch_is_added_in_steps() {
    let mut b = empty();
    let cfg = switch("lamp", true);
    match b.add_switch(&cfg).unwrap() {
        AddStep::SubscribeState { slot, topic } => {
            assert_eq!((slot, topic.as_str()), (0, "lamp/state"))
        }
        other => panic!("{other:?}"),
    }
    match b.state_subscribed(0, &cfg, Ok(())).unwrap() {
        AddStep::SubscribeAvailability { slot, topic } => {
            assert_eq!((slot, topic.as_str()), (0, "lamp/status"))
        }
        other => panic!("{other:?}"),
    }
    match b.availability_subscribed(0, Ok(())).unwrap() {
        AddStep::Bridged { endpoint } => assert_eq!(endpoint, 2),
        other => panic!("{other:?}"),
    }
    let views = b.device_views();
    assert_eq!(views.len(), 1);
    assert_eq!(views[0].endpoint, 2);
    assert_eq!(views[0].name, "Switch lamp");
    assert_eq!(views[0].unique_id, "lamp");
    assert!(views[0].reachable);
    assert!(!views[0].on);
}

#[test]
fn a_switch_without_availability_takes_one_step_less() {
    let mut b = bridged(1);
    let cfg = switch("lamp", false);
    b.add_switch(&cfg).unwrap();
    match b.state_subscribed(1, &cfg, Ok(())).unwrap() {
        AddStep::Bridged { endpoint } => assert_eq!(endpoint, 3),
        other => panic!("{other:?}"),
    }
}

#[test]
fn a_failed_subscription_ends_the_addition() {
    let mut b = empty();
    let cfg = switch("lamp", true);
    b.add_switch(&cfg).unwrap();
    match b.state_subscribed(0, &cfg, Err(Error::mqtt("full".to_owned()))) {
        Err(e) => assert_eq!(e.message(), "mqtt error: full"),
        other => panic!("{other:?}"),
    }
    // The slot stays bound, without its availability topic.
    assert_eq!(b.active_slots(), vec![0]);
    assert_eq!(b.deliver("lamp/status", b"offline"), Delivery::Unrouted);
    assert!(matches!(b.add_switch(&cfg), Ok(AddStep::AlreadyBridged)));
    assert!(b.availability_subscribed(0, Err(Error::mqtt("full".to_owned()))).is_err());
}

#[test]
fn announcements_are_idempotent() {
    let mut b = bridged(2);
    let mut again = switch("s0", true);
    again.name = "Renamed".to_owned();
    again.state_topic = "elsewhere".to_owned();
    assert!(matches!(b.add_switch(&again), Ok(AddStep::AlreadyBridged)));
    assert_eq!(b.device_views().len(), 2);
    assert_eq!(b.device_views()[0].name, "Switch s0");
    assert_eq!(b.deliver("elsewhere", b"ON"), Delivery::Unrouted);
}

#[test]
fn the_pool_is_bounded() {
    let mut b = bridged(MAX_DEVICES);
    assert_eq!(b.device_views().len(), 16);
    assert_eq!(b.device_views()[15].endpoint, 17);
    match b.add_switch(&switch("more", true)) {
        Err(Error::Config(text)) => {
            assert_eq!(text, "device pool full (16); cannot bridge `Switch more`")
        }
        other => panic!("{other:?}"),
    }
    assert!(matches!(b.add_switch(&switch("s3", true)), Ok(AddStep::AlreadyBridged)));
}

#[test]
fn endpoints_match_the_devices() {
    let b = bridged(3);
    let ids: Vec<u16> = b.endpoints().iter().map(|e| e.id).collect();
    assert_eq!(ids, vec![0, 1, 2, 3, 4]);
    assert_eq!(empty().endpoints().len(), 2);
}

#[test]
fn reported_state_reaches_its_device() {
    let mut b = bridged(3);
    assert_eq!(b.deliver("s1/state", b"ON"), Delivery::State { slots: vec![1], on: true });
    assert!(!b.device_views()[1].on);
    assert_eq!(b.received(1, Some(true)), ReportStep::Update);
    let on: Vec<bool> = b.device_views().iter().map(|d| d.on).collect();
    assert_eq!(on, vec![false, true, false]);
    for payload in ["OFF", "on", "ON ", ""] {
        assert_eq!(
            b.deliver("s1/state", payload.as_bytes()),
            Delivery::State { slots: vec![1], on: false }
        );
    }
    assert_eq!(b.received(1, None), ReportStep::Park);
    assert!(b.device_views()[1].on);
}

#[test]
fn availability_reaches_its_device() {
    let mut b = bridged(2);
    assert_eq!(
        b.deliver("s1/status", b"offline"),
        Delivery::Availability { online: false }
    );
    let reachable: Vec<bool> = b.device_views().iter().map(|d| d.reachable).collect();
    assert_eq!(reachable, vec![true, false]);
    assert_eq!(b.bridged(1).dataver(), 8);
    assert_eq!(b.bridged(0).dataver(), 7);
    assert_eq!(
        b.deliver("s1/status", b"online"),
        Delivery::Availability { online: true }
    );
    assert!(b.device_views()[1].reachable);
    assert_eq!(b.deliver("s9/status", b"online"), Delivery::Unrouted);
}

#[test]
fn a_state_topic_comes_before_an_availability_topic() {
    let mut b = bridged(1);
    let mut cfg = switch("other", true);
    cfg.availability_topic = Some("s0/state".to_owned());
    b.add_switch(&cfg).unwrap();
    b.state_subscribed(1, &cfg, Ok(())).unwrap();
    assert_eq!(b.deliver("s0/state", b"online"), Delivery::State { slots: vec![0], on: false });
    assert!(b.device_views()[1].reachable);
}

#[test]
fn commands_are_published() {
    let mut b = bridged(2);
    let p = b.set_on_off(1, true).unwrap();
    assert_eq!((p.topic.as_str(), p.payload.as_str()), ("s1/command", "ON"));
    assert!(b.on_off(1));
    assert!(!b.on_off(0));
    let p = b.set_on_off(1, false).unwrap();
    assert_eq!((p.topic.as_str(), p.payload.as_str()), ("s1/command", "OFF"));
    assert!(!b.on_off(1));
}

#[test]
fn commands_before_activation_are_ignored() {
    let mut b = bridged(1);
    assert!(b.set_on_off(5, true).is_none());
    assert!(Activation::new().publish(true).is_none());
}

#[test]
fn an_echoed_command_settles() {
    for on in [true, false] {
        let mut b = bridged(1);
        let p = b.set_on_off(0, on).unwrap();
        match b.deliver("s0/state", p.payload.as_bytes()) {
            Delivery::State { slots, on: reported } => {
                assert_eq!(reported, on);
                for slot in slots {
                    b.received(slot, Some(reported));
                }
            }
            other => panic!("{other:?}"),
        }
        assert_eq!(b.on_off(0), on);
    }
}

#[test]
fn start_up_behaviour_is_kept() {
    let mut b = bridged(1);
    assert_eq!(b.start_up_on_off(0), None);
    b.set_start_up_on_off(0, Some(StartUpOnOff::Toggle));
    assert_eq!(b.start_up_on_off(0), Some(StartUpOnOff::Toggle));
    b.set_start_up_on_off(0, None);
    assert_eq!(b.start_up_on_off(0), None);
}

#[test]
fn devices_can_be_renamed() {
    let mut b = bridged(2);
    b.set_node_label(1, "Porch".to_owned());
    assert_eq!(b.device_views()[1].name, "Porch");
    assert_eq!(b.bridged(1).node_label(), "Porch");
    assert_eq!(b.bridged(1).unique_id(), "s1");
    assert!(b.bridged(1).reachable());
    assert_eq!(b.bridged(1).dataver(), 7);
    b.dataver_changed(1);
    assert_eq!(b.bridged(1).dataver(), 8);
    // Announced again, it keeps its new name.
    assert!(matches!(b.add_switch(&switch("s1", true)), Ok(AddStep::AlreadyBridged)));
    assert_eq!(b.device_views()[1].name, "Porch");
}

#[test]
fn data_versions_wrap() {
    let mut h = BridgedHandler::new(u32::MAX);
    h.set_reachable(true);
    assert_eq!(h.dataver(), 0);
    h.activate("id".to_owned(), "label".to_owned());
    assert_eq!(h.snapshot(), ("id".to_owned(), "label".to_owned(), true));
    assert_eq!(h.dataver(), 0);
}

#[test]
fn a_switch_keeps_both_directions_apart() {
    let mut s = MqttOnOff::new(Activation::new());
    assert!(s.set_on_off(true).is_none());
    s.bind("c".to_owned());
    assert_eq!(s.received(Some(false)), ReportStep::Update);
    assert!(!s.on_off());
    assert_eq!(s.set_on_off(true).unwrap().topic, "c");
    assert!(s.on_off());
}

#[test]
fn operations_are_routed() {
    let b = bridged(2);
    let on = |slot, cluster| Ok(Target { slot, cluster });
    assert_eq!(b.read(Some(2), Some(DESC_ID)), on(0, SwitchCluster::Descriptor));
    assert_eq!(b.read(Some(3), Some(GROUPS_ID)), on(1, SwitchCluster::Groups));
    assert_eq!(b.read(Some(3), Some(BRIDGED_ID)), on(1, SwitchCluster::Bridged));
    assert_eq!(b.read(Some(3), Some(ONOFF_ID)), on(1, SwitchCluster::OnOff));
    assert_eq!(b.read(Some(3), Some(0x28)), Err(RouteError::AttributeNotFound));
    assert_eq!(b.read(Some(3), None), Err(RouteError::AttributeNotFound));

    assert_eq!(b.write(Some(2), Some(BRIDGED_ID)), on(0, SwitchCluster::Bridged));
    assert_eq!(b.write(Some(2), Some(ONOFF_ID)), on(0, SwitchCluster::OnOff));
    assert_eq!(b.write(Some(2), Some(DESC_ID)), Err(RouteError::AttributeNotFound));
    assert_eq!(b.write(Some(2), Some(GROUPS_ID)), Err(RouteError::AttributeNotFound));

    assert_eq!(b.invoke(Some(2), Some(GROUPS_ID)), on(0, SwitchCluster::Groups));
    assert_eq!(b.invoke(Some(2), Some(ONOFF_ID)), on(0, SwitchCluster::OnOff));
    assert_eq!(b.invoke(Some(2), Some(DESC_ID)), Err(RouteError::CommandNotFound));
    assert_eq!(b.invoke(Some(2), Some(BRIDGED_ID)), Err(RouteError::CommandNotFound));
}

#[test]
fn listed_clusters_are_answered() {
    let b = bridged(1);
    for id in 0..0x100 {
        assert_eq!(
            b.read(Some(2), Some(id)).is_ok(),
            clusters(EndpointKind::Switch).contains(&id)
        );
    }
}

#[test]
fn unknown_endpoints_are_refused() {
    let b = bridged(2);
    for endpoint in [None, Some(0), Some(1), Some(4), Some(17), Some(18), Some(u16::MAX)] {
        assert_eq!(b.read(endpoint, Some(DESC_ID)), Err(RouteError::EndpointNotFound));
        assert_eq!(b.write(endpoint, Some(ONOFF_ID)), Err(RouteError::EndpointNotFound));
        assert_eq!(b.invoke(endpoint, Some(ONOFF_ID)), Err(RouteError::EndpointNotFound));
    }
}

#[test]
fn data_versions_belong_to_slots() {
    let b = empty();
    assert_eq!(
        b.bump_dataver(Some(17), Some(ONOFF_ID)),
        Some(Target { slot: 15, cluster: SwitchCluster::OnOff })
    );
    assert_eq!(b.bump_dataver(Some(18), Some(ONOFF_ID)), None);
    assert_eq!(b.bump_dataver(Some(2), Some(0x28)), None);
    assert_eq!(b.bump_dataver(None, Some(DESC_ID)), None);
    assert_eq!(b.slot_for(Some(2)), Some(0));
    assert_eq!(b.slot_for(Some(1)), None);
}

#[test]
fn root_operations_go_to_the_system() {
    assert!(RootEndpoints.matches(None));
    assert!(RootEndpoints.matches(Some(0)));
    assert!(RootEndpoints.matches(Some(1)));
    assert!(!RootEndpoints.matches(Some(2)));
}

#[test]
fn additions_are_reported_on_the_aggregator() {
    assert_eq!(
        Bridge::notify_added(true),
        NotifyStep::Report(AttributeChange { endpoint: 1, cluster: 0x1d, attribute: 3 })
    );
    assert_eq!(Bridge::notify_added(false), NotifyStep::Park);
}

#[test]
fn everything_is_subscribed_to_again() {
    let b = bridged(2);
    let mut topics = b.resubscribe("homeassistant/switch/#");
    assert_eq!(topics[0], "homeassistant/switch/#");
    topics.sort();
    assert_eq!(
        topics,
        vec!["homeassistant/switch/#", "s0/state", "s0/status", "s1/state", "s1/status"]
    );
    assert_eq!(empty().resubscribe("f"), vec!["f"]);
}

#[test]
fn shared_topics_are_subscribed_to_once() {
    let mut b = bridged(1);
    let mut cfg = switch("twin", true);
    cfg.availability_topic = Some("s0/status".to_owned());
    b.add_switch(&cfg).unwrap();
    b.state_subscribed(1, &cfg, Ok(())).unwrap();
    let mut topics = b.resubscribe("f");
    topics.sort();
    assert_eq!(topics, vec!["f", "s0/state", "s0/status", "twin/state"]);
    // The topic drives both devices.
    assert_eq!(b.deliver("s0/status", b"offline"), Delivery::Availability { online: false });
    let reachable: Vec<bool> = b.device_views().iter().map(|d| d.reachable).collect();
    assert_eq!(reachable, vec![false, false]);
}

#[test]
fn every_device_of_a_topic_follows_it() {
    let mut b = empty();
    for (id, status) in [("a", "board"), ("b", "other"), ("c", "board")] {
        let mut cfg = switch(id, true);
        cfg.availability_topic = Some(status.to_owned());
        b.add_switch(&cfg).unwrap();
        let slot = b.active_slots().len() - 1;
        b.state_subscribed(slot, &cfg, Ok(())).unwrap();
    }
    let reachable = |b: &Bridge| -> Vec<bool> {
        b.device_views().iter().map(|d| d.reachable).collect()
    };
    b.deliver("board", b"offline");
    assert_eq!(reachable(&b), vec![false, true, false]);
    b.deliver("other", b"offline");
    b.deliver("board", b"online");
    assert_eq!(reachable(&b), vec![true, false, true]);
    assert_eq!(b.bridged(0).dataver(), 9);
    assert_eq!(b.bridged(1).dataver(), 8);
}

#[test]
fn a_shared_state_topic_reaches_every_device() {
    let mut b = bridged(2);
    let mut cfg = switch("twin", false);
    cfg.state_topic = "s0/state".to_owned();
    b.add_switch(&cfg).unwrap();
    match b.deliver("s0/state", b"ON") {
        Delivery::State { slots, on } => {
            assert_eq!(slots, vec![0, 2]);
            for slot in slots {
                b.received(slot, Some(on));
            }
        }
        other => panic!("{other:?}"),
    }
    let on: Vec<bool> = b.device_views().iter().map(|d| d.on).collect();
    assert_eq!(on, vec![true, false, true]);
}

#[test]
fn route_tables() {
    let mut t = RouteTable::new();
    assert_eq!(t.get("a"), None);
    t.insert("a".to_owned(), 1);
    t.insert("b".to_owned(), 2);
    t.insert("a".to_owned(), 3);
    assert_eq!(t.get("a"), Some(3));
    assert_eq!(t.get("b"), Some(2));
}
