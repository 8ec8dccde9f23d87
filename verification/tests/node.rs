//! The endpoints of the node.

use boss::bridge::node::{
    clusters, device_endpoint, device_types, write_endpoints, EndpointKind, AGGREGATOR_ENDPOINT,
    FIRST_DEVICE_ENDPOINT, MAX_DEVICES,
};

#[test]
fn endpoints_follow_the_id_scheme() {
    let mut buf = Vec::new();
    write_endpoints(&vec![0, 1, 2], &mut buf);

    // root + aggregator + 3 devices.
    let ids: Vec<u16> = buf.iter().map(|e| e.id).collect();
    assert_eq!(ids, vec![0, AGGREGATOR_ENDPOINT, 2, 3, 4]);
}

#[test]
fn empty_active_set_is_just_root_and_aggregator() {
    let mut buf = Vec::new();
    write_endpoints(&vec![], &mut buf);
    assert_eq!(buf.iter().map(|e| e.id).collect::<Vec<_>>(), vec![0, 1]);
}

#[test]
fn earlier_endpoints_are_replaced() {
    let mut buf = Vec::new();
    write_endpoints(&vec![0, 5], &mut buf);
    write_endpoints(&vec![7], &mut buf);
    let kinds: Vec<(u16, EndpointKind)> = buf.iter().map(|e| (e.id, e.kind)).collect();
    assert_eq!(
        kinds,
        vec![
            (0, EndpointKind::Root),
            (1, EndpointKind::Aggregator),
            (9, EndpointKind::Switch)
        ]
    );
}

#[test]
fn device_endpoints_follow_the_aggregator() {
    assert_eq!(device_endpoint(0), FIRST_DEVICE_ENDPOINT);
    assert_eq!(device_endpoint(MAX_DEVICES - 1), 17);
}

#[test]
fn a_switch_is_a_bridged_light() {
    assert_eq!(device_types(EndpointKind::Switch), vec![0x0100, 0x0013]);
    assert_eq!(clusters(EndpointKind::Switch), vec![0x1d, 0x04, 0x39, 0x06]);
}

#[test]
fn an_aggregator_has_only_its_descriptor() {
    assert_eq!(device_types(EndpointKind::Aggregator), vec![0x000e]);
    assert_eq!(clusters(EndpointKind::Aggregator), vec![0x1d]);
}
