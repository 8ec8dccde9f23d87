//! Selection of the network interface.

use boss::mdns::{initialize_network, Address, Interface, Selection};

const LOCAL: u128 = 0xfe80_0000_0000_0000_0000_0000_0000_0001;
const GLOBAL: u128 = 0x2001_0db8_0000_0000_0000_0000_0000_0001;
const LAN: u32 = 0xc000_0214; // 192.0.2.20

fn v4(name: &str, index: Option<u32>, ip: u32) -> Interface {
    Interface { name: name.to_owned(), index, address: Address::V4(ip) }
}

fn v6(name: &str, index: Option<u32>, ip: u128) -> Interface {
    Interface { name: name.to_owned(), index, address: Address::V6(ip) }
}

fn parts(s: Option<Selection>) -> Option<(String, u32, u128, u32)> {
    s.map(|s| (s.name, s.ipv4, s.ipv6, s.index))
}

#[test]
fn link_local_comes_first() {
    let all = vec![
        v6("wlan0", Some(3), GLOBAL),
        v4("wlan0", Some(3), LAN),
        v4("eth0", Some(2), LAN + 1),
        v6("eth0", Some(2), LOCAL),
    ];
    assert_eq!(
        parts(initialize_network(&all)),
        Some(("eth0".to_owned(), LAN + 1, LOCAL, 2))
    );
}

#[test]
fn any_ipv6_comes_next() {
    let all = vec![
        v4("eth0", Some(2), LAN),
        v6("wlan0", None, GLOBAL),
        v4("wlan0", None, LAN + 7),
        v4("wlan0", None, LAN + 8),
    ];
    assert_eq!(
        parts(initialize_network(&all)),
        Some(("wlan0".to_owned(), LAN + 7, GLOBAL, 0))
    );
}

#[test]
fn a_wired_interface_will_do() {
    let all = vec![
        v4("lo", Some(1), 0x7f00_0001),
        v6("lo", Some(1), 1),
        v4("wlan0", Some(3), LAN),
        v4("eno1", Some(4), LAN + 1),
        v4("eth0", Some(2), LAN + 2),
    ];
    assert_eq!(
        parts(initialize_network(&all)),
        Some(("eno1".to_owned(), LAN + 1, 0, 4))
    );
}

#[test]
fn an_ipv6_address_needs_an_ipv4_partner() {
    let all = vec![
        v6("tun0", Some(9), LOCAL),
        v6("eth0", Some(2), LOCAL + 1),
        v4("eth0", Some(2), LAN),
    ];
    assert_eq!(
        parts(initialize_network(&all)),
        Some(("eth0".to_owned(), LAN, LOCAL + 1, 2))
    );
}

#[test]
fn loopback_addresses_are_never_used() {
    assert!(initialize_network(&vec![]).is_none());
    assert!(initialize_network(&vec![v4("lo", Some(1), 0x7f00_0001), v6("lo", Some(1), 1)]).is_none());
    assert!(initialize_network(&vec![v4("eth0", None, 0x7fff_ffff)]).is_none());
    assert!(initialize_network(&vec![v6("lo", Some(1), GLOBAL), v4("lo", Some(1), 0x7f00_0001)])
        .is_none());
}

#[test]
fn other_ipv4_only_interfaces_are_not_used() {
    assert!(initialize_network(&vec![v4("wlan0", Some(3), LAN)]).is_none());
    assert!(initialize_network(&vec![v6("eth0", Some(2), GLOBAL)]).is_none());
}

#[test]
fn bounds_of_the_address_ranges() {
    assert!(Address::V4(0x7f00_0000).is_loopback());
    assert!(Address::V4(0x7fff_ffff).is_loopback());
    assert!(!Address::V4(0x7eff_ffff).is_loopback());
    assert!(!Address::V4(0x8000_0000).is_loopback());
    assert!(Address::V6(1).is_loopback());
    assert!(!Address::V6(0).is_loopback());
    let last: u128 = 0xfebf_ffff_ffff_ffff_ffff_ffff_ffff_ffff;
    for (ip, local) in [(last, true), (last + 1, false), (LOCAL, true)] {
        let all = vec![
            v6("a", Some(1), GLOBAL),
            v4("a", Some(1), LAN),
            v6("b", Some(2), ip),
            v4("b", Some(2), LAN),
        ];
        let s = initialize_network(&all).unwrap();
        assert_eq!(s.index, if local { 2 } else { 1 });
    }
}
