//! The status page.

use boss::bridge::node::MAX_DEVICES;
use boss::bridge::{Bridge, DeviceView};
use boss::discovery::{DeviceInfo, SwitchConfig};
use boss::web::{
    build_commissioning, listening, online, page, qr_svg, response, QrMatrix, ServeStep, FALLBACK,
};

fn device(reachable: bool) -> DeviceView {
    DeviceView {
        endpoint: 2,
        name: "Lamp".to_owned(),
        unique_id: "lamp".to_owned(),
        reachable,
        on: false,
    }
}

fn qr(rows: &[&str]) -> Option<QrMatrix> {
    QrMatrix::new(rows.iter().map(|r| r.chars().map(|c| c == '#').collect()).collect())
}

const TWO_BY_TWO: &str = "<svg xmlns=\"http://www.w3.org/2000/svg\" viewBox=\"0 0 10 10\" \
class=\"qr\" shape-rendering=\"crispEdges\" role=\"img\" aria-label=\"Matter pairing QR code\">\
<rect width=\"10\" height=\"10\" fill=\"#fff\"/><g fill=\"#0b1220\">\
<rect x=\"5\" y=\"4\" width=\"1\" height=\"1\"/>\
<rect x=\"4\" y=\"5\" width=\"1\" height=\"1\"/>\
<rect x=\"5\" y=\"5\" width=\"1\" height=\"1\"/>\
</g></svg>";

#[test]
fn the_code_is_drawn_row_by_row() {
    assert_eq!(qr_svg(&qr(&[".#", "##"]).unwrap()), TWO_BY_TWO);
}

#[test]
fn an_empty_code_is_only_its_border() {
    let svg = qr_svg(&qr(&[]).unwrap());
    assert!(svg.contains("viewBox=\"0 0 8 8\""));
    assert!(svg.ends_with("<g fill=\"#0b1220\"></g></svg>"));
}

#[test]
fn every_dark_module_is_drawn_once() {
    let rows = ["#..#.", ".....", "##.##", "....#", "#...."];
    let svg = qr_svg(&qr(&rows).unwrap());
    for (y, row) in rows.iter().enumerate() {
        for (x, c) in row.chars().enumerate() {
            let rect = format!("<rect x=\"{}\" y=\"{}\" width=\"1\" height=\"1\"/>", x + 4, y + 4);
            assert_eq!(svg.matches(&rect).count(), if c == '#' { 1 } else { 0 });
        }
    }
}

#[test]
fn only_squares_are_codes() {
    assert!(qr(&["##", "#"]).is_none());
    assert!(qr(&["##"]).is_none());
    assert!(qr(&["#"]).is_some());
}

#[test]
fn commissioning_info_is_put_together() {
    let c = build_commissioning(
        "MT:-24J0AFN00KA0648G00".to_owned(),
        &qr(&[".#", "##"]).unwrap(),
        "3497-0112-332".to_owned(),
    );
    assert_eq!(c.qr_text, "MT:-24J0AFN00KA0648G00");
    assert_eq!(c.manual_code, "3497-0112-332");
    assert_eq!(c.qr_svg, TWO_BY_TWO);
}

#[test]
fn online_devices_are_counted() {
    assert_eq!(online(&vec![]), 0);
    assert_eq!(online(&vec![device(true), device(false), device(true)]), 2);
}

#[test]
fn the_page_shows_the_bridge() {
    let mut bridge = Bridge::new([0; MAX_DEVICES]);
    for id in ["a", "b"] {
        let cfg = SwitchConfig {
            name: format!("Lamp {id}"),
            state_topic: format!("{id}/state"),
            command_topic: format!("{id}/command"),
            availability_topic: Some(format!("{id}/status")),
            unique_id: id.to_owned(),
            device: DeviceInfo {
                identifiers: String::new(),
                name: String::new(),
                sw_version: String::new(),
                model: String::new(),
                manufacturer: String::new(),
                connections: vec![],
            },
        };
        bridge.add_switch(&cfg).unwrap();
        let slot = bridge.active_slots().len() - 1;
        bridge.state_subscribed(slot, &cfg, Ok(())).unwrap();
    }
    bridge.deliver("a/status", b"offline");
    let comm = build_commissioning("t".to_owned(), &qr(&["#"]).unwrap(), "m".to_owned());
    let p = page(&bridge, &comm);
    assert_eq!(p.online, 1);
    assert_eq!(p.devices.len(), 2);
    assert_eq!(p.devices[0].name, "Lamp a");
    assert!(!p.devices[0].reachable);
    assert_eq!(p.devices[1].endpoint, 3);
    assert_eq!(p.qr_svg, comm.qr_svg);
    assert_eq!(p.manual_code, "m");
    assert_eq!(p.qr_text, "t");
}

#[test]
fn the_reply_counts_bytes() {
    assert_eq!(
        response(Ok("<p>grün".to_owned())),
        "HTTP/1.1 200 OK\r\nContent-Type: text/html; charset=utf-8\r\n\
         Content-Length: 8\r\nConnection: close\r\n\r\n<p>grün"
    );
}

#[test]
fn a_failed_page_is_replaced() {
    let r = response(Err("no template".to_owned()));
    assert!(r.starts_with("HTTP/1.1 200 OK\r\n"));
    assert!(r.contains("Content-Length: 51\r\n"));
    assert!(r.ends_with("\r\n\r\n<!doctype html><title>boss</title><p>internal error"));
    assert_eq!(FALLBACK.len(), 51);
}

#[test]
fn a_failed_bind_only_disables_the_page() {
    assert_eq!(listening(true), ServeStep::Accept);
    assert_eq!(listening(false), ServeStep::Park);
}
