//! Command-line configuration.

use boss::config::{Config, USAGE};
use boss::error::Error;

fn parse(args: &[&str]) -> Result<Config, Error> {
    Config::from_iter(args.iter().map(|s| s.to_string()).collect())
}

fn failure(args: &[&str]) -> String {
    match parse(args) {
        Err(Error::Config(text)) => text,
        other => panic!("expected a configuration error, got {other:?}"),
    }
}

#[test]
fn defaults_when_no_args() {
    let c = parse(&[]).unwrap();
    assert_eq!(c.mqtt_host, "localhost");
    assert_eq!(c.mqtt_port, 1883);
    assert_eq!(c.discovery_filter("switch"), "homeassistant/switch/#");
}

#[test]
fn parses_flags() {
    let c = parse(&["--mqtt-host", "broker.example", "--mqtt-port", "8883"]).unwrap();
    assert_eq!(c.mqtt_host, "broker.example");
    assert_eq!(c.mqtt_port, 8883);
}

#[test]
fn errors_on_bad_port_and_unknown_flag() {
    assert!(parse(&["--mqtt-port", "nope"]).is_err());
    assert!(parse(&["--frobnicate"]).is_err());
    assert!(parse(&["--mqtt-host"]).is_err()); // missing value
}

#[test]
fn remaining_defaults() {
    let c = Config::default();
    assert_eq!(c.mqtt_username, None);
    assert_eq!(c.mqtt_password, None);
    assert_eq!(c.discovery_prefix, "homeassistant");
    assert_eq!(c.state_dir, None);
    assert_eq!(c.http_port, 80);
}

#[test]
fn every_flag_sets_its_own_setting() {
    let c = parse(&[
        "--mqtt-host",
        "192.0.2.10",
        "--mqtt-port",
        "1884",
        "--mqtt-user",
        "me",
        "--mqtt-pass",
        "secret",
        "--discovery-prefix",
        "ha",
        "--state-dir",
        "/var/lib/boss",
        "--http-port",
        "8080",
    ])
    .unwrap();
    assert_eq!(c.mqtt_host, "192.0.2.10");
    assert_eq!(c.mqtt_port, 1884);
    assert_eq!(c.mqtt_username.as_deref(), Some("me"));
    assert_eq!(c.mqtt_password.as_deref(), Some("secret"));
    assert_eq!(c.discovery_prefix, "ha");
    assert_eq!(c.state_dir.as_deref(), Some("/var/lib/boss"));
    assert_eq!(c.http_port, 8080);
    assert_eq!(c.discovery_filter("sensor"), "ha/sensor/#");
}

#[test]
fn failures_are_specific() {
    assert_eq!(failure(&["--mqtt-port", "nope"]), "invalid --mqtt-port `nope`");
    assert_eq!(failure(&["--http-port", "65536"]), "invalid --http-port `65536`");
    assert_eq!(failure(&["--mqtt-host"]), "missing value for `--mqtt-host`");
    assert_eq!(failure(&["--frobnicate"]), format!("unknown flag `--frobnicate`\n{USAGE}"));
    assert_eq!(failure(&["--help"]), USAGE);
    assert_eq!(failure(&["-h"]), USAGE);
}

#[test]
fn the_first_failure_is_reported() {
    assert_eq!(failure(&["--mqtt-port", "x", "--help"]), "invalid --mqtt-port `x`");
    assert_eq!(failure(&["-h", "--mqtt-port", "x"]), USAGE);
    assert_eq!(
        failure(&["--mqtt-host", "a", "--mqtt-user"]),
        "missing value for `--mqtt-user`"
    );
}

#[test]
fn a_flag_may_be_the_value_of_another() {
    let c = parse(&["--mqtt-host", "--help"]).unwrap();
    assert_eq!(c.mqtt_host, "--help");
    let c = parse(&["--mqtt-user", ""]).unwrap();
    assert_eq!(c.mqtt_username.as_deref(), Some(""));
}

#[test]
fn the_last_value_of_a_flag_wins() {
    let c = parse(&["--mqtt-port", "1", "--mqtt-host", "h", "--mqtt-port", "2"]).unwrap();
    assert_eq!(c.mqtt_port, 2);
    assert_eq!(c.mqtt_host, "h");
}

#[test]
fn ports_are_read_like_numbers() {
    assert_eq!(parse(&["--mqtt-port", "0"]).unwrap().mqtt_port, 0);
    assert_eq!(parse(&["--mqtt-port", "65535"]).unwrap().mqtt_port, 65535);
    assert_eq!(parse(&["--mqtt-port", "+80"]).unwrap().mqtt_port, 80);
    assert_eq!(parse(&["--mqtt-port", "000080"]).unwrap().mqtt_port, 80);
    for bad in ["", "+", "-1", " 80", "80 ", "0x50", "65536", "99999999999999999999", "8 0"] {
        assert_eq!(
            failure(&["--mqtt-port", bad]),
            format!("invalid --mqtt-port `{bad}`")
        );
    }
}

#[test]
fn usage_names_every_flag() {
    for flag in [
        "--mqtt-host",
        "--mqtt-port",
        "--mqtt-user",
        "--mqtt-pass",
        "--discovery-prefix",
        "--state-dir",
        "--http-port",
        "-h, --help",
    ] {
        assert!(USAGE.contains(flag), "{flag}");
    }
}
