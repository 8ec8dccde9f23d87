//! The connection to the broker.

use boss::config::Config;
use boss::error::Error;
use boss::mqtt::{
    client_id, connect_options, forwarded, on_event, published, spawned, subscribed, Event,
    EventStep, Incoming, LoopStep,
};

fn config(user: Option<&str>, password: Option<&str>) -> Config {
    Config {
        mqtt_host: "broker.example".to_owned(),
        mqtt_port: 8883,
        mqtt_username: user.map(|s| s.to_owned()),
        mqtt_password: password.map(|s| s.to_owned()),
        ..Config::default()
    }
}

fn cause(r: Result<(), Error>) -> String {
    match r {
        Err(Error::Mqtt(text)) => text,
        other => panic!("{other:?}"),
    }
}

#[test]
fn options_come_from_the_configuration() {
    let o = connect_options(&config(Some("me"), Some("secret")), "boss-1-a");
    assert_eq!(o.client_id, "boss-1-a");
    assert_eq!(o.host, "broker.example");
    assert_eq!(o.port, 8883);
    assert_eq!(o.keep_alive_secs, 30);
    assert_eq!(o.request_capacity, 16);
    assert_eq!(o.incoming_capacity, 256);
    let c = o.credentials.unwrap();
    assert_eq!((c.user.as_str(), c.password.as_str()), ("me", "secret"));
}

#[test]
fn a_missing_password_is_empty() {
    let c = connect_options(&config(Some("me"), None), "x").credentials.unwrap();
    assert_eq!((c.user.as_str(), c.password.as_str()), ("me", ""));
}

#[test]
fn a_password_alone_is_not_used() {
    assert!(connect_options(&config(None, Some("secret")), "x").credentials.is_none());
    assert!(connect_options(&config(None, None), "x").credentials.is_none());
}

#[test]
fn publishes_are_forwarded() {
    let message = Incoming {
        topic: "a/b".to_owned(),
        payload: vec![1, 2],
        retain: true,
    };
    match on_event(Event::Publish(message)) {
        EventStep::Forward(m) => {
            assert_eq!(m.topic, "a/b");
            assert_eq!(m.payload, vec![1, 2]);
            assert!(m.retain);
        }
        other => panic!("{other:?}"),
    }
}

#[test]
fn other_events() {
    assert!(matches!(on_event(Event::Connected), EventStep::SignalConnected));
    assert!(matches!(on_event(Event::Other), EventStep::Continue));
    match on_event(Event::Failed("refused".to_owned())) {
        EventStep::Warn(cause) => assert_eq!(cause, "refused"),
        other => panic!("{other:?}"),
    }
}

#[test]
fn the_loop_stops_with_its_receiver() {
    assert_eq!(forwarded(true), LoopStep::Next);
    assert_eq!(forwarded(false), LoopStep::Stop);
}

#[test]
fn failures_name_the_topic() {
    assert!(subscribed("a/#", Ok(())).is_ok());
    assert!(published("a/b", Ok(())).is_ok());
    assert!(spawned(Ok(())).is_ok());
    assert_eq!(cause(subscribed("a/#", Err("full".to_owned()))), "subscribe `a/#`: full");
    assert_eq!(cause(published("a/b", Err("full".to_owned()))), "publish `a/b`: full");
    assert_eq!(cause(spawned(Err("eagain".to_owned()))), "spawn mqtt thread: eagain");
}

#[test]
fn client_ids() {
    assert_eq!(client_id(4711, 0), "boss-4711-0");
    assert_eq!(client_id(1, 999_999_999), "boss-1-3b9ac9ff");
    assert_ne!(client_id(1, 0x11), client_id(11, 0x1));
}
