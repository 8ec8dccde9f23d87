//! Error messages.

use boss::error::Error;

#[test]
fn messages() {
    let e = Error::Discovery {
        topic: "a/b".to_owned(),
        source: "eof".to_owned(),
    };
    assert_eq!(e.message(), "invalid discovery payload on topic `a/b`: eof");
    assert_eq!(
        Error::DiscoveryTopic("x".to_owned()).message(),
        "malformed discovery topic `x`"
    );
    assert_eq!(
        Error::UnknownComponent("fan".to_owned()).message(),
        "no device type registered for component `fan`"
    );
    assert_eq!(
        Error::mqtt("gone".to_owned()).message(),
        "mqtt error: gone"
    );
    assert_eq!(
        Error::config("bad".to_owned()).message(),
        "configuration error: bad"
    );
}
