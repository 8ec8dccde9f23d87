//! The single error type for the bridge.
//!
//! Everything fallible returns `Result<_, Error>`. Bad external input
//! (malformed MQTT payloads, broker hiccups) never panics; it is surfaced.

use vstd::prelude::*;

verus! {

/// All the ways an operation in `boss` can fail.
#[derive(Debug)]
pub enum Error {
    /// A discovery payload could not be decoded into a known device. `source`
    /// is what the decoder reported.
    Discovery { topic: String, source: String },
    /// A discovery topic did not match the expected
    /// `homeassistant/<component>/.../config` shape.
    DiscoveryTopic(String),
    /// No registered device type handles this discovery component.
    UnknownComponent(String),
    /// The MQTT client failed (connect, subscribe, publish, ...).
    Mqtt(String),
    /// Bad command-line / environment configuration.
    Config(String),
}

/// What an error says to a reader.
pub open spec fn error_text(e: Error) -> Seq<char> {
    match e {
        Error::Discovery { topic, source } => "invalid discovery payload on topic `"@ + topic@
            + "`: "@ + source@,
        Error::DiscoveryTopic(topic) => "malformed discovery topic `"@ + topic@ + "`"@,
        Error::UnknownComponent(component) => "no device type registered for component `"@
            + component@ + "`"@,
        Error::Mqtt(cause) => "mqtt error: "@ + cause@,
        Error::Config(cause) => "configuration error: "@ + cause@,
    }
}

impl Error {
    pub fn config(msg: String) -> (e: Error)
        ensures
            e == Error::Config(msg),
    {
        Error::Config(msg)
    }

    pub fn mqtt(msg: String) -> (e: Error)
        ensures
            e == Error::Mqtt(msg),
    {
        Error::Mqtt(msg)
    }

    /// The text shown to the user.
    pub fn message(&self) -> (r: String)
        ensures
            r@ == error_text(*self),
    {
        match self {
            Error::Discovery { topic, source } => {
                let mut text = "invalid discovery payload on topic `".to_owned();
                text.append(topic.as_str());
                text.append("`: ");
                text.append(source.as_str());
                text
            },
            Error::DiscoveryTopic(topic) => {
                let mut text = "malformed discovery topic `".to_owned();
                text.append(topic.as_str());
                text.append("`");
                text
            },
            Error::UnknownComponent(component) => {
                let mut text = "no device type registered for component `".to_owned();
                text.append(component.as_str());
                text.append("`");
                text
            },
            Error::Mqtt(cause) => {
                let mut text = "mqtt error: ".to_owned();
                text.append(cause.as_str());
                text
            },
            Error::Config(cause) => {
                let mut text = "configuration error: ".to_owned();
                text.append(cause.as_str());
                text
            },
        }
    }
}

/// Every message names its kind and gives the topic, the component, the cause
/// or the decoder's report in full.
pub proof fn law_messages_are_complete(a: String, b: String)
    ensures
        error_text(Error::Discovery { topic: a, source: b }) == "invalid discovery payload on topic `"@
            + a@ + "`: "@ + b@,
        error_text(Error::DiscoveryTopic(a)) == "malformed discovery topic `"@ + a@ + "`"@,
        error_text(Error::UnknownComponent(a)) == "no device type registered for component `"@ + a@
            + "`"@,
        error_text(Error::Mqtt(a)) == "mqtt error: "@ + a@,
        error_text(Error::Config(a)) == "configuration error: "@ + a@,
{
}

} // verus!
