//! What the MQTT side does with its connection to the broker: how it connects,
//! and what becomes of each thing that happens on the connection.

use vstd::prelude::*;

use crate::config::Config;
use crate::error::Error;
use crate::text::{decimal_text, hexadecimal_text};

verus! {

/// Seconds between the pings that keep an idle connection alive.
pub const KEEP_ALIVE_SECS: u64 = 30;

/// How many requests to the broker may be pending.
pub const REQUEST_CAPACITY: usize = 16;

/// How many incoming messages may be pending. When as many are, the receive
/// loop waits.
pub const INCOMING_CAPACITY: usize = 256;

/// An incoming retained/live publish from the broker.
#[derive(Debug, Clone)]
pub struct Incoming {
    pub topic: String,
    pub payload: Vec<u8>,
    pub retain: bool,
}

/// Who to connect to the broker as.
#[derive(Debug)]
pub struct Credentials {
    pub user: String,
    pub password: String,
}

/// What to connect to the broker with.
#[derive(Debug)]
pub struct ConnectOptions {
    pub client_id: String,
    pub host: String,
    pub port: u16,
    pub keep_alive_secs: u64,
    pub credentials: Option<Credentials>,
    pub request_capacity: usize,
    pub incoming_capacity: usize,
}

/// What to connect to the configured broker with. Credentials are given only
/// where a user is configured; the password is then empty unless it is, too.
pub fn connect_options(cfg: &Config, client_id: &str) -> (r: ConnectOptions)
    ensures
        r.client_id@ == client_id@,
        r.host@ == cfg@.mqtt_host,
        r.port == cfg@.mqtt_port,
        r.keep_alive_secs == KEEP_ALIVE_SECS,
        match cfg@.mqtt_username {
            Some(user) => {
                &&& r.credentials matches Some(credentials)
                &&& credentials.user@ == user
                &&& credentials.password@ == (match cfg@.mqtt_password {
                    Some(password) => password,
                    None => Seq::empty(),
                })
            },
            None => r.credentials is None,
        },
        r.request_capacity == REQUEST_CAPACITY,
        r.incoming_capacity == INCOMING_CAPACITY,
{
    let credentials = match &cfg.mqtt_username {
        Some(user) => {
            let password = match &cfg.mqtt_password {
                Some(password) => password.clone(),
                None => String::new(),
            };
            Some(Credentials { user: user.clone(), password })
        },
        None => None,
    };
    ConnectOptions {
        client_id: client_id.to_owned(),
        host: cfg.mqtt_host.clone(),
        port: cfg.mqtt_port,
        keep_alive_secs: KEEP_ALIVE_SECS,
        credentials,
        request_capacity: REQUEST_CAPACITY,
        incoming_capacity: INCOMING_CAPACITY,
    }
}

/// Something that happened on the connection.
#[derive(Debug)]
pub enum Event {
    /// The broker sent a message.
    Publish(Incoming),
    /// The broker acknowledged a new connection.
    Connected,
    /// Any other packet, in either direction.
    Other,
    /// The connection failed. It is tried again without further ado.
    Failed(String),
}

/// What the receive loop does about an event.
#[derive(Debug)]
pub enum EventStep {
    /// Hand the message on, waiting for room, and see [`forwarded`].
    Forward(Incoming),
    /// Signal that everything has to be subscribed to anew, then go on.
    SignalConnected,
    /// Warn of the failure, then go on.
    Warn(String),
    /// Go on.
    Continue,
}

/// What the receive loop does about an event.
pub fn on_event(event: Event) -> (step: EventStep)
    ensures
        match event {
            Event::Publish(message) => step == EventStep::Forward(message),
            Event::Connected => step == EventStep::SignalConnected,
            Event::Failed(cause) => step == EventStep::Warn(cause),
            Event::Other => step == EventStep::Continue,
        },
{
    match event {
        Event::Publish(message) => EventStep::Forward(message),
        Event::Connected => EventStep::SignalConnected,
        Event::Failed(cause) => EventStep::Warn(cause),
        Event::Other => EventStep::Continue,
    }
}

/// Whether the receive loop goes on.
#[derive(Debug, Clone, Copy, PartialEq, Eq, Structural)]
pub enum LoopStep {
    Next,
    Stop,
}

/// Whether the receive loop goes on once it has handed a message on. That
/// fails only when the receiver is gone, which is the cue to stop.
pub fn forwarded(delivered: bool) -> (step: LoopStep)
    ensures
        step == (if delivered {
            LoopStep::Next
        } else {
            LoopStep::Stop
        }),
{
    if delivered {
        LoopStep::Next
    } else {
        LoopStep::Stop
    }
}

/// An action on a topic, and why it failed.
pub open spec fn topic_failure(action: Seq<char>, topic: Seq<char>, cause: Seq<char>) -> Seq<char> {
    action + " `"@ + topic + "`: "@ + cause
}

fn topic_failure_text(action: &str, topic: &str, cause: &str) -> (r: String)
    ensures
        r@ == topic_failure(action@, topic@, cause@),
{
    let mut text = action.to_owned();
    text.append(" `");
    text.append(topic);
    text.append("`: ");
    text.append(cause);
    text
}

/// What subscribing to a topic filter came to.
pub fn subscribed(topic: &str, outcome: Result<(), String>) -> (r: Result<(), Error>)
    ensures
        match outcome {
            Ok(_) => r is Ok,
            Err(cause) => r matches Err(Error::Mqtt(text)) && text@ == topic_failure(
                "subscribe"@,
                topic@,
                cause@,
            ),
        },
{
    match outcome {
        Ok(_) => Ok(()),
        Err(cause) => Err(Error::mqtt(topic_failure_text("subscribe", topic, cause.as_str()))),
    }
}

/// What publishing to a topic came to.
pub fn published(topic: &str, outcome: Result<(), String>) -> (r: Result<(), Error>)
    ensures
        match outcome {
            Ok(_) => r is Ok,
            Err(cause) => r matches Err(Error::Mqtt(text)) && text@ == topic_failure(
                "publish"@,
                topic@,
                cause@,
            ),
        },
{
    match outcome {
        Ok(_) => Ok(()),
        Err(cause) => Err(Error::mqtt(topic_failure_text("publish", topic, cause.as_str()))),
    }
}

/// What starting the receive loop's thread came to.
pub fn spawned(outcome: Result<(), String>) -> (r: Result<(), Error>)
    ensures
        match outcome {
            Ok(_) => r is Ok,
            Err(cause) => r matches Err(Error::Mqtt(text)) && text@ == "spawn mqtt thread: "@
                + cause@,
        },
{
    match outcome {
        Ok(_) => Ok(()),
        Err(cause) => {
            let mut text = "spawn mqtt thread: ".to_owned();
            text.append(cause.as_str());
            Err(Error::mqtt(text))
        },
    }
}

pub open spec fn client_id_text(process: u32, nonce: u32) -> Seq<char> {
    "boss-"@ + crate::text::decimal(process as nat) + "-"@ + crate::text::hexadecimal(nonce as nat)
}

/// A unique-enough MQTT client id.
pub fn client_id(process: u32, nonce: u32) -> (r: String)
    ensures
        r@ == client_id_text(process, nonce),
{
    let mut text = "boss-".to_owned();
    text.append(decimal_text(process as u64).as_str());
    text.append("-");
    text.append(hexadecimal_text(nonce as u64).as_str());
    text
}

/// Client ids differ wherever the processes or the nonces do.
pub proof fn law_client_ids_differ(process: u32, nonce: u32, other: u32, other_nonce: u32)
    requires
        client_id_text(process, nonce) == client_id_text(other, other_nonce),
    ensures
        process == other,
        nonce == other_nonce,
{
    reveal_strlit("boss-");
    reveal_strlit("-");
    let p = crate::text::decimal(process as nat);
    let q = crate::text::decimal(other as nat);
    let n = crate::text::hexadecimal(nonce as nat);
    let m = crate::text::hexadecimal(other_nonce as nat);
    let s = client_id_text(process, nonce);
    let t = client_id_text(other, other_nonce);
    crate::text::lemma_numeral_digits(process as nat, 10);
    crate::text::lemma_numeral_digits(other as nat, 10);
    assert(s[5 + p.len() as int] == '-');
    assert(t[5 + q.len() as int] == '-');
    if p.len() < q.len() {
        assert(t[5 + p.len() as int] == q[p.len() as int]);
    }
    if q.len() < p.len() {
        assert(s[5 + q.len() as int] == p[q.len() as int]);
    }
    assert(p =~= s.subrange(5, 5 + p.len() as int));
    assert(q =~= t.subrange(5, 5 + q.len() as int));
    assert(n =~= s.skip(6 + p.len() as int));
    assert(m =~= t.skip(6 + q.len() as int));
    crate::text::law_numerals_are_unique(process as nat, other as nat, 10);
    crate::text::law_numerals_are_unique(nonce as nat, other_nonce as nat, 16);
}

/// A failure on a topic names the action and the topic, and gives the cause in
/// full; a client id gives the process in decimal and the nonce in hexadecimal,
/// both in full.
pub proof fn law_texts_are_complete(
    action: Seq<char>,
    topic: Seq<char>,
    cause: Seq<char>,
    process: u32,
    nonce: u32,
)
    ensures
        topic_failure(action, topic, cause) == action + seq![' ', '`'] + topic + seq!['`', ':', ' ']
            + cause,
        client_id_text(process, nonce) == seq!['b', 'o', 's', 's', '-'] + crate::text::decimal(
            process as nat,
        ) + seq!['-'] + crate::text::hexadecimal(nonce as nat),
{
    reveal_strlit(" `");
    reveal_strlit("`: ");
    reveal_strlit("boss-");
    reveal_strlit("-");
    assert(" `"@ =~= seq![' ', '`']);
    assert("`: "@ =~= seq!['`', ':', ' ']);
    assert("boss-"@ =~= seq!['b', 'o', 's', 's', '-']);
    assert("-"@ =~= seq!['-']);
}

} // verus!
