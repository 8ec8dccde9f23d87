//! The `switch` device type: on/off state backed by MQTT.
//!
//! Two directions, kept strictly separate so they can't loop:
//! - **Matter to device**: [`MqttOnOff::set_on_off`] is called when a
//!   controller flips the switch; it gives the `ON`/`OFF` to publish to the
//!   command topic.
//! - **device to Matter**: state-topic updates arrive at
//!   [`MqttOnOff::received`], which applies them *without* re-publishing and
//!   asks for the cluster to re-read.

use vstd::prelude::*;

verus! {

/// What a device is told, and what it reports, to be on or off.
pub open spec fn on_off_text(on: bool) -> Seq<char> {
    if on {
        "ON"@
    } else {
        "OFF"@
    }
}

/// The runtime binding of a switch slot to a physical device: the MQTT command
/// topic to publish to.
pub struct Activation {
    command_topic: Option<String>,
}

/// A message to publish.
#[derive(Debug)]
pub struct Publication {
    pub topic: String,
    pub payload: String,
}

/// What is published to turn a device bound to `topic` on or off: nothing
/// before it is bound.
pub open spec fn is_command(p: Option<Publication>, topic: Option<Seq<char>>, on: bool) -> bool {
    match topic {
        Some(t) => p is Some && p->0.topic@ == t && p->0.payload@ == on_off_text(on),
        None => p is None,
    }
}

impl View for Activation {
    type V = Option<Seq<char>>;

    closed spec fn view(&self) -> Option<Seq<char>> {
        match self.command_topic {
            Some(topic) => Some(topic@),
            None => None,
        }
    }
}

impl Activation {
    /// Not bound yet.
    pub fn new() -> (a: Activation)
        ensures
            a@ is None,
    {
        Activation { command_topic: None }
    }

    /// Bind the slot to a device's command topic.
    pub fn bind(&mut self, command_topic: String)
        ensures
            final(self)@ == Some(command_topic@),
    {
        self.command_topic = Some(command_topic);
    }

    /// The message that commands the device; none before activation, when the
    /// command is ignored.
    pub fn publish(&self, on: bool) -> (r: Option<Publication>)
        ensures
            is_command(r, self@, on),
    {
        let payload = if on {
            "ON"
        } else {
            "OFF"
        };
        match &self.command_topic {
            Some(topic) => Some(
                Publication { topic: topic.clone(), payload: payload.to_owned() },
            ),
            None => None,
        }
    }
}

/// What a switch does when it is powered up, as a controller set it.
#[derive(Debug, Clone, Copy, PartialEq, Eq, Structural)]
pub enum StartUpOnOff {
    Off,
    On,
    Toggle,
}

/// What the task that feeds device reports into the cluster does next.
#[derive(Debug, Clone, Copy, PartialEq, Eq, Structural)]
pub enum ReportStep {
    /// Ask the cluster to re-read the state, then wait for the next report.
    Update,
    /// Nothing more will arrive: wait forever.
    Park,
}

/// Device-specific on/off logic for one bridged switch.
pub struct MqttOnOff {
    activation: Activation,
    on: bool,
    start_up: Option<StartUpOnOff>,
}

/// The state of a switch.
#[verifier::ext_equal]
pub struct SwitchState {
    pub command_topic: Option<Seq<char>>,
    pub on: bool,
    pub start_up: Option<StartUpOnOff>,
}

impl View for MqttOnOff {
    type V = SwitchState;

    closed spec fn view(&self) -> SwitchState {
        SwitchState { command_topic: self.activation@, on: self.on, start_up: self.start_up }
    }
}

impl MqttOnOff {
    pub fn new(activation: Activation) -> (s: MqttOnOff)
        ensures
            s@ == (SwitchState { command_topic: activation@, on: false, start_up: None }),
    {
        MqttOnOff { activation, on: false, start_up: None }
    }

    /// Bind the switch to a device's command topic.
    pub fn bind(&mut self, command_topic: String)
        ensures
            final(self)@ == (SwitchState { command_topic: Some(command_topic@), ..old(self)@ }),
    {
        self.activation.bind(command_topic);
    }

    pub fn on_off(&self) -> (on: bool)
        ensures
            on == self@.on,
    {
        self.on
    }

    /// Matter to device: record locally, then command the physical device.
    pub fn set_on_off(&mut self, on: bool) -> (r: Option<Publication>)
        ensures
            final(self)@ == (SwitchState { on, ..old(self)@ }),
            is_command(r, old(self)@.command_topic, on),
    {
        self.on = on;
        self.activation.publish(on)
    }

    pub fn start_up_on_off(&self) -> (r: Option<StartUpOnOff>)
        ensures
            r == self@.start_up,
    {
        self.start_up
    }

    /// In memory only; not persisted across reboots.
    pub fn set_start_up_on_off(&mut self, value: Option<StartUpOnOff>)
        ensures
            final(self)@ == (SwitchState { start_up: value, ..old(self)@ }),
    {
        self.start_up = value;
    }

    /// Device to Matter: a state that the device reported, or `None` once no
    /// more can arrive. It is applied locally, and never published.
    pub fn received(&mut self, report: Option<bool>) -> (step: ReportStep)
        ensures
            match report {
                Some(on) => step == ReportStep::Update && final(self)@ == (SwitchState {
                    on,
                    ..old(self)@
                }),
                None => step == ReportStep::Park && final(self)@ == old(self)@,
            },
    {
        match report {
            Some(on) => {
                self.on = on;
                ReportStep::Update
            },
            None => ReportStep::Park,
        }
    }
}

/// To turn a device on or off, exactly `ON` or `OFF` is published, to exactly
/// the topic it was bound with; before it is bound, nothing is.
pub proof fn law_commands_are_words(p: Option<Publication>, topic: Seq<char>, on: bool)
    ensures
        on_off_text(on) == (if on {
            seq!['O', 'N']
        } else {
            seq!['O', 'F', 'F']
        }),
        is_command(p, Some(topic), on) <==> {
            &&& p matches Some(publication)
            &&& publication.topic@ == topic
            &&& publication.payload@ == (if on {
                seq!['O', 'N']
            } else {
                seq!['O', 'F', 'F']
            })
        },
        is_command(p, None, on) <==> p is None,
{
    reveal_strlit("ON");
    reveal_strlit("OFF");
    assert("ON"@ =~= seq!['O', 'N']);
    assert("OFF"@ =~= seq!['O', 'F', 'F']);
}

} // verus!
