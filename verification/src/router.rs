//! Where incoming MQTT messages go: discovery bridges a device; everything
//! else is a state or availability update of one that is bridged.

use vstd::prelude::*;

use crate::bridge::model::Delivery;
use crate::bridge::Bridge;
use crate::discovery;
use crate::discovery::{DiscoveryTopic, TopicParts};
use crate::mqtt::Incoming;
use crate::text::same_text;

verus! {

/// A message on this topic announces a switch.
pub open spec fn announces_switch(prefix: Seq<char>, topic: Seq<char>) -> bool {
    exists|parts: TopicParts| #[trigger]
        discovery::is_discovery_topic(prefix, topic, parts) && parts.component == "switch"@
}

/// What becomes of a message.
#[derive(Debug, Clone, PartialEq, Eq)]
pub enum MessageStep {
    /// It announces a switch: decode the payload, and bridge what it describes.
    Announcement,
    /// It was delivered.
    Delivered(Delivery),
}

/// Take in a message from the broker.
pub fn on_message(bridge: &mut Bridge, prefix: &str, message: &Incoming) -> (step: MessageStep)
    requires
        old(bridge).wf(),
    ensures
        final(bridge).wf(),
        if announces_switch(prefix@, message.topic@) {
            &&& step is Announcement
            &&& final(bridge)@ == old(bridge)@
        } else {
            &&& step matches MessageStep::Delivered(delivery)
            &&& old(bridge)@.is_delivery(message.topic@, message.payload@, delivery)
            &&& final(bridge)@ == old(bridge)@.after_delivery(message.topic@, message.payload@)
        },
{
    if let Ok(topic) = DiscoveryTopic::parse(prefix, message.topic.as_str()) {
        proof {
            law_components_are_told_apart(prefix@, message.topic@, topic@);
        }
        if same_text(topic.component, "switch") {
            return MessageStep::Announcement;
        }
    }
    let delivery = bridge.deliver(message.topic.as_str(), message.payload.as_slice());
    MessageStep::Delivered(delivery)
}

/// A discovery topic announces a switch exactly if its component is `switch`:
/// the announcements of other components bridge nothing.
pub proof fn law_components_are_told_apart(prefix: Seq<char>, topic: Seq<char>, parts: TopicParts)
    requires
        discovery::is_discovery_topic(prefix, topic, parts),
    ensures
        announces_switch(prefix, topic) <==> parts.component == "switch"@,
{
    assert forall|other: TopicParts|
        discovery::is_discovery_topic(prefix, topic, other) implies other == parts by {
        discovery::law_reading_is_unique(prefix, topic, other, parts);
    }
}

/// Every topic `<prefix>/switch/<node_id>/<object_id>/config`, and every topic
/// `<prefix>/switch/<object_id>/config`, announces a switch, however long its
/// parts.
pub proof fn law_switches_announce_themselves(
    prefix: Seq<char>,
    node: Seq<char>,
    object: Seq<char>,
)
    requires
        forall|i: int| 0 <= i < node.len() ==> node[i] != '/',
        forall|i: int| 0 <= i < object.len() ==> object[i] != '/',
    ensures
        announces_switch(
            prefix,
            prefix + seq!['/'] + "switch"@ + seq!['/'] + node + seq!['/'] + object + "/config"@,
        ),
        announces_switch(
            prefix,
            prefix + seq!['/'] + "switch"@ + seq!['/'] + object + "/config"@,
        ),
{
    reveal_strlit("switch");
    reveal_strlit("/config");
    assert("switch"@ =~= seq!['s', 'w', 'i', 't', 'c', 'h']);
    assert("/config"@ =~= seq!['/', 'c', 'o', 'n', 'f', 'i', 'g']);
    let long = TopicParts { component: "switch"@, node_id: node, object_id: object };
    let short = TopicParts { component: "switch"@, node_id: Seq::empty(), object_id: object };
    let written = prefix + seq!['/'] + "switch"@ + seq!['/'] + node + seq!['/'] + object
        + "/config"@;
    let nodeless = prefix + seq!['/'] + "switch"@ + seq!['/'] + object + "/config"@;
    discovery::law_discovery_topics_are_written(prefix, written, long);
    discovery::law_discovery_topics_are_written(prefix, nodeless, short);
    law_components_are_told_apart(prefix, written, long);
    law_components_are_told_apart(prefix, nodeless, short);
}

/// Only a topic of one of those two forms announces a switch.
pub proof fn law_nothing_else_announces(prefix: Seq<char>, topic: Seq<char>) -> (parts: (
    Seq<char>,
    Seq<char>,
))
    requires
        announces_switch(prefix, topic),
    ensures
        forall|i: int| 0 <= i < parts.0.len() ==> parts.0[i] != '/',
        forall|i: int| 0 <= i < parts.1.len() ==> parts.1[i] != '/',
        ({
            ||| topic == prefix + seq!['/'] + "switch"@ + seq!['/'] + parts.0 + seq!['/'] + parts.1
                + "/config"@
            ||| topic == prefix + seq!['/'] + "switch"@ + seq!['/'] + parts.1 + "/config"@
        }),
{
    reveal_strlit("/config");
    assert("/config"@ =~= seq!['/', 'c', 'o', 'n', 'f', 'i', 'g']);
    let parts = choose|parts: TopicParts| #[trigger]
        discovery::is_discovery_topic(prefix, topic, parts) && parts.component == "switch"@;
    discovery::law_discovery_topics_are_written(prefix, topic, parts);
    (parts.node_id, parts.object_id)
}

} // verus!
