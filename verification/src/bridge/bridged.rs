//! The Bridged Device Basic Information of one bridged endpoint.
//!
//! Reports the device behind the endpoint (its unique id, label, reachability).
//! Reachability is driven from the device's MQTT availability topic, and a
//! slot can be (re)activated at runtime.

use vstd::prelude::*;

verus! {

/// The cluster's data and its version.
pub struct BridgedHandler {
    dataver: u32,
    unique_id: String,
    node_label: String,
    reachable: bool,
}

/// What is known of a bridged device.
#[verifier::ext_equal]
pub struct DeviceInformation {
    /// Grows, wrapping round, whenever controllers have to re-read the cluster.
    pub dataver: u32,
    pub unique_id: Seq<char>,
    pub node_label: Seq<char>,
    pub reachable: bool,
}

/// The data version after `dataver`.
pub open spec fn next_dataver(dataver: u32) -> u32 {
    if dataver == u32::MAX {
        0
    } else {
        (dataver + 1) as u32
    }
}

/// The information once the device is known to be reachable or not.
pub open spec fn with_reachable(info: DeviceInformation, reachable: bool) -> DeviceInformation {
    DeviceInformation { reachable, dataver: next_dataver(info.dataver), ..info }
}

impl View for BridgedHandler {
    type V = DeviceInformation;

    closed spec fn view(&self) -> DeviceInformation {
        DeviceInformation {
            dataver: self.dataver,
            unique_id: self.unique_id@,
            node_label: self.node_label@,
            reachable: self.reachable,
        }
    }
}

impl BridgedHandler {
    /// Nothing is known of the device yet. `dataver` is where the data version
    /// starts.
    pub fn new(dataver: u32) -> (h: BridgedHandler)
        ensures
            h@ == (DeviceInformation {
                dataver,
                unique_id: Seq::empty(),
                node_label: Seq::empty(),
                reachable: false,
            }),
    {
        BridgedHandler {
            dataver,
            unique_id: String::new(),
            node_label: String::new(),
            reachable: false,
        }
    }

    /// Populate the device identity and mark it reachable. Called when a slot
    /// is bound to a freshly discovered device.
    pub fn activate(&mut self, unique_id: String, node_label: String)
        ensures
            final(self)@ == (DeviceInformation {
                unique_id: unique_id@,
                node_label: node_label@,
                reachable: true,
                ..old(self)@
            }),
    {
        self.unique_id = unique_id;
        self.node_label = node_label;
        self.reachable = true;
    }

    /// Update reachability from the device's MQTT availability topic.
    pub fn set_reachable(&mut self, reachable: bool)
        ensures
            final(self)@ == with_reachable(old(self)@, reachable),
    {
        self.reachable = reachable;
        self.dataver_changed();
    }

    pub fn dataver(&self) -> (r: u32)
        ensures
            r == self@.dataver,
    {
        self.dataver
    }

    /// The cluster has changed: the next data version.
    pub fn dataver_changed(&mut self)
        ensures
            final(self)@ == (DeviceInformation {
                dataver: next_dataver(old(self)@.dataver),
                ..old(self)@
            }),
    {
        self.dataver = self.dataver.wrapping_add(1);
    }

    /// A controller renames the device.
    pub fn set_node_label(&mut self, value: String)
        ensures
            final(self)@ == (DeviceInformation { node_label: value@, ..old(self)@ }),
    {
        self.node_label = value;
    }

    pub fn reachable(&self) -> (r: bool)
        ensures
            r == self@.reachable,
    {
        self.reachable
    }

    pub fn unique_id(&self) -> (r: &str)
        ensures
            r@ == self@.unique_id,
    {
        self.unique_id.as_str()
    }

    pub fn node_label(&self) -> (r: &str)
        ensures
            r@ == self@.node_label,
    {
        self.node_label.as_str()
    }

    /// The unique id, the label and the reachability, together.
    pub fn snapshot(&self) -> (r: (String, String, bool))
        ensures
            r.0@ == self@.unique_id,
            r.1@ == self@.node_label,
            r.2 == self@.reachable,
    {
        (self.unique_id.clone(), self.node_label.clone(), self.reachable)
    }
}

/// A change of availability is recorded as it was reported and moves the data
/// version on by one, modulo 2 to the 32; the identity and the label stay.
pub proof fn law_availability_is_recorded(info: DeviceInformation, reachable: bool)
    ensures
        next_dataver(info.dataver) == (info.dataver + 1) % 0x1_0000_0000,
        with_reachable(info, reachable).dataver == (info.dataver + 1) % 0x1_0000_0000,
        with_reachable(info, reachable).reachable == reachable,
        with_reachable(info, reachable).unique_id == info.unique_id,
        with_reachable(info, reachable).node_label == info.node_label,
{
}

} // verus!
