//! The state of the bridge as mathematics: what its slots hold, where its
//! routes lead, and how each operation changes that.

use vstd::prelude::*;

use crate::bridge::bridged;
use crate::bridge::bridged::DeviceInformation;
use crate::bridge::node;
use crate::bridge::node::{FIRST_DEVICE_ENDPOINT, MAX_DEVICES};
use crate::bridge::switch::SwitchState;
use crate::discovery::SwitchConfig;

verus! {

/// Matter's id of the Descriptor cluster.
pub const DESC_ID: u32 = 0x1d;

/// Matter's id of the Groups cluster.
pub const GROUPS_ID: u32 = 0x04;

/// Matter's id of the Bridged Device Basic Information cluster.
pub const BRIDGED_ID: u32 = 0x39;

/// Matter's id of the On/Off cluster.
pub const ONOFF_ID: u32 = 0x06;

/// The Descriptor attribute that enumerates the endpoints of an aggregator.
pub const PARTS_LIST_ATTR: u32 = 0x03;

/// The clusters served on a bridged switch endpoint.
#[derive(Debug, Clone, Copy, PartialEq, Eq, Structural)]
pub enum SwitchCluster {
    Descriptor,
    Groups,
    Bridged,
    OnOff,
}

/// The cluster of a slot that handles an operation.
#[derive(Debug, Clone, Copy, PartialEq, Eq, Structural)]
pub struct Target {
    pub slot: usize,
    pub cluster: SwitchCluster,
}

/// Why an operation has no handler.
#[derive(Debug, Clone, Copy, PartialEq, Eq, Structural)]
pub enum RouteError {
    EndpointNotFound,
    AttributeNotFound,
    CommandNotFound,
}

/// Where a message that is no discovery went.
#[derive(Debug, Clone, PartialEq, Eq)]
pub enum Delivery {
    /// Devices reported their state: hand it to the report tasks of their
    /// slots, which give it to
    /// [`Bridge::received`](crate::bridge::Bridge::received).
    State { slots: Vec<usize>, on: bool },
    /// The availability of devices changed, and has been recorded.
    Availability { online: bool },
    /// No device has this topic.
    Unrouted,
}

/// The cluster with an id.
pub open spec fn cluster_of(id: Option<u32>) -> Option<SwitchCluster> {
    match id {
        Some(id) => if id == DESC_ID {
            Some(SwitchCluster::Descriptor)
        } else if id == GROUPS_ID {
            Some(SwitchCluster::Groups)
        } else if id == BRIDGED_ID {
            Some(SwitchCluster::Bridged)
        } else if id == ONOFF_ID {
            Some(SwitchCluster::OnOff)
        } else {
            None
        },
        None => None,
    }
}

/// An operation on the whole node, on the root or on the aggregator.
pub open spec fn is_root_operation(endpoint: Option<u16>) -> bool {
    match endpoint {
        Some(id) => id <= node::AGGREGATOR_ENDPOINT,
        None => true,
    }
}

/// The clusters that take attribute writes.
pub open spec fn is_writable(cluster: SwitchCluster) -> bool {
    cluster == SwitchCluster::Bridged || cluster == SwitchCluster::OnOff
}

/// The clusters that take commands.
pub open spec fn is_invocable(cluster: SwitchCluster) -> bool {
    cluster == SwitchCluster::Groups || cluster == SwitchCluster::OnOff
}

/// A device's snapshot, as text and numbers.
#[verifier::ext_equal]
pub struct DeviceModel {
    pub endpoint: int,
    pub name: Seq<char>,
    pub unique_id: Seq<char>,
    pub reachable: bool,
    pub on: bool,
}

/// The state of a slot.
#[verifier::ext_equal]
pub struct SlotModel {
    pub info: DeviceInformation,
    pub switch: SwitchState,
    /// The topic that carries the device's state.
    pub state_topic: Option<Seq<char>>,
    /// The topic that carries the device's availability. Devices may share it:
    /// one board can have several switches.
    pub availability_topic: Option<Seq<char>>,
    pub active: bool,
}

/// A slot that no device was bound to yet.
pub open spec fn unused_slot(dataver: u32) -> SlotModel {
    SlotModel {
        info: DeviceInformation {
            dataver,
            unique_id: Seq::empty(),
            node_label: Seq::empty(),
            reachable: false,
        },
        switch: SwitchState { command_topic: None, on: false, start_up: None },
        state_topic: None,
        availability_topic: None,
        active: false,
    }
}

/// The state of the bridge.
#[verifier::ext_equal]
pub struct BridgeModel {
    pub slots: Seq<SlotModel>,
    /// From unique ids to slots.
    pub by_unique_id: Map<Seq<char>, usize>,
}

impl BridgeModel {
    pub open spec fn is_active(self, slot: int) -> bool {
        0 <= slot < self.slots.len() && self.slots[slot].active
    }

    /// What every operation keeps: the active slots and the known unique ids
    /// correspond one to one, the active slots come first, each of them has a
    /// command topic and a state topic, and no other slot has topics.
    pub open spec fn valid(self) -> bool {
        &&& self.slots.len() == MAX_DEVICES
        &&& forall|id: Seq<char>| #[trigger]
            self.by_unique_id.contains_key(id) ==> self.is_active(self.by_unique_id[id] as int)
                && self.slots[self.by_unique_id[id] as int].info.unique_id == id
        &&& forall|i: int| #[trigger]
            self.is_active(i) ==> self.by_unique_id.contains_key(self.slots[i].info.unique_id)
                && self.by_unique_id[self.slots[i].info.unique_id] == i
                && self.slots[i].switch.command_topic is Some && self.slots[i].state_topic is Some
        &&& forall|i: int|
            0 <= i < self.slots.len() && !(#[trigger] self.slots[i]).active
                ==> self.slots[i].state_topic is None && self.slots[i].availability_topic is None
        &&& forall|i: int, j: int|
            0 <= i < j < self.slots.len() && self.slots[j].active ==> self.slots[i].active
    }

    /// `slot` is the first one without a device.
    pub open spec fn is_first_free(self, slot: int) -> bool {
        &&& 0 <= slot < self.slots.len()
        &&& !self.slots[slot].active
        &&& forall|i: int| 0 <= i < slot ==> (#[trigger] self.slots[i]).active
    }

    /// Every slot has a device.
    pub open spec fn is_full(self) -> bool {
        forall|i: int| 0 <= i < self.slots.len() ==> (#[trigger] self.slots[i]).active
    }

    /// `slot` bound to a newly discovered switch, with its state topic.
    pub open spec fn bound(self, slot: usize, cfg: SwitchConfig) -> BridgeModel {
        let old = self.slots[slot as int];
        BridgeModel {
            slots: self.slots.update(
                slot as int,
                SlotModel {
                    info: DeviceInformation {
                        unique_id: cfg.unique_id@,
                        node_label: cfg.name@,
                        reachable: true,
                        ..old.info
                    },
                    switch: SwitchState { command_topic: Some(cfg.command_topic@), ..old.switch },
                    state_topic: Some(cfg.state_topic@),
                    availability_topic: None,
                    active: true,
                },
            ),
            by_unique_id: self.by_unique_id.insert(cfg.unique_id@, slot),
        }
    }

    /// The state once a switch has been announced: it is bound to the slot
    /// after the devices that are there, unless it is one of them or there is
    /// no room.
    pub open spec fn announced(self, cfg: SwitchConfig) -> BridgeModel {
        if self.by_unique_id.contains_key(cfg.unique_id@) || self.devices().len() >= MAX_DEVICES {
            self
        } else {
            self.bound(self.devices().len() as usize, cfg)
        }
    }

    /// The state once some switches have been announced, one after the other.
    pub open spec fn all_announced(self, cfgs: Seq<SwitchConfig>) -> BridgeModel
        decreases cfgs.len(),
    {
        if cfgs.len() == 0 {
            self
        } else {
            self.all_announced(cfgs.drop_last()).announced(cfgs.last())
        }
    }

    /// The device of `slot` has an availability topic.
    pub open spec fn with_availability_route(self, topic: Seq<char>, slot: usize) -> BridgeModel {
        BridgeModel {
            slots: self.slots.update(
                slot as int,
                SlotModel { availability_topic: Some(topic), ..self.slots[slot as int] },
            ),
            ..self
        }
    }

    /// The state once a switch has been added with all its topics, unless it is
    /// there already or there is no room.
    pub open spec fn added(self, cfg: SwitchConfig) -> BridgeModel {
        let slot = self.devices().len() as usize;
        if self.by_unique_id.contains_key(cfg.unique_id@) || slot >= MAX_DEVICES {
            self
        } else {
            match cfg.availability_topic {
                Some(topic) => self.bound(slot, cfg).with_availability_route(topic@, slot),
                None => self.bound(slot, cfg),
            }
        }
    }

    /// The state once some switches have been added, one after the other.
    pub open spec fn all_added(self, cfgs: Seq<SwitchConfig>) -> BridgeModel
        decreases cfgs.len(),
    {
        if cfgs.len() == 0 {
            self
        } else {
            self.all_added(cfgs.drop_last()).added(cfgs.last())
        }
    }

    /// The information of one slot replaced.
    pub open spec fn with_info(self, slot: int, info: DeviceInformation) -> BridgeModel {
        BridgeModel {
            slots: self.slots.update(slot, SlotModel { info, ..self.slots[slot] }),
            ..self
        }
    }

    /// The switch state of one slot replaced.
    pub open spec fn with_switch(self, slot: int, switch: SwitchState) -> BridgeModel {
        BridgeModel {
            slots: self.slots.update(slot, SlotModel { switch, ..self.slots[slot] }),
            ..self
        }
    }

    /// The device of `slot` is on or off.
    pub open spec fn with_on(self, slot: int, on: bool) -> BridgeModel {
        self.with_switch(slot, SwitchState { on, ..self.slots[slot].switch })
    }

    /// The devices of some slots are all on or off.
    pub open spec fn with_all_on(self, slots: Seq<usize>, on: bool) -> BridgeModel
        decreases slots.len(),
    {
        if slots.len() == 0 {
            self
        } else {
            self.with_all_on(slots.drop_last(), on).with_on(slots.last() as int, on)
        }
    }

    /// `slot` has a device with this state topic.
    pub open spec fn has_state(self, topic: Seq<char>, slot: int) -> bool {
        0 <= slot < self.slots.len() && self.slots[slot].state_topic == Some(topic)
    }

    /// `slot` has a device with this availability topic.
    pub open spec fn has_availability(self, topic: Seq<char>, slot: int) -> bool {
        0 <= slot < self.slots.len() && self.slots[slot].availability_topic == Some(topic)
    }

    pub open spec fn is_state_topic(self, topic: Seq<char>) -> bool {
        exists|slot: int| self.has_state(topic, slot)
    }

    pub open spec fn is_availability_topic(self, topic: Seq<char>) -> bool {
        exists|slot: int| self.has_availability(topic, slot)
    }

    /// The slots with this state topic among the first `n`, in ascending order.
    pub open spec fn state_slots_below(self, topic: Seq<char>, n: nat) -> Seq<usize>
        decreases n,
    {
        if n == 0 {
            Seq::empty()
        } else {
            let before = self.state_slots_below(topic, (n - 1) as nat);
            if self.has_state(topic, n - 1) {
                before.push((n - 1) as usize)
            } else {
                before
            }
        }
    }

    /// The slots with this state topic, in ascending order.
    pub open spec fn state_slots(self, topic: Seq<char>) -> Seq<usize> {
        self.state_slots_below(topic, self.slots.len())
    }

    /// Every device with this availability topic is reachable or not. The
    /// other devices are as they were.
    pub open spec fn with_availability(self, topic: Seq<char>, online: bool) -> BridgeModel {
        BridgeModel {
            slots: Seq::new(
                self.slots.len(),
                |i: int|
                    if self.has_availability(topic, i) {
                        SlotModel {
                            info: bridged::with_reachable(self.slots[i].info, online),
                            ..self.slots[i]
                        }
                    } else {
                        self.slots[i]
                    },
            ),
            ..self
        }
    }

    /// `d` is where a message that is no discovery goes: to every device that
    /// has the topic. The state topics come first.
    pub open spec fn is_delivery(self, topic: Seq<char>, payload: Seq<u8>, d: Delivery) -> bool {
        if self.is_state_topic(topic) {
            d matches Delivery::State { slots, on } && slots@ == self.state_slots(topic) && on
                == is_text(payload, "ON"@)
        } else if self.is_availability_topic(topic) {
            d matches Delivery::Availability { online } && online == is_text(payload, "online"@)
        } else {
            d is Unrouted
        }
    }

    /// The state once such a message has been delivered. A reported state is
    /// not applied yet.
    pub open spec fn after_delivery(self, topic: Seq<char>, payload: Seq<u8>) -> BridgeModel {
        if self.is_state_topic(topic) {
            self
        } else {
            self.with_availability(topic, is_text(payload, "online"@))
        }
    }

    /// The active slots among the first `n`, in ascending order.
    pub open spec fn active_below(self, n: nat) -> Seq<usize>
        decreases n,
    {
        if n == 0 {
            Seq::empty()
        } else {
            let before = self.active_below((n - 1) as nat);
            if self.slots[n - 1].active {
                before.push((n - 1) as usize)
            } else {
                before
            }
        }
    }

    /// The active slots, in ascending order.
    pub open spec fn active_slots(self) -> Seq<usize> {
        self.active_below(self.slots.len())
    }

    /// The device in `slot`.
    pub open spec fn device(self, slot: int) -> DeviceModel {
        DeviceModel {
            endpoint: FIRST_DEVICE_ENDPOINT + slot,
            name: self.slots[slot].info.node_label,
            unique_id: self.slots[slot].info.unique_id,
            reachable: self.slots[slot].info.reachable,
            on: self.slots[slot].switch.on,
        }
    }

    /// The bridged devices, in the order of their slots.
    pub open spec fn devices(self) -> Seq<DeviceModel> {
        self.active_slots().map_values(|slot: usize| self.device(slot as int))
    }

    /// A bridged device has this state or availability topic.
    pub open spec fn is_device_topic(self, topic: Seq<char>) -> bool {
        self.is_state_topic(topic) || self.is_availability_topic(topic)
    }

    /// The slot whose device an endpoint is, if it is one.
    pub open spec fn slot_for(self, endpoint: Option<u16>) -> Option<int> {
        match endpoint {
            Some(id) => node::slot_of_endpoint(id as int, self.slots.len()),
            None => None,
        }
    }

    /// An operation on an endpoint and a cluster: it goes to an active slot's
    /// cluster that allows it. Without such a slot the endpoint is unknown, and
    /// otherwise `refused`.
    pub open spec fn routed(
        self,
        endpoint: Option<u16>,
        cluster: Option<u32>,
        allowed: spec_fn(SwitchCluster) -> bool,
        refused: RouteError,
    ) -> Result<Target, RouteError> {
        match self.slot_for(endpoint) {
            Some(slot) => if !self.slots[slot].active {
                Err(RouteError::EndpointNotFound)
            } else {
                match cluster_of(cluster) {
                    Some(c) => if allowed(c) {
                        Ok(Target { slot: slot as usize, cluster: c })
                    } else {
                        Err(refused)
                    },
                    None => Err(refused),
                }
            },
            None => Err(RouteError::EndpointNotFound),
        }
    }
}

/// The bytes are the text.
pub open spec fn is_text(payload: Seq<u8>, text: Seq<char>) -> bool {
    payload == vstd::utf8::encode_utf8(text)
}

pub open spec fn pool_full_text(name: Seq<char>) -> Seq<char> {
    "device pool full ("@ + crate::text::decimal(MAX_DEVICES as nat) + "); cannot bridge `"@ + name
        + "`"@
}

/// A slot's identity, activity and topics are what validity depends on.
pub(crate) proof fn lemma_update_valid(b: BridgeModel, slot: int, s: SlotModel)
    requires
        b.valid(),
        0 <= slot < b.slots.len(),
        s.active == b.slots[slot].active,
        s.info.unique_id == b.slots[slot].info.unique_id,
        s.switch.command_topic == b.slots[slot].switch.command_topic,
        s.state_topic == b.slots[slot].state_topic,
        s.availability_topic == b.slots[slot].availability_topic,
    ensures
        (BridgeModel { slots: b.slots.update(slot, s), ..b }).valid(),
{
    let after = BridgeModel { slots: b.slots.update(slot, s), ..b };
    assert forall|i: int| #[trigger] after.is_active(i) == b.is_active(i) by {}
}

pub(crate) proof fn lemma_routed_valid(b: BridgeModel, topic: Seq<char>, slot: usize)
    requires
        b.valid(),
        b.is_active(slot as int),
    ensures
        b.with_availability_route(topic, slot).valid(),
{
    let after = b.with_availability_route(topic, slot);
    assert forall|i: int| #[trigger] after.is_active(i) == b.is_active(i) by {}
}

pub(crate) proof fn lemma_delivered_valid(b: BridgeModel, topic: Seq<char>, online: bool)
    requires
        b.valid(),
    ensures
        b.with_availability(topic, online).valid(),
{
    let after = b.with_availability(topic, online);
    assert forall|i: int| #[trigger] after.is_active(i) == b.is_active(i) by {}
}

/// The list of active slots ascends and holds exactly the active slots.
pub(crate) proof fn lemma_active_below(b: BridgeModel, n: nat)
    requires
        n <= b.slots.len(),
        b.slots.len() <= MAX_DEVICES,
    ensures
        forall|i: int|
            0 <= i < b.active_below(n).len() ==> (#[trigger] b.active_below(n)[i]) < n
                && b.is_active(b.active_below(n)[i] as int),
        forall|i: int, j: int|
            0 <= i < j < b.active_below(n).len() ==> b.active_below(n)[i] < b.active_below(n)[j],
        forall|slot: int|
            0 <= slot < n && #[trigger] b.is_active(slot) ==> b.active_below(n).contains(
                slot as usize,
            ),
    decreases n,
{
    if n > 0 {
        lemma_active_below(b, (n - 1) as nat);
        let before = b.active_below((n - 1) as nat);
        let all = b.active_below(n);
        assert forall|slot: int| 0 <= slot < n && #[trigger] b.is_active(slot) implies all.contains(
            slot as usize,
        ) by {
            if slot == n - 1 {
                assert(all.last() == slot as usize);
            } else {
                let i = choose|i: int| 0 <= i < before.len() && before[i] == slot as usize;
                assert(all[i] == slot as usize);
            }
        }
    }
}

/// The list of slots with a state topic holds exactly those.
pub(crate) proof fn lemma_state_slots(b: BridgeModel, topic: Seq<char>, n: nat)
    requires
        n <= b.slots.len(),
        b.slots.len() <= MAX_DEVICES,
    ensures
        forall|i: int|
            0 <= i < b.state_slots_below(topic, n).len() ==> (#[trigger] b.state_slots_below(
                topic,
                n,
            )[i]) < n && b.has_state(topic, b.state_slots_below(topic, n)[i] as int),
        forall|slot: int|
            slot < n && #[trigger] b.has_state(topic, slot) ==> b.state_slots_below(
                topic,
                n,
            ).contains(slot as usize),
    decreases n,
{
    if n > 0 {
        lemma_state_slots(b, topic, (n - 1) as nat);
        let before = b.state_slots_below(topic, (n - 1) as nat);
        let all = b.state_slots_below(topic, n);
        assert forall|slot: int| slot < n && #[trigger] b.has_state(topic, slot) implies all.contains(
            slot as usize,
        ) by {
            if slot == n - 1 {
                assert(all.last() == slot as usize);
            } else {
                let i = choose|i: int| 0 <= i < before.len() && before[i] == slot as usize;
                assert(all[i] == slot as usize);
            }
        }
    }
}

pub(crate) proof fn lemma_bound_valid(b: BridgeModel, slot: usize, cfg: SwitchConfig)
    requires
        b.valid(),
        b.is_first_free(slot as int),
        !b.by_unique_id.contains_key(cfg.unique_id@),
    ensures
        b.bound(slot, cfg).valid(),
{
    let after = b.bound(slot, cfg);
    assert forall|i: int| #[trigger] after.is_active(i) <==> b.is_active(i) || i == slot by {}
}

} // verus!
