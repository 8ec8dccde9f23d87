//! The Matter bridge: a fixed-capacity pool of device slots, with the routing
//! of MQTT messages and of Matter operations to them.

use vstd::prelude::*;

use crate::bridge::bridged::{BridgedHandler, DeviceInformation};
use crate::bridge::model::{
    BridgeModel, Delivery, DeviceModel, RouteError, SlotModel, SwitchCluster, Target, BRIDGED_ID,
    DESC_ID, GROUPS_ID, ONOFF_ID, PARTS_LIST_ATTR,
};
use crate::bridge::node::{
    device_endpoint, write_endpoints, Endpoint, AGGREGATOR_ENDPOINT, FIRST_DEVICE_ENDPOINT,
    MAX_DEVICES,
};
use crate::bridge::routes::RouteTable;
use crate::bridge::switch::{
    Activation, MqttOnOff, Publication, ReportStep, StartUpOnOff, SwitchState,
};
use crate::discovery::SwitchConfig;
use crate::error::Error;
use crate::text::{decimal_text, same_bytes, same_text};

pub mod bridged;
pub mod laws;
pub mod model;
pub mod node;
pub mod routes;
pub mod switch;

verus! {

/// A read-only snapshot of one bridged device, rendered by the status page.
#[derive(Debug)]
pub struct DeviceView {
    pub endpoint: u16,
    pub name: String,
    pub unique_id: String,
    pub reachable: bool,
    pub on: bool,
}

impl View for DeviceView {
    type V = DeviceModel;

    open spec fn view(&self) -> DeviceModel {
        DeviceModel {
            endpoint: self.endpoint as int,
            name: self.name@,
            unique_id: self.unique_id@,
            reachable: self.reachable,
            on: self.on,
        }
    }
}

/// One device slot. The number of slots is fixed for the bridge's lifetime.
struct Slot {
    bridged: BridgedHandler,
    on_off: MqttOnOff,
    state_topic: Option<String>,
    availability_topic: Option<String>,
    active: bool,
}

impl Slot {
    spec fn model(&self) -> SlotModel {
        SlotModel {
            info: self.bridged@,
            switch: self.on_off@,
            state_topic: crate::config::text_of(self.state_topic),
            availability_topic: crate::config::text_of(self.availability_topic),
            active: self.active,
        }
    }

    /// An unused slot.
    fn new(dataver: u32) -> (s: Slot)
        ensures
            s.model() == model::unused_slot(dataver),
    {
        Slot {
            bridged: BridgedHandler::new(dataver),
            on_off: MqttOnOff::new(Activation::new()),
            state_topic: None,
            availability_topic: None,
            active: false,
        }
    }
}

/// The bridge: a fixed pool of device slots plus MQTT routing.
pub struct Bridge {
    slots: Vec<Slot>,
    by_unique_id: RouteTable,
}

/// Whether an optional topic is this one.
fn is_topic(own: &Option<String>, topic: &str) -> (r: bool)
    ensures
        r == (crate::config::text_of(*own) == Some(topic@)),
{
    match own {
        Some(own) => same_text(own.as_str(), topic),
        None => false,
    }
}

/// A list of subscriptions names a topic after the first entry.
spec fn names(list: Seq<String>, topic: Seq<char>) -> bool {
    exists|i: int| 1 <= i < list.len() && (#[trigger] list[i])@ == topic
}

/// No topic after the first entry of a list of subscriptions occurs twice.
spec fn no_repeats(list: Seq<String>) -> bool {
    forall|i: int, j: int| 1 <= i < j < list.len() ==> (#[trigger] list[i])@ != (
    #[trigger] list[j])@
}

/// Adds a topic to a list of subscriptions, unless it is there.
fn subscribe_once(list: &mut Vec<String>, topic: &Option<String>)
    requires
        old(list)@.len() >= 1,
        no_repeats(old(list)@),
    ensures
        final(list)@.len() >= 1,
        final(list)@[0] == old(list)@[0],
        no_repeats(final(list)@),
        forall|t: Seq<char>| #[trigger]
            names(final(list)@, t) <==> names(old(list)@, t) || crate::config::text_of(*topic)
                == Some(t),
{
    if let Some(text) = topic {
        let mut i: usize = 1;
        while i < list.len()
            invariant
                *list == *old(list),
                no_repeats(list@),
                crate::config::text_of(*topic) == Some(text@),
                1 <= i <= list@.len(),
                forall|k: int| 1 <= k < i ==> (#[trigger] list@[k])@ != text@,
            decreases list@.len() - i,
        {
            if same_text(list[i].as_str(), text.as_str()) {
                assert(names(list@, text@));
                return;
            }
            i = i + 1;
        }
        let ghost before = list@;
        list.push(text.clone());
        proof {
            assert(list@[before.len() as int]@ == text@);
            assert forall|t: Seq<char>| #[trigger] names(list@, t) <==> names(before, t) || text@
                == t by {
                if names(before, t) {
                    let k = choose|k: int| 1 <= k < before.len() && (#[trigger] before[k])@ == t;
                    assert(list@[k]@ == t);
                }
                if names(list@, t) && text@ != t {
                    let k = choose|k: int| 1 <= k < list@.len() && (#[trigger] list@[k])@ == t;
                    assert(before[k]@ == t);
                }
            }
        }
    }
}

fn find_cluster(id: Option<u32>) -> (r: Option<SwitchCluster>)
    ensures
        r == model::cluster_of(id),
{
    match id {
        Some(id) => if id == DESC_ID {
            Some(SwitchCluster::Descriptor)
        } else if id == GROUPS_ID {
            Some(SwitchCluster::Groups)
        } else if id == BRIDGED_ID {
            Some(SwitchCluster::Bridged)
        } else if id == ONOFF_ID {
            Some(SwitchCluster::OnOff)
        } else {
            None
        },
        None => None,
    }
}

/// An attribute whose change is to be reported to controllers.
#[derive(Debug, Clone, Copy, PartialEq, Eq, Structural)]
pub struct AttributeChange {
    pub endpoint: u16,
    pub cluster: u32,
    pub attribute: u32,
}

/// What the task that reports added devices does next.
#[derive(Debug, Clone, Copy, PartialEq, Eq, Structural)]
pub enum NotifyStep {
    /// Report the change, then wait for the next device.
    Report(AttributeChange),
    /// Nothing more will arrive: wait forever.
    Park,
}

/// What is to be done next to bridge a switch.
#[derive(Debug)]
pub enum AddStep {
    /// Nothing: a device with this unique id is bridged already.
    AlreadyBridged,
    /// Subscribe to the state topic and report the outcome to
    /// [`Bridge::state_subscribed`].
    SubscribeState { slot: usize, topic: String },
    /// Subscribe to the availability topic and report the outcome to
    /// [`Bridge::availability_subscribed`].
    SubscribeAvailability { slot: usize, topic: String },
    /// The switch is bridged at this endpoint: have the change of the
    /// aggregator's parts list reported.
    Bridged { endpoint: u16 },
}

impl View for Bridge {
    type V = BridgeModel;

    closed spec fn view(&self) -> BridgeModel {
        BridgeModel {
            slots: self.slots@.map_values(|s: Slot| s.model()),
            by_unique_id: self.by_unique_id@,
        }
    }
}

impl Bridge {
    pub closed spec fn wf(&self) -> bool {
        &&& self.by_unique_id.wf()
        &&& self@.valid()
    }

    /// A bridge's state is always a valid one.
    pub proof fn lemma_valid(&self)
        requires
            self.wf(),
        ensures
            self@.valid(),
    {
    }

    /// A bridge without devices. `datavers` is where the data versions of the
    /// slots start.
    pub fn new(datavers: [u32; MAX_DEVICES]) -> (b: Bridge)
        ensures
            b.wf(),
            b@ == (BridgeModel {
                slots: datavers@.map_values(|v: u32| model::unused_slot(v)),
                by_unique_id: Map::empty(),
            }),
    {
        let mut slots: Vec<Slot> = Vec::new();
        let mut i: usize = 0;
        while i < MAX_DEVICES
            invariant
                i <= MAX_DEVICES,
                slots@.len() == i,
                forall|j: int|
                    0 <= j < i ==> (#[trigger] slots@[j]).model() == model::unused_slot(datavers@[j]),
            decreases MAX_DEVICES - i,
        {
            slots.push(Slot::new(datavers[i]));
            i = i + 1;
        }
        let b = Bridge {
            slots,
            by_unique_id: RouteTable::new(),
        };
        assert(b@.slots =~= datavers@.map_values(|v: u32| model::unused_slot(v)));
        b
    }

    /// Bind a discovered switch to a free slot and say what to subscribe to.
    /// Idempotent per `unique_id`: re-announcements are ignored.
    pub fn add_switch(&mut self, cfg: &SwitchConfig) -> (r: Result<AddStep, Error>)
        requires
            old(self).wf(),
        ensures
            final(self).wf(),
            final(self)@ == old(self)@.announced(*cfg),
            match r {
                Ok(AddStep::AlreadyBridged) => {
                    &&& old(self)@.by_unique_id.contains_key(cfg.unique_id@)
                    &&& final(self)@ == old(self)@
                },
                Ok(AddStep::SubscribeState { slot, topic }) => {
                    &&& !old(self)@.by_unique_id.contains_key(cfg.unique_id@)
                    &&& old(self)@.is_first_free(slot as int)
                    &&& final(self)@ == old(self)@.bound(slot, *cfg)
                    &&& topic@ == cfg.state_topic@
                },
                Ok(_) => false,
                Err(e) => {
                    &&& !old(self)@.by_unique_id.contains_key(cfg.unique_id@)
                    &&& old(self)@.is_full()
                    &&& final(self)@ == old(self)@
                    &&& e matches Error::Config(text) && text@ == model::pool_full_text(cfg.name@)
                },
            },
    {
        proof {
            laws::law_pool_capacity(self@);
        }
        if self.by_unique_id.get(cfg.unique_id.as_str()).is_some() {
            return Ok(AddStep::AlreadyBridged);
        }
        let mut slot: usize = 0;
        while slot < self.slots.len() && self.slots[slot].active
            invariant
                self.wf(),
                *self == *old(self),
                slot <= self.slots@.len(),
                forall|i: int| 0 <= i < slot ==> (#[trigger] self@.slots[i]).active,
            decreases self.slots@.len() - slot,
        {
            assert(self@.slots[slot as int] == self.slots@[slot as int].model());
            slot = slot + 1;
        }
        if slot >= self.slots.len() {
            let mut text = "device pool full (".to_owned();
            text.append(decimal_text(MAX_DEVICES as u64).as_str());
            text.append("); cannot bridge `");
            text.append(cfg.name.as_str());
            text.append("`");
            return Err(Error::config(text));
        }
        assert(self@.slots[slot as int] == self.slots@[slot as int].model());
        let ghost before = self@;
        self.slots[slot].on_off.bind(cfg.command_topic.clone());
        self.slots[slot].bridged.activate(cfg.unique_id.clone(), cfg.name.clone());
        self.slots[slot].state_topic = Some(cfg.state_topic.clone());
        self.slots[slot].availability_topic = None;
        self.slots[slot].active = true;
        self.by_unique_id.insert(cfg.unique_id.clone(), slot);
        proof {
            assert(self@.slots =~= before.bound(slot, *cfg).slots);
            model::lemma_bound_valid(before, slot, *cfg);
        }
        Ok(AddStep::SubscribeState { slot, topic: cfg.state_topic.clone() })
    }

    /// The outcome of subscribing to the state topic of the switch that was
    /// just bound to `slot`. A failure ends the addition; the slot stays bound.
    pub fn state_subscribed(
        &mut self,
        slot: usize,
        cfg: &SwitchConfig,
        outcome: Result<(), Error>,
    ) -> (r: Result<AddStep, Error>)
        requires
            old(self).wf(),
            old(self)@.is_active(slot as int),
        ensures
            final(self).wf(),
            match outcome {
                Ok(_) => match cfg.availability_topic {
                    Some(avty) => {
                        &&& r matches Ok(AddStep::SubscribeAvailability { slot: s, topic })
                        &&& s == slot
                        &&& topic@ == avty@
                        &&& final(self)@ == old(self)@.with_availability_route(avty@, slot)
                    },
                    None => {
                        &&& r matches Ok(AddStep::Bridged { endpoint })
                        &&& endpoint == FIRST_DEVICE_ENDPOINT + slot
                        &&& final(self)@ == old(self)@
                    },
                },
                Err(e) => r == Err::<AddStep, Error>(e) && final(self)@ == old(self)@,
            },
    {
        match outcome {
            Ok(_) => match &cfg.availability_topic {
                Some(avty) => {
                    let ghost before = self@;
                    self.slots[slot].availability_topic = Some(avty.clone());
                    proof {
                        assert(self@.slots =~= before.with_availability_route(avty@, slot).slots);
                        model::lemma_routed_valid(before, avty@, slot);
                    }
                    Ok(AddStep::SubscribeAvailability { slot, topic: avty.clone() })
                },
                None => Ok(AddStep::Bridged { endpoint: device_endpoint(slot) }),
            },
            Err(e) => Err(e),
        }
    }

    /// The outcome of subscribing to the availability topic of the switch in
    /// `slot`.
    pub fn availability_subscribed(&self, slot: usize, outcome: Result<(), Error>) -> (r: Result<
        AddStep,
        Error,
    >)
        requires
            self.wf(),
            self@.is_active(slot as int),
        ensures
            match outcome {
                Ok(_) => r matches Ok(AddStep::Bridged { endpoint }) && endpoint
                    == FIRST_DEVICE_ENDPOINT + slot,
                Err(e) => r == Err::<AddStep, Error>(e),
            },
    {
        match outcome {
            Ok(_) => Ok(AddStep::Bridged { endpoint: device_endpoint(slot) }),
            Err(e) => Err(e),
        }
    }

    /// What the task that reports added devices does when the signal arrives,
    /// or can no longer arrive.
    pub fn notify_added(signalled: bool) -> (step: NotifyStep)
        ensures
            step == (if signalled {
                NotifyStep::Report(
                    AttributeChange {
                        endpoint: AGGREGATOR_ENDPOINT,
                        cluster: DESC_ID,
                        attribute: PARTS_LIST_ATTR,
                    },
                )
            } else {
                NotifyStep::Park
            }),
    {
        if signalled {
            NotifyStep::Report(
                AttributeChange {
                    endpoint: AGGREGATOR_ENDPOINT,
                    cluster: DESC_ID,
                    attribute: PARTS_LIST_ATTR,
                },
            )
        } else {
            NotifyStep::Park
        }
    }

    /// Route a non-discovery MQTT message to the right slots: a state update or
    /// an availability change.
    pub fn deliver(&mut self, topic: &str, payload: &[u8]) -> (r: Delivery)
        requires
            old(self).wf(),
        ensures
            final(self).wf(),
            old(self)@.is_delivery(topic@, payload@, r),
            final(self)@ == old(self)@.after_delivery(topic@, payload@),
    {
        let slots = self.state_slots(topic);
        proof {
            model::lemma_state_slots(self@, topic@, self@.slots.len());
        }
        if slots.len() > 0 {
            assert(self@.has_state(topic@, slots@[0] as int));
            let on = same_bytes(payload, "ON".as_bytes());
            return Delivery::State { slots, on };
        }
        assert(!self@.is_state_topic(topic@)) by {
            assert forall|slot: int| !self@.has_state(topic@, slot) by {
                if self@.has_state(topic@, slot) {
                    assert(slots@.contains(slot as usize));
                }
            }
        }
        let online = same_bytes(payload, "online".as_bytes());
        let ghost before = self@;
        let ghost after = before.with_availability(topic@, online);
        let mut found = false;
        let mut i: usize = 0;
        while i < self.slots.len()
            invariant
                i <= self.slots@.len(),
                self.slots@.len() == before.slots.len(),
                after == before.with_availability(topic@, online),
                self.by_unique_id.wf(),
                self@.by_unique_id == before.by_unique_id,
                forall|j: int|
                    0 <= j < self.slots@.len() ==> (#[trigger] self.slots@[j]).model() == (if j
                        < i {
                        after.slots[j]
                    } else {
                        before.slots[j]
                    }),
                found <==> exists|j: int| j < i && before.has_availability(topic@, j),
            decreases self.slots@.len() - i,
        {
            assert(self.slots@[i as int].model() == before.slots[i as int]);
            if is_topic(&self.slots[i].availability_topic, topic) {
                self.slots[i].bridged.set_reachable(online);
                found = true;
                assert(before.has_availability(topic@, i as int));
            }
            i = i + 1;
        }
        proof {
            assert(self@.slots =~= after.slots);
            model::lemma_delivered_valid(before, topic@, online);
        }
        if found {
            Delivery::Availability { online }
        } else {
            Delivery::Unrouted
        }
    }

    /// The slots with this state topic, in ascending order.
    fn state_slots(&self, topic: &str) -> (r: Vec<usize>)
        ensures
            r@ == self@.state_slots(topic@),
    {
        let mut out: Vec<usize> = Vec::new();
        let mut i: usize = 0;
        while i < self.slots.len()
            invariant
                i <= self.slots@.len(),
                self.slots@.len() == self@.slots.len(),
                out@ == self@.state_slots_below(topic@, i as nat),
            decreases self.slots@.len() - i,
        {
            assert(self@.slots[i as int] == self.slots@[i as int].model());
            if is_topic(&self.slots[i].state_topic, topic) {
                out.push(i);
            }
            i = i + 1;
        }
        out
    }

    /// A state that the device in `slot` reported, or `None` once no more can
    /// arrive.
    pub fn received(&mut self, slot: usize, report: Option<bool>) -> (step: ReportStep)
        requires
            old(self).wf(),
            slot < MAX_DEVICES,
        ensures
            final(self).wf(),
            match report {
                Some(on) => step == ReportStep::Update && final(self)@ == old(self)@.with_on(
                    slot as int,
                    on,
                ),
                None => step == ReportStep::Park && final(self)@ == old(self)@,
            },
    {
        let ghost before = self@;
        let step = self.slots[slot].on_off.received(report);
        proof {
            match report {
                Some(on) => assert(self@.slots =~= before.with_on(slot as int, on).slots),
                None => assert(self@.slots =~= before.slots),
            }
            model::lemma_update_valid(before, slot as int, self@.slots[slot as int]);
        }
        step
    }

    /// A controller turns the switch in `slot` on or off. The result is what to
    /// publish.
    pub fn set_on_off(&mut self, slot: usize, on: bool) -> (r: Option<Publication>)
        requires
            old(self).wf(),
            slot < MAX_DEVICES,
        ensures
            final(self).wf(),
            final(self)@ == old(self)@.with_on(slot as int, on),
            switch::is_command(r, old(self)@.slots[slot as int].switch.command_topic, on),
    {
        let ghost before = self@;
        let r = self.slots[slot].on_off.set_on_off(on);
        proof {
            assert(self@.slots =~= before.with_on(slot as int, on).slots);
            model::lemma_update_valid(before, slot as int, self@.slots[slot as int]);
        }
        r
    }

    /// The start-up behaviour that a controller set for `slot`.
    pub fn start_up_on_off(&self, slot: usize) -> (r: Option<StartUpOnOff>)
        requires
            self.wf(),
            slot < MAX_DEVICES,
        ensures
            r == self@.slots[slot as int].switch.start_up,
    {
        self.slots[slot].on_off.start_up_on_off()
    }

    /// A controller sets the start-up behaviour of `slot`.
    pub fn set_start_up_on_off(&mut self, slot: usize, value: Option<StartUpOnOff>)
        requires
            old(self).wf(),
            slot < MAX_DEVICES,
        ensures
            final(self).wf(),
            final(self)@ == old(self)@.with_switch(
                slot as int,
                (SwitchState { start_up: value, ..old(self)@.slots[slot as int].switch }),
            ),
    {
        let ghost before = self@;
        self.slots[slot].on_off.set_start_up_on_off(value);
        proof {
            assert(self@.slots =~= before.slots.update(slot as int, self@.slots[slot as int]));
            model::lemma_update_valid(before, slot as int, self@.slots[slot as int]);
        }
    }

    /// Whether the switch in `slot` is on.
    pub fn on_off(&self, slot: usize) -> (on: bool)
        requires
            self.wf(),
            slot < MAX_DEVICES,
        ensures
            on == self@.slots[slot as int].switch.on,
    {
        self.slots[slot].on_off.on_off()
    }

    /// What the basic information cluster of `slot` reports.
    pub fn bridged(&self, slot: usize) -> (r: &BridgedHandler)
        requires
            self.wf(),
            slot < MAX_DEVICES,
        ensures
            r@ == self@.slots[slot as int].info,
    {
        &self.slots[slot].bridged
    }

    /// A controller renames the device in `slot`.
    pub fn set_node_label(&mut self, slot: usize, value: String)
        requires
            old(self).wf(),
            slot < MAX_DEVICES,
        ensures
            final(self).wf(),
            final(self)@ == old(self)@.with_info(
                slot as int,
                (DeviceInformation { node_label: value@, ..old(self)@.slots[slot as int].info }),
            ),
    {
        let ghost before = self@;
        self.slots[slot].bridged.set_node_label(value);
        proof {
            assert(self@.slots =~= before.slots.update(slot as int, self@.slots[slot as int]));
            model::lemma_update_valid(before, slot as int, self@.slots[slot as int]);
        }
    }

    /// The basic information cluster of `slot` has changed.
    pub fn dataver_changed(&mut self, slot: usize)
        requires
            old(self).wf(),
            slot < MAX_DEVICES,
        ensures
            final(self).wf(),
            final(self)@ == old(self)@.with_info(
                slot as int,
                (DeviceInformation {
                    dataver: bridged::next_dataver(old(self)@.slots[slot as int].info.dataver),
                    ..old(self)@.slots[slot as int].info
                }),
            ),
    {
        let ghost before = self@;
        self.slots[slot].bridged.dataver_changed();
        proof {
            assert(self@.slots =~= before.slots.update(slot as int, self@.slots[slot as int]));
            model::lemma_update_valid(before, slot as int, self@.slots[slot as int]);
        }
    }

    /// The slots that have a device, in ascending order.
    pub fn active_slots(&self) -> (r: Vec<usize>)
        requires
            self.wf(),
        ensures
            r@ == self@.active_slots(),
    {
        let mut out: Vec<usize> = Vec::new();
        let mut i: usize = 0;
        while i < self.slots.len()
            invariant
                i <= self.slots@.len(),
                self.slots@.len() == self@.slots.len(),
                out@ == self@.active_below(i as nat),
            decreases self.slots@.len() - i,
        {
            assert(self@.slots[i as int] == self.slots@[i as int].model());
            if self.slots[i].active {
                out.push(i);
            }
            i = i + 1;
        }
        out
    }

    /// A read-only view of every currently bridged device, for the status page.
    pub fn device_views(&self) -> (r: Vec<DeviceView>)
        requires
            self.wf(),
        ensures
            r@.map_values(|d: DeviceView| d@) == self@.devices(),
    {
        let active = self.active_slots();
        let mut out: Vec<DeviceView> = Vec::new();
        let mut i: usize = 0;
        while i < active.len()
            invariant
                self.wf(),
                active@ == self@.active_slots(),
                i <= active@.len(),
                out@.len() == i,
                forall|j: int|
                    0 <= j < i ==> (#[trigger] out@[j])@ == self@.device(active@[j] as int),
            decreases active@.len() - i,
        {
            let slot = active[i];
            proof {
                model::lemma_active_below(self@, self@.slots.len());
                assert(self@.slots[slot as int] == self.slots@[slot as int].model());
            }
            let (unique_id, name, reachable) = self.slots[slot].bridged.snapshot();
            out.push(
                DeviceView {
                    endpoint: device_endpoint(slot),
                    name,
                    unique_id,
                    reachable,
                    on: self.slots[slot].on_off.on_off(),
                },
            );
            i = i + 1;
        }
        assert(out@.map_values(|d: DeviceView| d@) =~= self@.devices());
        out
    }

    /// The endpoints of the node: the root, the aggregator and every bridged
    /// device.
    pub fn endpoints(&self) -> (r: Vec<Endpoint>)
        requires
            self.wf(),
        ensures
            r@ == node::node_endpoints(self@.active_slots()),
    {
        let active = self.active_slots();
        let mut buf: Vec<Endpoint> = Vec::new();
        proof {
            model::lemma_active_below(self@, self@.slots.len());
        }
        write_endpoints(&active, &mut buf);
        buf
    }

    /// Map an endpoint id to a device slot index, if it is one.
    pub fn slot_for(&self, endpoint: Option<u16>) -> (r: Option<usize>)
        requires
            self.wf(),
        ensures
            match self@.slot_for(endpoint) {
                Some(slot) => r == Some(slot as usize) && slot < MAX_DEVICES,
                None => r is None,
            },
    {
        match endpoint {
            Some(id) => {
                if id < FIRST_DEVICE_ENDPOINT {
                    return None;
                }
                let index = (id - FIRST_DEVICE_ENDPOINT) as usize;
                if index < self.slots.len() {
                    Some(index)
                } else {
                    None
                }
            },
            None => None,
        }
    }

    fn serving(&self, endpoint: Option<u16>) -> (r: Option<usize>)
        requires
            self.wf(),
        ensures
            match self@.slot_for(endpoint) {
                Some(slot) => if self@.slots[slot].active {
                    r == Some(slot as usize)
                } else {
                    r is None
                },
                None => r is None,
            },
    {
        match self.slot_for(endpoint) {
            Some(slot) => {
                assert(self@.slots[slot as int] == self.slots@[slot as int].model());
                if self.slots[slot].active {
                    Some(slot)
                } else {
                    None
                }
            },
            None => None,
        }
    }

    /// Which cluster of which slot handles an attribute read.
    pub fn read(&self, endpoint: Option<u16>, cluster: Option<u32>) -> (r: Result<
        Target,
        RouteError,
    >)
        requires
            self.wf(),
        ensures
            r == self@.routed(endpoint, cluster, |c| true, RouteError::AttributeNotFound),
    {
        match self.serving(endpoint) {
            Some(slot) => match find_cluster(cluster) {
                Some(c) => Ok(Target { slot, cluster: c }),
                None => Err(RouteError::AttributeNotFound),
            },
            None => Err(RouteError::EndpointNotFound),
        }
    }

    /// Which cluster of which slot handles an attribute write.
    pub fn write(&self, endpoint: Option<u16>, cluster: Option<u32>) -> (r: Result<
        Target,
        RouteError,
    >)
        requires
            self.wf(),
        ensures
            r == self@.routed(
                endpoint,
                cluster,
                |c| model::is_writable(c),
                RouteError::AttributeNotFound,
            ),
    {
        match self.serving(endpoint) {
            Some(slot) => match find_cluster(cluster) {
                Some(SwitchCluster::Bridged) => Ok(
                    Target { slot, cluster: SwitchCluster::Bridged },
                ),
                Some(SwitchCluster::OnOff) => Ok(Target { slot, cluster: SwitchCluster::OnOff }),
                _ => Err(RouteError::AttributeNotFound),
            },
            None => Err(RouteError::EndpointNotFound),
        }
    }

    /// Which cluster of which slot handles a command.
    pub fn invoke(&self, endpoint: Option<u16>, cluster: Option<u32>) -> (r: Result<
        Target,
        RouteError,
    >)
        requires
            self.wf(),
        ensures
            r == self@.routed(endpoint, cluster, |c| model::is_invocable(c), RouteError::CommandNotFound),
    {
        match self.serving(endpoint) {
            Some(slot) => match find_cluster(cluster) {
                Some(SwitchCluster::Groups) => Ok(Target { slot, cluster: SwitchCluster::Groups }),
                Some(SwitchCluster::OnOff) => Ok(Target { slot, cluster: SwitchCluster::OnOff }),
                _ => Err(RouteError::CommandNotFound),
            },
            None => Err(RouteError::EndpointNotFound),
        }
    }

    /// Which cluster's data version grows when an endpoint's cluster has
    /// changed, whether or not the slot has a device.
    pub fn bump_dataver(&self, endpoint: Option<u16>, cluster: Option<u32>) -> (r: Option<Target>)
        requires
            self.wf(),
        ensures
            r == (match (self@.slot_for(endpoint), model::cluster_of(cluster)) {
                (Some(slot), Some(c)) => Some(Target { slot: slot as usize, cluster: c }),
                _ => None,
            }),
    {
        match self.slot_for(endpoint) {
            Some(slot) => match find_cluster(cluster) {
                Some(c) => Some(Target { slot, cluster: c }),
                None => None,
            },
            None => None,
        }
    }

    /// Everything to subscribe to on a new connection to the broker, which
    /// starts with no subscriptions: the discovery filter, then the topics of
    /// the bridged devices, each once.
    pub fn resubscribe(&self, discovery: &str) -> (r: Vec<String>)
        requires
            self.wf(),
        ensures
            r@.len() >= 1,
            r@[0]@ == discovery@,
            forall|i: int| 1 <= i < r@.len() ==> self@.is_device_topic((#[trigger] r@[i])@),
            forall|i: int, j: int| 1 <= i < j < r@.len() ==> (#[trigger] r@[i])@ != (
            #[trigger] r@[j])@,
            forall|topic: Seq<char>| #[trigger]
                self@.is_device_topic(topic) ==> exists|i: int|
                    1 <= i < r@.len() && (#[trigger] r@[i])@ == topic,
    {
        let mut out: Vec<String> = Vec::new();
        out.push(discovery.to_owned());
        let mut i: usize = 0;
        while i < self.slots.len()
            invariant
                i <= self.slots@.len(),
                self.slots@.len() == self@.slots.len(),
                out@.len() >= 1,
                out@[0]@ == discovery@,
                no_repeats(out@),
                forall|t: Seq<char>| #[trigger]
                    names(out@, t) <==> exists|j: int|
                        j < i && (self@.has_state(t, j) || self@.has_availability(t, j)),
            decreases self.slots@.len() - i,
        {
            assert(self@.slots[i as int] == self.slots@[i as int].model());
            let ghost before = out@;
            subscribe_once(&mut out, &self.slots[i].state_topic);
            subscribe_once(&mut out, &self.slots[i].availability_topic);
            proof {
                assert forall|t: Seq<char>| #[trigger] names(out@, t) <==> exists|j: int|
                    j < i + 1 && (self@.has_state(t, j) || self@.has_availability(t, j)) by {
                    if names(before, t) {
                        let j = choose|j: int|
                            j < i && (self@.has_state(t, j) || self@.has_availability(t, j));
                        assert(j < i + 1 && (self@.has_state(t, j) || self@.has_availability(t, j)));
                    } else if names(out@, t) {
                        assert(self@.has_state(t, i as int) || self@.has_availability(t, i as int));
                    }
                }
            }
            i = i + 1;
        }
        proof {
            assert forall|k: int| 1 <= k < out@.len() implies self@.is_device_topic(
                (#[trigger] out@[k])@,
            ) by {
                assert(names(out@, out@[k]@));
            }
            assert forall|topic: Seq<char>| #[trigger]
                self@.is_device_topic(topic) implies exists|k: int|
                1 <= k < out@.len() && (#[trigger] out@[k])@ == topic by {
                let j = choose|j: int|
                    self@.has_state(topic, j) || self@.has_availability(topic, j);
                assert(j < self.slots@.len() && (self@.has_state(topic, j)
                    || self@.has_availability(topic, j)));
                assert(names(out@, topic));
            }
        }
        out
    }
}

/// Matches the root/aggregator endpoints (0 and 1) and global operations, so
/// the top-level chain routes those to the system handler and everything else
/// to the bridge's slot pool.
#[derive(Clone, Copy)]
pub struct RootEndpoints;

impl RootEndpoints {
    pub fn matches(&self, endpoint: Option<u16>) -> (r: bool)
        ensures
            r == model::is_root_operation(endpoint),
    {
        match endpoint {
            None => true,
            Some(id) => id <= AGGREGATOR_ENDPOINT,
        }
    }
}

} // verus!
