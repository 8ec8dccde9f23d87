//! What holds of the bridge across its operations.

use vstd::prelude::*;

use crate::bridge::bridged;
use crate::bridge::bridged::DeviceInformation;
use crate::bridge::model;
use crate::bridge::model::{
    BridgeModel, Delivery, DeviceModel, RouteError, SlotModel, SwitchCluster, Target, BRIDGED_ID, DESC_ID,
    GROUPS_ID, ONOFF_ID,
};
use crate::bridge::node;
use crate::bridge::node::{Endpoint, EndpointKind, FIRST_DEVICE_ENDPOINT, MAX_DEVICES};
use crate::bridge::switch;
use crate::bridge::switch::{Publication, StartUpOnOff, SwitchState};
use crate::bridge::DeviceView;
use crate::discovery::SwitchConfig;

verus! {

proof fn lemma_active_count(b: BridgeModel, n: nat, free: nat)
    requires
        b.valid(),
        n <= b.slots.len(),
        free <= b.slots.len(),
        forall|i: int| 0 <= i < b.slots.len() ==> (#[trigger] b.slots[i]).active == (i < free),
    ensures
        b.active_below(n).len() == (if n <= free {
            n
        } else {
            free
        }),
        forall|i: int| 0 <= i < b.active_below(n).len() ==> b.active_below(n)[i] == i,
    decreases n,
{
    if n > 0 {
        lemma_active_count(b, (n - 1) as nat, free);
    }
}

/// In a valid bridge the first free slot splits the slots into those with a
/// device and those without.
proof fn lemma_split(b: BridgeModel, slot: int)
    requires
        b.valid(),
        b.is_first_free(slot),
    ensures
        forall|i: int| 0 <= i < b.slots.len() ==> (#[trigger] b.slots[i]).active == (i < slot),
{
    assert forall|i: int| 0 <= i < b.slots.len() implies (#[trigger] b.slots[i]).active == (i
        < slot) by {
        if i > slot && b.slots[i].active {
            assert(b.slots[slot].active);
        }
    }
}

/// The pool holds at most `MAX_DEVICES` devices. Either it is full, with
/// exactly that many, or the first free slot is the one after the devices that
/// are there, so that a new switch finds room exactly when there are fewer.
pub proof fn law_pool_capacity(b: BridgeModel)
    requires
        b.valid(),
    ensures
        b.devices().len() <= MAX_DEVICES,
        b.is_full() <==> b.devices().len() == MAX_DEVICES,
        !b.is_full() <==> b.is_first_free(b.devices().len() as int),
        forall|slot: int| b.is_first_free(slot) ==> slot == b.devices().len(),
{
    if b.is_full() {
        lemma_active_count(b, b.slots.len(), b.slots.len());
    } else {
        let free = lemma_first_free(b, 0);
        lemma_split(b, free);
        lemma_active_count(b, b.slots.len(), free as nat);
        assert(!b.slots[free].active);
    }
    assert forall|slot: int| b.is_first_free(slot) implies slot == b.devices().len() by {
        lemma_split(b, slot);
        lemma_active_count(b, b.slots.len(), slot as nat);
    }
}

proof fn lemma_first_free(b: BridgeModel, from: int) -> (slot: int)
    requires
        !b.is_full(),
        0 <= from <= b.slots.len(),
        forall|i: int| 0 <= i < from ==> (#[trigger] b.slots[i]).active,
    ensures
        b.is_first_free(slot),
    decreases b.slots.len() - from,
{
    if from < b.slots.len() && !b.slots[from].active {
        from
    } else {
        assert(from < b.slots.len());
        lemma_first_free(b, from + 1)
    }
}

/// A newly bound switch appears as one more device, after the others, which
/// are as they were: under its own name and unique id, reachable, at the next
/// endpoint. The node has one more endpoint, its.
pub proof fn law_new_switch_appears(b: BridgeModel, slot: usize, cfg: SwitchConfig)
    requires
        b.valid(),
        b.is_first_free(slot as int),
        !b.by_unique_id.contains_key(cfg.unique_id@),
    ensures
        b.bound(slot, cfg).valid(),
        b.bound(slot, cfg).devices() == b.devices().push(
            DeviceModel {
                endpoint: FIRST_DEVICE_ENDPOINT + slot,
                name: cfg.name@,
                unique_id: cfg.unique_id@,
                reachable: true,
                on: b.slots[slot as int].switch.on,
            },
        ),
        node::node_endpoints(b.bound(slot, cfg).active_slots()) == node::node_endpoints(
            b.active_slots(),
        ).push(
            Endpoint { id: (FIRST_DEVICE_ENDPOINT + slot) as u16, kind: EndpointKind::Switch },
        ),
{
    let after = b.bound(slot, cfg);
    model::lemma_bound_valid(b, slot, cfg);
    lemma_split(b, slot as int);
    assert forall|i: int| 0 <= i < after.slots.len() implies (#[trigger] after.slots[i]).active == (
    i < slot + 1) by {
        if i != slot {
            assert(after.slots[i] == b.slots[i]);
        }
    }
    lemma_active_count(b, b.slots.len(), slot as nat);
    lemma_active_count(after, after.slots.len(), slot as nat + 1);
    assert(after.active_slots() =~= b.active_slots().push(slot));
    assert(after.devices() =~= b.devices().push(after.device(slot as int)));
    assert(node::node_endpoints(after.active_slots()) =~= node::node_endpoints(
        b.active_slots(),
    ).push(Endpoint { id: (FIRST_DEVICE_ENDPOINT + slot) as u16, kind: EndpointKind::Switch }));
}

/// Announcing a switch again is ignored: once a unique id is bridged it stays
/// known, at its slot, through every further operation.
pub proof fn law_bridged_switches_stay_known(
    b: BridgeModel,
    id: Seq<char>,
    slot: usize,
    cfg: SwitchConfig,
    other: int,
    topic: Seq<char>,
    info: DeviceInformation,
    state: SwitchState,
)
    requires
        b.valid(),
    ensures
        b.is_first_free(slot as int) && !b.by_unique_id.contains_key(cfg.unique_id@) ==> {
            let bound = b.bound(slot, cfg);
            &&& bound.by_unique_id.contains_key(cfg.unique_id@)
            &&& bound.by_unique_id[cfg.unique_id@] == slot
            &&& b.by_unique_id.contains_key(id) ==> bound.by_unique_id.contains_key(id)
                && bound.by_unique_id[id] == b.by_unique_id[id]
        },
        b.with_availability_route(topic, slot).by_unique_id == b.by_unique_id,
        b.with_info(other, info).by_unique_id == b.by_unique_id,
        b.with_switch(other, state).by_unique_id == b.by_unique_id,
{
}

proof fn lemma_announced(b: BridgeModel, cfg: SwitchConfig)
    requires
        b.valid(),
    ensures
        b.announced(cfg).valid(),
        b.is_full() ==> b.announced(cfg) == b,
        forall|id: Seq<char>| #[trigger]
            b.by_unique_id.contains_key(id) ==> b.announced(cfg).by_unique_id.contains_key(id),
        forall|id: Seq<char>| #[trigger]
            b.announced(cfg).by_unique_id.contains_key(id) ==> b.by_unique_id.contains_key(id)
                || id == cfg.unique_id@,
        b.announced(cfg).by_unique_id.contains_key(cfg.unique_id@) || b.is_full(),
{
    law_pool_capacity(b);
    if b.announced(cfg) != b {
        model::lemma_bound_valid(b, b.devices().len() as usize, cfg);
    }
}

/// Of any run of announcements, each switch ends up bridged, unless the pool
/// is full; and every device of the bridge was there before or is one of the
/// announced switches.
pub proof fn law_announced_switches_are_bridged(
    b: BridgeModel,
    cfgs: Seq<SwitchConfig>,
    i: int,
    id: Seq<char>,
)
    requires
        b.valid(),
        0 <= i < cfgs.len(),
    ensures
        b.all_announced(cfgs).valid(),
        b.all_announced(cfgs).by_unique_id.contains_key(cfgs[i].unique_id@) || b.all_announced(
            cfgs,
        ).devices().len() == MAX_DEVICES,
        b.all_announced(cfgs).by_unique_id.contains_key(id) ==> b.by_unique_id.contains_key(id) || (
        exists|j: int| 0 <= j < cfgs.len() && (#[trigger] cfgs[j]).unique_id@ == id),
    decreases cfgs.len(),
{
    let rest = cfgs.drop_last();
    let before = b.all_announced(rest);
    if rest.len() > 0 {
        law_announced_switches_are_bridged(
            b,
            rest,
            if i < rest.len() {
                i
            } else {
                0
            },
            id,
        );
    }
    lemma_announced(before, cfgs.last());
    law_pool_capacity(before);
    law_pool_capacity(b.all_announced(cfgs));
    if i < rest.len() {
        assert(rest[i] == cfgs[i]);
    }
    if before.by_unique_id.contains_key(id) && !b.by_unique_id.contains_key(id) {
        let j = choose|j: int| 0 <= j < rest.len() && (#[trigger] rest[j]).unique_id@ == id;
        assert(cfgs[j].unique_id@ == id);
    }
    assert(cfgs[cfgs.len() - 1] == cfgs.last());
}

proof fn lemma_stays_settled(b: BridgeModel, id: Seq<char>, cfgs: Seq<SwitchConfig>)
    requires
        b.valid(),
        b.by_unique_id.contains_key(id) || b.is_full(),
    ensures
        b.all_announced(cfgs).valid(),
        b.all_announced(cfgs).by_unique_id.contains_key(id) || b.all_announced(cfgs).is_full(),
    decreases cfgs.len(),
{
    if cfgs.len() > 0 {
        lemma_stays_settled(b, id, cfgs.drop_last());
        lemma_announced(b.all_announced(cfgs.drop_last()), cfgs.last());
    }
}

/// Announcing a switch a second time changes nothing, whatever was announced
/// in between.
pub proof fn law_announcing_is_idempotent(
    b: BridgeModel,
    cfg: SwitchConfig,
    between: Seq<SwitchConfig>,
)
    requires
        b.valid(),
    ensures
        ({
            let later = b.announced(cfg).all_announced(between);
            later.announced(cfg) == later
        }),
{
    lemma_announced(b, cfg);
    law_pool_capacity(b);
    lemma_stays_settled(b.announced(cfg), cfg.unique_id@, between);
    law_pool_capacity(b.announced(cfg).all_announced(between));
}

/// No two bridged devices share an endpoint or a unique id.
pub proof fn law_devices_are_distinct(b: BridgeModel, i: int, j: int)
    requires
        b.valid(),
        0 <= i < j < b.devices().len(),
    ensures
        b.devices()[i].endpoint < b.devices()[j].endpoint,
        b.devices()[i].unique_id != b.devices()[j].unique_id,
{
    model::lemma_active_below(b, b.slots.len());
    let p = b.active_slots()[i] as int;
    let q = b.active_slots()[j] as int;
    assert(b.is_active(p));
    assert(b.is_active(q));
}

/// The endpoints of the node are in strictly ascending order, with no id twice.
pub proof fn law_node_endpoints_ascend(b: BridgeModel, i: int, j: int)
    requires
        b.valid(),
        0 <= i < j < node::node_endpoints(b.active_slots()).len(),
    ensures
        node::node_endpoints(b.active_slots())[i].id < node::node_endpoints(b.active_slots())[j].id,
{
    model::lemma_active_below(b, b.slots.len());
    node::law_endpoint_ids_increase(b.active_slots());
}

/// Binding gives the slot the switch's topics, and leaves every other slot
/// alone.
pub proof fn law_bound_switch_is_wired(
    b: BridgeModel,
    slot: usize,
    cfg: SwitchConfig,
    avty: Seq<char>,
    other: int,
)
    requires
        b.valid(),
        b.is_first_free(slot as int),
        !b.by_unique_id.contains_key(cfg.unique_id@),
    ensures
        ({
            let bound = b.bound(slot, cfg);
            let wired = bound.with_availability_route(avty, slot);
            &&& bound.valid()
            &&& wired.valid()
            &&& wired.has_state(cfg.state_topic@, slot as int)
            &&& wired.has_availability(avty, slot as int)
            &&& wired.slots[slot as int].switch.command_topic == Some(cfg.command_topic@)
            &&& 0 <= other < b.slots.len() && other != slot ==> wired.slots[other]
                == b.slots[other]
        }),
{
    model::lemma_bound_valid(b, slot, cfg);
    assert(b.bound(slot, cfg).is_active(slot as int));
    model::lemma_routed_valid(b.bound(slot, cfg), avty, slot);
}

proof fn lemma_same_activity(b: BridgeModel, after: BridgeModel, n: nat)
    requires
        after.slots.len() == b.slots.len(),
        n <= b.slots.len(),
        forall|i: int|
            0 <= i < b.slots.len() ==> (#[trigger] after.slots[i]).active == b.slots[i].active,
    ensures
        after.active_below(n) == b.active_below(n),
    decreases n,
{
    if n > 0 {
        lemma_same_activity(b, after, (n - 1) as nat);
    }
}

proof fn lemma_all_on(b: BridgeModel, slots: Seq<usize>, on: bool)
    requires
        b.slots.len() <= MAX_DEVICES,
        forall|k: int| 0 <= k < slots.len() ==> (#[trigger] slots[k]) < b.slots.len(),
    ensures
        ({
            let after = b.with_all_on(slots, on);
            &&& after.slots.len() == b.slots.len()
            &&& after.by_unique_id == b.by_unique_id
            &&& forall|i: int|
                0 <= i < b.slots.len() ==> (#[trigger] after.slots[i]) == (if slots.contains(
                    i as usize,
                ) {
                    SlotModel {
                        switch: SwitchState { on, ..b.slots[i].switch },
                        ..b.slots[i]
                    }
                } else {
                    b.slots[i]
                })
        }),
    decreases slots.len(),
{
    if slots.len() > 0 {
        let rest = slots.drop_last();
        lemma_all_on(b, rest, on);
        let after = b.with_all_on(slots, on);
        assert forall|i: int| 0 <= i < b.slots.len() implies (#[trigger] after.slots[i]) == (
        if slots.contains(i as usize) {
            SlotModel { switch: SwitchState { on, ..b.slots[i].switch }, ..b.slots[i] }
        } else {
            b.slots[i]
        }) by {
            if rest.contains(i as usize) {
                let k = choose|k: int| 0 <= k < rest.len() && rest[k] == i as usize;
                assert(slots[k] == i as usize);
            }
            if slots.contains(i as usize) && slots.last() != i as usize {
                let k = choose|k: int| 0 <= k < slots.len() && slots[k] == i as usize;
                assert(rest[k] == i as usize);
            }
            assert(slots[slots.len() - 1] == slots.last());
        }
    }
}

/// A message on a state topic is handed to every device that has the topic,
/// and applying it shows: each of them is on exactly if the message said `ON`.
/// Every other device, and everything else about these, is as before.
pub proof fn law_reported_state_is_shown(
    b: BridgeModel,
    topic: Seq<char>,
    payload: Seq<u8>,
    d: Delivery,
    i: int,
)
    requires
        b.valid(),
        b.is_state_topic(topic),
        b.is_delivery(topic, payload, d),
        0 <= i < b.devices().len(),
    ensures
        ({
            let on = model::is_text(payload, "ON"@);
            let after = b.after_delivery(topic, payload).with_all_on(d->slots@, d->on);
            &&& d is State
            &&& after.devices().len() == b.devices().len()
            &&& after.devices()[i] == (if b.has_state(topic, b.active_slots()[i] as int) {
                DeviceModel { on, ..b.devices()[i] }
            } else {
                b.devices()[i]
            })
        }),
{
    let slots = b.state_slots(topic);
    let after = b.with_all_on(slots, d->on);
    model::lemma_active_below(b, b.slots.len());
    model::lemma_state_slots(b, topic, b.slots.len());
    lemma_all_on(b, slots, d->on);
    lemma_same_activity(b, after, b.slots.len());
    let slot = b.active_slots()[i];
    assert(b.is_active(slot as int));
    if slots.contains(slot) {
        let k = choose|k: int| 0 <= k < slots.len() && slots[k] == slot;
        assert(b.has_state(topic, slots[k] as int));
    }
}

/// A message on an availability topic, if no device has that topic for its
/// state, is reflected in every device that has the topic: it is reachable
/// exactly if the message said `online`. Every other device, and everything
/// else about these, is as before.
pub proof fn law_availability_is_shown(b: BridgeModel, topic: Seq<char>, payload: Seq<u8>, i: int)
    requires
        b.valid(),
        !b.is_state_topic(topic),
        0 <= i < b.devices().len(),
    ensures
        ({
            let after = b.after_delivery(topic, payload);
            &&& after.devices().len() == b.devices().len()
            &&& after.devices()[i] == (if b.has_availability(topic, b.active_slots()[i] as int) {
                DeviceModel { reachable: model::is_text(payload, "online"@), ..b.devices()[i] }
            } else {
                b.devices()[i]
            })
        }),
{
    let after = b.after_delivery(topic, payload);
    model::lemma_active_below(b, b.slots.len());
    lemma_same_activity(b, after, b.slots.len());
    assert(b.is_active(b.active_slots()[i] as int));
}

/// Commands reach the device: turning a bridged switch on or off publishes
/// `ON` or `OFF` to the command topic it was bound with, and shows it so.
pub proof fn law_commands_are_published(
    b: BridgeModel,
    slot: usize,
    on: bool,
    p: Option<Publication>,
)
    requires
        b.valid(),
        b.is_active(slot as int),
        switch::is_command(p, b.slots[slot as int].switch.command_topic, on),
    ensures
        p is Some,
        Some(p->0.topic@) == b.slots[slot as int].switch.command_topic,
        p->0.payload@ == switch::on_off_text(on),
        b.with_on(slot as int, on).device(slot as int) == (DeviceModel {
            on,
            ..b.device(slot as int)
        }),
{
}

/// The two directions cannot loop. What a command publishes, echoed by the
/// device on its state topic, reads as the state that was commanded, and
/// applying it changes nothing more. (A report itself publishes nothing.)
pub proof fn law_echoed_commands_settle(b: BridgeModel, slot: int, on: bool, payload: Seq<u8>)
    requires
        0 <= slot < b.slots.len(),
        model::is_text(payload, switch::on_off_text(on)),
    ensures
        model::is_text(payload, "ON"@) == on,
        b.with_on(slot, on).with_on(slot, model::is_text(payload, "ON"@)) == b.with_on(slot, on),
{
    reveal_strlit("ON");
    reveal_strlit("OFF");
    vstd::utf8::encode_utf8_decode_utf8("ON"@);
    vstd::utf8::encode_utf8_decode_utf8("OFF"@);
    assert("ON"@.len() != "OFF"@.len());
    let once = b.with_on(slot, on);
    assert(once.with_on(slot, on).slots =~= once.slots);
}

/// `after` has in slot `held` the device that `before` has there, with the same
/// unique id and the same topics.
pub open spec fn same_device(before: BridgeModel, after: BridgeModel, held: int) -> bool {
    &&& after.is_active(held)
    &&& after.slots[held].info.unique_id == before.slots[held].info.unique_id
    &&& after.slots[held].switch.command_topic == before.slots[held].switch.command_topic
    &&& after.slots[held].state_topic == before.slots[held].state_topic
    &&& after.slots[held].availability_topic == before.slots[held].availability_topic
}

/// Once a slot has a device, it keeps it with its topics, whatever is done to
/// the bridge. (The availability topic comes last, once the device is bound.)
pub proof fn law_bindings_are_permanent(
    b: BridgeModel,
    held: int,
    slot: usize,
    cfg: SwitchConfig,
    other: int,
    topic: Seq<char>,
    flag: bool,
    start_up: Option<StartUpOnOff>,
)
    requires
        b.valid(),
        b.is_active(held),
        0 <= other < b.slots.len(),
    ensures
        b.is_first_free(slot as int) ==> same_device(b, b.bound(slot, cfg), held),
        slot < b.slots.len() && slot != held ==> same_device(
            b,
            b.with_availability_route(topic, slot),
            held,
        ),
        same_device(b, b.with_on(other, flag), held),
        same_device(b, b.with_availability(topic, flag), held),
        same_device(
            b,
            b.with_switch(other, (SwitchState { start_up, ..b.slots[other].switch })),
            held,
        ),
        same_device(
            b,
            b.with_info(
                other,
                (DeviceInformation { node_label: topic, ..b.slots[other].info }),
            ),
            held,
        ),
        same_device(
            b,
            b.with_info(
                other,
                (DeviceInformation {
                    dataver: bridged::next_dataver(b.slots[other].info.dataver),
                    ..b.slots[other].info
                }),
            ),
            held,
        ),
{
}

proof fn lemma_added(b: BridgeModel, cfg: SwitchConfig)
    requires
        b.valid(),
    ensures
        b.added(cfg).valid(),
        forall|held: int| #[trigger] b.is_active(held) ==> same_device(b, b.added(cfg), held),
{
    law_pool_capacity(b);
    let slot = b.devices().len() as usize;
    if !b.by_unique_id.contains_key(cfg.unique_id@) && slot < MAX_DEVICES {
        model::lemma_bound_valid(b, slot, cfg);
        assert(b.bound(slot, cfg).is_active(slot as int));
        if let Some(topic) = cfg.availability_topic {
            model::lemma_routed_valid(b.bound(slot, cfg), topic@, slot);
        }
    }
}

proof fn lemma_all_added(b: BridgeModel, cfgs: Seq<SwitchConfig>, held: int)
    requires
        b.valid(),
        b.is_active(held),
    ensures
        b.all_added(cfgs).valid(),
        same_device(b, b.all_added(cfgs), held),
    decreases cfgs.len(),
{
    if cfgs.len() > 0 {
        lemma_all_added(b, cfgs.drop_last(), held);
        lemma_added(b.all_added(cfgs.drop_last()), cfgs.last());
    }
}

/// A switch that was added follows its own topics, whatever is added later and
/// whoever else has them: its state topic leads to it, it is commanded on its
/// command topic, and `online` or anything else on its availability topic, if
/// that is no state topic, makes it reachable or not.
pub proof fn law_switches_follow_their_topics(
    b: BridgeModel,
    cfg: SwitchConfig,
    later: Seq<SwitchConfig>,
    payload: Seq<u8>,
)
    requires
        b.valid(),
        !b.by_unique_id.contains_key(cfg.unique_id@),
        b.devices().len() < MAX_DEVICES,
    ensures
        ({
            let slot = b.devices().len() as int;
            let after = b.added(cfg).all_added(later);
            &&& after.valid()
            &&& after.is_active(slot)
            &&& after.slots[slot].info.unique_id == cfg.unique_id@
            &&& after.slots[slot].switch.command_topic == Some(cfg.command_topic@)
            &&& after.state_slots(cfg.state_topic@).contains(slot as usize)
            &&& match cfg.availability_topic {
                Some(topic) => {
                    &&& after.has_availability(topic@, slot)
                    &&& !after.is_state_topic(topic@) ==> after.after_delivery(
                        topic@,
                        payload,
                    ).slots[slot].info.reachable == model::is_text(payload, "online"@)
                },
                None => after.slots[slot].availability_topic is None,
            }
        }),
{
    law_pool_capacity(b);
    let slot = b.devices().len() as int;
    lemma_added(b, cfg);
    assert(b.added(cfg).is_active(slot));
    lemma_all_added(b.added(cfg), later, slot);
    let after = b.added(cfg).all_added(later);
    model::lemma_state_slots(after, cfg.state_topic@, after.slots.len());
    assert(after.has_state(cfg.state_topic@, slot));
}

/// Every endpoint of the node is served on one side: the root and the
/// aggregator by the system handler, and not by a slot; each device by its
/// slot, and not by the system handler.
pub proof fn law_every_endpoint_is_served_once(b: BridgeModel, i: int)
    requires
        b.valid(),
        0 <= i < node::node_endpoints(b.active_slots()).len(),
    ensures
        ({
            let endpoint = node::node_endpoints(b.active_slots())[i];
            let slot = b.slot_for(Some(endpoint.id));
            if endpoint.kind == EndpointKind::Switch {
                &&& !model::is_root_operation(Some(endpoint.id))
                &&& slot is Some
                &&& b.is_active(slot->0)
                &&& endpoint.id == FIRST_DEVICE_ENDPOINT + slot->0
            } else {
                &&& model::is_root_operation(Some(endpoint.id))
                &&& slot is None
            }
        }),
{
    model::lemma_active_below(b, b.slots.len());
    if i >= 2 {
        assert(b.is_active(b.active_slots()[i - 2] as int));
    }
}

/// A bridged device answers reads of its four clusters, writes to its basic
/// information and on/off clusters, and commands to its groups and on/off
/// clusters; other clusters are refused.
pub proof fn law_devices_answer(b: BridgeModel, slot: usize, cluster: Option<u32>)
    requires
        b.valid(),
        b.is_active(slot as int),
    ensures
        ({
            let endpoint = Some((FIRST_DEVICE_ENDPOINT + slot) as u16);
            let read = b.routed(endpoint, cluster, |c| true, RouteError::AttributeNotFound);
            let write = b.routed(
                endpoint,
                cluster,
                |c| model::is_writable(c),
                RouteError::AttributeNotFound,
            );
            let invoke = b.routed(
                endpoint,
                cluster,
                |c| model::is_invocable(c),
                RouteError::CommandNotFound,
            );
            &&& cluster == Some(DESC_ID) ==> {
                &&& read == Ok::<_, RouteError>(Target { slot, cluster: SwitchCluster::Descriptor })
                &&& write == Err::<Target, _>(RouteError::AttributeNotFound)
                &&& invoke == Err::<Target, _>(RouteError::CommandNotFound)
            }
            &&& cluster == Some(GROUPS_ID) ==> {
                &&& read == Ok::<_, RouteError>(Target { slot, cluster: SwitchCluster::Groups })
                &&& write == Err::<Target, _>(RouteError::AttributeNotFound)
                &&& invoke == read
            }
            &&& cluster == Some(BRIDGED_ID) ==> {
                &&& read == Ok::<_, RouteError>(Target { slot, cluster: SwitchCluster::Bridged })
                &&& write == read
                &&& invoke == Err::<Target, _>(RouteError::CommandNotFound)
            }
            &&& cluster == Some(ONOFF_ID) ==> {
                &&& read == Ok::<_, RouteError>(Target { slot, cluster: SwitchCluster::OnOff })
                &&& write == read
                &&& invoke == read
            }
            &&& model::cluster_of(cluster) is None ==> {
                &&& read == Err::<Target, _>(RouteError::AttributeNotFound)
                &&& write == read
                &&& invoke == Err::<Target, _>(RouteError::CommandNotFound)
            }
        }),
{
}

/// A bridged device answers reads of exactly the clusters that its endpoint is
/// listed with.
pub proof fn law_listed_clusters_are_answered(b: BridgeModel, slot: usize, id: u32)
    requires
        b.valid(),
        b.is_active(slot as int),
    ensures
        b.routed(
            Some((FIRST_DEVICE_ENDPOINT + slot) as u16),
            Some(id),
            |c| true,
            RouteError::AttributeNotFound,
        ) is Ok <==> node::clusters_of(EndpointKind::Switch).contains(id),
{
    let listed = node::clusters_of(EndpointKind::Switch);
    assert(listed[0] == DESC_ID && listed[1] == GROUPS_ID && listed[2] == BRIDGED_ID && listed[3]
        == ONOFF_ID);
}

/// Whatever is asked of an endpoint that is no bridged device's is answered
/// with an unknown endpoint.
pub proof fn law_other_endpoints_are_unknown(
    b: BridgeModel,
    endpoint: Option<u16>,
    cluster: Option<u32>,
    allowed: spec_fn(SwitchCluster) -> bool,
    refused: RouteError,
)
    requires
        b.valid(),
        forall|i: int|
            0 <= i < b.devices().len() ==> endpoint is None || (#[trigger] b.devices()[i]).endpoint
                != endpoint->0,
    ensures
        b.routed(endpoint, cluster, allowed, refused) == Err::<Target, RouteError>(
            RouteError::EndpointNotFound,
        ),
{
    model::lemma_active_below(b, b.slots.len());
    if let Some(slot) = b.slot_for(endpoint) {
        if b.slots[slot].active {
            assert(b.is_active(slot));
            let i = choose|i: int|
                0 <= i < b.active_slots().len() && b.active_slots()[i] == slot as usize;
            assert(b.devices()[i].endpoint == FIRST_DEVICE_ENDPOINT + slot);
        }
    }
}

proof fn lemma_wire_words()
    ensures
        vstd::utf8::encode_utf8("ON"@) == seq![0x4fu8, 0x4eu8],
        vstd::utf8::encode_utf8("online"@) == seq![
            0x6fu8,
            0x6eu8,
            0x6cu8,
            0x69u8,
            0x6eu8,
            0x65u8,
        ],
{
    reveal_strlit("ON");
    reveal_strlit("online");
    vstd::utf8::is_ascii_chars_encode_utf8("ON"@);
    vstd::utf8::is_ascii_chars_encode_utf8("online"@);
    assert(vstd::utf8::encode_utf8("ON"@) =~= seq![0x4fu8, 0x4eu8]);
    assert(vstd::utf8::encode_utf8("online"@) =~= seq![
        0x6fu8,
        0x6eu8,
        0x6cu8,
        0x69u8,
        0x6eu8,
        0x65u8,
    ]);
}

/// A payload says `ON`, or `online`, exactly if it is the bytes of that word.
pub proof fn law_words_are_bytes(payload: Seq<u8>)
    ensures
        model::is_text(payload, "ON"@) <==> payload == seq![0x4fu8, 0x4eu8],
        model::is_text(payload, "online"@) <==> payload == seq![
            0x6fu8,
            0x6eu8,
            0x6cu8,
            0x69u8,
            0x6eu8,
            0x65u8,
        ],
{
    lemma_wire_words();
}

/// A message on exactly the topic that a slot has for its state, of whatever
/// length, is delivered as a state, to that slot among others, and says on
/// exactly if the payload is the bytes of `ON`. It changes nothing yet.
pub proof fn law_state_messages_arrive(
    b: BridgeModel,
    topic: Seq<char>,
    payload: Seq<u8>,
    d: Delivery,
    slot: int,
)
    requires
        b.valid(),
        b.is_delivery(topic, payload, d),
        0 <= slot < b.slots.len(),
        b.slots[slot].state_topic == Some(topic),
    ensures
        d is State,
        d->slots@.contains(slot as usize),
        d->on <==> payload == seq![0x4fu8, 0x4eu8],
        b.after_delivery(topic, payload) == b,
{
    lemma_wire_words();
    assert(b.has_state(topic, slot));
    model::lemma_state_slots(b, topic, b.slots.len());
}

proof fn lemma_state_slots_ascend(b: BridgeModel, topic: Seq<char>, n: nat)
    requires
        n <= b.slots.len(),
        b.slots.len() <= MAX_DEVICES,
    ensures
        forall|i: int, j: int|
            0 <= i < j < b.state_slots_below(topic, n).len() ==> b.state_slots_below(topic, n)[i]
                < b.state_slots_below(topic, n)[j],
    decreases n,
{
    if n > 0 {
        lemma_state_slots_ascend(b, topic, (n - 1) as nat);
        model::lemma_state_slots(b, topic, (n - 1) as nat);
        let before = b.state_slots_below(topic, (n - 1) as nat);
        let all = b.state_slots_below(topic, n);
        assert forall|i: int, j: int| 0 <= i < j < all.len() implies all[i] < all[j] by {
            assert(all[i] == before[i]);
            if j < before.len() {
                assert(all[j] == before[j]);
            }
        }
    }
}

/// A state is delivered only to slots that have exactly this topic for their
/// state, and to each of them once.
pub proof fn law_states_go_nowhere_else(
    b: BridgeModel,
    topic: Seq<char>,
    payload: Seq<u8>,
    d: Delivery,
)
    requires
        b.valid(),
        b.is_delivery(topic, payload, d),
        d is State,
    ensures
        d->slots@.len() > 0,
        forall|k: int|
            0 <= k < d->slots@.len() ==> (#[trigger] d->slots@[k]) < b.slots.len()
                && b.slots[d->slots@[k] as int].state_topic == Some(topic),
        forall|k: int, l: int| 0 <= k < l < d->slots@.len() ==> d->slots@[k] < d->slots@[l],
{
    model::lemma_state_slots(b, topic, b.slots.len());
    lemma_state_slots_ascend(b, topic, b.slots.len());
    let slot = choose|slot: int| b.has_state(topic, slot);
    assert(b.has_state(topic, slot));
}

/// A message on a topic that no slot has for its state reaches every slot that
/// has exactly this topic for its availability: the slot's device is reachable
/// then exactly if the payload is the bytes of `online`, and its data version
/// has moved on by one. Nothing else about it changes, and no other slot does.
pub proof fn law_availability_messages_arrive(
    b: BridgeModel,
    topic: Seq<char>,
    payload: Seq<u8>,
    d: Delivery,
    slot: int,
)
    requires
        b.valid(),
        b.is_delivery(topic, payload, d),
        forall|i: int| 0 <= i < b.slots.len() ==> (#[trigger] b.slots[i]).state_topic != Some(topic),
        0 <= slot < b.slots.len(),
    ensures
        ({
            let online = payload == seq![0x6fu8, 0x6eu8, 0x6cu8, 0x69u8, 0x6eu8, 0x65u8];
            let before = b.slots[slot];
            let after = b.after_delivery(topic, payload).slots[slot];
            &&& before.availability_topic == Some(topic) ==> {
                &&& d == (Delivery::Availability { online })
                &&& after.info.reachable == online
                &&& after.info.dataver == (before.info.dataver + 1) % 0x1_0000_0000
                &&& after.info.unique_id == before.info.unique_id
                &&& after.info.node_label == before.info.node_label
                &&& after.switch == before.switch
                &&& after.state_topic == before.state_topic
                &&& after.availability_topic == before.availability_topic
                &&& after.active == before.active
            }
            &&& before.availability_topic != Some(topic) ==> after == before
            &&& (forall|i: int|
                0 <= i < b.slots.len() ==> (#[trigger] b.slots[i]).availability_topic != Some(
                    topic,
                )) ==> d is Unrouted
        }),
        b.after_delivery(topic, payload).slots.len() == b.slots.len(),
        b.after_delivery(topic, payload).by_unique_id == b.by_unique_id,
{
    lemma_wire_words();
    assert forall|i: int| !b.has_state(topic, i) by {
        if 0 <= i < b.slots.len() {
            assert(b.slots[i].state_topic != Some(topic));
        }
    }
    if b.slots[slot].availability_topic == Some(topic) {
        assert(b.has_availability(topic, slot));
    }
    if forall|i: int|
        0 <= i < b.slots.len() ==> (#[trigger] b.slots[i]).availability_topic != Some(topic) {
        assert forall|i: int| !b.has_availability(topic, i) by {
            if 0 <= i < b.slots.len() {
                assert(b.slots[i].availability_topic != Some(topic));
            }
        }
    }
    bridged::law_availability_is_recorded(
        b.slots[slot].info,
        model::is_text(payload, "online"@),
    );
}

/// A topic is one of the devices' exactly if some slot has it for its state or
/// its availability: those are the topics to subscribe to again.
pub proof fn law_device_topics_are_the_slots(b: BridgeModel, topic: Seq<char>)
    ensures
        b.is_device_topic(topic) <==> exists|i: int|
            0 <= i < b.slots.len() && ((#[trigger] b.slots[i]).state_topic == Some(topic)
                || b.slots[i].availability_topic == Some(topic)),
{
    if b.is_device_topic(topic) {
        if b.is_state_topic(topic) {
            let i = choose|i: int| b.has_state(topic, i);
            assert(b.slots[i].state_topic == Some(topic));
        } else {
            let i = choose|i: int| b.has_availability(topic, i);
            assert(b.slots[i].availability_topic == Some(topic));
        }
    }
    if exists|i: int|
        0 <= i < b.slots.len() && ((#[trigger] b.slots[i]).state_topic == Some(topic)
            || b.slots[i].availability_topic == Some(topic)) {
        let i = choose|i: int|
            0 <= i < b.slots.len() && ((#[trigger] b.slots[i]).state_topic == Some(topic)
                || b.slots[i].availability_topic == Some(topic));
        if b.slots[i].state_topic == Some(topic) {
            assert(b.has_state(topic, i));
        } else {
            assert(b.has_availability(topic, i));
        }
    }
}

/// An unused slot has no device, no topics and nothing set; the data version is
/// the given one.
pub proof fn law_unused_slots_are_blank(dataver: u32)
    ensures
        ({
            let slot = model::unused_slot(dataver);
            &&& !slot.active
            &&& slot.info.dataver == dataver
            &&& slot.info.unique_id.len() == 0
            &&& slot.info.node_label.len() == 0
            &&& !slot.info.reachable
            &&& slot.switch.command_topic is None
            &&& !slot.switch.on
            &&& slot.switch.start_up is None
            &&& slot.state_topic is None
            &&& slot.availability_topic is None
        }),
{
}

/// An announced switch that is not known yet takes the first slot without a
/// device, if there is one, with its name, id and topics as they were
/// announced. It is reachable from the start; what its switch showed and its
/// data version stay, and so does every other slot. A switch that is known, or
/// finds every slot taken, changes nothing.
pub proof fn law_announced_switches_take_slots(
    b: BridgeModel,
    cfg: SwitchConfig,
    slot: int,
    other: int,
)
    requires
        b.valid(),
        0 <= slot < b.slots.len(),
        !b.slots[slot].active,
        forall|i: int| 0 <= i < slot ==> (#[trigger] b.slots[i]).active,
    ensures
        b.is_first_free(slot),
        !b.is_full(),
        b.by_unique_id.contains_key(cfg.unique_id@) ==> b.announced(cfg) == b,
        !b.by_unique_id.contains_key(cfg.unique_id@) ==> {
            let after = b.announced(cfg);
            &&& after == b.bound(slot as usize, cfg)
            &&& after.slots.len() == b.slots.len()
            &&& after.slots[slot].active
            &&& after.slots[slot].info.unique_id == cfg.unique_id@
            &&& after.slots[slot].info.node_label == cfg.name@
            &&& after.slots[slot].info.reachable
            &&& after.slots[slot].info.dataver == b.slots[slot].info.dataver
            &&& after.slots[slot].switch.command_topic == Some(cfg.command_topic@)
            &&& after.slots[slot].switch.on == b.slots[slot].switch.on
            &&& after.slots[slot].switch.start_up == b.slots[slot].switch.start_up
            &&& after.slots[slot].state_topic == Some(cfg.state_topic@)
            &&& after.slots[slot].availability_topic is None
            &&& 0 <= other < b.slots.len() && other != slot ==> after.slots[other]
                == b.slots[other]
            &&& after.by_unique_id == b.by_unique_id.insert(cfg.unique_id@, slot as usize)
        },
{
    law_pool_capacity(b);
    assert(b.is_first_free(slot));
}

/// Where every slot has a device, no announcement changes anything, and the
/// refusal names the limit and the switch.
pub proof fn law_full_pools_refuse(b: BridgeModel, cfg: SwitchConfig, name: Seq<char>)
    requires
        b.valid(),
        forall|i: int| 0 <= i < b.slots.len() ==> (#[trigger] b.slots[i]).active,
    ensures
        b.is_full(),
        forall|slot: int| !b.is_first_free(slot),
        b.announced(cfg) == b,
        model::pool_full_text(name) == "device pool full ("@ + seq!['1', '6']
            + "); cannot bridge `"@ + name + "`"@,
{
    law_pool_capacity(b);
    assert(crate::text::decimal(16) =~= seq!['1', '6']) by {
        crate::text::law_numerals_are_positional(16);
        crate::text::law_numerals_are_positional(1);
        let s = crate::text::decimal(16);
        assert(s.drop_last() == crate::text::decimal(1));
        assert(s[0] == s.drop_last()[0]);
        assert(s[1] == s.last());
    }
}

/// The availability topic of a device is recorded as it was announced; nothing
/// else about it changes, and no other slot does.
pub proof fn law_availability_topics_are_recorded(
    b: BridgeModel,
    topic: Seq<char>,
    slot: usize,
    other: int,
)
    requires
        slot < b.slots.len(),
    ensures
        ({
            let after = b.with_availability_route(topic, slot);
            let s = slot as int;
            &&& after.slots.len() == b.slots.len()
            &&& after.by_unique_id == b.by_unique_id
            &&& after.slots[s].availability_topic == Some(topic)
            &&& after.slots[s].state_topic == b.slots[s].state_topic
            &&& after.slots[s].info == b.slots[s].info
            &&& after.slots[s].switch == b.slots[s].switch
            &&& after.slots[s].active == b.slots[s].active
            &&& 0 <= other < b.slots.len() && other != slot ==> after.slots[other]
                == b.slots[other]
        }),
{
}

/// Turning a switch on or off, by a command or a report, changes that and
/// nothing else, in that slot and no other; a new information or switch state
/// replaces the old one, and nothing else, likewise.
pub proof fn law_changes_stay_in_their_slot(
    b: BridgeModel,
    slot: int,
    on: bool,
    info: DeviceInformation,
    state: SwitchState,
    other: int,
)
    requires
        0 <= slot < b.slots.len(),
    ensures
        ({
            let after = b.with_on(slot, on);
            &&& after.slots.len() == b.slots.len()
            &&& after.by_unique_id == b.by_unique_id
            &&& after.slots[slot].switch.on == on
            &&& after.slots[slot].switch.command_topic == b.slots[slot].switch.command_topic
            &&& after.slots[slot].switch.start_up == b.slots[slot].switch.start_up
            &&& after.slots[slot].info == b.slots[slot].info
            &&& after.slots[slot].state_topic == b.slots[slot].state_topic
            &&& after.slots[slot].availability_topic == b.slots[slot].availability_topic
            &&& after.slots[slot].active == b.slots[slot].active
            &&& 0 <= other < b.slots.len() && other != slot ==> after.slots[other]
                == b.slots[other]
        }),
        ({
            let after = b.with_info(slot, info);
            &&& after.slots.len() == b.slots.len()
            &&& after.by_unique_id == b.by_unique_id
            &&& after.slots[slot].info == info
            &&& after.slots[slot].switch == b.slots[slot].switch
            &&& after.slots[slot].state_topic == b.slots[slot].state_topic
            &&& after.slots[slot].availability_topic == b.slots[slot].availability_topic
            &&& after.slots[slot].active == b.slots[slot].active
            &&& 0 <= other < b.slots.len() && other != slot ==> after.slots[other]
                == b.slots[other]
        }),
        ({
            let after = b.with_switch(slot, state);
            &&& after.slots.len() == b.slots.len()
            &&& after.by_unique_id == b.by_unique_id
            &&& after.slots[slot].switch == state
            &&& after.slots[slot].info == b.slots[slot].info
            &&& after.slots[slot].state_topic == b.slots[slot].state_topic
            &&& after.slots[slot].availability_topic == b.slots[slot].availability_topic
            &&& after.slots[slot].active == b.slots[slot].active
            &&& 0 <= other < b.slots.len() && other != slot ==> after.slots[other]
                == b.slots[other]
        }),
{
}

/// The devices shown are those of the active slots, which come first, each at
/// its endpoint with its label, its id, its reachability and its state; and the
/// snapshot of a device says just that.
pub proof fn law_active_slots_are_shown(b: BridgeModel, slot: int, view: DeviceView)
    requires
        b.valid(),
        0 <= slot < b.slots.len(),
    ensures
        b.devices().len() == b.active_slots().len(),
        b.slots[slot].active <==> slot < b.devices().len(),
        b.slots[slot].active ==> {
            &&& b.active_slots()[slot] == slot
            &&& b.devices()[slot].endpoint == 2 + slot
            &&& b.devices()[slot].name == b.slots[slot].info.node_label
            &&& b.devices()[slot].unique_id == b.slots[slot].info.unique_id
            &&& b.devices()[slot].reachable == b.slots[slot].info.reachable
            &&& b.devices()[slot].on == b.slots[slot].switch.on
        },
        view@.endpoint == view.endpoint,
        view@.name == view.name@,
        view@.unique_id == view.unique_id@,
        view@.reachable == view.reachable,
        view@.on == view.on,
{
    law_pool_capacity(b);
    if b.is_full() {
        lemma_active_count(b, b.slots.len(), b.slots.len());
    } else {
        let free = b.devices().len() as int;
        lemma_split(b, free);
        lemma_active_count(b, b.slots.len(), free as nat);
    }
}

/// Operations are told apart by their endpoint and cluster: those on the whole
/// node, on endpoint 0 and on endpoint 1 are the system's, the endpoints from 2
/// on are the slots', and the clusters are known by Matter's ids.
pub proof fn law_operations_are_told_apart(b: BridgeModel, endpoint: u16, cluster: u32)
    ensures
        model::is_root_operation(None),
        model::is_root_operation(Some(endpoint)) <==> endpoint <= 1,
        b.slot_for(None) is None,
        b.slot_for(Some(endpoint)) == (if 2 <= endpoint < 2 + b.slots.len() {
            Some(endpoint - 2)
        } else {
            None
        }),
        model::cluster_of(None) is None,
        model::cluster_of(Some(cluster)) == (if cluster == 0x1d {
            Some(SwitchCluster::Descriptor)
        } else if cluster == 0x04 {
            Some(SwitchCluster::Groups)
        } else if cluster == 0x39 {
            Some(SwitchCluster::Bridged)
        } else if cluster == 0x06 {
            Some(SwitchCluster::OnOff)
        } else {
            None
        }),
{
}

/// An operation on a slot's endpoint goes to that slot, if it has a device, and
/// to the cluster that was asked for, if that takes such operations.
pub proof fn law_operations_go_to_their_slot(
    b: BridgeModel,
    endpoint: u16,
    cluster: Option<u32>,
    allowed: spec_fn(SwitchCluster) -> bool,
    refused: RouteError,
)
    requires
        b.valid(),
        2 <= endpoint < 18,
    ensures
        ({
            let r = b.routed(Some(endpoint), cluster, allowed, refused);
            let slot = endpoint - 2;
            if !b.slots[slot].active {
                r == Err::<Target, _>(RouteError::EndpointNotFound)
            } else if model::cluster_of(cluster) is Some && allowed(
                model::cluster_of(cluster)->0,
            ) {
                r == Ok::<_, RouteError>(
                    Target { slot: slot as usize, cluster: model::cluster_of(cluster)->0 },
                )
            } else {
                r == Err::<Target, _>(refused)
            }
        }),
{
}

} // verus!
