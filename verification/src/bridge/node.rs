//! Matter node/endpoint layout of the bridge.
//!
//! - `0`: root node (commissioning, diagnostics, ...)
//! - `1`: aggregator (enumerates the bridged devices)
//! - `2 .. 2 + MAX_DEVICES`: one bridged device per slot
//!
//! Per-device endpoints differ only by id; their device types and clusters are
//! those of their kind.

use vstd::prelude::*;

use crate::bridge::model::{BRIDGED_ID, DESC_ID, GROUPS_ID, ONOFF_ID};

verus! {

/// Maximum number of bridged devices. Endpoints are statically dimensioned to
/// this, so it bounds memory but not the *discovery* rate.
pub const MAX_DEVICES: usize = 16;

/// Endpoint id of the root node.
pub const ROOT_ENDPOINT: u16 = 0;

/// Endpoint id of the aggregator that enumerates bridged devices.
pub const AGGREGATOR_ENDPOINT: u16 = 1;

/// First endpoint id used for a bridged device.
pub const FIRST_DEVICE_ENDPOINT: u16 = 2;

/// Matter's id of the On/Off Light device type.
pub const ON_OFF_LIGHT: u32 = 0x0100;

/// Matter's id of the Bridged Node device type.
pub const BRIDGED_NODE: u32 = 0x0013;

/// Matter's id of the Aggregator device type.
pub const AGGREGATOR: u32 = 0x000e;

/// What an endpoint is, and so which device types and clusters it has.
#[derive(Debug, Clone, Copy, PartialEq, Eq, Structural)]
pub enum EndpointKind {
    Root,
    Aggregator,
    Switch,
}

/// One endpoint of the node.
#[derive(Debug, Clone, Copy, PartialEq, Eq, Structural)]
pub struct Endpoint {
    pub id: u16,
    pub kind: EndpointKind,
}

/// The device types of an aggregator or a switch. Those of the root are the
/// Matter stack's own.
pub open spec fn device_types_of(kind: EndpointKind) -> Seq<u32>
    recommends
        kind != EndpointKind::Root,
{
    if kind == EndpointKind::Switch {
        seq![ON_OFF_LIGHT, BRIDGED_NODE]
    } else {
        seq![AGGREGATOR]
    }
}

/// The clusters of an aggregator or a switch. Those of the root are the Matter
/// stack's own.
pub open spec fn clusters_of(kind: EndpointKind) -> Seq<u32>
    recommends
        kind != EndpointKind::Root,
{
    if kind == EndpointKind::Switch {
        seq![DESC_ID, GROUPS_ID, BRIDGED_ID, ONOFF_ID]
    } else {
        seq![DESC_ID]
    }
}

/// The device types of an aggregator or a switch.
pub fn device_types(kind: EndpointKind) -> (r: Vec<u32>)
    requires
        kind != EndpointKind::Root,
    ensures
        r@ == device_types_of(kind),
{
    let mut ids: Vec<u32> = Vec::new();
    if kind == EndpointKind::Switch {
        ids.push(ON_OFF_LIGHT);
        ids.push(BRIDGED_NODE);
    } else {
        ids.push(AGGREGATOR);
    }
    ids
}

/// The clusters of an aggregator or a switch.
pub fn clusters(kind: EndpointKind) -> (r: Vec<u32>)
    requires
        kind != EndpointKind::Root,
    ensures
        r@ == clusters_of(kind),
{
    let mut ids: Vec<u32> = Vec::new();
    ids.push(DESC_ID);
    if kind == EndpointKind::Switch {
        ids.push(GROUPS_ID);
        ids.push(BRIDGED_ID);
        ids.push(ONOFF_ID);
    }
    ids
}

/// The endpoint id for the device in slot `index` (`0 .. MAX_DEVICES`).
pub fn device_endpoint(index: usize) -> (id: u16)
    requires
        FIRST_DEVICE_ENDPOINT + index <= u16::MAX,
    ensures
        id == FIRST_DEVICE_ENDPOINT + index,
{
    FIRST_DEVICE_ENDPOINT + index as u16
}

/// The slot index that an endpoint id stands for in a pool of `slots`, if it
/// is a device's.
pub open spec fn slot_of_endpoint(id: int, slots: nat) -> Option<int> {
    if FIRST_DEVICE_ENDPOINT <= id < FIRST_DEVICE_ENDPOINT + slots {
        Some(id - FIRST_DEVICE_ENDPOINT)
    } else {
        None
    }
}

/// The endpoints of a node whose active slots are these: the root and the
/// aggregator, then one switch per slot.
pub open spec fn node_endpoints(active: Seq<usize>) -> Seq<Endpoint> {
    seq![
        Endpoint { id: ROOT_ENDPOINT, kind: EndpointKind::Root },
        Endpoint { id: AGGREGATOR_ENDPOINT, kind: EndpointKind::Aggregator },
    ] + active.map_values(
        |slot: usize|
            Endpoint {
                id: (FIRST_DEVICE_ENDPOINT + slot) as u16,
                kind: EndpointKind::Switch,
            },
    )
}

/// Fill `buf` with the endpoints for the currently active device slots: the
/// root and aggregator endpoints followed by one endpoint per active slot.
///
/// `active_slots` are slot indices (`0 .. MAX_DEVICES`) currently in use.
pub fn write_endpoints(active_slots: &Vec<usize>, buf: &mut Vec<Endpoint>)
    requires
        forall|i: int|
            0 <= i < active_slots@.len() ==> FIRST_DEVICE_ENDPOINT + (#[trigger] active_slots@[i])
                <= u16::MAX,
    ensures
        final(buf)@ == node_endpoints(active_slots@),
{
    buf.clear();
    buf.push(Endpoint { id: ROOT_ENDPOINT, kind: EndpointKind::Root });
    buf.push(Endpoint { id: AGGREGATOR_ENDPOINT, kind: EndpointKind::Aggregator });
    let mut i: usize = 0;
    while i < active_slots.len()
        invariant
            i <= active_slots@.len(),
            forall|j: int|
                0 <= j < active_slots@.len() ==> FIRST_DEVICE_ENDPOINT + (
                #[trigger] active_slots@[j]) <= u16::MAX,
            buf@ == node_endpoints(active_slots@.take(i as int)),
        decreases active_slots@.len() - i,
    {
        buf.push(Endpoint { id: device_endpoint(active_slots[i]), kind: EndpointKind::Switch });
        i = i + 1;
        assert(active_slots@.take(i as int) =~= active_slots@.take(i - 1).push(
            active_slots@[i - 1],
        ));
        assert(buf@ =~= node_endpoints(active_slots@.take(i as int)));
    }
    assert(active_slots@.take(active_slots@.len() as int) =~= active_slots@);
}

/// A node is the root, the aggregator with its descriptor, and for each active
/// slot, in order, one bridged on/off light with its four clusters.
pub proof fn law_node_is_described(active: Seq<usize>, j: int)
    requires
        forall|i: int|
            0 <= i < active.len() ==> FIRST_DEVICE_ENDPOINT + (#[trigger] active[i]) <= u16::MAX,
        0 <= j < active.len(),
    ensures
        ({
            let all = node_endpoints(active);
            let endpoint = all[2 + j];
            &&& all.len() == 2 + active.len()
            &&& all[0].id == ROOT_ENDPOINT && all[0].kind == EndpointKind::Root
            &&& all[1].id == AGGREGATOR_ENDPOINT
            &&& device_types_of(all[1].kind) == seq![AGGREGATOR]
            &&& clusters_of(all[1].kind) == seq![DESC_ID]
            &&& endpoint.id == FIRST_DEVICE_ENDPOINT + active[j]
            &&& device_types_of(endpoint.kind) == seq![ON_OFF_LIGHT, BRIDGED_NODE]
            &&& clusters_of(endpoint.kind) == seq![DESC_ID, GROUPS_ID, BRIDGED_ID, ONOFF_ID]
        }),
{
    assert(FIRST_DEVICE_ENDPOINT + active[j] <= u16::MAX);
}

/// Slots and device endpoints correspond: an endpoint that was given to a slot
/// leads back to it, and no other endpoint does.
pub proof fn law_endpoints_lead_back(slot: int, slots: nat, id: int)
    requires
        0 <= slot < slots,
    ensures
        slot_of_endpoint(FIRST_DEVICE_ENDPOINT + slot, slots) == Some(slot),
        slot_of_endpoint(id, slots) == Some(slot) ==> id == FIRST_DEVICE_ENDPOINT + slot,
{
}

/// The root and the aggregator are not device endpoints.
pub proof fn law_root_endpoints_are_no_devices(id: int, slots: nat)
    requires
        id <= AGGREGATOR_ENDPOINT,
    ensures
        slot_of_endpoint(id, slots) is None,
{
}

/// The endpoint ids of a node strictly increase, whenever the active slots are
/// listed in ascending order: no id occurs twice.
pub proof fn law_endpoint_ids_increase(active: Seq<usize>)
    requires
        forall|i: int|
            0 <= i < active.len() ==> FIRST_DEVICE_ENDPOINT + (#[trigger] active[i]) <= u16::MAX,
        forall|i: int, j: int| 0 <= i < j < active.len() ==> active[i] < active[j],
    ensures
        forall|i: int, j: int|
            0 <= i < j < node_endpoints(active).len() ==> (#[trigger] node_endpoints(active)[i]).id
                < (#[trigger] node_endpoints(active)[j]).id,
{
    let all = node_endpoints(active);
    assert forall|i: int, j: int| 0 <= i < j < all.len() implies (#[trigger] all[i]).id < (
    #[trigger] all[j]).id by {
        if i >= 2 {
            assert(all[i].id == FIRST_DEVICE_ENDPOINT + active[i - 2]);
        }
        if j >= 2 {
            assert(all[j].id == FIRST_DEVICE_ENDPOINT + active[j - 2]);
        }
    }
}

/// A node begins with the root, endpoint 0, and the aggregator, endpoint 1, and
/// has one more endpoint for each active slot.
pub proof fn law_node_begins_with_root_and_aggregator(active: Seq<usize>)
    ensures
        node_endpoints(active).len() == 2 + active.len(),
        node_endpoints(active)[0] == (Endpoint { id: 0, kind: EndpointKind::Root }),
        node_endpoints(active)[1] == (Endpoint { id: 1, kind: EndpointKind::Aggregator }),
{
}

/// The endpoints from 2 on are those of the slots, in order, and no others are.
pub proof fn law_device_endpoints_start_at_two(id: int, slots: nat)
    ensures
        slot_of_endpoint(id, slots) == (if 2 <= id < 2 + slots {
            Some(id - 2)
        } else {
            None
        }),
{
}

} // verus!
