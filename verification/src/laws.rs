//! Laws of the topology store, the shipment registry and the custody
//! protocol, stated over the models that the operations' contracts use.
//!
//! The laws of route construction stand beside it, in `route`.

use crate::pallet::PalletView;
use crate::registry::{lemma_advance_wf, Hop, RegistryView};
use crate::route::Plan;
use crate::topology::{bad_neighbour, lemma_remove_item, lemma_with_edges, TopologyView};
use crate::types::{Error, Event, NodeId, Origin, ShipmentStatus};
use vstd::prelude::*;

verus! {

/// In a well-formed store an edge is there in both directions or in none,
/// and costs the same in both.
pub proof fn lemma_edges_symmetric(top: TopologyView, a: NodeId, b: NodeId)
    requires
        top.wf(),
    ensures
        top.costs.contains_key((a, b)) == top.costs.contains_key((b, a)),
        top.costs.contains_key((a, b)) ==> top.costs[(a, b)] == top.costs[(b, a)],
{
}

/// Every change of the topology that succeeds keeps the store well formed.
pub proof fn lemma_topology_stays_wf(
    top: TopologyView,
    node: NodeId,
    other: NodeId,
    cost: u32,
    neighbours: Seq<(NodeId, u32)>,
)
    requires
        top.wf(),
    ensures
        top.add_node(node, neighbours) matches Ok(next) ==> next.wf(),
        top.update_edge(node, other, cost) matches Ok(next) ==> next.wf(),
        top.remove_node(node) matches Ok(next) ==> next.wf(),
{
    if top.add_node(node, neighbours) is Ok {
        lemma_with_edges(top, node, neighbours);
    }
    if top.remove_node(node) is Ok {
        let index = top.nodes.index_of(node);
        lemma_remove_item(top.nodes, index);
    }
}

/// After the cost between two nodes has been set, it reads back from both
/// directions.
pub proof fn lemma_update_edge_reads_back(top: TopologyView, a: NodeId, b: NodeId, cost: u32)
    ensures
        top.update_edge(a, b, cost) matches Ok(next) ==> {
            &&& next.costs.contains_key((a, b))
            &&& next.costs[(a, b)] == cost
            &&& next.costs.contains_key((b, a))
            &&& next.costs[(b, a)] == cost
        },
{
}

/// After a node has been removed, no edge touches it, whatever the node at
/// the other end.
pub proof fn lemma_remove_node_clears_edges(top: TopologyView, node: NodeId, other: NodeId)
    ensures
        top.remove_node(node) matches Ok(next) ==> {
            &&& !next.costs.contains_key((node, other))
            &&& !next.costs.contains_key((other, node))
        },
{
}

/// Removing a node leaves the edges between the other nodes as they were.
pub proof fn lemma_remove_node_keeps_other_edges(
    top: TopologyView,
    node: NodeId,
    a: NodeId,
    b: NodeId,
)
    requires
        a != node,
        b != node,
    ensures
        top.remove_node(node) matches Ok(next) ==> {
            &&& next.costs.contains_key((a, b)) == top.costs.contains_key((a, b))
            &&& next.costs.contains_key((a, b)) ==> next.costs[(a, b)] == top.costs[(a, b)]
        },
{
}

/// A custody hop never leads out of the route: the owner index stays below
/// the route's length. While the shipment stays in transit the index grows
/// by one; the delivery resets it to zero and leaves no token behind. The
/// route itself never changes, and no other shipment is touched.
pub proof fn lemma_custody_progress(
    reg: RegistryView,
    uid: u64,
    caller: NodeId,
    key: Seq<u8>,
    fresh: Seq<u8>,
)
    requires
        reg.wf(),
    ensures
        reg.advance(uid, caller, key, fresh) matches Ok(next) ==> {
            let before = reg.shipments[uid];
            let after = next.shipments[uid];
            &&& before.status is InTransit
            &&& after.route == before.route
            &&& after.owner_index <= after.route.len() - 1
            &&& reg.hop(uid, caller, key) == Ok::<Hop, Error>(Hop::Forward) ==> {
                &&& after.status is InTransit
                &&& after.owner_index == before.owner_index + 1
                &&& next.keys.contains_key(uid)
                &&& next.keys[uid] == fresh
            }
            &&& reg.hop(uid, caller, key) == Ok::<Hop, Error>(Hop::Deliver) ==> {
                &&& after.status is Delivered
                &&& after.owner_index == 0
                &&& !next.keys.contains_key(uid)
            }
            &&& forall|other: u64|
                other != uid ==> {
                    &&& next.shipments.contains_key(other) == reg.shipments.contains_key(other)
                    &&& next.shipments[other] == reg.shipments[other]
                }
        },
{
    lemma_advance_wf(reg, uid, caller, key, fresh);
}

/// Once a shipment is delivered, every further hop is refused for want of a
/// resident token, whoever asks and whatever token is presented.
pub proof fn lemma_delivered_is_final(
    reg: RegistryView,
    uid: u64,
    caller: NodeId,
    key: Seq<u8>,
    fresh: Seq<u8>,
)
    requires
        reg.wf(),
        reg.shipments.contains_key(uid),
        reg.shipments[uid].status is Delivered,
    ensures
        reg.advance(uid, caller, key, fresh) == Err::<RegistryView, Error>(Error::UIDNotFound),
{
}

/// A custody token works once: after the hop that it paid for, presenting it
/// again is refused, with `UIDNotFound` after a delivery and with
/// `InvalidKey` after any other hop, unless the token minted for the next
/// hop is the very same token.
pub proof fn lemma_token_single_use(
    reg: RegistryView,
    uid: u64,
    caller: NodeId,
    key: Seq<u8>,
    fresh: Seq<u8>,
    again: NodeId,
    later: Seq<u8>,
)
    requires
        reg.wf(),
        reg.hop(uid, caller, key) == Ok::<Hop, Error>(Hop::Forward) ==> fresh != key,
    ensures
        reg.advance(uid, caller, key, fresh) matches Ok(next) ==> {
            let second = next.advance(uid, again, key, later);
            &&& second is Err
            &&& reg.hop(uid, caller, key) == Ok::<Hop, Error>(Hop::Deliver) ==> second == Err::<
                RegistryView,
                Error,
            >(Error::UIDNotFound)
            &&& reg.hop(uid, caller, key) == Ok::<Hop, Error>(Hop::Forward) ==> second == Err::<
                RegistryView,
                Error,
            >(Error::InvalidKey)
        },
{
}

/// Whether `key` is the resident custody token of shipment `uid`.
pub open spec fn is_resident(reg: RegistryView, uid: u64, key: Seq<u8>) -> bool {
    reg.keys.contains_key(uid) && reg.keys[uid] == key
}

/// A token that is not resident opens nothing: the hop asked for with it is
/// refused, with `UIDNotFound` where the shipment has no resident token and
/// with `InvalidKey` where it has another.
pub proof fn lemma_stale_token_is_refused(
    reg: RegistryView,
    uid: u64,
    caller: NodeId,
    key: Seq<u8>,
    fresh: Seq<u8>,
)
    requires
        reg.shipments.contains_key(uid),
        !is_resident(reg, uid, key),
    ensures
        reg.advance(uid, caller, key, fresh) == (if reg.keys.contains_key(uid) {
            Err::<RegistryView, Error>(Error::InvalidKey)
        } else {
            Err::<RegistryView, Error>(Error::UIDNotFound)
        }),
{
}

/// A token that is not resident does not become resident again, whatever
/// hops and registrations follow, as long as no token minted for its
/// shipment is the very same token.
pub proof fn lemma_stale_token_stays_stale(
    reg: RegistryView,
    uid: u64,
    key: Seq<u8>,
    hop_uid: u64,
    caller: NodeId,
    presented: Seq<u8>,
    fresh: Seq<u8>,
    destination: NodeId,
    plan: Plan,
)
    requires
        reg.wf(),
        reg.shipments.contains_key(uid),
        !is_resident(reg, uid, key),
        hop_uid == uid ==> fresh != key,
    ensures
        reg.advance(hop_uid, caller, presented, fresh) matches Ok(next) ==> {
            &&& next.shipments.contains_key(uid)
            &&& !is_resident(next, uid, key)
        },
        reg.register(caller, destination, plan, fresh) matches Ok(next) ==> {
            &&& next.shipments.contains_key(uid)
            &&& !is_resident(next, uid, key)
        },
{
}

/// Shipments are never deleted and identifiers never reused: a hop keeps
/// every record in its place, and a registration adds one record under an
/// identifier that is one above the last and was free.
pub proof fn lemma_shipments_are_kept(
    reg: RegistryView,
    uid: u64,
    caller: NodeId,
    key: Seq<u8>,
    fresh: Seq<u8>,
    destination: NodeId,
    plan: Plan,
    kept: u64,
)
    requires
        reg.wf(),
        reg.shipments.contains_key(kept),
    ensures
        reg.advance(uid, caller, key, fresh) matches Ok(next) ==> {
            &&& next.shipments.contains_key(kept)
            &&& next.last_uid == reg.last_uid
        },
        reg.register(caller, destination, plan, fresh) matches Ok(next) ==> {
            &&& next.shipments.contains_key(kept)
            &&& next.shipments[kept] == reg.shipments[kept]
            &&& next.last_uid == reg.last_uid + 1
            &&& !reg.shipments.contains_key(next.last_uid)
        },
{
}

/// A shipment that was just created is found under the identifier allocated
/// last: it is in transit, its owner index is 1, its route starts at the
/// creator and ends at the destination, and the minted token is resident.
pub proof fn lemma_create_then_lookup(
    state: PalletView,
    creator: NodeId,
    destination: NodeId,
    draws: Seq<u64>,
    key: Seq<u8>,
)
    ensures
        ({
            let (next, result) = state.create_shipment(
                Origin::Signed(creator),
                destination,
                draws,
                key,
            );
            result is Ok ==> {
                let uid = next.registry.last_uid;
                let shipment = next.registry.shipments[uid];
                &&& result == Ok::<Event, Error>(Event::ShipmentCreated(creator))
                &&& uid == state.registry.last_uid + 1
                &&& next.registry.shipments.contains_key(uid)
                &&& shipment.status == ShipmentStatus::InTransit
                &&& shipment.owner_index == 1
                &&& shipment.uid == uid
                &&& shipment.creator == creator
                &&& shipment.destination == destination
                &&& shipment.route.first() == creator
                &&& shipment.route.last() == destination
                &&& next.registry.keys.contains_key(uid)
                &&& next.registry.keys[uid] == key
            }
        }),
{
}

/// Changes to the topology leave every shipment and every custody token as
/// they were: a route is a value of its own, not a reference into the
/// topology.
pub proof fn lemma_topology_changes_keep_shipments(
    state: PalletView,
    origin: Origin,
    node: NodeId,
    other: NodeId,
    cost: u32,
    neighbours: Seq<(NodeId, u32)>,
)
    ensures
        state.create_new_transit_node(origin, node, neighbours).0.registry == state.registry,
        state.update_neighbour(origin, node, other, cost).0.registry == state.registry,
        state.remove_transit_node(origin, node).0.registry == state.registry,
{
}

/// Shipments and custody hops leave the topology as it was.
pub proof fn lemma_shipments_keep_topology(
    state: PalletView,
    origin: Origin,
    destination: NodeId,
    draws: Seq<u64>,
    uid: u64,
    key: Seq<u8>,
    fresh: Seq<u8>,
)
    ensures
        state.create_shipment(origin, destination, draws, fresh).0.topology == state.topology,
        state.update_shipment(origin, uid, key, fresh).0.topology == state.topology,
{
}

} // verus!
