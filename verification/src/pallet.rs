//! The pallet: the topology store, the shipment registry and the draw
//! counter behind the five operations that callers dispatch.
//!
//! Every operation takes the origin of the request, checks it, and returns
//! the notification that the caller is to emit. What an operation does is
//! stated as a function on [`PalletView`], the model of the pallet's state.
//! Operations that consult the runtime (for pseudorandom seeds, the index of
//! the extrinsic and the number of the block) state what holds for whatever
//! the runtime answered: that the new state is the one that the model gives
//! for some draws and some token.

use crate::bounded::{bounded, route_nodes, Route};
use crate::encoding::{custody_key, draw_from_seed, encode_u32, key_from_seed};
use crate::registry::{lemma_register_wf, Hop, Registry, RegistryView, Shipment};
use crate::route::{
    is_route, lemma_route, lemma_sampling_consistent, lemma_step, sampling_after, settles, Plan,
    Sampling,
};
use crate::topology::{Topology, TopologyView};
use crate::types::{
    ensure_root, ensure_signed, BlockNumber, Error, Event, Key, NodeId, Origin, Seed,
};
use vstd::bytes::spec_u32_to_le_bytes;
use vstd::prelude::*;

verus! {

/// What the pallet asks of the runtime that hosts it. Nothing is assumed of
/// the answers.
pub trait Config {
    /// A pseudorandom seed for `subject`, with the block since which it could
    /// be known. Different subjects are to give unrelated seeds.
    fn random(&mut self, subject: &[u8]) -> (Seed, BlockNumber);

    /// The index of the extrinsic that is being executed, if one is.
    fn extrinsic_index(&self) -> Option<u32>;

    /// The number of the current block.
    fn block_number(&self) -> BlockNumber;
}

/// The state of the pallet as a mathematical value.
pub struct PalletView {
    /// The transit nodes and the costs between them.
    pub topology: TopologyView,
    /// The shipments and their custody tokens.
    pub registry: RegistryView,
    /// The number of draws made so far, modulo 2^32.
    pub nonce: u32,
}

/// The draw counter `nonce` after `draws` more draws.
pub open spec fn nonce_after(nonce: u32, draws: nat) -> u32 {
    ((nonce + draws) % 0x1_0000_0000) as u32
}

/// What a settled route construction yields.
pub open spec fn planned(sampling: Sampling) -> Result<Plan, Error> {
    match sampling {
        Sampling::Finished(plan) => Ok(plan),
        _ => Err(Error::RouteGenerationExhausted),
    }
}

impl PalletView {
    /// The invariant of the pallet: that of its two stores.
    pub open spec fn wf(self) -> bool {
        self.topology.wf() && self.registry.wf()
    }

    /// The state before any operation.
    pub open spec fn empty() -> PalletView {
        PalletView { topology: TopologyView::empty(), registry: RegistryView::empty(), nonce: 0 }
    }

    /// The state after `draws` more draws.
    pub open spec fn drawn(self, draws: nat) -> PalletView {
        PalletView { nonce: nonce_after(self.nonce, draws), ..self }
    }

    /// Registers a node on behalf of the root origin.
    pub open spec fn create_new_transit_node(
        self,
        origin: Origin,
        node: NodeId,
        neighbours: Seq<(NodeId, u32)>,
    ) -> (PalletView, Result<Event, Error>) {
        if !(origin is Root) {
            (self, Err(Error::Unauthorized))
        } else {
            match self.topology.add_node(node, neighbours) {
                Ok(topology) => (
                    PalletView { topology, ..self },
                    Ok(Event::TransitPointCreated(node)),
                ),
                Err(e) => (self, Err(e)),
            }
        }
    }

    /// Sets the cost between two nodes on behalf of the root origin.
    pub open spec fn update_neighbour(self, origin: Origin, a: NodeId, b: NodeId, cost: u32) -> (
        PalletView,
        Result<Event, Error>,
    ) {
        if !(origin is Root) {
            (self, Err(Error::Unauthorized))
        } else {
            match self.topology.update_edge(a, b, cost) {
                Ok(topology) => (PalletView { topology, ..self }, Ok(Event::NeighbourUpdated(a, b))),
                Err(e) => (self, Err(e)),
            }
        }
    }

    /// Removes a node on behalf of the root origin.
    pub open spec fn remove_transit_node(self, origin: Origin, node: NodeId) -> (
        PalletView,
        Result<Event, Error>,
    ) {
        if !(origin is Root) {
            (self, Err(Error::Unauthorized))
        } else {
            match self.topology.remove_node(node) {
                Ok(topology) => (
                    PalletView { topology, ..self },
                    Ok(Event::TransitPointRemoved(node)),
                ),
                Err(e) => (self, Err(e)),
            }
        }
    }

    /// Whether `draws` are the draws that the creation of a shipment makes:
    /// none when the request is refused beforehand, and else those that
    /// settle the route construction, and no more.
    pub open spec fn draws_to_create(self, origin: Origin, destination: NodeId, draws: Seq<u64>) -> bool {
        match origin {
            Origin::Signed(creator) => if self.registry.last_uid == u64::MAX {
                draws.len() == 0
            } else {
                settles(self.topology.nodes, creator, destination, draws)
            },
            _ => draws.len() == 0,
        }
    }

    /// Creates a shipment from the signer of `origin` to `destination`, the
    /// route being constructed from `draws` and the first custody token being
    /// `key`.
    ///
    /// An origin that is not signed is refused (`Unauthorized`), then a used
    /// up identifier space (`UidOverflow`); neither makes a draw. A route
    /// construction that runs out of attempts fails the creation
    /// (`RouteGenerationExhausted`) with the draws made and nothing else
    /// changed.
    pub open spec fn create_shipment(
        self,
        origin: Origin,
        destination: NodeId,
        draws: Seq<u64>,
        key: Seq<u8>,
    ) -> (PalletView, Result<Event, Error>) {
        match origin {
            Origin::Signed(creator) => {
                if self.registry.last_uid == u64::MAX {
                    (self, Err(Error::UidOverflow))
                } else {
                    match planned(sampling_after(self.topology.nodes, creator, destination, draws)) {
                        Ok(plan) => match self.registry.register(creator, destination, plan, key) {
                            Ok(registry) => (
                                PalletView { registry, ..self.drawn(draws.len()) },
                                Ok(Event::ShipmentCreated(creator)),
                            ),
                            Err(e) => (self.drawn(draws.len()), Err(e)),
                        },
                        Err(e) => (self.drawn(draws.len()), Err(e)),
                    }
                }
            },
            _ => (self, Err(Error::Unauthorized)),
        }
    }

    /// Makes the custody hop that the signer of `origin` asks for with token
    /// `key`; `fresh` is the token under which custody goes on, if it does.
    pub open spec fn update_shipment(self, origin: Origin, uid: u64, key: Seq<u8>, fresh: Seq<u8>) -> (
        PalletView,
        Result<Event, Error>,
    ) {
        match origin {
            Origin::Signed(caller) => match self.registry.advance(uid, caller, key, fresh) {
                Ok(registry) => (
                    PalletView { registry, ..self },
                    Ok(
                        if self.registry.hop(uid, caller, key) == Ok::<Hop, Error>(Hop::Deliver) {
                            Event::ShipmentReceived(caller)
                        } else {
                            Event::ShipmentUpdated(caller)
                        },
                    ),
                ),
                Err(e) => (self, Err(e)),
            },
            _ => (self, Err(Error::Unauthorized)),
        }
    }

    /// Whether `next` and `result` are what the creation of a shipment gives
    /// when the runtime answers with these draws and, for the token, with
    /// this seed, extrinsic index and block number.
    pub open spec fn creates(
        self,
        next: PalletView,
        result: Result<Event, Error>,
        origin: Origin,
        destination: NodeId,
        draws: Seq<u64>,
        seed: Seq<u8>,
        extrinsic_index: u32,
        block: BlockNumber,
    ) -> bool {
        &&& self.draws_to_create(origin, destination, draws)
        &&& (next, result) == self.create_shipment(
            origin,
            destination,
            draws,
            custody_key(seed, extrinsic_index, block),
        )
    }

    /// Whether `next` and `result` are what a custody hop gives when the
    /// runtime answers, for the fresh token, with this seed, extrinsic index
    /// and block number.
    pub open spec fn updates(
        self,
        next: PalletView,
        result: Result<Event, Error>,
        origin: Origin,
        uid: u64,
        key: Seq<u8>,
        seed: Seq<u8>,
        extrinsic_index: u32,
        block: BlockNumber,
    ) -> bool {
        (next, result) == self.update_shipment(
            origin,
            uid,
            key,
            custody_key(seed, extrinsic_index, block),
        )
    }

    /// Whether `next` and `result` are what the construction and laying out
    /// of a route from `origin` to `destination` gives when the runtime
    /// answers with these draws.
    pub open spec fn routes(
        self,
        next: PalletView,
        result: Result<Seq<NodeId>, Error>,
        origin: NodeId,
        destination: NodeId,
        draws: Seq<u64>,
    ) -> bool {
        &&& settles(self.topology.nodes, origin, destination, draws)
        &&& next == self.drawn(draws.len())
        &&& result == match planned(
            sampling_after(self.topology.nodes, origin, destination, draws),
        ) {
            Ok(plan) => Ok(plan.stops(origin, destination)),
            Err(e) => Err(e),
        }
    }

    /// Whether `next` and `result` are what a route construction from
    /// `origin` to `destination` gives when the runtime answers with these
    /// draws.
    pub open spec fn plans(
        self,
        next: PalletView,
        result: Result<Plan, Error>,
        origin: NodeId,
        destination: NodeId,
        draws: Seq<u64>,
    ) -> bool {
        &&& settles(self.topology.nodes, origin, destination, draws)
        &&& next == self.drawn(draws.len())
        &&& result == planned(sampling_after(self.topology.nodes, origin, destination, draws))
    }
}

/// The nodes of a constructed route, or why there is none.
pub open spec fn laid_out(r: Result<Route, Error>) -> Result<Seq<NodeId>, Error> {
    match r {
        Ok(route) => Ok(route_nodes(route)),
        Err(e) => Err(e),
    }
}

/// Drawing once more after `draws` draws is drawing `draws + 1` times.
pub proof fn lemma_nonce_after(nonce: u32, draws: nat)
    ensures
        nonce_after(nonce_after(nonce, draws), 1) == nonce_after(nonce, draws + 1),
        nonce_after(nonce, 0) == nonce,
        nonce_after(nonce, 1) == u32::wrapping_add(nonce, 1),
{
}

/// The pallet's state.
pub struct Pallet<T: Config> {
    topology: Topology,
    registry: Registry,
    nonce: u32,
    config: T,
}

impl<T: Config> View for Pallet<T> {
    type V = PalletView;

    closed spec fn view(&self) -> PalletView {
        PalletView { topology: self.topology@, registry: self.registry@, nonce: self.nonce }
    }
}

impl<T: Config> Pallet<T> {
    /// The invariant that every operation keeps.
    pub closed spec fn wf(&self) -> bool {
        self.topology.wf() && self.registry.wf()
    }

    /// What `wf` says of the model.
    pub proof fn lemma_wf(&self)
        requires
            self.wf(),
        ensures
            self@.wf(),
    {
        self.topology.lemma_wf();
        self.registry.lemma_wf();
    }

    /// A pallet without nodes or shipments, hosted by the runtime `config`.
    pub fn new(config: T) -> (r: Self)
        ensures
            r.wf(),
            r@ == PalletView::empty(),
    {
        Pallet { topology: Topology::new(), registry: Registry::new(), nonce: 0, config }
    }

    /// The number of registered transit nodes.
    pub fn count_for_transit_point(&self) -> (n: u64)
        requires
            self.wf(),
        ensures
            n == self@.topology.nodes.len(),
    {
        self.topology.node_count()
    }

    /// The registered transit nodes, oldest first.
    pub fn transit_nodes(&self) -> (nodes: &Vec<NodeId>)
        ensures
            nodes@ == self@.topology.nodes,
    {
        self.topology.nodes()
    }

    /// The cost between two nodes, if it was set.
    pub fn route_costs(&self, a: NodeId, b: NodeId) -> (r: Option<u32>)
        ensures
            r == (if self@.topology.costs.contains_key((a, b)) {
                Some(self@.topology.costs[(a, b)])
            } else {
                None
            }),
    {
        self.topology.cost(a, b)
    }

    /// The resident custody token of a shipment, if there is one.
    pub fn shipment_uid_to_key(&self, uid: u64) -> (r: Option<Key>)
        ensures
            r is Some <==> self@.registry.keys.contains_key(uid),
            r matches Some(k) ==> k@ == self@.registry.keys[uid],
    {
        self.registry.key(uid)
    }

    /// The record of a shipment, if there is one.
    pub fn uid_to_shipment(&self, uid: u64) -> (r: Option<Shipment>)
        ensures
            r is Some <==> self@.registry.shipments.contains_key(uid),
            r matches Some(s) ==> s@ == self@.registry.shipments[uid],
    {
        self.registry.shipment(uid)
    }

    /// The identifier of the shipment created last; 0 before the first.
    pub fn shipment_uid(&self) -> (uid: u64)
        ensures
            uid == self@.registry.last_uid,
    {
        self.registry.last_uid()
    }

    /// Registers a transit node and sets the cost between it and each listed
    /// neighbour. Only the root origin may do so.
    ///
    /// Fails, and changes nothing, with the first of these that applies:
    /// `Unauthorized` when the origin is not root,
    /// `TransitPointAlreadyExists` when the node is registered,
    /// `InvalidRoute` when a listed neighbour is the node itself or is not
    /// registered, `Overflow` when the node counter is at its ceiling.
    pub fn create_new_transit_node(
        &mut self,
        origin: Origin,
        transit_node: NodeId,
        neighbours: Vec<(NodeId, u32)>,
    ) -> (r: Result<Event, Error>)
        requires
            old(self).wf(),
        ensures
            final(self).wf(),
            (final(self)@, r) == old(self)@.create_new_transit_node(
                origin,
                transit_node,
                neighbours@,
            ),
            r is Err ==> *final(self) == *old(self),
    {
        ensure_root(origin)?;
        self.topology.add_node(transit_node, &neighbours)?;
        Ok(Event::TransitPointCreated(transit_node))
    }

    /// Sets the cost between two registered nodes, in both directions. Only
    /// the root origin may do so.
    ///
    /// Fails, and changes nothing, with `Unauthorized` when the origin is
    /// not root, and else with `TransitPointNotFound` when one of the nodes
    /// is not registered.
    pub fn update_neighbour(&mut self, origin: Origin, node1: NodeId, node2: NodeId, cost: u32) -> (r:
        Result<Event, Error>)
        requires
            old(self).wf(),
        ensures
            final(self).wf(),
            (final(self)@, r) == old(self)@.update_neighbour(origin, node1, node2, cost),
            r is Err ==> *final(self) == *old(self),
    {
        ensure_root(origin)?;
        self.topology.update_edge(node1, node2, cost)?;
        Ok(Event::NeighbourUpdated(node1, node2))
    }

    /// Removes a transit node and every edge that touches it. Only the root
    /// origin may do so. Shipments are not touched: their routes are values
    /// of their own.
    ///
    /// Fails, and changes nothing, with `Unauthorized` when the origin is
    /// not root, and else with `TransitPointNotFound` when the node is not
    /// registered.
    pub fn remove_transit_node(&mut self, origin: Origin, transit_node: NodeId) -> (r: Result<
        Event,
        Error,
    >)
        requires
            old(self).wf(),
        ensures
            final(self).wf(),
            (final(self)@, r) == old(self)@.remove_transit_node(origin, transit_node),
            r is Err ==> *final(self) == *old(self),
    {
        ensure_root(origin)?;
        self.topology.remove_node(transit_node)?;
        Ok(Event::TransitPointRemoved(transit_node))
    }

    /// Creates a shipment from the signer of `origin` to `destination`: it
    /// gets the next identifier, a freshly constructed route and a freshly
    /// minted custody token, and is in transit towards the second node of
    /// its route.
    ///
    /// Fails with `Unauthorized` when the origin is not signed, with
    /// `UidOverflow` when the identifiers are used up, and with
    /// `RouteGenerationExhausted` when the route construction runs out of
    /// attempts. A failure leaves the stores as they were; the last one keeps
    /// the draws it made counted.
    pub fn create_shipment(&mut self, origin: Origin, destination: NodeId) -> (r: Result<
        Event,
        Error,
    >)
        requires
            old(self).wf(),
        ensures
            final(self).wf(),
            exists|draws: Seq<u64>, seed: Seq<u8>, extrinsic_index: u32, block: BlockNumber|
                #[trigger] old(self)@.creates(
                    final(self)@,
                    r,
                    origin,
                    destination,
                    draws,
                    seed,
                    extrinsic_index,
                    block,
                ),
            r is Ok ==> {
                let uid = final(self)@.registry.last_uid;
                let shipment = final(self)@.registry.shipments[uid];
                &&& origin is Signed
                &&& uid == old(self)@.registry.last_uid + 1
                &&& final(self)@.registry.shipments.contains_key(uid)
                &&& final(self)@.registry.keys.contains_key(uid)
                &&& shipment.status is InTransit
                &&& shipment.owner_index == 1
                &&& is_route(
                    old(self)@.topology.nodes,
                    origin->Signed_0,
                    destination,
                    shipment.route,
                )
            },
            !(origin is Signed) ==> r == Err::<Event, Error>(Error::Unauthorized) && final(self)@
                == old(self)@,
            origin is Signed && old(self)@.registry.last_uid == u64::MAX ==> r == Err::<
                Event,
                Error,
            >(Error::UidOverflow) && final(self)@ == old(self)@,
            origin is Signed && old(self)@.registry.last_uid < u64::MAX ==> {
                ||| r == Ok::<Event, Error>(Event::ShipmentCreated(origin->Signed_0))
                ||| r == Err::<Event, Error>(Error::RouteGenerationExhausted)
            },
            origin is Signed && old(self)@.registry.last_uid < u64::MAX
                && old(self)@.topology.nodes.len() < 3 ==> r is Ok,
            r is Err ==> final(self)@.registry == old(self)@.registry,
            final(self)@.topology == old(self)@.topology,
    {
        let ghost before = self@;
        let ghost none = Seq::<u64>::empty();
        let ghost any = Seq::<u8>::empty();
        proof {
            self.lemma_wf();
        }
        let creator = match ensure_signed(origin) {
            Ok(creator) => creator,
            Err(e) => {
                assert(before.creates(self@, Err(e), origin, destination, none, any, 0, 0));
                return Err(e);
            },
        };
        match self.registry.next_uid() {
            Ok(_) => {},
            Err(e) => {
                assert(before.creates(self@, Err(e), origin, destination, none, any, 0, 0));
                return Err(e);
            },
        }
        let planned = self.plan_route(creator, destination);
        let ghost draws = choose|draws: Seq<u64>|
            before.plans(self@, planned, creator, destination, draws);
        let plan = match planned {
            Ok(plan) => plan,
            Err(e) => {
                assert(before.creates(self@, Err(e), origin, destination, draws, any, 0, 0));
                return Err(e);
            },
        };
        let (key, Ghost(minted)) = self.mint_key();
        proof {
            lemma_register_wf(before.registry, creator, destination, plan, key@);
        }
        match self.registry.register(creator, destination, plan, key) {
            Ok(_) => {},
            Err(_) => vstd::pervasive::unreached(),
        }
        let r = Ok(Event::ShipmentCreated(creator));
        assert(before.creates(self@, r, origin, destination, draws, minted.0, minted.1, minted.2));
        r
    }

    /// Makes the custody hop that the signer of `origin` asks for with the
    /// token `key`: the token is used up; if the signer is the destination
    /// the shipment is delivered and its owner index reset, and else the
    /// owner index moves on by one and a freshly minted token becomes
    /// resident.
    ///
    /// Fails, and changes nothing, with the first of these that applies:
    /// `Unauthorized` when the origin is not signed, `ShipmentNotFound`,
    /// `UIDNotFound` when the shipment has no resident token, `InvalidKey`
    /// when `key` is not the resident token, `UnauthorizedCaller` when the
    /// signer is not the node named at the active hop.
    pub fn update_shipment(&mut self, origin: Origin, shipment_uid: u64, key: Key) -> (r: Result<
        Event,
        Error,
    >)
        requires
            old(self).wf(),
        ensures
            final(self).wf(),
            exists|seed: Seq<u8>, extrinsic_index: u32, block: BlockNumber|
                #[trigger] old(self)@.updates(
                    final(self)@,
                    r,
                    origin,
                    shipment_uid,
                    key@,
                    seed,
                    extrinsic_index,
                    block,
                ),
            r == (match origin {
                Origin::Signed(caller) => match old(self)@.registry.hop(shipment_uid, caller, key@) {
                    Ok(Hop::Deliver) => Ok::<Event, Error>(Event::ShipmentReceived(caller)),
                    Ok(Hop::Forward) => Ok(Event::ShipmentUpdated(caller)),
                    Err(e) => Err(e),
                },
                _ => Err(Error::Unauthorized),
            }),
            r is Err ==> *final(self) == *old(self),
    {
        let ghost before = self@;
        let ghost any = Seq::<u8>::empty();
        let caller = match ensure_signed(origin) {
            Ok(caller) => caller,
            Err(e) => {
                assert(before.updates(self@, Err(e), origin, shipment_uid, key@, any, 0, 0));
                return Err(e);
            },
        };
        let hop = match self.registry.hop(shipment_uid, caller, &key) {
            Ok(hop) => hop,
            Err(e) => {
                assert(before.updates(self@, Err(e), origin, shipment_uid, key@, any, 0, 0));
                return Err(e);
            },
        };
        match hop {
            Hop::Deliver => {
                // A delivery mints nothing: the token offered for a further
                // hop is not looked at.
                match self.registry.advance(shipment_uid, caller, &key, key) {
                    Ok(_) => {},
                    Err(_) => vstd::pervasive::unreached(),
                }
                let r = Ok(Event::ShipmentReceived(caller));
                assert(before.updates(self@, r, origin, shipment_uid, key@, any, 0, 0));
                r
            },
            Hop::Forward => {
                let (fresh, Ghost(minted)) = self.mint_key();
                match self.registry.advance(shipment_uid, caller, &key, fresh) {
                    Ok(_) => {},
                    Err(_) => vstd::pervasive::unreached(),
                }
                let r = Ok(Event::ShipmentUpdated(caller));
                assert(before.updates(
                    self@,
                    r,
                    origin,
                    shipment_uid,
                    key@,
                    minted.0,
                    minted.1,
                    minted.2,
                ));
                r
            },
        }
    }

    /// Mints a custody token: the digest of the runtime's seed for the
    /// subject `key`, the index of the current extrinsic (0 outside one) and
    /// the number of the current block.
    pub fn gen_key(&mut self) -> (key: Key)
        ensures
            exists|seed: Seq<u8>, extrinsic_index: u32, block: BlockNumber|
                key@ == #[trigger] custody_key(seed, extrinsic_index, block),
            final(self)@ == old(self)@,
            final(self).wf() == old(self).wf(),
    {
        let (key, Ghost(minted)) = self.mint_key();
        key
    }

    /// Mints a custody token and says what it was minted from.
    fn mint_key(&mut self) -> (r: (Key, Ghost<(Seq<u8>, u32, BlockNumber)>))
        ensures
            r.0@ == custody_key(r.1@.0, r.1@.1, r.1@.2),
            final(self)@ == old(self)@,
            final(self).wf() == old(self).wf(),
    {
        let subject: [u8; 3] = [107, 101, 121];
        let (seed, _) = self.config.random(subject.as_slice());
        let extrinsic_index = match self.config.extrinsic_index() {
            Some(index) => index,
            None => 0,
        };
        let block = self.config.block_number();
        (key_from_seed(&seed, extrinsic_index, block), Ghost((seed@, extrinsic_index, block)))
    }

    /// Hands out the draw counter, encoded as the subject of the next draw,
    /// and counts one draw more. The counter wraps around.
    pub fn get_and_increment_nonce(&mut self) -> (subject: Vec<u8>)
        ensures
            subject@ == spec_u32_to_le_bytes(old(self)@.nonce),
            final(self)@ == old(self)@.drawn(1),
            final(self).wf() == old(self).wf(),
    {
        let nonce = self.nonce;
        self.nonce = nonce.wrapping_add(1);
        proof {
            lemma_nonce_after(nonce, 0);
        }
        encode_u32(nonce)
    }

    /// Draws one number from the runtime's randomness.
    fn draw(&mut self) -> (draw: u64)
        ensures
            final(self)@ == old(self)@.drawn(1),
            final(self).wf() == old(self).wf(),
    {
        let subject = self.get_and_increment_nonce();
        let (seed, since) = self.config.random(subject.as_slice());
        draw_from_seed(&seed, since)
    }

    /// Constructs a route from `origin` to `destination` over the registered
    /// nodes, drawing from the runtime's randomness as long as the
    /// construction needs to.
    ///
    /// Fails with `RouteGenerationExhausted` when a sampling turns down as
    /// many candidates as it may. Either way the draws made are counted.
    pub fn plan_route(&mut self, origin: NodeId, destination: NodeId) -> (r: Result<Plan, Error>)
        requires
            old(self).wf(),
        ensures
            final(self).wf(),
            exists|draws: Seq<u64>| #[trigger]
                old(self)@.plans(final(self)@, r, origin, destination, draws),
            r matches Ok(plan) ==> is_route(
                old(self)@.topology.nodes,
                origin,
                destination,
                plan.stops(origin, destination),
            ),
            r matches Err(e) ==> e == Error::RouteGenerationExhausted,
            old(self)@.topology.nodes.len() < 3 ==> r == Ok::<Plan, Error>(Plan::Direct)
                && final(self)@ == old(self)@,
    {
        let ghost before = self@;
        let ghost nodes = self@.topology.nodes;
        let ghost mut draws = Seq::<u64>::empty();
        let mut state = Sampling::start(self.topology.nodes().len());
        proof {
            lemma_sampling_consistent(nodes, origin, destination, draws);
            lemma_nonce_after(before.nonce, 0);
        }
        while state.is_pending()
            invariant
                self.wf(),
                self@ == before.drawn(draws.len()),
                nodes == before.topology.nodes,
                state == sampling_after(nodes, origin, destination, draws),
                state.consistent(nodes, origin, destination),
                draws.len() > 0 ==> sampling_after(
                    nodes,
                    origin,
                    destination,
                    draws.drop_last(),
                ).is_pending(),
            decreases state.budget(),
        {
            let draw = self.draw();
            proof {
                lemma_step(state, nodes, origin, destination, draw);
                lemma_nonce_after(before.nonce, draws.len());
                assert(draws.push(draw).drop_last() =~= draws);
                draws = draws.push(draw);
            }
            state = state.step(self.topology.nodes(), origin, destination, draw);
        }
        let r = match state {
            Sampling::Finished(plan) => Ok(plan),
            _ => Err(Error::RouteGenerationExhausted),
        };
        proof {
            lemma_route(nodes, origin, destination, draws);
        }
        assert(before.plans(self@, r, origin, destination, draws));
        r
    }

    /// Constructs a route from `origin` to `destination` as `plan_route`
    /// does, and lays it out node by node.
    pub fn get_random_route(&mut self, origin: NodeId, dest: NodeId) -> (r: Result<Route, Error>)
        requires
            old(self).wf(),
        ensures
            final(self).wf(),
            exists|draws: Seq<u64>| #[trigger]
                old(self)@.routes(final(self)@, laid_out(r), origin, dest, draws),
            r matches Ok(route) ==> is_route(
                old(self)@.topology.nodes,
                origin,
                dest,
                route_nodes(route),
            ),
            r matches Err(e) ==> e == Error::RouteGenerationExhausted,
            old(self)@.topology.nodes.len() < 3 ==> r is Ok && final(self)@ == old(self)@,
    {
        let ghost before = self@;
        let planned = self.plan_route(origin, dest);
        let ghost draws = choose|draws: Seq<u64>| before.plans(self@, planned, origin, dest, draws);
        let r = match planned {
            Ok(plan) => match bounded(plan.route(origin, dest)) {
                Ok(route) => Ok(route),
                Err(_) => vstd::pervasive::unreached(),
            },
            Err(e) => Err(e),
        };
        assert(before.routes(self@, laid_out(r), origin, dest, draws));
        r
    }
}

} // verus!
