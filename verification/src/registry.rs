//! The shipment registry and the custody protocol.
//!
//! The registry owns the shipment records and the outstanding custody tokens,
//! both keyed by the shipment's identifier. A shipment moves along its route
//! one hop at a time: the node named at the active hop presents the resident
//! token, which is thereby used up, and either closes the chain (when it is
//! the destination) or hands custody on under a fresh token.
//!
//! The model of the registry is [`RegistryView`]; the operations are stated
//! as functions on it.

use crate::bounded::{as_vec, bounded, clone_route, route_nodes, Route};
use crate::route::Plan;
use crate::types::{Balance, Error, Key, NodeId, ShipmentStatus, MAX_ROUTE_LEN};
use std::collections::HashMap;
use vstd::prelude::*;

verus! {

/// A shipment record.
#[derive(Debug, PartialEq)]
pub struct Shipment {
    /// The node that created the shipment; the first node of its route.
    pub creator: NodeId,
    /// The fee charged for the shipment, once one is charged.
    pub fees: Option<Balance>,
    /// The position in `route` of the node that is to take custody next.
    pub owner_index: u8,
    /// The path of the shipment, fixed at creation.
    pub route: Route,
    /// The node that the shipment is bound for; the last node of its route.
    pub destination: NodeId,
    /// The identifier of the shipment.
    pub uid: u64,
    /// Where the shipment stands in its life.
    pub status: ShipmentStatus,
}

/// A shipment record as a mathematical value.
pub struct ShipmentView {
    pub creator: NodeId,
    pub fees: Option<Balance>,
    pub owner_index: u8,
    pub route: Seq<NodeId>,
    pub destination: NodeId,
    pub uid: u64,
    pub status: ShipmentStatus,
}

impl View for Shipment {
    type V = ShipmentView;

    open spec fn view(&self) -> ShipmentView {
        ShipmentView {
            creator: self.creator,
            fees: self.fees,
            owner_index: self.owner_index,
            route: route_nodes(self.route),
            destination: self.destination,
            uid: self.uid,
            status: self.status,
        }
    }
}

impl ShipmentView {
    /// The invariant of a record: the route has two to four nodes, runs from
    /// the creator to the destination, and the owner index points into it.
    pub open spec fn wf(self) -> bool {
        &&& 2 <= self.route.len() <= MAX_ROUTE_LEN
        &&& self.route.first() == self.creator
        &&& self.route.last() == self.destination
        &&& self.owner_index < self.route.len()
    }

    /// The node named at the active hop.
    pub open spec fn holder(self) -> NodeId {
        self.route[self.owner_index as int]
    }

    /// The record of a shipment that was just created.
    pub open spec fn created(creator: NodeId, destination: NodeId, uid: u64, plan: Plan) -> ShipmentView {
        ShipmentView {
            creator,
            fees: None,
            owner_index: 1,
            route: plan.stops(creator, destination),
            destination,
            uid,
            status: ShipmentStatus::InTransit,
        }
    }

    /// The record after the destination took custody.
    pub open spec fn delivered(self) -> ShipmentView {
        ShipmentView { owner_index: 0, status: ShipmentStatus::Delivered, ..self }
    }

    /// The record after custody went on to the next node of the route.
    pub open spec fn forwarded(self) -> ShipmentView {
        ShipmentView { owner_index: (self.owner_index + 1) as u8, ..self }
    }
}

/// What a custody hop amounts to.
#[derive(Clone, Copy, Debug, PartialEq, Eq, Structural)]
pub enum Hop {
    /// The destination takes custody: the shipment is delivered.
    Deliver,
    /// An intermediate node takes custody and passes the shipment on.
    Forward,
}

/// The registry as a mathematical value.
pub struct RegistryView {
    /// The shipment records, by identifier.
    pub shipments: Map<u64, ShipmentView>,
    /// The resident custody tokens, by shipment identifier.
    pub keys: Map<u64, Seq<u8>>,
    /// The identifier that was allocated last; 0 before the first.
    pub last_uid: u64,
}

impl RegistryView {
    /// The invariant of the registry: every record is well formed and filed
    /// under its own identifier, identifiers above the last allocated one
    /// are free, and a shipment has a resident token if and only if it is in
    /// transit.
    pub open spec fn wf(self) -> bool {
        &&& forall|uid: u64| #[trigger]
            self.shipments.contains_key(uid) ==> {
                &&& self.shipments[uid].wf()
                &&& self.shipments[uid].uid == uid
                &&& uid <= self.last_uid
                &&& self.keys.contains_key(uid) <==> self.shipments[uid].status is InTransit
            }
        &&& forall|uid: u64| #[trigger] self.keys.contains_key(uid) ==> self.shipments.contains_key(uid)
    }

    /// The registry without shipments.
    pub open spec fn empty() -> RegistryView {
        RegistryView { shipments: Map::empty(), keys: Map::empty(), last_uid: 0 }
    }

    /// Files a new shipment from `creator` to `destination` over `plan`
    /// under the next identifier, with `key` as its first custody token; or
    /// says why it cannot be done.
    pub open spec fn register(
        self,
        creator: NodeId,
        destination: NodeId,
        plan: Plan,
        key: Seq<u8>,
    ) -> Result<RegistryView, Error> {
        if self.last_uid == u64::MAX {
            Err(Error::UidOverflow)
        } else {
            let uid = (self.last_uid + 1) as u64;
            if self.shipments.contains_key(uid) {
                Err(Error::ShipmentAlreadyExists)
            } else {
                Ok(
                    RegistryView {
                        shipments: self.shipments.insert(
                            uid,
                            ShipmentView::created(creator, destination, uid, plan),
                        ),
                        keys: self.keys.insert(uid, key),
                        last_uid: uid,
                    },
                )
            }
        }
    }

    /// What the hop that `caller` asks for with token `key` amounts to, or
    /// why it is refused. The checks are made in this order: the shipment
    /// exists, it has a resident token, the presented token is that token,
    /// the caller is the node named at the active hop.
    pub open spec fn hop(self, uid: u64, caller: NodeId, key: Seq<u8>) -> Result<Hop, Error> {
        if !self.shipments.contains_key(uid) {
            Err(Error::ShipmentNotFound)
        } else if !self.keys.contains_key(uid) {
            Err(Error::UIDNotFound)
        } else if self.keys[uid] != key {
            Err(Error::InvalidKey)
        } else if caller != self.shipments[uid].holder() {
            Err(Error::UnauthorizedCaller)
        } else if caller == self.shipments[uid].destination {
            Ok(Hop::Deliver)
        } else {
            Ok(Hop::Forward)
        }
    }

    /// The registry after the hop that `caller` asks for with token `key`;
    /// `fresh` is the token under which custody goes on, if it does. The
    /// presented token is used up either way.
    pub open spec fn advance(self, uid: u64, caller: NodeId, key: Seq<u8>, fresh: Seq<u8>) -> Result<
        RegistryView,
        Error,
    > {
        match self.hop(uid, caller, key) {
            Err(e) => Err(e),
            Ok(Hop::Deliver) => Ok(
                RegistryView {
                    shipments: self.shipments.insert(uid, self.shipments[uid].delivered()),
                    keys: self.keys.remove(uid),
                    last_uid: self.last_uid,
                },
            ),
            Ok(Hop::Forward) => Ok(
                RegistryView {
                    shipments: self.shipments.insert(uid, self.shipments[uid].forwarded()),
                    keys: self.keys.insert(uid, fresh),
                    last_uid: self.last_uid,
                },
            ),
        }
    }
}

/// A successful registration keeps the registry well formed.
pub proof fn lemma_register_wf(
    reg: RegistryView,
    creator: NodeId,
    destination: NodeId,
    plan: Plan,
    key: Seq<u8>,
)
    requires
        reg.wf(),
    ensures
        reg.register(creator, destination, plan, key) matches Ok(next) ==> next.wf(),
        reg.register(creator, destination, plan, key) != Err::<RegistryView, Error>(
            Error::ShipmentAlreadyExists,
        ),
{
}

/// A successful hop keeps the registry well formed.
pub proof fn lemma_advance_wf(
    reg: RegistryView,
    uid: u64,
    caller: NodeId,
    key: Seq<u8>,
    fresh: Seq<u8>,
)
    requires
        reg.wf(),
    ensures
        reg.advance(uid, caller, key, fresh) matches Ok(next) ==> next.wf(),
        reg.hop(uid, caller, key) == Ok::<Hop, Error>(Hop::Forward) ==> reg.shipments[uid].owner_index
            + 1 < reg.shipments[uid].route.len(),
{
}

/// Whether two custody tokens are the same.
pub fn same_key(a: &Key, b: &Key) -> (r: bool)
    ensures
        r == (a@ == b@),
{
    let mut i: usize = 0;
    while i < 16
        invariant
            i <= 16,
            forall|j: int| 0 <= j < i ==> a@[j] == b@[j],
        decreases 16 - i,
    {
        if a[i] != b[i] {
            return false;
        }
        i += 1;
    }
    assert(a@ =~= b@);
    true
}

/// The registry of shipments and custody tokens.
pub struct Registry {
    shipments: HashMap<u64, Shipment>,
    keys: HashMap<u64, Key>,
    last_uid: u64,
}

impl View for Registry {
    type V = RegistryView;

    closed spec fn view(&self) -> RegistryView {
        RegistryView {
            shipments: Map::new(
                |uid: u64| self.shipments@.contains_key(uid),
                |uid: u64| self.shipments@[uid]@,
            ),
            keys: Map::new(|uid: u64| self.keys@.contains_key(uid), |uid: u64| self.keys@[uid]@),
            last_uid: self.last_uid,
        }
    }
}

impl Registry {
    /// The invariant that every operation keeps.
    pub closed spec fn wf(&self) -> bool {
        self@.wf()
    }

    /// What `wf` says of the model.
    pub proof fn lemma_wf(&self)
        requires
            self.wf(),
        ensures
            self@.wf(),
    {
    }

    /// A registry without shipments.
    pub fn new() -> (r: Registry)
        ensures
            r.wf(),
            r@ == RegistryView::empty(),
    {
        let r = Registry { shipments: HashMap::new(), keys: HashMap::new(), last_uid: 0 };
        assert(r@.shipments =~= Map::empty());
        assert(r@.keys =~= Map::empty());
        r
    }

    /// The identifier that was allocated last; 0 before the first.
    pub fn last_uid(&self) -> (uid: u64)
        ensures
            uid == self@.last_uid,
    {
        self.last_uid
    }

    /// The identifier that the next shipment gets. Fails with `UidOverflow`
    /// when the identifiers are used up.
    pub fn next_uid(&self) -> (r: Result<u64, Error>)
        ensures
            r == (if self@.last_uid == u64::MAX {
                Err::<u64, Error>(Error::UidOverflow)
            } else {
                Ok((self@.last_uid + 1) as u64)
            }),
    {
        match self.last_uid.checked_add(1) {
            Some(uid) => Ok(uid),
            None => Err(Error::UidOverflow),
        }
    }

    /// The record of shipment `uid`, if there is one.
    pub fn shipment(&self, uid: u64) -> (r: Option<Shipment>)
        ensures
            r is Some <==> self@.shipments.contains_key(uid),
            r matches Some(s) ==> s@ == self@.shipments[uid],
    {
        match self.shipments.get(&uid) {
            Some(s) => Some(
                Shipment {
                    creator: s.creator,
                    fees: s.fees,
                    owner_index: s.owner_index,
                    route: clone_route(&s.route),
                    destination: s.destination,
                    uid: s.uid,
                    status: s.status,
                },
            ),
            None => None,
        }
    }

    /// The resident custody token of shipment `uid`, if there is one.
    pub fn key(&self, uid: u64) -> (r: Option<Key>)
        ensures
            r is Some <==> self@.keys.contains_key(uid),
            r matches Some(k) ==> k@ == self@.keys[uid],
    {
        match self.keys.get(&uid) {
            Some(k) => Some(*k),
            None => None,
        }
    }

    /// Files a new shipment from `creator` to `destination` over `plan`,
    /// with `key` as its first custody token, and returns its identifier.
    ///
    /// Fails, and changes nothing, when the identifiers are used up
    /// (`UidOverflow`). In a well-formed registry the next identifier is
    /// free, so `ShipmentAlreadyExists` is never returned.
    pub fn register(&mut self, creator: NodeId, destination: NodeId, plan: Plan, key: Key) -> (r:
        Result<u64, Error>)
        requires
            old(self).wf(),
        ensures
            final(self).wf(),
            match old(self)@.register(creator, destination, plan, key@) {
                Ok(next) => final(self)@ == next && r == Ok::<u64, Error>(next.last_uid),
                Err(e) => r == Err::<u64, Error>(e) && *final(self) == *old(self),
            },
    {
        let uid = self.next_uid()?;
        if self.shipments.contains_key(&uid) {
            return Err(Error::ShipmentAlreadyExists);
        }
        let route = match bounded(plan.route(creator, destination)) {
            Ok(route) => route,
            Err(_) => vstd::pervasive::unreached(),
        };
        let shipment = Shipment {
            creator,
            fees: None,
            owner_index: 1,
            route,
            destination,
            uid,
            status: ShipmentStatus::InTransit,
        };
        proof {
            lemma_register_wf(old(self)@, creator, destination, plan, key@);
        }
        self.shipments.insert(uid, shipment);
        self.keys.insert(uid, key);
        self.last_uid = uid;
        proof {
            let next = old(self)@.register(creator, destination, plan, key@)->Ok_0;
            assert(self@.shipments =~= next.shipments);
            assert(self@.keys =~= next.keys);
        }
        Ok(uid)
    }

    /// What the hop that `caller` asks for with token `key` amounts to, or
    /// why it is refused.
    pub fn hop(&self, uid: u64, caller: NodeId, key: &Key) -> (r: Result<Hop, Error>)
        requires
            self.wf(),
        ensures
            r == self@.hop(uid, caller, key@),
    {
        let shipment = match self.shipments.get(&uid) {
            Some(shipment) => shipment,
            None => {
                return Err(Error::ShipmentNotFound);
            },
        };
        let resident = match self.keys.get(&uid) {
            Some(resident) => resident,
            None => {
                return Err(Error::UIDNotFound);
            },
        };
        if !same_key(resident, key) {
            return Err(Error::InvalidKey);
        }
        let route = as_vec(&shipment.route);
        if caller != route[shipment.owner_index as usize] {
            return Err(Error::UnauthorizedCaller);
        }
        if caller == shipment.destination {
            Ok(Hop::Deliver)
        } else {
            Ok(Hop::Forward)
        }
    }

    /// Makes the hop that `caller` asks for with token `key`. The presented
    /// token is used up; a delivery closes the chain, and after any other hop
    /// `fresh` is the resident token.
    ///
    /// Fails, and changes nothing, when the shipment is unknown
    /// (`ShipmentNotFound`), has no resident token (`UIDNotFound`), the
    /// presented token is not the resident one (`InvalidKey`), or the caller
    /// is not the node named at the active hop (`UnauthorizedCaller`); the
    /// first of these that applies is returned.
    pub fn advance(&mut self, uid: u64, caller: NodeId, key: &Key, fresh: Key) -> (r: Result<
        Hop,
        Error,
    >)
        requires
            old(self).wf(),
        ensures
            final(self).wf(),
            match old(self)@.advance(uid, caller, key@, fresh@) {
                Ok(next) => final(self)@ == next && r == old(self)@.hop(uid, caller, key@),
                Err(e) => r == Err::<Hop, Error>(e) && *final(self) == *old(self),
            },
    {
        let hop = self.hop(uid, caller, key)?;
        proof {
            lemma_advance_wf(old(self)@, uid, caller, key@, fresh@);
        }
        let mut shipment = match self.shipments.remove(&uid) {
            Some(shipment) => shipment,
            None => vstd::pervasive::unreached(),
        };
        match hop {
            Hop::Deliver => {
                shipment.owner_index = 0;
                shipment.status = ShipmentStatus::Delivered;
                self.keys.remove(&uid);
            },
            Hop::Forward => {
                shipment.owner_index = shipment.owner_index + 1;
                self.keys.insert(uid, fresh);
            },
        }
        self.shipments.insert(uid, shipment);
        proof {
            let next = old(self)@.advance(uid, caller, key@, fresh@)->Ok_0;
            assert(self@.shipments =~= next.shipments);
            assert(self@.keys =~= next.keys);
        }
        Ok(hop)
    }
}

} // verus!
