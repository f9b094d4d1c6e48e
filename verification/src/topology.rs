//! The topology store: the registered transit nodes and the costs between
//! them.
//!
//! The model of the store is [`TopologyView`]: the sequence of registered
//! nodes, in the order of their registration, and a map from ordered pairs of
//! nodes to costs that holds every edge in both directions. The store itself
//! keeps one entry per unordered pair, so the two directions cannot drift
//! apart.

use crate::types::{Error, NodeId};
use std::collections::HashMap;
use vstd::prelude::*;

verus! {

/// The topology as a mathematical value.
pub struct TopologyView {
    /// The registered nodes, oldest first.
    pub nodes: Seq<NodeId>,
    /// The cost of every edge, under both of its directions.
    pub costs: Map<(NodeId, NodeId), u32>,
}

/// Whether every edge of `costs` joins two of `nodes` and reads the same in
/// both directions.
pub open spec fn edges_within(costs: Map<(NodeId, NodeId), u32>, nodes: Seq<NodeId>) -> bool {
    forall|a: NodeId, b: NodeId| #[trigger]
        costs.contains_key((a, b)) ==> {
            &&& nodes.contains(a)
            &&& nodes.contains(b)
            &&& costs.contains_key((b, a))
            &&& costs[(b, a)] == costs[(a, b)]
        }
}

/// Whether a listed neighbour cannot be linked to the new node `node`: it is
/// that node itself, or it is not registered.
pub open spec fn bad_neighbour(nodes: Seq<NodeId>, node: NodeId, neighbour: NodeId) -> bool {
    neighbour == node || !nodes.contains(neighbour)
}

impl TopologyView {
    /// The invariant of the store: no node is registered twice, and edges
    /// join registered nodes and are symmetric.
    pub open spec fn wf(self) -> bool {
        &&& self.nodes.no_duplicates()
        &&& self.nodes.len() <= u64::MAX
        &&& edges_within(self.costs, self.nodes)
    }

    /// The topology without nodes.
    pub open spec fn empty() -> TopologyView {
        TopologyView { nodes: Seq::empty(), costs: Map::empty() }
    }

    /// The topology with the cost between `a` and `b` set to `cost`.
    pub open spec fn with_edge(self, a: NodeId, b: NodeId, cost: u32) -> TopologyView {
        TopologyView { nodes: self.nodes, costs: self.costs.insert((a, b), cost).insert((b, a), cost) }
    }

    /// The topology with the cost between `node` and each listed neighbour
    /// set as listed. Where a neighbour is listed twice, the later entry
    /// stands.
    pub open spec fn with_edges(self, node: NodeId, neighbours: Seq<(NodeId, u32)>) -> TopologyView
        decreases neighbours.len(),
    {
        if neighbours.len() == 0 {
            self
        } else {
            self.with_edges(node, neighbours.drop_last()).with_edge(
                node,
                neighbours.last().0,
                neighbours.last().1,
            )
        }
    }

    /// Registers `node` with its edges, or says why it cannot be done.
    pub open spec fn add_node(self, node: NodeId, neighbours: Seq<(NodeId, u32)>) -> Result<
        TopologyView,
        Error,
    > {
        if self.nodes.contains(node) {
            Err(Error::TransitPointAlreadyExists)
        } else if exists|i: int|
            0 <= i < neighbours.len() && bad_neighbour(self.nodes, node, #[trigger] neighbours[i].0) {
            Err(Error::InvalidRoute)
        } else if self.nodes.len() >= u64::MAX {
            Err(Error::Overflow)
        } else {
            Ok(
                TopologyView {
                    nodes: self.nodes.push(node),
                    costs: self.with_edges(node, neighbours).costs,
                },
            )
        }
    }

    /// Sets the cost between two registered nodes, or says why it cannot be
    /// done.
    pub open spec fn update_edge(self, a: NodeId, b: NodeId, cost: u32) -> Result<
        TopologyView,
        Error,
    > {
        if self.nodes.contains(a) && self.nodes.contains(b) {
            Ok(self.with_edge(a, b, cost))
        } else {
            Err(Error::TransitPointNotFound)
        }
    }

    /// Removes `node` and every edge that touches it, or says why it cannot
    /// be done.
    pub open spec fn remove_node(self, node: NodeId) -> Result<TopologyView, Error> {
        if self.nodes.contains(node) {
            Ok(
                TopologyView {
                    nodes: self.nodes.remove(self.nodes.index_of(node)),
                    costs: self.costs.restrict(
                        Set::new(|edge: (NodeId, NodeId)| edge.0 != node && edge.1 != node),
                    ),
                },
            )
        } else {
            Err(Error::TransitPointNotFound)
        }
    }
}

/// Linking a new node to registered neighbours leaves every edge between
/// nodes of the enlarged network, and symmetric.
pub proof fn lemma_with_edges(top: TopologyView, node: NodeId, neighbours: Seq<(NodeId, u32)>)
    requires
        edges_within(top.costs, top.nodes),
        forall|i: int| 0 <= i < neighbours.len() ==> top.nodes.contains(#[trigger] neighbours[i].0),
    ensures
        top.with_edges(node, neighbours).nodes == top.nodes,
        edges_within(top.with_edges(node, neighbours).costs, top.nodes.push(node)),
    decreases neighbours.len(),
{
    let grown = top.nodes.push(node);
    assert(grown.last() == node);
    assert forall|x: NodeId| top.nodes.contains(x) implies grown.contains(x) by {
        let i = choose|i: int| 0 <= i < top.nodes.len() && top.nodes[i] == x;
        assert(grown[i] == x);
    }
    if neighbours.len() > 0 {
        lemma_with_edges(top, node, neighbours.drop_last());
    }
}

/// Taking the item at `index` out of a sequence without duplicates leaves a
/// sequence without duplicates that holds the same items but that one.
pub proof fn lemma_remove_item(nodes: Seq<NodeId>, index: int)
    requires
        nodes.no_duplicates(),
        0 <= index < nodes.len(),
    ensures
        nodes.remove(index).no_duplicates(),
        forall|x: NodeId| #[trigger]
            nodes.remove(index).contains(x) <==> nodes.contains(x) && x != nodes[index],
        nodes.index_of(nodes[index]) == index,
{
    let rest = nodes.remove(index);
    assert forall|x: NodeId| nodes.contains(x) && x != nodes[index] implies #[trigger] rest.contains(
        x,
    ) by {
        let i = choose|i: int| 0 <= i < nodes.len() && nodes[i] == x;
        if i < index {
            assert(rest[i] == x);
        } else {
            assert(rest[i - 1] == x);
        }
    }
}

/// The key under which the store keeps the edge between `a` and `b`: the
/// smaller node in the high half, the larger in the low half.
pub open spec fn edge_key(a: NodeId, b: NodeId) -> u128 {
    if a <= b {
        (a * 0x1_0000_0000_0000_0000 + b) as u128
    } else {
        (b * 0x1_0000_0000_0000_0000 + a) as u128
    }
}

/// Whether the edge kept under `key` touches `node`.
pub open spec fn key_touches(key: u128, node: NodeId) -> bool {
    key / 0x1_0000_0000_0000_0000 == node || key % 0x1_0000_0000_0000_0000 == node
}

/// An edge has one key whichever way it is named, two edges with the same
/// key join the same nodes, and a key touches the nodes of its edge only.
pub proof fn lemma_edge_key(a: NodeId, b: NodeId, c: NodeId, d: NodeId)
    ensures
        edge_key(a, b) == edge_key(b, a),
        edge_key(a, b) == edge_key(c, d) <==> (a == c && b == d) || (a == d && b == c),
        key_touches(edge_key(a, b), c) <==> a == c || b == c,
{
}

/// The costs that a table of edges stands for.
pub open spec fn costs_of(table: Map<u128, u32>) -> Map<(NodeId, NodeId), u32> {
    Map::new(
        |edge: (NodeId, NodeId)| table.contains_key(edge_key(edge.0, edge.1)),
        |edge: (NodeId, NodeId)| table[edge_key(edge.0, edge.1)],
    )
}

/// Writing one entry of the table sets the cost of its edge in both
/// directions.
pub proof fn lemma_costs_insert(table: Map<u128, u32>, a: NodeId, b: NodeId, cost: u32)
    ensures
        costs_of(table.insert(edge_key(a, b), cost)) == costs_of(table).insert((a, b), cost).insert(
            (b, a),
            cost,
        ),
{
    let left = costs_of(table.insert(edge_key(a, b), cost));
    let right = costs_of(table).insert((a, b), cost).insert((b, a), cost);
    assert forall|edge: (NodeId, NodeId)| #![auto]
        left.contains_key(edge) == right.contains_key(edge) && (left.contains_key(edge)
            ==> left[edge] == right[edge]) by {
        lemma_edge_key(edge.0, edge.1, a, b);
    }
}

/// The store of transit nodes and edge costs.
pub struct Topology {
    nodes: Vec<NodeId>,
    count: u64,
    table: HashMap<u128, u32>,
}

impl View for Topology {
    type V = TopologyView;

    closed spec fn view(&self) -> TopologyView {
        TopologyView { nodes: self.nodes@, costs: costs_of(self.table@) }
    }
}

impl Topology {
    /// The invariant that every operation keeps.
    pub closed spec fn wf(&self) -> bool {
        &&& self@.wf()
        &&& self.count == self.nodes@.len()
    }

    /// What `wf` says of the model.
    pub proof fn lemma_wf(&self)
        requires
            self.wf(),
        ensures
            self@.wf(),
    {
    }

    /// A store without nodes.
    pub fn new() -> (r: Topology)
        ensures
            r.wf(),
            r@ == TopologyView::empty(),
    {
        let r = Topology { nodes: Vec::new(), count: 0, table: HashMap::new() };
        assert(r@.costs =~= Map::empty());
        r
    }

    /// The number of registered nodes.
    pub fn node_count(&self) -> (n: u64)
        requires
            self.wf(),
        ensures
            n == self@.nodes.len(),
    {
        self.count
    }

    /// The registered nodes, oldest first.
    pub fn nodes(&self) -> (nodes: &Vec<NodeId>)
        ensures
            nodes@ == self@.nodes,
    {
        &self.nodes
    }

    /// Where `node` stands among the registered nodes.
    pub fn position(&self, node: NodeId) -> (r: Option<usize>)
        ensures
            r is Some <==> self@.nodes.contains(node),
            r matches Some(i) ==> {
                &&& i < self@.nodes.len()
                &&& self@.nodes[i as int] == node
                &&& forall|j: int| 0 <= j < i ==> self@.nodes[j] != node
            },
    {
        let mut i: usize = 0;
        while i < self.nodes.len()
            invariant
                i <= self.nodes.len(),
                forall|j: int| 0 <= j < i ==> self.nodes@[j] != node,
            decreases self.nodes.len() - i,
        {
            if self.nodes[i] == node {
                return Some(i);
            }
            i += 1;
        }
        None
    }

    /// Whether `node` is registered.
    pub fn contains(&self, node: NodeId) -> (r: bool)
        ensures
            r == self@.nodes.contains(node),
    {
        self.position(node).is_some()
    }

    /// The cost between `a` and `b`, if it was set.
    pub fn cost(&self, a: NodeId, b: NodeId) -> (r: Option<u32>)
        ensures
            r == (if self@.costs.contains_key((a, b)) {
                Some(self@.costs[(a, b)])
            } else {
                None
            }),
    {
        match self.table.get(&key_of(a, b)) {
            Some(cost) => Some(*cost),
            None => None,
        }
    }

    /// Registers `node` and sets the cost between it and each listed
    /// neighbour.
    ///
    /// Fails, and changes nothing, when the node is already registered
    /// (`TransitPointAlreadyExists`), when a listed neighbour is the node
    /// itself or is not registered (`InvalidRoute`), or when the node counter
    /// is at its ceiling (`Overflow`).
    pub fn add_node(&mut self, node: NodeId, neighbours: &Vec<(NodeId, u32)>) -> (r: Result<
        (),
        Error,
    >)
        requires
            old(self).wf(),
        ensures
            final(self).wf(),
            match old(self)@.add_node(node, neighbours@) {
                Ok(next) => r is Ok && final(self)@ == next,
                Err(e) => r == Err::<(), Error>(e) && *final(self) == *old(self),
            },
    {
        if self.contains(node) {
            return Err(Error::TransitPointAlreadyExists);
        }
        let mut i: usize = 0;
        while i < neighbours.len()
            invariant
                i <= neighbours.len(),
                *self == *old(self),
                self.wf(),
                !self@.nodes.contains(node),
                forall|j: int|
                    0 <= j < i ==> !bad_neighbour(self@.nodes, node, #[trigger] neighbours@[j].0),
            decreases neighbours.len() - i,
        {
            let neighbour = neighbours[i].0;
            if neighbour == node || !self.contains(neighbour) {
                return Err(Error::InvalidRoute);
            }
            i += 1;
        }
        let count = match self.count.checked_add(1) {
            Some(count) => count,
            None => {
                return Err(Error::Overflow);
            },
        };
        let mut i: usize = 0;
        while i < neighbours.len()
            invariant
                i <= neighbours.len(),
                self.nodes == old(self).nodes,
                self.count == old(self).count,
                self@.costs == old(self)@.with_edges(node, neighbours@.take(i as int)).costs,
            decreases neighbours.len() - i,
        {
            let neighbour = neighbours[i].0;
            let cost = neighbours[i].1;
            proof {
                lemma_costs_insert(self.table@, node, neighbour, cost);
                let next = neighbours@.take(i + 1);
                assert(next.drop_last() =~= neighbours@.take(i as int));
            }
            self.table.insert(key_of(node, neighbour), cost);
            i += 1;
        }
        proof {
            assert(neighbours@.take(i as int) =~= neighbours@);
            lemma_with_edges(old(self)@, node, neighbours@);
        }
        self.nodes.push(node);
        self.count = count;
        Ok(())
    }

    /// Sets the cost between `a` and `b`, in both directions.
    ///
    /// Fails, and changes nothing, when one of the two is not registered
    /// (`TransitPointNotFound`).
    pub fn update_edge(&mut self, a: NodeId, b: NodeId, cost: u32) -> (r: Result<(), Error>)
        requires
            old(self).wf(),
        ensures
            final(self).wf(),
            match old(self)@.update_edge(a, b, cost) {
                Ok(next) => r is Ok && final(self)@ == next,
                Err(e) => r == Err::<(), Error>(e) && *final(self) == *old(self),
            },
    {
        if !(self.contains(a) && self.contains(b)) {
            return Err(Error::TransitPointNotFound);
        }
        proof {
            lemma_costs_insert(self.table@, a, b, cost);
        }
        self.table.insert(key_of(a, b), cost);
        Ok(())
    }

    /// Removes `node` and every edge that touches it.
    ///
    /// Fails, and changes nothing, when the node is not registered
    /// (`TransitPointNotFound`). The node counter of a well-formed store
    /// cannot be zero then, so `Underflow` is never returned.
    pub fn remove_node(&mut self, node: NodeId) -> (r: Result<(), Error>)
        requires
            old(self).wf(),
        ensures
            final(self).wf(),
            match old(self)@.remove_node(node) {
                Ok(next) => r is Ok && final(self)@ == next,
                Err(e) => r == Err::<(), Error>(e) && *final(self) == *old(self),
            },
    {
        let index = match self.position(node) {
            Some(index) => index,
            None => {
                return Err(Error::TransitPointNotFound);
            },
        };
        let count = match self.count.checked_sub(1) {
            Some(count) => count,
            None => {
                return Err(Error::Underflow);
            },
        };
        let mut i: usize = 0;
        while i < self.nodes.len()
            invariant
                i <= self.nodes.len(),
                self.nodes == old(self).nodes,
                self.count == old(self).count,
                forall|k: u128| #[trigger]
                    self.table@.contains_key(k) ==> old(self).table@.contains_key(k)
                        && self.table@[k] == old(self).table@[k],
                forall|k: u128|
                    old(self).table@.contains_key(k) && !key_touches(k, node)
                        ==> #[trigger] self.table@.contains_key(k),
                forall|j: int|
                    0 <= j < i ==> !self.table@.contains_key(
                        #[trigger] edge_key(node, self.nodes@[j]),
                    ),
            decreases self.nodes.len() - i,
        {
            let other = self.nodes[i];
            proof {
                lemma_edge_key(node, other, node, other);
            }
            self.table.remove(&key_of(node, other));
            i += 1;
        }
        proof {
            let before = old(self)@;
            let kept = Set::new(|edge: (NodeId, NodeId)| edge.0 != node && edge.1 != node);
            let after = before.costs.restrict(kept);
            assert forall|edge: (NodeId, NodeId)|
                (#[trigger] self@.costs.dom().contains(edge)) == after.dom().contains(edge) && (
                self@.costs.dom().contains(edge) ==> self@.costs[edge] == after[edge]) by {
                lemma_edge_key(edge.0, edge.1, node, node);
                if edge.0 == node || edge.1 == node {
                    if before.costs.contains_key(edge) {
                        let other = if edge.0 == node {
                            edge.1
                        } else {
                            edge.0
                        };
                        let j = choose|j: int| 0 <= j < before.nodes.len() && before.nodes[j] == other;
                        lemma_edge_key(edge.0, edge.1, node, self.nodes@[j]);
                    }
                }
            }
            assert(self@.costs =~= after);
            lemma_remove_item(self.nodes@, index as int);
        }
        self.nodes.remove(index);
        self.count = count;
        assert(self@.costs == old(self)@.remove_node(node)->Ok_0.costs);
        Ok(())
    }
}

/// The key under which the store keeps the edge between `a` and `b`.
fn key_of(a: NodeId, b: NodeId) -> (key: u128)
    ensures
        key == edge_key(a, b),
{
    if a <= b {
        (a as u128) * 0x1_0000_0000_0000_0000 + (b as u128)
    } else {
        (b as u128) * 0x1_0000_0000_0000_0000 + (a as u128)
    }
}

} // verus!
