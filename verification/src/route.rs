//! Randomized route construction.
//!
//! A route runs from an origin to a destination over zero, one or two
//! intermediate nodes. How many there are, and which, is decided by a stream
//! of pseudorandom draws: the first draw picks the number of intermediates
//! (according to the size of the network), the following ones pick the
//! intermediates by rejection sampling among the registered nodes.
//!
//! The construction is a small state machine, [`Sampling`], that consumes one
//! draw per step. What a given sequence of draws leads to is the spec function
//! [`sampling_after`]; [`sample`] computes it.

use crate::types::{NodeId, MAX_ROUTE_LEN, MAX_SAMPLING_ATTEMPTS};
use vstd::prelude::*;

verus! {

/// The intermediate nodes of a route.
#[derive(Clone, Copy, Debug, PartialEq, Eq, Structural)]
pub enum Plan {
    /// No intermediate: origin, then destination.
    Direct,
    /// One intermediate node.
    Via(NodeId),
    /// Two intermediate nodes, in the order in which they are visited.
    ViaTwo(NodeId, NodeId),
}

impl Plan {
    /// The nodes of the route from `origin` to `destination` over this plan.
    pub open spec fn stops(self, origin: NodeId, destination: NodeId) -> Seq<NodeId> {
        match self {
            Plan::Direct => seq![origin, destination],
            Plan::Via(a) => seq![origin, a, destination],
            Plan::ViaTwo(a, b) => seq![origin, a, b, destination],
        }
    }

    /// Builds the route from `origin` to `destination` over this plan.
    pub fn route(self, origin: NodeId, destination: NodeId) -> (r: Vec<NodeId>)
        ensures
            r@ == self.stops(origin, destination),
    {
        let mut r: Vec<NodeId> = Vec::new();
        r.push(origin);
        match self {
            Plan::Direct => {},
            Plan::Via(a) => {
                r.push(a);
            },
            Plan::ViaTwo(a, b) => {
                r.push(a);
                r.push(b);
            },
        }
        r.push(destination);
        r
    }
}

/// State of a route construction.
#[derive(Clone, Copy, Debug, PartialEq, Eq, Structural)]
pub enum Sampling {
    /// The draw that picks the number of intermediates is still to come.
    Branch,
    /// The first intermediate is being sampled. `rejected` candidates were
    /// turned down so far; `two` says whether a second intermediate follows.
    First { rejected: u32, two: bool },
    /// The second intermediate is being sampled, `first` being the first.
    Second { first: NodeId, rejected: u32 },
    /// The route is settled.
    Finished(Plan),
    /// A sampling ran out of attempts.
    Exhausted,
}

/// The node that a draw selects among `nodes`.
pub open spec fn candidate(nodes: Seq<NodeId>, draw: u64) -> NodeId
    recommends
        nodes.len() > 0,
{
    nodes[(draw as int) % (nodes.len() as int)]
}

/// Where a sampling stands after one more rejected candidate: it goes on as
/// `retry` unless that was the last attempt.
pub open spec fn after_rejection(rejected: u32, retry: Sampling) -> Sampling {
    if rejected >= MAX_SAMPLING_ATTEMPTS - 1 {
        Sampling::Exhausted
    } else {
        retry
    }
}

impl Sampling {
    /// The state before any draw, in a network of `n` registered nodes: with
    /// fewer than three nodes every route is direct.
    pub open spec fn initial(n: nat) -> Sampling {
        if n < 3 {
            Sampling::Finished(Plan::Direct)
        } else {
            Sampling::Branch
        }
    }

    /// Whether the construction needs another draw.
    pub open spec fn spec_is_pending(&self) -> bool {
        *self is Branch || *self is First || *self is Second
    }

    /// The state that follows `self` when the next draw is `draw`.
    ///
    /// * `Branch`: with at most five nodes an even draw gives the direct
    ///   route and an odd one asks for one intermediate; with more, the draw
    ///   modulo 3 gives the number of intermediates.
    /// * `First`, `Second`: the draw selects a candidate among `nodes`. It is
    ///   taken unless it is the origin, the destination or the intermediate
    ///   already chosen.
    /// * `Finished`, `Exhausted`: nothing changes.
    pub open spec fn after_draw(
        self,
        nodes: Seq<NodeId>,
        origin: NodeId,
        destination: NodeId,
        draw: u64,
    ) -> Sampling {
        match self {
            Sampling::Branch => {
                if nodes.len() <= 5 {
                    if draw % 2 == 0 {
                        Sampling::Finished(Plan::Direct)
                    } else {
                        Sampling::First { rejected: 0, two: false }
                    }
                } else if draw % 3 == 0 {
                    Sampling::Finished(Plan::Direct)
                } else if draw % 3 == 1 {
                    Sampling::First { rejected: 0, two: false }
                } else {
                    Sampling::First { rejected: 0, two: true }
                }
            },
            Sampling::First { rejected, two } => {
                let c = candidate(nodes, draw);
                if nodes.len() == 0 {
                    Sampling::Exhausted
                } else if c != origin && c != destination {
                    if two {
                        Sampling::Second { first: c, rejected: 0 }
                    } else {
                        Sampling::Finished(Plan::Via(c))
                    }
                } else {
                    after_rejection(
                        rejected,
                        Sampling::First { rejected: (rejected + 1) as u32, two },
                    )
                }
            },
            Sampling::Second { first, rejected } => {
                let c = candidate(nodes, draw);
                if nodes.len() == 0 {
                    Sampling::Exhausted
                } else if c != origin && c != destination && c != first {
                    Sampling::Finished(Plan::ViaTwo(first, c))
                } else {
                    after_rejection(
                        rejected,
                        Sampling::Second { first, rejected: (rejected + 1) as u32 },
                    )
                }
            },
            Sampling::Finished(_) => self,
            Sampling::Exhausted => self,
        }
    }

    /// An upper bound on the number of draws that the construction still
    /// needs.
    pub open spec fn budget(self) -> nat {
        match self {
            Sampling::Branch => (2 * MAX_SAMPLING_ATTEMPTS + 2) as nat,
            Sampling::First { rejected, two } => {
                let own = if rejected < MAX_SAMPLING_ATTEMPTS {
                    MAX_SAMPLING_ATTEMPTS - rejected
                } else {
                    0
                };
                (if two {
                    own + MAX_SAMPLING_ATTEMPTS + 1
                } else {
                    own
                }) as nat
            },
            Sampling::Second { first, rejected } => {
                (if rejected < MAX_SAMPLING_ATTEMPTS {
                    MAX_SAMPLING_ATTEMPTS - rejected
                } else {
                    0
                }) as nat
            },
            Sampling::Finished(_) => 0,
            Sampling::Exhausted => 0,
        }
    }

    /// What holds of every state that a construction passes through.
    pub open spec fn consistent(self, nodes: Seq<NodeId>, origin: NodeId, destination: NodeId) -> bool {
        match self {
            Sampling::Branch => nodes.len() >= 3,
            Sampling::First { rejected, two } => {
                &&& nodes.len() >= 3
                &&& rejected < MAX_SAMPLING_ATTEMPTS
                &&& two ==> nodes.len() > 5
            },
            Sampling::Second { first, rejected } => {
                &&& nodes.len() > 5
                &&& rejected < MAX_SAMPLING_ATTEMPTS
                &&& is_intermediate(nodes, origin, destination, first)
            },
            Sampling::Finished(Plan::Direct) => true,
            Sampling::Finished(Plan::Via(a)) => {
                &&& nodes.len() >= 3
                &&& is_intermediate(nodes, origin, destination, a)
            },
            Sampling::Finished(Plan::ViaTwo(a, b)) => {
                &&& nodes.len() > 5
                &&& is_intermediate(nodes, origin, destination, a)
                &&& is_intermediate(nodes, origin, destination, b)
                &&& a != b
            },
            Sampling::Exhausted => nodes.len() >= 3,
        }
    }

    /// The state before any draw, in a network of `n` registered nodes.
    pub fn start(n: usize) -> (r: Sampling)
        ensures
            r == Sampling::initial(n as nat),
    {
        if n < 3 {
            Sampling::Finished(Plan::Direct)
        } else {
            Sampling::Branch
        }
    }

    /// Whether the construction needs another draw.
    #[verifier::when_used_as_spec(spec_is_pending)]
    pub fn is_pending(&self) -> (r: bool)
        ensures
            r == self.spec_is_pending(),
    {
        match self {
            Sampling::Branch => true,
            Sampling::First { .. } => true,
            Sampling::Second { .. } => true,
            _ => false,
        }
    }

    /// Consumes one draw.
    pub fn step(self, nodes: &Vec<NodeId>, origin: NodeId, destination: NodeId, draw: u64) -> (r:
        Sampling)
        ensures
            r == self.after_draw(nodes@, origin, destination, draw),
    {
        match self {
            Sampling::Branch => {
                if nodes.len() <= 5 {
                    if draw % 2 == 0 {
                        Sampling::Finished(Plan::Direct)
                    } else {
                        Sampling::First { rejected: 0, two: false }
                    }
                } else {
                    let k: u64 = draw % 3;
                    if k == 0 {
                        Sampling::Finished(Plan::Direct)
                    } else if k == 1 {
                        Sampling::First { rejected: 0, two: false }
                    } else {
                        Sampling::First { rejected: 0, two: true }
                    }
                }
            },
            Sampling::First { rejected, two } => {
                if nodes.len() == 0 {
                    return Sampling::Exhausted;
                }
                let c = pick(nodes, draw);
                if c != origin && c != destination {
                    if two {
                        Sampling::Second { first: c, rejected: 0 }
                    } else {
                        Sampling::Finished(Plan::Via(c))
                    }
                } else if rejected >= MAX_SAMPLING_ATTEMPTS - 1 {
                    Sampling::Exhausted
                } else {
                    Sampling::First { rejected: rejected + 1, two }
                }
            },
            Sampling::Second { first, rejected } => {
                if nodes.len() == 0 {
                    return Sampling::Exhausted;
                }
                let c = pick(nodes, draw);
                if c != origin && c != destination && c != first {
                    Sampling::Finished(Plan::ViaTwo(first, c))
                } else if rejected >= MAX_SAMPLING_ATTEMPTS - 1 {
                    Sampling::Exhausted
                } else {
                    Sampling::Second { first, rejected: rejected + 1 }
                }
            },
            Sampling::Finished(plan) => Sampling::Finished(plan),
            Sampling::Exhausted => Sampling::Exhausted,
        }
    }
}

/// Whether `c` is a registered node other than the two ends of the route.
pub open spec fn is_intermediate(
    nodes: Seq<NodeId>,
    origin: NodeId,
    destination: NodeId,
    c: NodeId,
) -> bool {
    nodes.contains(c) && c != origin && c != destination
}

/// Whether `route` is a route from `origin` to `destination` that a network
/// of the registered `nodes` admits: it has two nodes when fewer than three
/// are registered, at most three when at most five are, and at most four
/// otherwise; it starts at the origin and ends at the destination; what lies
/// between are registered nodes that differ from both ends and from each
/// other. Unless the two ends coincide, no node occurs twice.
pub open spec fn is_route(
    nodes: Seq<NodeId>,
    origin: NodeId,
    destination: NodeId,
    route: Seq<NodeId>,
) -> bool {
    &&& 2 <= route.len() <= MAX_ROUTE_LEN
    &&& nodes.len() < 3 ==> route.len() == 2
    &&& nodes.len() <= 5 ==> route.len() <= 3
    &&& route.first() == origin
    &&& route.last() == destination
    &&& forall|i: int|
        0 < i < route.len() - 1 ==> is_intermediate(nodes, origin, destination, #[trigger] route[i])
    &&& forall|i: int, j: int| 0 < i < j < route.len() - 1 ==> route[i] != route[j]
    &&& origin != destination ==> route.no_duplicates()
}

/// The node that a draw selects among `nodes`.
pub fn pick(nodes: &Vec<NodeId>, draw: u64) -> (c: NodeId)
    requires
        nodes@.len() > 0,
    ensures
        c == candidate(nodes@, draw),
        nodes@.contains(c),
{
    let n: u64 = nodes.len() as u64;
    let index: u64 = draw % n;
    nodes[index as usize]
}

/// The state of a route construction over `nodes` after the given draws, the
/// first of them made first.
pub open spec fn sampling_after(
    nodes: Seq<NodeId>,
    origin: NodeId,
    destination: NodeId,
    draws: Seq<u64>,
) -> Sampling
    decreases draws.len(),
{
    if draws.len() == 0 {
        Sampling::initial(nodes.len())
    } else {
        sampling_after(nodes, origin, destination, draws.drop_last()).after_draw(
            nodes,
            origin,
            destination,
            draws.last(),
        )
    }
}

/// Whether a construction that draws only while it needs to makes exactly
/// these draws: they settle it, and no fewer do.
pub open spec fn settles(
    nodes: Seq<NodeId>,
    origin: NodeId,
    destination: NodeId,
    draws: Seq<u64>,
) -> bool {
    &&& !sampling_after(nodes, origin, destination, draws).is_pending()
    &&& draws.len() > 0 ==> sampling_after(nodes, origin, destination, draws.drop_last()).is_pending()
}

/// Runs a route construction over `nodes` on the given draws.
pub fn sample(nodes: &Vec<NodeId>, origin: NodeId, destination: NodeId, draws: &Vec<u64>) -> (r:
    Sampling)
    ensures
        r == sampling_after(nodes@, origin, destination, draws@),
{
    let mut state = Sampling::start(nodes.len());
    let mut i: usize = 0;
    while i < draws.len()
        invariant
            i <= draws.len(),
            state == sampling_after(nodes@, origin, destination, draws@.take(i as int)),
        decreases draws.len() - i,
    {
        state = state.step(nodes, origin, destination, draws[i]);
        proof {
            let next = draws@.take(i + 1);
            assert(next.drop_last() =~= draws@.take(i as int));
        }
        i += 1;
    }
    assert(draws@.take(i as int) =~= draws@);
    state
}

/// One draw keeps a construction consistent and, while it is pending, uses
/// up some of its budget.
pub proof fn lemma_step(
    state: Sampling,
    nodes: Seq<NodeId>,
    origin: NodeId,
    destination: NodeId,
    draw: u64,
)
    requires
        state.consistent(nodes, origin, destination),
    ensures
        state.after_draw(nodes, origin, destination, draw).consistent(nodes, origin, destination),
        state.is_pending() ==> state.after_draw(nodes, origin, destination, draw).budget()
            < state.budget(),
{
}

/// Every state that a construction passes through is consistent.
pub proof fn lemma_sampling_consistent(
    nodes: Seq<NodeId>,
    origin: NodeId,
    destination: NodeId,
    draws: Seq<u64>,
)
    ensures
        sampling_after(nodes, origin, destination, draws).consistent(nodes, origin, destination),
    decreases draws.len(),
{
    if draws.len() > 0 {
        lemma_sampling_consistent(nodes, origin, destination, draws.drop_last());
        lemma_step(
            sampling_after(nodes, origin, destination, draws.drop_last()),
            nodes,
            origin,
            destination,
            draws.last(),
        );
    }
}

/// Every route that a construction settles on is one that the network
/// admits.
pub proof fn lemma_route(nodes: Seq<NodeId>, origin: NodeId, destination: NodeId, draws: Seq<u64>)
    ensures
        sampling_after(nodes, origin, destination, draws) matches Sampling::Finished(plan)
            ==> is_route(nodes, origin, destination, plan.stops(origin, destination)),
{
    lemma_sampling_consistent(nodes, origin, destination, draws);
}

/// A generated route has two nodes in a network of fewer than three
/// registered nodes, two or three in one of three to five, and two, three or
/// four in a larger one.
pub proof fn lemma_route_length(
    nodes: Seq<NodeId>,
    origin: NodeId,
    destination: NodeId,
    draws: Seq<u64>,
)
    ensures
        sampling_after(nodes, origin, destination, draws) matches Sampling::Finished(plan) ==> {
            let len = plan.stops(origin, destination).len();
            &&& nodes.len() < 3 ==> len == 2
            &&& 3 <= nodes.len() <= 5 ==> len == 2 || len == 3
            &&& nodes.len() > 5 ==> len == 2 || len == 3 || len == 4
        },
{
    lemma_sampling_consistent(nodes, origin, destination, draws);
}

/// A generated route starts at the origin and ends at the destination; its
/// intermediate nodes are registered, differ from both ends and from each
/// other.
pub proof fn lemma_route_shape(
    nodes: Seq<NodeId>,
    origin: NodeId,
    destination: NodeId,
    draws: Seq<u64>,
)
    ensures
        sampling_after(nodes, origin, destination, draws) matches Sampling::Finished(plan) ==> {
            let route = plan.stops(origin, destination);
            &&& route.first() == origin
            &&& route.last() == destination
            &&& forall|i: int|
                0 < i < route.len() - 1 ==> is_intermediate(
                    nodes,
                    origin,
                    destination,
                    #[trigger] route[i],
                )
            &&& forall|i: int, j: int| 0 < i < j < route.len() - 1 ==> route[i] != route[j]
        },
{
    lemma_sampling_consistent(nodes, origin, destination, draws);
}

/// Between two different nodes, no node occurs twice on a generated route.
pub proof fn lemma_route_distinct(
    nodes: Seq<NodeId>,
    origin: NodeId,
    destination: NodeId,
    draws: Seq<u64>,
)
    requires
        origin != destination,
    ensures
        sampling_after(nodes, origin, destination, draws) matches Sampling::Finished(plan)
            ==> plan.stops(origin, destination).no_duplicates(),
{
    lemma_sampling_consistent(nodes, origin, destination, draws);
}

} // verus!
