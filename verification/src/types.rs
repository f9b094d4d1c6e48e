//! Plain values shared by every component: identities, origins, errors and
//! notifications.

use vstd::prelude::*;

verus! {

/// Identity of a transit node.
pub type NodeId = u64;

/// Amount of currency.
pub type Balance = u128;

/// Seed handed out by the randomness source.
pub type Seed = [u8; 32];

/// Height of a block.
pub type BlockNumber = u64;

/// Single-use custody token.
pub type Key = [u8; 16];

/// Largest number of nodes a route can hold.
pub const MAX_ROUTE_LEN: u32 = 4;

/// Number of candidates that one rejection sampling may turn down before it
/// gives up.
pub const MAX_SAMPLING_ATTEMPTS: u32 = 64;

/// Who asks for an operation.
#[derive(Clone, Copy, Debug, PartialEq, Eq, Structural)]
pub enum Origin {
    /// The system itself: the highest privilege level.
    Root,
    /// A request signed by the given node.
    Signed(NodeId),
    /// A request signed by nobody.
    Unsigned,
}

/// Lifecycle state of a shipment.
#[derive(Clone, Copy, Debug, PartialEq, Eq, Structural)]
pub enum ShipmentStatus {
    /// The shipment is on its way along its route.
    InTransit,
    /// The destination has taken custody; the chain is closed.
    Delivered,
    /// The shipment was given up. No operation leads here.
    Failed,
}

/// Why an operation was turned down.
#[derive(Clone, Copy, Debug, PartialEq, Eq, Structural)]
pub enum Error {
    /// Reserved: no operation returns it.
    InvalidUID,
    /// Reserved: no operation returns it.
    InvalidShipmentUID,
    /// A listed neighbour is not registered, or is the new node itself.
    InvalidRoute,
    /// The presented custody token is not the resident one.
    InvalidKey,
    /// Reserved: no operation returns it.
    KeyNotFound,
    /// The freshly allocated shipment identifier is already taken. A
    /// well-formed registry never is in that state.
    ShipmentAlreadyExists,
    /// Reserved: no operation returns it.
    ShipmentKeyAlreadyExists,
    /// No shipment has the given identifier.
    ShipmentNotFound,
    /// The node is already registered.
    TransitPointAlreadyExists,
    /// Reserved: no operation returns it.
    TransitNodesOverFlow,
    /// A named node is not registered.
    TransitPointNotFound,
    /// The shipment has no resident custody token.
    UIDNotFound,
    /// The caller is not the node named at the active hop.
    UnauthorizedCaller,
    /// Reserved: no operation returns it.
    CallerIsNotFirstNode,
    /// The origin lacks the capability that the operation asks for.
    Unauthorized,
    /// The node counter is at its ceiling.
    Overflow,
    /// The node counter is already zero. A well-formed store never is in
    /// that state when a node is removed.
    Underflow,
    /// The shipment identifiers are used up.
    UidOverflow,
    /// Rejection sampling turned down `MAX_SAMPLING_ATTEMPTS` candidates in a row.
    RouteGenerationExhausted,
}

/// Notification that a successful operation hands to its caller.
#[derive(Clone, Copy, Debug, PartialEq, Eq, Structural)]
pub enum Event {
    /// A node joined the network.
    TransitPointCreated(NodeId),
    /// A node left the network.
    TransitPointRemoved(NodeId),
    /// The cost between two nodes was set.
    NeighbourUpdated(NodeId, NodeId),
    /// The given node created a shipment.
    ShipmentCreated(NodeId),
    /// The given node handed a shipment on.
    ShipmentUpdated(NodeId),
    /// The given node, the destination, received a shipment.
    ShipmentReceived(NodeId),
}

/// Accepts the root origin and nothing else.
pub fn ensure_root(origin: Origin) -> (r: Result<(), Error>)
    ensures
        r == (if origin is Root {
            Ok::<(), Error>(())
        } else {
            Err(Error::Unauthorized)
        }),
{
    match origin {
        Origin::Root => Ok(()),
        _ => Err(Error::Unauthorized),
    }
}

/// Accepts a signed origin and yields the node that signed.
pub fn ensure_signed(origin: Origin) -> (r: Result<NodeId, Error>)
    ensures
        r == (match origin {
            Origin::Signed(who) => Ok::<NodeId, Error>(who),
            _ => Err(Error::Unauthorized),
        }),
{
    match origin {
        Origin::Signed(who) => Ok(who),
        _ => Err(Error::Unauthorized),
    }
}

} // verus!
