//! Transit-network topology, randomized route construction and the
//! chain-of-custody protocol for shipments.
//!
//! * `topology`: the registered transit nodes and the costs between them.
//! * `route`: the construction of a route from a stream of draws.
//! * `registry`: the shipment records, their custody tokens and the hops.
//! * `pallet`: the three of them behind the operations that callers
//!   dispatch, with the draws and tokens taken from the hosting runtime.
//! * `laws`: what holds of these operations, proved.
//! * `encoding`, `bounded`: the calls into the codec, the hashing and the
//!   bounded-vector crates.
//!
//! Beside the tracker stand three smaller pieces of a runtime:
//! `construct_runtime` converts the pallet declarations of a runtime into
//! their final, indexed form, `balances` is a ledger of balances and `sudo`
//! the keeper of the sudo key.

pub mod balances;
pub mod bounded;
pub mod construct_runtime;
pub mod encoding;
pub mod laws;
pub mod pallet;
pub mod registry;
pub mod route;
pub mod sudo;
pub mod topology;
pub mod types;

pub use types::{
    ensure_root, ensure_signed, Balance, BlockNumber, Error, Event, Key, NodeId, Origin, Seed,
    ShipmentStatus, MAX_ROUTE_LEN, MAX_SAMPLING_ATTEMPTS,
};
pub use pallet::{Config, Pallet};
pub use registry::{Hop, Shipment};
pub use route::{Plan, Sampling};
