//! The bounded vector that holds a route.
//!
//! The vector is the one of the runtime support crate; this file declares it
//! to the verifier, names what it holds, and wraps the three operations that
//! the library needs. Their contracts are taken on trust from the crate's
//! source.

use crate::types::{NodeId, MAX_ROUTE_LEN};
use frame_support::traits::ConstU32;
use frame_support::BoundedVec;
use vstd::prelude::*;

verus! {

/// `frame_support::BoundedVec`, a vector whose length a type-level bound
/// limits. Nothing is assumed of its inside.
#[verifier::external_type_specification]
#[verifier::external_body]
#[verifier::reject_recursive_types(T)]
#[verifier::reject_recursive_types(S)]
pub struct ExBoundedVec<T, S>(BoundedVec<T, S>);

/// `frame_support::traits::ConstU32`, a number as a type.
#[verifier::external_type_specification]
#[verifier::external_body]
pub struct ExConstU32<const T: u32>(ConstU32<T>);

/// A route: at most `MAX_ROUTE_LEN` nodes.
pub type Route = BoundedVec<NodeId, ConstU32<MAX_ROUTE_LEN>>;

/// The nodes that a route holds, in order.
pub uninterp spec fn route_nodes(route: Route) -> Seq<NodeId>;

/// `BoundedVec::try_from` on a `Vec`. Trusted: a vector no longer than the
/// bound becomes a bounded vector with the same items; a longer one comes
/// back as it was.
#[verifier::external_body]
pub(crate) fn bounded(nodes: Vec<NodeId>) -> (r: Result<Route, Vec<NodeId>>)
    ensures
        r is Ok <==> nodes@.len() <= MAX_ROUTE_LEN,
        r matches Ok(route) ==> route_nodes(route) == nodes@,
        r matches Err(rest) ==> rest@ == nodes@,
{
    Route::try_from(nodes)
}

/// `BoundedVec::deref`. Trusted: the vector behind the reference holds the
/// route's nodes.
#[verifier::external_body]
pub(crate) fn as_vec(route: &Route) -> (nodes: &Vec<NodeId>)
    ensures
        nodes@ == route_nodes(*route),
{
    &**route
}

/// `BoundedVec::clone`. Trusted: the clone holds the same nodes.
#[verifier::external_body]
pub(crate) fn clone_route(route: &Route) -> (copy: Route)
    ensures
        route_nodes(copy) == route_nodes(*route),
{
    route.clone()
}

} // verus!
