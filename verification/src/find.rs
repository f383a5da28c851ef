//! The route-finding action: from persisted reserves to a conversion
//! path.
//!
//! This is the read path end to end: stream the pairs of the first
//! factory with their reserve snapshots at the latest block, build the
//! liquidity graph, resolve the two token addresses to ids, and search
//! for the best path for the given input amount.

use vstd::prelude::*;

use crate::graph::{edges_of_rows, fill_graph, nodes_of_rows};
use crate::route::{
    amount_as_int, connected, find_route, path_connects, replay_amount, Route, RouteError,
};
use crate::store::Store;

verus! {

/// Finds a conversion path from the token at address `from` to the token
/// at address `to` for `value` input units, over the reserves persisted
/// for the first factory at the latest recorded block.
///
/// Fails with `UnknownToken` when either address has no token row or its
/// token has no pair in the snapshot, and with `NoRouteFound` when both
/// tokens are in the graph but not connected.
pub fn find(store: &Store, from: &String, to: &String, value: u64) -> (r: Result<
    Route,
    RouteError,
>)
    requires
        store.wf(),
    ensures
        (store.token_id_of(from@) is None || store.token_id_of(to@) is None) ==> r == Err::<
            Route,
            RouteError,
        >(RouteError::UnknownToken),
        (match (store.token_id_of(from@), store.token_id_of(to@)) {
            (Some(a), Some(b)) => {
                let rows = store.stream_rows(store.pairs@.len() as int);
                let edges = edges_of_rows(rows);
                let nodes = nodes_of_rows(rows);
                &&& (r == Err::<Route, RouteError>(RouteError::UnknownToken) <==> (!nodes.contains(
                    a,
                ) || !nodes.contains(b)))
                &&& (r == Err::<Route, RouteError>(RouteError::NoRouteFound) <==> (nodes.contains(a)
                    && nodes.contains(b) && !connected(edges, a, b)))
                &&& (r matches Ok(route) ==> path_connects(edges, route.path@, a, b)
                    && replay_amount(edges, route.path@, value as int) == amount_as_int(
                    route.amount_out,
                ))
            },
            _ => true,
        }),
{
    let from_token = match store.token_by_address(from) {
        Some(t) => t,
        None => {
            return Err(RouteError::UnknownToken);
        },
    };
    let to_token = match store.token_by_address(to) {
        Some(t) => t,
        None => {
            return Err(RouteError::UnknownToken);
        },
    };
    let rows = store.pairs_stream();
    let graph = fill_graph(&rows);
    find_route(&graph, from_token.id, to_token.id, value)
}

} // verus!
