//! The in-memory liquidity graph.
//!
//! Nodes are token ids, edges carry the pair's reserve snapshot. The
//! graph itself is `petgraph`'s adjacency-map graph in its undirected
//! form; this module declares it to the verifier, names its contents, and
//! wraps the handful of operations the builder and the route finder use.
//! Building the graph from persisted pair rows is verified against those
//! names.
//!
//! An edge's weight is the triple `(token0_id, reserve0, reserve1)`: the
//! two reserve amounts in token0/token1 order together with the id that
//! says which endpoint is token0, so a traversal knows which reserve is
//! on its input side.

use vstd::prelude::*;

use crate::entries::PairsStreamEntry;

verus! {

/// The liquidity graph: an undirected `petgraph` adjacency-map graph
/// whose nodes are token ids and whose edge weights are
/// `(token0_id, reserve0, reserve1)`.
pub type TokenGraph = petgraph::graphmap::GraphMap<
    i32,
    (i32, u64, u64),
    petgraph::Undirected,
    std::collections::hash_map::RandomState,
>;

#[verifier::external_type_specification]
#[verifier::external_body]
pub struct ExUndirected(petgraph::Undirected);

#[verifier::external_type_specification]
#[verifier::external_body]
#[verifier::reject_recursive_types(N)]
#[verifier::reject_recursive_types(E)]
#[verifier::reject_recursive_types(Ty)]
#[verifier::reject_recursive_types(S)]
pub struct ExGraphMap<N, E, Ty, S>(petgraph::graphmap::GraphMap<N, E, Ty, S>) where
    S: std::hash::BuildHasher;

/// The edges a graph value holds, as a map from an ordered endpoint pair
/// to the edge weight. The graph is undirected: both orientations of an
/// edge are present and carry the same weight.
pub uninterp spec fn graph_edges(g: TokenGraph) -> Map<(i32, i32), (i32, u64, u64)>;

/// The nodes a graph value holds.
pub uninterp spec fn graph_nodes(g: TokenGraph) -> Set<i32>;

/// Every graph built by this module satisfies this: edges are symmetric
/// and their endpoints are nodes of the graph.
pub open spec fn graph_wf(g: TokenGraph) -> bool {
    forall|a: i32, b: i32| #[trigger] graph_edges(g).dom().contains((a, b)) ==> {
        &&& graph_nodes(g).contains(a)
        &&& graph_nodes(g).contains(b)
        &&& graph_edges(g).dom().contains((b, a))
        &&& graph_edges(g)[(b, a)] == graph_edges(g)[(a, b)]
    }
}

/// Relies on `petgraph::graphmap::GraphMap::new`: a fresh graph has no
/// nodes and no edges.
#[verifier::external_body]
pub(crate) fn graph_new() -> (g: TokenGraph)
    ensures
        graph_edges(g) =~= Map::empty(),
        graph_nodes(g) =~= Set::empty(),
{
    petgraph::graphmap::GraphMap::new()
}

/// Relies on `petgraph::graphmap::GraphMap::add_edge` on an undirected
/// graph: it inserts both endpoints as nodes, stores the weight under the
/// endpoint pair in either orientation, and returns the previous weight
/// when the edge already existed.
#[verifier::external_body]
pub(crate) fn graph_add_edge(g: &mut TokenGraph, a: i32, b: i32, w: (i32, u64, u64)) -> (r: Option<
    (i32, u64, u64),
>)
    ensures
        graph_edges(*final(g)) == graph_edges(*old(g)).insert((a, b), w).insert((b, a), w),
        graph_nodes(*final(g)) == graph_nodes(*old(g)).insert(a).insert(b),
        r == if graph_edges(*old(g)).dom().contains((a, b)) {
            Some(graph_edges(*old(g))[(a, b)])
        } else {
            None::<(i32, u64, u64)>
        },
{
    g.add_edge(a, b, w)
}

/// Relies on `petgraph::graphmap::GraphMap::contains_node`.
#[verifier::external_body]
pub(crate) fn graph_contains_node(g: &TokenGraph, n: i32) -> (r: bool)
    ensures
        r == graph_nodes(*g).contains(n),
{
    g.contains_node(n)
}

/// Relies on `petgraph::graphmap::GraphMap::edge_weight`: the weight
/// stored between two nodes, looked up in either orientation.
#[verifier::external_body]
pub(crate) fn graph_edge_between(g: &TokenGraph, a: i32, b: i32) -> (r: Option<(i32, u64, u64)>)
    ensures
        r == if graph_edges(*g).dom().contains((a, b)) {
            Some(graph_edges(*g)[(a, b)])
        } else {
            None::<(i32, u64, u64)>
        },
{
    g.edge_weight(a, b).copied()
}

/// Relies on `petgraph::graphmap::GraphMap::nodes`: every node exactly once.
#[verifier::external_body]
pub(crate) fn graph_node_list(g: &TokenGraph) -> (r: Vec<i32>)
    ensures
        forall|n: i32| #[trigger] r@.contains(n) <==> graph_nodes(*g).contains(n),
        forall|i: int, j: int| 0 <= i < j < r@.len() ==> r@[i] != r@[j],
{
    g.nodes().collect()
}

/// What one entry handed out for node `a` must satisfy: it is an edge of
/// the graph leaving `a`, carrying the stored weight, and its far
/// endpoint is a node.
pub open spec fn neighbor_entry_ok(g: TokenGraph, a: i32, entry: (i32, (i32, u64, u64))) -> bool {
    &&& graph_edges(g).dom().contains((a, entry.0))
    &&& graph_edges(g)[(a, entry.0)] == entry.1
    &&& graph_nodes(g).contains(entry.0)
}

/// Relies on `petgraph::graphmap::GraphMap::edges`: all edges touching
/// `a`, each with its stored weight; endpoints of edges are always nodes
/// of the graph.
#[verifier::external_body]
pub(crate) fn graph_neighbor_list(g: &TokenGraph, a: i32) -> (r: Vec<(i32, (i32, u64, u64))>)
    ensures
        forall|i: int| 0 <= i < r@.len() ==> neighbor_entry_ok(*g, a, #[trigger] r@[i]),
        forall|b: i32| #[trigger] graph_edges(*g).dom().contains((a, b)) ==> r@.contains(
            (b, graph_edges(*g)[(a, b)]),
        ),
{
    g.edges(a).map(|(_, b, w)| (b, *w)).collect()
}

/// The edge map that a sequence of pair rows describes: one undirected
/// edge per row between the row's two token ids, weighted with the row's
/// reserves in token0/token1 order; a later row between the same tokens
/// replaces the weight.
pub open spec fn edges_of_rows(rows: Seq<PairsStreamEntry>) -> Map<(i32, i32), (i32, u64, u64)>
    decreases rows.len(),
{
    if rows.len() == 0 {
        Map::empty()
    } else {
        let r = rows.last();
        edges_of_rows(rows.drop_last()).insert(
            (r.token0_id, r.token1_id),
            (r.token0_id, r.reserve0, r.reserve1),
        ).insert((r.token1_id, r.token0_id), (r.token0_id, r.reserve0, r.reserve1))
    }
}

/// The node set that a sequence of pair rows describes: both token ids of
/// every row.
pub open spec fn nodes_of_rows(rows: Seq<PairsStreamEntry>) -> Set<i32>
    decreases rows.len(),
{
    if rows.len() == 0 {
        Set::empty()
    } else {
        let r = rows.last();
        nodes_of_rows(rows.drop_last()).insert(r.token0_id).insert(r.token1_id)
    }
}

/// Endpoints of the edges a row sequence describes are among its nodes,
/// and the edge map is symmetric.
proof fn lemma_rows_graph_wf(rows: Seq<PairsStreamEntry>)
    ensures
        forall|a: i32, b: i32| #[trigger] edges_of_rows(rows).dom().contains((a, b)) ==> {
            &&& nodes_of_rows(rows).contains(a)
            &&& nodes_of_rows(rows).contains(b)
            &&& edges_of_rows(rows).dom().contains((b, a))
            &&& edges_of_rows(rows)[(b, a)] == edges_of_rows(rows)[(a, b)]
        },
    decreases rows.len(),
{
    if rows.len() > 0 {
        lemma_rows_graph_wf(rows.drop_last());
        let r = rows.last();
        let prefix = edges_of_rows(rows.drop_last());
        assert forall|a: i32, b: i32| #[trigger] edges_of_rows(rows).dom().contains((a, b)) implies {
            &&& nodes_of_rows(rows).contains(a)
            &&& nodes_of_rows(rows).contains(b)
            &&& edges_of_rows(rows).dom().contains((b, a))
            &&& edges_of_rows(rows)[(b, a)] == edges_of_rows(rows)[(a, b)]
        } by {
            if (a, b) != (r.token0_id, r.token1_id) && (a, b) != (r.token1_id, r.token0_id) {
                assert(prefix.dom().contains((a, b)));
            }
        }
    }
}

/// Builds the liquidity graph from the streamed pair rows: an undirected
/// edge between the two token ids of every row, carrying the row's
/// reserve snapshot.
pub fn fill_graph(rows: &Vec<PairsStreamEntry>) -> (g: TokenGraph)
    ensures
        graph_edges(g) == edges_of_rows(rows@),
        graph_nodes(g) == nodes_of_rows(rows@),
        graph_wf(g),
{
    let mut g = graph_new();
    let mut i: usize = 0;
    while i < rows.len()
        invariant
            i <= rows.len(),
            graph_edges(g) == edges_of_rows(rows@.subrange(0, i as int)),
            graph_nodes(g) == nodes_of_rows(rows@.subrange(0, i as int)),
        decreases rows.len() - i,
    {
        let row = &rows[i];
        graph_add_edge(
            &mut g,
            row.token0_id,
            row.token1_id,
            (row.token0_id, row.reserve0, row.reserve1),
        );
        proof {
            assert(rows@.subrange(0, i + 1 as int).drop_last() =~= rows@.subrange(0, i as int));
            assert(rows@.subrange(0, i + 1 as int).last() == rows@[i as int]);
        }
        i = i + 1;
    }
    proof {
        assert(rows@.subrange(0, rows@.len() as int) =~= rows@);
        lemma_rows_graph_wf(rows@);
    }
    g
}

} // verus!
