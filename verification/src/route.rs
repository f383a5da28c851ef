//! The route finder.
//!
//! Given the liquidity graph, a start token, a goal token and an input
//! amount, the finder searches for a conversion path. It labels nodes
//! best-first in the style of a shortest-path search: the label of a node
//! is a concrete path from the start together with the amount that
//! replaying the swap formula hop by hop along that path yields, and at
//! each step the unvisited labelled node with the largest amount is
//! expanded. Because hop outputs are amount-dependent and multiplicative,
//! no additive edge weight exists in exact integer arithmetic, so the
//! greedy order is a heuristic; what is proved is that the returned path
//! really connects start to goal in the graph, that the reported amount
//! is exactly the hop-by-hop replay of the swap formula along that path,
//! and that the two errors come precisely when they are owed: an unknown
//! token when an endpoint is not a node of the graph, and no route when
//! the endpoints are not connected.

use vstd::prelude::*;

use crate::graph::{
    graph_contains_node, graph_edges, graph_neighbor_list, graph_node_list, graph_nodes, graph_wf,
    neighbor_entry_ok, TokenGraph,
};
use crate::swap::{swap_amount_out, swap_den, swap_num, swap_out};

verus! {

/// Route-finder failures: the graph is a point-in-time snapshot, so
/// neither is ever retried.
#[derive(Debug, Clone, Copy, PartialEq, Eq, Structural)]
pub enum RouteError {
    /// Start and goal are both known but not connected in the graph.
    NoRouteFound,
    /// The start or the goal token has no node in the graph.
    UnknownToken,
}

/// A found conversion path: the token ids visited in order, and the
/// amount that replaying the swap formula along the path pays out.
/// `amount_out` is `None` when a hop of the replay is undefined: its
/// numerator exceeds 128 bits, or a zero amount meets a zero input-side
/// reserve.
#[derive(Debug, Clone)]
pub struct Route {
    pub path: Vec<i32>,
    pub amount_out: Option<u64>,
}

/// The edge map of the liquidity graph: a weight is
/// `(token0_id, reserve0, reserve1)`.
pub type EdgeMap = Map<(i32, i32), (i32, u64, u64)>;

/// `p` is a walk through `edges` from `start` to `goal`.
pub open spec fn path_connects(edges: EdgeMap, p: Seq<i32>, start: i32, goal: i32) -> bool {
    &&& p.len() >= 1
    &&& p[0] == start
    &&& p.last() == goal
    &&& forall|i: int| 0 <= i < p.len() - 1 ==> edges.dom().contains((#[trigger] p[i], p[i + 1]))
}

/// Some walk through `edges` leads from `start` to `goal`.
pub open spec fn connected(edges: EdgeMap, start: i32, goal: i32) -> bool {
    exists|p: Seq<i32>| path_connects(edges, p, start, goal)
}

/// The reserves of edge weight `w` as seen from endpoint `from`:
/// (input-side reserve, output-side reserve).
pub open spec fn oriented_reserves(w: (i32, u64, u64), from: i32) -> (int, int) {
    if from == w.0 {
        (w.1 as int, w.2 as int)
    } else {
        (w.2 as int, w.1 as int)
    }
}

/// The amount one hop from `from` to `to` pays for `amount`, or `None`
/// when the formula is undefined in 128-bit arithmetic: the numerator
/// overflows, or the denominator is zero.
pub open spec fn hop_amount(edges: EdgeMap, from: i32, to: i32, amount: int) -> Option<int> {
    let w = edges[(from, to)];
    let rin = oriented_reserves(w, from).0;
    let rout = oriented_reserves(w, from).1;
    if swap_num(amount, rout) <= u128::MAX && swap_den(amount, rin) > 0 {
        Some(swap_out(amount, rin, rout))
    } else {
        None
    }
}

/// Replaying the swap formula hop by hop along `p`, starting with
/// `amount`: the exact paid-out amount, or `None` as soon as one hop is
/// undefined.
pub open spec fn replay_amount(edges: EdgeMap, p: Seq<i32>, amount: int) -> Option<int>
    decreases p.len(),
{
    if p.len() <= 1 {
        Some(amount)
    } else {
        match hop_amount(edges, p[0], p[1], amount) {
            Some(next) => replay_amount(edges, p.drop_first(), next),
            None => None,
        }
    }
}

/// An `Option<u64>` amount as the mathematical option it stands for.
pub open spec fn amount_as_int(o: Option<u64>) -> Option<int> {
    match o {
        Some(a) => Some(a as int),
        None => None,
    }
}

/// What a node label means: `p` is a walk from `start` to `node` and
/// `amt` is exactly the replay of the input amount along it.
pub open spec fn label_ok(
    edges: EdgeMap,
    start: i32,
    node: i32,
    amt: Option<u64>,
    p: Seq<i32>,
    amount_in: u64,
) -> bool {
    &&& path_connects(edges, p, start, node)
    &&& replay_amount(edges, p, amount_in as int) == amount_as_int(amt)
}

/// Node value `b` carries a label in the search state.
pub open spec fn node_reached(nodes: Seq<i32>, reached: Seq<bool>, b: i32) -> bool {
    exists|j: int| 0 <= j < nodes.len() && nodes[j] == b && reached[j]
}

/// Appending one node to a walk replays as the walk does, followed by one
/// hop over the new edge.
proof fn lemma_replay_push(edges: EdgeMap, p: Seq<i32>, b: i32, a0: int)
    requires
        p.len() >= 1,
    ensures
        replay_amount(edges, p.push(b), a0) == (match replay_amount(edges, p, a0) {
            Some(a) => hop_amount(edges, p.last(), b, a),
            None => None::<int>,
        }),
    decreases p.len(),
{
    let q = p.push(b);
    assert(q[0] == p[0]);
    if p.len() == 1 {
        assert(q[1] == b);
        assert(p.last() == p[0]);
        assert(q.drop_first() =~= seq![b]);
        match hop_amount(edges, q[0], q[1], a0) {
            Some(next) => {
                assert(replay_amount(edges, q.drop_first(), next) == Some(next));
            },
            None => {},
        }
    } else {
        assert(q[1] == p[1]);
        assert(q.drop_first() =~= p.drop_first().push(b));
        assert(p.drop_first().last() == p.last());
        match hop_amount(edges, p[0], p[1], a0) {
            Some(a1) => {
                lemma_replay_push(edges, p.drop_first(), b, a1);
                assert(replay_amount(edges, p, a0) == replay_amount(edges, p.drop_first(), a1));
            },
            None => {},
        }
    }
}

/// Extending a walk by one edge of the graph yields a walk.
proof fn lemma_connects_push(edges: EdgeMap, p: Seq<i32>, start: i32, from: i32, b: i32)
    requires
        path_connects(edges, p, start, from),
        edges.dom().contains((from, b)),
    ensures
        path_connects(edges, p.push(b), start, b),
{
    let q = p.push(b);
    assert forall|i: int| 0 <= i < q.len() - 1 implies edges.dom().contains(
        (#[trigger] q[i], q[i + 1]),
    ) by {
        if i < p.len() - 1 {
            assert(q[i] == p[i]);
            assert(q[i + 1] == p[i + 1]);
        } else {
            assert(q[i] == p.last());
            assert(q[i + 1] == b);
        }
    }
}

/// A walk out of a set that is closed under the graph's edges ends inside
/// the set.
proof fn lemma_closed_set_holds_walks(
    edges: EdgeMap,
    r_set: Set<i32>,
    p: Seq<i32>,
    start: i32,
    goal: i32,
)
    requires
        path_connects(edges, p, start, goal),
        r_set.contains(start),
        forall|a: i32, b: i32|
            r_set.contains(a) && #[trigger] edges.dom().contains((a, b)) ==> r_set.contains(b),
    ensures
        r_set.contains(goal),
    decreases p.len(),
{
    if p.len() > 1 {
        assert(edges.dom().contains((p[0], p[1])));
        let q = p.drop_first();
        assert(path_connects(edges, q, p[1], goal)) by {
            assert forall|i: int| 0 <= i < q.len() - 1 implies edges.dom().contains(
                (#[trigger] q[i], q[i + 1]),
            ) by {
                assert(q[i] == p[i + 1]);
                assert(q[i + 1] == p[i + 2]);
            }
        }
        lemma_closed_set_holds_walks(edges, r_set, q, p[1], goal);
    }
}

/// How many entries of a boolean sequence are false: the termination
/// measure of the search loop.
spec fn count_false(s: Seq<bool>) -> nat
    decreases s.len(),
{
    if s.len() == 0 {
        0
    } else {
        count_false(s.drop_last()) + if s.last() {
            0nat
        } else {
            1nat
        }
    }
}

/// Setting a false entry to true strictly lowers `count_false`.
proof fn lemma_count_false_update(s: Seq<bool>, i: int)
    requires
        0 <= i < s.len(),
        !s[i],
    ensures
        count_false(s.update(i, true)) < count_false(s),
    decreases s.len(),
{
    let t = s.update(i, true);
    if i == s.len() - 1 {
        assert(t.drop_last() =~= s.drop_last());
    } else {
        assert(t.drop_last() =~= s.drop_last().update(i, true));
        assert(t.last() == s.last());
        lemma_count_false_update(s.drop_last(), i);
    }
}

/// The index of `v` in `nodes`, scanning front to back.
fn index_of(nodes: &Vec<i32>, v: i32) -> (r: Option<usize>)
    ensures
        r matches Some(i) ==> i < nodes.len() && nodes@[i as int] == v,
        r is None ==> !nodes@.contains(v),
{
    let mut i: usize = 0;
    while i < nodes.len()
        invariant
            i <= nodes.len(),
            forall|j: int| 0 <= j < i ==> nodes@[j] != v,
        decreases nodes.len() - i,
    {
        if nodes[i] == v {
            return Some(i);
        }
        i = i + 1;
    }
    None
}

/// A copy of a path.
fn clone_path(v: &Vec<i32>) -> (r: Vec<i32>)
    ensures
        r@ == v@,
{
    let mut r: Vec<i32> = Vec::new();
    let mut i: usize = 0;
    while i < v.len()
        invariant
            i <= v.len(),
            r@ == v@.subrange(0, i as int),
        decreases v.len() - i,
    {
        r.push(v[i]);
        proof {
            assert(v@.subrange(0, i + 1 as int) =~= v@.subrange(0, i as int).push(v@[i as int]));
        }
        i = i + 1;
    }
    proof {
        assert(v@.subrange(0, v@.len() as int) =~= v@);
    }
    r
}

/// `cand` is a better label amount than `cur`: any defined amount beats
/// an undefined one, and among defined amounts the larger wins.
fn better_amount(cand: Option<u64>, cur: Option<u64>) -> (r: bool)
    ensures
        r == match (cand, cur) {
            (Some(a), Some(b)) => a > b,
            (Some(_), None) => true,
            (None, _) => false,
        },
{
    match (cand, cur) {
        (Some(a), Some(b)) => a > b,
        (Some(_), None) => true,
        (None, _) => false,
    }
}

/// Finds a conversion path from `start` to `goal` for `amount_in` input
/// units over the liquidity graph.
///
/// Fails with `UnknownToken` exactly when an endpoint is not a node of
/// the graph, and with `NoRouteFound` exactly when both endpoints are
/// known but not connected. A returned route's path really walks the
/// graph from `start` to `goal`, and its amount is exactly the
/// hop-by-hop replay of the swap formula along that path.
#[verifier::rlimit(100)]
pub fn find_route(g: &TokenGraph, start: i32, goal: i32, amount_in: u64) -> (r: Result<
    Route,
    RouteError,
>)
    requires
        graph_wf(*g),
    ensures
        r == Err::<Route, RouteError>(RouteError::UnknownToken) <==> (!graph_nodes(*g).contains(
            start,
        ) || !graph_nodes(*g).contains(goal)),
        r == Err::<Route, RouteError>(RouteError::NoRouteFound) <==> (graph_nodes(*g).contains(
            start,
        ) && graph_nodes(*g).contains(goal) && !connected(graph_edges(*g), start, goal)),
        r matches Ok(route) ==> {
            &&& path_connects(graph_edges(*g), route.path@, start, goal)
            &&& replay_amount(graph_edges(*g), route.path@, amount_in as int) == amount_as_int(
                route.amount_out,
            )
        },
{
    let ghost edges = graph_edges(*g);
    if !graph_contains_node(g, start) || !graph_contains_node(g, goal) {
        return Err(RouteError::UnknownToken);
    }
    let nodes = graph_node_list(g);
    let n = nodes.len();
    let start_idx = match index_of(&nodes, start) {
        Some(i) => i,
        None => {
            proof {
                assert(nodes@.contains(start));
            }
            unreached()
        },
    };
    let goal_idx = match index_of(&nodes, goal) {
        Some(i) => i,
        None => {
            proof {
                assert(nodes@.contains(goal));
            }
            unreached()
        },
    };

    let mut reached: Vec<bool> = Vec::new();
    let mut visited: Vec<bool> = Vec::new();
    let mut amount: Vec<Option<u64>> = Vec::new();
    let mut path: Vec<Vec<i32>> = Vec::new();
    let mut k: usize = 0;
    while k < n
        invariant
            k <= n,
            reached@.len() == k,
            visited@.len() == k,
            amount@.len() == k,
            path@.len() == k,
            forall|i: int| 0 <= i < k ==> !reached@[i] && !visited@[i],
        decreases n - k,
    {
        reached.push(false);
        visited.push(false);
        amount.push(None);
        path.push(Vec::new());
        k = k + 1;
    }

    // label the start node with the trivial walk
    let mut start_path: Vec<i32> = Vec::new();
    start_path.push(start);
    reached.set(start_idx, true);
    amount.set(start_idx, Some(amount_in));
    path.set(start_idx, start_path);
    assert(label_ok(
        edges,
        start,
        nodes@[start_idx as int],
        amount@[start_idx as int],
        path@[start_idx as int]@,
        amount_in,
    ));

    loop
        invariant
            graph_wf(*g),
            edges == graph_edges(*g),
            nodes@.len() == n,
            start_idx < n,
            goal_idx < n,
            nodes@[start_idx as int] == start,
            nodes@[goal_idx as int] == goal,
            forall|v: i32| #[trigger] nodes@.contains(v) <==> graph_nodes(*g).contains(v),
            forall|i: int, j: int| 0 <= i < j < n ==> nodes@[i] != nodes@[j],
            reached@.len() == n,
            visited@.len() == n,
            amount@.len() == n,
            path@.len() == n,
            reached@[start_idx as int],
            forall|i: int| 0 <= i < n && #[trigger] visited@[i] ==> reached@[i],
            forall|i: int|
                0 <= i < n && #[trigger] reached@[i] ==> label_ok(
                    edges,
                    start,
                    nodes@[i],
                    amount@[i],
                    path@[i]@,
                    amount_in,
                ),
            forall|i: int, b: i32|
                0 <= i < n && visited@[i] && #[trigger] edges.dom().contains((nodes@[i], b))
                    ==> node_reached(nodes@, reached@, b),
        ensures
            forall|i: int| 0 <= i < n && #[trigger] reached@[i] ==> visited@[i],
        decreases count_false(visited@),
    {
        // pick the unvisited labelled node with the largest amount
        let mut pick: Option<usize> = None;
        let mut i: usize = 0;
        while i < n
            invariant
                n == nodes@.len(),
                reached@.len() == n,
                visited@.len() == n,
                amount@.len() == n,
                i <= n,
                pick matches Some(u) ==> u < n && reached@[u as int] && !visited@[u as int],
                pick is None ==> forall|j: int| 0 <= j < i ==> !(reached@[j] && !visited@[j]),
            decreases n - i,
        {
            if reached[i] && !visited[i] {
                let take = match pick {
                    Some(u) => better_amount(amount[i], amount[u]),
                    None => true,
                };
                if take {
                    pick = Some(i);
                }
            }
            i = i + 1;
        }
        let u = match pick {
            Some(u) => u,
            None => {
                break ;
            },
        };

        proof {
            lemma_count_false_update(visited@, u as int);
        }
        visited.set(u, true);

        let from = nodes[u];
        let amount_u = amount[u];
        let path_u = clone_path(&path[u]);
        let neigh = graph_neighbor_list(g, from);
        let mut t: usize = 0;
        while t < neigh.len()
            invariant
                graph_wf(*g),
                edges == graph_edges(*g),
                nodes@.len() == n,
                start_idx < n,
                nodes@[start_idx as int] == start,
                forall|v: i32| #[trigger] nodes@.contains(v) <==> graph_nodes(*g).contains(v),
                forall|i: int, j: int| 0 <= i < j < n ==> nodes@[i] != nodes@[j],
                reached@.len() == n,
                visited@.len() == n,
                amount@.len() == n,
                path@.len() == n,
                t <= neigh.len(),
                u < n,
                from == nodes@[u as int],
                visited@[u as int],
                reached@[u as int],
                amount@[u as int] == amount_u,
                path@[u as int]@ == path_u@,
                label_ok(edges, start, from, amount_u, path_u@, amount_in),
                forall|s: int|
                    0 <= s < neigh@.len() ==> neighbor_entry_ok(*g, from, #[trigger] neigh@[s]),
                reached@[start_idx as int],
                forall|i: int| 0 <= i < n && #[trigger] visited@[i] ==> reached@[i],
                forall|i: int|
                    0 <= i < n && #[trigger] reached@[i] ==> label_ok(
                        edges,
                        start,
                        nodes@[i],
                        amount@[i],
                        path@[i]@,
                        amount_in,
                    ),
                forall|i: int, b: i32|
                    0 <= i < n && visited@[i] && i != u as int && #[trigger] edges.dom().contains(
                        (nodes@[i], b),
                    ) ==> node_reached(nodes@, reached@, b),
                forall|s: int|
                    0 <= s < t ==> node_reached(nodes@, reached@, #[trigger] neigh@[s].0),
            decreases neigh.len() - t,
        {
            let (b, w) = neigh[t];
            proof {
                assert(neighbor_entry_ok(*g, from, neigh@[t as int]));
            }
            let b_idx = match index_of(&nodes, b) {
                Some(j) => j,
                None => {
                    proof {
                        assert(nodes@.contains(b));
                    }
                    unreached()
                },
            };
            let hop: Option<u64> = match amount_u {
                Some(a) => {
                    let rin = if from == w.0 {
                        w.1
                    } else {
                        w.2
                    };
                    let rout = if from == w.0 {
                        w.2
                    } else {
                        w.1
                    };
                    swap_amount_out(a, rin, rout)
                },
                None => None,
            };
            proof {
                assert(w == edges[(from, b)]);
                lemma_replay_push(edges, path_u@, b, amount_in as int);
                lemma_connects_push(edges, path_u@, start, from, b);
                assert(replay_amount(edges, path_u@.push(b), amount_in as int) == amount_as_int(
                    hop,
                ));
            }
            if !reached[b_idx] {
                let mut new_path = clone_path(&path_u);
                new_path.push(b);
                reached.set(b_idx, true);
                amount.set(b_idx, hop);
                path.set(b_idx, new_path);
                assert(label_ok(
                    edges,
                    start,
                    nodes@[b_idx as int],
                    amount@[b_idx as int],
                    path@[b_idx as int]@,
                    amount_in,
                ));
            } else if !visited[b_idx] {
                if better_amount(hop, amount[b_idx]) {
                    let mut new_path = clone_path(&path_u);
                    new_path.push(b);
                    amount.set(b_idx, hop);
                    path.set(b_idx, new_path);
                    assert(label_ok(
                        edges,
                        start,
                        nodes@[b_idx as int],
                        amount@[b_idx as int],
                        path@[b_idx as int]@,
                        amount_in,
                    ));
                }
            }
            proof {
                assert(node_reached(nodes@, reached@, b)) by {
                    assert(nodes@[b_idx as int] == b && reached@[b_idx as int]);
                }
            }
            t = t + 1;
        }
        proof {
            // after relaxing every listed neighbor, u's edges all lead to
            // labelled nodes
            assert forall|b: i32| #[trigger] edges.dom().contains((from, b)) implies node_reached(
                nodes@,
                reached@,
                b,
            ) by {
                assert(neigh@.contains((b, edges[(from, b)])));
                let s = choose|s: int| 0 <= s < neigh@.len() && neigh@[s] == (b, edges[(from, b)]);
                assert(node_reached(nodes@, reached@, neigh@[s].0));
            }
        }
    }

    if reached[goal_idx] {
        let out_path = clone_path(&path[goal_idx]);
        let out_amount = amount[goal_idx];
        proof {
            assert(path_connects(edges, path@[goal_idx as int]@, start, goal));
            assert(connected(edges, start, goal));
        }
        Ok(Route { path: out_path, amount_out: out_amount })
    } else {
        proof {
            // the labelled node values form a set closed under the edges;
            // a walk from start would have to end inside it
            let r_set = Set::new(|v: i32| node_reached(nodes@, reached@, v));
            assert(r_set.contains(start)) by {
                assert(nodes@[start_idx as int] == start && reached@[start_idx as int]);
            }
            assert forall|a: i32, b: i32|
                r_set.contains(a) && #[trigger] edges.dom().contains(
                    (a, b),
                ) implies r_set.contains(b) by {
                let j = choose|j: int| 0 <= j < nodes@.len() && nodes@[j] == a && reached@[j];
                assert(visited@[j]);
                assert(node_reached(nodes@, reached@, b));
            }
            if connected(edges, start, goal) {
                let p = choose|p: Seq<i32>| path_connects(edges, p, start, goal);
                lemma_closed_set_holds_walks(edges, r_set, p, start, goal);
                let j = choose|j: int| 0 <= j < nodes@.len() && nodes@[j] == goal && reached@[j];
                assert(j == goal_idx as int);
            }
        }
        Err(RouteError::NoRouteFound)
    }
}

} // verus!
