use amm_core::entries::PairsStreamEntry;
use amm_core::graph::fill_graph;
use amm_core::route::{find_route, RouteError};
use amm_core::swap::{swap_amount_out, swap_fraction};

fn row(pair_id: i32, t0: i32, t1: i32, r0: u64, r1: u64) -> PairsStreamEntry {
    PairsStreamEntry {
        pair_id,
        token0_id: t0,
        token0_short_address: format!("0xtoken{}", t0),
        token1_id: t1,
        token1_short_address: format!("0xtoken{}", t1),
        reserve0: r0,
        reserve1: r1,
    }
}

#[test]
fn swap_formula_exact_fraction() {
    // reserveIn=1000, reserveOut=1000, amountIn=10:
    // 10*1000*997 / (1000*1000 + 10*997) = 9970000 / 1009970
    let f = swap_fraction(10, 1000, 1000).unwrap();
    assert_eq!(f.numerator, 9_970_000);
    assert_eq!(f.denominator, 1_009_970);
    assert_eq!(swap_amount_out(10, 1000, 1000), Some(9));
}

#[test]
fn swap_formula_zero_input() {
    let f = swap_fraction(0, 1000, 500).unwrap();
    assert_eq!(f.numerator, 0);
    assert_eq!(f.denominator, 1_000_000);
    assert_eq!(swap_amount_out(0, 1000, 500), Some(0));
}

#[test]
fn swap_formula_empty_pair_is_undefined() {
    // zero input meeting a zero input-side reserve: denominator zero
    assert_eq!(swap_amount_out(0, 0, 500), None);
}

#[test]
fn swap_formula_numerator_overflow_is_reported() {
    assert_eq!(swap_amount_out(u64::MAX, 1, u64::MAX), None);
}

#[test]
fn swap_output_never_exceeds_reserve_out() {
    for amount in [1u64, 10, 1_000, 1_000_000, 4_000_000_000] {
        let out = swap_amount_out(amount, 3, 7).unwrap();
        assert!(out <= 7);
    }
}

#[test]
fn route_three_nodes() {
    // A–B with reserves 1000/1000 and B–C with reserves 1000/500
    let rows = vec![row(1, 1, 2, 1000, 1000), row(2, 2, 3, 1000, 500)];
    let g = fill_graph(&rows);
    let route = find_route(&g, 1, 3, 10).unwrap();
    assert_eq!(route.path, vec![1, 2, 3]);
    // replay: 10 -> 9 over A–B, then 9 -> 4 over B–C
    assert_eq!(route.amount_out, Some(4));
}

#[test]
fn route_respects_orientation() {
    // traversing C -> B uses reserve1=500 as the input side
    let rows = vec![row(1, 2, 3, 1000, 500)];
    let g = fill_graph(&rows);
    let forward = find_route(&g, 2, 3, 10).unwrap();
    let backward = find_route(&g, 3, 2, 10).unwrap();
    // forward: (10*500*997)/(1000*1000 + 10*997) = 4985000/1009970 = 4
    assert_eq!(forward.amount_out, Some(4));
    // backward: (10*1000*997)/(500*1000 + 10*997) = 9970000/509970 = 19
    assert_eq!(backward.amount_out, Some(19));
}

#[test]
fn route_disconnected_components() {
    let rows = vec![row(1, 1, 2, 1000, 1000), row(2, 3, 4, 1000, 500)];
    let g = fill_graph(&rows);
    let err = find_route(&g, 1, 4, 10).unwrap_err();
    assert_eq!(err, RouteError::NoRouteFound);
}

#[test]
fn route_unknown_token() {
    let rows = vec![row(1, 1, 2, 1000, 1000)];
    let g = fill_graph(&rows);
    assert_eq!(find_route(&g, 1, 99, 10).unwrap_err(), RouteError::UnknownToken);
    assert_eq!(find_route(&g, 99, 1, 10).unwrap_err(), RouteError::UnknownToken);
}

#[test]
fn route_single_node_to_itself() {
    let rows = vec![row(1, 1, 2, 1000, 1000)];
    let g = fill_graph(&rows);
    let route = find_route(&g, 1, 1, 42).unwrap();
    assert_eq!(route.path, vec![1]);
    assert_eq!(route.amount_out, Some(42));
}

#[test]
fn route_prefers_defined_amounts() {
    // two routes from 1 to 4: through 2 (healthy reserves) and through 3
    // (a pair the replay cannot price); the search must still reach 4
    let rows = vec![
        row(1, 1, 2, 1000, 1000),
        row(2, 2, 4, 1000, 1000),
        row(3, 1, 3, 1000, 0),
        row(4, 3, 4, 0, 0),
    ];
    let g = fill_graph(&rows);
    let route = find_route(&g, 1, 4, 10).unwrap();
    assert!(route.amount_out.is_some());
    assert_eq!(route.path, vec![1, 2, 4]);
}

#[test]
fn later_row_updates_edge_reserves() {
    // a second row between the same tokens replaces the snapshot
    let rows = vec![row(1, 1, 2, 1000, 1000), row(1, 1, 2, 2000, 2000)];
    let g = fill_graph(&rows);
    let route = find_route(&g, 1, 2, 10).unwrap();
    // (10*2000*997)/(2000*1000 + 10*997) = 19940000/2009970 = 9
    assert_eq!(route.amount_out, Some(9));
}
