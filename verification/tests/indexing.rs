use amm_core::fetcher::{
    fetch_insert_tokens, process_pair, process_pair_with_retries, resolve_plan,
    token_info_or_sentinel, ChainReadError, FetchPlan, PairFetch, PairInfo, PairObservation, Task,
    TokenInfo, TokenMetadata, MAX_ATTEMPTS,
};
use amm_core::find::find;
use amm_core::pool::{run_index, BoundedQueue};
use amm_core::entries::PairEntry;
use amm_core::route::RouteError;
use amm_core::store::{PairsProvider, Store, StoreError};

fn observation(pair_num: u64, token0: &str, token1: &str, r0: u64, r1: u64) -> PairObservation {
    PairObservation {
        pair_address: format!("0xpair{}", pair_num),
        info: PairInfo {
            token0: token0.to_string(),
            token1: token1.to_string(),
            reserve0: r0,
            reserve1: r1,
        },
        meta0: TokenMetadata::Fetched(TokenInfo {
            name: format!("name of {}", token0),
            symbol: format!("sym {}", token0),
            decimals: 18,
        }),
        meta1: TokenMetadata::Fetched(TokenInfo {
            name: format!("name of {}", token1),
            symbol: format!("sym {}", token1),
            decimals: 6,
        }),
    }
}

fn always(obs: PairObservation) -> Vec<PairFetch> {
    vec![
        PairFetch::Data(obs.clone()),
        PairFetch::Data(obs.clone()),
        PairFetch::Data(obs),
    ]
}

fn never() -> Vec<PairFetch> {
    vec![
        PairFetch::Failed(ChainReadError::NodeUnreachable),
        PairFetch::Failed(ChainReadError::NodeUnreachable),
        PairFetch::Failed(ChainReadError::NodeUnreachable),
    ]
}

#[test]
fn resolver_four_cases() {
    assert_eq!(resolve_plan(Some(7), Some(9)), FetchPlan::UseExisting(7, 9));
    assert_eq!(resolve_plan(None, Some(9)), FetchPlan::FetchFirst(9));
    assert_eq!(resolve_plan(Some(7), None), FetchPlan::FetchSecond(7));
    assert_eq!(resolve_plan(None, None), FetchPlan::FetchBoth);
}

#[test]
fn sentinel_metadata_defaults() {
    let info = token_info_or_sentinel(TokenMetadata::Sentinel);
    assert_eq!(info.name, "unknown");
    assert_eq!(info.symbol, "unknown");
    assert_eq!(info.decimals, 18);
    let fetched = token_info_or_sentinel(TokenMetadata::Fetched(TokenInfo {
        name: "Wrapped Ether".to_string(),
        symbol: "WETH".to_string(),
        decimals: 18,
    }));
    assert_eq!(fetched.name, "Wrapped Ether");
    assert_eq!(fetched.symbol, "WETH");
}

#[test]
fn upserts_converge() {
    let mut store = Store::new();
    let f1 = store.insert_factory("0xfactory".to_string());
    let f2 = store.insert_factory("0xfactory".to_string());
    assert_eq!(f1, f2);
    assert_eq!(store.factories.len(), 1);
    let t1 = store.insert_token("0xaaa".to_string(), "A".to_string(), "A".to_string(), 18);
    let t2 = store.insert_token("0xaaa".to_string(), "other".to_string(), "other".to_string(), 6);
    assert_eq!(t1, t2);
    assert_eq!(store.tokens.len(), 1);
    // the first write wins: the upsert leaves the existing row untouched
    assert_eq!(store.tokens[0].name, "A");
    let (a, b) = store.check_tokens_exist(&"0xaaa".to_string(), &"0xzzz".to_string());
    assert_eq!(a, Some(t1));
    assert_eq!(b, None);
}

#[test]
fn both_missing_tokens_are_fetched_together() {
    let mut store = Store::new();
    // the resolver's "both missing" decision commits the shell to one
    // concurrent batch; here both upserts happen, in token order
    let (id0, id1) = fetch_insert_tokens(
        &mut store,
        "0xaaa".to_string(),
        "0xbbb".to_string(),
        TokenMetadata::Fetched(TokenInfo {
            name: "A".to_string(),
            symbol: "A".to_string(),
            decimals: 18,
        }),
        TokenMetadata::Sentinel,
    );
    assert_eq!((id0, id1), (1, 2));
    assert_eq!(store.tokens.len(), 2);
    assert_eq!(store.tokens[1].name, "unknown");
    assert_eq!(store.tokens[1].decimals, 18);
}

#[test]
fn pair_with_identical_tokens_converges() {
    let mut store = Store::new();
    let (id0, id1) = fetch_insert_tokens(
        &mut store,
        "0xsame".to_string(),
        "0xsame".to_string(),
        TokenMetadata::Sentinel,
        TokenMetadata::Sentinel,
    );
    assert_eq!(id0, id1);
    assert_eq!(store.tokens.len(), 1);
}

#[test]
fn process_pair_failure_leaves_store_untouched() {
    let mut store = Store::new();
    let block_id = store.insert_block(100, "0xblock".to_string());
    let factory_id = store.insert_factory("0xfactory".to_string());
    let task = Task { factory_id, block_id, pair_num: 0 };
    let r = process_pair(&mut store, task, &PairFetch::Failed(ChainReadError::CallReverted));
    assert_eq!(r, Err(ChainReadError::CallReverted));
    assert_eq!(store.pairs.len(), 0);
    assert_eq!(store.tokens.len(), 0);
    assert_eq!(store.reserves.len(), 0);
}

#[test]
fn retries_stop_after_three_attempts() {
    let mut store = Store::new();
    let block_id = store.insert_block(100, "0xblock".to_string());
    let factory_id = store.insert_factory("0xfactory".to_string());
    let task = Task { factory_id, block_id, pair_num: 0 };
    let (result, attempts) = process_pair_with_retries(&mut store, task, &never());
    assert!(result.is_err());
    assert_eq!(attempts, MAX_ATTEMPTS);
    assert_eq!(store.pairs.len(), 0);
}

#[test]
fn retry_succeeds_on_second_attempt() {
    let mut store = Store::new();
    let block_id = store.insert_block(100, "0xblock".to_string());
    let factory_id = store.insert_factory("0xfactory".to_string());
    let task = Task { factory_id, block_id, pair_num: 0 };
    let attempts_in = vec![
        PairFetch::Failed(ChainReadError::NodeUnreachable),
        PairFetch::Data(observation(0, "0xaaa", "0xbbb", 1000, 1000)),
        PairFetch::Failed(ChainReadError::NodeUnreachable),
    ];
    let (result, attempts) = process_pair_with_retries(&mut store, task, &attempts_in);
    assert!(result.is_ok());
    assert_eq!(attempts, 2);
    assert_eq!(store.pairs.len(), 1);
    assert_eq!(store.reserves.len(), 1);
}

#[test]
fn failing_pair_is_skipped_and_the_run_continues() {
    // chain calls fail for pair 0 on every attempt; pairs 1 and 2 are fine
    let mut store = Store::new();
    let outcomes = vec![
        never(),
        always(observation(1, "0xaaa", "0xbbb", 1000, 1000)),
        always(observation(2, "0xbbb", "0xccc", 1000, 500)),
    ];
    let report = run_index(
        &mut store,
        "0xfactory".to_string(),
        100,
        "0xblock".to_string(),
        3,
        1,
        &outcomes,
    );
    assert_eq!(report.first_pair, 0);
    assert_eq!(report.skipped, 1);
    assert_eq!(report.completed, 2);
    assert_eq!(store.pairs.len(), 2);
    let numbers: Vec<i32> = store.pairs.iter().map(|p| p.number).collect();
    assert_eq!(numbers, vec![1, 2]);
}

#[test]
fn run_persists_only_the_observed_range() {
    let mut store = Store::new();
    let outcomes = vec![
        always(observation(0, "0xaaa", "0xbbb", 1000, 1000)),
        always(observation(1, "0xbbb", "0xccc", 1000, 500)),
    ];
    let report = run_index(
        &mut store,
        "0xfactory".to_string(),
        100,
        "0xblock".to_string(),
        2,
        4,
        &outcomes,
    );
    assert_eq!(report.completed, 2);
    assert_eq!(store.pairs.len(), 2);
    // resumed run against a grown chain: only ordinals 2 and 3 are new
    let outcomes = vec![
        always(observation(0, "0xaaa", "0xbbb", 1000, 1000)),
        always(observation(1, "0xbbb", "0xccc", 1000, 500)),
        always(observation(2, "0xccc", "0xddd", 10, 10)),
        always(observation(3, "0xddd", "0xaaa", 20, 20)),
    ];
    let report = run_index(
        &mut store,
        "0xfactory".to_string(),
        101,
        "0xblock2".to_string(),
        4,
        2,
        &outcomes,
    );
    assert_eq!(report.first_pair, 2);
    assert_eq!(report.completed, 2);
    assert_eq!(store.pairs.len(), 4);
    for p in &store.pairs {
        assert!(p.number >= 0 && p.number < 4);
    }
    assert_eq!(store.pairs[2].number, 2);
    assert_eq!(store.pairs[3].number, 3);
}

#[test]
fn rerunning_an_unchanged_chain_inserts_no_duplicates() {
    let mut store = Store::new();
    let outcomes = vec![
        always(observation(0, "0xaaa", "0xbbb", 1000, 1000)),
        always(observation(1, "0xbbb", "0xccc", 1000, 500)),
    ];
    run_index(&mut store, "0xfactory".to_string(), 100, "0xb1".to_string(), 2, 1, &outcomes);
    let pairs_before = store.pairs.len();
    let tokens_before = store.tokens.len();
    let factories_before = store.factories.len();
    let reserves_before = store.reserves.len();
    let report = run_index(
        &mut store,
        "0xfactory".to_string(),
        100,
        "0xb1-again".to_string(),
        2,
        1,
        &outcomes,
    );
    assert_eq!(report.first_pair, 2);
    assert_eq!(report.completed, 0);
    assert_eq!(report.skipped, 0);
    assert_eq!(store.pairs.len(), pairs_before);
    assert_eq!(store.tokens.len(), tokens_before);
    assert_eq!(store.factories.len(), factories_before);
    assert_eq!(store.reserves.len(), reserves_before);
    // only the run's block row is new
    assert_eq!(store.blocks.len(), 2);
}

#[test]
fn empty_range_completes_immediately() {
    let mut store = Store::new();
    let outcomes: Vec<Vec<PairFetch>> = vec![];
    let report = run_index(
        &mut store,
        "0xfactory".to_string(),
        100,
        "0xblock".to_string(),
        0,
        3,
        &outcomes,
    );
    assert_eq!(report.completed, 0);
    assert_eq!(report.skipped, 0);
    assert_eq!(store.pairs.len(), 0);
}

#[test]
fn shared_token_across_pairs_is_stored_once() {
    let mut store = Store::new();
    let outcomes = vec![
        always(observation(0, "0xaaa", "0xbbb", 1000, 1000)),
        always(observation(1, "0xbbb", "0xccc", 1000, 500)),
    ];
    run_index(&mut store, "0xfactory".to_string(), 100, "0xb1".to_string(), 2, 1, &outcomes);
    assert_eq!(store.tokens.len(), 3);
}

#[test]
fn queue_is_fifo_and_bounded() {
    let t = |n: u64| Task { factory_id: 1, block_id: 1, pair_num: n };
    let mut q = BoundedQueue::new(2);
    assert!(q.try_push(t(0)));
    assert!(q.try_push(t(1)));
    assert!(!q.try_push(t(2)));
    assert_eq!(q.pop().unwrap().pair_num, 0);
    assert!(q.try_push(t(2)));
    assert_eq!(q.pop().unwrap().pair_num, 1);
    assert_eq!(q.pop().unwrap().pair_num, 2);
    assert!(q.pop().is_none());
}

#[test]
fn find_route_from_persisted_reserves() {
    let mut store = Store::new();
    let outcomes = vec![
        always(observation(0, "0xaaa", "0xbbb", 1000, 1000)),
        always(observation(1, "0xbbb", "0xccc", 1000, 500)),
    ];
    run_index(&mut store, "0xfactory".to_string(), 100, "0xb1".to_string(), 2, 1, &outcomes);
    let route = find(&store, &"0xaaa".to_string(), &"0xccc".to_string(), 10).unwrap();
    assert_eq!(route.path.len(), 3);
    assert_eq!(route.amount_out, Some(4));
    let err = find(&store, &"0xaaa".to_string(), &"0xnope".to_string(), 10).unwrap_err();
    assert_eq!(err, RouteError::UnknownToken);
}

#[test]
fn stream_rows_use_the_latest_block_only() {
    let mut store = Store::new();
    let outcomes = vec![always(observation(0, "0xaaa", "0xbbb", 1000, 1000))];
    run_index(&mut store, "0xfactory".to_string(), 100, "0xb1".to_string(), 1, 1, &outcomes);
    assert_eq!(store.pairs_stream().len(), 1);
    // a new run against a grown chain writes a new block; the old pair has
    // no snapshot at it and drops out of the stream
    let outcomes = vec![
        never(),
        always(observation(1, "0xbbb", "0xccc", 500, 500)),
    ];
    run_index(&mut store, "0xfactory".to_string(), 101, "0xb2".to_string(), 2, 1, &outcomes);
    let rows = store.pairs_stream();
    assert_eq!(rows.len(), 1);
    assert_eq!(rows[0].pair_id, 2);
    assert_eq!(rows[0].reserve0, 500);
}

#[test]
fn pairs_provider_detects_integrity_violations() {
    let mut store = Store::new();
    store.insert_factory("0xfactory".to_string());
    store.insert_token("0xaaa".to_string(), "A".to_string(), "A".to_string(), 18);
    store.insert_token("0xbbb".to_string(), "B".to_string(), "B".to_string(), 18);
    let row = PairEntry {
        id: 0,
        factory: 1,
        address: "0xpair".to_string(),
        number: 0,
        token0: 1,
        token1: 2,
    };
    let stored = store.insert_pair_row(row.clone()).unwrap();
    assert_eq!(stored.id, 1);
    assert_eq!(store.pair_by_id(1).unwrap().unwrap().address, "0xpair");
    assert!(store.pair_by_id(99).unwrap().is_none());
    // the same ordinal again: the constraint fires instead of duplicating
    assert_eq!(store.insert_pair_row(row).unwrap_err(), StoreError::Integrity);
    // a dangling token reference is refused too
    let bad = PairEntry {
        id: 0,
        factory: 1,
        address: "0xother".to_string(),
        number: 1,
        token0: 9,
        token1: 2,
    };
    assert_eq!(store.insert_pair_row(bad).unwrap_err(), StoreError::Integrity);
}

#[test]
fn every_chain_error_is_retried_and_surfaced() {
    let mut store = Store::new();
    let block_id = store.insert_block(100, "0xblock".to_string());
    let factory_id = store.insert_factory("0xfactory".to_string());
    let task = Task { factory_id, block_id, pair_num: 0 };
    for err in [
        ChainReadError::NodeUnreachable,
        ChainReadError::AddressUnresolved,
        ChainReadError::CallReverted,
    ] {
        let attempts = vec![
            PairFetch::Failed(err),
            PairFetch::Failed(err),
            PairFetch::Failed(err),
        ];
        let (result, used) = process_pair_with_retries(&mut store, task, &attempts);
        assert_eq!(result, Err(err));
        assert_eq!(used, MAX_ATTEMPTS);
    }
    assert_eq!(store.pairs.len(), 0);
}
