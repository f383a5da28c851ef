//! Per-pair processing: what one worker does with one task.
//!
//! The chain reader hands back, for a pair ordinal, the pair's address,
//! its two token addresses and its reserve snapshot, and for a token the
//! metadata triple; both arrive here as plain values, fetched by the
//! unverified shell in one batched round trip each. This module holds the
//! decisions and the writes: which token fetches a task needs (none, one,
//! or both at once), the sentinel fallback for a failed metadata fetch,
//! the transactional per-pair write, and the bounded retry that skips a
//! pair after three failed attempts rather than stalling the run.

use vstd::prelude::*;

use crate::store::{first_index_matching, Store};

verus! {

/// The bound on attempts per task: a pair is abandoned after this many
/// failures.
pub const MAX_ATTEMPTS: usize = 3;

/// A read-only call against the chain node failed; transient, retried at
/// the worker level.
#[derive(Debug, Clone, Copy, PartialEq, Eq, Structural)]
pub enum ChainReadError {
    /// The node did not answer.
    NodeUnreachable,
    /// The pair ordinal did not resolve to an address.
    AddressUnresolved,
    /// The batched call reverted.
    CallReverted,
}

/// One unit of work: index the pair with ordinal `pair_num` for the
/// factory row `factory_id`, stamping its reserves with `block_id`.
#[derive(Debug, Clone, Copy, PartialEq, Eq, Structural)]
pub struct Task {
    pub factory_id: i32,
    pub block_id: i32,
    pub pair_num: u64,
}

/// An ERC20 token's metadata triple.
#[derive(Debug, Clone)]
pub struct TokenInfo {
    /// The name of the token.
    pub name: String,
    /// The symbol of the token.
    pub symbol: String,
    /// The number of decimals of the token.
    pub decimals: u8,
}

impl TokenInfo {
    pub fn new(name: String, symbol: String, decimals: u8) -> (r: TokenInfo)
        ensures
            r.name == name,
            r.symbol == symbol,
            r.decimals == decimals,
    {
        TokenInfo { name, symbol, decimals }
    }
}

/// What a metadata fetch produced: the fetched triple, or the explicit
/// marker that the call failed or answered unparseably. Keeping the
/// marker distinct from a fetched triple lets a caller — and a test —
/// tell "fetched a token that calls itself unknown" from "fetch failed
/// and defaulted".
#[derive(Debug, Clone)]
pub enum TokenMetadata {
    Fetched(TokenInfo),
    Sentinel,
}

/// The values persisted for a fetch outcome: the fetched triple as it
/// came, or the sentinel `"unknown"/"unknown"/18`. A failed fetch is not
/// fatal to the pair.
pub fn token_info_or_sentinel(meta: TokenMetadata) -> (r: TokenInfo)
    ensures
        meta matches TokenMetadata::Fetched(info) ==> r == info,
        meta is Sentinel ==> r.name@ == "unknown"@ && r.symbol@ == "unknown"@ && r.decimals == 18,
{
    match meta {
        TokenMetadata::Fetched(info) => info,
        TokenMetadata::Sentinel => TokenInfo {
            name: String::from_str("unknown"),
            symbol: String::from_str("unknown"),
            decimals: 18,
        },
    }
}

/// What one batched call against a pair contract reads: both token
/// addresses and the current reserves, in token0/token1 order.
#[derive(Debug, Clone)]
pub struct PairInfo {
    pub token0: String,
    pub token1: String,
    pub reserve0: u64,
    pub reserve1: u64,
}

impl PairInfo {
    pub fn new(token0: String, token1: String, reserve0: u64, reserve1: u64) -> (r: PairInfo)
        ensures
            r.token0 == token0,
            r.token1 == token1,
            r.reserve0 == reserve0,
            r.reserve1 == reserve1,
    {
        PairInfo { token0, token1, reserve0, reserve1 }
    }
}

/// Everything the chain reader hands a worker for one task: the resolved
/// pair address, the batched pair read, and the metadata that a fetch of
/// either token would return during this run.
#[derive(Debug, Clone)]
pub struct PairObservation {
    pub pair_address: String,
    pub info: PairInfo,
    pub meta0: TokenMetadata,
    pub meta1: TokenMetadata,
}

/// One attempt's outcome at the chain boundary: the observation, or the
/// failure the worker may retry.
#[derive(Debug, Clone)]
pub enum PairFetch {
    Data(PairObservation),
    Failed(ChainReadError),
}

/// Which metadata fetches resolving a token pair needs, given which of
/// the two addresses already have rows.
#[derive(Debug, Clone, Copy, PartialEq, Eq, Structural)]
pub enum FetchPlan {
    /// Both exist: use the ids, no chain calls.
    UseExisting(i32, i32),
    /// Only the first is missing: one batched call for it; the value is
    /// the existing second id.
    FetchFirst(i32),
    /// Only the second is missing: one batched call for it; the value is
    /// the existing first id.
    FetchSecond(i32),
    /// Both are missing: two batched calls, issued concurrently — neither
    /// waits for the other.
    FetchBoth,
}

/// Decides which metadata fetches a token pair needs. The two fetches of
/// the `FetchBoth` plan are to be issued without one awaiting the other's
/// completion; this decision is what commits the caller to that path, and
/// it is taken exactly when both tokens are missing.
pub fn resolve_plan(token0_id: Option<i32>, token1_id: Option<i32>) -> (r: FetchPlan)
    ensures
        r == FetchPlan::FetchBoth <==> token0_id is None && token1_id is None,
        match (token0_id, token1_id) {
            (Some(a), Some(b)) => r == FetchPlan::UseExisting(a, b),
            (None, Some(b)) => r == FetchPlan::FetchFirst(b),
            (Some(a), None) => r == FetchPlan::FetchSecond(a),
            (None, None) => r == FetchPlan::FetchBoth,
        },
{
    match (token0_id, token1_id) {
        (Some(a), Some(b)) => FetchPlan::UseExisting(a, b),
        (None, Some(b)) => FetchPlan::FetchFirst(b),
        (Some(a), None) => FetchPlan::FetchSecond(a),
        (None, None) => FetchPlan::FetchBoth,
    }
}

/// Resolves the ids of a pair's two tokens: one existence check for both
/// addresses, then exactly the fetches the plan calls for, upserting each
/// fetched token. `meta0`/`meta1` are what the chain's metadata fetch
/// returns for the respective address; they are consulted only for
/// missing tokens.
pub fn fetch_insert_tokens(
    store: &mut Store,
    token0: String,
    token1: String,
    meta0: TokenMetadata,
    meta1: TokenMetadata,
) -> (ids: (i32, i32))
    requires
        old(store).wf(),
        old(store).tokens@.len() + 4 <= i32::MAX,
    ensures
        final (store).wf(),
        final (store).token_id_of(token0@) == Some(ids.0),
        final (store).token_id_of(token1@) == Some(ids.1),
        old(store).tokens@.is_prefix_of(final (store).tokens@),
        final (store).tokens@.len() <= old(store).tokens@.len() + 2,
        final (store).blocks@ == old(store).blocks@,
        final (store).factories@ == old(store).factories@,
        final (store).pairs@ == old(store).pairs@,
        final (store).reserves@ == old(store).reserves@,
        old(store).token_id_of(token0@) matches Some(id0) ==> ids.0 == id0,
        old(store).token_id_of(token1@) matches Some(id1) ==> ids.1 == id1,
        old(store).token_id_of(token0@) is Some && old(store).token_id_of(token1@) is Some
            ==> final (store).tokens@ == old(store).tokens@,
        1 <= ids.0 <= final (store).tokens@.len(),
        1 <= ids.1 <= final (store).tokens@.len(),
{
    let (found0, found1) = store.check_tokens_exist(&token0, &token1);
    let plan = resolve_plan(found0, found1);
    match plan {
        FetchPlan::UseExisting(id0, id1) => {
            proof {
                lemma_token_id_range(*old(store), token0@);
                lemma_token_id_range(*old(store), token1@);
            }
            (id0, id1)
        },
        FetchPlan::FetchFirst(id1) => {
            let info0 = token_info_or_sentinel(meta0);
            let id0 = store.insert_token(
                token0,
                info0.name,
                info0.symbol,
                info0.decimals as i32,
            );
            proof {
                lemma_appended(*old(store), *store);
                lemma_token_id_stable(*old(store), *store, token1@);
                lemma_token_id_range(*store, token0@);
                lemma_token_id_range(*store, token1@);
            }
            (id0, id1)
        },
        FetchPlan::FetchSecond(id0) => {
            let info1 = token_info_or_sentinel(meta1);
            let id1 = store.insert_token(
                token1,
                info1.name,
                info1.symbol,
                info1.decimals as i32,
            );
            proof {
                lemma_appended(*old(store), *store);
                lemma_token_id_stable(*old(store), *store, token0@);
                lemma_token_id_range(*store, token0@);
                lemma_token_id_range(*store, token1@);
            }
            (id0, id1)
        },
        FetchPlan::FetchBoth => {
            // both metadata fetches are issued in one concurrent batch by
            // the shell before either upsert happens
            let info0 = token_info_or_sentinel(meta0);
            let info1 = token_info_or_sentinel(meta1);
            let ghost mid = *store;
            let id0 = store.insert_token(
                token0,
                info0.name,
                info0.symbol,
                info0.decimals as i32,
            );
            let ghost mid2 = *store;
            let id1 = store.insert_token(
                token1,
                info1.name,
                info1.symbol,
                info1.decimals as i32,
            );
            proof {
                lemma_appended(mid, mid2);
                lemma_appended(mid2, *store);
                lemma_token_id_stable(mid2, *store, token0@);
                lemma_token_id_range(*store, token0@);
                lemma_token_id_range(*store, token1@);
            }
            (id0, id1)
        },
    }
}

/// One upsert leaves the token table a prefix of what it was or appends
/// one row.
proof fn lemma_appended(before: Store, after: Store)
    requires
        after.tokens@ == before.tokens@ || after.tokens@.len() == before.tokens@.len() + 1
            && after.tokens@.subrange(0, before.tokens@.len() as int) =~= before.tokens@,
    ensures
        before.tokens@.is_prefix_of(after.tokens@),
{
}

/// A token id the store answers is the id of an existing row.
proof fn lemma_token_id_range(s: Store, addr: Seq<char>)
    requires
        s.wf(),
        s.token_id_of(addr) is Some,
    ensures
        1 <= s.token_id_of(addr).unwrap() <= s.tokens@.len(),
{
    crate::store::lemma_first_index_in_range(s.token_addresses(), addr);
}

/// A token id found in a store stays valid when rows are only appended.
proof fn lemma_token_id_stable(before: Store, after: Store, addr: Seq<char>)
    requires
        before.token_id_of(addr) is Some,
        before.tokens@.is_prefix_of(after.tokens@),
    ensures
        after.token_id_of(addr) == before.token_id_of(addr),
{
    assert(before.token_addresses().is_prefix_of(after.token_addresses())) by {
        assert(before.token_addresses() =~= after.token_addresses().subrange(
            0,
            before.token_addresses().len() as int,
        ));
    }
    lemma_first_index_prefix(before.token_addresses(), after.token_addresses(), addr);
    let i = first_index_matching(before.token_addresses(), addr).unwrap();
    crate::store::lemma_first_index_in_range(before.token_addresses(), addr);
    assert(after.tokens@[i] == before.tokens@[i]);
}

/// A hit of `first_index_matching` in a prefix is a hit in the whole.
proof fn lemma_first_index_prefix(short: Seq<Seq<char>>, long: Seq<Seq<char>>, addr: Seq<char>)
    requires
        short.is_prefix_of(long),
        first_index_matching(short, addr) is Some,
    ensures
        first_index_matching(long, addr) == first_index_matching(short, addr),
    decreases short.len(),
{
    if short.len() > 0 {
        assert(long[0] == short[0]);
        if short.first() != addr {
            assert(short.drop_first().is_prefix_of(long.drop_first())) by {
                assert(short.drop_first() =~= long.drop_first().subrange(
                    0,
                    short.drop_first().len() as int,
                ));
            }
            lemma_first_index_prefix(short.drop_first(), long.drop_first(), addr);
        }
    }
}


/// The state-machine of one task, §-style: resolve the pair, resolve the
/// token ids, insert the pair row, insert the reserve snapshot — all or
/// nothing. A failed chain read leaves the store untouched and is handed
/// back for the retry policy to judge; once the observation is in hand,
/// every write goes through, which is the transactional shape the store
/// promises (a transaction that fails before commit leaves no partial
/// pair or reserve state).
pub fn process_pair(store: &mut Store, task: Task, fetch: &PairFetch) -> (r: Result<
    i32,
    ChainReadError,
>)
    requires
        old(store).wf(),
        1 <= task.factory_id <= old(store).factories@.len(),
        1 <= task.block_id <= old(store).blocks@.len(),
        task.pair_num <= i32::MAX,
        old(store).tokens@.len() + 4 <= i32::MAX,
        old(store).pairs@.len() + 2 <= i32::MAX,
        old(store).reserves@.len() + 2 <= i32::MAX,
        forall|i: int|
            0 <= i < old(store).pairs@.len() ==> !((#[trigger] old(store).pairs@[i]).factory
                == task.factory_id && old(store).pairs@[i].number == task.pair_num as i32),
    ensures
        final (store).wf(),
        fetch is Failed ==> *final (store) == *old(store),
        fetch matches PairFetch::Failed(e) ==> r == Err::<i32, ChainReadError>(*e),
        fetch matches PairFetch::Data(obs) ==> {
            &&& r is Ok
            &&& final (store).blocks@ == old(store).blocks@
            &&& final (store).factories@ == old(store).factories@
            &&& old(store).tokens@.is_prefix_of(final (store).tokens@)
            &&& final (store).tokens@.len() <= old(store).tokens@.len() + 2
            &&& final (store).pairs@.len() == old(store).pairs@.len() + 1
            &&& old(store).pairs@.is_prefix_of(final (store).pairs@)
            &&& {
                let p = final (store).pairs@.last();
                &&& p.factory == task.factory_id
                &&& p.number == task.pair_num as i32
                &&& p.address@ == obs.pair_address@
                &&& final (store).token_id_of(obs.info.token0@) == Some(p.token0)
                &&& final (store).token_id_of(obs.info.token1@) == Some(p.token1)
            }
            &&& final (store).reserves@.len() == old(store).reserves@.len() + 1
            &&& old(store).reserves@.is_prefix_of(final (store).reserves@)
            &&& {
                let v = final (store).reserves@.last();
                &&& v.pair == final (store).pairs@.last().id
                &&& v.block == task.block_id
                &&& v.reserve0 == obs.info.reserve0
                &&& v.reserve1 == obs.info.reserve1
            }
        },
{
    let obs = match fetch {
        PairFetch::Failed(e) => {
            return Err(*e);
        },
        PairFetch::Data(obs) => obs,
    };
    let (token0_id, token1_id) = fetch_insert_tokens(
        store,
        clone_string(&obs.info.token0),
        clone_string(&obs.info.token1),
        clone_metadata(&obs.meta0),
        clone_metadata(&obs.meta1),
    );
    let ghost with_tokens = *store;
    let pair_id = store.insert_pair(
        clone_string(&obs.pair_address),
        task.pair_num as i32,
        token0_id,
        token1_id,
        task.factory_id,
    );
    let ghost with_pair = *store;
    store.insert_reserves(pair_id, obs.info.reserve0, obs.info.reserve1, task.block_id);
    proof {
        assert(old(store).pairs@.is_prefix_of(final (store).pairs@)) by {
            assert(old(store).pairs@ =~= final (store).pairs@.subrange(
                0,
                old(store).pairs@.len() as int,
            ));
        }
        assert(old(store).reserves@.is_prefix_of(final (store).reserves@)) by {
            assert(old(store).reserves@ =~= final (store).reserves@.subrange(
                0,
                old(store).reserves@.len() as int,
            ));
        }
    }
    Ok(pair_id)
}

/// A copy of a string value.
fn clone_string(s: &String) -> (r: String)
    ensures
        r == *s,
{
    s.clone()
}

/// A copy of a metadata outcome.
fn clone_metadata(m: &TokenMetadata) -> (r: TokenMetadata)
    ensures
        r == *m,
{
    match m {
        TokenMetadata::Fetched(info) => TokenMetadata::Fetched(
            TokenInfo {
                name: info.name.clone(),
                symbol: info.symbol.clone(),
                decimals: info.decimals,
            },
        ),
        TokenMetadata::Sentinel => TokenMetadata::Sentinel,
    }
}

/// The first of the first `bound` attempt outcomes that carries data.
pub open spec fn first_success(attempts: Seq<PairFetch>, bound: int) -> Option<int>
    decreases bound,
{
    if bound <= 0 {
        None
    } else {
        match first_success(attempts, bound - 1) {
            Some(k) => Some(k),
            None => if attempts[bound - 1] is Data {
                Some(bound - 1)
            } else {
                None
            },
        }
    }
}

/// A task succeeds when one of its first `MAX_ATTEMPTS` outcomes carries
/// data.
pub open spec fn task_succeeds(attempts: Seq<PairFetch>) -> bool {
    first_success(attempts, MAX_ATTEMPTS as int) is Some
}

/// When every outcome before `bound` fails, there is no first success.
proof fn lemma_first_success_none(attempts: Seq<PairFetch>, bound: int)
    requires
        forall|j: int| 0 <= j < bound ==> !((#[trigger] attempts[j]) is Data),
    ensures
        first_success(attempts, bound) is None,
    decreases bound,
{
    if bound > 0 {
        lemma_first_success_none(attempts, bound - 1);
    }
}

/// The first success is the first position carrying data.
proof fn lemma_first_success_found(attempts: Seq<PairFetch>, k: int, bound: int)
    requires
        0 <= k < bound,
        attempts[k] is Data,
        forall|j: int| 0 <= j < k ==> !((#[trigger] attempts[j]) is Data),
    ensures
        first_success(attempts, bound) == Some(k),
    decreases bound,
{
    if bound - 1 > k {
        lemma_first_success_found(attempts, k, bound - 1);
    } else {
        lemma_first_success_none(attempts, k);
    }
}

/// Runs one task under the bounded retry policy: attempts are made in
/// order, the first observation that arrives is processed, and after
/// `MAX_ATTEMPTS` failures the pair is abandoned with the last error —
/// the store untouched — so the run can continue with the next task.
/// Returns the task's result and how many attempts were consumed.
#[verifier::loop_isolation(false)]
pub fn process_pair_with_retries(store: &mut Store, task: Task, attempts: &Vec<PairFetch>) -> (r: (
    Result<i32, ChainReadError>,
    usize,
))
    requires
        old(store).wf(),
        attempts@.len() >= MAX_ATTEMPTS,
        1 <= task.factory_id <= old(store).factories@.len(),
        1 <= task.block_id <= old(store).blocks@.len(),
        task.pair_num <= i32::MAX,
        old(store).tokens@.len() + 4 <= i32::MAX,
        old(store).pairs@.len() + 2 <= i32::MAX,
        old(store).reserves@.len() + 2 <= i32::MAX,
        forall|i: int|
            0 <= i < old(store).pairs@.len() ==> !((#[trigger] old(store).pairs@[i]).factory
                == task.factory_id && old(store).pairs@[i].number == task.pair_num as i32),
    ensures
        final (store).wf(),
        !task_succeeds(attempts@) ==> {
            &&& *final (store) == *old(store)
            &&& r.0 is Err
            &&& r.1 == MAX_ATTEMPTS
        },
        first_success(attempts@, MAX_ATTEMPTS as int) matches Some(k) ==> {
            &&& r.0 is Ok
            &&& r.1 == k + 1
            &&& attempts@[k] is Data
            &&& final (store).blocks@ == old(store).blocks@
            &&& final (store).factories@ == old(store).factories@
            &&& old(store).tokens@.is_prefix_of(final (store).tokens@)
            &&& final (store).tokens@.len() <= old(store).tokens@.len() + 2
            &&& final (store).pairs@.len() == old(store).pairs@.len() + 1
            &&& old(store).pairs@.is_prefix_of(final (store).pairs@)
            &&& final (store).pairs@.last().factory == task.factory_id
            &&& final (store).pairs@.last().number == task.pair_num as i32
            &&& final (store).reserves@.len() == old(store).reserves@.len() + 1
            &&& old(store).reserves@.is_prefix_of(final (store).reserves@)
            &&& final (store).reserves@.last().block == task.block_id
        },
{
    let mut k: usize = 0;
    let mut last_err = ChainReadError::NodeUnreachable;
    while k < MAX_ATTEMPTS
        invariant
            old(store).wf(),
            *store == *old(store),
            attempts@.len() >= MAX_ATTEMPTS,
            k <= MAX_ATTEMPTS,
            forall|j: int| 0 <= j < k ==> !((#[trigger] attempts@[j]) is Data),
        decreases MAX_ATTEMPTS - k,
    {
        let attempt = &attempts[k];
        match attempt {
            PairFetch::Data(_) => {
                proof {
                    lemma_first_success_found(attempts@, k as int, MAX_ATTEMPTS as int);
                }
                let res = process_pair(store, task, attempt);
                let id = match res {
                    Ok(id) => id,
                    Err(_) => {
                        proof {
                            assert(false);
                        }
                        unreached()
                    },
                };
                return (Ok(id), k + 1);
            },
            PairFetch::Failed(e) => {
                last_err = *e;
            },
        }
        k = k + 1;
    }
    proof {
        lemma_first_success_none(attempts@, MAX_ATTEMPTS as int);
    }
    (Err(last_err), MAX_ATTEMPTS)
}

} // verus!
