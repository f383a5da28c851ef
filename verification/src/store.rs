//! The relational store, modelled.
//!
//! The real system keeps blocks, factories, tokens, pairs and reserves in
//! a relational database; the unverified shell mirrors every operation
//! here onto it with SQL. This model is the specification those
//! operations are held to: rows live in vectors, a row's id is its
//! position plus one, and the store's invariant carries the schema's
//! constraints — token and factory addresses are unique, a pair's ordinal
//! is unique within its factory, and every reference points at an
//! existing row. The upserts converge on concurrent-looking repeats: a
//! second insert of the same address returns the existing row's id and
//! changes nothing.

use vstd::prelude::*;

use crate::entries::{BlockEntry, FactoryEntry, PairEntry, PairsStreamEntry, ReserveEntry,
    TokenEntry};

verus! {

/// The first position in `addrs` holding exactly `addr`.
pub open spec fn first_index_matching(addrs: Seq<Seq<char>>, addr: Seq<char>) -> Option<int>
    decreases addrs.len(),
{
    if addrs.len() == 0 {
        None
    } else if addrs.first() == addr {
        Some(0)
    } else {
        match first_index_matching(addrs.drop_first(), addr) {
            Some(i) => Some(i + 1),
            None => None,
        }
    }
}

/// `first_index_matching` finds the first match: if position `k` matches
/// and nothing before it does, the answer is `k`.
proof fn lemma_first_index_found(addrs: Seq<Seq<char>>, addr: Seq<char>, k: int)
    requires
        0 <= k < addrs.len(),
        addrs[k] == addr,
        forall|j: int| 0 <= j < k ==> addrs[j] != addr,
    ensures
        first_index_matching(addrs, addr) == Some(k),
    decreases addrs.len(),
{
    if k > 0 {
        lemma_first_index_found(addrs.drop_first(), addr, k - 1);
    }
}

/// `first_index_matching` misses only when nothing matches.
proof fn lemma_first_index_missing(addrs: Seq<Seq<char>>, addr: Seq<char>)
    requires
        forall|j: int| 0 <= j < addrs.len() ==> addrs[j] != addr,
    ensures
        first_index_matching(addrs, addr) is None,
    decreases addrs.len(),
{
    if addrs.len() > 0 {
        lemma_first_index_missing(addrs.drop_first(), addr);
    }
}

/// What `first_index_matching` answers is a match in range.
pub proof fn lemma_first_index_in_range(addrs: Seq<Seq<char>>, addr: Seq<char>)
    ensures
        match first_index_matching(addrs, addr) {
            Some(i) => 0 <= i < addrs.len() && addrs[i] == addr,
            None => !addrs.contains(addr),
        },
    decreases addrs.len(),
{
    if addrs.len() > 0 {
        lemma_first_index_in_range(addrs.drop_first(), addr);
        if first_index_matching(addrs, addr) is None {
            assert forall|j: int| 0 <= j < addrs.len() implies addrs[j] != addr by {
                if j > 0 {
                    assert(addrs.drop_first()[j - 1] == addrs[j]);
                    assert(!addrs.drop_first().contains(addrs.drop_first()[j - 1]) ==> addrs.drop_first()[j-1] != addr);
                }
            }
        }
    }
}

/// The in-memory model of the relational store.
pub struct Store {
    pub blocks: Vec<BlockEntry>,
    pub factories: Vec<FactoryEntry>,
    pub tokens: Vec<TokenEntry>,
    pub pairs: Vec<PairEntry>,
    pub reserves: Vec<ReserveEntry>,
}

impl Store {
    /// The addresses of the factory rows, in row order.
    pub open spec fn factory_addresses(self) -> Seq<Seq<char>> {
        self.factories@.map(|i: int, f: FactoryEntry| f.address@)
    }

    /// The addresses of the token rows, in row order.
    pub open spec fn token_addresses(self) -> Seq<Seq<char>> {
        self.tokens@.map(|i: int, t: TokenEntry| t.address@)
    }

    /// The id of the factory row holding `addr`, if any.
    pub open spec fn factory_id_of(self, addr: Seq<char>) -> Option<i32> {
        match first_index_matching(self.factory_addresses(), addr) {
            Some(i) => Some(self.factories@[i].id),
            None => None,
        }
    }

    /// The id of the token row holding `addr`, if any.
    pub open spec fn token_id_of(self, addr: Seq<char>) -> Option<i32> {
        match first_index_matching(self.token_addresses(), addr) {
            Some(i) => Some(self.tokens@[i].id),
            None => None,
        }
    }

    /// The store's invariant: ids are positions plus one, token and
    /// factory addresses are unique, a pair's ordinal is unique within
    /// its factory, and every reference points at an existing row.
    pub open spec fn wf(self) -> bool {
        &&& self.blocks@.len() + 1 <= i32::MAX
        &&& self.factories@.len() + 1 <= i32::MAX
        &&& self.tokens@.len() + 1 <= i32::MAX
        &&& self.pairs@.len() + 1 <= i32::MAX
        &&& self.reserves@.len() + 1 <= i32::MAX
        &&& forall|i: int| 0 <= i < self.blocks@.len() ==> (#[trigger] self.blocks@[i]).id == i + 1
        &&& forall|i: int|
            0 <= i < self.factories@.len() ==> (#[trigger] self.factories@[i]).id == i + 1
        &&& forall|i: int| 0 <= i < self.tokens@.len() ==> (#[trigger] self.tokens@[i]).id == i + 1
        &&& forall|i: int| 0 <= i < self.pairs@.len() ==> (#[trigger] self.pairs@[i]).id == i + 1
        &&& forall|i: int|
            0 <= i < self.reserves@.len() ==> (#[trigger] self.reserves@[i]).id == i + 1
        &&& forall|i: int, j: int|
            0 <= i < j < self.factories@.len() ==> self.factories@[i].address@
                != self.factories@[j].address@
        &&& forall|i: int, j: int|
            0 <= i < j < self.tokens@.len() ==> self.tokens@[i].address@
                != self.tokens@[j].address@
        &&& forall|i: int, j: int|
            0 <= i < j < self.pairs@.len() ==> !(self.pairs@[i].factory == self.pairs@[j].factory
                && self.pairs@[i].number == self.pairs@[j].number)
        &&& forall|i: int|
            0 <= i < self.pairs@.len() ==> {
                &&& 1 <= (#[trigger] self.pairs@[i]).factory <= self.factories@.len()
                &&& 1 <= self.pairs@[i].token0 <= self.tokens@.len()
                &&& 1 <= self.pairs@[i].token1 <= self.tokens@.len()
                &&& 0 <= self.pairs@[i].number
            }
        &&& forall|i: int|
            0 <= i < self.reserves@.len() ==> {
                &&& 1 <= (#[trigger] self.reserves@[i]).pair <= self.pairs@.len()
                &&& 1 <= self.reserves@[i].block <= self.blocks@.len()
            }
    }

    /// A store with no rows at all.
    pub fn new() -> (s: Store)
        ensures
            s.wf(),
            s.blocks@.len() == 0,
            s.factories@.len() == 0,
            s.tokens@.len() == 0,
            s.pairs@.len() == 0,
            s.reserves@.len() == 0,
    {
        Store {
            blocks: Vec::new(),
            factories: Vec::new(),
            tokens: Vec::new(),
            pairs: Vec::new(),
            reserves: Vec::new(),
        }
    }

    /// Inserts a block row and returns its id. Blocks are never
    /// deduplicated: one row is created per indexing run.
    pub fn insert_block(&mut self, height: i32, hash: String) -> (id: i32)
        requires
            old(self).wf(),
            old(self).blocks@.len() + 2 <= i32::MAX,
        ensures
            final (self).wf(),
            id == old(self).blocks@.len() + 1,
            final (self).blocks@ == old(self).blocks@.push(
                (BlockEntry { id, height, hash }),
            ),
            final (self).factories@ == old(self).factories@,
            final (self).tokens@ == old(self).tokens@,
            final (self).pairs@ == old(self).pairs@,
            final (self).reserves@ == old(self).reserves@,
    {
        let id = (self.blocks.len() + 1) as i32;
        self.blocks.push(BlockEntry { id, height, hash });
        id
    }

    /// The position of the factory row holding `address`, scanning in row
    /// order.
    fn find_factory(&self, address: &String) -> (r: Option<usize>)
        ensures
            match r {
                Some(i) => first_index_matching(self.factory_addresses(), address@) == Some(
                    i as int,
                ) && i < self.factories@.len(),
                None => first_index_matching(self.factory_addresses(), address@) is None
                    && forall|j: int|
                    0 <= j < self.factories@.len() ==> (#[trigger] self.factories@[j]).address@
                        != address@,
            },
    {
        let mut i: usize = 0;
        while i < self.factories.len()
            invariant
                i <= self.factories@.len(),
                forall|j: int| 0 <= j < i ==> self.factories@[j].address@ != address@,
            decreases self.factories@.len() - i,
        {
            if self.factories[i].address == *address {
                proof {
                    lemma_first_index_found(self.factory_addresses(), address@, i as int);
                }
                return Some(i);
            }
            i = i + 1;
        }
        proof {
            lemma_first_index_missing(self.factory_addresses(), address@);
        }
        None
    }

    /// The position of the token row holding `address`, scanning in row
    /// order.
    fn find_token(&self, address: &String) -> (r: Option<usize>)
        ensures
            match r {
                Some(i) => first_index_matching(self.token_addresses(), address@) == Some(i as int)
                    && i < self.tokens@.len(),
                None => first_index_matching(self.token_addresses(), address@) is None
                    && forall|j: int|
                    0 <= j < self.tokens@.len() ==> (#[trigger] self.tokens@[j]).address@
                        != address@,
            },
    {
        let mut i: usize = 0;
        while i < self.tokens.len()
            invariant
                i <= self.tokens@.len(),
                forall|j: int| 0 <= j < i ==> self.tokens@[j].address@ != address@,
            decreases self.tokens@.len() - i,
        {
            if self.tokens[i].address == *address {
                proof {
                    lemma_first_index_found(self.token_addresses(), address@, i as int);
                }
                return Some(i);
            }
            i = i + 1;
        }
        proof {
            lemma_first_index_missing(self.token_addresses(), address@);
        }
        None
    }

    /// Inserts a factory row keyed by address, or returns the id of the
    /// existing row with that address, leaving the store unchanged: the
    /// upsert that makes concurrent insert attempts converge.
    pub fn insert_factory(&mut self, address: String) -> (id: i32)
        requires
            old(self).wf(),
            old(self).factories@.len() + 2 <= i32::MAX,
        ensures
            final (self).wf(),
            match old(self).factory_id_of(address@) {
                Some(existing) => id == existing && *final (self) == *old(self),
                None => {
                    &&& id == old(self).factories@.len() + 1
                    &&& final (self).factories@ == old(self).factories@.push(
                        (FactoryEntry { id, address }),
                    )
                    &&& final (self).blocks@ == old(self).blocks@
                    &&& final (self).tokens@ == old(self).tokens@
                    &&& final (self).pairs@ == old(self).pairs@
                    &&& final (self).reserves@ == old(self).reserves@
                },
            },
            final (self).factory_id_of(address@) == Some(id),
            1 <= id <= final (self).factories@.len(),
    {
        let found = self.find_factory(&address);
        match found {
            Some(i) => {
                let id = self.factories[i].id;
                proof {
                    lemma_first_index_in_range(self.factory_addresses(), address@);
                }
                id
            },
            None => {
                let id = (self.factories.len() + 1) as i32;
                self.factories.push(FactoryEntry { id, address });
                proof {
                    let addrs_old = old(self).factory_addresses();
                    let addrs_new = self.factory_addresses();
                    assert(addrs_new =~= addrs_old.push(address@));
                    assert forall|j: int| 0 <= j < addrs_new.len() - 1 implies #[trigger] addrs_new[j] != address@ by {
                        assert(addrs_old[j] == old(self).factories@[j].address@);
                    }
                    lemma_first_index_found(addrs_new, address@, addrs_new.len() - 1);
                }
                id
            },
        }
    }

    /// Inserts a token row keyed by address, or returns the id of the
    /// existing row, leaving the store — including the existing row's
    /// name, symbol and decimals — unchanged.
    pub fn insert_token(
        &mut self,
        address: String,
        name: String,
        symbol: String,
        decimals: i32,
    ) -> (id: i32)
        requires
            old(self).wf(),
            old(self).tokens@.len() + 2 <= i32::MAX,
        ensures
            final (self).wf(),
            match old(self).token_id_of(address@) {
                Some(existing) => id == existing && *final (self) == *old(self),
                None => {
                    &&& id == old(self).tokens@.len() + 1
                    &&& final (self).tokens@ == old(self).tokens@.push(
                        (TokenEntry { id, address, name, symbol, decimals }),
                    )
                    &&& final (self).blocks@ == old(self).blocks@
                    &&& final (self).factories@ == old(self).factories@
                    &&& final (self).pairs@ == old(self).pairs@
                    &&& final (self).reserves@ == old(self).reserves@
                },
            },
            final (self).token_id_of(address@) == Some(id),
            1 <= id <= final (self).tokens@.len(),
    {
        let found = self.find_token(&address);
        match found {
            Some(i) => {
                let id = self.tokens[i].id;
                proof {
                    lemma_first_index_in_range(self.token_addresses(), address@);
                }
                id
            },
            None => {
                let id = (self.tokens.len() + 1) as i32;
                self.tokens.push(TokenEntry { id, address, name, symbol, decimals });
                proof {
                    let addrs_old = old(self).token_addresses();
                    let addrs_new = self.token_addresses();
                    assert(addrs_new =~= addrs_old.push(address@));
                    assert forall|j: int| 0 <= j < addrs_new.len() - 1 implies #[trigger] addrs_new[j] != address@ by {
                        assert(addrs_old[j] == old(self).tokens@[j].address@);
                    }
                    lemma_first_index_found(addrs_new, address@, addrs_new.len() - 1);
                }
                id
            },
        }
    }

    /// For two token addresses, the ids of the rows that already exist.
    pub fn check_tokens_exist(&self, token0: &String, token1: &String) -> (r: (
        Option<i32>,
        Option<i32>,
    ))
        ensures
            r.0 == self.token_id_of(token0@),
            r.1 == self.token_id_of(token1@),
    {
        let id0 = match self.find_token(token0) {
            Some(i) => Some(self.tokens[i].id),
            None => None,
        };
        let id1 = match self.find_token(token1) {
            Some(i) => Some(self.tokens[i].id),
            None => None,
        };
        (id0, id1)
    }

    /// Inserts a pair row and returns its id. A pair is created exactly
    /// once: the caller must not reuse an ordinal already persisted for
    /// the factory.
    pub fn insert_pair(
        &mut self,
        pair_address: String,
        number: i32,
        token0_id: i32,
        token1_id: i32,
        factory_id: i32,
    ) -> (id: i32)
        requires
            old(self).wf(),
            old(self).pairs@.len() + 2 <= i32::MAX,
            0 <= number,
            1 <= factory_id <= old(self).factories@.len(),
            1 <= token0_id <= old(self).tokens@.len(),
            1 <= token1_id <= old(self).tokens@.len(),
            forall|i: int|
                0 <= i < old(self).pairs@.len() ==> !((#[trigger] old(self).pairs@[i]).factory
                    == factory_id && old(self).pairs@[i].number == number),
        ensures
            final (self).wf(),
            id == old(self).pairs@.len() + 1,
            final (self).pairs@ == old(self).pairs@.push(
                (PairEntry {
                    id,
                    factory: factory_id,
                    address: pair_address,
                    number,
                    token0: token0_id,
                    token1: token1_id,
                }),
            ),
            final (self).blocks@ == old(self).blocks@,
            final (self).factories@ == old(self).factories@,
            final (self).tokens@ == old(self).tokens@,
            final (self).reserves@ == old(self).reserves@,
    {
        let id = (self.pairs.len() + 1) as i32;
        self.pairs.push(
            PairEntry {
                id,
                factory: factory_id,
                address: pair_address,
                number,
                token0: token0_id,
                token1: token1_id,
            },
        );
        id
    }

    /// Inserts a reserve row — an append-only snapshot — and returns its
    /// id.
    pub fn insert_reserves(
        &mut self,
        pair_id: i32,
        reserve0: u64,
        reserve1: u64,
        block_id: i32,
    ) -> (id: i32)
        requires
            old(self).wf(),
            old(self).reserves@.len() + 2 <= i32::MAX,
            1 <= pair_id <= old(self).pairs@.len(),
            1 <= block_id <= old(self).blocks@.len(),
        ensures
            final (self).wf(),
            id == old(self).reserves@.len() + 1,
            final (self).reserves@ == old(self).reserves@.push(
                (ReserveEntry { id, pair: pair_id, block: block_id, reserve0, reserve1 }),
            ),
            final (self).blocks@ == old(self).blocks@,
            final (self).factories@ == old(self).factories@,
            final (self).tokens@ == old(self).tokens@,
            final (self).pairs@ == old(self).pairs@,
    {
        let id = (self.reserves.len() + 1) as i32;
        self.reserves.push(ReserveEntry { id, pair: pair_id, block: block_id, reserve0, reserve1 });
        id
    }

    /// The highest pair ordinal persisted for `factory_id`, or `None`
    /// when the factory has no pairs yet: the resume checkpoint, computed
    /// as a maximum so that out-of-order completion and skipped pairs do
    /// not move it backwards.
    pub fn last_indexed_pair(&self, factory_id: i32) -> (r: Option<i32>)
        ensures
            r == max_pair_number(self.pairs@, factory_id),
    {
        let mut best: Option<i32> = None;
        let mut i: usize = 0;
        while i < self.pairs.len()
            invariant
                i <= self.pairs@.len(),
                best == max_pair_number(self.pairs@.subrange(0, i as int), factory_id),
            decreases self.pairs@.len() - i,
        {
            let p = &self.pairs[i];
            if p.factory == factory_id {
                best = match best {
                    Some(m) => if p.number > m {
                        Some(p.number)
                    } else {
                        Some(m)
                    },
                    None => Some(p.number),
                };
            }
            proof {
                assert(self.pairs@.subrange(0, i + 1 as int).drop_last() =~= self.pairs@.subrange(
                    0,
                    i as int,
                ));
            }
            i = i + 1;
        }
        proof {
            assert(self.pairs@.subrange(0, self.pairs@.len() as int) =~= self.pairs@);
        }
        best
    }

    /// The id of the first factory row, if any.
    pub fn first_factory_id(&self) -> (r: Option<i32>)
        ensures
            r == if self.factories@.len() > 0 {
                Some(self.factories@[0].id)
            } else {
                None::<i32>
            },
    {
        if self.factories.len() > 0 {
            Some(self.factories[0].id)
        } else {
            None
        }
    }

    /// The token row with id `id`, if any.
    pub fn token_by_id(&self, id: i32) -> (r: Option<TokenEntry>)
        requires
            self.wf(),
        ensures
            r == if 1 <= id <= self.tokens@.len() {
                Some(self.tokens@[id - 1])
            } else {
                None::<TokenEntry>
            },
    {
        if id >= 1 && (id as usize) <= self.tokens.len() {
            let e = &self.tokens[(id - 1) as usize];
            Some(clone_token_entry(e))
        } else {
            None
        }
    }

    /// The token row holding `address`, if any.
    pub fn token_by_address(&self, address: &String) -> (r: Option<TokenEntry>)
        ensures
            r == match first_index_matching(self.token_addresses(), address@) {
                Some(i) => Some(self.tokens@[i]),
                None => None::<TokenEntry>,
            },
    {
        match self.find_token(address) {
            Some(i) => Some(clone_token_entry(&self.tokens[i])),
            None => None,
        }
    }

    /// The pair row holding `address`, if any: the first such row in row
    /// order.
    pub fn pair_by_address(&self, address: &String) -> (r: Option<PairEntry>)
        ensures
            match r {
                Some(p) => exists|i: int|
                    0 <= i < self.pairs@.len() && #[trigger] self.pairs@[i] == p
                        && self.pairs@[i].address@ == address@,
                None => forall|i: int|
                    0 <= i < self.pairs@.len() ==> (#[trigger] self.pairs@[i]).address@
                        != address@,
            },
    {
        let mut i: usize = 0;
        while i < self.pairs.len()
            invariant
                i <= self.pairs@.len(),
                forall|j: int| 0 <= j < i ==> (#[trigger] self.pairs@[j]).address@ != address@,
            decreases self.pairs@.len() - i,
        {
            if self.pairs[i].address == *address {
                return Some(clone_pair_entry(&self.pairs[i]));
            }
            i = i + 1;
        }
        None
    }

    /// The id the latest block row holds: zero when no run has written a
    /// block yet, in which case no reserve row can match it.
    pub open spec fn latest_block_id(self) -> int {
        self.blocks@.len() as int
    }

    /// The graph-builder row that pair `p` contributes: the pair joined
    /// with both tokens and its reserve snapshot at the latest block, or
    /// nothing when the pair belongs to another factory than the first or
    /// has no reserve at that block.
    pub open spec fn stream_row_of(self, p: PairEntry) -> Option<PairsStreamEntry> {
        if p.factory == 1 {
            match first_reserve_at(self.reserves@, p.id, self.latest_block_id()) {
                Some(ri) => Some(
                    PairsStreamEntry {
                        pair_id: p.id,
                        token0_id: p.token0,
                        token0_short_address: self.tokens@[p.token0 - 1].address,
                        token1_id: p.token1,
                        token1_short_address: self.tokens@[p.token1 - 1].address,
                        reserve0: self.reserves@[ri].reserve0,
                        reserve1: self.reserves@[ri].reserve1,
                    },
                ),
                None => None,
            }
        } else {
            None
        }
    }

    /// The rows the graph builder reads, over the first `k` pair rows.
    pub open spec fn stream_rows(self, k: int) -> Seq<PairsStreamEntry>
        decreases k,
    {
        if k <= 0 {
            Seq::empty()
        } else {
            self.stream_rows(k - 1) + match self.stream_row_of(self.pairs@[k - 1]) {
                Some(r) => seq![r],
                None => Seq::empty(),
            }
        }
    }

    /// Reads, for every pair of the first factory, its row joined with
    /// both tokens and with the reserve snapshot at the latest recorded
    /// block: one consistent snapshot for the graph builder. Pairs
    /// without a snapshot at that block are left out.
    pub fn pairs_stream(&self) -> (r: Vec<PairsStreamEntry>)
        requires
            self.wf(),
        ensures
            r@ == self.stream_rows(self.pairs@.len() as int),
    {
        let mut out: Vec<PairsStreamEntry> = Vec::new();
        let fid = match self.first_factory_id() {
            Some(f) => f,
            None => {
                proof {
                    if self.pairs@.len() > 0 {
                        assert(1 <= self.pairs@[0].factory <= self.factories@.len());
                    }
                }
                return out;
            },
        };
        let latest: i32 = self.blocks.len() as i32;
        let mut i: usize = 0;
        while i < self.pairs.len()
            invariant
                self.wf(),
                fid == 1,
                latest == self.latest_block_id(),
                i <= self.pairs@.len(),
                out@ == self.stream_rows(i as int),
            decreases self.pairs@.len() - i,
        {
            let p = &self.pairs[i];
            if p.factory == fid {
                // scan for the reserve snapshot of this pair at the latest block
                let mut ri: usize = 0;
                let mut found: Option<usize> = None;
                while ri < self.reserves.len()
                    invariant
                        self.wf(),
                        i < self.pairs@.len(),
                        *p == self.pairs@[i as int],
                        ri <= self.reserves@.len(),
                        found matches Some(x) ==> first_reserve_at(
                            self.reserves@,
                            self.pairs@[i as int].id,
                            latest as int,
                        ) == Some(x as int) && x < self.reserves@.len(),
                        found is None ==> forall|j: int|
                            0 <= j < ri ==> !((#[trigger] self.reserves@[j]).pair == self.pairs@[i as int].id
                                && self.reserves@[j].block == latest as int),
                    decreases self.reserves@.len() - ri,
                {
                    if found.is_none() && self.reserves[ri].pair == p.id && self.reserves[ri].block
                        == latest {
                        proof {
                            lemma_first_reserve_found(
                                self.reserves@,
                                self.pairs@[i as int].id,
                                latest as int,
                                ri as int,
                            );
                        }
                        found = Some(ri);
                    }
                    ri = ri + 1;
                }
                match found {
                    Some(x) => {
                        let res = &self.reserves[x];
                        let t0 = &self.tokens[(p.token0 - 1) as usize];
                        let t1 = &self.tokens[(p.token1 - 1) as usize];
                        out.push(
                            PairsStreamEntry {
                                pair_id: p.id,
                                token0_id: p.token0,
                                token0_short_address: t0.address.clone(),
                                token1_id: p.token1,
                                token1_short_address: t1.address.clone(),
                                reserve0: res.reserve0,
                                reserve1: res.reserve1,
                            },
                        );
                        proof {
                            assert(out@ =~= self.stream_rows(i as int) + seq![
                                self.stream_row_of(self.pairs@[i as int]).unwrap()]);
                        }
                    },
                    None => {
                        proof {
                            lemma_first_reserve_missing(
                                self.reserves@,
                                self.pairs@[i as int].id,
                                latest as int,
                            );
                            assert(out@ =~= self.stream_rows(i + 1 as int));
                        }
                    },
                }
            }
            i = i + 1;
        }
        out
    }
}

/// A copy of a token row.
fn clone_token_entry(e: &TokenEntry) -> (r: TokenEntry)
    ensures
        r == *e,
{
    TokenEntry {
        id: e.id,
        address: e.address.clone(),
        name: e.name.clone(),
        symbol: e.symbol.clone(),
        decimals: e.decimals,
    }
}

/// A copy of a pair row.
fn clone_pair_entry(e: &PairEntry) -> (r: PairEntry)
    ensures
        r == *e,
{
    PairEntry {
        id: e.id,
        factory: e.factory,
        address: e.address.clone(),
        number: e.number,
        token0: e.token0,
        token1: e.token1,
    }
}

/// The highest `number` among the pair rows of `factory_id`, or `None`
/// when it has none.
pub open spec fn max_pair_number(ps: Seq<PairEntry>, factory_id: i32) -> Option<i32>
    decreases ps.len(),
{
    if ps.len() == 0 {
        None
    } else {
        let rest = max_pair_number(ps.drop_last(), factory_id);
        let p = ps.last();
        if p.factory == factory_id {
            match rest {
                Some(m) => if p.number > m {
                    Some(p.number)
                } else {
                    Some(m)
                },
                None => Some(p.number),
            }
        } else {
            rest
        }
    }
}

/// The checkpoint is a bound on, and one of, the factory's persisted
/// ordinals.
pub proof fn lemma_max_pair_number(ps: Seq<PairEntry>, factory_id: i32)
    ensures
        match max_pair_number(ps, factory_id) {
            Some(m) => (forall|i: int|
                0 <= i < ps.len() && (#[trigger] ps[i]).factory == factory_id ==> ps[i].number
                    <= m) && exists|i: int|
                0 <= i < ps.len() && (#[trigger] ps[i]).factory == factory_id && ps[i].number == m,
            None => forall|i: int|
                0 <= i < ps.len() ==> (#[trigger] ps[i]).factory != factory_id,
        },
    decreases ps.len(),
{
    if ps.len() > 0 {
        lemma_max_pair_number(ps.drop_last(), factory_id);
        assert forall|i: int| 0 <= i < ps.len() - 1 implies ps.drop_last()[i] == ps[i] by {}
    }
}


/// The first reserve row for `pair_id` at `block_id`, by position.
pub open spec fn first_reserve_at(rs: Seq<ReserveEntry>, pair_id: i32, block_id: int) -> Option<
    int,
>
    decreases rs.len(),
{
    if rs.len() == 0 {
        None
    } else if rs.first().pair == pair_id && rs.first().block == block_id {
        Some(0)
    } else {
        match first_reserve_at(rs.drop_first(), pair_id, block_id) {
            Some(i) => Some(i + 1),
            None => None,
        }
    }
}

/// `first_reserve_at` finds the first match: if position `k` matches and
/// nothing before it does, the answer is `k`.
proof fn lemma_first_reserve_found(rs: Seq<ReserveEntry>, pair_id: i32, block_id: int, k: int)
    requires
        0 <= k < rs.len(),
        rs[k].pair == pair_id && rs[k].block == block_id,
        forall|j: int| 0 <= j < k ==> !((#[trigger] rs[j]).pair == pair_id && rs[j].block == block_id),
    ensures
        first_reserve_at(rs, pair_id, block_id) == Some(k),
    decreases rs.len(),
{
    if k > 0 {
        lemma_first_reserve_found(rs.drop_first(), pair_id, block_id, k - 1);
    }
}

/// `first_reserve_at` misses only when nothing matches.
proof fn lemma_first_reserve_missing(rs: Seq<ReserveEntry>, pair_id: i32, block_id: int)
    requires
        forall|j: int|
            0 <= j < rs.len() ==> !((#[trigger] rs[j]).pair == pair_id && rs[j].block == block_id),
    ensures
        first_reserve_at(rs, pair_id, block_id) is None,
    decreases rs.len(),
{
    if rs.len() > 0 {
        lemma_first_reserve_missing(rs.drop_first(), pair_id, block_id);
    }
}

/// A store operation failed: transient (a connection hiccup, worth a
/// retry) or integrity (a uniqueness constraint fired under a race —
/// treated as "the row now exists, re-read its id", never as fatal).
#[derive(Debug, Clone, Copy, PartialEq, Eq, Structural)]
pub enum StoreError {
    Transient,
    Integrity,
}

/// Access to persisted pairs, as the rest of the system consumes it. The
/// in-memory store implements it directly; a remote store's shim
/// implements it over its own connection.
pub trait PairsProvider {
    type Error;

    /// The pair row with the given id, if any.
    fn pair_by_id(&self, pair_id: i32) -> Result<Option<PairEntry>, Self::Error>;

    /// Persists a pair row and returns it as stored, id assigned.
    fn insert_pair_row(&mut self, pair: PairEntry) -> Result<PairEntry, Self::Error>;
}

impl PairsProvider for Store {
    type Error = StoreError;

    fn pair_by_id(&self, pair_id: i32) -> Result<Option<PairEntry>, StoreError> {
        let mut i: usize = 0;
        while i < self.pairs.len()
            invariant
                i <= self.pairs@.len(),
            decreases self.pairs@.len() - i,
        {
            if self.pairs[i].id == pair_id {
                return Ok(Some(clone_pair_entry(&self.pairs[i])));
            }
            i = i + 1;
        }
        Ok(None)
    }

    fn insert_pair_row(&mut self, pair: PairEntry) -> Result<PairEntry, StoreError> {
        // the run-time guards a shim performs where no invariant is given:
        // an id that would overflow is transient back-off, a bad reference
        // or a reused ordinal is the integrity case
        if self.pairs.len() >= 2147483646 {
            return Err(StoreError::Transient);
        }
        if !(pair.number >= 0 && pair.factory >= 1 && (pair.factory as usize)
            <= self.factories.len() && pair.token0 >= 1 && (pair.token0 as usize)
            <= self.tokens.len() && pair.token1 >= 1 && (pair.token1 as usize)
            <= self.tokens.len()) {
            return Err(StoreError::Integrity);
        }
        let mut i: usize = 0;
        while i < self.pairs.len()
            invariant
                i <= self.pairs@.len(),
            decreases self.pairs@.len() - i,
        {
            if self.pairs[i].factory == pair.factory && self.pairs[i].number == pair.number {
                return Err(StoreError::Integrity);
            }
            i = i + 1;
        }
        let id = (self.pairs.len() + 1) as i32;
        let row = PairEntry {
            id,
            factory: pair.factory,
            address: pair.address,
            number: pair.number,
            token0: pair.token0,
            token1: pair.token1,
        };
        self.pairs.push(clone_pair_entry(&row));
        Ok(row)
    }
}

} // verus!
