//! The indexer pool: work discovery, backpressure and one whole run.
//!
//! A run reads the chain head and the factory's pair count, derives the
//! work range from the persisted checkpoint, and feeds one task per
//! unindexed ordinal through a bounded queue to the pair processor. The
//! queue's capacity is the configured worker count: a full queue stops
//! the producer until a task has been taken off, which is the
//! backpressure that caps how far discovery runs ahead of the workers.
//! `run_index` is the sequential model of that pipeline: tasks are
//! produced in ascending order, drained in order, and each is processed
//! under the bounded retry policy; a task that exhausts its retries is
//! skipped and the run continues.

use vstd::prelude::*;

use crate::fetcher::{process_pair_with_retries, task_succeeds, PairFetch, Task, MAX_ATTEMPTS};
use crate::entries::PairEntry;
use crate::store::{lemma_max_pair_number, max_pair_number, Store};

verus! {

/// A fixed-capacity first-in-first-out queue of tasks. Pushing into a
/// full queue is refused — the caller must drain first — and popping
/// returns the oldest task.
pub struct BoundedQueue {
    pub items: Vec<Task>,
    pub capacity: usize,
}

impl BoundedQueue {
    /// The queued tasks, oldest first.
    pub open spec fn contents(self) -> Seq<Task> {
        self.items@
    }

    /// The queue never holds more than its capacity.
    pub open spec fn wf(self) -> bool {
        self.items@.len() <= self.capacity
    }

    /// An empty queue of capacity `capacity`.
    pub fn new(capacity: usize) -> (q: BoundedQueue)
        ensures
            q.wf(),
            q.capacity == capacity,
            q.contents() == Seq::<Task>::empty(),
    {
        BoundedQueue { items: Vec::new(), capacity }
    }

    /// Appends a task unless the queue is full; reports whether it was
    /// taken.
    pub fn try_push(&mut self, t: Task) -> (r: bool)
        requires
            old(self).wf(),
        ensures
            final (self).wf(),
            final (self).capacity == old(self).capacity,
            old(self).contents().len() < old(self).capacity ==> r && final (self).contents()
                == old(self).contents().push(t),
            old(self).contents().len() >= old(self).capacity ==> !r && *final (self) == *old(self),
    {
        if self.items.len() < self.capacity {
            self.items.push(t);
            true
        } else {
            false
        }
    }

    /// How many tasks are queued.
    pub fn len(&self) -> (r: usize)
        ensures
            r == self.contents().len(),
    {
        self.items.len()
    }

    /// Removes and returns the oldest task, or nothing when the queue is
    /// empty.
    pub fn pop(&mut self) -> (r: Option<Task>)
        requires
            old(self).wf(),
        ensures
            final (self).wf(),
            final (self).capacity == old(self).capacity,
            old(self).contents().len() == 0 ==> r is None && *final (self) == *old(self),
            old(self).contents().len() > 0 ==> r == Some(old(self).contents()[0])
                && final (self).contents() == old(self).contents().drop_first(),
    {
        if self.items.len() > 0 {
            let t = self.items.remove(0);
            proof {
                assert(self.items@ =~= old(self).items@.drop_first());
            }
            Some(t)
        } else {
            None
        }
    }
}

/// What one indexing run did: the block and factory rows it worked
/// against, the work range it observed, and how many tasks completed or
/// were abandoned.
#[derive(Debug, Clone, Copy, PartialEq, Eq, Structural)]
pub struct RunReport {
    pub block_id: i32,
    pub factory_id: i32,
    /// The first unindexed ordinal: the checkpoint plus one, or zero when
    /// the factory had no pairs.
    pub first_pair: u64,
    /// The factory's pair count observed at run start; the exclusive
    /// upper bound of the work range.
    pub pairs_length: u64,
    pub completed: u64,
    pub skipped: u64,
}

/// A prefix of a prefix is a prefix.
proof fn lemma_prefix_trans<T>(a: Seq<T>, b: Seq<T>, c: Seq<T>)
    requires
        a.is_prefix_of(b),
        b.is_prefix_of(c),
    ensures
        a.is_prefix_of(c),
{
    assert(a =~= c.subrange(0, a.len() as int));
}

/// One whole indexing run over the model store.
///
/// Setup: persist the chain head as a new block row, upsert the factory,
/// read the resume checkpoint, and derive the work range
/// `checkpoint+1 .. pairs_length`. Work: one task per ordinal, produced
/// in ascending order through the bounded queue and processed under the
/// bounded retry policy; `outcomes[n]` is what the chain answers on each
/// successive attempt for pair `n`. A task that fails every attempt is
/// skipped; the run continues and reports it.
///
/// The pairs the run appends are exactly the ordinals of the work range
/// whose fetch succeeds within the retry bound — never an ordinal outside
/// `[checkpoint+1, pairs_length-1]` — and the rows already persisted are
/// left untouched.
#[verifier::loop_isolation(false)]
#[verifier::rlimit(60)]
pub fn run_index(
    store: &mut Store,
    factory_address: String,
    block_height: i32,
    block_hash: String,
    pairs_length: u64,
    concurrency: usize,
    outcomes: &Vec<Vec<PairFetch>>,
) -> (r: RunReport)
    requires
        old(store).wf(),
        concurrency >= 1,
        pairs_length <= i32::MAX,
        outcomes@.len() == pairs_length,
        forall|i: int| 0 <= i < outcomes@.len() ==> (#[trigger] outcomes@[i])@.len()
            >= MAX_ATTEMPTS,
        old(store).blocks@.len() + 2 <= i32::MAX,
        old(store).factories@.len() + 2 <= i32::MAX,
        old(store).tokens@.len() + 2 * pairs_length + 4 <= i32::MAX,
        old(store).pairs@.len() + pairs_length + 2 <= i32::MAX,
        old(store).reserves@.len() + pairs_length + 2 <= i32::MAX,
    ensures
        final (store).wf(),
        r.pairs_length == pairs_length,
        // the block row of this run
        r.block_id == old(store).blocks@.len() + 1,
        final (store).blocks@.len() == old(store).blocks@.len() + 1,
        old(store).blocks@.is_prefix_of(final (store).blocks@),
        final (store).blocks@.last().height == block_height,
        final (store).blocks@.last().hash == block_hash,
        // the factory row, upserted
        final (store).factory_id_of(factory_address@) == Some(r.factory_id),
        old(store).factories@.is_prefix_of(final (store).factories@),
        final (store).factories@.len() <= old(store).factories@.len() + 1,
        1 <= r.factory_id <= final (store).factories@.len(),
        // the work range observed at run start
        r.first_pair == (match max_pair_number(old(store).pairs@, r.factory_id) {
            Some(c) => c + 1,
            None => 0,
        }),
        // rows are only appended
        old(store).tokens@.is_prefix_of(final (store).tokens@),
        final (store).tokens@.len() <= old(store).tokens@.len() + 2 * pairs_length,
        old(store).pairs@.is_prefix_of(final (store).pairs@),
        old(store).reserves@.is_prefix_of(final (store).reserves@),
        // every pair the run created lies in the work range and had a
        // successful fetch
        forall|j: int|
            old(store).pairs@.len() <= j < final (store).pairs@.len() ==> {
                let p = #[trigger] final (store).pairs@[j];
                &&& p.factory == r.factory_id
                &&& r.first_pair <= p.number < pairs_length
                &&& task_succeeds(outcomes@[p.number as int]@)
            },
        // and every ordinal of the range with a successful fetch was
        // persisted
        forall|n: int|
            r.first_pair <= n < pairs_length && task_succeeds(
                (#[trigger] outcomes@[n])@,
            ) ==> exists|j: int|
                old(store).pairs@.len() <= j < final (store).pairs@.len()
                    && (#[trigger] final (store).pairs@[j]).number == n,
        // bookkeeping: one completed task per created pair, the rest of
        // the range skipped
        final (store).pairs@.len() == old(store).pairs@.len() + r.completed,
        final (store).reserves@.len() == old(store).reserves@.len() + r.completed,
        r.first_pair <= pairs_length ==> r.completed + r.skipped == pairs_length - r.first_pair,
        r.first_pair > pairs_length ==> r.completed == 0 && r.skipped == 0,
{
    let block_id = store.insert_block(block_height, block_hash);
    let factory_id = store.insert_factory(factory_address);
    let checkpoint = store.last_indexed_pair(factory_id);
    proof {
        lemma_max_pair_number(store.pairs@, factory_id);
    }
    let first_pair: u64 = match checkpoint {
        Some(c) => (c as u64) + 1,
        None => 0,
    };
    let ghost base = *store;

    let mut queue = BoundedQueue::new(concurrency);
    let mut completed: u64 = 0;
    let mut skipped: u64 = 0;
    let mut num: u64 = first_pair;
    let ghost mut done: int = first_pair as int;

    while num < pairs_length
        invariant
            store.wf(),
            queue.wf(),
            queue.capacity == concurrency,
            first_pair <= num,
            num <= pairs_length || (num == first_pair && first_pair > pairs_length),
            first_pair <= done <= num,
            queue.contents().len() == num - done,
            forall|k: int|
                0 <= k < queue.contents().len() ==> #[trigger] queue.contents()[k] == (Task {
                    factory_id,
                    block_id,
                    pair_num: (done + k) as u64,
                }),
            store.blocks@ == base.blocks@,
            store.factories@ == base.factories@,
            base.tokens@.is_prefix_of(store.tokens@),
            store.tokens@.len() <= base.tokens@.len() + 2 * (done - first_pair),
            base.pairs@.is_prefix_of(store.pairs@),
            store.pairs@.len() == base.pairs@.len() + completed,
            store.reserves@.len() == base.reserves@.len() + completed,
            base.reserves@.is_prefix_of(store.reserves@),
            completed + skipped == done - first_pair,
            forall|j: int|
                base.pairs@.len() <= j < store.pairs@.len() ==> {
                    let p = #[trigger] store.pairs@[j];
                    &&& p.factory == factory_id
                    &&& first_pair <= p.number < pairs_length
                    &&& task_succeeds(outcomes@[p.number as int]@)
                },
            forall|n: int|
                first_pair <= n < done && task_succeeds((#[trigger] outcomes@[n])@) ==> exists|
                    j: int,
                |
                    base.pairs@.len() <= j < store.pairs@.len()
                        && (#[trigger] store.pairs@[j]).number == n,
            forall|j: int|
                0 <= j < store.pairs@.len() && (#[trigger] store.pairs@[j]).factory == factory_id
                    ==> store.pairs@[j].number < done,
        decreases pairs_length - num,
    {
        let task = Task { factory_id, block_id, pair_num: num };
        let pushed = queue.try_push(task);
        if !pushed {
            // the queue is full: backpressure — drain the oldest task
            // before producing more
            let t = match queue.pop() {
                Some(t) => t,
                None => unreached(),
            };
            drain_one(store, t, outcomes, &mut completed, &mut skipped, Ghost(base), Ghost(done),
                Ghost(first_pair as int), Ghost(pairs_length as int));
            proof {
                done = done + 1;
            }
            let ok = queue.try_push(task);
            assert(ok);
        }
        num = num + 1;
    }

    while queue.len() > 0
        invariant
            store.wf(),
            queue.wf(),
            first_pair <= done,
            done + queue.contents().len() == if first_pair <= pairs_length {
                pairs_length as int
            } else {
                first_pair as int
            },
            forall|k: int|
                0 <= k < queue.contents().len() ==> #[trigger] queue.contents()[k] == (Task {
                    factory_id,
                    block_id,
                    pair_num: (done + k) as u64,
                }),
            store.blocks@ == base.blocks@,
            store.factories@ == base.factories@,
            base.tokens@.is_prefix_of(store.tokens@),
            store.tokens@.len() <= base.tokens@.len() + 2 * (done - first_pair),
            base.pairs@.is_prefix_of(store.pairs@),
            store.pairs@.len() == base.pairs@.len() + completed,
            store.reserves@.len() == base.reserves@.len() + completed,
            base.reserves@.is_prefix_of(store.reserves@),
            completed + skipped == done - first_pair,
            forall|j: int|
                base.pairs@.len() <= j < store.pairs@.len() ==> {
                    let p = #[trigger] store.pairs@[j];
                    &&& p.factory == factory_id
                    &&& first_pair <= p.number < pairs_length
                    &&& task_succeeds(outcomes@[p.number as int]@)
                },
            forall|n: int|
                first_pair <= n < done && task_succeeds((#[trigger] outcomes@[n])@) ==> exists|
                    j: int,
                |
                    base.pairs@.len() <= j < store.pairs@.len()
                        && (#[trigger] store.pairs@[j]).number == n,
            forall|j: int|
                0 <= j < store.pairs@.len() && (#[trigger] store.pairs@[j]).factory == factory_id
                    ==> store.pairs@[j].number < done,
        decreases queue.contents().len(),
    {
        let t = match queue.pop() {
            Some(t) => t,
            None => unreached(),
        };
        drain_one(store, t, outcomes, &mut completed, &mut skipped, Ghost(base), Ghost(done),
            Ghost(first_pair as int), Ghost(pairs_length as int));
        proof {
            done = done + 1;
        }
    }

    proof {
        lemma_prefix_trans(old(store).tokens@, base.tokens@, store.tokens@);
    }
    RunReport { block_id, factory_id, first_pair, pairs_length, completed, skipped }
}

/// Processes one drained task under the retry policy and books the
/// outcome.
#[verifier::loop_isolation(false)]
fn drain_one(
    store: &mut Store,
    t: Task,
    outcomes: &Vec<Vec<PairFetch>>,
    completed: &mut u64,
    skipped: &mut u64,
    Ghost(base): Ghost<Store>,
    Ghost(done): Ghost<int>,
    Ghost(first_pair): Ghost<int>,
    Ghost(pairs_length): Ghost<int>,
) -> (nothing: ())
    requires
        old(store).wf(),
        0 <= first_pair <= done < pairs_length <= i32::MAX,
        t.pair_num == done,
        outcomes@.len() == pairs_length,
        forall|i: int| 0 <= i < outcomes@.len() ==> (#[trigger] outcomes@[i])@.len()
            >= MAX_ATTEMPTS,
        1 <= t.factory_id <= old(store).factories@.len(),
        1 <= t.block_id <= old(store).blocks@.len(),
        base.tokens@.is_prefix_of(old(store).tokens@),
        old(store).tokens@.len() <= base.tokens@.len() + 2 * (done - first_pair),
        base.tokens@.len() + 2 * (pairs_length - first_pair) + 4 <= i32::MAX,
        base.pairs@.is_prefix_of(old(store).pairs@),
        old(store).pairs@.len() == base.pairs@.len() + *old(completed),
        old(store).reserves@.len() == base.reserves@.len() + *old(completed),
        base.reserves@.is_prefix_of(old(store).reserves@),
        base.pairs@.len() + (pairs_length - first_pair) + 2 <= i32::MAX,
        base.reserves@.len() + (pairs_length - first_pair) + 2 <= i32::MAX,
        *old(completed) + *old(skipped) == done - first_pair,
        forall|j: int|
            base.pairs@.len() <= j < old(store).pairs@.len() ==> {
                let p = #[trigger] old(store).pairs@[j];
                &&& p.factory == t.factory_id
                &&& first_pair <= p.number < pairs_length
                &&& task_succeeds(outcomes@[p.number as int]@)
            },
        forall|n: int|
            first_pair <= n < done && task_succeeds((#[trigger] outcomes@[n])@) ==> exists|j: int|
                base.pairs@.len() <= j < old(store).pairs@.len()
                    && (#[trigger] old(store).pairs@[j]).number == n,
        forall|j: int|
            0 <= j < old(store).pairs@.len() && (#[trigger] old(store).pairs@[j]).factory
                == t.factory_id ==> old(store).pairs@[j].number < done,
    ensures
        final (store).wf(),
        final (store).blocks@ == old(store).blocks@,
        final (store).factories@ == old(store).factories@,
        base.tokens@.is_prefix_of(final (store).tokens@),
        final (store).tokens@.len() <= base.tokens@.len() + 2 * (done + 1 - first_pair),
        base.pairs@.is_prefix_of(final (store).pairs@),
        final (store).pairs@.len() == base.pairs@.len() + *final (completed),
        final (store).reserves@.len() == base.reserves@.len() + *final (completed),
        base.reserves@.is_prefix_of(final (store).reserves@),
        *final (completed) + *final (skipped) == done + 1 - first_pair,
        forall|j: int|
            base.pairs@.len() <= j < final (store).pairs@.len() ==> {
                let p = #[trigger] final (store).pairs@[j];
                &&& p.factory == t.factory_id
                &&& first_pair <= p.number < pairs_length
                &&& task_succeeds(outcomes@[p.number as int]@)
            },
        forall|n: int|
            first_pair <= n < done + 1 && task_succeeds((#[trigger] outcomes@[n])@) ==> exists|
                j: int,
            |
                base.pairs@.len() <= j < final (store).pairs@.len()
                    && (#[trigger] final (store).pairs@[j]).number == n,
        forall|j: int|
            0 <= j < final (store).pairs@.len() && (#[trigger] final (store).pairs@[j]).factory
                == t.factory_id ==> final (store).pairs@[j].number < done + 1,
{
    let attempts = &outcomes[t.pair_num as usize];
    let (res, _used) = process_pair_with_retries(store, t, attempts);
    match res {
        Ok(_) => {
            *completed = *completed + 1;
            proof {
                lemma_prefix_trans(base.pairs@, old(store).pairs@, store.pairs@);
                lemma_prefix_trans(base.tokens@, old(store).tokens@, store.tokens@);
                lemma_prefix_trans(base.reserves@, old(store).reserves@, store.reserves@);
                if !task_succeeds(attempts@) {
                    assert(false);
                }
                assert forall|j: int| 0 <= j < store.pairs@.len() - 1 implies #[trigger] store.pairs@[j] == old(store).pairs@[j] by {
                    assert(old(store).pairs@[j] == old(store).pairs@.subrange(0, old(store).pairs@.len() as int)[j]);
                }
                assert(store.pairs@.last().number == done);
                assert forall|n: int|
                    first_pair <= n < done + 1 && task_succeeds(
                        (#[trigger] outcomes@[n])@,
                    ) implies exists|j: int|
                    base.pairs@.len() <= j < store.pairs@.len()
                        && (#[trigger] store.pairs@[j]).number == n by {
                    if n == done {
                        assert(store.pairs@[store.pairs@.len() - 1].number == n);
                    } else {
                        let j = choose|j: int|
                            base.pairs@.len() <= j < old(store).pairs@.len() && (#[trigger] old(
                                store,
                            ).pairs@[j]).number == n;
                        assert(store.pairs@[j].number == n);
                    }
                }
            }
        },
        Err(_) => {
            *skipped = *skipped + 1;
            proof {
                if task_succeeds(attempts@) {
                    assert(false);
                }
            }
        },
    }
}

/// Law: re-running the indexer cannot duplicate a pair row. Whatever a
/// run appends for a factory carries an ordinal at or above the
/// factory's checkpoint plus one — the shape `run_index` guarantees — and
/// the checkpoint is the maximum persisted ordinal, so no appended row
/// repeats an ordinal already persisted for that factory.
pub proof fn lemma_rerun_no_duplicate_pairs(
    before: Seq<PairEntry>,
    after: Seq<PairEntry>,
    factory_id: i32,
    first_pair: u64,
)
    requires
        before.is_prefix_of(after),
        first_pair == (match max_pair_number(before, factory_id) {
            Some(c) => c + 1,
            None => 0,
        }),
        forall|j: int|
            before.len() <= j < after.len() ==> (#[trigger] after[j]).factory == factory_id
                && first_pair <= after[j].number,
    ensures
        forall|j: int, i: int|
            before.len() <= j < after.len() && 0 <= i < before.len()
                && (#[trigger] before[i]).factory == factory_id ==> (#[trigger] after[j]).number
                != before[i].number,
{
    lemma_max_pair_number(before, factory_id);
}

/// Law: after a run that persisted every ordinal of its work range, the
/// checkpoint equals `pairs_length - 1`, so the next run against an
/// unchanged chain observes an empty work range and appends nothing: the
/// indexer is idempotent.
pub proof fn lemma_completed_run_leaves_empty_range(
    pairs: Seq<PairEntry>,
    factory_id: i32,
    pairs_length: u64,
)
    requires
        pairs_length >= 1,
        exists|i: int|
            0 <= i < pairs.len() && (#[trigger] pairs[i]).factory == factory_id && pairs[i].number
                == pairs_length - 1,
        forall|i: int|
            0 <= i < pairs.len() && (#[trigger] pairs[i]).factory == factory_id ==> pairs[i].number
                <= pairs_length - 1,
    ensures
        (match max_pair_number(pairs, factory_id) {
            Some(c) => c + 1,
            None => 0,
        }) == pairs_length,
{
    lemma_max_pair_number(pairs, factory_id);
}

} // verus!
