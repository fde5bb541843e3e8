//! The batch catch-up fetcher: pages a historical height range in fixed-size
//! windows, lets a bounded number of window fetches run concurrently, and
//! still hands blocks to the reward engine in strict ascending height order.
//!
//! A window whose fetch finishes early is buffered until all earlier windows
//! have been consumed; consumption advances one window index at a time. Once
//! the failure state is set, nothing further is consumed: fetches that are
//! still in flight may complete, but their results are discarded.

use crate::block::{Block, BlockModel, PreviousBlockState};
use crate::message::Message;
use crate::reward::{
    allow_view, block_events, events_view, parse_block, RewardError,
};
use vstd::arithmetic::div_mod::{lemma_fundamental_div_mod, lemma_mod_bound};
use vstd::prelude::*;

verus! {

/// Why the batch phase stopped. The first error is kept; later ones never
/// replace it.
#[derive(Debug, Clone, Copy, PartialEq, Eq, Structural)]
pub enum BatchError {
    /// The adjusted source tip is below the requested start height.
    StartBeyondTip,
    /// The requested end height is below the start height.
    EndBeforeStart,
    /// A window fetch exhausted its retries.
    FetchFailed,
    /// A block arrived before the carry was seeded with the start block.
    MissingPrevious,
    /// Processing was attempted after the failure state was already set.
    AlreadyFailed,
    /// The reward engine rejected a block.
    Reward(RewardError),
}

/// The models of a block list, element for element.
pub open spec fn models(v: Seq<Block>) -> Seq<BlockModel> {
    v.map_values(|b: Block| b@)
}

/// The blocks of a window that lie inside `[start, end)`, in window order;
/// anything outside the range is discarded as an off-by-one defence.
pub open spec fn retained(ms: Seq<BlockModel>, start: u32, end: u32) -> Seq<BlockModel>
    decreases ms.len(),
{
    if ms.len() == 0 {
        Seq::empty()
    } else {
        let prefix = retained(ms.drop_last(), start, end);
        let m = ms.last();
        if start <= m.height && m.height < end {
            prefix.push(m)
        } else {
            prefix
        }
    }
}

/// How many fixed-size windows cover `[start, end)`.
pub open spec fn spec_n_windows(start: int, end: int, window: int) -> int
    recommends
        window >= 1,
        start <= end,
{
    (end - start + window - 1) / window
}

/// The source tip lowered by a safety margin and rounded down to the window
/// size, so paging never reaches not-yet-stable data.
pub open spec fn spec_adjusted_tip(tip: int, window: int) -> int
    recommends
        window >= 1,
{
    let lowered = if tip >= 10 {
        tip - 10
    } else {
        0
    };
    lowered - (lowered % window)
}

/// The resolved end of the batch range: the requested end if any, clamped to
/// the adjusted tip.
pub open spec fn spec_resolved_end(requested: Option<u32>, tip: u32) -> int {
    match requested {
        Some(e) => if e <= tip {
            e as int
        } else {
            tip as int
        },
        None => tip as int,
    }
}

/// The parts of a fetcher's state that planning fixes and nothing after
/// planning may change.
pub open spec fn same_config(a: Batch, b: Batch) -> bool {
    &&& b.start() == a.start()
    &&& b.end() == a.end()
    &&& b.window_size() == a.window_size()
    &&& b.concurrency() == a.concurrency()
    &&& b.tracked_addresses() == a.tracked_addresses()
    &&& b.stores_blocks() == a.stores_blocks()
    &&& b.is_planned() == a.is_planned()
    &&& b.n_windows() == a.n_windows()
}

/// What a successful `plan` against tip `cdn_height` establishes.
pub open spec fn planned_state(before: Batch, after: Batch, cdn_height: u32) -> bool {
    &&& after.is_planned()
    &&& !after.is_failed()
    &&& after.start() == before.start()
    &&& after.end() == spec_resolved_end(before.end_requested(), cdn_height)
    &&& after.window_size() == before.window_size()
    &&& after.concurrency() == before.concurrency()
    &&& after.tracked_addresses() == before.tracked_addresses()
    &&& after.stores_blocks() == before.stores_blocks()
    &&& after.n_windows() == spec_n_windows(after.start(), after.end(), after.window_size())
    &&& after.next_to_consume() == 0
    &&& after.completed() == before.completed()
    &&& after.fed() == before.fed()
    &&& after.prev_state() is None
    &&& (forall|k: int| 0 <= k < after.n_windows() ==> !after.window_present(k))
}

/// The batch catch-up fetcher's state: the planned windows, the reorder
/// buffer, the processing carry, and the completed-height tracker.
pub struct Batch {
    start_height: u32,
    end_option: Option<u32>,
    address: Vec<String>,
    batch_request: u32,
    batch_concurrent: usize,
    store_block: bool,
    planned: bool,
    end_height: u32,
    pending: Vec<Option<Vec<Block>>>,
    next_window: usize,
    completed_height: u32,
    failed: Option<BatchError>,
    prev: Option<PreviousBlockState>,
    fed: Ghost<Seq<int>>,
}

impl Batch {
    /// The start of the range (the last already-processed height).
    pub closed spec fn start(&self) -> int {
        self.start_height as int
    }

    /// The end height that was requested, if any.
    pub closed spec fn end_requested(&self) -> Option<u32> {
        self.end_option
    }

    /// The resolved exclusive end of the range; meaningful once planned.
    pub closed spec fn end(&self) -> int {
        self.end_height as int
    }

    /// The window size.
    pub closed spec fn window_size(&self) -> int {
        self.batch_request as int
    }

    /// The configured number of concurrent window fetches.
    pub closed spec fn concurrency(&self) -> int {
        self.batch_concurrent as int
    }

    /// The configured address allow-list.
    pub closed spec fn tracked_addresses(&self) -> Seq<String> {
        self.address@
    }

    /// Whether block-level detail is stored.
    pub closed spec fn stores_blocks(&self) -> bool {
        self.store_block
    }

    /// Whether the range has been planned into windows.
    pub closed spec fn is_planned(&self) -> bool {
        self.planned
    }

    /// Whether the failure state is set.
    pub closed spec fn is_failed(&self) -> bool {
        self.failed is Some
    }

    /// The first error, if the failure state is set.
    pub closed spec fn error(&self) -> Option<BatchError> {
        self.failed
    }

    /// The highest height whose reward computation succeeded.
    pub closed spec fn completed(&self) -> int {
        self.completed_height as int
    }

    /// The index of the next window to consume.
    pub closed spec fn next_to_consume(&self) -> int {
        self.next_window as int
    }

    /// How many windows the plan holds.
    pub closed spec fn n_windows(&self) -> int {
        self.pending@.len() as int
    }

    /// Whether window `k` is buffered and not yet consumed.
    pub closed spec fn window_present(&self, k: int) -> bool {
        0 <= k < self.pending@.len() && self.pending@[k] is Some
    }

    /// The buffered blocks of window `k`.
    pub closed spec fn window_blocks(&self, k: int) -> Seq<BlockModel> {
        match self.pending@[k] {
            Some(v) => models(v@),
            None => Seq::empty(),
        }
    }

    /// The processing carry, once seeded.
    pub closed spec fn prev_state(&self) -> Option<PreviousBlockState> {
        self.prev
    }

    /// The heights handed to the reward engine, in the order they were
    /// processed.
    pub closed spec fn fed(&self) -> Seq<int> {
        self.fed@
    }

    /// The fetcher's invariant. In particular, the processing history is
    /// always exactly the consecutive heights `start+1 ..= completed`, and
    /// every window below `next_to_consume` has been drained.
    pub closed spec fn wf(&self) -> bool {
        &&& self.batch_request >= 1
        &&& self.start_height <= self.completed_height
        &&& self.fed@.len() == self.completed_height - self.start_height
        &&& (forall|k: int|
            0 <= k < self.fed@.len() ==> self.fed@[k] == self.start_height + 1 + k)
        &&& self.next_window <= self.pending@.len()
        &&& (forall|k: int| 0 <= k < self.next_window ==> self.pending@[k] is None)
        &&& (!self.planned ==> self.pending@.len() == 0 && self.completed_height
            == self.start_height && self.prev is None && self.end_height == self.start_height)
        &&& (self.planned ==> self.start_height <= self.end_height && self.pending@.len()
            == spec_n_windows(self.start_height as int, self.end_height as int, self.batch_request as int))
        &&& (match self.prev {
            Some(p) => p.height == self.completed_height,
            None => self.completed_height == self.start_height,
        })
    }

    /// A fetcher for the range starting just above `start_height`, to be
    /// planned against the source tip before any window is fetched.
    pub fn new(
        start_height: u32,
        end_height: Option<u32>,
        address: Vec<String>,
        batch_request: u32,
        batch_concurrent: usize,
        store_block: bool,
    ) -> (r: Batch)
        requires
            batch_request >= 1,
        ensures
            r.wf(),
            !r.is_planned(),
            !r.is_failed(),
            r.start() == start_height,
            r.end_requested() == end_height,
            r.completed() == start_height,
            r.window_size() == batch_request,
            r.concurrency() == batch_concurrent,
            r.tracked_addresses() == address@,
            r.stores_blocks() == store_block,
            r.fed() == Seq::<int>::empty(),
            r.prev_state() is None,
    {
        Batch {
            start_height,
            end_option: end_height,
            address,
            batch_request,
            batch_concurrent,
            store_block,
            planned: false,
            end_height: start_height,
            pending: Vec::new(),
            next_window: 0,
            completed_height: start_height,
            failed: None,
            prev: None,
            fed: Ghost(Seq::empty()),
        }
    }

    /// Lowers the raw source tip by the safety margin and rounds it down to
    /// the window size, so the batch never pages into data the source may
    /// still be writing.
    pub fn adjust_tip(&self, tip: u32) -> (t: u32)
        requires
            self.wf(),
        ensures
            t == spec_adjusted_tip(tip as int, self.window_size()),
            t <= tip,
            t as int % self.window_size() == 0,
    {
        let lowered = if tip >= 10 {
            tip - 10
        } else {
            0
        };
        let rem = lowered % self.batch_request;
        proof {
            lemma_mod_bound(lowered as int, self.batch_request as int);
            vstd::arithmetic::div_mod::lemma_mod_decreases(
                lowered as nat,
                self.batch_request as nat,
            );
            vstd::arithmetic::div_mod::lemma_sub_mod_noop(
                lowered as int,
                rem as int,
                self.batch_request as int,
            );
            vstd::arithmetic::div_mod::lemma_mod_self_0(self.batch_request as int);
            vstd::arithmetic::div_mod::lemma_mod_twice(lowered as int, self.batch_request as int);
        }
        lowered - rem
    }

    /// Resolves the range against the (already adjusted) source tip and
    /// partitions it into windows. Fails fast when the tip is below the
    /// start, or when an explicitly requested end is below the start; an
    /// empty range plans zero windows and is already complete.
    pub fn plan(&mut self, cdn_height: u32) -> (r: Result<(), BatchError>)
        requires
            old(self).wf(),
            !old(self).is_planned(),
            !old(self).is_failed(),
        ensures
            final(self).wf(),
            (r matches Err(BatchError::StartBeyondTip)) <==> cdn_height < old(self).start(),
            (r matches Err(BatchError::EndBeforeStart)) <==> (cdn_height >= old(self).start()
                && (old(self).end_requested() matches Some(e) && e < old(self).start())),
            (r is Ok) <==> (cdn_height >= old(self).start()
                && (old(self).end_requested() matches Some(e) ==> e >= old(self).start())),
            r is Err ==> *final(self) == *old(self),
            r is Ok ==> planned_state(*old(self), *final(self), cdn_height),
        {
        if cdn_height < self.start_height {
            return Err(BatchError::StartBeyondTip);
        }
        let end = match self.end_option {
            Some(e) => {
                if e < self.start_height {
                    return Err(BatchError::EndBeforeStart);
                }
                if e <= cdn_height {
                    e
                } else {
                    cdn_height
                }
            },
            None => cdn_height,
        };

        let length = (end - self.start_height) as u64;
        let window = self.batch_request as u64;
        let n64 = (length + window - 1) / window;
        proof {
            lemma_fundamental_div_mod(length + window - 1, window as int);
            lemma_mod_bound(length + window - 1, window as int);
            assert(n64 < 0x1_0000_0000) by (nonlinear_arith)
                requires
                    window >= 1,
                    length < 0x1_0000_0000,
                    (window as int) * (n64 as int) <= length + window - 1,
                    n64 >= 0,
            ;
        }
        let n = n64 as usize;

        let mut pending: Vec<Option<Vec<Block>>> = Vec::new();
        let mut i: usize = 0;
        while i < n
            invariant
                i <= n,
                pending@.len() == i,
                forall|k: int| 0 <= k < i ==> pending@[k] is None,
            decreases n - i,
        {
            pending.push(None);
            i = i + 1;
        }

        self.end_height = end;
        self.pending = pending;
        self.planned = true;
        Ok(())
    }

    /// How many windows the plan holds.
    pub fn window_count(&self) -> (n: usize)
        requires
            self.wf(),
        ensures
            n == self.n_windows(),
    {
        self.pending.len()
    }

    /// The half-open height range `[r.0, r.1)` that window `index` requests
    /// from the source.
    pub fn window_range(&self, index: usize) -> (r: (u32, u32))
        requires
            self.wf(),
            self.is_planned(),
            index < self.n_windows(),
        ensures
            r.0 == self.start() + index * self.window_size(),
            r.1 == if self.start() + (index + 1) * self.window_size() <= self.end() {
                self.start() + (index + 1) * self.window_size()
            } else {
                self.end()
            },
            r.0 < r.1 <= self.end(),
    {
        let start64 = self.start_height as u64;
        let window = self.batch_request as u64;
        let i64v = index as u64;
        let length = (self.end_height - self.start_height) as u64;
        let n64 = self.pending.len() as u64;
        proof {
            lemma_fundamental_div_mod(length + window - 1, window as int);
            lemma_mod_bound(length + window - 1, window as int);
            assert((i64v as int) * (window as int) < length && (i64v as int + 1) * (window as int)
                <= length + window - 1) by (nonlinear_arith)
                requires
                    window >= 1,
                    i64v < n64,
                    (window as int) * (n64 as int) <= length + window - 1,
                    length >= 0,
            ;
            assert((i64v as int + 1) * (window as int) == (i64v as int) * (window as int)
                + window) by (nonlinear_arith);
        }
        let lo = start64 + i64v * window;
        let hi_unclamped = start64 + (i64v + 1) * window;
        let end64 = self.end_height as u64;
        let hi = if hi_unclamped <= end64 {
            hi_unclamped
        } else {
            end64
        };
        ((lo as u32), (hi as u32))
    }

    /// Buffers a fetched window until its turn. Returns whether the window
    /// was kept: results are discarded once the failure state is set, and a
    /// window that is out of range, already consumed, or already buffered is
    /// ignored.
    pub fn store_window(&mut self, index: usize, blocks: Vec<Block>) -> (stored: bool)
        requires
            old(self).wf(),
            old(self).is_planned(),
        ensures
            final(self).wf(),
            stored <==> (!old(self).is_failed() && old(self).next_to_consume() <= index
                && index < old(self).n_windows() && !old(self).window_present(index as int)),
            !stored ==> *final(self) == *old(self),
            stored ==> same_config(*old(self), *final(self))
                && final(self).window_present(index as int)
                && final(self).window_blocks(index as int) == models(blocks@)
                && final(self).next_to_consume() == old(self).next_to_consume()
                && final(self).completed() == old(self).completed()
                && final(self).fed() == old(self).fed()
                && !final(self).is_failed()
                && final(self).prev_state() == old(self).prev_state()
                && (forall|k: int|
                    0 <= k < old(self).n_windows() && k != index
                        ==> final(self).window_present(k) == old(self).window_present(k)
                        && final(self).window_blocks(k) == old(self).window_blocks(k)),
    {
        if self.failed.is_some() {
            return false;
        }
        if index < self.next_window || index >= self.pending.len() {
            return false;
        }
        if self.pending[index].is_some() {
            return false;
        }
        let mut slot: Option<Vec<Block>> = Some(blocks);
        core::mem::swap(&mut slot, &mut self.pending[index]);
        true
    }

    /// Hands out the next window in strict index order, if it has arrived
    /// and the failure state is clear, with its blocks filtered to the
    /// planned range. Consumption never skips ahead: a window is released
    /// only after every earlier window has been released.
    pub fn next_ready(&mut self) -> (w: Option<Vec<Block>>)
        requires
            old(self).wf(),
            old(self).is_planned(),
        ensures
            final(self).wf(),
            w is None ==> *final(self) == *old(self) && (old(self).is_failed() || old(
                self,
            ).next_to_consume() == old(self).n_windows() || !old(self).window_present(
                old(self).next_to_consume(),
            )),
            w matches Some(v) ==> !old(self).is_failed() && old(self).window_present(
                old(self).next_to_consume(),
            ) && models(v@) == retained(
                old(self).window_blocks(old(self).next_to_consume()),
                old(self).start() as u32,
                old(self).end() as u32,
            ) && same_config(*old(self), *final(self))
                && final(self).next_to_consume() == old(self).next_to_consume() + 1
                && !final(self).window_present(old(self).next_to_consume())
                && final(self).completed() == old(self).completed()
                && final(self).fed() == old(self).fed()
                && !final(self).is_failed()
                && final(self).prev_state() == old(self).prev_state()
                && (forall|k: int|
                    0 <= k < old(self).n_windows() && k != old(self).next_to_consume()
                        ==> final(self).window_present(k) == old(self).window_present(k)
                        && final(self).window_blocks(k) == old(self).window_blocks(k)),
    {
        if self.failed.is_some() {
            return None;
        }
        if self.next_window >= self.pending.len() {
            return None;
        }
        if self.pending[self.next_window].is_none() {
            return None;
        }
        let ix = self.next_window;
        let mut slot: Option<Vec<Block>> = None;
        core::mem::swap(&mut slot, &mut self.pending[ix]);
        let window = match slot {
            Some(v) => v,
            None => {
                return None;
            },
        };
        self.next_window = ix + 1;
        let filtered = filter_range(&window, self.start_height, self.end_height);
        Some(filtered)
    }

    /// Records that a window fetch exhausted its retries. The first error
    /// wins; an already-set failure state is kept.
    pub fn mark_fetch_failed(&mut self)
        requires
            old(self).wf(),
        ensures
            final(self).wf(),
            final(self).is_failed(),
            old(self).is_failed() ==> *final(self) == *old(self),
            !old(self).is_failed() ==> final(self).error() == Some(BatchError::FetchFailed),
            final(self).completed() == old(self).completed(),
            final(self).fed() == old(self).fed(),
            final(self).start() == old(self).start(),
            final(self).next_to_consume() == old(self).next_to_consume(),
    {
        if self.failed.is_none() {
            self.failed = Some(BatchError::FetchFailed);
        }
    }

    /// Feeds one released block to the reward engine, threading the carry.
    ///
    /// The block at the start height itself only seeds the carry — its
    /// reward was computed before this run — and emits nothing. Every later
    /// block must continue the chain exactly; the messages it emits are the
    /// engine's, in emission order. Any engine error sets the failure state
    /// and leaves the completed height where it was.
    pub fn process_block(&mut self, block: &Block, coinbase_reward: u64) -> (r: Result<
        Vec<Message>,
        BatchError,
    >)
        requires
            old(self).wf(),
            old(self).is_planned(),
        ensures
            final(self).wf(),
            same_config(*old(self), *final(self)),
            final(self).next_to_consume() == old(self).next_to_consume(),
            old(self).is_failed() ==> (r matches Err(BatchError::AlreadyFailed)) && *final(self)
                == *old(self),
            !old(self).is_failed() && old(self).prev_state() is None && block@.height == old(
                self,
            ).start() ==> (r matches Ok(v) && v@.len() == 0)
                && final(self).prev_state() == Some(crate::block::previous_of(block@))
                && final(self).completed() == old(self).completed()
                && final(self).fed() == old(self).fed()
                && !final(self).is_failed(),
            !old(self).is_failed() && old(self).prev_state() is None && block@.height != old(
                self,
            ).start() ==> (r matches Err(BatchError::MissingPrevious)) && final(self).is_failed()
                && final(self).completed() == old(self).completed()
                && final(self).fed() == old(self).fed(),
            !old(self).is_failed() ==> (old(self).prev_state() matches Some(p) ==> (if engine_accepts(
                block@,
                p,
            ) {
                (r matches Ok(v) && events_view(v@) == block_events(
                    block@,
                    coinbase_reward,
                    allow_view(old(self).tracked_addresses()),
                    old(self).stores_blocks(),
                )) && final(self).completed() == block@.height && final(self).fed() == old(
                    self,
                ).fed().push(block@.height as int) && final(self).prev_state() == Some(
                    crate::block::previous_of(block@),
                ) && !final(self).is_failed()
            } else {
                (r matches Err(BatchError::Reward(_))) && final(self).is_failed() && final(self).completed() == old(self).completed() && final(self).fed() == old(self).fed()
            })),
    {
        if self.failed.is_some() {
            return Err(BatchError::AlreadyFailed);
        }
        match self.prev {
            None => {
                if block.height == self.start_height {
                    self.prev = Some(block.to_previous());
                    Ok(Vec::new())
                } else {
                    let e = BatchError::MissingPrevious;
                    self.failed = Some(e);
                    Err(e)
                }
            },
            Some(p) => {
                match parse_block(block, &p, coinbase_reward, &self.address, self.store_block) {
                    Ok(out) => {
                        self.prev = Some(block.to_previous());
                        self.completed_height = block.height;
                        proof {
                            self.fed@ = self.fed@.push(block@.height as int);
                        }
                        Ok(out.events)
                    },
                    Err(e) => {
                        let err = BatchError::Reward(e);
                        self.failed = Some(err);
                        Err(err)
                    },
                }
            },
        }
    }

    /// The batch result: the highest fully-processed height, together with
    /// the first error if the sync failed.
    pub fn finish(self) -> (r: Result<u32, (u32, BatchError)>)
        requires
            self.wf(),
        ensures
            !self.is_failed() ==> (r matches Ok(h) && h == self.completed()),
            self.is_failed() ==> (r matches Err(p) && p.0 == self.completed() && Some(p.1)
                == self.error()),
    {
        match self.failed {
            None => Ok(self.completed_height),
            Some(e) => Err((self.completed_height, e)),
        }
    }
}

/// Whether the reward engine accepts `b` against carry `p`: the continuity
/// and target conditions under which processing succeeds.
pub open spec fn engine_accepts(b: BlockModel, p: PreviousBlockState) -> bool {
    &&& crate::reward::continuity_ok(b, p)
    &&& !crate::reward::targets_overflow(b.solutions)
    &&& (b.solutions.len() > 0 ==> crate::reward::sum_targets(b.solutions) > 0)
}

/// Keeps the blocks inside `[start, end)`, in order.
fn filter_range(w: &Vec<Block>, start: u32, end: u32) -> (r: Vec<Block>)
    ensures
        models(r@) == retained(models(w@), start, end),
{
    let mut r: Vec<Block> = Vec::new();
    let mut i: usize = 0;
    while i < w.len()
        invariant
            i <= w.len(),
            models(r@) == retained(models(w@).take(i as int), start, end),
        decreases w.len() - i,
    {
        proof {
            let ms = models(w@);
            assert(ms.take(i + 1).drop_last() =~= ms.take(i as int));
            assert(ms.take(i + 1).last() == ms[i as int]);
            assert(ms[i as int] == w@[i as int]@);
        }
        let b = &w[i];
        if start <= b.height && b.height < end {
            let d = b.duplicate();
            proof {
                assert(models(r@.push(d)) =~= models(r@).push(d@));
            }
            r.push(d);
        }
        i = i + 1;
    }
    proof {
        assert(models(w@).take(w@.len() as int) =~= models(w@));
    }
    r
}

/// The ordering law for concurrent fetching: two batch runs over the same
/// range that have completed the same height have handed the reward engine
/// exactly the same sequence of heights — the consecutive ascending run just
/// above the start — whatever order their window fetches finished in. A
/// fetcher with concurrency width one therefore produces the same feed as
/// any wider one.
pub proof fn lemma_processing_order_canonical(a: Batch, b: Batch)
    requires
        a.wf(),
        b.wf(),
        a.start() == b.start(),
        a.completed() == b.completed(),
    ensures
        a.fed() == b.fed(),
{
    assert(a.fed() =~= b.fed());
}

/// The feed is strictly ascending, and never revisits the start height or
/// anything below it: a batch resumed from a persisted cursor reprocesses
/// nothing at or below that cursor.
pub proof fn lemma_feed_ascending(a: Batch)
    requires
        a.wf(),
    ensures
        forall|k: int| 0 <= k < a.fed().len() - 1 ==> #[trigger] a.fed()[k] < a.fed()[k + 1],
        forall|k: int| 0 <= k < a.fed().len() ==> #[trigger] a.fed()[k] > a.start(),
{
}

} // verus!
