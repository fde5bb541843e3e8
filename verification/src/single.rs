//! The live tail fetcher: after catch-up, polls the chain tip and processes
//! one new block at a time, once it is judged safely confirmed.
//!
//! The tail never terminates on a recoverable error: every failure is
//! answered by sleeping one block interval and retrying, without advancing.
//! Blocks within the confirmation depth of the tip are not yet trusted as
//! final and are not fetched (the fork-avoidance gate).

use crate::batch::engine_accepts;
use crate::block::{Block, PreviousBlockState};
use crate::block::previous_of;
use crate::message::Message;
use crate::reward::{allow_view, block_events, events_view, parse_block, RewardError};
use vstd::prelude::*;

verus! {

/// What the tail does next, given the current chain tip.
#[derive(Debug, Clone, Copy, PartialEq, Eq, Structural)]
pub enum TailAction {
    /// Wait one block interval, then poll the tip again.
    Sleep,
    /// Fetch the block at the last processed height itself, to seed the
    /// carry after a restart or after catch-up.
    FetchSeed(u32),
    /// Fetch the next unprocessed block.
    FetchNext(u32),
}

/// Why the tail could not process a fetched block. None of these advance
/// the processed height; the loop sleeps and retries.
#[derive(Debug, Clone, Copy, PartialEq, Eq, Structural)]
pub enum TailError {
    /// The fetched seed block is not at the last processed height.
    SeedHeightMismatch,
    /// A block was handed in before the carry was seeded.
    NotSeeded,
    /// The reward engine rejected the block.
    Reward(RewardError),
}

/// The live tail's state: the last fully processed height and the one-block
/// carry for the reward engine.
pub struct Single {
    start_height: u32,
    latest_height: u32,
    address: Vec<String>,
    store_block: bool,
    confirmation_depth: u32,
    prev: Option<PreviousBlockState>,
    fed: Ghost<Seq<int>>,
}

impl Single {
    /// The height the tail was started from (the persisted cursor).
    pub closed spec fn start(&self) -> u32 {
        self.start_height
    }

    /// The last fully processed height.
    pub closed spec fn latest(&self) -> u32 {
        self.latest_height
    }

    /// The confirmation depth of the fork-avoidance gate.
    pub closed spec fn depth(&self) -> u32 {
        self.confirmation_depth
    }

    /// The configured address allow-list.
    pub closed spec fn tracked_addresses(&self) -> Seq<String> {
        self.address@
    }

    /// Whether block-level detail is stored.
    pub closed spec fn stores_blocks(&self) -> bool {
        self.store_block
    }

    /// The carry, once seeded.
    pub closed spec fn prev_state(&self) -> Option<PreviousBlockState> {
        self.prev
    }

    /// The heights handed to the reward engine, in processing order.
    pub closed spec fn fed(&self) -> Seq<int> {
        self.fed@
    }

    /// The tail's invariant: the processing history is exactly the
    /// consecutive heights `start+1 ..= latest`, and the carry, once
    /// seeded, sits at the latest processed height.
    pub closed spec fn wf(&self) -> bool {
        &&& self.start_height <= self.latest_height
        &&& self.fed@.len() == self.latest_height - self.start_height
        &&& (forall|k: int|
            0 <= k < self.fed@.len() ==> self.fed@[k] == self.start_height + 1 + k)
        &&& (match self.prev {
            Some(p) => p.height == self.latest_height,
            None => self.latest_height == self.start_height,
        })
    }

    /// A tail resuming from `latest_height`, the last height known to be
    /// fully processed.
    pub fn new(
        latest_height: u32,
        address: Vec<String>,
        store_block: bool,
        confirmation_depth: u32,
    ) -> (r: Single)
        ensures
            r.wf(),
            r.start() == latest_height,
            r.latest() == latest_height,
            r.depth() == confirmation_depth,
            r.tracked_addresses() == address@,
            r.stores_blocks() == store_block,
            r.prev_state() is None,
            r.fed() == Seq::<int>::empty(),
    {
        Single {
            start_height: latest_height,
            latest_height,
            address,
            store_block,
            confirmation_depth,
            prev: None,
            fed: Ghost(Seq::empty()),
        }
    }

    /// Decides the tail's next step from the polled chain tip.
    ///
    /// The fork-avoidance gate: while the tip sits within the confirmation
    /// depth of the last processed height — in particular whenever the
    /// source is behind — the tail only sleeps; it asks for another block
    /// solely when the tip has moved far enough ahead.
    pub fn next_action(&self, chain_height: u32) -> (a: TailAction)
        requires
            self.wf(),
        ensures
            (a == TailAction::Sleep) <==> chain_height - self.latest() <= self.depth(),
            chain_height - self.latest() > self.depth() && self.prev_state() is None ==> a
                == TailAction::FetchSeed(self.latest()),
            chain_height - self.latest() > self.depth() && self.prev_state() is Some ==> a
                == TailAction::FetchNext((self.latest() + 1) as u32),
            a matches TailAction::FetchNext(h) ==> h == self.latest() + 1,
            a matches TailAction::FetchSeed(h) ==> h == self.latest(),
    {
        if chain_height < self.latest_height {
            return TailAction::Sleep;
        }
        if chain_height - self.latest_height <= self.confirmation_depth {
            return TailAction::Sleep;
        }
        match self.prev {
            None => TailAction::FetchSeed(self.latest_height),
            Some(_) => TailAction::FetchNext(self.latest_height + 1),
        }
    }

    /// Seeds the carry with the block at the last processed height itself.
    /// That block's reward was computed before this run; it is fetched only
    /// so the next block has a predecessor, and emits nothing.
    pub fn seed(&mut self, block: &Block) -> (r: Result<(), TailError>)
        requires
            old(self).wf(),
        ensures
            final(self).wf(),
            (r is Ok) <==> block@.height == old(self).latest(),
            r is Err ==> (r matches Err(TailError::SeedHeightMismatch)) && *final(self) == *old(self),
            r is Ok ==> final(self).prev_state() == Some(previous_of(block@)) && final(self).latest() == old(self).latest() && final(self).start() == old(self).start() && final(self).fed() == old(self).fed() && final(self).depth() == old(self).depth() && final(self).tracked_addresses() == old(self).tracked_addresses() && final(self).stores_blocks()
                == old(self).stores_blocks(),
    {
        if block.height != self.latest_height {
            return Err(TailError::SeedHeightMismatch);
        }
        self.prev = Some(block.to_previous());
        Ok(())
    }

    /// Processes the block at `latest + 1`, threading the carry.
    ///
    /// On success the processed height advances by exactly one and the
    /// block becomes the new carry; the returned messages are the engine's,
    /// in emission order. On any failure nothing advances: the caller
    /// sleeps and retries, and the same height is fetched again.
    pub fn process_next(&mut self, block: &Block, coinbase_reward: u64) -> (r: Result<
        Vec<Message>,
        TailError,
    >)
        requires
            old(self).wf(),
        ensures
            final(self).wf(),
            final(self).start() == old(self).start(),
            final(self).depth() == old(self).depth(),
            final(self).tracked_addresses() == old(self).tracked_addresses(),
            final(self).stores_blocks() == old(self).stores_blocks(),
            old(self).prev_state() is None ==> (r matches Err(TailError::NotSeeded)) && *final(self)
                == *old(self),
            old(self).prev_state() matches Some(p) ==> (if engine_accepts(block@, p) {
                (r matches Ok(v) && events_view(v@) == block_events(
                    block@,
                    coinbase_reward,
                    allow_view(old(self).tracked_addresses()),
                    old(self).stores_blocks(),
                )) && final(self).latest() == block@.height && final(self).prev_state() == Some(
                    previous_of(block@),
                ) && final(self).fed() == old(self).fed().push(block@.height as int)
            } else {
                (r matches Err(TailError::Reward(_))) && *final(self) == *old(self)
            }),
    {
        let p = match self.prev {
            None => {
                return Err(TailError::NotSeeded);
            },
            Some(p) => p,
        };
        match parse_block(block, &p, coinbase_reward, &self.address, self.store_block) {
            Ok(out) => {
                self.prev = Some(block.to_previous());
                self.latest_height = block.height;
                proof {
                    self.fed@ = self.fed@.push(block@.height as int);
                }
                Ok(out.events)
            },
            Err(e) => Err(TailError::Reward(e)),
        }
    }
}

/// Resumability: a tail started from a persisted cursor hands the reward
/// engine only heights strictly above the cursor, in consecutive ascending
/// order — height `cursor + 1` first, and nothing at or below the cursor is
/// ever reprocessed.
pub proof fn lemma_tail_resumes_above_cursor(s: Single)
    requires
        s.wf(),
    ensures
        forall|k: int| 0 <= k < s.fed().len() ==> #[trigger] s.fed()[k] > s.start(),
        forall|k: int| 0 <= k < s.fed().len() ==> #[trigger] s.fed()[k] == s.start() + 1 + k,
{
}

} // verus!
