//! The message kinds the reward engine emits, their mathematical models, and
//! the dispatcher step that applies one message to the persistence sink.
//!
//! The dispatcher is single-consumer and ordered: messages are applied in
//! receipt order, a sink failure ends the loop (crash-stop), and only a
//! height-advanced message moves the durable cursor.

use crate::block::{Block, BlockModel};
use crate::cursor::encode_height;
use crate::storage::{Storage, StorageError, Store};
use vstd::bytes::spec_u32_to_le_bytes;
use vstd::prelude::*;

verus! {

/// Every message kind names itself for logging and inspection.
pub trait MessageTrait {
    spec fn spec_name(&self) -> Seq<char>;

    fn name(&self) -> (r: String)
        ensures
            r@ == self.spec_name(),
    ;
}

/// A reward earned by one tracked solution of one block.
#[derive(Debug)]
pub struct Solution {
    pub block_height: u32,
    pub address: String,
    pub nonce: u64,
    pub commitment: String,
    pub solution_reward: u64,
    pub timestamp: i64,
}

/// Block-level reward detail: the full block, how many solutions it carried,
/// and the total reward distributed over them.
#[derive(Debug)]
pub struct BlockReward {
    pub block: Block,
    pub solutions_num: usize,
    pub block_reward: u64,
}

/// A block has been fully processed; the durable cursor may advance to this
/// height.
#[derive(Debug)]
pub struct SyncHeight {
    pub height: u32,
}

/// One message on the ordered channel from the reward engine to the sink.
#[derive(Debug)]
pub enum Message {
    Solution(Solution),
    BlockReward(BlockReward),
    SyncHeight(SyncHeight),
}

/// Mathematical model of a `Message`.
pub ghost enum EventModel {
    Solution {
        block_height: u32,
        address: Seq<char>,
        nonce: u64,
        commitment: Seq<char>,
        solution_reward: u64,
        timestamp: i64,
    },
    BlockReward { block: BlockModel, solutions_num: int, block_reward: u64 },
    SyncHeight { height: u32 },
}

impl View for Message {
    type V = EventModel;

    open spec fn view(&self) -> EventModel {
        match self {
            Message::Solution(m) => EventModel::Solution {
                block_height: m.block_height,
                address: m.address@,
                nonce: m.nonce,
                commitment: m.commitment@,
                solution_reward: m.solution_reward,
                timestamp: m.timestamp,
            },
            Message::BlockReward(m) => EventModel::BlockReward {
                block: m.block@,
                solutions_num: m.solutions_num as int,
                block_reward: m.block_reward,
            },
            Message::SyncHeight(m) => EventModel::SyncHeight { height: m.height },
        }
    }
}

impl MessageTrait for Solution {
    open spec fn spec_name(&self) -> Seq<char> {
        "solution"@
    }

    fn name(&self) -> (r: String) {
        String::from_str("solution")
    }
}

impl MessageTrait for BlockReward {
    open spec fn spec_name(&self) -> Seq<char> {
        "block_reward"@
    }

    fn name(&self) -> (r: String) {
        String::from_str("block_reward")
    }
}

impl MessageTrait for SyncHeight {
    open spec fn spec_name(&self) -> Seq<char> {
        "sync_height"@
    }

    fn name(&self) -> (r: String) {
        String::from_str("sync_height")
    }
}

impl Message {
    /// The name of this message's kind.
    pub open spec fn spec_name(&self) -> Seq<char> {
        match self {
            Message::Solution(m) => m.spec_name(),
            Message::BlockReward(m) => m.spec_name(),
            Message::SyncHeight(m) => m.spec_name(),
        }
    }

    pub fn name(&self) -> (r: String)
        ensures
            r@ == self.spec_name(),
    {
        match self {
            Message::Solution(m) => m.name(),
            Message::BlockReward(m) => m.name(),
            Message::SyncHeight(m) => m.name(),
        }
    }
}

/// What the dispatcher does after applying one message: carry on (with the
/// cursor bytes to persist, if the message advanced the height), or stop
/// because the sink failed and its state is no longer known.
#[derive(Debug)]
pub enum HandleOutcome {
    Continue(Option<Vec<u8>>),
    Stop(StorageError),
}

/// Applies one received message to the persistence sink.
///
/// Reward messages go to the sink's record operations; a failure there is
/// final (crash-stop), since retrying could duplicate writes. A
/// height-advanced message never touches the sink: it yields exactly the
/// little-endian bytes that the durable cursor store must be overwritten
/// with.
pub fn handle<S: Storage>(store: &Store<S>, message: &Message) -> (r: HandleOutcome)
    ensures
        message matches Message::SyncHeight(m) ==> r matches HandleOutcome::Continue(
            Some(bytes),
        ) && bytes@ == spec_u32_to_le_bytes(m.height),
        message matches Message::Solution(_) ==> !(r matches HandleOutcome::Continue(Some(_))),
        message matches Message::BlockReward(_) ==> !(r matches HandleOutcome::Continue(Some(_))),
{
    match message {
        Message::Solution(msg) => match store.record_solutions(msg) {
            Ok(_) => HandleOutcome::Continue(None),
            Err(e) => HandleOutcome::Stop(e),
        },
        Message::BlockReward(msg) => match store.record_block(msg) {
            Ok(_) => HandleOutcome::Continue(None),
            Err(e) => HandleOutcome::Stop(e),
        },
        Message::SyncHeight(msg) => HandleOutcome::Continue(Some(encode_height(msg.height))),
    }
}

} // verus!
