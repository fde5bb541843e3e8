//! The persistence boundary: a sink interface for recorded rewards and a
//! thin store that forwards to whichever backend implements it. The sink's
//! own behaviour is outside this crate; nothing is assumed of it.

use crate::message::{BlockReward, Solution};
use vstd::prelude::*;

verus! {

/// A persisted per-solution reward row, as the read-side query surface
/// returns it.
#[derive(Debug)]
pub struct Reward {
    pub address: String,
    pub height: u32,
    pub nonce: u64,
    pub reward: u64,
    pub timestamp: i64,
}

/// A failure reported by the persistence backend.
#[derive(Debug)]
pub struct StorageError {
    pub message: String,
}

/// What a persistence backend must offer. Implementations live outside the
/// pipeline; their record operations may fail, and no write idempotency is
/// assumed of them.
pub trait Storage: Sized {
    fn new(url: String) -> Self;

    fn record_block(&self, block: &BlockReward) -> Result<bool, StorageError>;

    fn record_solutions(&self, solution: &Solution) -> Result<bool, StorageError>;

    fn get_solutions_by_time_range(&self, address: &String, begin: i64, end: i64) -> Result<
        Vec<Reward>,
        StorageError,
    >;
}

/// A store over a concrete backend.
pub struct Store<S: Storage> {
    inner: S,
}

impl<S: Storage> Store<S> {
    pub fn new(url: String) -> Self {
        Store { inner: S::new(url) }
    }

    pub fn record_block(&self, block: &BlockReward) -> Result<bool, StorageError> {
        self.inner.record_block(block)
    }

    pub fn record_solutions(&self, solution: &Solution) -> Result<bool, StorageError> {
        self.inner.record_solutions(solution)
    }

    pub fn get_solutions_by_time_range(&self, address: &String, begin: i64, end: i64) -> Result<
        Vec<Reward>,
        StorageError,
    > {
        self.inner.get_solutions_by_time_range(address, begin, end)
    }
}

} // verus!
