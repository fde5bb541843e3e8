//! Ingestion-and-reward pipeline for an append-only chain of blocks.
//!
//! The crate reconstructs the per-block coinbase reward split, keeps strict
//! height order while blocks are fetched concurrently, gates the live tail
//! behind a confirmation depth, and advances a durable height cursor only
//! after a block has been fully processed.

pub mod batch;
pub mod block;
pub mod cli;
pub mod config;
pub mod cursor;
pub mod manage;
pub mod message;
pub mod reward;
pub mod server;
pub mod single;
pub mod storage;
pub mod utils;
