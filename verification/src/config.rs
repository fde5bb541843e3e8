//! The configuration values the pipeline consumes. Loading them from a
//! configuration file is the surrounding program's business.

use vstd::prelude::*;

verus! {

/// The pipeline's configuration surface.
#[derive(Debug, Clone)]
pub struct Config {
    /// Source base URLs, tried in order with failover.
    pub aleoapi: Vec<String>,
    /// Connection string of the persistence backend.
    pub mysqldsn: String,
    /// Batch window size, in blocks per request.
    pub batch_request: u32,
    /// How many window fetches may run concurrently.
    pub batch_concurrent: usize,
    /// Tracked address allow-list; empty allows all.
    pub address: Vec<String>,
    /// Whether block-level detail is stored.
    pub store_block: bool,
    /// Path of the durable height cursor's backing file.
    pub synced_height_file: String,
    /// Address the read-only query surface listens on.
    pub listen_ip: String,
}

} // verus!
