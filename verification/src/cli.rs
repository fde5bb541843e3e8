//! The command surface: what the surrounding program can be asked to do.
//! Argument parsing and execution live with the program; these are the
//! parsed commands themselves.

use vstd::prelude::*;

verus! {

/// The parsed invocation.
#[derive(Debug, Clone)]
pub struct CLI {
    pub command: Command,
}

/// A top-level command.
#[derive(Debug, Clone)]
pub enum Command {
    /// Run the ingestion pipeline, or inspect its height cursor.
    Sync(Sync),
    /// Serve the read-only query surface.
    Server(Api),
}

/// The sync subcommands.
#[derive(Debug, Clone)]
pub enum Sync {
    /// Start the pipeline with the given configuration file.
    Start { config: String },
    /// Print the height stored in a cursor file.
    Check { file: String },
    /// Overwrite the height stored in a cursor file.
    Update { file: String, height: u32 },
}

/// The query-surface subcommands.
#[derive(Debug, Clone)]
pub enum Api {
    /// Start the server with the given configuration file.
    Start { config: String },
}

} // verus!
