use vstd::prelude::*;
use crate::observer::prompt::{decimal_i64, signed_decimal};
use crate::observer::record::{format_utc_timestamp, utc_timestamp_text, TIMESTAMP_FORMAT};

verus! {

/// The command line: the database file and the command to run.
#[derive(Debug, Clone)]
pub struct Cli {
    pub db: String,
    pub command: Command,
}

/// What the command line asks for.
#[derive(Debug, Clone)]
pub enum Command {
    /// Store a memory by hand.
    Add {
        title: String,
        content: String,
        tags: String,
        kind: String,
        obs_type: String,
        session_id: Option<String>,
        source: String,
        project: String,
    },
    /// Classify a tool execution, and store it when asked to.
    Observe {
        tool_name: String,
        tool_input: String,
        tool_output: String,
        cwd: String,
        session_id: Option<String>,
        source: String,
        project: String,
        user_prompt: Option<String>,
        tags: String,
        write_to_db: bool,
    },
    /// Summarize a session.
    Summarize { session_id: String, project: String, source: String },
    /// Search the memories.
    Search { query: String, mode: String, scope: String, tags: Option<String>, limit: u64 },
    /// List the latest memories.
    List { limit: usize, scope: String, kind: Option<String> },
    /// Show one memory.
    Get { id: i64 },
    /// Change fields of a memory.
    Update {
        id: i64,
        title: Option<String>,
        content: Option<String>,
        tags: Option<String>,
        obs_type: Option<String>,
        narrative: Option<String>,
    },
    /// Delete a memory.
    Delete { id: i64 },
    /// Work on the search indexes.
    Index { action: IndexAction },
    /// Store sample memories.
    Simulate { count: usize, random: bool },
    /// Show statistics.
    Stats,
    /// Fetch the embedding model.
    Download,
    /// Check that the embedding model runs.
    Verify,
    /// Serve the Model Context Protocol on standard input and output.
    Mcp,
}

/// What `index` does.
#[derive(Debug, Clone, Copy, PartialEq, Eq, Structural)]
pub enum IndexAction {
    /// Rebuild the text index and embed the memories without a vector.
    Build,
    /// Rebuild the text index and embed every memory anew.
    Rebuild,
    /// Show index statistics.
    Stats,
}

/// How many memories of a kind are fetched to list `limit` of them: four
/// times as many, saturating at the largest `usize`.
pub fn kind_fetch_limit(limit: usize) -> (r: usize)
    ensures
        r == (if 4 * limit > usize::MAX {
            usize::MAX as int
        } else {
            4 * limit
        }),
        r >= limit,
{
    if limit > usize::MAX / 4 {
        usize::MAX
    } else {
        limit * 4
    }
}

/// An epoch as the command line shows it: the UTC date and time, or the
/// number itself where chrono cannot place it.
pub fn epoch_label(epoch: i64) -> (r: String)
    ensures
        r@ == match utc_timestamp_text(epoch, TIMESTAMP_FORMAT@) {
            Some(s) => s,
            None => signed_decimal(epoch as int),
        },
{
    match format_utc_timestamp(epoch, TIMESTAMP_FORMAT) {
        Some(s) => s,
        None => decimal_i64(epoch),
    }
}

} // verus!
