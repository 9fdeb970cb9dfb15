//! What passes between a client and the daemon.

use vstd::prelude::*;

verus! {

/// What a client asks of the daemon.
#[derive(Debug, PartialEq, Eq)]
pub enum Request {
    Get { key: String },
    Put { key: String, value: Vec<u8>, ttl_secs: Option<u64> },
    Clear,
    Stop,
    Status,
    Inspect,
}

/// What the daemon answers.
#[derive(Debug, PartialEq, Eq)]
pub enum Response {
    Miss,
    Hit { value: Vec<u8> },
    Done,
    Status(Status),
    Entries { entries: Vec<Entry> },
}

/// How the daemon is doing.
#[derive(Debug, PartialEq, Eq)]
pub struct Status {
    pub pid: u32,
    pub uptime_secs: u64,
    pub idle_timeout_secs: Option<u64>,
    pub cached: usize,
}

/// One cached secret, as far as it may be shown.
#[derive(Debug, PartialEq, Eq)]
pub struct Entry {
    pub key: String,
    /// Enough of the value to recognize it, never the whole thing.
    pub preview: String,
    pub expires_in_secs: Option<u64>,
}

} // verus!
