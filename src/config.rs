//! Run-wide settings.
use vstd::prelude::*;

verus! {

/// The wait time that applies when none is given, in seconds.
pub const DEFAULT_WAIT_TIME: &'static str = "1.0";

/// Where the timestamp of a printed value comes from.
#[derive(Debug, Clone, Copy, PartialEq, Eq, Structural)]
pub enum TimestampKind {
    CAServer,
    CAClient,
    Incremental,
    IncrementalByChannel,
    No,
    Relative,
}

pub const DEFAULT_TIMESTAMP: TimestampKind = TimestampKind::CAServer;

/// How records are printed and how long connecting may take.
#[derive(Debug, Clone, Copy, PartialEq, Eq, Structural)]
pub struct DisplayConfig {
    /// The connection deadline, in milliseconds.
    pub wait_ms: u64,
    /// Read each channel on its own, keeping whatever succeeds.
    pub asynchronous: bool,
    /// Leave out the name column.
    pub terse: bool,
    /// Add the timestamp column.
    pub wide: bool,
}

} // verus!
