//! The lifecycle of a scan as its caller sees it, and the scan configuration.
use vstd::prelude::*;

verus! {

/// Where a scan stands: `Idle`, then `Working`, then `Done` or `Cancelled`.
#[derive(Clone, Copy, Debug, PartialEq, Eq, Structural)]
pub enum ScanState {
    Idle,
    Working,
    Done,
    Cancelled,
}

/// The state after one poll of a scan in state `s`.
pub open spec fn polled(s: ScanState, result_ready: bool, cancel_requested: bool) -> ScanState {
    if s != ScanState::Working {
        s
    } else if result_ready {
        ScanState::Done
    } else if cancel_requested {
        ScanState::Cancelled
    } else {
        ScanState::Working
    }
}

impl ScanState {
    /// A new scan may start unless one is in flight.
    pub fn can_start(self) -> (r: bool)
        ensures
            r == (self != ScanState::Working),
    {
        !matches!(self, ScanState::Working)
    }

    /// The state after one poll of a running scan: a complete result makes it
    /// `Done`; otherwise a set cancel flag makes it `Cancelled`. Outside
    /// `Working` a poll changes nothing.
    pub fn poll(self, result_ready: bool, cancel_requested: bool) -> (r: ScanState)
        ensures
            r == polled(self, result_ready, cancel_requested),
    {
        match self {
            ScanState::Working => {
                if result_ready {
                    ScanState::Done
                } else if cancel_requested {
                    ScanState::Cancelled
                } else {
                    ScanState::Working
                }
            },
            other => other,
        }
    }
}

/// A poll makes a scan `Cancelled` only while it is `Working` (or already
/// `Cancelled`), and never takes a finished scan back to `Working`.
pub proof fn lemma_cancelled_only_from_working(s: ScanState, result_ready: bool, cancel: bool)
    ensures
        polled(s, result_ready, cancel) == ScanState::Cancelled ==> s == ScanState::Working || s
            == ScanState::Cancelled,
        s != ScanState::Working ==> polled(s, result_ready, cancel) == s,
{
}

/// The byte length below which files are passed over, unless set otherwise.
pub const DEFAULT_MIN_SIZE: u64 = 1_000_000;

/// What a scan is asked to do: the roots to walk, in order, and the size
/// threshold (inclusive).
#[derive(Clone, Debug)]
pub struct ScanConfig {
    pub roots: Vec<String>,
    pub min_size: u64,
}

impl ScanConfig {
    /// A configuration over `roots` with threshold `min_size`.
    pub fn new(roots: Vec<String>, min_size: u64) -> (r: ScanConfig)
        ensures
            r.roots@ == roots@,
            r.min_size == min_size,
    {
        ScanConfig { roots, min_size }
    }
}

impl Default for ScanConfig {
    /// No roots, and the default threshold.
    fn default() -> (r: ScanConfig)
        ensures
            r.roots@.len() == 0,
            r.min_size == DEFAULT_MIN_SIZE,
    {
        ScanConfig { roots: Vec::new(), min_size: DEFAULT_MIN_SIZE }
    }
}

} // verus!
