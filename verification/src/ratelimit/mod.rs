//! Serve scheduler and rate limiting for a file-serving route.
//!
//! The [`limiters`] decide whether a request may start; the [`scheduler`] decides which
//! request is next, and asks them. [`state`] describes both as a state machine, and
//! [`gcra_laws`] and [`scheduler_laws`] say what holds of it over time.
use vstd::prelude::*;

use crate::clock::{Nanos, SECOND};

pub mod concurrency;
pub mod gcra;
pub mod gcra_laws;
pub mod level;
pub mod limiters;
mod lines;
pub mod permits;
pub mod scheduler;
pub mod scheduler_laws;
pub mod state;

verus! {

/// How long a request may wait in the pool (measured from receipt) before it gives up and
/// the connection is reset.
pub const SERVE_TIMEOUT: Nanos = 30 * SECOND;

/// Information about a request that rate limiters may use for their decisions.
#[derive(Clone, Copy)]
pub struct ReqInfo {
    /// Response size in bytes; also the scheduling priority (smallest first).
    pub size: u32,
}

/// When a blocked limiter might allow progress.
#[derive(Clone, Copy, PartialEq, Eq, Structural, Debug)]
pub enum Wakeup {
    /// Once this many nanoseconds have passed.
    After(Nanos),
    /// Not by the passing of time: only a finished serve can help.
    Never,
}

impl Wakeup {
    /// The wakeup that comes first: both are waited for, and either ends the wait.
    pub open spec fn first_of(self, other: Wakeup) -> Wakeup {
        match (self, other) {
            (Wakeup::After(a), Wakeup::After(b)) => if a <= b {
                self
            } else {
                other
            },
            (Wakeup::After(_), Wakeup::Never) => self,
            (Wakeup::Never, _) => other,
        }
    }

    /// Whether the wakeup has come once `elapsed` nanoseconds have passed.
    pub open spec fn due(self, elapsed: int) -> bool {
        self matches Wakeup::After(d) && d <= elapsed
    }

    /// The wakeup that comes first of the two.
    pub fn first(self, other: Wakeup) -> (r: Wakeup)
        ensures
            r == self.first_of(other),
    {
        match (self, other) {
            (Wakeup::After(a), Wakeup::After(b)) => if a <= b {
                self
            } else {
                other
            },
            (Wakeup::After(_), Wakeup::Never) => self,
            (Wakeup::Never, _) => other,
        }
    }
}

/// Outcome of asking the limiters whether a request may start.
#[derive(Clone, Copy, PartialEq, Eq, Structural, Debug)]
pub enum Decision {
    /// All limiters allow the request to start now.
    Ready,
    /// At least one limiter blocks; the wakeup comes when re-checking is worthwhile.
    Blocked(Wakeup),
}

impl Decision {
    /// The decision of two limiters together: ready where both are, and otherwise blocked
    /// until the first of the wakeups of those that block.
    pub open spec fn both(self, other: Decision) -> Decision {
        match (self, other) {
            (Decision::Ready, _) => other,
            (_, Decision::Ready) => self,
            (Decision::Blocked(a), Decision::Blocked(b)) => Decision::Blocked(a.first_of(b)),
        }
    }

    /// The decision of two limiters together.
    pub fn and(self, other: Decision) -> (r: Decision)
        ensures
            r == self.both(other),
    {
        match (self, other) {
            (Decision::Ready, _) => other,
            (_, Decision::Ready) => self,
            (Decision::Blocked(a), Decision::Blocked(b)) => Decision::Blocked(a.first(b)),
        }
    }
}

} // verus!
