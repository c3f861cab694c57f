//! Severity of findings and log records.

use vstd::prelude::*;

verus! {

/// Severity of a finding, from the most to the least severe.
#[derive(Debug, Clone, Copy, PartialEq, Eq, Structural)]
pub enum Level {
    Error,
    Warn,
    Info,
    Debug,
    Trace,
}

/// Rank of a level: the larger, the less severe.
pub open spec fn level_rank(level: Level) -> int {
    match level {
        Level::Error => 1,
        Level::Warn => 2,
        Level::Info => 3,
        Level::Debug => 4,
        Level::Trace => 5,
    }
}

/// Whether a finding of level `finding` stops a parser whose fail level is
/// `fail_level`: it does when it is at least as severe.
pub open spec fn stops(fail_level: Level, finding: Level) -> bool {
    level_rank(finding) <= level_rank(fail_level)
}

impl Level {
    /// Rank of a level: the larger, the less severe.
    pub fn rank(&self) -> (rank: u8)
        ensures
            rank == level_rank(*self),
    {
        match self {
            Level::Error => 1,
            Level::Warn => 2,
            Level::Info => 3,
            Level::Debug => 4,
            Level::Trace => 5,
        }
    }

    /// Whether a parser with this fail level stops at a finding of level
    /// `finding`.
    pub fn stops_at(&self, finding: Level) -> (stopped: bool)
        ensures
            stopped == stops(*self, finding),
    {
        finding.rank() <= self.rank()
    }
}

/// A parser stops at findings that are at least as severe as its fail level: one
/// that fails on errors stops at those alone, and each level below stops at one
/// more.
pub proof fn parsers_stop_at_what_is_severe_enough(finding: Level)
    ensures
        stops(Level::Error, finding) <==> finding == Level::Error,
        stops(Level::Warn, finding) <==> finding == Level::Error || finding == Level::Warn,
        stops(Level::Info, finding) <==> finding != Level::Debug && finding != Level::Trace,
        stops(Level::Debug, finding) <==> finding != Level::Trace,
        stops(Level::Trace, finding),
{
}

} // verus!
