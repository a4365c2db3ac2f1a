//! Severities of detail lines and the thresholds that filter them.

use vstd::prelude::*;

verus! {

/// The severity of one detail line, from the most to the least severe.
#[derive(Clone, Copy, Debug, PartialEq, Eq)]
pub enum Level {
    Error,
    Warn,
    Info,
    Debug,
    Trace,
}

/// The most verbose severity that a detailer keeps; `Off` keeps nothing.
#[derive(Clone, Copy, Debug, PartialEq, Eq)]
pub enum LevelFilter {
    Off,
    Error,
    Warn,
    Info,
    Debug,
    Trace,
}

/// Verbosity rank of a severity: `Error` is the least verbose.
pub open spec fn level_rank(l: Level) -> nat {
    match l {
        Level::Error => 1,
        Level::Warn => 2,
        Level::Info => 3,
        Level::Debug => 4,
        Level::Trace => 5,
    }
}

/// Verbosity rank of a threshold: `Off` is below every severity.
pub open spec fn filter_rank(f: LevelFilter) -> nat {
    match f {
        LevelFilter::Off => 0,
        LevelFilter::Error => 1,
        LevelFilter::Warn => 2,
        LevelFilter::Info => 3,
        LevelFilter::Debug => 4,
        LevelFilter::Trace => 5,
    }
}

/// A line of severity `l` is kept under threshold `f` when it is no more
/// verbose than `f`.
pub open spec fn passes(l: Level, f: LevelFilter) -> bool {
    level_rank(l) <= filter_rank(f)
}

/// The severity that a threshold names, if any.
pub open spec fn filter_level(f: LevelFilter) -> Option<Level> {
    match f {
        LevelFilter::Off => None,
        LevelFilter::Error => Some(Level::Error),
        LevelFilter::Warn => Some(Level::Warn),
        LevelFilter::Info => Some(Level::Info),
        LevelFilter::Debug => Some(Level::Debug),
        LevelFilter::Trace => Some(Level::Trace),
    }
}

impl Level {
    /// The verbosity rank of this severity.
    pub fn rank(self) -> (r: u8)
        ensures
            r == level_rank(self),
    {
        match self {
            Level::Error => 1,
            Level::Warn => 2,
            Level::Info => 3,
            Level::Debug => 4,
            Level::Trace => 5,
        }
    }

    /// Whether a line of this severity is kept under `filter`.
    pub fn passes(self, filter: LevelFilter) -> (r: bool)
        ensures
            r == passes(self, filter),
    {
        self.rank() <= filter.rank()
    }
}

impl LevelFilter {
    /// The verbosity rank of this threshold.
    pub fn rank(self) -> (r: u8)
        ensures
            r == filter_rank(self),
    {
        match self {
            LevelFilter::Off => 0,
            LevelFilter::Error => 1,
            LevelFilter::Warn => 2,
            LevelFilter::Info => 3,
            LevelFilter::Debug => 4,
            LevelFilter::Trace => 5,
        }
    }

    /// The severity this threshold names; `None` for `Off`.
    pub fn to_level(self) -> (r: Option<Level>)
        ensures
            r == filter_level(self),
    {
        match self {
            LevelFilter::Off => None,
            LevelFilter::Error => Some(Level::Error),
            LevelFilter::Warn => Some(Level::Warn),
            LevelFilter::Info => Some(Level::Info),
            LevelFilter::Debug => Some(Level::Debug),
            LevelFilter::Trace => Some(Level::Trace),
        }
    }
}

/// Nothing passes the `Off` threshold.
pub proof fn off_passes_nothing(l: Level)
    ensures
        !passes(l, LevelFilter::Off),
{
}

/// A threshold always passes the severity it names.
pub proof fn named_level_passes(f: LevelFilter)
    ensures
        filter_level(f) matches Some(l) ==> passes(l, f),
{
}

} // verus!
