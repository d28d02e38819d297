//! Log levels and their order.

use core::cmp::Ordering;
use vstd::prelude::*;
use vstd::std_specs::cmp::PartialOrdSpecImpl;

verus! {

/// Log levels, from most to least detailed.
#[derive(Debug, Clone, Copy, PartialEq, Eq, Structural)]
pub enum UnifiedLogLevel {
    /// Very detailed tracing (function calls, detailed flow)
    Trace,
    /// Debugging information (values, intermediate state)
    Debug,
    /// General information (start and stop, important changes)
    Info,
    /// Warnings (possible problems, recoverable errors)
    Warn,
    /// Errors (failed work that needs the user)
    Error,
}

/// The number of a level: 1 for `Trace` up to 5 for `Error`.
pub open spec fn level_rank(l: UnifiedLogLevel) -> nat {
    match l {
        UnifiedLogLevel::Trace => 1,
        UnifiedLogLevel::Debug => 2,
        UnifiedLogLevel::Info => 3,
        UnifiedLogLevel::Warn => 4,
        UnifiedLogLevel::Error => 5,
    }
}

/// How two levels compare, by their numbers.
pub open spec fn level_order(a: UnifiedLogLevel, b: UnifiedLogLevel) -> Option<Ordering> {
    if level_rank(a) < level_rank(b) {
        Some(Ordering::Less)
    } else if level_rank(a) == level_rank(b) {
        Some(Ordering::Equal)
    } else {
        Some(Ordering::Greater)
    }
}

/// The number of a level.
pub fn level_number(l: UnifiedLogLevel) -> (n: u8)
    ensures
        n == level_rank(l),
{
    match l {
        UnifiedLogLevel::Trace => 1,
        UnifiedLogLevel::Debug => 2,
        UnifiedLogLevel::Info => 3,
        UnifiedLogLevel::Warn => 4,
        UnifiedLogLevel::Error => 5,
    }
}

impl PartialOrd for UnifiedLogLevel {
    fn partial_cmp(&self, other: &Self) -> (r: Option<Ordering>) {
        let a = level_number(*self);
        let b = level_number(*other);
        if a < b {
            Some(Ordering::Less)
        } else if a == b {
            Some(Ordering::Equal)
        } else {
            Some(Ordering::Greater)
        }
    }
}

impl PartialOrdSpecImpl for UnifiedLogLevel {
    open spec fn obeys_partial_cmp_spec() -> bool {
        true
    }

    open spec fn partial_cmp_spec(&self, other: &Self) -> Option<Ordering> {
        level_order(*self, *other)
    }
}

/// Whether a message of level `level` passes a threshold of `threshold`.
pub fn passes(level: UnifiedLogLevel, threshold: UnifiedLogLevel) -> (b: bool)
    ensures
        b == (level_rank(level) >= level_rank(threshold)),
{
    level_number(level) >= level_number(threshold)
}

} // verus!
