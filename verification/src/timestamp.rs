//! Modification times as exact integers.

use vstd::prelude::*;

verus! {

/// Nanoseconds in one second.
pub const NANOS_PER_SECOND: i128 = 1_000_000_000;

/// A point in time, held as whole nanoseconds relative to the Unix epoch.
///
/// Times before the epoch are negative. Every time that a clock with a
/// 64-bit second count and a nanosecond part can report fits.
#[derive(Clone, Copy, Debug, PartialEq, Eq, Structural)]
pub struct Timestamp {
    nanos: i128,
}

impl View for Timestamp {
    type V = int;

    /// Signed nanoseconds since the Unix epoch.
    closed spec fn view(&self) -> int {
        self.nanos as int
    }
}

impl Timestamp {
    /// The time `seconds` and `nanos` after the Unix epoch.
    pub fn after_epoch(seconds: u64, nanos: u32) -> (t: Timestamp)
        ensures
            t@ == seconds * NANOS_PER_SECOND + nanos,
    {
        Timestamp { nanos: (seconds as i128) * NANOS_PER_SECOND + (nanos as i128) }
    }

    /// The time `seconds` and `nanos` before the Unix epoch.
    pub fn before_epoch(seconds: u64, nanos: u32) -> (t: Timestamp)
        ensures
            t@ == -(seconds * NANOS_PER_SECOND + nanos),
    {
        Timestamp { nanos: -((seconds as i128) * NANOS_PER_SECOND + (nanos as i128)) }
    }

    /// Whether `self` is strictly later than `other`. Equal times are not newer.
    pub fn is_newer_than(&self, other: &Timestamp) -> (newer: bool)
        ensures
            newer == (self@ > other@),
    {
        self.nanos > other.nanos
    }
}

} // verus!
