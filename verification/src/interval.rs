//! Lengths of time, as whole seconds and nanoseconds.

use vstd::prelude::*;

verus! {

/// A length of time.
#[derive(Debug, Clone, Copy, PartialEq, Eq, Structural)]
pub struct Interval {
    pub secs: u64,
    pub nanos: u32,
}

impl Interval {
    /// The length in nanoseconds.
    pub open spec fn total_nanos(&self) -> int {
        self.secs * 1_000_000_000 + self.nanos
    }

    pub fn new(secs: u64, nanos: u32) -> (r: Interval)
        ensures
            r == (Interval { secs, nanos }),
    {
        Interval { secs, nanos }
    }

    /// That many milliseconds.
    pub fn from_millis(millis: u64) -> (r: Interval)
        ensures
            r.total_nanos() == millis * 1_000_000,
            r.secs == millis / 1000,
            r.nanos == (millis % 1000) * 1_000_000,
    {
        let rest: u32 = (millis % 1000) as u32;
        Interval { secs: millis / 1000, nanos: rest * 1_000_000 }
    }

    /// Whether this length of time is longer than `other`.
    pub fn longer_than(&self, other: &Interval) -> (r: bool)
        ensures
            r == (self.total_nanos() > other.total_nanos()),
    {
        let mine: u128 = self.secs as u128 * 1_000_000_000 + self.nanos as u128;
        let theirs: u128 = other.secs as u128 * 1_000_000_000 + other.nanos as u128;
        mine > theirs
    }
}

} // verus!
