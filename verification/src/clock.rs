//! A deterministic clock, so that attempt and total durations are the same on every run.

use vstd::prelude::*;

verus! {

/// A deterministic, monotonically increasing nanosecond clock.
#[derive(Debug)]
pub struct MockClock {
    ticks: u64,
}

impl View for MockClock {
    type V = u64;

    /// The current tick.
    closed spec fn view(&self) -> u64 {
        self.ticks
    }
}

impl MockClock {
    /// A fixed, arbitrary epoch (nanoseconds).
    pub const EPOCH_NS: u64 = 1_700_000_000_000_000_000;

    /// Creates a new clock positioned at [`MockClock::EPOCH_NS`].
    pub fn new() -> (clock: Self)
        ensures
            clock@ == Self::EPOCH_NS,
    {
        MockClock { ticks: Self::EPOCH_NS }
    }

    /// Returns the current tick without advancing.
    pub fn now_ns(&self) -> (now: u64)
        ensures
            now == self@,
    {
        self.ticks
    }

    /// Advances the clock by `by` nanoseconds and returns the new value.
    pub fn advance_ns(&mut self, by: u64) -> (now: u64)
        requires
            old(self)@ + by <= u64::MAX,
        ensures
            final(self)@ == old(self)@ + by,
            now == final(self)@,
    {
        self.ticks = self.ticks + by;
        self.ticks
    }

    /// Resets the clock back to [`MockClock::EPOCH_NS`].
    pub fn reset(&mut self)
        ensures
            final(self)@ == Self::EPOCH_NS,
    {
        self.ticks = Self::EPOCH_NS;
    }
}

impl Default for MockClock {
    fn default() -> (clock: Self)
        ensures
            clock@ == Self::EPOCH_NS,
    {
        Self::new()
    }
}

} // verus!
