//! Timing a ripping run.
use std::time::Instant;
use vstd::prelude::*;

verus! {

/// Declares `std::time::Instant`, a point in time that is carried unread.
#[verifier::external_type_specification]
#[verifier::external_body]
pub struct ExInstant(Instant);

/// Calls `std::time::Instant::now`, which reads the clock; nothing is
/// stated of the time it gives.
#[verifier::external_body]
fn now() -> (r: Instant) {
    Instant::now()
}

/// Calls `std::time::Instant::elapsed`, which reads the clock, and gives
/// the duration in nanoseconds (`Duration::as_nanos`); nothing is stated of
/// the time it gives.
#[verifier::external_body]
fn elapsed_nanos(start: &Instant) -> (r: u128) {
    start.elapsed().as_nanos()
}

/// When a run started and how long it took, in nanoseconds.
#[derive(Debug, Clone, Copy)]
pub struct Time {
    start: Instant,
    duration: u128,
}

impl Time {
    /// When the run started.
    pub closed spec fn started(&self) -> Instant {
        self.start
    }

    /// How long the run took, in nanoseconds.
    pub closed spec fn took(&self) -> u128 {
        self.duration
    }

    /// Marks the start of a run; the duration recorded stays as it was.
    pub fn start(&mut self)
        ensures
            final(self).took() == old(self).took(),
    {
        self.start = now();
    }

    /// Marks the end of a run: the duration becomes the time since the
    /// start, which stays as it was.
    pub fn stop(&mut self)
        ensures
            final(self).started() == old(self).started(),
    {
        self.duration = elapsed_nanos(&self.start);
    }

    /// A timer started now, with a zero duration.
    pub fn init() -> (r: Self)
        ensures
            r.took() == 0,
    {
        Self::default()
    }

    /// How long the run took, in nanoseconds.
    pub fn nanos(&self) -> (r: u128)
        ensures
            r == self.took(),
    {
        self.duration
    }
}

impl Default for Time {
    /// A timer started now, with a zero duration.
    fn default() -> (r: Self)
        ensures
            r.took() == 0,
    {
        Time { start: now(), duration: 0 }
    }
}

} // verus!
