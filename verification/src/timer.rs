//! A stopwatch on the machine's monotonic clock.

use std::time::{Duration, Instant};
use vstd::prelude::*;

verus! {

/// `std::time::Instant`: a reading of the monotonic clock. Nothing inside it
/// is visible to proofs.
#[verifier::external_type_specification]
#[verifier::external_body]
pub struct ExInstant(std::time::Instant);

/// `Instant::now` reads the clock. Nothing is promised of the reading.
pub assume_specification[ std::time::Instant::now ]() -> (r: Instant);

/// `Instant::duration_since` gives the time from `earlier` to the reading, or
/// zero where `earlier` is the later one. Nothing is promised of the result.
pub assume_specification[ std::time::Instant::duration_since ](
    later: &Instant,
    earlier: Instant,
) -> (r: Duration);

/// `Duration::as_nanos` gives the length of the duration in nanoseconds.
/// Nothing is promised of the number.
pub assume_specification[ std::time::Duration::as_nanos ](duration: &Duration) -> (r: u128);

/// Measures the time that has passed since it was started.
pub struct Timer {
    time_base: Instant,
}

impl Timer {
    /// A timer that starts now.
    pub fn new() -> Self {
        Self { time_base: Instant::now() }
    }

    /// The time since the timer was started.
    pub fn elapsed(&self) -> Duration {
        Instant::now().duration_since(self.time_base)
    }

    /// Starts the timer again and gives the time that it had measured.
    pub fn restart(&mut self) -> Duration {
        let elapsed = self.elapsed();
        self.time_base = Instant::now();

        elapsed
    }
}

} // verus!
