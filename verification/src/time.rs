//! Time-related utilities.

use vstd::prelude::*;

verus! {

/// A number of nanoseconds.
#[derive(Copy, Clone, Debug, PartialEq, Eq, PartialOrd, Ord, Hash)]
pub struct Nanoseconds<T>(pub T);

impl Nanoseconds<u64> {
    /// Returns the number of nanoseconds in a span of `secs` whole seconds
    /// and `subsec_nanos` nanoseconds beyond them.
    pub fn from_parts(secs: u64, subsec_nanos: u32) -> (r: Self)
        requires
            secs * 1_000_000_000 + subsec_nanos <= u64::MAX,
        ensures
            r.0 == secs * 1_000_000_000 + subsec_nanos,
    {
        Nanoseconds(secs * 1_000_000_000 + subsec_nanos as u64)
    }
}

#[verifier::external_type_specification]
#[verifier::external_body]
pub struct ExInstant(std::time::Instant);

/// A high-precision stopwatch.
#[derive(Debug)]
pub struct Stopwatch {
    started: std::time::Instant,
}

impl Stopwatch {
    /// Starts a new stopwatch at the present instant.
    ///
    /// Relies on `std::time::Instant::now` for the reading of the monotonic
    /// clock; nothing is assumed of the instant it returns.
    #[verifier::external_body]
    pub fn new() -> (r: Stopwatch) {
        Stopwatch { started: std::time::Instant::now() }
    }

    /// Returns the number of nanoseconds that have elapsed since this
    /// stopwatch was constructed.
    ///
    /// Relies on `std::time::Instant::elapsed` and `Duration::as_nanos` for
    /// the reading; nothing is assumed of the count they return, since it
    /// depends on the clock.
    #[verifier::external_body]
    pub fn elapsed(&self) -> (r: Nanoseconds<u64>) {
        Nanoseconds(self.started.elapsed().as_nanos() as u64)
    }
}

impl Default for Stopwatch {
    /// Starts a new stopwatch, as `Stopwatch::new` does.
    fn default() -> Stopwatch {
        Stopwatch::new()
    }
}

} // verus!
