//! One reading and the instant at which it was taken.
use std::time::Instant;
use vstd::prelude::*;

verus! {

/// A point on the monotonic clock. Nothing is known of it but that it can be
/// carried along with a reading.
#[verifier::external_type_specification]
#[verifier::external_body]
pub struct ExInstant(Instant);

/// Reads the monotonic clock through `Instant::now`. The instant depends on
/// when the call is made, so nothing is stated of it.
pub assume_specification[ Instant::now ]() -> (now: Instant)
;

/// An immutable capture of one raw reading, stamped with the moment of its
/// construction.
#[derive(Clone, Copy, Debug)]
pub struct Sample {
    value: i64,
    time: Instant,
}

impl Sample {
    /// The raw reading that the sample holds.
    pub closed spec fn reading(&self) -> i64 {
        self.value
    }

    /// The instant that the sample holds.
    pub closed spec fn instant(&self) -> Instant {
        self.time
    }

    /// Captures `value` together with the current instant. Any value is
    /// accepted: a sample knows nothing of ranges.
    pub fn new(value: i64) -> (sample: Sample)
        ensures
            sample.reading() == value,
    {
        Sample { value, time: Instant::now() }
    }

    /// The raw reading.
    pub fn value(&self) -> (value: i64)
        ensures
            value == self.reading(),
    {
        self.value
    }

    /// The instant at which the sample was built.
    pub fn time(&self) -> (time: Instant)
        ensures
            time == self.instant(),
    {
        self.time
    }
}

} // verus!
