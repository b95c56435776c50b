//! Structured timing utilities: a labelled timer started at a point in time.
use vstd::prelude::*;
use std::time::{Duration, Instant};

verus! {

#[verifier::external_type_specification]
#[verifier::external_body]
pub struct ExInstant(std::time::Instant);

/// `Instant::now`: the current monotonic instant.
#[verifier::external_body]
fn instant_now() -> Instant {
    Instant::now()
}

/// `Instant::elapsed`: time elapsed since `start`; it depends on the clock.
#[verifier::external_body]
fn instant_elapsed(start: &Instant) -> Duration {
    start.elapsed()
}

/// `Duration::as_millis`: whole milliseconds of a duration.
#[verifier::external_body]
pub(crate) fn duration_as_millis(d: &Duration) -> u128 {
    d.as_millis()
}

/// `Duration::as_micros`: whole microseconds of a duration.
#[verifier::external_body]
fn duration_as_micros(d: &Duration) -> u128 {
    d.as_micros()
}

/// A labelled timer.
pub struct Timer {
    label: &'static str,
    start: Instant,
}

impl Timer {
    /// The label the timer was started with.
    pub closed spec fn label_view(&self) -> Seq<char> {
        self.label@
    }

    /// Start a timer with a label.
    pub fn new(label: &'static str) -> (t: Self)
        ensures
            t.label_view() == label@,
    {
        Timer { label, start: instant_now() }
    }

    /// The timer's label.
    pub fn label(&self) -> (l: &'static str)
        ensures
            l@ == self.label_view(),
    {
        self.label
    }

    /// Get elapsed time so far.
    pub fn elapsed(&self) -> Duration {
        instant_elapsed(&self.start)
    }

    /// Get elapsed time in milliseconds.
    pub fn elapsed_ms(&self) -> u128 {
        let d = instant_elapsed(&self.start);
        duration_as_millis(&d)
    }

    /// Get elapsed time in microseconds.
    pub fn elapsed_us(&self) -> u128 {
        let d = instant_elapsed(&self.start);
        duration_as_micros(&d)
    }
}

} // verus!
