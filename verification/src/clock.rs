//! Wall-clock time for the search's budget checks.
//!
//! Nothing can be promised of what a clock reads, so the search's
//! contracts never depend on these values: time only decides when the
//! cooperative stop flag is raised.

use vstd::prelude::*;
use std::time::{Duration, Instant};

verus! {

/// A point in time, opaque to verification.
#[verifier::external_type_specification]
#[verifier::external_body]
pub struct ExInstant(Instant);

/// Relies on std::time::Instant::now: the current instant. Nothing is
/// promised of it.
pub assume_specification[ Instant::now ]() -> Instant;

/// Relies on std::time::Instant::elapsed: the time since the instant.
/// Nothing is promised of it.
pub assume_specification[ Instant::elapsed ](this: &Instant) -> Duration;

/// Relies on std::time::Duration::as_secs: the whole seconds of the
/// span. Nothing is promised of the value.
pub assume_specification[ Duration::as_secs ](this: &Duration) -> u64;

/// Relies on std::time::Duration::subsec_millis: the fractional part of
/// the span in milliseconds, documented to be below 1000.
pub assume_specification[ Duration::subsec_millis ](this: &Duration) -> (r: u32)
    ensures
        r < 1000,
;

/// The milliseconds elapsed since `time`, saturating at the largest
/// representable value.
pub fn millis_since(time: &Instant) -> u64 {
    let elapsed = time.elapsed();
    let secs = elapsed.as_secs();
    let sub = elapsed.subsec_millis() as u64;
    if secs <= (u64::MAX - 999) / 1000 {
        1000 * secs + sub
    } else {
        u64::MAX
    }
}

/// The current instant.
pub fn now() -> Instant {
    Instant::now()
}

} // verus!
