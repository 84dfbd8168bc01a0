//! Wall-clock plumbing for the elapsed-time accounting of a search.
//!
//! Timestamps and durations are opaque here: what the clock returns
//! depends on when it is read, so none of these items promises
//! anything about the values.

use vstd::prelude::*;

verus! {

/// An opaque monotonic timestamp, taken at the start of a search.
#[verifier::external_type_specification]
#[verifier::external_body]
pub struct ExInstant(std::time::Instant);

/// Relies on Instant::now: a timestamp for the moment of the call;
/// time-dependent, so nothing is promised of it.
pub assume_specification[ std::time::Instant::now ]() -> std::time::Instant;

/// Relies on Instant::elapsed: the time since the timestamp;
/// time-dependent, so nothing is promised of it.
pub assume_specification[ std::time::Instant::elapsed ](
    start: &std::time::Instant,
) -> std::time::Duration;

/// Relies on Duration::as_millis: the duration in whole milliseconds;
/// the duration is opaque here, so nothing is promised of it.
pub assume_specification[ std::time::Duration::as_millis ](d: &std::time::Duration) -> u128;

} // verus!
