//! Durations and the polling constants.
//!
//! All polling in this stack is synchronous busy-wait: the status bit is
//! re-read every [`SLEEP_NS`] nanoseconds up to a deadline of [`TIMEOUT_NS`]
//! nanoseconds. There is no interrupt-driven completion anywhere in the
//! protocol.

use vstd::prelude::*;

verus! {

/// Nanoseconds per second.
pub const NANOS_PER_SEC: u64 = 1_000_000_000;

/// The poll interval: 100 microseconds.
pub const SLEEP_NS: u64 = 100_000;

/// The poll deadline: 20 milliseconds. A multiple of [`SLEEP_NS`], so the
/// deadline falls exactly on a poll.
pub const TIMEOUT_NS: u64 = 20_000_000;

/// A span of time, as full seconds plus a sub-second remainder.
#[derive(Clone, Copy, Debug, PartialEq, Eq, Structural)]
pub struct Duration {
    pub secs: u64,
    /// Always below [`NANOS_PER_SEC`].
    pub subsec_nanos: u32,
}

/// Return the duration in nanoseconds, saturating up to `u64::MAX`.
pub fn duration_nanos(duration: Duration) -> (r: u64)
    ensures
        r == if duration.secs * NANOS_PER_SEC + duration.subsec_nanos <= u64::MAX {
            duration.secs * NANOS_PER_SEC + duration.subsec_nanos
        } else {
            u64::MAX as int
        },
{
    let seconds_as_nanos: u64 = match duration.secs.checked_mul(NANOS_PER_SEC) {
        Some(n) => n,
        None => u64::MAX,
    };
    seconds_as_nanos.saturating_add(duration.subsec_nanos as u64)
}

} // verus!
