//! Monotonic time as plain integers.
//!
//! The library never reads a clock. Whoever drives it samples the monotonic
//! clock and hands the reading in as an [`Instant`], so every decision that
//! depends on time is a function of its arguments.

use vstd::prelude::*;

verus! {

/// A span of time in nanoseconds. Every `std::time::Duration` fits.
pub type Duration = u128;

/// A monotonic clock reading: nanoseconds since an epoch that lies before the
/// start of the process.
pub type Instant = u128;

/// Nanoseconds in one millisecond.
pub const NANOS_PER_MILLI: u128 = 1_000_000;

/// Nanoseconds in one second.
pub const NANOS_PER_SEC: u128 = 1_000_000_000;

/// The latest reading that the library computes with, far beyond the life of any
/// process.
pub const LATEST_INSTANT: Instant = 0x4000_0000_0000_0000_0000_0000_0000_0000;

/// The span of `secs` whole seconds.
pub fn from_secs(secs: u64) -> (d: Duration)
    ensures
        d == secs * NANOS_PER_SEC,
        d == secs * 1_000_000_000,
{
    (secs as u128) * NANOS_PER_SEC
}

/// The span of `millis` whole milliseconds.
pub fn from_millis(millis: u64) -> (d: Duration)
    ensures
        d == millis * NANOS_PER_MILLI,
        d == millis * 1_000_000,
{
    (millis as u128) * NANOS_PER_MILLI
}

/// Time from `earlier` to `later`, zero when `later` is not after `earlier`.
pub open spec fn elapsed(earlier: Instant, later: Instant) -> Duration {
    if later > earlier {
        (later - earlier) as u128
    } else {
        0
    }
}

/// Time from `earlier` to `later`, zero when `later` is not after `earlier`.
pub fn saturating_duration_since(later: Instant, earlier: Instant) -> (d: Duration)
    ensures
        d == elapsed(earlier, later),
{
    if later > earlier {
        later - earlier
    } else {
        0
    }
}

/// Elapsed time leads from the earlier reading to the later one, and is none when the
/// clock has not advanced.
pub proof fn law_elapsed_leads_to_the_later_reading(earlier: Instant, later: Instant)
    ensures
        later >= earlier ==> earlier + elapsed(earlier, later) == later,
        later <= earlier ==> elapsed(earlier, later) == 0,
{
}

} // verus!
