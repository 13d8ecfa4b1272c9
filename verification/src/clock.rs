use vstd::prelude::*;

verus! {

/// A point on the service's monotonic clock, in nanoseconds since the clock's start.
pub type Instant = u64;

/// A span of time in nanoseconds.
pub type Duration = u64;

/// One millisecond.
pub const MILLISECOND: u64 = 1_000_000;

/// One second.
pub const SECOND: u64 = 1_000_000_000;

/// The longest span that a `Duration` holds.
pub const MAX_DURATION: u64 = u64::MAX;

/// The whole milliseconds in a span of time.
pub open spec fn millis(duration: Duration) -> u64 {
    duration / MILLISECOND
}

/// The span from `earlier` to `now`, or zero where `earlier` lies ahead.
pub open spec fn elapsed(now: Instant, earlier: Instant) -> Duration {
    now.saturating_sub(earlier)
}

/// The whole milliseconds in a span of time.
pub fn duration_ms(duration: Duration) -> (ms: u64)
    ensures
        ms == millis(duration),
{
    duration / MILLISECOND
}

/// A span that is `multiplier` times as long, cut off at the longest span.
pub fn multiply_duration(duration: Duration, multiplier: u32) -> (product: Duration)
    ensures
        product == multiplied(duration, multiplier as nat),
{
    match duration.checked_mul(multiplier as u64) {
        Some(product) => product,
        None => MAX_DURATION,
    }
}

/// `duration` times `multiplier`, cut off at the longest span.
pub open spec fn multiplied(duration: Duration, multiplier: nat) -> Duration {
    if duration * multiplier > MAX_DURATION {
        MAX_DURATION
    } else {
        (duration * multiplier) as u64
    }
}

} // verus!
