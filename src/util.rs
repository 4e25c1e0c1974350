//! Correlation tokens read from the system clock.

use vstd::prelude::*;
use std::time::{Duration, SystemTime, SystemTimeError};

verus! {

#[verifier::external_type_specification]
#[verifier::external_body]
pub struct ExSystemTime(SystemTime);

#[verifier::external_type_specification]
#[verifier::external_body]
pub struct ExSystemTimeError(SystemTimeError);

/// Relies on `SystemTime::now`: the clock's reading, of which nothing is known.
pub assume_specification[ SystemTime::now ]() -> SystemTime;

/// Relies on `SystemTime::duration_since`: the time elapsed since `earlier`,
/// or an error when `earlier` is later.
pub assume_specification[ SystemTime::duration_since ](
    this: &SystemTime,
    earlier: SystemTime,
) -> Result<Duration, SystemTimeError>;

/// Relies on `Duration::as_secs`: the whole seconds of the duration.
pub assume_specification[ Duration::as_secs ](this: &Duration) -> u64;

/// Relies on `Duration::subsec_nanos`: the fractional part in nanoseconds,
/// which the documentation bounds below one second.
pub assume_specification[ Duration::subsec_nanos ](this: &Duration) -> (r: u32)
    ensures
        r < 1_000_000_000,
;

/// Relies on `std::time::UNIX_EPOCH`: the clock's reading at 1970-01-01 UTC.
#[verifier::external_body]
fn unix_epoch() -> SystemTime {
    std::time::UNIX_EPOCH
}

/// Milliseconds in a duration of `secs` seconds and `nanos` nanoseconds,
/// saturating at `u64::MAX`.
pub open spec fn spec_millis(secs: u64, nanos: u32) -> u64 {
    let ms = secs * 1000 + nanos / 1_000_000;
    if ms > u64::MAX {
        u64::MAX
    } else {
        ms as u64
    }
}

/// Whole milliseconds of a duration given as seconds and nanoseconds.
pub fn millis(secs: u64, nanos: u32) -> (r: u64)
    requires
        nanos < 1_000_000_000,
    ensures
        r == spec_millis(secs, nanos),
{
    let sub: u64 = (nanos / 1_000_000) as u64;
    match secs.checked_mul(1000) {
        Some(whole) => whole.saturating_add(sub),
        None => u64::MAX,
    }
}

/// A correlation token: milliseconds since the Unix epoch by the system
/// clock, or 0 when the clock reads earlier than the epoch.
pub fn timestamp() -> u64 {
    match SystemTime::now().duration_since(unix_epoch()) {
        Ok(d) => millis(d.as_secs(), d.subsec_nanos()),
        Err(_) => 0,
    }
}

} // verus!
