//! Readings of the system clocks. What a clock reads depends on the
//! machine and the moment, so nothing is stated of the readings: the
//! callers state what holds whatever comes back.
use vstd::prelude::*;
use crate::utils::common::{reading_time, time_or_latest};

verus! {

#[verifier::external_type_specification]
#[verifier::external_body]
pub struct ExSystemTime(std::time::SystemTime);

#[verifier::external_type_specification]
#[verifier::external_body]
pub struct ExSystemTimeError(std::time::SystemTimeError);

#[verifier::external_type_specification]
#[verifier::external_body]
pub struct ExInstant(std::time::Instant);

/// Calls `std::time::SystemTime::now`. Nothing is claimed of the reading.
#[verifier::external_body]
fn system_time_now() -> std::time::SystemTime {
    std::time::SystemTime::now()
}

/// Calls `SystemTime::duration_since(UNIX_EPOCH)`. It fails when the clock
/// reads earlier than the epoch; nothing is claimed of either outcome.
#[verifier::external_body]
fn duration_since_unix_epoch(t: &std::time::SystemTime) -> Result<
    std::time::Duration,
    std::time::SystemTimeError,
> {
    t.duration_since(std::time::UNIX_EPOCH)
}

/// Calls `SystemTimeError::to_string`. The text is not stated.
#[verifier::external_body]
fn system_time_error_text(e: &std::time::SystemTimeError) -> String {
    e.to_string()
}

/// Calls `Duration::as_nanos`: the whole nanoseconds of the duration. A
/// `Duration` is opaque here, so nothing is claimed of the number.
#[verifier::external_body]
pub(crate) fn duration_as_nanos(d: &std::time::Duration) -> u128 {
    d.as_nanos()
}

/// Calls `std::time::Instant::now`. Nothing is claimed of the reading.
#[verifier::external_body]
pub(crate) fn instant_now() -> std::time::Instant {
    std::time::Instant::now()
}

/// Calls `Instant::elapsed`: the time since the instant. Nothing is claimed.
#[verifier::external_body]
pub(crate) fn instant_elapsed(i: &std::time::Instant) -> std::time::Duration {
    i.elapsed()
}

/// Nanoseconds since the Unix epoch by the wall clock, or the clock's error
/// text when it reads earlier than the epoch.
pub(crate) fn unix_time_nanos() -> Result<u128, String> {
    let now = system_time_now();
    match duration_since_unix_epoch(&now) {
        Ok(d) => Ok(duration_as_nanos(&d)),
        Err(e) => Err(system_time_error_text(&e)),
    }
}

/// Nanoseconds since the Unix epoch by the wall clock, or the largest time
/// when the clock cannot be read, so that every entry with an expiry time
/// counts as expired then.
pub fn unix_time_nanos_or_latest() -> (r: u128)
    ensures
        exists|clock: Result<u128, String>| r == #[trigger] time_or_latest(clock),
{
    let clock = unix_time_nanos();
    reading_time(&clock)
}

} // verus!
