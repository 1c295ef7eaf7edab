//! Expiry arithmetic on nanosecond timestamps since the Unix epoch.
use vstd::prelude::*;
use crate::utils::clock::unix_time_nanos;

verus! {

/// An entry with this expiry time is still alive at `now`: it has no
/// expiry, or its expiry lies strictly after `now`.
pub open spec fn is_alive(expire_time: Option<u128>, now: u128) -> bool {
    match expire_time {
        None => true,
        Some(t) => t > now,
    }
}

/// The time that a reading of the wall clock stands for: the reading
/// itself, or the largest time when the clock could not be read, so that
/// every entry with an expiry time counts as expired then.
pub open spec fn time_or_latest(clock: Result<u128, String>) -> u128 {
    match clock {
        Ok(now) => now,
        Err(_) => u128::MAX,
    }
}

/// The time that the wall clock's reading `clock` stands for (see
/// `time_or_latest`).
pub fn reading_time(clock: &Result<u128, String>) -> (r: u128)
    ensures
        r == time_or_latest(*clock),
{
    match clock {
        Ok(now) => *now,
        Err(_) => u128::MAX,
    }
}

/// What `add_nanos` gives when the clock reads `now`.
pub open spec fn spec_add_nanos(nanos: u128, now: u128) -> Option<u128> {
    if now + nanos <= u128::MAX {
        Some((now + nanos) as u128)
    } else {
        None
    }
}

/// The text of the error that `add_nanos` returns on overflow.
pub open spec fn overflow_message() -> Seq<char> {
    "arithmetic overflow occurred when adding nanoseconds"@
}

/// Whether an entry with expiry `nanos` is alive at the time `now`.
pub fn is_after(nanos: Option<u128>, now: u128) -> (r: bool)
    ensures
        r == is_alive(nanos, now),
{
    match nanos {
        None => true,
        Some(t) => t > now,
    }
}

/// What `is_after_now` answers for `nanos` when the wall clock gives
/// `clock`: an entry without expiry is alive whatever the clock says; for
/// an expiry time, the clock's error is handed on, or the answer is whether
/// the time lies after the reading.
pub open spec fn spec_is_after_now(nanos: Option<u128>, clock: Result<u128, String>) -> Result<bool, String> {
    match nanos {
        None => Ok(true),
        Some(t) => match clock {
            Ok(now) => Ok(t > now),
            Err(e) => Err(e),
        },
    }
}

/// What `is_after_now` answers for `nanos` when the wall clock gives
/// `clock`.
pub fn is_after_now_at(nanos: Option<u128>, clock: Result<u128, String>) -> (r: Result<bool, String>)
    ensures
        r == spec_is_after_now(nanos, clock),
{
    match nanos {
        None => Ok(true),
        Some(t) => match clock {
            Ok(now) => Ok(t > now),
            Err(e) => Err(e),
        },
    }
}

/// Whether `nanos` lies after the wall clock's present reading.
pub(crate) fn is_after_now_with_u128(nanos: u128) -> (r: Result<bool, String>)
    ensures
        (exists|clock: Result<u128, String>| r == #[trigger] spec_is_after_now(Some(nanos), clock)),
{
    let clock = unix_time_nanos();
    is_after_now_at(Some(nanos), clock)
}

/// Whether an entry with expiry `nanos` is alive now by the wall clock; an
/// entry without expiry always is, and needs no reading of the clock.
pub fn is_after_now(nanos: Option<u128>) -> (r: Result<bool, String>)
    ensures
        nanos is None ==> (r matches Ok(b) && b),
        (exists|clock: Result<u128, String>| r == #[trigger] spec_is_after_now(nanos, clock)),
{
    match nanos {
        None => {
            assert(spec_is_after_now(nanos, Ok(0)) == Ok::<bool, String>(true));
            Ok(true)
        },
        Some(n) => is_after_now_with_u128(n),
    }
}

/// `nanos` after the time `now`, or an error when the sum does not fit.
pub fn add_nanos_at(nanos: u128, now: u128) -> (r: Result<u128, String>)
    ensures
        r matches Ok(t) ==> spec_add_nanos(nanos, now) == Some(t),
        r matches Err(e) ==> spec_add_nanos(nanos, now) is None && e@ == overflow_message(),
{
    match now.checked_add(nanos) {
        Some(t) => Ok(t),
        None => Err(String::from_str("arithmetic overflow occurred when adding nanoseconds")),
    }
}

/// `nanos` after the wall clock's reading `clock`. It fails with the
/// clock's error when the clock could not be read, and when the sum does
/// not fit.
pub fn add_nanos_on_clock(nanos: u128, clock: Result<u128, String>) -> (r: Result<u128, String>)
    ensures
        clock matches Err(c) ==> (r matches Err(e) && e@ == c@),
        clock matches Ok(now) ==> (r matches Ok(t) ==> spec_add_nanos(nanos, now) == Some(t)),
        clock matches Ok(now) ==> (r matches Err(e) ==> spec_add_nanos(nanos, now) is None
            && e@ == overflow_message()),
{
    match clock {
        Ok(now) => add_nanos_at(nanos, now),
        Err(e) => Err(e),
    }
}

/// `nanos` after the present reading of the wall clock. It fails when the
/// clock reads earlier than the epoch or when the sum does not fit.
pub fn add_nanos(nanos: u128) -> (r: Result<u128, String>)
    ensures
        r matches Ok(t) ==> exists|now: u128| #[trigger] spec_add_nanos(nanos, now) == Some(t),
{
    add_nanos_on_clock(nanos, unix_time_nanos())
}

} // verus!
