//! The variant of the expiry check under which an entry without expiry
//! counts as not after the present.
use vstd::prelude::*;
use crate::utils::common::{is_after_now_with_u128, spec_add_nanos, spec_is_after_now};

verus! {

/// What `is_after_now` answers for `nanos` when the wall clock gives
/// `clock`: no time at all is not after the present, whatever the clock
/// says; for a time, the clock's error is handed on, or the answer is
/// whether the time lies after the reading.
pub open spec fn spec_date_is_after_now(nanos: Option<u128>, clock: Result<u128, String>) -> Result<bool, String> {
    match nanos {
        None => Ok(false),
        Some(t) => match clock {
            Ok(now) => Ok(t > now),
            Err(e) => Err(e),
        },
    }
}

/// Whether `nanos` is a time after the wall clock's present reading; no
/// time at all (`None`) is not after it, and then the clock is not read.
pub fn is_after_now(nanos: Option<u128>) -> (r: Result<bool, String>)
    ensures
        nanos is None ==> (r matches Ok(b) && !b),
        (exists|clock: Result<u128, String>| r == #[trigger] spec_date_is_after_now(nanos, clock)),
{
    match nanos {
        None => {
            assert(spec_date_is_after_now(nanos, Ok(0)) == Ok::<bool, String>(false));
            Ok(false)
        },
        Some(n) => {
            let r = is_after_now_with_u128(n);
            proof {
                let clock = choose|clock: Result<u128, String>| r == #[trigger] spec_is_after_now(Some(n), clock);
                assert(r == spec_date_is_after_now(nanos, clock));
            }
            r
        },
    }
}

/// On the same clock result, this check and `common::is_after_now` answer
/// alike for every time that is given: both hand on the clock's error, or
/// both tell whether the time lies after the reading. They differ only on
/// no time at all, which this one does not count as after the present and
/// the other counts as never expiring.
pub proof fn lemma_date_agrees_with_common(nanos: Option<u128>, clock: Result<u128, String>)
    ensures
        nanos is Some ==> spec_date_is_after_now(nanos, clock) == spec_is_after_now(nanos, clock),
        (nanos is None ==> spec_date_is_after_now(nanos, clock) == Ok::<bool, String>(false)
            && spec_is_after_now(nanos, clock) == Ok::<bool, String>(true)),
{
}

/// `nanos` after the present reading of the wall clock (see
/// `common::add_nanos`).
pub fn add_nanos(nanos: u128) -> (r: Result<u128, String>)
    ensures
        r matches Ok(t) ==> exists|now: u128| #[trigger] spec_add_nanos(nanos, now) == Some(t),
{
    crate::utils::common::add_nanos(nanos)
}

} // verus!
