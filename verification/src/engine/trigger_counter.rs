//! A counter that fires when its count has reached a limit or when a time
//! limit has passed since it was last reset; firing resets it.
use vstd::prelude::*;
use crate::utils::clock::{duration_as_nanos, instant_elapsed, instant_now};

verus! {

/// A counter with a count limit and a time limit.
pub struct CounterWithTimeout {
    count: u64,
    last_reset: std::time::Instant,
    max_count: u64,
    max_duration: u128,
}

/// The counter as plain values: its count, its count limit and its time
/// limit in nanoseconds.
pub type CounterView = (u64, u64, u128);

impl View for CounterWithTimeout {
    type V = CounterView;

    closed spec fn view(&self) -> CounterView {
        (self.count, self.max_count, self.max_duration)
    }
}

/// Whether a counter in the state `c` fires when `elapsed` nanoseconds have
/// passed since its last reset.
pub open spec fn fires(c: CounterView, elapsed: u128) -> bool {
    elapsed >= c.2 || c.0 >= c.1
}

/// A counter fires once the nanoseconds since its last reset reach its time
/// limit, and once its count reaches its count limit, whatever the other
/// says; below both limits it does not fire.
pub proof fn lemma_fires_on_limits(c: CounterView, elapsed: u128)
    ensures
        elapsed >= c.2 ==> fires(c, elapsed),
        c.0 >= c.1 ==> fires(c, elapsed),
        elapsed < c.2 && c.0 < c.1 ==> !fires(c, elapsed),
{
}

impl CounterWithTimeout {
    /// The instant from which the time limit is counted: that of the last
    /// reset.
    pub closed spec fn spec_last_reset(&self) -> std::time::Instant {
        self.last_reset
    }

    /// A counter at zero that fires at `max_count` or once `max_duration`
    /// nanoseconds have passed since it was made or last reset.
    pub fn new(max_count: u64, max_duration: u128) -> (r: Self)
        ensures
            (r@ == (0u64, max_count, max_duration)),
    {
        CounterWithTimeout { count: 0, last_reset: instant_now(), max_count, max_duration }
    }

    /// Fires when `elapsed` nanoseconds since the last reset reach the time
    /// limit or the count has reached its limit: then the counter is reset
    /// and the answer is true. Otherwise `n` is added to the count and the
    /// answer is false.
    pub fn check_and_add_at(&mut self, n: u64, elapsed: u128) -> (r: bool)
        requires
            !fires(old(self)@, elapsed) ==> old(self)@.0 + n <= u64::MAX,
        ensures
            r == fires(old(self)@, elapsed),
            r ==> (final(self)@ == (0u64, old(self)@.1, old(self)@.2)),
            !r ==> (final(self)@ == ((old(self)@.0 + n) as u64, old(self)@.1, old(self)@.2)),
            !r ==> final(self).spec_last_reset() == old(self).spec_last_reset(),
    {
        let time_exceeded = elapsed >= self.max_duration;
        let count_exceeded = self.count >= self.max_count;
        if time_exceeded || count_exceeded {
            self.reset();
            return true;
        }
        self.count = self.count + n;
        false
    }

    /// Fires when the time since the last reset, by the monotonic clock,
    /// has reached the time limit or the count has reached its limit: then
    /// the counter is reset and the answer is true. Otherwise `n` is added
    /// to the count and the answer is false.
    pub fn check_and_add(&mut self, n: u64) -> (r: bool)
        requires
            old(self)@.0 < old(self)@.1 ==> old(self)@.0 + n <= u64::MAX,
        ensures
            old(self)@.0 >= old(self)@.1 ==> r,
            r ==> (final(self)@ == (0u64, old(self)@.1, old(self)@.2)),
            !r ==> (final(self)@ == ((old(self)@.0 + n) as u64, old(self)@.1, old(self)@.2)),
            !r ==> final(self).spec_last_reset() == old(self).spec_last_reset(),
    {
        let elapsed = duration_as_nanos(&instant_elapsed(&self.last_reset));
        self.check_and_add_at(n, elapsed)
    }

    /// Sets the count to zero and restarts the time limit from now.
    pub fn reset(&mut self)
        ensures
            (final(self)@ == (0u64, old(self)@.1, old(self)@.2)),
    {
        self.count = 0;
        self.last_reset = instant_now();
    }
}

} // verus!
