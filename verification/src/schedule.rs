//! When the next coin appears: a random wait of fifteen to twenty-five
//! minutes, counted from the last time the wait was set.

use vstd::prelude::*;
use crate::chance::random_between;
use crate::environment::{COIN_MAX_TIME, COIN_MIN_TIME, NANOS_PER_SECOND};

verus! {

/// The wait before the next coin, in nanoseconds, and when it started.
pub struct CoinSchedule {
    pub started: u64,
    pub wait: u64,
}

/// A wait of a whole number of seconds from `COIN_MIN_TIME` up to (not
/// including) `COIN_MAX_TIME`.
pub open spec fn fair_wait(wait: u64) -> bool {
    &&& wait % NANOS_PER_SECOND == 0
    &&& COIN_MIN_TIME * NANOS_PER_SECOND <= wait < COIN_MAX_TIME * NANOS_PER_SECOND
}

/// A random wait of whole seconds.
fn draw_wait() -> (r: u64)
    ensures
        fair_wait(r),
{
    let s = random_between(COIN_MIN_TIME as i64, COIN_MAX_TIME as i64);
    let r = (s as u64) * NANOS_PER_SECOND;
    assert(r % NANOS_PER_SECOND == 0) by (nonlinear_arith)
        requires
            r == s * 1_000_000_000,
            NANOS_PER_SECOND == 1_000_000_000;
    r
}

impl CoinSchedule {
    /// A wait that starts at `now`.
    pub fn start(now: u64) -> (r: Self)
        ensures
            r.started == now,
            fair_wait(r.wait),
    {
        CoinSchedule { started: now, wait: draw_wait() }
    }

    /// Whether the wait is over at `now`: more time has passed than it asked.
    pub fn due(&self, now: u64) -> (r: bool)
        requires
            now >= self.started,
        ensures
            r == (now - self.started > self.wait),
    {
        now - self.started > self.wait
    }

    /// A new wait, starting at `now`.
    pub fn restart(&mut self, now: u64)
        ensures
            final(self).started == now,
            fair_wait(final(self).wait),
    {
        self.started = now;
        self.wait = draw_wait();
    }
}

} // verus!
