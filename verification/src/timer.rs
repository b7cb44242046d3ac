//! One-shot deadlines over an injected tick counter.

use vstd::prelude::*;

use crate::hal::Clock;

verus! {

/// How many ticks a counter reading `last` is short of `bound`: the measure
/// every busy-wait in the engine shrinks as the clock advances.
pub open spec fn ticks_until(bound: int, last: int) -> int {
    if last < bound {
        bound - last
    } else {
        0
    }
}

/// A one-shot, non-restartable deadline: the expiry tick is captured at
/// construction and only queried afterwards.  A new value must be created for
/// each bounded wait.
pub struct CountDown {
    deadline: u64,
}

impl CountDown {
    /// The captured expiry tick.  Always below `u64::MAX`, so a strictly
    /// increasing tick counter eventually passes it.
    pub closed spec fn expiry(self) -> u64 {
        self.deadline
    }

    /// True when reading `t` means the deadline has passed.
    pub open spec fn expired_at(self, t: u64) -> bool {
        t > self.expiry()
    }

    /// Capture `now + millis * 1000` ticks as the expiry.  A sum that would
    /// reach the end of the counter is capped one tick below it, so that
    /// every wait bounded by this deadline provably ends.
    pub fn new<C: Clock>(millis: u64, clock: &mut C) -> (r: CountDown)
        ensures
            r.expiry() < u64::MAX,
            millis * 1000 + final(clock).last() < u64::MAX ==> r.expiry() == millis * 1000
                + final(clock).last(),
            millis * 1000 + final(clock).last() >= u64::MAX ==> r.expiry() == u64::MAX - 1,
            final(clock).last() >= old(clock).last(),
            old(clock).last() < u64::MAX ==> final(clock).last() > old(clock).last(),
    {
        let now = clock.now();
        let limit: u64 = (u64::MAX - 1) / 1000;
        let deadline: u64 = if millis <= limit {
            let us: u64 = millis * 1000;
            if us < u64::MAX - now {
                us + now
            } else {
                u64::MAX - 1
            }
        } else {
            u64::MAX - 1
        };
        CountDown { deadline }
    }

    /// Read the clock once and report whether the reading lies past the
    /// expiry tick.
    pub fn timeout<C: Clock>(&self, clock: &mut C) -> (r: bool)
        ensures
            r == self.expired_at(final(clock).last()),
            final(clock).last() >= old(clock).last(),
            old(clock).last() < u64::MAX ==> final(clock).last() > old(clock).last(),
    {
        let t = clock.now();
        t > self.deadline
    }

    /// Law: a one-shot deadline whose expiry was captured as `start + dur`
    /// ticks is unexpired at every reading strictly inside the window and
    /// expired at every reading strictly past it.  (Stated for windows that
    /// end before the tick counter does; a window reaching `u64::MAX` is
    /// capped at construction.)
    pub proof fn lemma_deadline_window(cd: CountDown, start: u64, dur: u64, t: u64)
        requires
            start + dur < u64::MAX,
            cd.expiry() == start + dur,
        ensures
            t < start + dur ==> !cd.expired_at(t),
            t > start + dur ==> cd.expired_at(t),
    {
    }
}

} // verus!
