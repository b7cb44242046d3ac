//! Deadline behaviour over a controllable fake clock.

use dw_mmc::hal::Clock;
use dw_mmc::timer::CountDown;

/// A fake tick counter: strictly increasing, advanced by `step` per reading.
struct TickClock {
    t: u64,
    step: u64,
}

impl Clock for TickClock {
    fn now(&mut self) -> u64 {
        self.t = self.t.saturating_add(self.step);
        self.t
    }
}

#[test]
fn not_expired_inside_window() {
    let mut clk = TickClock { t: 100, step: 1 };
    // Construction reads the clock once: start is 101, expiry 101 + 5000.
    let cd = CountDown::new(5, &mut clk);
    // Readings strictly inside the window: never expired.
    for _ in 0..50 {
        assert!(!cd.timeout(&mut clk));
    }
    // Jump to just below the expiry: still not expired.
    clk.t = 101 + 5000 - 2;
    assert!(!cd.timeout(&mut clk)); // one tick short of the expiry
    assert!(!cd.timeout(&mut clk)); // the expiry tick itself: not yet past
    // The reading right past the expiry: expired, and stays expired.
    assert!(cd.timeout(&mut clk));
    assert!(cd.timeout(&mut clk));
    clk.t = u64::MAX - 1;
    assert!(cd.timeout(&mut clk));
}

#[test]
fn zero_duration_expires_at_once() {
    let mut clk = TickClock { t: 7, step: 1 };
    let cd = CountDown::new(0, &mut clk);
    // Expiry is the start tick itself; the next reading is past it.
    assert!(cd.timeout(&mut clk));
}

#[test]
fn separate_waits_use_separate_deadlines() {
    // One-shot: a second wait needs a second value, whose window starts at
    // its own construction tick.
    let mut clk = TickClock { t: 0, step: 1 };
    let first = CountDown::new(1, &mut clk);
    clk.t = 5000;
    assert!(first.timeout(&mut clk));
    let second = CountDown::new(1, &mut clk);
    assert!(!second.timeout(&mut clk));
}
