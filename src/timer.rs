use std::time::{Duration, Instant};
use vstd::prelude::*;

verus! {

#[verifier::external_type_specification]
#[verifier::external_body]
pub struct ExInstant(Instant);

/// Relies on `std::time::Instant::now`: reads the monotonic clock. Nothing is
/// known of the value it returns.
pub assume_specification[ Instant::now ]() -> Instant;

/// Relies on `std::time::Instant::elapsed`: the time since `self`, saturating
/// at zero. Nothing is known of the value it returns.
pub assume_specification[ Instant::elapsed ](self_: &Instant) -> Duration;

/// Relies on `std::time::Duration::as_millis`: whole milliseconds of a
/// duration. Nothing is known of the value it returns.
pub assume_specification[ Duration::as_millis ](self_: &Duration) -> u128;

/// Number of whole timer ticks in `ms` milliseconds.
pub open spec fn ticks_in(ms: nat) -> nat {
    ms * 60 / 1000
}

/// Value of a delay timer started at `start`, `ms` milliseconds later:
/// it counts down 60 times a second and stops at zero.
pub open spec fn delay_value(start: u8, ms: nat) -> u8 {
    if ticks_in(ms) >= start as nat {
        0
    } else {
        (start - ticks_in(ms)) as u8
    }
}

/// A countdown whose value is computed from the wall clock when it is read,
/// never decremented by an explicit tick.
pub struct Timer {
    start_count: u8,
    start_instant: Instant,
}

/// The value of a delay timer started at `start_count`, `elapsed_ms`
/// milliseconds after it was started.
pub fn delay_value_after(start_count: u8, elapsed_ms: u128) -> (r: u8)
    ensures
        r == delay_value(start_count, elapsed_ms as nat),
{
    if elapsed_ms >= 5000 {
        assert(ticks_in(elapsed_ms as nat) >= 300) by (nonlinear_arith)
            requires elapsed_ms >= 5000;
        0
    } else {
        let ticks: u128 = elapsed_ms * 60 / 1000;
        if ticks >= start_count as u128 {
            0
        } else {
            start_count - ticks as u8
        }
    }
}

impl Timer {
    /// The value the timer was last started at.
    pub closed spec fn start_count(&self) -> u8 {
        self.start_count
    }

    /// The value the timer was last started at.
    pub fn start_value(&self) -> (r: u8)
        ensures
            r == self.start_count(),
    {
        self.start_count
    }

    /// A timer at zero.
    pub fn initialize() -> (r: Timer)
        ensures
            r.start_count() == 0,
    {
        Timer { start_count: 0, start_instant: Instant::now() }
    }

    /// Restarts the countdown at `count`, from now.
    pub fn start(&mut self, count: u8)
        ensures
            final(self).start_count() == count,
    {
        self.start_count = count;
        self.start_instant = Instant::now();
    }

    /// The current value: the start value less the ticks since the start,
    /// never below zero.
    pub fn get_value(&self) -> (r: u8)
        ensures
            exists|ms: nat| r == delay_value(self.start_count(), ms),
            r <= self.start_count(),
    {
        let millis = self.start_instant.elapsed().as_millis();
        let r = delay_value_after(self.start_count, millis);
        proof {
            lemma_delay_value_bounded(self.start_count, millis as nat);
        }
        r
    }
}

/// A timer never reads above the value it was started at.
pub proof fn lemma_delay_value_bounded(start: u8, ms: nat)
    ensures
        delay_value(start, ms) <= start,
{
}

/// A delay timer never counts up: between two readings after the same start,
/// the later one is no greater. Started at 60, it reads at most 60 at once
/// and zero from one second on.
pub proof fn lemma_delay_timer_counts_down(start: u8, ms1: nat, ms2: nat)
    requires
        ms1 <= ms2,
    ensures
        delay_value(start, ms2) <= delay_value(start, ms1),
        delay_value(60, 0) <= 60,
        ms2 >= 1000 ==> delay_value(60, ms2) == 0,
{
    assert(ticks_in(ms1) <= ticks_in(ms2)) by (nonlinear_arith)
        requires ms1 <= ms2;
    assert(ms2 >= 1000 ==> ticks_in(ms2) >= 60) by (nonlinear_arith);
}

} // verus!
