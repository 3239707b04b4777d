//! The inference watchdog.
//!
//! A timer interrupt counts ticks while an inference is in flight; if one takes
//! longer than its budget, the chip is reset. Outside inferences the counter
//! holds a value that no count reaches.

use vstd::prelude::*;

verus! {

/// The counter's value while no inference is in flight.
pub const WDOG_DISARMED: u32 = 0xFFFF_FFFF;

/// Ticks of 10 ms that one inference may take: 500 ms.
pub const WDOG_LIMIT_TICKS: u32 = 50;

/// The tick timer's reload value: a tick is this and one more cycle, 10 ms at
/// 128 MHz.
pub const SYST_RELOAD: u32 = 1_280_000 - 1;

/// What the timer interrupt has to do.
#[derive(Clone, Copy, PartialEq, Eq, Structural, Debug)]
pub enum Tick {
    /// No inference is in flight.
    Idle,
    /// Store this count.
    Count(u32),
    /// The inference is over its budget: reset the chip.
    Reset,
}

/// One timer interrupt, with the counter at `t`.
pub fn sys_tick(t: u32) -> (tick: Tick)
    ensures
        tick == ticked(t),
{
    if t != WDOG_DISARMED {
        if t >= WDOG_LIMIT_TICKS {
            return Tick::Reset;
        }
        Tick::Count(t + 1)
    } else {
        Tick::Idle
    }
}

/// What one timer interrupt does with the counter at `t`.
pub open spec fn ticked(t: u32) -> Tick {
    if t == WDOG_DISARMED {
        Tick::Idle
    } else if t >= WDOG_LIMIT_TICKS {
        Tick::Reset
    } else {
        Tick::Count((t + 1) as u32)
    }
}

/// Held while an inference is in flight.
pub struct WdogGuard {
    ticks: u32,
}

impl WdogGuard {
    /// The count that the guard was armed with.
    pub closed spec fn view(&self) -> u32 {
        self.ticks
    }

    /// Starts watching an inference.
    pub fn arm() -> (guard: WdogGuard)
        ensures
            guard@ == 0,
    {
        WdogGuard { ticks: 0 }
    }

    /// The count to store while the guard is held.
    pub fn ticks(&self) -> (ticks: u32)
        ensures
            ticks == self@,
    {
        self.ticks
    }

    /// Ends the watch; gives the value to store from now on.
    pub fn disarm(self) -> (ticks: u32)
        ensures
            ticks == WDOG_DISARMED,
    {
        WDOG_DISARMED
    }
}

/// The counter after `n` interrupts from `t`, or nothing once the chip was reset.
pub open spec fn after_ticks(t: u32, n: nat) -> Option<u32>
    decreases n,
{
    if n == 0 {
        Some(t)
    } else {
        match after_ticks(t, (n - 1) as nat) {
            None => None,
            Some(u) => match ticked(u) {
                Tick::Idle => Some(u),
                Tick::Count(v) => Some(v),
                Tick::Reset => None,
            },
        }
    }
}

/// An inference is cut off by the first interrupt after its budget is used up,
/// and not before.
pub proof fn law_reset_exactly_when_over_budget(n: nat)
    ensures
        after_ticks(0, n) is None <==> n > WDOG_LIMIT_TICKS,
        n <= WDOG_LIMIT_TICKS ==> after_ticks(0, n) == Some(n as u32),
    decreases n,
{
    if n > 0 {
        law_reset_exactly_when_over_budget((n - 1) as nat);
    }
}

/// With no inference in flight the chip is never reset, and the counter keeps
/// its value.
pub proof fn law_disarmed_stays_disarmed(n: nat)
    ensures
        after_ticks(WDOG_DISARMED, n) == Some(WDOG_DISARMED),
    decreases n,
{
    if n > 0 {
        law_disarmed_stays_disarmed((n - 1) as nat);
    }
}

/// Counting never disarms the watchdog.
pub proof fn law_counting_never_disarms(t: u32)
    ensures
        ticked(t) matches Tick::Count(u) ==> u != WDOG_DISARMED,
{
}

/// The counter goes up by one with each tick while an inference is in flight, as long
/// as it is below 50; from there on the chip is reset. While none is in flight,
/// nothing happens.
pub proof fn law_ticks_count_up_to_the_budget(t: u32)
    ensures
        t < 50 ==> ticked(t) == Tick::Count((t + 1) as u32),
        50 <= t < 0xFFFF_FFFF ==> ticked(t) == Tick::Reset,
        t == 0xFFFF_FFFF ==> ticked(t) == Tick::Idle,
        WDOG_DISARMED == 0xFFFF_FFFF,
        SYST_RELOAD == 1_279_999,
{
}

} // verus!
