use nrf54_audio::kws::watchdog::{sys_tick, Tick, WdogGuard, SYST_RELOAD, WDOG_DISARMED, WDOG_LIMIT_TICKS};

#[test]
fn a_tick() {
    assert_eq!(sys_tick(WDOG_DISARMED), Tick::Idle);
    assert_eq!(sys_tick(0), Tick::Count(1));
    assert_eq!(sys_tick(49), Tick::Count(50));
    assert_eq!(sys_tick(50), Tick::Reset);
    assert_eq!(sys_tick(u32::MAX - 1), Tick::Reset);
    assert_eq!(WDOG_DISARMED, u32::MAX);
}

#[test]
fn a_stuck_inference_is_cut_off() {
    let guard = WdogGuard::arm();
    let mut ticks = guard.ticks();
    assert_eq!(ticks, 0);
    for n in 0..WDOG_LIMIT_TICKS {
        assert_eq!(sys_tick(ticks), Tick::Count(n + 1));
        ticks = n + 1;
    }
    assert_eq!(sys_tick(ticks), Tick::Reset);
    assert_eq!(guard.disarm(), WDOG_DISARMED);
}

#[test]
fn the_budget_is_half_a_second() {
    assert_eq!(SYST_RELOAD, 1_279_999);
    assert_eq!(WDOG_LIMIT_TICKS * (SYST_RELOAD + 1), 64_000_000);
}
