use nrf54_audio::mmio::RegWrite;
use nrf54_audio::platform::{
    init, nrf_axon_platform_disable_interrupts, nrf_axon_platform_generate_user_event,
    nrf_axon_platform_get_clk_hz, nrf_axon_platform_reserve_for_driver,
    nrf_axon_platform_reserve_for_user, nrf_axon_platform_restore_interrupts,
    nrf_axon_platform_wait_for_user_event, InitAction, InitEvent, Mask, UserEvent, AXONS_IRQN,
    AXON_BASE_ADDR,
};

fn bring_up(enable: u32, driver_init: i32, power_on: i32) -> (u32, bool, i32) {
    let mut written = 0;
    let mut powered = false;
    let mut event = InitEvent::Reset;
    loop {
        event = match init(event) {
            InitAction::ReadEnable(addr) => {
                assert_eq!(addr, 0x5005_6400);
                InitEvent::EnableRead(enable)
            }
            InitAction::EnableAndInit { write, base } => {
                assert_eq!(write.addr, 0x5005_6400);
                assert_eq!(base, AXON_BASE_ADDR);
                written = write.val;
                InitEvent::DriverInit(driver_init)
            }
            InitAction::PowerOn => {
                powered = true;
                InitEvent::PowerOn(power_on)
            }
            InitAction::Done(rc) => return (written, powered, rc),
        };
    }
}

#[test]
fn bringing_the_engine_up() {
    assert_eq!(bring_up(0, 0, 0), (1, true, 0));
    assert_eq!(bring_up(0xF0, 0, 0), (0xF1, true, 0));
    assert_eq!(bring_up(1, 0, -5), (1, true, -5));
    assert_eq!(bring_up(0, -3, -5), (1, false, -3));
    assert_eq!(bring_up(0, 7, 0), (1, false, 7));
}

#[test]
fn the_enabling_write() {
    assert_eq!(
        init(InitEvent::EnableRead(0x8000_0000)),
        InitAction::EnableAndInit {
            write: RegWrite { addr: 0x5005_6400, val: 0x8000_0001 },
            base: 0x5005_6000,
        }
    );
}

fn masked(mask: Mask, enabled: bool) -> bool {
    match mask {
        Mask::Disable => false,
        Mask::Enable => true,
        Mask::Leave => enabled,
    }
}

fn nest(enabled: bool, depth: u32) -> bool {
    if depth == 0 {
        return enabled;
    }
    let (saved, mask) = nrf_axon_platform_disable_interrupts(enabled);
    let inside = masked(mask, enabled);
    assert!(!inside);
    let inside = nest(inside, depth - 1);
    assert!(!inside);
    masked(nrf_axon_platform_restore_interrupts(saved), inside)
}

#[test]
fn critical_sections_nest() {
    for depth in 0..5 {
        assert!(nest(true, depth));
        assert!(!nest(false, depth));
    }
}

#[test]
fn critical_sections_nest_in_any_order() {
    // 1 opens a section, 0 closes the innermost.
    for enabled in [true, false] {
        let mut now = enabled;
        let mut open = Vec::new();
        for op in [1, 0, 1, 1, 0, 1, 1, 0, 0, 0, 1, 0] {
            if op == 1 {
                let (saved, mask) = nrf_axon_platform_disable_interrupts(now);
                now = masked(mask, now);
                open.push(saved);
            } else {
                let saved = open.pop().unwrap();
                now = masked(nrf_axon_platform_restore_interrupts(saved), now);
            }
            assert_eq!(now, enabled && open.is_empty());
        }
    }
}

#[test]
fn saved_mask_values() {
    assert_eq!(nrf_axon_platform_disable_interrupts(true), (1, Mask::Disable));
    assert_eq!(nrf_axon_platform_disable_interrupts(false), (0, Mask::Disable));
    assert_eq!(nrf_axon_platform_restore_interrupts(0), Mask::Leave);
    assert_eq!(nrf_axon_platform_restore_interrupts(1), Mask::Enable);
    assert_eq!(nrf_axon_platform_restore_interrupts(4), Mask::Enable);
}

#[test]
fn signals_are_found_once() {
    let mut event = UserEvent { pending: false };
    assert!(!nrf_axon_platform_wait_for_user_event(&mut event));
    nrf_axon_platform_generate_user_event(&mut event);
    nrf_axon_platform_generate_user_event(&mut event);
    assert!(nrf_axon_platform_wait_for_user_event(&mut event));
    assert!(!nrf_axon_platform_wait_for_user_event(&mut event));
}

#[test]
fn reservations_and_clock() {
    assert!(nrf_axon_platform_reserve_for_user());
    assert!(nrf_axon_platform_reserve_for_driver());
    assert_eq!(nrf_axon_platform_get_clk_hz(), 128_000_000);
    assert_eq!(AXONS_IRQN, 86);
}
