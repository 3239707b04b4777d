use nrf54_audio::kws::engine::{bring_up, settle, wait, EngineOp, Votes, Wait};
use nrf54_audio::mmio::RegWrite;
use nrf54_audio::platform::UserEvent;

const ENABLE: u32 = 0x5005_6400;
const ON: EngineOp = EngineOp::Enable(RegWrite { addr: ENABLE, val: 1 });
const OFF: EngineOp = EngineOp::Enable(RegWrite { addr: ENABLE, val: 0 });

#[test]
fn bringing_up_cycles_the_engine_first() {
    assert_eq!(bring_up(), vec![OFF, ON, EngineOp::DriverInit(0x5005_6000)]);
}

#[test]
fn the_interrupt_is_unmasked_once_the_driver_is_up() {
    assert_eq!(settle(0), (vec![EngineOp::Unmask(86), OFF], 0));
    assert_eq!(settle(-5), (vec![OFF], -5));
}

#[test]
fn the_first_vote_powers_on_and_the_last_off() {
    let mut votes = Votes::new();
    assert_eq!(votes.reserve(), vec![ON, EngineOp::PowerOn]);
    assert_eq!(votes.reserve(), vec![]);
    assert_eq!(votes.free(), vec![]);
    assert_eq!(votes.reserve(), vec![]);
    assert_eq!(votes.count, 2);
    assert_eq!(votes.free(), vec![]);
    assert_eq!(votes.free(), vec![EngineOp::PowerOff, OFF]);
    assert_eq!(votes.count, 0);
    assert_eq!(votes.free(), vec![]);
    assert_eq!(votes.count, 0);
    assert_eq!(votes.reserve(), vec![ON, EngineOp::PowerOn]);
}

#[test]
fn waiting_polls_until_the_event_is_pending() {
    let mut event = UserEvent { pending: false };
    assert_eq!(wait(&mut event), Wait::Poll);
    assert!(!event.pending);
    event.pending = true;
    assert_eq!(wait(&mut event), Wait::Over);
    assert!(!event.pending);
    assert_eq!(wait(&mut event), Wait::Poll);
}
