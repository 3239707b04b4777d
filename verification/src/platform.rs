//! The platform layer that the Axon driver calls, for a single-threaded
//! application that runs its inferences synchronously.
//!
//! Reservation is trivial, since there is one owner; the user event is a flag;
//! interrupts are masked for short critical sections. What is here decides; the
//! caller masks, enables, waits and calls the driver.

use vstd::prelude::*;

use crate::mmio::{rd, wr, RegWrite};

verus! {

/// The AXONS block, secure alias.
pub const AXON_BASE_ADDR: u32 = 0x5005_6000;

/// The AXONS interrupt line.
pub const AXONS_IRQN: u16 = 86;

/// The ENABLE register's offset.
pub const AXON_ENABLE_OFFSET: u32 = 0x400;

/// The enabling bit of ENABLE.
pub const AXON_ENABLE_EN_BIT: u32 = 1;

/// The clock that profiling ticks count.
pub const CLK_HZ: u32 = 128_000_000;

/// What bringing the engine up has come to.
#[derive(Clone, Copy, PartialEq, Eq, Structural, Debug)]
pub enum InitEvent {
    /// Nothing has been done yet.
    Reset,
    /// ENABLE reads so.
    EnableRead(u32),
    /// The driver's initialization returned this code.
    DriverInit(i32),
    /// The driver's powering on returned this code.
    PowerOn(i32),
}

/// What to do next to bring the engine up.
#[derive(Clone, Copy, PartialEq, Eq, Structural, Debug)]
pub enum InitAction {
    /// Read the register at this address.
    ReadEnable(u32),
    /// Make this write, then initialize the driver for the block at `base`.
    EnableAndInit { write: RegWrite, base: u32 },
    /// Power the driver on.
    PowerOn,
    /// Bringing up ends with this code; 0 is success.
    Done(i32),
}

/// One step of bringing the engine up: power and clock first, then the driver's
/// initialization, then, unless that failed, its powering on.
pub fn init(event: InitEvent) -> (action: InitAction)
    ensures
        action == init_step(event),
{
    match event {
        InitEvent::Reset => InitAction::ReadEnable(rd(AXON_BASE_ADDR, AXON_ENABLE_OFFSET)),
        InitEvent::EnableRead(enable) => InitAction::EnableAndInit {
            write: wr(AXON_BASE_ADDR, AXON_ENABLE_OFFSET, enable | AXON_ENABLE_EN_BIT),
            base: AXON_BASE_ADDR,
        },
        InitEvent::DriverInit(rc) => {
            if rc != 0 {
                InitAction::Done(rc)
            } else {
                InitAction::PowerOn
            }
        },
        InitEvent::PowerOn(rc) => InitAction::Done(rc),
    }
}

/// What follows each event of bringing the engine up.
pub open spec fn init_step(event: InitEvent) -> InitAction {
    match event {
        InitEvent::Reset => InitAction::ReadEnable((AXON_BASE_ADDR + AXON_ENABLE_OFFSET) as u32),
        InitEvent::EnableRead(enable) => InitAction::EnableAndInit {
            write: RegWrite {
                addr: (AXON_BASE_ADDR + AXON_ENABLE_OFFSET) as u32,
                val: enable | AXON_ENABLE_EN_BIT,
            },
            base: AXON_BASE_ADDR,
        },
        InitEvent::DriverInit(rc) => if rc != 0 {
            InitAction::Done(rc)
        } else {
            InitAction::PowerOn
        },
        InitEvent::PowerOn(rc) => InitAction::Done(rc),
    }
}

/// The code that bringing up ends with, given what the driver's two calls would
/// return.
pub open spec fn init_code(driver_init: i32, power_on: i32) -> i32 {
    match init_step(InitEvent::DriverInit(driver_init)) {
        InitAction::PowerOn => match init_step(InitEvent::PowerOn(power_on)) {
            InitAction::Done(rc) => rc,
            _ => arbitrary(),
        },
        InitAction::Done(rc) => rc,
        _ => arbitrary(),
    }
}

/// Bringing up succeeds exactly when both driver calls do, and otherwise ends
/// with the code of the first that fails.
pub proof fn law_init_reports_the_first_failure(driver_init: i32, power_on: i32)
    ensures
        init_code(driver_init, power_on) == 0 <==> driver_init == 0 && power_on == 0,
        driver_init != 0 ==> init_code(driver_init, power_on) == driver_init,
        driver_init == 0 ==> init_code(driver_init, power_on) == power_on,
{
}

/// Enabling sets the enabling bit and leaves the others as they were.
pub proof fn law_enabling_keeps_other_bits(enable: u32)
    ensures
        (enable | AXON_ENABLE_EN_BIT) & AXON_ENABLE_EN_BIT == AXON_ENABLE_EN_BIT,
        (enable | AXON_ENABLE_EN_BIT) >> 1 == enable >> 1,
{
    assert((enable | 1u32) & 1u32 == 1u32) by (bit_vector);
    assert((enable | 1u32) >> 1 == enable >> 1) by (bit_vector);
}

/// What to do with the interrupt mask.
#[derive(Clone, Copy, PartialEq, Eq, Structural, Debug)]
pub enum Mask {
    /// Disable interrupts.
    Disable,
    /// Enable interrupts.
    Enable,
    /// Leave the mask alone.
    Leave,
}

/// Whether interrupts are enabled after `mask` has been done.
pub open spec fn masked(mask: Mask, enabled: bool) -> bool {
    match mask {
        Mask::Disable => false,
        Mask::Enable => true,
        Mask::Leave => enabled,
    }
}

/// Opens a critical section; `was_enabled` is whether interrupts were enabled.
/// Gives the value to close the section with.
pub fn nrf_axon_platform_disable_interrupts(was_enabled: bool) -> (opened: (u32, Mask))
    ensures
        opened.0 == saved(was_enabled),
        opened.1 == Mask::Disable,
{
    (if was_enabled {
        1
    } else {
        0
    }, Mask::Disable)
}

/// The value that a critical section opened with interrupts so is closed with.
pub open spec fn saved(was_enabled: bool) -> u32 {
    if was_enabled {
        1
    } else {
        0
    }
}

/// What closing a critical section with a value does to the mask.
pub open spec fn restoring(restore_value: u32) -> Mask {
    if restore_value != 0 {
        Mask::Enable
    } else {
        Mask::Leave
    }
}

/// Closes the critical section that was opened with `restore_value`: interrupts
/// are only enabled again if they were enabled before it.
pub fn nrf_axon_platform_restore_interrupts(restore_value: u32) -> (mask: Mask)
    ensures
        mask == restoring(restore_value),
{
    if restore_value != 0 {
        Mask::Enable
    } else {
        Mask::Leave
    }
}

/// An end of a critical section.
#[derive(Clone, Copy, PartialEq, Eq, Structural, Debug)]
pub enum SectionOp {
    /// A section is opened.
    Open,
    /// The section that was opened last, of those still open, is closed.
    Close,
}

/// Whether interrupts are enabled, and the values to close the open sections with,
/// the innermost last.
#[verifier::ext_equal]
pub struct Sections {
    pub enabled: bool,
    pub open: Seq<u32>,
}

/// The state after one section is opened or closed.
pub open spec fn after_section_op(s: Sections, op: SectionOp) -> Sections {
    match op {
        SectionOp::Open => Sections {
            enabled: masked(Mask::Disable, s.enabled),
            open: s.open.push(saved(s.enabled)),
        },
        SectionOp::Close => Sections {
            enabled: masked(restoring(s.open.last()), s.enabled),
            open: s.open.drop_last(),
        },
    }
}

/// The state after several sections are opened and closed.
pub open spec fn after_section_ops(s: Sections, ops: Seq<SectionOp>) -> Sections
    decreases ops.len(),
{
    if ops.len() == 0 {
        s
    } else {
        after_section_op(after_section_ops(s, ops.drop_last()), ops.last())
    }
}

/// How many more sections have been opened than closed.
pub open spec fn depth(ops: Seq<SectionOp>) -> int
    decreases ops.len(),
{
    if ops.len() == 0 {
        0
    } else {
        depth(ops.drop_last()) + match ops.last() {
            SectionOp::Open => 1int,
            SectionOp::Close => -1int,
        }
    }
}

/// Every section that is closed was opened before.
pub open spec fn nested(ops: Seq<SectionOp>) -> bool {
    forall|k: int| 0 <= k <= ops.len() ==> depth(#[trigger] ops.take(k)) >= 0
}

/// Critical sections nest, in whatever order they are opened and closed: once all
/// are closed, interrupts are as they were before the first was opened, and while
/// any is open they stay disabled, also after an inner one has been closed.
pub proof fn law_critical_sections_nest(s: Sections, ops: Seq<SectionOp>)
    requires
        nested(ops),
    ensures
        depth(ops) == 0 ==> after_section_ops(s, ops) == s,
        depth(ops) > 0 ==> !after_section_ops(s, ops).enabled,
{
    lemma_sections(s, ops);
}

/// The values to close `n` sections with, of which the outermost was opened with
/// interrupts as in `s`.
spec fn saved_by(s: Sections, n: nat) -> Seq<u32> {
    Seq::new(
        n,
        |i: int|
            if i == 0 {
                saved(s.enabled)
            } else {
                saved(false)
            },
    )
}

proof fn lemma_sections(s: Sections, ops: Seq<SectionOp>)
    requires
        nested(ops),
    ensures
        depth(ops) >= 0,
        after_section_ops(s, ops).open == s.open + saved_by(s, depth(ops) as nat),
        after_section_ops(s, ops).enabled == (s.enabled && depth(ops) == 0),
    decreases ops.len(),
{
    assert(ops.take(ops.len() as int) =~= ops);
    if ops.len() > 0 {
        let front = ops.drop_last();
        assert forall|k: int| 0 <= k <= front.len() implies depth(#[trigger] front.take(k)) >= 0 by {
            assert(front.take(k) =~= ops.take(k));
        }
        lemma_sections(s, front);
    }
}

/// Reserves the engine for the user: granted, since there is one owner.
pub fn nrf_axon_platform_reserve_for_user() -> (granted: bool)
    ensures
        granted,
{
    true
}

/// Reserves the engine for the driver: granted, since there is one owner.
pub fn nrf_axon_platform_reserve_for_driver() -> (granted: bool)
    ensures
        granted,
{
    true
}

/// The user event: pending or not.
#[derive(Clone, Copy, PartialEq, Eq, Structural, Debug)]
pub struct UserEvent {
    pub pending: bool,
}

/// What can happen to the user event.
#[derive(Clone, Copy, PartialEq, Eq, Structural, Debug)]
pub enum EventOp {
    /// It is signalled.
    Signal,
    /// The user looks at it, and takes it if it is pending.
    Look,
}

/// The event after one operation.
pub open spec fn after_op(event: UserEvent, op: EventOp) -> UserEvent {
    UserEvent { pending: op == EventOp::Signal }
}

/// Signals the user event.
pub fn nrf_axon_platform_generate_user_event(event: &mut UserEvent)
    ensures
        *final(event) == after_op(*old(event), EventOp::Signal),
{
    event.pending = true;
}

/// One look at the user event. Waiting is over if it was pending; otherwise the
/// caller pauses and looks again.
pub fn nrf_axon_platform_wait_for_user_event(event: &mut UserEvent) -> (over: bool)
    ensures
        *final(event) == after_op(*old(event), EventOp::Look),
        over == old(event).pending,
{
    let over: bool = event.pending;
    event.pending = false;
    over
}

/// The event after several operations.
pub open spec fn after_ops(event: UserEvent, ops: Seq<EventOp>) -> UserEvent
    decreases ops.len(),
{
    if ops.len() == 0 {
        event
    } else {
        after_op(after_ops(event, ops.drop_last()), ops.last())
    }
}

/// Signals are not lost, and none is found twice: with `last` the last look
/// before operation `k`, or -1 if there was none, a look at `k` finds the event
/// exactly when it was signalled in between, or was pending from the start and
/// never looked at.
pub proof fn law_signals_are_found_once(event: UserEvent, ops: Seq<EventOp>, last: int, k: int)
    requires
        -1 <= last < k <= ops.len(),
        last >= 0 ==> ops[last] == EventOp::Look,
        forall|i: int| last < i < k ==> #[trigger] ops[i] != EventOp::Look,
    ensures
        after_ops(event, ops.take(k)).pending <==> (exists|i: int|
            last < i < k && #[trigger] ops[i] == EventOp::Signal) || (last == -1 && event.pending),
{
}

/// The rate of the clock that profiling ticks count.
pub fn nrf_axon_platform_get_clk_hz() -> (hz: u32)
    ensures
        hz == 128_000_000,
{
    CLK_HZ
}

/// Bringing up reads ENABLE, sets its lowest bit and no other, initializes the driver
/// for the block, and powers it on only if that worked.
pub proof fn law_bring_up_step_by_step(enable: u32, rc: i32)
    ensures
        init_step(InitEvent::Reset) == InitAction::ReadEnable(0x5005_6400),
        init_step(InitEvent::EnableRead(enable)) matches InitAction::EnableAndInit { write, base } && {
            &&& write.addr == 0x5005_6400
            &&& write.val & 1 == 1
            &&& write.val >> 1 == enable >> 1
            &&& base == 0x5005_6000
        },
        init_step(InitEvent::DriverInit(rc)) == if rc == 0 {
            InitAction::PowerOn
        } else {
            InitAction::Done(rc)
        },
        init_step(InitEvent::PowerOn(rc)) == InitAction::Done(rc),
        AXONS_IRQN == 86,
        CLK_HZ == 128_000_000,
{
    law_enabling_keeps_other_bits(enable);
}

/// Closing a section with the value that opening it gave leaves interrupts as they
/// were before, and never enables them if they were not.
pub proof fn law_closing_restores(enabled: bool)
    ensures
        masked(restoring(saved(enabled)), false) == enabled,
        !masked(Mask::Disable, enabled),
        masked(Mask::Enable, enabled),
        masked(Mask::Leave, enabled) == enabled,
        saved(true) == 1,
        saved(false) == 0,
{
}

/// Any value but zero enables interrupts again; zero leaves them alone.
pub proof fn law_restoring_enables_unless_zero(restore_value: u32)
    ensures
        restore_value == 0 <==> restoring(restore_value) == Mask::Leave,
        restore_value != 0 <==> restoring(restore_value) == Mask::Enable,
{
}

/// After a signal the event is pending, after a look it is not.
pub proof fn law_signals_set_and_looks_take(event: UserEvent)
    ensures
        after_op(event, EventOp::Signal).pending,
        !after_op(event, EventOp::Look).pending,
{
}

} // verus!
