//! How the keyword image handles the Axon engine.
//!
//! A session that is cut off in the middle of an inference leaves the engine
//! wedged, and a soft reset does not clear that: only switching ENABLE off does. So
//! the image switches the engine off and on before it initializes the driver, and
//! keeps it powered only while somebody has reserved it. Inferences end with an
//! interrupt, which is unmasked once the driver is initialized and not before.
//!
//! Each function says what is to be done, in order; the caller does it.

use vstd::prelude::*;

use crate::mmio::{wr, RegWrite};
use crate::platform::{
    after_op, nrf_axon_platform_wait_for_user_event, EventOp, UserEvent, AXONS_IRQN,
    AXON_BASE_ADDR, AXON_ENABLE_EN_BIT, AXON_ENABLE_OFFSET,
};

verus! {

/// Something that is done to the engine.
#[derive(Clone, Copy, PartialEq, Eq, Structural, Debug)]
pub enum EngineOp {
    /// Make this write to ENABLE.
    Enable(RegWrite),
    /// Initialize the driver for the block at this address.
    DriverInit(u32),
    /// Let this interrupt through.
    Unmask(u16),
    /// Have the driver power on.
    PowerOn,
    /// Have the driver power off.
    PowerOff,
}

/// Switching the engine off or on at ENABLE.
pub open spec fn switch(on: bool) -> EngineOp {
    EngineOp::Enable(
        RegWrite {
            addr: (AXON_BASE_ADDR + AXON_ENABLE_OFFSET) as u32,
            val: if on {
                AXON_ENABLE_EN_BIT
            } else {
                0
            },
        },
    )
}

fn switched(on: bool) -> (op: EngineOp)
    ensures
        op == switch(on),
{
    EngineOp::Enable(
        wr(
            AXON_BASE_ADDR,
            AXON_ENABLE_OFFSET,
            if on {
                AXON_ENABLE_EN_BIT
            } else {
                0
            },
        ),
    )
}

/// What bringing the engine up begins with: the engine is switched off and on
/// again, and the driver is initialized.
pub open spec fn bring_up_ops() -> Seq<EngineOp> {
    seq![switch(false), switch(true), EngineOp::DriverInit(AXON_BASE_ADDR)]
}

/// What follows, given the code that the driver's initialization returned: if it
/// succeeded, the interrupt is unmasked; either way the engine is switched off
/// until it is reserved.
pub open spec fn settle_ops(rc: i32) -> Seq<EngineOp> {
    if rc == 0 {
        seq![EngineOp::Unmask(AXONS_IRQN), switch(false)]
    } else {
        seq![switch(false)]
    }
}

/// Begins to bring the engine up.
pub fn bring_up() -> (ops: Vec<EngineOp>)
    ensures
        ops@ == bring_up_ops(),
{
    let mut ops: Vec<EngineOp> = Vec::new();
    ops.push(switched(false));
    ops.push(switched(true));
    ops.push(EngineOp::DriverInit(AXON_BASE_ADDR));
    ops
}

/// Ends bringing the engine up, given the code that the driver's initialization
/// returned. Gives the code that bringing up ends with; 0 is success.
pub fn settle(rc: i32) -> (settled: (Vec<EngineOp>, i32))
    ensures
        settled.0@ == settle_ops(rc),
        settled.1 == rc,
{
    let mut ops: Vec<EngineOp> = Vec::new();
    if rc == 0 {
        ops.push(EngineOp::Unmask(AXONS_IRQN));
    }
    ops.push(switched(false));
    (ops, rc)
}

/// How many reservations of the engine are open.
#[derive(Clone, Copy, PartialEq, Eq, Structural, Debug)]
pub struct Votes {
    pub count: u32,
}

/// What can be done with a reservation.
#[derive(Clone, Copy, PartialEq, Eq, Structural, Debug)]
pub enum VoteOp {
    /// One is made.
    Reserve,
    /// One is given back. If there is none, nothing happens.
    Free,
}

/// How many reservations are open after `op`.
pub open spec fn votes_after(count: nat, op: VoteOp) -> nat {
    match op {
        VoteOp::Reserve => count + 1,
        VoteOp::Free => if count == 0 {
            0
        } else {
            (count - 1) as nat
        },
    }
}

/// What `op` does to the engine: the first reservation powers it on, and giving the
/// last one back powers it off.
pub open spec fn vote_ops(count: nat, op: VoteOp) -> Seq<EngineOp> {
    match op {
        VoteOp::Reserve => if count == 0 {
            seq![switch(true), EngineOp::PowerOn]
        } else {
            Seq::empty()
        },
        VoteOp::Free => if count == 1 {
            seq![EngineOp::PowerOff, switch(false)]
        } else {
            Seq::empty()
        },
    }
}

impl Votes {
    /// No reservation.
    pub fn new() -> (votes: Votes)
        ensures
            votes.count == 0,
    {
        Votes { count: 0 }
    }

    /// Reserves the engine. Reservations must not leave 32 bits.
    pub fn reserve(&mut self) -> (ops: Vec<EngineOp>)
        requires
            old(self).count < u32::MAX,
        ensures
            final(self).count == votes_after(old(self).count as nat, VoteOp::Reserve),
            ops@ == vote_ops(old(self).count as nat, VoteOp::Reserve),
    {
        let mut ops: Vec<EngineOp> = Vec::new();
        if self.count == 0 {
            ops.push(switched(true));
            ops.push(EngineOp::PowerOn);
        }
        self.count = self.count + 1;
        ops
    }

    /// Gives a reservation back.
    pub fn free(&mut self) -> (ops: Vec<EngineOp>)
        ensures
            final(self).count == votes_after(old(self).count as nat, VoteOp::Free),
            ops@ == vote_ops(old(self).count as nat, VoteOp::Free),
    {
        let mut ops: Vec<EngineOp> = Vec::new();
        if self.count == 1 {
            ops.push(EngineOp::PowerOff);
            ops.push(switched(false));
        }
        if self.count > 0 {
            self.count = self.count - 1;
        }
        ops
    }
}

/// What a wait for the user event does next.
#[derive(Clone, Copy, PartialEq, Eq, Structural, Debug)]
pub enum Wait {
    /// It is over.
    Over,
    /// Have the driver look for an interrupt that was missed, then look again.
    Poll,
}

/// One look at the user event.
pub fn wait(event: &mut UserEvent) -> (next: Wait)
    ensures
        *final(event) == after_op(*old(event), EventOp::Look),
        next == if old(event).pending {
            Wait::Over
        } else {
            Wait::Poll
        },
{
    if nrf_axon_platform_wait_for_user_event(event) {
        Wait::Over
    } else {
        Wait::Poll
    }
}

/// The state of the engine, its driver and its interrupt.
pub struct Engine {
    pub enabled: bool,
    pub wedged: bool,
    pub initialized: bool,
    pub powered: bool,
    pub unmasked: bool,
}

/// The state after one operation. Switching the engine off clears it.
pub open spec fn after_engine_op(e: Engine, op: EngineOp) -> Engine {
    match op {
        EngineOp::Enable(write) => if write.val & AXON_ENABLE_EN_BIT != 0 {
            Engine { enabled: true, ..e }
        } else {
            Engine { enabled: false, wedged: false, powered: false, ..e }
        },
        EngineOp::DriverInit(_) => Engine { initialized: true, ..e },
        EngineOp::Unmask(_) => Engine { unmasked: true, ..e },
        EngineOp::PowerOn => Engine { powered: true, ..e },
        EngineOp::PowerOff => Engine { powered: false, ..e },
    }
}

/// The state after several operations.
pub open spec fn after_engine_ops(e: Engine, ops: Seq<EngineOp>) -> Engine
    decreases ops.len(),
{
    if ops.len() == 0 {
        e
    } else {
        after_engine_op(after_engine_ops(e, ops.drop_last()), ops.last())
    }
}

/// Whether an operation may be done: the driver is only initialized on an engine
/// that is on and not wedged, the interrupt only unmasked once the driver is
/// initialized, and the driver only powered on or off, once initialized, while the
/// engine is on.
pub open spec fn allowed(e: Engine, op: EngineOp) -> bool {
    match op {
        EngineOp::Enable(_) => true,
        EngineOp::DriverInit(_) => e.enabled && !e.wedged,
        EngineOp::Unmask(_) => e.initialized,
        EngineOp::PowerOn => e.enabled && e.initialized,
        EngineOp::PowerOff => e.enabled && e.initialized,
    }
}

/// Whether operations may be done one after the other.
pub open spec fn all_allowed(e: Engine, ops: Seq<EngineOp>) -> bool
    decreases ops.len(),
{
    ops.len() > 0 ==> all_allowed(e, ops.drop_last()) && allowed(
        after_engine_ops(e, ops.drop_last()),
        ops.last(),
    )
}

/// Whatever state a reset finds the engine in, bringing it up does everything in an
/// order that is allowed, and leaves it off, not wedged, and, exactly if the driver's
/// initialization succeeded, with its interrupt unmasked.
pub proof fn law_bring_up_recovers_the_engine(e: Engine, rc: i32)
    requires
        !e.unmasked,
    ensures
        all_allowed(e, bring_up_ops() + settle_ops(rc)),
        ({
            let after = after_engine_ops(e, bring_up_ops() + settle_ops(rc));
            &&& !after.enabled
            &&& !after.wedged
            &&& !after.powered
            &&& after.initialized
            &&& after.unmasked <==> rc == 0
        }),
{
    lemma_switch();
    let none = Seq::<EngineOp>::empty();
    let off = none.push(switch(false));
    let on = off.push(switch(true));
    let init = on.push(EngineOp::DriverInit(AXON_BASE_ADDR));
    let unmasked = init.push(EngineOp::Unmask(AXONS_IRQN));
    lemma_one_more(e, none, switch(false));
    lemma_one_more(e, off, switch(true));
    lemma_one_more(e, on, EngineOp::DriverInit(AXON_BASE_ADDR));
    lemma_one_more(e, init, EngineOp::Unmask(AXONS_IRQN));
    lemma_one_more(e, init, switch(false));
    lemma_one_more(e, unmasked, switch(false));
    if rc == 0 {
        assert(bring_up_ops() + settle_ops(rc) =~= unmasked.push(switch(false)));
    } else {
        assert(bring_up_ops() + settle_ops(rc) =~= init.push(switch(false)));
    }
}

/// How many reservations are open after some are made and given back.
pub open spec fn open_votes(ops: Seq<VoteOp>) -> nat
    decreases ops.len(),
{
    if ops.len() == 0 {
        0
    } else {
        votes_after(open_votes(ops.drop_last()), ops.last())
    }
}

/// All that reservations do to the engine.
pub open spec fn ops_of_votes(ops: Seq<VoteOp>) -> Seq<EngineOp>
    decreases ops.len(),
{
    if ops.len() == 0 {
        Seq::empty()
    } else {
        ops_of_votes(ops.drop_last()) + vote_ops(open_votes(ops.drop_last()), ops.last())
    }
}

/// Reservations made, less those given back.
pub open spec fn balance(ops: Seq<VoteOp>) -> int
    decreases ops.len(),
{
    if ops.len() == 0 {
        0
    } else {
        balance(ops.drop_last()) + match ops.last() {
            VoteOp::Reserve => 1int,
            VoteOp::Free => -1int,
        }
    }
}

/// In whatever order the engine is reserved and freed, it is on and its driver
/// powered exactly while a reservation is open, and everything is done in an order
/// that is allowed.
pub proof fn law_powered_exactly_while_reserved(e: Engine, ops: Seq<VoteOp>)
    requires
        e.initialized,
        !e.enabled,
        !e.powered,
    ensures
        all_allowed(e, ops_of_votes(ops)),
        after_engine_ops(e, ops_of_votes(ops)).enabled <==> open_votes(ops) > 0,
        after_engine_ops(e, ops_of_votes(ops)).powered <==> open_votes(ops) > 0,
{
    lemma_votes(e, ops);
}

/// As long as no more reservations are given back than were made, those that are
/// open are the ones made and not given back.
pub proof fn law_votes_are_counted(ops: Seq<VoteOp>)
    requires
        forall|k: int| 0 <= k <= ops.len() ==> balance(#[trigger] ops.take(k)) >= 0,
    ensures
        open_votes(ops) == balance(ops),
    decreases ops.len(),
{
    assert(ops.take(ops.len() as int) =~= ops);
    if ops.len() > 0 {
        let front = ops.drop_last();
        assert forall|k: int| 0 <= k <= front.len() implies balance(#[trigger] front.take(k)) >= 0 by {
            assert(front.take(k) =~= ops.take(k));
        }
        law_votes_are_counted(front);
    }
}

proof fn lemma_switch()
    ensures
        AXON_ENABLE_EN_BIT & AXON_ENABLE_EN_BIT != 0,
        0u32 & AXON_ENABLE_EN_BIT == 0,
{
    assert(1u32 & 1u32 == 1u32) by (bit_vector);
    assert(0u32 & 1u32 == 0u32) by (bit_vector);
}

proof fn lemma_votes(e: Engine, ops: Seq<VoteOp>)
    requires
        e.initialized,
        !e.enabled,
        !e.powered,
    ensures
        all_allowed(e, ops_of_votes(ops)),
        after_engine_ops(e, ops_of_votes(ops)).initialized,
        after_engine_ops(e, ops_of_votes(ops)).enabled <==> open_votes(ops) > 0,
        after_engine_ops(e, ops_of_votes(ops)).powered <==> open_votes(ops) > 0,
    decreases ops.len(),
{
    if ops.len() > 0 {
        lemma_votes(e, ops.drop_last());
        lemma_switch();
        let before = ops_of_votes(ops.drop_last());
        let more = vote_ops(open_votes(ops.drop_last()), ops.last());
        if more.len() == 2 {
            lemma_one_more(e, before, more[0]);
            lemma_one_more(e, before.push(more[0]), more[1]);
            assert(before + more =~= before.push(more[0]).push(more[1]));
        } else {
            assert(before + more =~= before);
        }
    }
}

proof fn lemma_one_more(e: Engine, ops: Seq<EngineOp>, op: EngineOp)
    ensures
        after_engine_ops(e, ops.push(op)) == after_engine_op(after_engine_ops(e, ops), op),
        all_allowed(e, ops.push(op)) <==> all_allowed(e, ops) && allowed(
            after_engine_ops(e, ops),
            op,
        ),
{
    assert(ops.push(op).drop_last() =~= ops);
}

/// Everything that is done, in full: ENABLE is written 0 to switch the engine off and
/// 1 to switch it on; bringing up goes off, on, and initializes the driver for the
/// block; if that worked, interrupt 86 is unmasked; then the engine goes off.
pub proof fn law_engine_operations_in_full(rc: i32)
    ensures
        switch(false) == EngineOp::Enable(RegWrite { addr: 0x5005_6400, val: 0 }),
        switch(true) == EngineOp::Enable(RegWrite { addr: 0x5005_6400, val: 1 }),
        bring_up_ops().len() == 3,
        bring_up_ops()[0] == switch(false),
        bring_up_ops()[1] == switch(true),
        bring_up_ops()[2] == EngineOp::DriverInit(0x5005_6000),
        rc == 0 ==> settle_ops(rc) == seq![EngineOp::Unmask(86), switch(false)],
        rc != 0 ==> settle_ops(rc) == seq![switch(false)],
{
}

/// Only the first reservation and the return of the last one do anything to the
/// engine: powering on comes after switching on, powering off before switching off.
pub proof fn law_only_first_and_last_votes_act(count: nat)
    ensures
        votes_after(count, VoteOp::Reserve) == count + 1,
        count > 0 ==> votes_after(count, VoteOp::Free) == count - 1,
        votes_after(0, VoteOp::Free) == 0,
        vote_ops(0, VoteOp::Reserve) == seq![switch(true), EngineOp::PowerOn],
        count > 0 ==> vote_ops(count, VoteOp::Reserve).len() == 0,
        vote_ops(1, VoteOp::Free) == seq![EngineOp::PowerOff, switch(false)],
        count != 1 ==> vote_ops(count, VoteOp::Free).len() == 0,
{
}

} // verus!
