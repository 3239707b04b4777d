//! Register accesses as data, and the order in which they are made.
//!
//! The drivers here decide what is written where and which event register is
//! waited for. A [`Sequencer`] hands these accesses out one by one to a caller
//! that can touch the bus.

use vstd::prelude::*;

verus! {

/// One 32-bit register write.
#[derive(Clone, Copy, PartialEq, Eq, Structural, Debug)]
pub struct RegWrite {
    pub addr: u32,
    pub val: u32,
}

/// The write of `val` to the register at `off` in the block at `base`.
pub fn wr(base: u32, off: u32, val: u32) -> (write: RegWrite)
    requires
        base + off <= u32::MAX,
    ensures
        write == (RegWrite { addr: (base + off) as u32, val }),
{
    RegWrite { addr: base + off, val }
}

/// The address to read for the register at `off` in the block at `base`.
pub fn rd(base: u32, off: u32) -> (addr: u32)
    requires
        base + off <= u32::MAX,
    ensures
        addr == base + off,
{
    base + off
}

/// The registers' values once `writes` have been made in order.
pub open spec fn after_writes(regs: Map<u32, u32>, writes: Seq<RegWrite>) -> Map<u32, u32>
    decreases writes.len(),
{
    if writes.len() == 0 {
        regs
    } else {
        after_writes(regs, writes.drop_last()).insert(writes.last().addr, writes.last().val)
    }
}

/// Writes to make, an event register to wait for, and a write to make once the
/// event has come.
pub struct Handshake {
    pub before: Vec<RegWrite>,
    pub event: u32,
    pub after: RegWrite,
}

/// What a bus does next.
#[derive(Clone, Copy, PartialEq, Eq, Structural, Debug)]
pub enum BusAction {
    /// Write a register.
    Write(RegWrite),
    /// Read the register at this address and hand its value back.
    Read(u32),
    /// Let a moment pass.
    Nop,
    /// Nothing: the handshake is complete.
    Done,
}

/// How far a handshake has come.
#[derive(Clone, Copy, PartialEq, Eq, Structural, Debug)]
pub enum Phase {
    /// This many of the first writes are made.
    Writing(usize),
    /// The event register is to be read again.
    Polling,
    /// The event register has been read.
    Checking,
    /// The last write is made.
    Finished,
}

/// A handshake's accesses, as sequences.
pub struct Script {
    pub before: Seq<RegWrite>,
    pub event: u32,
    pub after: RegWrite,
}

impl Handshake {
    /// The accesses that the handshake stands for.
    pub open spec fn view(&self) -> Script {
        Script { before: self.before@, event: self.event, after: self.after }
    }
}

/// The next access, and the phase after it; `read` is the last value read.
pub open spec fn next_access(script: Script, phase: Phase, read: u32) -> (Phase, BusAction) {
    match phase {
        Phase::Writing(i) => if i < script.before.len() && i < usize::MAX {
            (Phase::Writing((i + 1) as usize), BusAction::Write(script.before[i as int]))
        } else {
            (Phase::Checking, BusAction::Read(script.event))
        },
        Phase::Polling => (Phase::Checking, BusAction::Read(script.event)),
        Phase::Checking => if read == 0 {
            (Phase::Polling, BusAction::Nop)
        } else {
            (Phase::Finished, BusAction::Write(script.after))
        },
        Phase::Finished => (Phase::Finished, BusAction::Done),
    }
}

/// Hands out a handshake's accesses one at a time.
pub struct Sequencer {
    handshake: Handshake,
    phase: Phase,
}

impl Sequencer {
    /// The handshake's accesses.
    pub closed spec fn script(&self) -> Script {
        self.handshake@
    }

    /// How far it has come.
    pub closed spec fn phase(&self) -> Phase {
        self.phase
    }

    /// At the beginning of a handshake.
    pub fn new(handshake: Handshake) -> (s: Sequencer)
        ensures
            s.script() == handshake@,
            s.phase() == Phase::Writing(0),
    {
        Sequencer { handshake, phase: Phase::Writing(0) }
    }

    /// The next access. `read` is the value that the last [`BusAction::Read`]
    /// gave; before the first one it does not matter.
    pub fn step(&mut self, read: u32) -> (action: BusAction)
        ensures
            final(self).script() == old(self).script(),
            (final(self).phase(), action) == next_access(old(self).script(), old(self).phase(), read),
    {
        match self.phase {
            Phase::Writing(i) => {
                if i < self.handshake.before.len() {
                    self.phase = Phase::Writing(i + 1);
                    BusAction::Write(self.handshake.before[i])
                } else {
                    self.phase = Phase::Checking;
                    BusAction::Read(self.handshake.event)
                }
            },
            Phase::Polling => {
                self.phase = Phase::Checking;
                BusAction::Read(self.handshake.event)
            },
            Phase::Checking => {
                if read == 0 {
                    self.phase = Phase::Polling;
                    BusAction::Nop
                } else {
                    self.phase = Phase::Finished;
                    BusAction::Write(self.handshake.after)
                }
            },
            Phase::Finished => BusAction::Done,
        }
    }
}

/// Accesses left before the event register is next read, or before the end.
pub open spec fn rank(script: Script, phase: Phase) -> int {
    match phase {
        Phase::Writing(i) => if i < script.before.len() {
            3 + script.before.len() - i
        } else {
            3
        },
        Phase::Checking => 2,
        Phase::Polling => 1,
        Phase::Finished => 0,
    }
}

/// All accesses of a handshake on a bus that answers its reads with `answers`,
/// up to the end or to the first read that has no answer.
pub open spec fn accesses(script: Script, phase: Phase, read: u32, answers: Seq<u32>) -> Seq<
    BusAction,
>
    decreases answers.len(), rank(script, phase),
{
    let (then, action) = next_access(script, phase, read);
    match action {
        BusAction::Done => seq![action],
        BusAction::Read(_) => if answers.len() == 0 {
            seq![action]
        } else {
            seq![action] + accesses(script, then, answers[0], answers.drop_first())
        },
        _ => seq![action] + accesses(script, then, read, answers),
    }
}

/// A run of writes as accesses.
pub open spec fn as_accesses(writes: Seq<RegWrite>) -> Seq<BusAction> {
    Seq::new(writes.len(), |i: int| BusAction::Write(writes[i]))
}

/// `n` reads that find no event, with a pause after each.
pub open spec fn spins(event: u32, n: nat) -> Seq<BusAction>
    decreases n,
{
    if n == 0 {
        Seq::empty()
    } else {
        seq![BusAction::Read(event), BusAction::Nop] + spins(event, (n - 1) as nat)
    }
}

/// `n` reads that find no event.
pub open spec fn silence(n: nat) -> Seq<u32> {
    Seq::new(n, |i: int| 0u32)
}

/// A handshake makes its first writes in order, then reads the event register
/// with a pause after each read that finds nothing, and makes its last write
/// after the first read that finds the event, then ends.
pub proof fn law_handshake_waits_for_the_event(script: Script, read: u32, n: nat, found: u32)
    requires
        found != 0,
        script.before.len() <= usize::MAX,
    ensures
        accesses(script, Phase::Writing(0), read, silence(n).push(found)) == as_accesses(script.before)
            + spins(script.event, n) + seq![
            BusAction::Read(script.event),
            BusAction::Write(script.after),
            BusAction::Done,
        ],
{
    lemma_writes_come_first(script, 0, read, silence(n).push(found));
    lemma_polling(script, read, n, found);
}

/// As long as the event does not come, the last write is not made.
pub proof fn law_handshake_holds_without_the_event(script: Script, read: u32, n: nat)
    requires
        script.before.len() <= usize::MAX,
    ensures
        accesses(script, Phase::Writing(0), read, silence(n)) == as_accesses(script.before) + spins(
            script.event,
            n,
        ) + seq![BusAction::Read(script.event)],
{
    lemma_writes_come_first(script, 0, read, silence(n));
    lemma_polling_in_vain(script, read, n);
}

proof fn lemma_writes_come_first(script: Script, i: int, read: u32, answers: Seq<u32>)
    requires
        0 <= i <= script.before.len() <= usize::MAX,
    ensures
        accesses(script, Phase::Writing(i as usize), read, answers) == as_accesses(
            script.before.skip(i),
        ) + accesses(script, Phase::Polling, read, answers),
    decreases script.before.len() - i,
{
    if i < script.before.len() {
        lemma_writes_come_first(script, i + 1, read, answers);
    }
}

/// One read that finds no event, then a pause.
proof fn lemma_spin(script: Script, read: u32, answers: Seq<u32>)
    requires
        answers.len() > 0,
        answers[0] == 0,
    ensures
        accesses(script, Phase::Polling, read, answers) == seq![
            BusAction::Read(script.event),
            BusAction::Nop,
        ] + accesses(script, Phase::Polling, 0, answers.drop_first()),
{
    let rest = answers.drop_first();
    assert(accesses(script, Phase::Checking, 0, rest) == seq![BusAction::Nop] + accesses(
        script,
        Phase::Polling,
        0,
        rest,
    ));
}

proof fn lemma_polling(script: Script, read: u32, n: nat, found: u32)
    requires
        found != 0,
    ensures
        accesses(script, Phase::Polling, read, silence(n).push(found)) == spins(script.event, n)
            + seq![
            BusAction::Read(script.event),
            BusAction::Write(script.after),
            BusAction::Done,
        ],
    decreases n,
{
    let answers = silence(n).push(found);
    if n > 0 {
        lemma_spin(script, read, answers);
        assert(answers.drop_first() =~= silence((n - 1) as nat).push(found));
        lemma_polling(script, 0, (n - 1) as nat, found);
    } else {
        let rest = answers.drop_first();
        assert(accesses(script, Phase::Checking, found, rest) == seq![
            BusAction::Write(script.after),
        ] + accesses(script, Phase::Finished, found, rest));
    }
}

proof fn lemma_polling_in_vain(script: Script, read: u32, n: nat)
    ensures
        accesses(script, Phase::Polling, read, silence(n)) == spins(script.event, n) + seq![
            BusAction::Read(script.event),
        ],
    decreases n,
{
    if n > 0 {
        lemma_spin(script, read, silence(n));
        assert(silence(n).drop_first() =~= silence((n - 1) as nat));
        lemma_polling_in_vain(script, 0, (n - 1) as nat);
    }
}

/// A handshake, access by access: its first writes in order, `n` times a read and a
/// pause, the read that finds the event, the last write, the end.
pub proof fn law_handshake_access_by_access(
    handshake: Handshake,
    read: u32,
    n: nat,
    found: u32,
    i: int,
    j: int,
)
    requires
        found != 0,
        handshake.before@.len() <= usize::MAX,
    ensures
        ({
            let made = accesses(
                handshake@,
                Phase::Writing(0),
                read,
                Seq::new(n, |k: int| 0u32).push(found),
            );
            let m: int = handshake.before@.len() as int;
            &&& made.len() == m + 2 * n + 3
            &&& 0 <= i < m ==> made[i] == BusAction::Write(handshake.before@[i])
            &&& 0 <= j < n ==> made[m + 2 * j] == BusAction::Read(handshake.event)
            &&& 0 <= j < n ==> made[m + 2 * j + 1] == BusAction::Nop
            &&& made[m + 2 * n] == BusAction::Read(handshake.event)
            &&& made[m + 2 * n + 1] == BusAction::Write(handshake.after)
            &&& made[m + 2 * n + 2] == BusAction::Done
        }),
{
    law_handshake_waits_for_the_event(handshake@, read, n, found);
    assert(silence(n) =~= Seq::new(n, |k: int| 0u32));
    lemma_spins(handshake.event, n, j);
    let spun = spins(handshake.event, n);
    let m: int = handshake.before@.len() as int;
    let made = accesses(handshake@, Phase::Writing(0), read, silence(n).push(found));
    if 0 <= j < n {
        assert(made[m + 2 * j] == spun[2 * j]);
        assert(made[m + 2 * j + 1] == spun[2 * j + 1]);
    }
}

proof fn lemma_spins(event: u32, n: nat, j: int)
    ensures
        spins(event, n).len() == 2 * n,
        0 <= j < n ==> spins(event, n)[2 * j] == BusAction::Read(event),
        0 <= j < n ==> spins(event, n)[2 * j + 1] == BusAction::Nop,
    decreases n,
{
    if n > 0 {
        lemma_spins(event, (n - 1) as nat, j - 1);
    }
}

/// The last write to a register stays, and a write touches no other register.
pub proof fn law_last_write_stays(regs: Map<u32, u32>, writes: Seq<RegWrite>, w: RegWrite, addr: u32)
    ensures
        after_writes(regs, Seq::empty()) == regs,
        after_writes(regs, writes.push(w))[w.addr] == w.val,
        addr != w.addr ==> after_writes(regs, writes.push(w))[addr] == after_writes(
            regs,
            writes,
        )[addr],
{
    assert(writes.push(w).drop_last() =~= writes);
}

/// Until the event comes, a handshake makes its first writes and reads and pauses,
/// `n` times, and the read after that is its latest access: it makes no other write.
pub proof fn law_handshake_makes_no_early_write(
    handshake: Handshake,
    read: u32,
    n: nat,
    i: int,
    j: int,
)
    requires
        handshake.before@.len() <= usize::MAX,
    ensures
        ({
            let made = accesses(
                handshake@,
                Phase::Writing(0),
                read,
                Seq::new(n, |k: int| 0u32),
            );
            let m: int = handshake.before@.len() as int;
            &&& made.len() == m + 2 * n + 1
            &&& 0 <= i < m ==> made[i] == BusAction::Write(handshake.before@[i])
            &&& 0 <= j < n ==> made[m + 2 * j] == BusAction::Read(handshake.event)
            &&& 0 <= j < n ==> made[m + 2 * j + 1] == BusAction::Nop
            &&& made[m + 2 * n] == BusAction::Read(handshake.event)
        }),
{
    law_handshake_holds_without_the_event(handshake@, read, n);
    assert(silence(n) =~= Seq::new(n, |k: int| 0u32));
    lemma_spins(handshake.event, n, j);
    let spun = spins(handshake.event, n);
    let m: int = handshake.before@.len() as int;
    let made = accesses(handshake@, Phase::Writing(0), read, silence(n));
    if 0 <= j < n {
        assert(made[m + 2 * j] == spun[2 * j]);
        assert(made[m + 2 * j + 1] == spun[2 * j + 1]);
    }
}

} // verus!
