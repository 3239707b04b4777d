//! Is the microphone alive? A self-check of its data line, and what the capture
//! image logs about it.

use vstd::arithmetic::power2::pow2;
use vstd::prelude::*;
use vstd::string::*;

use crate::mmio::rd;
use crate::pdm::{Pin, GPIO_IN, P1_BASE};
use crate::text::{decimal, decimal_nat, push_u64};

verus! {

/// The pins of the microphone on the board: its clock on P1.23, a pin that can
/// carry a clock, and its data on P1.24.
pub fn mic_pins() -> (pins: (Pin, Pin))
    ensures
        pins.0 == (Pin { port: 1, pin: 23 }),
        pins.1 == (Pin { port: 1, pin: 24 }),
{
    (Pin { port: 1, pin: 23 }, Pin { port: 1, pin: 24 })
}

/// How often the data line is read at start-up to see whether it toggles.
pub const PROBE_READINGS: u32 = 200_000;

/// Whether a port's input register shows pin `n` high.
pub open spec fn is_high(level: u32, n: u8) -> bool {
    (level >> (n as u32)) & 1 != 0
}

/// How many of some readings show pin `n` high.
pub open spec fn high_count(levels: Seq<u32>, n: u8) -> nat
    decreases levels.len(),
{
    if levels.len() == 0 {
        0
    } else {
        high_count(levels.drop_last(), n) + if is_high(levels.last(), n) {
            1nat
        } else {
            0nat
        }
    }
}

/// What a probe of a pin wants next.
#[derive(Clone, Copy, PartialEq, Eq, Structural, Debug)]
pub enum ProbeStep {
    /// Read the register at this address and hand its value over.
    Read(u32),
    /// The probe is over: this many readings were high and low.
    Report { high: u32, low: u32 },
}

/// A probe of a pin's live level.
pub struct PinProbe {
    pin: Pin,
    left: u32,
    high: u32,
    low: u32,
    samples: Ghost<u32>,
    seen: Ghost<Seq<u32>>,
}

impl PinProbe {
    /// The counts are those of the readings seen so far.
    pub closed spec fn wf(&self) -> bool {
        &&& self.left > 0 ==> self.pin.pin < 32
        &&& self.left == self.samples@ - self.seen@.len()
        &&& self.high == high_count(self.seen@, self.pin.pin)
        &&& self.high + self.low == self.seen@.len()
    }

    /// The probed pin.
    pub closed spec fn pin(&self) -> Pin {
        self.pin
    }

    /// How many readings were asked for.
    pub closed spec fn samples(&self) -> u32 {
        self.samples@
    }

    /// The readings so far.
    pub closed spec fn seen(&self) -> Seq<u32> {
        self.seen@
    }

    /// What to do next.
    pub fn next(&self) -> (step: ProbeStep)
        requires
            self.wf(),
        ensures
            self.seen().len() < self.samples() ==> step == ProbeStep::Read(
                (P1_BASE + GPIO_IN) as u32,
            ),
            self.seen().len() >= self.samples() ==> step == (ProbeStep::Report {
                high: high_count(self.seen(), self.pin().pin) as u32,
                low: (self.samples() - high_count(self.seen(), self.pin().pin)) as u32,
            }),
    {
        if self.left > 0 {
            ProbeStep::Read(rd(P1_BASE, GPIO_IN))
        } else {
            ProbeStep::Report { high: self.high, low: self.low }
        }
    }

    /// Takes one reading of the port's input register in.
    pub fn take(&mut self, level: u32)
        requires
            old(self).wf(),
            old(self).seen().len() < old(self).samples(),
        ensures
            final(self).wf(),
            final(self).pin() == old(self).pin(),
            final(self).samples() == old(self).samples(),
            final(self).seen() == old(self).seen().push(level),
    {
        if (level >> (self.pin.pin as u32)) & 1 != 0 {
            self.high = self.high + 1;
        } else {
            self.low = self.low + 1;
        }
        self.left = self.left - 1;
        self.seen = Ghost(self.seen@.push(level));
        proof {
            assert(self.seen@.drop_last() =~= old(self).seen@);
        }
    }
}

/// Begins to probe the live level of `pin`, a pin of port 1 whose input buffer is
/// connected: the level is to be read `samples` times.
pub fn probe_pin_activity(pin: Pin, samples: u32) -> (probe: PinProbe)
    requires
        pin.pin < 32 || samples == 0,
    ensures
        probe.wf(),
        probe.pin() == pin,
        probe.samples() == samples,
        probe.seen() == Seq::<u32>::empty(),
{
    PinProbe {
        pin,
        left: samples,
        high: 0,
        low: 0,
        samples: Ghost(samples),
        seen: Ghost(Seq::empty()),
    }
}

/// What the readings say of a line.
#[derive(Clone, Copy, PartialEq, Eq, Structural, Debug)]
pub enum Line {
    /// It toggles: the microphone is clocked and drives it.
    Toggling,
    /// It never was low.
    StuckHigh,
    /// It never was high.
    StuckLow,
}

/// A line with these counts of high and low readings.
pub open spec fn line_of(high: u32, low: u32) -> Line {
    if high > 0 && low > 0 {
        Line::Toggling
    } else if high > 0 {
        Line::StuckHigh
    } else {
        Line::StuckLow
    }
}

/// What a probe's counts say of the line.
pub fn judge(high: u32, low: u32) -> (line: Line)
    ensures
        line == line_of(high, low),
{
    if high > 0 && low > 0 {
        Line::Toggling
    } else if high > 0 {
        Line::StuckHigh
    } else {
        Line::StuckLow
    }
}

/// A line is found toggling exactly when some reading was high and some was low.
pub proof fn law_toggling_means_both_levels(levels: Seq<u32>, n: u8)
    requires
        levels.len() <= u32::MAX,
    ensures
        high_count(levels, n) <= levels.len(),
        line_of(
            high_count(levels, n) as u32,
            (levels.len() - high_count(levels, n)) as u32,
        ) == Line::Toggling <==> (exists|i: int|
            0 <= i < levels.len() && is_high(#[trigger] levels[i], n)) && (exists|i: int|
            0 <= i < levels.len() && !is_high(#[trigger] levels[i], n)),
{
    lemma_high_count(levels, n);
}

proof fn lemma_high_count(levels: Seq<u32>, n: u8)
    ensures
        high_count(levels, n) <= levels.len(),
        high_count(levels, n) > 0 <==> exists|i: int|
            0 <= i < levels.len() && is_high(#[trigger] levels[i], n),
        high_count(levels, n) < levels.len() <==> exists|i: int|
            0 <= i < levels.len() && !is_high(#[trigger] levels[i], n),
    decreases levels.len(),
{
    if levels.len() > 0 {
        let front = levels.drop_last();
        lemma_high_count(front, n);
        assert forall|i: int| 0 <= i < levels.len() && is_high(#[trigger] levels[i], n) implies high_count(
            levels,
            n,
        ) > 0 by {
            assert(i < front.len() ==> is_high(front[i], n));
        }
        assert forall|i: int|
            0 <= i < levels.len() && !is_high(#[trigger] levels[i], n) implies high_count(levels, n)
            < levels.len() by {
            assert(i < front.len() ==> !is_high(front[i], n));
        }
    }
}

/// The capture image's log line about the data line.
pub fn line_report(line: Line) -> (text: &'static str)
    ensures
        text@ == match line {
            Line::Toggling => "pdm-mic: DAT line TOGGLING - mic is alive and clocked\n"@,
            Line::StuckHigh =>
                "pdm-mic: DAT line stuck HIGH - no mic data (check power/wiring/clock)\n"@,
            Line::StuckLow =>
                "pdm-mic: DAT line stuck LOW - no mic data (check power/wiring/clock)\n"@,
        },
{
    match line {
        Line::Toggling => "pdm-mic: DAT line TOGGLING - mic is alive and clocked\n",
        Line::StuckHigh => "pdm-mic: DAT line stuck HIGH - no mic data (check power/wiring/clock)\n",
        Line::StuckLow => "pdm-mic: DAT line stuck LOW - no mic data (check power/wiring/clock)\n",
    }
}

/// A pin's name as the board prints it: port, dot, pin number of two digits or
/// more.
pub open spec fn pin_name(p: Pin) -> Seq<char> {
    "P"@ + decimal_nat(p.port as nat) + (if p.pin < 10 {
        ".0"@
    } else {
        "."@
    }) + decimal_nat(p.pin as nat)
}

fn push_pin_name(out: &mut String, p: Pin)
    ensures
        final(out)@ == old(out)@ + pin_name(p),
{
    out.append("P");
    push_u64(out, p.port as u64);
    if p.pin < 10 {
        out.append(".0");
    } else {
        out.append(".");
    }
    push_u64(out, p.pin as u64);
}

/// The capture image's first log line.
pub fn starting_line(clk: Pin, din: Pin) -> (text: String)
    ensures
        text@ == "pdm-mic: starting 16kHz mono capture on "@ + pin_name(clk) + "/"@ + pin_name(din)
            + "\n"@,
{
    let mut text: String = String::new();
    text.append("pdm-mic: starting 16kHz mono capture on ");
    push_pin_name(&mut text, clk);
    text.append("/");
    push_pin_name(&mut text, din);
    text.append("\n");
    text
}

/// Pin `n` is high exactly if bit `n` of the register is set: the register, divided by
/// `2^n`, is odd.
pub proof fn law_levels_are_bits(level: u32, n: u8)
    requires
        n < 32,
    ensures
        is_high(level, n) <==> (level as int / pow2(n as nat) as int) % 2 == 1,
{
    vstd::bits::lemma_u32_shr_is_div(level, n as u32);
    let shifted = level >> (n as u32);
    assert(shifted & 1 == shifted % 2) by (bit_vector);
}

/// Each reading is counted once, as high or not.
pub proof fn law_readings_are_counted(levels: Seq<u32>, level: u32, n: u8)
    requires
        n < 32,
    ensures
        high_count(Seq::empty(), n) == 0,
        high_count(levels.push(level), n) == high_count(levels, n) + (level as int / pow2(
            n as nat,
        ) as int) % 2,
{
    assert(levels.push(level).drop_last() =~= levels);
    law_levels_are_bits(level, n);
}

/// A line is alive exactly if it was both high and low; one that is not was stuck at
/// the level it was seen at.
pub proof fn law_lines_are_judged_by_both_counts(high: u32, low: u32)
    ensures
        line_of(high, low) is Toggling <==> high > 0 && low > 0,
        line_of(high, low) is StuckHigh <==> high > 0 && low == 0,
        line_of(high, low) is StuckLow <==> high == 0,
        PROBE_READINGS == 200_000,
{
}

/// A pin's name is its port and its number, of two digits.
pub proof fn law_pins_are_named_by_port_and_number(p: Pin)
    ensures
        p.pin < 10 ==> pin_name(p) == "P"@ + decimal(p.port as int) + ".0"@ + decimal(p.pin as int),
        p.pin >= 10 ==> pin_name(p) == "P"@ + decimal(p.port as int) + "."@ + decimal(p.pin as int),
{
}

} // verus!
