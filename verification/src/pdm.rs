//! The PDM microphone interface of the nRF54LM20.
//!
//! The peripheral clocks a microphone, decimates its one-bit stream to 16-bit
//! signed PCM and writes the samples to memory. It is run polled, with two
//! buffers in turn: on every STARTED event the peripheral is handed the other
//! buffer, and the one that has just filled is processed. What is here decides
//! which registers are written with what, which events are waited for, and which
//! buffer is whose.

use vstd::arithmetic::power2::pow2;
use vstd::prelude::*;

use crate::mmio::{rd, wr, after_writes, Handshake, RegWrite};

verus! {

/// The PDM block, secure alias.
pub const PDM_BASE: u32 = 0x500D_0000;

pub const TASKS_START: u32 = 0x000;
pub const TASKS_STOP: u32 = 0x004;
pub const EVENTS_STARTED: u32 = 0x100;
pub const EVENTS_STOPPED: u32 = 0x104;
pub const EVENTS_END: u32 = 0x108;
pub const ENABLE: u32 = 0x500;
pub const MODE: u32 = 0x508;
pub const GAINL: u32 = 0x518;
pub const GAINR: u32 = 0x51C;
pub const RATIO: u32 = 0x520;
pub const PSEL_CLK: u32 = 0x540;
pub const PSEL_DIN: u32 = 0x544;
pub const CLKSELECT: u32 = 0x54C;
pub const SAMPLE_PTR: u32 = 0x560;
pub const SAMPLE_MAXCNT: u32 = 0x564;
pub const PRESCALER: u32 = 0x580;

pub const ENABLE_ENABLED: u32 = 1;

/// Two successive left samples per word, latched on the rising clock edge.
pub const MODE_MONO_LEFTRISING: u32 = 0x1;

/// Two successive left samples per word, latched on the falling clock edge.
pub const MODE_MONO_LEFTFALLING: u32 = 0x3;

/// Decimate by 80.
pub const RATIO_80: u32 = 0x4;

/// The 32 MHz peripheral clock.
pub const CLKSELECT_PCLK32M: u32 = 0x0;

/// The divisor from the peripheral clock to the microphone clock.
pub const PRESCALER_DIV: u32 = 25;

/// Samples per second that the clock settings give. Recordings of the stream
/// are made at this rate.
pub const SAMPLE_RATE_HZ: u32 = 16_000;

/// The rate of the selected clock source.
pub const PCLK32M_HZ: u32 = 32_000_000;

/// Microphone bits per sample under `RATIO_80`.
pub const DECIMATION: u32 = 80;

/// Gain register value for 0 dB; each step is half a decibel.
pub const GAIN_0DB: u32 = 0x28;
pub const GAIN_10DB: u32 = 0x3C;
pub const GAIN_20DB: u32 = 0x50;

/// GPIO port 1, secure alias.
pub const P1_BASE: u32 = 0x500D_8200;
pub const GPIO_OUTCLR: u32 = 0x008;
pub const GPIO_IN: u32 = 0x00C;

/// Configuration of pin 0; that of pin `n` is `4 * n` further.
pub const GPIO_PIN_CNF: u32 = 0x080;

/// A driven output whose input buffer is disconnected.
pub const PIN_CNF_CLOCK_OUTPUT: u32 = 0x3;

/// An input with its buffer connected and no pull.
pub const PIN_CNF_INPUT: u32 = 0x0;

/// What can be chosen when an image is built.
#[derive(Clone, Copy, PartialEq, Eq, Structural, Debug)]
pub struct BuildOptions {
    pub gain_10db: bool,
    pub gain_20db: bool,
    pub edge_falling: bool,
}

/// The gain that options select; the higher one wins.
pub open spec fn gain_of(options: BuildOptions) -> u32 {
    if options.gain_20db {
        GAIN_20DB
    } else if options.gain_10db {
        GAIN_10DB
    } else {
        GAIN_0DB
    }
}

/// The mode that options select; the default edge is the rising one.
pub open spec fn mode_of(options: BuildOptions) -> u32 {
    if options.edge_falling {
        MODE_MONO_LEFTFALLING
    } else {
        MODE_MONO_LEFTRISING
    }
}

impl BuildOptions {
    /// The digital gain's register value.
    pub fn gain(&self) -> (gain: u32)
        ensures
            gain == gain_of(*self),
    {
        if self.gain_20db {
            GAIN_20DB
        } else if self.gain_10db {
            GAIN_10DB
        } else {
            GAIN_0DB
        }
    }

    /// The mode's register value.
    pub fn mode(&self) -> (mode: u32)
        ensures
            mode == mode_of(*self),
    {
        if self.edge_falling {
            MODE_MONO_LEFTFALLING
        } else {
            MODE_MONO_LEFTRISING
        }
    }
}

/// A pin of a port.
#[derive(Clone, Copy, PartialEq, Eq, Structural, Debug)]
pub struct Pin {
    pub port: u8,
    pub pin: u8,
}

/// The pin-select encoding: pin number in bits 0 to 4, port in bits 5 and 6,
/// bit 31 clear for a connected signal.
pub open spec fn psel_of(p: Pin) -> u32 {
    ((p.port as u32) << 5) | (p.pin as u32)
}

impl Pin {
    /// The pin-select register value that connects a signal to this pin.
    pub fn psel(self) -> (psel: u32)
        ensures
            psel == psel_of(self),
            self.pin < 32 ==> psel == 32 * self.port + self.pin,
    {
        proof {
            law_psel_is_positional(self);
        }
        ((self.port as u32) << 5) | (self.pin as u32)
    }
}

/// With a pin number that fits its field, the encoding is positional.
pub proof fn law_psel_is_positional(p: Pin)
    ensures
        p.pin < 32 ==> psel_of(p) == 32 * p.port + p.pin,
{
    let port: u32 = p.port as u32;
    let pin: u32 = p.pin as u32;
    assert(pin < 32 && port < 256 ==> (port << 5) | pin == 32 * port + pin) by (bit_vector);
}

/// Port and pin can be read back from the encoding, and nothing else is in it: the
/// signal is marked as connected.
pub proof fn law_psel_fields(p: Pin)
    requires
        p.pin < 32,
        p.port < 4,
    ensures
        psel_of(p) & 0x1F == p.pin,
        (psel_of(p) >> 5) & 0x3 == p.port,
        psel_of(p) >> 7 == 0,
        psel_of(p) >> 31 == 0,
{
    let port: u32 = p.port as u32;
    let pin: u32 = p.pin as u32;
    assert(pin < 32 && port < 4 ==> ((port << 5) | pin) & 0x1F == pin) by (bit_vector);
    assert(pin < 32 && port < 4 ==> (((port << 5) | pin) >> 5) & 0x3 == port) by (bit_vector);
    assert(pin < 32 && port < 4 ==> ((port << 5) | pin) >> 7 == 0) by (bit_vector);
    assert(pin < 32 && port < 4 ==> ((port << 5) | pin) >> 31 == 0) by (bit_vector);
}

/// No two pins have one encoding.
pub proof fn law_psel_tells_pins_apart(p: Pin, q: Pin)
    requires
        p.pin < 32,
        q.pin < 32,
        psel_of(p) == psel_of(q),
    ensures
        p == q,
{
    law_psel_is_positional(p);
    law_psel_is_positional(q);
}

/// The configuration register of a pin on port 1.
pub open spec fn pin_cnf(p: Pin) -> u32 {
    (P1_BASE + GPIO_PIN_CNF + 4 * p.pin) as u32
}

/// The writes that make `clk` an output, driven low, and `din` an input.
pub open spec fn gpio_writes(clk: Pin, din: Pin) -> Seq<RegWrite> {
    seq![
        RegWrite { addr: (P1_BASE + GPIO_OUTCLR) as u32, val: pow2(clk.pin as nat) as u32 },
        RegWrite { addr: pin_cnf(clk), val: PIN_CNF_CLOCK_OUTPUT },
        RegWrite { addr: pin_cnf(din), val: PIN_CNF_INPUT },
    ]
}

/// The write to the PDM block's register at `off`.
pub open spec fn pdm_write(off: u32, val: u32) -> RegWrite {
    RegWrite { addr: (PDM_BASE + off) as u32, val }
}

/// The writes that set the PDM block up.
pub open spec fn pdm_writes(clk: Pin, din: Pin, options: BuildOptions) -> Seq<RegWrite> {
    seq![
        pdm_write(PSEL_CLK, psel_of(clk)),
        pdm_write(PSEL_DIN, psel_of(din)),
        pdm_write(CLKSELECT, CLKSELECT_PCLK32M),
        pdm_write(PRESCALER, PRESCALER_DIV),
        pdm_write(RATIO, RATIO_80),
        pdm_write(MODE, mode_of(options)),
        pdm_write(GAINL, gain_of(options)),
        pdm_write(GAINR, gain_of(options)),
        pdm_write(ENABLE, ENABLE_ENABLED),
    ]
}

/// Makes `clk` an output, driven low with its input buffer disconnected, and
/// `din` a connected input. Both pins are on port 1.
pub fn configure_gpio(clk: Pin, din: Pin) -> (writes: Vec<RegWrite>)
    requires
        clk.pin < 32,
    ensures
        writes@ == gpio_writes(clk, din),
{
    proof {
        vstd::bits::lemma_u32_pow2_no_overflow(clk.pin as nat);
        vstd::bits::lemma_u32_shl_is_mul(1, clk.pin as u32);
    }
    let mut writes: Vec<RegWrite> = Vec::new();
    writes.push(wr(P1_BASE, GPIO_OUTCLR, 1u32 << (clk.pin as u32)));
    writes.push(wr(P1_BASE, GPIO_PIN_CNF + 4 * clk.pin as u32, PIN_CNF_CLOCK_OUTPUT));
    writes.push(wr(P1_BASE, GPIO_PIN_CNF + 4 * din.pin as u32, PIN_CNF_INPUT));
    writes
}

/// A buffer of 16-bit samples in memory.
#[derive(Clone, Copy, PartialEq, Eq, Structural, Debug)]
pub struct DmaBuffer {
    pub addr: u32,
    pub len: u32,
}

impl DmaBuffer {
    /// The buffer's size in bytes is a 32-bit number.
    pub open spec fn fits(&self) -> bool {
        2 * self.len <= u32::MAX
    }
}

/// The writes that make `buf` the target of the next transfer. The count is one
/// of bytes.
pub open spec fn buffer_writes(buf: DmaBuffer) -> Seq<RegWrite> {
    seq![
        pdm_write(SAMPLE_PTR, buf.addr),
        pdm_write(SAMPLE_MAXCNT, (2 * buf.len) as u32),
    ]
}

/// A PDM block that has been set up for 16 kHz mono capture.
pub struct Pdm {}

impl Pdm {
    /// Sets the block up for a microphone on `clk` and `din`, without starting
    /// it: the writes are to be made in order.
    pub fn init(clk: Pin, din: Pin, options: BuildOptions) -> (up: (Pdm, Vec<RegWrite>))
        requires
            clk.pin < 32,
        ensures
            up.1@ == gpio_writes(clk, din) + pdm_writes(clk, din, options),
    {
        let mut writes: Vec<RegWrite> = configure_gpio(clk, din);
        writes.push(wr(PDM_BASE, PSEL_CLK, clk.psel()));
        writes.push(wr(PDM_BASE, PSEL_DIN, din.psel()));
        writes.push(wr(PDM_BASE, CLKSELECT, CLKSELECT_PCLK32M));
        writes.push(wr(PDM_BASE, PRESCALER, PRESCALER_DIV));
        writes.push(wr(PDM_BASE, RATIO, RATIO_80));
        writes.push(wr(PDM_BASE, MODE, options.mode()));
        writes.push(wr(PDM_BASE, GAINL, options.gain()));
        writes.push(wr(PDM_BASE, GAINR, options.gain()));
        writes.push(wr(PDM_BASE, ENABLE, ENABLE_ENABLED));
        (Pdm {  }, writes)
    }

    /// Appends the writes that make `buf` the target of the next transfer.
    fn set_buffer(&self, buf: DmaBuffer, writes: &mut Vec<RegWrite>)
        requires
            buf.fits(),
        ensures
            final(writes)@ == old(writes)@ + buffer_writes(buf),
    {
        writes.push(wr(PDM_BASE, SAMPLE_PTR, buf.addr));
        writes.push(wr(PDM_BASE, SAMPLE_MAXCNT, buf.len * 2));
    }

    /// Acknowledges a STARTED event.
    fn clear_started(&self) -> (write: RegWrite)
        ensures
            write == pdm_write(EVENTS_STARTED, 0),
    {
        wr(PDM_BASE, EVENTS_STARTED, 0)
    }

    /// The event register that says that a transfer has started.
    fn started(&self) -> (addr: u32)
        ensures
            addr == PDM_BASE + EVENTS_STARTED,
    {
        rd(PDM_BASE, EVENTS_STARTED)
    }

    /// Starts sampling into `buf0`. Once the handshake is complete, `buf0` is
    /// being filled and the stream runs.
    pub fn start(self, buf0: DmaBuffer, buf1: DmaBuffer) -> (up: (Stream, Handshake))
        requires
            buf0.len == buf1.len,
            buf0.fits(),
        ensures
            up.0.wf(),
            up.0.bufs() == seq![buf0, buf1],
            up.0.filling() == 0,
            up.0.overrun_count() == 0,
            up.1.before@ == seq![
                pdm_write(EVENTS_STARTED, 0),
                pdm_write(EVENTS_END, 0),
                pdm_write(EVENTS_STOPPED, 0),
            ] + buffer_writes(buf0) + seq![pdm_write(TASKS_START, 1)],
            up.1.event == PDM_BASE + EVENTS_STARTED,
            up.1.after == pdm_write(EVENTS_STARTED, 0),
    {
        let mut before: Vec<RegWrite> = Vec::new();
        before.push(wr(PDM_BASE, EVENTS_STARTED, 0));
        before.push(wr(PDM_BASE, EVENTS_END, 0));
        before.push(wr(PDM_BASE, EVENTS_STOPPED, 0));
        self.set_buffer(buf0, &mut before);
        before.push(wr(PDM_BASE, TASKS_START, 1));
        let handshake = Handshake { before, event: self.started(), after: self.clear_started() };
        let stream = Stream { pdm: self, bufs: [buf0, buf1], filling: 0, overruns: 0 };
        (stream, handshake)
    }
}

/// The count of missed deadlines, `n` so far, once the STARTED register was found
/// to be `started` before a buffer is queued. The count has 32 bits.
pub open spec fn overruns_after(n: u32, started: u32) -> u32 {
    if started == 0 {
        n
    } else {
        ((n + 1) % 0x1_0000_0000) as u32
    }
}

/// The other one of the two buffers.
pub open spec fn other(buf: int) -> int {
    1 - buf
}

/// A running capture that fills two buffers in turn.
pub struct Stream {
    pdm: Pdm,
    bufs: [DmaBuffer; 2],
    filling: usize,
    overruns: u32,
}

impl Stream {
    /// One of the two buffers is being filled, and they have the same length.
    pub closed spec fn wf(&self) -> bool {
        &&& self.filling < 2
        &&& self.bufs@[0].len == self.bufs@[1].len
        &&& self.bufs@[0].fits()
    }

    /// The two buffers.
    pub closed spec fn bufs(&self) -> Seq<DmaBuffer> {
        self.bufs@
    }

    /// Which buffer the peripheral is filling.
    pub closed spec fn filling(&self) -> int {
        self.filling as int
    }

    /// How many deadlines were missed.
    pub closed spec fn overrun_count(&self) -> u32 {
        self.overruns
    }

    /// Queues the other buffer and waits for the one in progress to fill. Once
    /// the handshake is complete, the buffer with the returned index is full and
    /// stays untouched until the next call, and the other one is being filled.
    pub fn next_buffer(&mut self) -> (swap: (Handshake, usize))
        requires
            old(self).wf(),
        ensures
            final(self).wf(),
            final(self).bufs() == old(self).bufs(),
            final(self).overrun_count() == old(self).overrun_count(),
            final(self).filling() == other(old(self).filling()),
            swap.1 == old(self).filling(),
            swap.1 < 2,
            swap.0.before@ == buffer_writes(old(self).bufs()[final(self).filling()]),
            swap.0.event == PDM_BASE + EVENTS_STARTED,
            swap.0.after == pdm_write(EVENTS_STARTED, 0),
    {
        let next: usize = 1 - self.filling;
        let mut before: Vec<RegWrite> = Vec::new();
        self.pdm.set_buffer(self.bufs[next], &mut before);
        let handshake = Handshake {
            before,
            event: self.pdm.started(),
            after: self.pdm.clear_started(),
        };
        let done: usize = self.filling;
        self.filling = next;
        (handshake, done)
    }

    /// Notes the STARTED register's value at the moment when the next buffer is
    /// about to be queued: an event that is already pending is a missed
    /// deadline.
    pub fn note_deadline(&mut self, started: u32)
        requires
            old(self).wf(),
        ensures
            final(self).wf(),
            final(self).bufs() == old(self).bufs(),
            final(self).filling() == old(self).filling(),
            final(self).overrun_count() == overruns_after(old(self).overrun_count(), started),
    {
        if started != 0 {
            self.overruns = self.overruns.wrapping_add(1);
        }
    }

    /// [`Stream::next_buffer`] for a caller that counts missed deadlines: `started`
    /// is the STARTED register's value, read just before.
    pub fn next_hop(&mut self, started: u32) -> (swap: (Handshake, usize))
        requires
            old(self).wf(),
        ensures
            final(self).wf(),
            final(self).bufs() == old(self).bufs(),
            final(self).overrun_count() == overruns_after(old(self).overrun_count(), started),
            final(self).filling() == other(old(self).filling()),
            swap.1 == old(self).filling(),
            swap.1 < 2,
            swap.0.before@ == buffer_writes(old(self).bufs()[final(self).filling()]),
            swap.0.event == PDM_BASE + EVENTS_STARTED,
            swap.0.after == pdm_write(EVENTS_STARTED, 0),
    {
        self.note_deadline(started);
        self.next_buffer()
    }

    /// How many deadlines were missed so far.
    pub fn overruns(&self) -> (n: u32)
        ensures
            n == self.overrun_count(),
    {
        self.overruns
    }

    /// Stops sampling and, once the block has stopped, disables it.
    pub fn stop(self) -> (handshake: Handshake)
        ensures
            handshake.before@ == seq![pdm_write(TASKS_STOP, 1)],
            handshake.event == PDM_BASE + EVENTS_STOPPED,
            handshake.after == pdm_write(ENABLE, 0),
    {
        let mut before: Vec<RegWrite> = Vec::new();
        before.push(wr(PDM_BASE, TASKS_STOP, 1));
        Handshake {
            before,
            event: rd(PDM_BASE, EVENTS_STOPPED),
            after: wr(PDM_BASE, ENABLE, 0),
        }
    }
}

/// The clock settings give the sample rate exactly, and a microphone clock that
/// microphones accept (1.0 to 3.2 MHz).
pub proof fn law_sample_rate_is_exact()
    ensures
        PCLK32M_HZ == SAMPLE_RATE_HZ * DECIMATION * PRESCALER_DIV,
        1_000_000 <= PCLK32M_HZ / PRESCALER_DIV <= 3_200_000,
        4 <= PRESCALER_DIV <= 126,
{
}

/// The gain settings are 0, 10 and 20 dB in steps of half a decibel, and the
/// greater option wins.
pub proof fn law_gain_in_half_decibels(options: BuildOptions)
    ensures
        gain_of(options) == GAIN_0DB + 2 * (if options.gain_20db {
            20
        } else if options.gain_10db {
            10int
        } else {
            0
        }),
{
}

/// The `n`-th buffer, counted from 0, that a stream which was filling `first`
/// hands out.
pub open spec fn nth_handed_out(first: int, n: nat) -> int
    decreases n,
{
    if n == 0 {
        first
    } else {
        other(nth_handed_out(first, (n - 1) as nat))
    }
}

/// Buffers are handed out in turn, starting with the first one: the buffer that
/// is queued while one is handed out is the one handed out next.
pub proof fn law_buffers_take_turns(first: int, n: nat)
    requires
        first == 0 || first == 1,
    ensures
        nth_handed_out(first, n) == (first + n) % 2,
    decreases n,
{
    if n > 0 {
        law_buffers_take_turns(first, (n - 1) as nat);
    }
}

/// Queueing a buffer leaves its address and its size in bytes in the transfer
/// registers.
pub proof fn law_queueing_points_at_the_buffer(regs: Map<u32, u32>, buf: DmaBuffer)
    requires
        buf.fits(),
    ensures
        after_writes(regs, buffer_writes(buf))[(PDM_BASE + SAMPLE_PTR) as u32] == buf.addr,
        after_writes(regs, buffer_writes(buf))[(PDM_BASE + SAMPLE_MAXCNT) as u32] == 2 * buf.len,
{
    reveal_with_fuel(after_writes, 3);
}

/// While a stream hands out one buffer, the peripheral is given the other one: the
/// buffer that is being read is never the target of the running transfer.
pub proof fn law_buffer_in_hand_is_not_being_filled(
    regs: Map<u32, u32>,
    bufs: Seq<DmaBuffer>,
    first: int,
    n: nat,
)
    requires
        bufs.len() == 2,
        bufs[0].addr != bufs[1].addr,
        first == 0 || first == 1,
    ensures
        after_writes(regs, buffer_writes(bufs[nth_handed_out(first, n + 1)]))[(PDM_BASE
            + SAMPLE_PTR) as u32] != bufs[nth_handed_out(first, n)].addr,
{
    law_buffers_take_turns(first, n);
    reveal_with_fuel(after_writes, 3);
}

/// After the set-up writes the clock, the decimation, the mode, both gains and
/// the pins are as chosen, and the block is enabled, whatever was there before.
pub proof fn law_init_sets_every_register(
    regs: Map<u32, u32>,
    clk: Pin,
    din: Pin,
    options: BuildOptions,
)
    ensures
        ({
            let r = after_writes(regs, gpio_writes(clk, din) + pdm_writes(clk, din, options));
            &&& r[(PDM_BASE + PSEL_CLK) as u32] == psel_of(clk)
            &&& r[(PDM_BASE + PSEL_DIN) as u32] == psel_of(din)
            &&& r[(PDM_BASE + CLKSELECT) as u32] == CLKSELECT_PCLK32M
            &&& r[(PDM_BASE + PRESCALER) as u32] == PRESCALER_DIV
            &&& r[(PDM_BASE + RATIO) as u32] == RATIO_80
            &&& r[(PDM_BASE + MODE) as u32] == mode_of(options)
            &&& r[(PDM_BASE + GAINL) as u32] == gain_of(options)
            &&& r[(PDM_BASE + GAINR) as u32] == gain_of(options)
            &&& r[(PDM_BASE + ENABLE) as u32] == ENABLE_ENABLED
            &&& r[pin_cnf(din)] == PIN_CNF_INPUT
            &&& clk.pin != din.pin ==> r[pin_cnf(clk)] == PIN_CNF_CLOCK_OUTPUT
        }),
{
    reveal_with_fuel(after_writes, 13);
}

/// Where the registers are and what their fields mean.
pub proof fn law_register_map()
    ensures
        PDM_BASE == 0x500D_0000,
        TASKS_START == 0x000,
        TASKS_STOP == 0x004,
        EVENTS_STARTED == 0x100,
        EVENTS_STOPPED == 0x104,
        EVENTS_END == 0x108,
        ENABLE == 0x500,
        MODE == 0x508,
        GAINL == 0x518,
        GAINR == 0x51C,
        RATIO == 0x520,
        PSEL_CLK == 0x540,
        PSEL_DIN == 0x544,
        CLKSELECT == 0x54C,
        SAMPLE_PTR == 0x560,
        SAMPLE_MAXCNT == 0x564,
        PRESCALER == 0x580,
        P1_BASE == 0x500D_8200,
        GPIO_OUTCLR == 0x008,
        GPIO_IN == 0x00C,
        GPIO_PIN_CNF == 0x080,
        SAMPLE_RATE_HZ == 16_000,
        PCLK32M_HZ == 32_000_000,
        DECIMATION == 80,
{
}

/// What the set-up leaves in the registers: both pins selected as `32 * port + pin`,
/// the clock source, divisor 25 and ratio 80, mono on the chosen edge, both gains as
/// chosen, the block enabled; the clock pin an output that was driven low, the data
/// pin an input.
pub proof fn law_init_leaves_these_values(
    regs: Map<u32, u32>,
    clk: Pin,
    din: Pin,
    options: BuildOptions,
)
    requires
        clk.pin < 32,
        din.pin < 32,
        clk.pin != din.pin,
    ensures
        ({
            let r = after_writes(regs, gpio_writes(clk, din) + pdm_writes(clk, din, options));
            let gain: int = if options.gain_20db {
                0x50
            } else if options.gain_10db {
                0x3C
            } else {
                0x28
            };
            &&& r[0x500D_0540] == 32 * clk.port + clk.pin
            &&& r[0x500D_0544] == 32 * din.port + din.pin
            &&& r[0x500D_054C] == 0
            &&& r[0x500D_0580] == 25
            &&& r[0x500D_0520] == 4
            &&& r[0x500D_0508] == if options.edge_falling {
                3int
            } else {
                1
            }
            &&& r[0x500D_0518] == gain
            &&& r[0x500D_051C] == gain
            &&& r[0x500D_0500] == 1
            &&& r[0x500D_8208] == pow2(clk.pin as nat)
            &&& r[(0x500D_8280 + 4 * clk.pin) as u32] == 3
            &&& r[(0x500D_8280 + 4 * din.pin) as u32] == 0
        }),
{
    law_psel_is_positional(clk);
    law_psel_is_positional(din);
    vstd::bits::lemma_u32_pow2_no_overflow(clk.pin as nat);
    reveal_with_fuel(after_writes, 13);
}

/// The block is enabled last, when all else is set, and the clock pin is driven low
/// before it becomes an output.
pub proof fn law_enabling_comes_last(clk: Pin, din: Pin, options: BuildOptions, i: int)
    requires
        0 <= i < 11,
    ensures
        ({
            let writes = gpio_writes(clk, din) + pdm_writes(clk, din, options);
            &&& writes.len() == 12
            &&& writes[0].addr == 0x500D_8208
            &&& writes[11] == (RegWrite { addr: 0x500D_0500, val: 1 })
            &&& writes[i].addr != 0x500D_0500
        }),
{
}

/// A write to the block goes to the register it is for, with the value it is given.
pub proof fn law_block_writes_are_placed(off: u32, val: u32)
    requires
        off < 0x1000,
    ensures
        pdm_write(off, val).addr == 0x500D_0000 + off,
        pdm_write(off, val).val == val,
{
}

/// Making a buffer the target sets its address and twice its length, for each sample
/// has two bytes, and does nothing else.
pub proof fn law_buffers_are_counted_in_bytes(buf: DmaBuffer)
    requires
        buf.len <= 0x7FFF_FFFF,
    ensures
        buf.fits(),
        buffer_writes(buf).len() == 2,
        buffer_writes(buf)[0] == (RegWrite { addr: 0x500D_0560, val: buf.addr }),
        buffer_writes(buf)[1].addr == 0x500D_0564,
        buffer_writes(buf)[1].val == buf.len + buf.len,
{
}

/// The two buffers are each other's other one.
pub proof fn law_there_are_two_buffers(buf: int)
    ensures
        other(0) == 1,
        other(1) == 0,
        other(other(buf)) == buf,
{
}

/// A deadline is missed exactly when STARTED was already set, and each is counted
/// once, around the corner of 32 bits.
pub proof fn law_missed_deadlines_are_counted(n: u32, started: u32)
    ensures
        started == 0 ==> overruns_after(n, started) == n,
        started != 0 && n < 0xFFFF_FFFF ==> overruns_after(n, started) == n + 1,
        started != 0 && n == 0xFFFF_FFFF ==> overruns_after(n, started) == 0,
{
}

/// The mode is mono; the falling edge is one bit more.
pub proof fn law_mode_is_mono(options: BuildOptions)
    ensures
        mode_of(options) == if options.edge_falling {
            1 + 2int
        } else {
            1
        },
        gain_of(options) == if options.gain_20db {
            0x50int
        } else if options.gain_10db {
            0x3C
        } else {
            0x28
        },
{
}

} // verus!
