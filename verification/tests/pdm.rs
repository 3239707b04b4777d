use nrf54_audio::mmio::RegWrite;
use nrf54_audio::pdm::{configure_gpio, BuildOptions, DmaBuffer, Pdm, Pin, SAMPLE_RATE_HZ};

const PLAIN: BuildOptions = BuildOptions { gain_10db: false, gain_20db: false, edge_falling: false };
const CLK: Pin = Pin { port: 1, pin: 23 };
const DIN: Pin = Pin { port: 1, pin: 24 };

fn w(addr: u32, val: u32) -> RegWrite {
    RegWrite { addr, val }
}

#[test]
fn psel_encodes_port_and_pin() {
    assert_eq!(Pin { port: 1, pin: 16 }.psel(), 48);
    assert_eq!(CLK.psel(), 55);
    assert_eq!(DIN.psel(), 56);
    assert_eq!(Pin { port: 0, pin: 0 }.psel(), 0);
    assert_eq!(Pin { port: 3, pin: 31 }.psel(), 127);
    // A pin number that overflows its field runs into the port.
    assert_eq!(Pin { port: 1, pin: 33 }.psel(), 33);
}

#[test]
fn psel_fields_can_be_read_back() {
    for port in 0..4u8 {
        for pin in 0..32u8 {
            let psel = Pin { port, pin }.psel();
            assert_eq!(psel & 0x1F, pin as u32);
            assert_eq!((psel >> 5) & 0x3, port as u32);
            assert_eq!(psel >> 31, 0);
        }
    }
}

#[test]
fn gpio_set_up() {
    assert_eq!(
        configure_gpio(CLK, DIN),
        vec![w(0x500D_8208, 1 << 23), w(0x500D_82DC, 3), w(0x500D_82E0, 0)]
    );
    assert_eq!(configure_gpio(Pin { port: 1, pin: 31 }, Pin { port: 1, pin: 0 })[0].val, 0x8000_0000);
}

#[test]
fn block_set_up() {
    let (_, writes) = Pdm::init(CLK, DIN, PLAIN);
    assert_eq!(writes.len(), 12);
    assert_eq!(
        writes[3..].to_vec(),
        vec![
            w(0x500D_0540, 55),
            w(0x500D_0544, 56),
            w(0x500D_054C, 0),
            w(0x500D_0580, 25),
            w(0x500D_0520, 4),
            w(0x500D_0508, 1),
            w(0x500D_0518, 0x28),
            w(0x500D_051C, 0x28),
            w(0x500D_0500, 1),
        ]
    );
}

#[test]
fn build_options() {
    assert_eq!(PLAIN.gain(), 0x28);
    assert_eq!(BuildOptions { gain_10db: true, ..PLAIN }.gain(), 0x3C);
    assert_eq!(BuildOptions { gain_20db: true, ..PLAIN }.gain(), 0x50);
    assert_eq!(BuildOptions { gain_10db: true, gain_20db: true, ..PLAIN }.gain(), 0x50);
    assert_eq!(PLAIN.mode(), 1);
    assert_eq!(BuildOptions { edge_falling: true, ..PLAIN }.mode(), 3);
    let (_, writes) = Pdm::init(CLK, DIN, BuildOptions { gain_20db: true, edge_falling: true, ..PLAIN });
    assert_eq!(writes[8], w(0x500D_0508, 3));
    assert_eq!(writes[10], w(0x500D_051C, 0x50));
}

#[test]
fn sample_rate() {
    assert_eq!(SAMPLE_RATE_HZ, 32_000_000 / 25 / 80);
}

#[test]
fn starting_a_stream() {
    let (pdm, _) = Pdm::init(CLK, DIN, PLAIN);
    let a = DmaBuffer { addr: 0x2000_0000, len: 256 };
    let b = DmaBuffer { addr: 0x2000_0200, len: 256 };
    let (stream, handshake) = pdm.start(a, b);
    assert_eq!(stream.overruns(), 0);
    assert_eq!(
        handshake.before,
        vec![
            w(0x500D_0100, 0),
            w(0x500D_0108, 0),
            w(0x500D_0104, 0),
            w(0x500D_0560, 0x2000_0000),
            w(0x500D_0564, 512),
            w(0x500D_0000, 1),
        ]
    );
    assert_eq!(handshake.event, 0x500D_0100);
    assert_eq!(handshake.after, w(0x500D_0100, 0));
}

#[test]
fn buffers_take_turns() {
    let (pdm, _) = Pdm::init(CLK, DIN, PLAIN);
    let a = DmaBuffer { addr: 0x2000_0000, len: 320 };
    let b = DmaBuffer { addr: 0x2000_0400, len: 320 };
    let (mut stream, _) = pdm.start(a, b);
    for n in 0..6usize {
        let (handshake, done) = stream.next_buffer();
        assert_eq!(done, n % 2);
        let queued = if n % 2 == 0 { b } else { a };
        assert_eq!(handshake.before, vec![w(0x500D_0560, queued.addr), w(0x500D_0564, 640)]);
        assert_eq!(handshake.event, 0x500D_0100);
        assert_eq!(handshake.after, w(0x500D_0100, 0));
    }
}

#[test]
fn missed_deadlines_are_counted() {
    let (pdm, _) = Pdm::init(CLK, DIN, PLAIN);
    let a = DmaBuffer { addr: 0x2000_0000, len: 2 };
    let (mut stream, _) = pdm.start(a, a);
    stream.note_deadline(0);
    assert_eq!(stream.overruns(), 0);
    stream.note_deadline(1);
    stream.note_deadline(7);
    stream.note_deadline(0);
    assert_eq!(stream.overruns(), 2);
    let (_, done) = stream.next_buffer();
    assert_eq!(done, 0);
    assert_eq!(stream.overruns(), 2);
    let (_, done) = stream.next_hop(1);
    assert_eq!(done, 1);
    assert_eq!(stream.overruns(), 3);
    let (_, done) = stream.next_hop(0);
    assert_eq!(done, 0);
    assert_eq!(stream.overruns(), 3);
}

#[test]
fn stopping_a_stream() {
    let (pdm, _) = Pdm::init(CLK, DIN, PLAIN);
    let a = DmaBuffer { addr: 0x2000_0000, len: 2 };
    let (stream, _) = pdm.start(a, a);
    let handshake = stream.stop();
    assert_eq!(handshake.before, vec![w(0x500D_0004, 1)]);
    assert_eq!(handshake.event, 0x500D_0104);
    assert_eq!(handshake.after, w(0x500D_0500, 0));
}

#[test]
fn pins_have_encodings_of_their_own() {
    let mut seen = Vec::new();
    for port in 0..4 {
        for pin in 0..32 {
            let psel = Pin { port, pin }.psel();
            assert_eq!(psel >> 7, 0);
            assert!(!seen.contains(&psel));
            seen.push(psel);
        }
    }
}
