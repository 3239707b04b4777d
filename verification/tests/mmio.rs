use nrf54_audio::mmio::{rd, wr, BusAction, Handshake, RegWrite, Sequencer};

fn run(handshake: Handshake, answers: &[u32]) -> Vec<BusAction> {
    let mut sequencer = Sequencer::new(handshake);
    let mut trace = Vec::new();
    let mut next = 0;
    let mut read = 0;
    loop {
        let action = sequencer.step(read);
        trace.push(action);
        match action {
            BusAction::Done => return trace,
            BusAction::Read(_) => {
                if next == answers.len() {
                    return trace;
                }
                read = answers[next];
                next += 1;
            }
            _ => {}
        }
    }
}

fn handshake() -> Handshake {
    Handshake { before: vec![wr(0x100, 0, 1), wr(0x100, 4, 2)], event: 0x200, after: wr(0x200, 0, 0) }
}

#[test]
fn addresses_are_base_and_offset() {
    assert_eq!(wr(0x500D_0000, 0x564, 9), RegWrite { addr: 0x500D_0564, val: 9 });
    assert_eq!(rd(0x500D_0000, 0x104), 0x500D_0104);
}

#[test]
fn the_event_comes_at_the_third_read() {
    assert_eq!(
        run(handshake(), &[0, 0, 5]),
        vec![
            BusAction::Write(RegWrite { addr: 0x100, val: 1 }),
            BusAction::Write(RegWrite { addr: 0x104, val: 2 }),
            BusAction::Read(0x200),
            BusAction::Nop,
            BusAction::Read(0x200),
            BusAction::Nop,
            BusAction::Read(0x200),
            BusAction::Write(RegWrite { addr: 0x200, val: 0 }),
            BusAction::Done,
        ]
    );
}

#[test]
fn without_the_event_nothing_follows() {
    let trace = run(handshake(), &[0, 0]);
    assert_eq!(trace.len(), 7);
    assert_eq!(trace[6], BusAction::Read(0x200));
    assert!(!trace.contains(&BusAction::Write(RegWrite { addr: 0x200, val: 0 })));
}

#[test]
fn a_finished_handshake_stays_finished() {
    let mut sequencer = Sequencer::new(Handshake { before: Vec::new(), event: 8, after: wr(8, 0, 0) });
    assert_eq!(sequencer.step(3), BusAction::Read(8));
    assert_eq!(sequencer.step(1), BusAction::Write(RegWrite { addr: 8, val: 0 }));
    assert_eq!(sequencer.step(0), BusAction::Done);
    assert_eq!(sequencer.step(0), BusAction::Done);
}
