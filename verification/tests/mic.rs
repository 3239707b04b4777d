use nrf54_audio::mic::{judge, line_report, mic_pins, probe_pin_activity, starting_line, Line, ProbeStep};
use nrf54_audio::pdm::Pin;

fn probe(pin: Pin, levels: &[u32]) -> (u32, u32) {
    let mut probe = probe_pin_activity(pin, levels.len() as u32);
    for level in levels {
        assert_eq!(probe.next(), ProbeStep::Read(0x500D_820C));
        probe.take(*level);
    }
    match probe.next() {
        ProbeStep::Report { high, low } => (high, low),
        ProbeStep::Read(_) => panic!("more readings than asked for"),
    }
}

#[test]
fn counts_high_and_low_readings() {
    let din = mic_pins().1;
    assert_eq!(probe(din, &[1 << 24, 0, 1 << 24, 1 << 23, 0xFFFF_FFFF]), (3, 2));
    assert_eq!(probe(din, &[]), (0, 0));
    assert_eq!(probe(Pin { port: 1, pin: 31 }, &[0x8000_0000, 0x7FFF_FFFF]), (1, 1));
    assert_eq!(probe(Pin { port: 1, pin: 0 }, &[1, 3, 5]), (3, 0));
}

#[test]
fn no_readings_of_no_pin() {
    let probe = probe_pin_activity(Pin { port: 1, pin: 200 }, 0);
    assert_eq!(probe.next(), ProbeStep::Report { high: 0, low: 0 });
}

#[test]
fn lines_are_judged_by_their_counts() {
    assert_eq!(judge(1, 1), Line::Toggling);
    assert_eq!(judge(200_000, 0), Line::StuckHigh);
    assert_eq!(judge(0, 200_000), Line::StuckLow);
    assert_eq!(judge(0, 0), Line::StuckLow);
}

#[test]
fn lines_are_reported() {
    assert_eq!(
        line_report(Line::Toggling),
        "pdm-mic: DAT line TOGGLING - mic is alive and clocked\n"
    );
    assert_eq!(
        line_report(Line::StuckHigh),
        "pdm-mic: DAT line stuck HIGH - no mic data (check power/wiring/clock)\n"
    );
    assert_eq!(
        line_report(Line::StuckLow),
        "pdm-mic: DAT line stuck LOW - no mic data (check power/wiring/clock)\n"
    );
}

#[test]
fn the_first_line_names_the_pins() {
    let (clk, din) = mic_pins();
    assert_eq!(starting_line(clk, din), "pdm-mic: starting 16kHz mono capture on P1.23/P1.24\n");
    assert_eq!(
        starting_line(Pin { port: 1, pin: 2 }, Pin { port: 10, pin: 130 }),
        "pdm-mic: starting 16kHz mono capture on P1.02/P10.130\n"
    );
}
