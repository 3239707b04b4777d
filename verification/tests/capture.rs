use nrf54_audio::capture::{
    attach_rtt, log_channel, parse_args, pcm_channel, pick_probe, resume_needed, scan_region,
    wav_format, Attach, CaptureError, Recorder, ScanRegion, Taken, Turn,
};

fn names(list: &[Option<&str>]) -> Vec<Option<String>> {
    list.iter().map(|n| n.map(String::from)).collect()
}

fn taken(r: &mut Recorder, bytes: &[u8]) -> Vec<i16> {
    match r.take(bytes) {
        Taken::Samples(samples) => samples,
        Taken::Idle { .. } => panic!("idle"),
    }
}

#[test]
fn command_line() {
    assert!(matches!(parse_args(&vec![]), Err(CaptureError::Usage)));
    let one = parse_args(&vec!["fw.elf".to_string()]).ok().unwrap();
    assert_eq!(one.elf, "fw.elf");
    assert_eq!(one.wav, "capture.wav");
    let more = parse_args(&vec!["fw.elf".to_string(), "out.wav".to_string(), "x".to_string()]).ok().unwrap();
    assert_eq!(more.elf, "fw.elf");
    assert_eq!(more.wav, "out.wav");
}

#[test]
fn messages() {
    assert_eq!(CaptureError::Usage.message(), "usage: capture <firmware.elf> [out.wav]");
    assert_eq!(CaptureError::NoProbe.message(), "no debug probe found (is the DK plugged in?)");
    assert_eq!(CaptureError::NoPcmChannel.message(), "firmware has no RTT pcm channel");
}

#[test]
fn the_first_probe_is_used() {
    assert_eq!(pick_probe(0), Err(CaptureError::NoProbe));
    assert_eq!(pick_probe(1), Ok(0));
    assert_eq!(pick_probe(3), Ok(0));
}

#[test]
fn control_block_region() {
    assert_eq!(scan_region(Some(0x2000_0010)), ScanRegion::Exact(0x2000_0010));
    assert_eq!(scan_region(None), ScanRegion::Ram);
}

#[test]
fn attaching_is_retried_for_three_seconds() {
    assert_eq!(attach_rtt(true, 0), Attach::Attached);
    assert_eq!(attach_rtt(true, 9_000_000_000), Attach::Attached);
    assert_eq!(attach_rtt(false, 0), Attach::RetryAfterMs(50));
    assert_eq!(attach_rtt(false, 2_999_999_999), Attach::RetryAfterMs(50));
    assert_eq!(attach_rtt(false, 3_000_000_000), Attach::GiveUp);
}

/// How a run of attempts ends, and with which one.
fn attaching(attempts: &[(bool, u128)]) -> Option<(usize, Attach)> {
    for (k, (attached, waited_ns)) in attempts.iter().enumerate() {
        match attach_rtt(*attached, *waited_ns) {
            Attach::RetryAfterMs(_) => {}
            end => return Some((k, end)),
        }
    }
    None
}

#[test]
fn attaching_ends_with_success_or_past_the_deadline() {
    let late = 3_000_000_000;
    assert_eq!(attaching(&[(false, 1), (false, late - 1)]), None);
    assert_eq!(attaching(&[(false, 1), (true, 2), (false, late)]), Some((1, Attach::Attached)));
    assert_eq!(attaching(&[(false, 1), (true, late + 1)]), Some((1, Attach::Attached)));
    assert_eq!(attaching(&[(false, 1), (false, late), (true, late + 1)]), Some((1, Attach::GiveUp)));
}

#[test]
fn a_halted_core_is_resumed() {
    assert!(resume_needed(Some(true)));
    assert!(!resume_needed(Some(false)));
    assert!(!resume_needed(None));
}

#[test]
fn channels_by_name() {
    let usual = names(&[Some("log"), Some("pcm")]);
    assert_eq!(pcm_channel(&usual), 1);
    assert_eq!(log_channel(&usual), Some(0));
    let moved = names(&[None, Some("pcm"), Some("x"), Some("log"), Some("pcm"), Some("log")]);
    assert_eq!(pcm_channel(&moved), 1);
    assert_eq!(log_channel(&moved), Some(3));
    let first = names(&[Some("pcm")]);
    assert_eq!(pcm_channel(&first), 0);
    assert_eq!(log_channel(&first), None);
    let unnamed = names(&[None, Some("PCM"), Some("pcm ")]);
    assert_eq!(pcm_channel(&unnamed), 1);
    assert_eq!(log_channel(&unnamed), None);
    assert_eq!(pcm_channel(&names(&[])), 1);
}

#[test]
fn recorded_format() {
    let format = wav_format();
    assert_eq!(format.channels, 1);
    assert_eq!(format.sample_rate, 16_000);
    assert_eq!(format.bits_per_sample, 16);
}

#[test]
fn a_recording() {
    let mut r = Recorder::new(&names(&[Some("pcm"), None, Some("log")]));
    assert_eq!(r.turn(false), Turn::Read { log: Some(2), pcm: 0 });
    assert!(matches!(r.take(&[]), Taken::Idle { sleep_ms: 2 }));
    assert_eq!(taken(&mut r, &[1, 0, 2]), vec![1]);
    assert!(matches!(r.take(&[]), Taken::Idle { sleep_ms: 2 }));
    assert_eq!(taken(&mut r, &[0, 3, 0]), vec![2, 3]);
    assert_eq!(r.recorded(), 3);
    assert_eq!(r.report(999_999_999), None);
    assert_eq!(r.report(1_000_000_000), Some(3));
    assert_eq!(taken(&mut r, &[9]), Vec::<i16>::new());
    assert_eq!(r.recorded(), 3);
    assert_eq!(r.turn(true), Turn::Finish);
}
