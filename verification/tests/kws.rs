use nrf54_audio::kws::argmax::argmax;
use nrf54_audio::kws::boot::{
    milestone_line, Boot, BootEvent, BootNext, Milestone, Plan, LOG_BUFFER,
};
use nrf54_audio::kws::detector::{Detection, Detector, Status};
use nrf54_audio::kws::frame::{clip_frame, Framer, FRAME_HOP, FRAME_LEN, TAIL};
use nrf54_audio::kws::history::{History, Logits, NUM_CLASSES};
use nrf54_audio::kws::report::{
    axon_line, detect_line, e2e_line, hop_lines, label, mfcc_line, mic_line, model_line, nn_line,
    status_line,
};
use nrf54_audio::kws::selftest::{logit_maxdiff, top_class, Next, SelfTest, TestVector, Trial};
use nrf54_audio::kws::spotter::{Action, Event, Spotter};
use nrf54_audio::kws::window::{
    quantize_features, Row, Window, FEAT_LEN, NUM_FRAMES, NUM_MFCC,
};

fn row(k: i32) -> Row {
    let mut r = [0; NUM_MFCC];
    for j in 0..NUM_MFCC {
        r[j] = 100 * k + j as i32;
    }
    r
}

fn logits(class: usize, value: i8) -> Logits {
    let mut l = [0; NUM_CLASSES];
    l[class] = value;
    l
}

/// The hops, counted from 1, at which a detector fed with one answer detects.
fn detections(hops: u32, answer: Logits) -> Vec<(u32, Detection)> {
    let mut d = Detector::new();
    let mut found = Vec::new();
    for hop in 1..=hops {
        if d.on_row(row(hop as i32)) {
            if let Some(heard) = d.on_logits(answer, 0, 0) {
                found.push((hop, heard));
            }
        }
    }
    found
}

#[test]
fn the_two_best_classes() {
    assert_eq!(argmax(&[0; 12]), (0, 1));
    assert_eq!(argmax(&[1, 2, 0, 0, 0, 0, 0, 0, 0, 0, 0, 0]), (1, 0));
    assert_eq!(argmax(&[5, 5, 5, 0, 0, 0, 0, 0, 0, 0, 0, 0]), (0, 1));
    assert_eq!(argmax(&[0, 0, 0, 0, 9, 0, 0, 9, 0, 0, 0, 10]), (11, 4));
    assert_eq!(argmax(&[-9, -8, -7, -6, -5, -4, -3, -2, -1, -10, -11, -12]), (8, 7));
    assert_eq!(argmax(&[3, 1, 2, 0, 0, 0, 0, 0, 0, 0, 0, 0]), (0, 2));
    assert_eq!(argmax(&[1, 3, 3, 4, 4, 0, 0, 0, 0, 0, 0, i32::MIN]), (3, 4));
}

#[test]
fn the_window_slides() {
    let mut w = Window::new();
    for k in 1..=48 {
        w.push(row(k));
        assert!(!w.is_full());
    }
    for k in 49..=120 {
        w.push(row(k));
        assert!(w.is_full());
        let features = w.assemble();
        for f in 0..NUM_FRAMES {
            for j in 0..NUM_MFCC {
                assert_eq!(features[f * NUM_MFCC + j], row(k - 48 + f as i32)[j]);
            }
        }
    }
}

#[test]
fn the_latest_logits_are_summed() {
    let mut h = History::new();
    assert_eq!(h.len(), 0);
    assert_eq!(h.sums(), [0; 12]);
    for n in 1..=9i32 {
        h.push(logits(3, (10 * n) as i8));
        assert_eq!(h.len(), n.min(4) as usize);
        let first = (n - 3).max(1);
        let sum: i32 = (first..=n).map(|k| 10 * k).sum();
        assert_eq!(h.sums()[3], sum);
        assert_eq!(h.sums()[0], 0);
    }
    for _ in 0..4 {
        h.push([-128; 12]);
    }
    assert_eq!(h.sums(), [-512; 12]);
}

#[test]
fn inferences_run_every_fifth_hop_of_a_full_window() {
    let mut d = Detector::new();
    let mut due = Vec::new();
    for hop in 1..=70 {
        if d.on_row(row(hop)) {
            due.push(hop);
            assert_eq!(d.features()[0], row(hop - 48)[0]);
            assert_eq!(d.features()[FEAT_LEN - 1], row(hop)[9]);
        }
    }
    assert_eq!(due, vec![50, 55, 60, 65, 70]);
}

#[test]
fn a_clear_word_is_detected_once_a_second() {
    let found = detections(260, logits(4, 100));
    let hops: Vec<u32> = found.iter().map(|f| f.0).collect();
    assert_eq!(hops, vec![50, 100, 150, 200, 250]);
    assert_eq!(found[0].1, Detection { class: 4, margin: 100 });
}

#[test]
fn silence_and_unknown_are_not_detected() {
    assert_eq!(detections(300, logits(0, 127)).len(), 0);
    assert_eq!(detections(300, logits(1, 127)).len(), 0);
    assert!(detections(300, logits(2, 127)).len() > 0);
    assert!(detections(300, logits(11, 127)).len() > 0);
}

#[test]
fn the_margin_decides() {
    assert_eq!(detections(300, logits(5, 7)).len(), 0);
    assert_eq!(detections(300, logits(5, 8))[0].1, Detection { class: 5, margin: 8 });
}

#[test]
fn the_margin_is_averaged_over_the_latest_inferences() {
    let mut d = Detector::new();
    for hop in 1..=49 {
        d.on_row(row(hop));
    }
    let mut heard = Vec::new();
    // Four inferences of 40 in a row would make 40; alone among three zeros, 10.
    for value in [0, 0, 0, 40, 0] {
        for _ in 0..4 {
            d.on_row(row(0));
        }
        d.on_row(row(0));
        heard.push(d.on_logits(logits(6, value), 0, 0));
    }
    assert_eq!(heard, vec![None, None, None, Some(Detection { class: 6, margin: 10 }), None]);
}

#[test]
fn heartbeats_every_five_seconds() {
    let mut d = Detector::new();
    let mut beats = Vec::new();
    for hop in 1..=600 {
        if d.on_row(row(hop)) {
            d.on_logits(logits(0, 0), 0xFFFF_FF00, 742_400 - 0x100);
        }
        if let Some(status) = d.status() {
            beats.push((hop, status));
        }
    }
    assert_eq!(
        beats,
        vec![
            (250, Status { seconds: 5, infer_us: 5_800 }),
            (500, Status { seconds: 10, infer_us: 5_800 }),
        ]
    );
}

#[test]
fn frames_overlap_by_the_tail() {
    let audio: Vec<i16> = (0..5 * FRAME_HOP).map(|i| (i + 1) as i16).collect();
    let mut padded = vec![0i16; TAIL];
    padded.extend(&audio);
    let mut framer = Framer::new();
    for (n, hop) in audio.chunks(FRAME_HOP).enumerate() {
        let mut samples = [0i16; FRAME_HOP];
        samples.copy_from_slice(hop);
        let frame = framer.next_frame(&samples);
        assert_eq!(frame.to_vec(), padded[n * FRAME_HOP..n * FRAME_HOP + FRAME_LEN].to_vec());
        assert_eq!(frame.to_vec(), clip_frame(&padded, n).to_vec());
    }
}

#[test]
fn features_are_quantized() {
    let mut features = [0i32; FEAT_LEN];
    features[1] = -49;
    features[2] = 500;
    features[489] = -500;
    let q = quantize_features(&features, 49);
    assert_eq!((q[0], q[1], q[2], q[489]), (49, 0, 127, -128));
    features[300] = i32::MAX;
    features[301] = i32::MIN;
    let q = quantize_features(&features, 1);
    assert_eq!((q[299], q[300], q[301]), (1, 127, -128));
    let q = quantize_features(&features, -1);
    assert_eq!((q[299], q[300], q[301]), (-1, 127, -128));
}

#[test]
fn self_test_comparisons() {
    let a: Logits = [1, 2, 3, 4, 5, 6, 7, 8, 9, 10, 11, 12];
    assert_eq!(logit_maxdiff(&a, &a), 0);
    let mut b = a;
    b[7] = -2;
    b[0] = 5;
    assert_eq!(logit_maxdiff(&a, &b), 10);
    assert_eq!(logit_maxdiff(&b, &a), 10);
    assert_eq!(logit_maxdiff(&[127; 12], &[-128; 12]), 255);
    assert_eq!(top_class(&a), 11);
    assert_eq!(top_class(&[0; 12]), 0);
    assert_eq!(top_class(&logits(9, 1)), 9);
}

#[test]
fn labels() {
    let all: Vec<&str> = (0..NUM_CLASSES).map(label).collect();
    assert_eq!(
        all,
        vec!["silence", "unknown", "yes", "no", "up", "down", "left", "right", "on", "off", "stop", "go"]
    );
}

#[test]
fn log_lines() {
    assert_eq!(detect_line(Detection { class: 10, margin: 23 }), "DETECT stop margin=23");
    assert_eq!(
        status_line(Status { seconds: 5, infer_us: 5_800 }, 1),
        "kws: t=5s overruns=1 infer=5800us"
    );
    assert_eq!(nn_line(2, 3, 0), "selftest nn: argmax=yes want=no logit-maxdiff=0");
    assert_eq!(mfcc_line(-1), "selftest mfcc: maxerr=-1e-3");
    assert_eq!(e2e_line(11, 11), "selftest e2e: argmax=go want=go");
    assert_eq!(axon_line(0), "kws: axon init rc=0");
    assert_eq!(model_line(-7), "kws: model validate rc=-7");
    assert_eq!(mic_line(1, 1), "kws: mic alive (DIN toggling)");
    assert_eq!(mic_line(0, 9), "kws: mic DEAD (DIN stuck - check wiring)");
    assert_eq!(mic_line(9, 0), "kws: mic DEAD (DIN stuck - check wiring)");
}

#[test]
fn the_spotters_steps() {
    let mut s = Spotter::new(-4_900);
    let mut heard_at = Vec::new();
    let mut beats = 0;
    for hop in 1..=250i32 {
        let mut event = Event::Samples([hop as i16; FRAME_HOP]);
        loop {
            event = match s.step(event) {
                Action::Analyse(frame) => {
                    assert_eq!(frame[0], (hop - 1) as i16);
                    assert_eq!(frame[TAIL], hop as i16);
                    Event::Row(row(hop))
                }
                Action::Infer(input) => {
                    assert!(hop >= 50 && hop % 5 == 0);
                    for f in 0..49 {
                        for j in 0..10 {
                            let want = (row(hop - 48 + f)[j] - 4_900).clamp(-128, 127);
                            assert_eq!(input[10 * f as usize + j] as i32, want);
                        }
                    }
                    Event::Inferred { logits: logits(7, 50), begun: 10, ended: 138 }
                }
                Action::Log { heard, status } => {
                    if let Some(d) = heard {
                        assert_eq!(d, Detection { class: 7, margin: 50 });
                        heard_at.push(hop);
                    }
                    if let Some(status) = status {
                        assert_eq!(status, Status { seconds: 5, infer_us: 1 });
                        beats += 1;
                    }
                    break;
                }
            };
        }
    }
    assert_eq!(heard_at, vec![50, 100, 150, 200, 250]);
    assert_eq!(beats, 1);
}

#[test]
fn the_self_tests_steps() {
    let pcm: Vec<i16> = (0..15_840).map(|i| i as i16).collect();
    let test = TestVector {
        input_q: [7; FEAT_LEN],
        logits: logits(3, 20),
        label: 3,
        pcm,
    };
    assert!(test.usable());
    let mut tests = SelfTest::new();
    let mut trial = Trial::Begun;
    let mut logged = Vec::new();
    let mut frames = Vec::new();
    loop {
        let outcome = tests.step(&test, -4_800, trial);
        logged.extend(outcome.lines);
        trial = match outcome.next {
            Next::Infer(input) => {
                assert_eq!(input, [7; FEAT_LEN]);
                Trial::Engine(logits(3, 18))
            }
            Next::Analyse { f, frame } => {
                assert_eq!(frame[0] as usize, f * FRAME_HOP);
                assert_eq!(frame[FRAME_LEN - 1] as usize, f * FRAME_HOP + FRAME_LEN - 1);
                frames.push(f);
                Trial::Row(row(f as i32))
            }
            Next::Measure => Trial::MaxErr(4),
            Next::InferFeatures(input) => {
                assert_eq!(input[0], -128);
                assert_eq!(input[FEAT_LEN - 1], 9);
                Trial::EndToEnd(logits(5, 1))
            }
            Next::Done => break,
        };
    }
    assert_eq!(frames, (0..NUM_FRAMES).collect::<Vec<usize>>());
    assert_eq!(
        logged,
        vec![
            "selftest nn: argmax=no want=no logit-maxdiff=2",
            "selftest mfcc: computing",
            "selftest mfcc: maxerr=4e-3",
            "selftest e2e: argmax=down want=no",
        ]
    );
}

#[test]
fn a_test_vector_needs_a_whole_clip_and_a_class() {
    let vector = |label: usize, len: usize| TestVector {
        input_q: [0; FEAT_LEN],
        logits: [0; NUM_CLASSES],
        label,
        pcm: vec![0; len],
    };
    assert!(vector(11, 15_840).usable());
    assert!(!vector(12, 15_840).usable());
    assert!(!vector(0, 15_839).usable());
}

#[test]
fn the_boot_log_fits_the_channel() {
    let lines: Vec<String> = vec![
        milestone_line(Milestone::Boot).to_string(),
        axon_line(i32::MIN),
        model_line(i32::MIN),
        nn_line(0, 1, 255),
        "selftest mfcc: computing".to_string(),
        mfcc_line(i32::MAX),
        e2e_line(1, 0),
        milestone_line(Milestone::StartingPdm).to_string(),
        mic_line(0, 0).to_string(),
        milestone_line(Milestone::Listening).to_string(),
    ];
    assert_eq!(lines[0], "kws: boot");
    assert_eq!(lines[7], "kws: starting pdm");
    assert_eq!(lines[9], "kws: listening");
    assert_eq!(milestone_line(Milestone::NoModel), "kws: no model linked; idle");
    assert!(lines.iter().map(|line| line.len() + 1).sum::<usize>() < LOG_BUFFER);
}

#[test]
fn a_hop_logs_the_detection_before_the_heartbeat() {
    let heard = Detection { class: 2, margin: 8 };
    let status = Status { seconds: 10, infer_us: 37 };
    let beat = "kws: t=10s overruns=3 infer=37us";
    assert_eq!(hop_lines(None, None, 3).len(), 0);
    assert_eq!(hop_lines(Some(heard), None, 3), vec!["DETECT yes margin=8"]);
    assert_eq!(hop_lines(None, Some(status), 3), vec![beat]);
    assert_eq!(hop_lines(Some(heard), Some(status), 3), vec!["DETECT yes margin=8", beat]);
}

/// Boots an image whose device answers everything; gives what is logged and
/// whether it ends in the detection loop.
fn booted(plan: Plan) -> (Vec<String>, bool) {
    let mut boot = Boot::new(plan);
    let mut event = BootEvent::Reset;
    let mut logged = Vec::new();
    loop {
        assert!(boot.awaits(&event));
        assert!(!boot.awaits(&BootEvent::Tried(Trial::Begun)));
        let outcome = boot.step(event);
        logged.extend(outcome.lines);
        event = match outcome.next {
            BootNext::InitAxon => BootEvent::AxonUp(-3),
            BootNext::Validate => BootEvent::Validated(0),
            BootNext::Test(Next::Infer(_)) => BootEvent::Tried(Trial::Engine(logits(2, 1))),
            BootNext::Test(Next::Analyse { f, .. }) => {
                BootEvent::Tried(Trial::Row(row(f as i32)))
            }
            BootNext::Test(Next::Measure) => BootEvent::Tried(Trial::MaxErr(1)),
            BootNext::Test(Next::InferFeatures(_)) => {
                BootEvent::Tried(Trial::EndToEnd(logits(4, 1)))
            }
            BootNext::Test(Next::Done) => unreachable!(),
            BootNext::StartPdm => BootEvent::Probed { high: 5, low: 6 },
            BootNext::Listen => return (logged, true),
            BootNext::Idle => return (logged, false),
        };
    }
}

#[test]
fn the_boots_steps() {
    let vector = || TestVector {
        input_q: [0; FEAT_LEN],
        logits: logits(2, 4),
        label: 2,
        pcm: vec![0; 15_840],
    };
    let (logged, listens) = booted(Plan { model: Some(49), test: Some(vector()) });
    assert!(listens);
    assert_eq!(
        logged,
        vec![
            "kws: boot",
            "kws: axon init rc=-3",
            "kws: model validate rc=0",
            "selftest nn: argmax=yes want=yes logit-maxdiff=3",
            "selftest mfcc: computing",
            "selftest mfcc: maxerr=1e-3",
            "selftest e2e: argmax=up want=yes",
            "kws: starting pdm",
            "kws: mic alive (DIN toggling)",
            "kws: listening",
        ]
    );
    let (logged, listens) = booted(Plan { model: Some(49), test: None });
    assert!(listens);
    assert_eq!(
        logged,
        vec![
            "kws: boot",
            "kws: axon init rc=-3",
            "kws: model validate rc=0",
            "kws: starting pdm",
            "kws: mic alive (DIN toggling)",
            "kws: listening",
        ]
    );
    let (logged, listens) = booted(Plan { model: None, test: Some(vector()) });
    assert!(!listens);
    assert_eq!(logged, vec!["kws: boot", "kws: axon init rc=-3", "kws: no model linked; idle"]);
}
