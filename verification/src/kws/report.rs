//! What the keyword spotter logs.

use vstd::prelude::*;
use vstd::string::*;

use crate::kws::detector::{Detection, Status};
use crate::kws::history::NUM_CLASSES;
use crate::mic::{line_of, Line};
use crate::text::{decimal, decimal_nat, law_decimals_differ, push_i32, push_u64};

verus! {

/// The name of a class: silence, unknown, then the words.
pub open spec fn label_of(class: usize) -> Seq<char> {
    match class {
        0 => "silence"@,
        1 => "unknown"@,
        2 => "yes"@,
        3 => "no"@,
        4 => "up"@,
        5 => "down"@,
        6 => "left"@,
        7 => "right"@,
        8 => "on"@,
        9 => "off"@,
        10 => "stop"@,
        _ => "go"@,
    }
}

/// The name of a class.
pub fn label(class: usize) -> (name: &'static str)
    requires
        class < NUM_CLASSES,
    ensures
        name@ == label_of(class),
{
    match class {
        0 => "silence",
        1 => "unknown",
        2 => "yes",
        3 => "no",
        4 => "up",
        5 => "down",
        6 => "left",
        7 => "right",
        8 => "on",
        9 => "off",
        10 => "stop",
        _ => "go",
    }
}

/// The texts of log lines.
pub open spec fn texts(lines: Seq<String>) -> Seq<Seq<char>> {
    Seq::new(lines.len(), |i: int| lines[i]@)
}

/// What the log line for a detected word says.
pub open spec fn detect_text(heard: Detection) -> Seq<char> {
    "DETECT "@ + label_of(heard.class) + " margin="@ + decimal(heard.margin as int)
}

/// What the heartbeat's log line says.
pub open spec fn status_text(status: Status, overruns: u32) -> Seq<char> {
    "kws: t="@
        + decimal_nat(status.seconds as nat)
        + "s overruns="@
        + decimal_nat(overruns as nat)
        + " infer="@
        + decimal_nat(status.infer_us as nat)
        + "us"@
}

/// The log line for a detected word.
pub fn detect_line(heard: Detection) -> (text: String)
    requires
        heard.class < NUM_CLASSES,
    ensures
        text@ == detect_text(heard),
{
    let mut text: String = String::new();
    text.append("DETECT ");
    text.append(label(heard.class));
    text.append(" margin=");
    push_i32(&mut text, heard.margin);
    text
}

/// The heartbeat's log line.
pub fn status_line(status: Status, overruns: u32) -> (text: String)
    ensures
        text@ == status_text(status, overruns),
{
    let mut text: String = String::new();
    text.append("kws: t=");
    push_u64(&mut text, status.seconds as u64);
    text.append("s overruns=");
    push_u64(&mut text, overruns as u64);
    text.append(" infer=");
    push_u64(&mut text, status.infer_us as u64);
    text.append("us");
    text
}

/// The log lines of one hop: the detection, if there is one, then the heartbeat, if
/// one is due.
pub fn hop_lines(heard: Option<Detection>, status: Option<Status>, overruns: u32) -> (lines: Vec<
    String,
>)
    requires
        heard matches Some(heard) ==> heard.class < NUM_CLASSES,
    ensures
        texts(lines@) == (match heard {
            Some(heard) => seq![detect_text(heard)],
            None => Seq::empty(),
        }) + (match status {
            Some(status) => seq![status_text(status, overruns)],
            None => Seq::empty(),
        }),
{
    let mut lines: Vec<String> = Vec::new();
    if let Some(heard) = heard {
        lines.push(detect_line(heard));
    }
    if let Some(status) = status {
        lines.push(status_line(status, overruns));
    }
    lines
}

/// What the first self-test's log line says: the engine's class, the expected one,
/// and the greatest distance of a logit from the expected one.
pub open spec fn nn_text(top: usize, want: usize, maxdiff: i32) -> Seq<char> {
    "selftest nn: argmax="@
        + label_of(top)
        + " want="@
        + label_of(want)
        + " logit-maxdiff="@
        + decimal(maxdiff as int)
}

/// What the second self-test's log line says: the greatest error of a feature, in
/// thousandths.
pub open spec fn mfcc_text(maxerr_millis: i32) -> Seq<char> {
    "selftest mfcc: maxerr="@ + decimal(maxerr_millis as int) + "e-3"@
}

/// What the third self-test's log line says: the class that the device's own
/// features give, and the expected one.
pub open spec fn e2e_text(top: usize, want: usize) -> Seq<char> {
    "selftest e2e: argmax="@ + label_of(top) + " want="@ + label_of(want)
}

/// The log line of the first self-test.
pub fn nn_line(top: usize, want: usize, maxdiff: i32) -> (text: String)
    requires
        top < NUM_CLASSES,
        want < NUM_CLASSES,
    ensures
        text@ == nn_text(top, want, maxdiff),
{
    let mut text: String = String::new();
    text.append("selftest nn: argmax=");
    text.append(label(top));
    text.append(" want=");
    text.append(label(want));
    text.append(" logit-maxdiff=");
    push_i32(&mut text, maxdiff);
    text
}

/// The log line of the second self-test.
pub fn mfcc_line(maxerr_millis: i32) -> (text: String)
    ensures
        text@ == mfcc_text(maxerr_millis),
{
    let mut text: String = String::new();
    text.append("selftest mfcc: maxerr=");
    push_i32(&mut text, maxerr_millis);
    text.append("e-3");
    text
}

/// The log line of the third self-test.
pub fn e2e_line(top: usize, want: usize) -> (text: String)
    requires
        top < NUM_CLASSES,
        want < NUM_CLASSES,
    ensures
        text@ == e2e_text(top, want),
{
    let mut text: String = String::new();
    text.append("selftest e2e: argmax=");
    text.append(label(top));
    text.append(" want=");
    text.append(label(want));
    text
}

/// What the log line about the engine's bring-up says.
pub open spec fn axon_text(rc: i32) -> Seq<char> {
    "kws: axon init rc="@ + decimal(rc as int)
}

/// What the log line about the model's validation says.
pub open spec fn model_text(rc: i32) -> Seq<char> {
    "kws: model validate rc="@ + decimal(rc as int)
}

/// What the log line about the microphone says.
pub open spec fn mic_text(line: Line) -> Seq<char> {
    if line == Line::Toggling {
        "kws: mic alive (DIN toggling)"@
    } else {
        "kws: mic DEAD (DIN stuck - check wiring)"@
    }
}

/// The log line about the engine's bring-up.
pub fn axon_line(rc: i32) -> (text: String)
    ensures
        text@ == axon_text(rc),
{
    let mut text: String = String::new();
    text.append("kws: axon init rc=");
    push_i32(&mut text, rc);
    text
}

/// The log line about the model's validation.
pub fn model_line(rc: i32) -> (text: String)
    ensures
        text@ == model_text(rc),
{
    let mut text: String = String::new();
    text.append("kws: model validate rc=");
    push_i32(&mut text, rc);
    text
}

/// The log line about the microphone, from a probe's counts of high and low
/// readings.
pub fn mic_line(high: u32, low: u32) -> (text: &'static str)
    ensures
        text@ == mic_text(line_of(high, low)),
{
    if high > 0 && low > 0 {
        "kws: mic alive (DIN toggling)"
    } else {
        "kws: mic DEAD (DIN stuck - check wiring)"
    }
}

/// The classes' names, in order.
pub proof fn law_labels_are_the_words(class: usize)
    requires
        class < 12,
    ensures
        label_of(class) == seq![
            "silence"@,
            "unknown"@,
            "yes"@,
            "no"@,
            "up"@,
            "down"@,
            "left"@,
            "right"@,
            "on"@,
            "off"@,
            "stop"@,
            "go"@,
        ][class as int],
{
}

/// No two classes have one name.
pub proof fn law_labels_differ(a: usize, b: usize)
    requires
        a < 12,
        b < 12,
        label_of(a) == label_of(b),
    ensures
        a == b,
{
    reveal_strlit("silence");
    reveal_strlit("unknown");
    reveal_strlit("yes");
    reveal_strlit("no");
    reveal_strlit("up");
    reveal_strlit("down");
    reveal_strlit("left");
    reveal_strlit("right");
    reveal_strlit("on");
    reveal_strlit("off");
    reveal_strlit("stop");
    reveal_strlit("go");
    let x = label_of(a);
    let y = label_of(b);
    assert(x.len() == y.len());
    assert(x[0] == y[0]);
    assert(x[1] == y[1]);
}

/// A detection is logged as the name of its class, from the list of names, and its
/// margin in decimal.
pub proof fn law_detections_name_their_word(heard: Detection)
    requires
        heard.class < 12,
    ensures
        detect_text(heard) == "DETECT "@ + seq![
            "silence"@,
            "unknown"@,
            "yes"@,
            "no"@,
            "up"@,
            "down"@,
            "left"@,
            "right"@,
            "on"@,
            "off"@,
            "stop"@,
            "go"@,
        ][heard.class as int] + " margin="@ + decimal(heard.margin as int),
{
}

/// Detections of different words are never logged alike, nor are different margins
/// of one word.
pub proof fn law_detections_are_logged_apart(a: Detection, b: Detection)
    requires
        a.class < 12,
        b.class < 12,
        detect_text(a) == detect_text(b),
    ensures
        a == b,
{
    reveal_strlit("DETECT ");
    reveal_strlit(" margin=");
    lemma_labels_have_no_blank(a.class);
    lemma_labels_have_no_blank(b.class);
    let x = label_of(a.class);
    let y = label_of(b.class);
    let m: int = x.len() as int;
    let n: int = y.len() as int;
    let s = detect_text(a);
    let t = detect_text(b);
    assert(s[7 + m] == ' ');
    assert(t[7 + n] == ' ');
    if m < n {
        assert(t[7 + m] == y[m]);
    } else if n < m {
        assert(s[7 + n] == x[n]);
    }
    assert(s.subrange(7, 7 + m) =~= x);
    assert(t.subrange(7, 7 + n) =~= y);
    law_labels_differ(a.class, b.class);
    assert(s.skip(15 + m) =~= decimal(a.margin as int));
    assert(t.skip(15 + n) =~= decimal(b.margin as int));
    law_decimals_differ(a.margin as int, b.margin as int);
}

proof fn lemma_labels_have_no_blank(class: usize)
    requires
        class < 12,
    ensures
        forall|i: int| 0 <= i < label_of(class).len() ==> #[trigger] label_of(class)[i] != ' ',
{
    reveal_strlit("silence");
    reveal_strlit("unknown");
    reveal_strlit("yes");
    reveal_strlit("no");
    reveal_strlit("up");
    reveal_strlit("down");
    reveal_strlit("left");
    reveal_strlit("right");
    reveal_strlit("on");
    reveal_strlit("off");
    reveal_strlit("stop");
    reveal_strlit("go");
}

/// What the other log lines say, in full.
pub proof fn law_log_lines_in_full(
    status: Status,
    overruns: u32,
    top: usize,
    want: usize,
    x: i32,
    line: Line,
)
    requires
        top < 12,
        want < 12,
    ensures
        status_text(status, overruns) == "kws: t="@ + decimal(status.seconds as int)
            + "s overruns="@ + decimal(overruns as int) + " infer="@ + decimal(
            status.infer_us as int,
        ) + "us"@,
        nn_text(top, want, x) == "selftest nn: argmax="@ + label_of(top) + " want="@ + label_of(want)
            + " logit-maxdiff="@ + decimal(x as int),
        mfcc_text(x) == "selftest mfcc: maxerr="@ + decimal(x as int) + "e-3"@,
        e2e_text(top, want) == "selftest e2e: argmax="@ + label_of(top) + " want="@ + label_of(want),
        axon_text(x) == "kws: axon init rc="@ + decimal(x as int),
        model_text(x) == "kws: model validate rc="@ + decimal(x as int),
        mic_text(line) == if line is Toggling {
            "kws: mic alive (DIN toggling)"@
        } else {
            "kws: mic DEAD (DIN stuck - check wiring)"@
        },
{
}

/// The texts of lines are those lines, in order.
pub proof fn law_texts_are_the_lines(lines: Seq<String>, i: int)
    requires
        0 <= i < lines.len(),
    ensures
        texts(lines).len() == lines.len(),
        texts(lines)[i] == lines[i]@,
{
}

} // verus!
