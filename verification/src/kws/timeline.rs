//! What holds of the detection loop over a whole stream of hops.

use vstd::prelude::*;

use crate::kws::detector::{
    after_logits, after_row, at_start, infer_due, lead, lemma_podium, status_of, verdict, winner,
    with_logits, wrapped, Detection, Progress, Status, COOLDOWN_HOPS, CYCLES_PER_MICROSECOND,
    DETECT_MARGIN, FIRST_WORD_CLASS, HOPS_PER_SECOND, INFER_EVERY_HOPS, STATUS_EVERY_HOPS,
};
use crate::kws::frame::{FRAME_HOP, FRAME_LEN};
use crate::kws::history::{Logits, NUM_CLASSES, SMOOTH};
use crate::kws::watchdog::{SYST_RELOAD, WDOG_LIMIT_TICKS};
use crate::kws::window::{flattened, quantized, Row, FEAT_LEN, NUM_FRAMES, NUM_MFCC};
use crate::pdm::SAMPLE_RATE_HZ;
use crate::platform::CLK_HZ;
use crate::quant::clamped;
use crate::recent::latest;

verus! {

/// One hop: its feature row, and what the engine answers if it is asked at this
/// hop.
pub struct Hop {
    pub row: Row,
    pub logits: Logits,
    pub cycles: u32,
}

/// The state after one hop.
pub open spec fn after_hop(p: Progress, hop: Hop) -> Progress {
    let q = after_row(p, hop.row);
    if infer_due(q) {
        after_logits(q, hop.logits, hop.cycles)
    } else {
        q
    }
}

/// The state after a stream of hops.
pub open spec fn after_hops(hops: Seq<Hop>) -> Progress
    decreases hops.len(),
{
    if hops.len() == 0 {
        at_start()
    } else {
        after_hop(after_hops(hops.drop_last()), hops.last())
    }
}

/// Whether hop `k` of a stream runs an inference.
pub open spec fn infers_at(hops: Seq<Hop>, k: int) -> bool {
    infer_due(after_row(after_hops(hops.take(k)), hops[k].row))
}

/// What is detected at hop `k` of a stream.
pub open spec fn heard_at(hops: Seq<Hop>, k: int) -> Option<Detection> {
    if infers_at(hops, k) {
        verdict(
            after_row(after_hops(hops.take(k)), hops[k].row),
            hops[k].logits,
            hops[k].cycles,
        )
    } else {
        None
    }
}

/// The feature rows of a stream.
pub open spec fn rows_of(hops: Seq<Hop>) -> Seq<Row> {
    Seq::new(hops.len(), |k: int| hops[k].row)
}

/// The logits of the inferences that a stream runs, in order.
pub open spec fn inferred(hops: Seq<Hop>) -> Seq<Logits>
    decreases hops.len(),
{
    if hops.len() == 0 {
        Seq::empty()
    } else {
        let earlier = inferred(hops.drop_last());
        if infers_at(hops, hops.len() - 1) {
            earlier.push(hops.last().logits)
        } else {
            earlier
        }
    }
}

/// What the engine is run on at hop `k` of a stream, if it is: the input that the
/// loop's window gives for a model whose input has the zero point `zp`.
pub open spec fn input_at(hops: Seq<Hop>, k: int, zp: i32) -> Seq<i8> {
    quantized(flattened(after_row(after_hops(hops.take(k)), hops[k].row).rows), zp)
}

/// The logits that a decision at hop `k` of a stream looks at: those of the latest
/// inferences, that of hop `k` among them.
pub open spec fn recent_at(hops: Seq<Hop>, k: int) -> Seq<Logits> {
    latest(inferred(hops.take(k + 1)), SMOOTH as int)
}

/// The last hop before `k` that ran an inference, or -1.
pub open spec fn last_inferred(hops: Seq<Hop>, k: int) -> int
    decreases k,
{
    if k <= 0 {
        -1
    } else if infers_at(hops, k - 1) {
        k - 1
    } else {
        last_inferred(hops, k - 1)
    }
}

/// The last hop before `k` at which something was detected, or -1.
pub open spec fn last_heard(hops: Seq<Hop>, k: int) -> int
    decreases k,
{
    if k <= 0 {
        -1
    } else if heard_at(hops, k - 1) is Some {
        k - 1
    } else {
        last_heard(hops, k - 1)
    }
}

proof fn lemma_take_step(hops: Seq<Hop>, k: int)
    requires
        0 <= k < hops.len(),
    ensures
        after_hops(hops.take(k + 1)) == after_hop(after_hops(hops.take(k)), hops[k]),
{
    assert(hops.take(k + 1).drop_last() =~= hops.take(k));
}

proof fn lemma_counters(hops: Seq<Hop>, k: int)
    requires
        0 <= k <= hops.len(),
    ensures
        after_hops(hops.take(k)).hops == wrapped(k),
        after_hops(hops.take(k)).last_detect == wrapped(last_heard(hops, k) + 1),
        -1 <= last_heard(hops, k) < k || k == 0,
    decreases k,
{
    if k > 0 {
        lemma_counters(hops, k - 1);
        lemma_take_step(hops, k - 1);
    }
}

proof fn lemma_cycles(hops: Seq<Hop>, k: int)
    requires
        0 <= k <= hops.len(),
    ensures
        -1 <= last_inferred(hops, k) < k || k == 0,
        after_hops(hops.take(k)).infer_cycles == if last_inferred(hops, k) < 0 {
            0
        } else {
            hops[last_inferred(hops, k)].cycles
        },
    decreases k,
{
    if k > 0 {
        lemma_cycles(hops, k - 1);
        lemma_take_step(hops, k - 1);
    }
}

proof fn lemma_last_heard_is_last(hops: Seq<Hop>, i: int, j: int)
    requires
        0 <= i < j <= hops.len(),
        heard_at(hops, i) is Some,
    ensures
        i <= last_heard(hops, j),
    decreases j,
{
    if i < j - 1 {
        lemma_last_heard_is_last(hops, i, j - 1);
    }
}

/// The loop's window holds the latest rows of the stream, oldest first.
pub proof fn law_window_holds_the_latest_rows(hops: Seq<Hop>)
    ensures
        after_hops(hops).rows == latest(rows_of(hops), NUM_FRAMES as int),
    decreases hops.len(),
{
    if hops.len() > 0 {
        law_window_holds_the_latest_rows(hops.drop_last());
    }
}

/// What is smoothed are the logits of the latest inferences, oldest first.
pub proof fn law_smooths_the_latest_inferences(hops: Seq<Hop>)
    ensures
        after_hops(hops).recent == latest(inferred(hops), SMOOTH as int),
    decreases hops.len(),
{
    if hops.len() > 0 {
        law_smooths_the_latest_inferences(hops.drop_last());
    }
}

/// A hop runs an inference exactly when a whole window has been seen and the
/// hop counter is a multiple of `INFER_EVERY_HOPS`.
pub proof fn law_when_inferences_run(hops: Seq<Hop>, k: int)
    requires
        0 <= k < hops.len(),
    ensures
        infers_at(hops, k) <==> k + 1 >= NUM_FRAMES && wrapped(k + 1) % INFER_EVERY_HOPS == 0,
{
    lemma_counters(hops, k);
    law_window_holds_the_latest_rows(hops.take(k));
}

/// An inference looks at the latest `NUM_FRAMES` rows of the stream, oldest first,
/// none missing and none twice: coefficient `j` of the `f`-th of them, shifted by
/// the zero point and clamped to a signed byte, stands at `f * NUM_MFCC + j`.
pub proof fn law_inferences_see_the_latest_rows(hops: Seq<Hop>, k: int, zp: i32, f: int, j: int)
    requires
        0 <= k < hops.len(),
        infers_at(hops, k),
        0 <= f < NUM_FRAMES,
        0 <= j < NUM_MFCC,
    ensures
        k + 1 >= NUM_FRAMES,
        input_at(hops, k, zp).len() == FEAT_LEN,
        input_at(hops, k, zp)[f * NUM_MFCC + j] == clamped(
            hops[k + 1 - NUM_FRAMES + f].row@[j] + zp,
        ),
{
    law_when_inferences_run(hops, k);
    law_window_holds_the_latest_rows(hops.take(k + 1));
    lemma_take_step(hops, k);
    let rows = after_row(after_hops(hops.take(k)), hops[k].row).rows;
    assert(rows =~= latest(rows_of(hops.take(k + 1)), NUM_FRAMES as int));
    assert((f * NUM_MFCC + j) / (NUM_MFCC as int) == f);
    assert((f * NUM_MFCC + j) % (NUM_MFCC as int) == j);
}

/// As long as the 32-bit hop counter does not wrap, an inference is followed by
/// the next one `INFER_EVERY_HOPS` hops later, and by none before that.
pub proof fn law_one_inference_per_period(hops: Seq<Hop>, k: int, d: int)
    requires
        0 <= k,
        0 < d <= INFER_EVERY_HOPS,
        k + d < hops.len(),
        k + d + 1 < 0x1_0000_0000,
        infers_at(hops, k),
    ensures
        infers_at(hops, k + d) <==> d == INFER_EVERY_HOPS,
{
    law_when_inferences_run(hops, k);
    law_when_inferences_run(hops, k + d);
    lemma_next_multiple(k + 1, d);
}

proof fn lemma_next_multiple(n: int, d: int)
    requires
        0 < n,
        n + d < 0x1_0000_0000,
        0 < d <= INFER_EVERY_HOPS,
        wrapped(n) % INFER_EVERY_HOPS == 0,
    ensures
        wrapped(n + d) % INFER_EVERY_HOPS == 0 <==> d == INFER_EVERY_HOPS,
{
}

/// Two detections are at least `COOLDOWN_HOPS` hops apart, however long the
/// stream and however often the hop counter wraps.
pub proof fn law_cooldown_between_detections(hops: Seq<Hop>, i: int, j: int)
    requires
        0 <= i < j < hops.len(),
        heard_at(hops, i) is Some,
        heard_at(hops, j) is Some,
    ensures
        j - i >= COOLDOWN_HOPS,
{
    lemma_counters(hops, j);
    lemma_last_heard_is_last(hops, i, j);
    lemma_wrapped_gap(j, last_heard(hops, j));
}

proof fn lemma_wrapped_gap(j: int, l: int)
    requires
        l < j,
    ensures
        wrapped(wrapped(wrapped(j) + 1) - wrapped(l + 1)) <= j - l,
{
}

/// Nothing is detected before a whole window has been seen.
pub proof fn law_silent_until_window_is_full(hops: Seq<Hop>, k: int)
    requires
        0 <= k < hops.len(),
        heard_at(hops, k) is Some,
    ensures
        k + 1 >= NUM_FRAMES,
{
    law_when_inferences_run(hops, k);
}

/// Only words are detected, never silence or an unknown sound, and never with a
/// lead under `DETECT_MARGIN`.
pub proof fn law_only_clear_words_are_detected(hops: Seq<Hop>, k: int)
    requires
        0 <= k < hops.len(),
    ensures
        heard_at(hops, k) matches Some(heard) ==> FIRST_WORD_CLASS <= heard.class < NUM_CLASSES
            && heard.margin >= DETECT_MARGIN,
{
    if heard_at(hops, k) is Some {
        let q = after_row(after_hops(hops.take(k)), hops[k].row);
        let heard = with_logits(q, hops[k].logits, hops[k].cycles);
        law_smooths_the_latest_inferences(hops.take(k));
        lemma_podium(heard.recent);
    }
}

/// A word is detected at a hop exactly when the hop runs an inference, the winner
/// over the latest inferences is a word, its lead is at least `DETECT_MARGIN`, and
/// at least `COOLDOWN_HOPS` hops have passed since the latest detection, as the
/// 32-bit counter tells it; before the first detection, since one hop before the
/// stream began. What is reported is the winner and its lead.
pub proof fn law_when_words_are_detected(hops: Seq<Hop>, k: int)
    requires
        0 <= k < hops.len(),
    ensures
        heard_at(hops, k) is Some <==> {
            &&& infers_at(hops, k)
            &&& winner(recent_at(hops, k)) >= FIRST_WORD_CLASS
            &&& lead(recent_at(hops, k)) >= DETECT_MARGIN
            &&& wrapped(k - last_heard(hops, k)) >= COOLDOWN_HOPS
        },
        k - last_heard(hops, k) < 0x1_0000_0000 ==> wrapped(k - last_heard(hops, k)) == k
            - last_heard(hops, k),
        heard_at(hops, k) matches Some(heard) ==> heard.class == winner(recent_at(hops, k))
            && heard.margin == lead(recent_at(hops, k)),
{
    lemma_counters(hops, k);
    if infers_at(hops, k) {
        lemma_take_step(hops, k);
        law_smooths_the_latest_inferences(hops.take(k));
        law_smooths_the_latest_inferences(hops.take(k + 1));
        let q = after_row(after_hops(hops.take(k)), hops[k].row);
        let heard = with_logits(q, hops[k].logits, hops[k].cycles);
        lemma_podium(heard.recent);
        lemma_wrapped_difference(k, last_heard(hops, k));
    }
}

proof fn lemma_wrapped_difference(j: int, l: int)
    ensures
        wrapped(wrapped(wrapped(j) + 1) - wrapped(l + 1)) == wrapped(j - l),
{
}

/// The heartbeat after hop `k` of a stream.
pub open spec fn status_at(hops: Seq<Hop>, k: int) -> Option<Status> {
    status_of(after_hops(hops.take(k + 1)))
}

/// A heartbeat is due exactly when the hop counter is a multiple of
/// `STATUS_EVERY_HOPS`. It tells the seconds of audio heard, as long as the counter
/// has not wrapped, and the duration of the latest inference, 0 if there was none.
pub proof fn law_heartbeats(hops: Seq<Hop>, k: int)
    requires
        0 <= k < hops.len(),
    ensures
        status_at(hops, k) is Some <==> wrapped(k + 1) % STATUS_EVERY_HOPS == 0,
        k + 1 < 0x1_0000_0000 ==> (status_at(hops, k) matches Some(status) ==> status.seconds == (k
            + 1) / (HOPS_PER_SECOND as int)),
        status_at(hops, k) matches Some(status) ==> status.infer_us == if last_inferred(
            hops,
            k + 1,
        ) < 0 {
            0
        } else {
            hops[last_inferred(hops, k + 1)].cycles / CYCLES_PER_MICROSECOND
        },
{
    lemma_counters(hops, k + 1);
    lemma_cycles(hops, k + 1);
}

/// The counts stand for the times that they are meant for: a hop is 20 ms of
/// audio, an inference runs every 100 ms, four of them are smoothed, detections
/// are 1 s apart, heartbeats 5 s, a watchdog tick is 10 ms and an inference may
/// take 500 ms.
pub proof fn law_times()
    ensures
        HOPS_PER_SECOND * FRAME_HOP == SAMPLE_RATE_HZ,
        10 * INFER_EVERY_HOPS == HOPS_PER_SECOND,
        10 * SMOOTH * INFER_EVERY_HOPS == 4 * HOPS_PER_SECOND,
        COOLDOWN_HOPS == HOPS_PER_SECOND,
        STATUS_EVERY_HOPS == 5 * HOPS_PER_SECOND,
        1_000_000 * CYCLES_PER_MICROSECOND == CLK_HZ,
        100 * (SYST_RELOAD + 1) == CLK_HZ,
        2 * WDOG_LIMIT_TICKS * (SYST_RELOAD + 1) == CLK_HZ,
        SAMPLE_RATE_HZ == 16_000,
        FRAME_HOP == 320,
        FRAME_LEN == 480,
        NUM_FRAMES == 49,
        NUM_MFCC == 10,
        NUM_CLASSES == 12,
        FIRST_WORD_CLASS == 2,
        SMOOTH == 4,
        DETECT_MARGIN == 8,
        INFER_EVERY_HOPS == 5,
        COOLDOWN_HOPS == 50,
        STATUS_EVERY_HOPS == 250,
        WDOG_LIMIT_TICKS == 50,
        CLK_HZ == 128_000_000,
{
}

} // verus!
