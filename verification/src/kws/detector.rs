//! The detection loop's decisions: when to run an inference, when a word has
//! been heard, when to report.
//!
//! A hop is one 20 ms buffer of audio and the feature row computed from it. For
//! every hop the caller hands the row to [`Detector::on_row`]. If that asks for
//! an inference, the caller runs the engine on [`Detector::features`], quantized, and
//! hands the logits to [`Detector::on_logits`]. Last, [`Detector::status`] says whether a
//! heartbeat is due.

use vstd::prelude::*;

use crate::kws::argmax::{
    argmax, best, best_apart_from, lemma_best_exists, lemma_best_is_unique,
};
use crate::kws::history::{class_sum, History, Logits, NUM_CLASSES, SMOOTH};
use crate::kws::window::{flattened, Row, Window, FEAT_LEN, NUM_FRAMES};
use crate::recent::remembered;

verus! {

/// The first class that is a word; 0 is silence, 1 is unknown.
pub const FIRST_WORD_CLASS: usize = 2;

/// One inference per 100 ms.
pub const INFER_EVERY_HOPS: u32 = 5;

/// The gap between best and second class that a detection needs, in averaged
/// logit units.
pub const DETECT_MARGIN: i32 = 8;

/// At least 1 s between detections.
pub const COOLDOWN_HOPS: u32 = 50;

/// A heartbeat every 5 s.
pub const STATUS_EVERY_HOPS: u32 = 250;

/// Hops in one second.
pub const HOPS_PER_SECOND: u32 = 50;

/// Processor cycles in one microsecond.
pub const CYCLES_PER_MICROSECOND: u32 = 128;

/// A word was heard.
#[derive(Clone, Copy, PartialEq, Eq, Structural, Debug)]
pub struct Detection {
    pub class: usize,
    pub margin: i32,
}

/// What a heartbeat reports.
#[derive(Clone, Copy, PartialEq, Eq, Structural, Debug)]
pub struct Status {
    pub seconds: u32,
    pub infer_us: u32,
}

/// Counting in 32 bits, around the corner.
pub open spec fn wrapped(x: int) -> u32 {
    (x % 0x1_0000_0000) as u32
}

/// Everything the detection loop remembers.
#[verifier::ext_equal]
pub struct Progress {
    pub rows: Seq<Row>,
    pub recent: Seq<Logits>,
    pub hops: u32,
    pub last_detect: u32,
    pub infer_cycles: u32,
}

/// The state before the first hop.
pub open spec fn at_start() -> Progress {
    Progress {
        rows: Seq::empty(),
        recent: Seq::empty(),
        hops: 0,
        last_detect: 0,
        infer_cycles: 0,
    }
}

/// The state once a hop's row has been taken in.
pub open spec fn after_row(p: Progress, row: Row) -> Progress {
    Progress {
        rows: remembered(p.rows, row, NUM_FRAMES as int),
        hops: wrapped(p.hops + 1),
        ..p
    }
}

/// Whether a hop whose row has been taken in calls for an inference.
pub open spec fn infer_due(p: Progress) -> bool {
    p.rows.len() == NUM_FRAMES && p.hops % INFER_EVERY_HOPS == 0
}

/// Each class's logits, summed over the inferences in `recent`.
pub open spec fn scores(recent: Seq<Logits>) -> Seq<i32> {
    Seq::new(NUM_CLASSES as nat, |c: int| class_sum(recent, c) as i32)
}

/// The best-scoring class, the lower one among equals.
pub open spec fn winner(recent: Seq<Logits>) -> int {
    choose|i: int| best(scores(recent), NUM_CLASSES as int, i)
}

/// The best-scoring class apart from the winner, the lower one among equals.
pub open spec fn runner_up(recent: Seq<Logits>) -> int {
    choose|i: int| best_apart_from(scores(recent), NUM_CLASSES as int, winner(recent), i)
}

/// By how much the winner leads, averaged over the inferences.
pub open spec fn lead(recent: Seq<Logits>) -> int {
    (scores(recent)[winner(recent)] - scores(recent)[runner_up(recent)]) / (recent.len() as int)
}

/// Hops since the last detection, as a 32-bit counter tells it.
pub open spec fn hops_since_detect(p: Progress) -> u32 {
    wrapped(p.hops - p.last_detect)
}

/// Whether the remembered logits amount to a detection at this hop.
pub open spec fn detects(p: Progress) -> bool {
    &&& winner(p.recent) >= FIRST_WORD_CLASS
    &&& lead(p.recent) >= DETECT_MARGIN
    &&& hops_since_detect(p) >= COOLDOWN_HOPS
}

/// The state with an inference's logits and duration taken in, before the
/// decision.
pub open spec fn with_logits(p: Progress, logits: Logits, cycles: u32) -> Progress {
    Progress {
        recent: remembered(p.recent, logits, SMOOTH as int),
        infer_cycles: cycles,
        ..p
    }
}

/// The state after the decision.
pub open spec fn after_logits(p: Progress, logits: Logits, cycles: u32) -> Progress {
    let heard = with_logits(p, logits, cycles);
    if detects(heard) {
        Progress { last_detect: heard.hops, ..heard }
    } else {
        heard
    }
}

/// The decision.
pub open spec fn verdict(p: Progress, logits: Logits, cycles: u32) -> Option<Detection> {
    let heard = with_logits(p, logits, cycles);
    if detects(heard) {
        Some(
            Detection {
                class: winner(heard.recent) as usize,
                margin: lead(heard.recent) as i32,
            },
        )
    } else {
        None
    }
}

/// The heartbeat due at this hop.
pub open spec fn status_of(p: Progress) -> Option<Status> {
    if p.hops % STATUS_EVERY_HOPS == 0 {
        Some(
            Status {
                seconds: p.hops / HOPS_PER_SECOND,
                infer_us: p.infer_cycles / CYCLES_PER_MICROSECOND,
            },
        )
    } else {
        None
    }
}

/// Winner and runner-up are two classes, and the lead is what the logits'
/// range allows.
pub proof fn lemma_podium(recent: Seq<Logits>)
    requires
        0 < recent.len() <= SMOOTH,
    ensures
        best(scores(recent), NUM_CLASSES as int, winner(recent)),
        best_apart_from(
            scores(recent),
            NUM_CLASSES as int,
            winner(recent),
            runner_up(recent),
        ),
        0 <= lead(recent) <= 255 * SMOOTH,
{
    let w = lemma_best_exists(scores(recent), NUM_CLASSES as int, -1);
    assert(best(scores(recent), NUM_CLASSES as int, w));
    lemma_best_exists(scores(recent), NUM_CLASSES as int, winner(recent));
    lemma_class_sum_bounds(recent, winner(recent));
    lemma_class_sum_bounds(recent, runner_up(recent));
    let gap = scores(recent)[winner(recent)] - scores(recent)[runner_up(recent)];
    vstd::arithmetic::div_mod::lemma_div_pos_is_pos(gap, recent.len() as int);
    vstd::arithmetic::div_mod::lemma_div_is_ordered_by_denominator(gap, 1, recent.len() as int);
}

proof fn lemma_class_sum_bounds(recent: Seq<Logits>, class: int)
    ensures
        -128 * recent.len() <= class_sum(recent, class) <= 127 * recent.len(),
    decreases recent.len(),
{
    if recent.len() > 0 {
        lemma_class_sum_bounds(recent.drop_last(), class);
    }
}

/// The detection loop's state.
pub struct Detector {
    window: Window,
    history: History,
    hops: u32,
    last_detect: u32,
    infer_cycles: u32,
}

impl Detector {
    /// Both rings are well formed.
    pub closed spec fn wf(&self) -> bool {
        &&& self.window.wf()
        &&& self.history.wf()
    }

    /// What the loop remembers.
    pub closed spec fn view(&self) -> Progress {
        Progress {
            rows: self.window@,
            recent: self.history@,
            hops: self.hops,
            last_detect: self.last_detect,
            infer_cycles: self.infer_cycles,
        }
    }

    /// A detector that has heard nothing yet.
    pub fn new() -> (d: Detector)
        ensures
            d.wf(),
            d@ == at_start(),
    {
        Detector {
            window: Window::new(),
            history: History::new(),
            hops: 0,
            last_detect: 0,
            infer_cycles: 0,
        }
    }

    /// Takes in one hop's feature row; says whether to run an inference now.
    pub fn on_row(&mut self, row: Row) -> (infer: bool)
        requires
            old(self).wf(),
        ensures
            final(self).wf(),
            final(self)@ == after_row(old(self)@, row),
            infer == infer_due(final(self)@),
    {
        self.window.push(row);
        self.hops = self.hops.wrapping_add(1);
        self.window.is_full() && self.hops % INFER_EVERY_HOPS == 0
    }

    /// The features an inference looks at: the whole window, oldest row first,
    /// not yet shifted by the model's zero point.
    pub fn features(&self) -> (features: [i32; FEAT_LEN])
        requires
            self.wf(),
            self@.rows.len() == NUM_FRAMES,
        ensures
            features@ == flattened(self@.rows),
    {
        self.window.assemble()
    }

    /// Takes in the logits of an inference that ran from cycle count `begun` to
    /// cycle count `ended`; says whether a word was heard.
    pub fn on_logits(&mut self, logits: Logits, begun: u32, ended: u32) -> (heard: Option<Detection>)
        requires
            old(self).wf(),
        ensures
            final(self).wf(),
            final(self)@ == after_logits(old(self)@, logits, wrapped(ended - begun)),
            heard == verdict(old(self)@, logits, wrapped(ended - begun)),
            heard matches Some(d) ==> d.class < NUM_CLASSES,
    {
        self.infer_cycles = ended.wrapping_sub(begun);
        self.history.push(logits);
        let sums = self.history.sums();
        let n: i32 = self.history.len() as i32;
        let (top1, top2) = argmax(&sums);
        let ghost recent = self.history@;
        proof {
            self.history.lemma_bounded();
            assert forall|c: int| 0 <= c < NUM_CLASSES implies -128 * 4 <= #[trigger] sums@[c] <= 127
                * 4 by {
                lemma_class_sum_bounds(recent, c);
            }
            assert(sums@ =~= scores(recent));
            lemma_best_is_unique(sums@, NUM_CLASSES as int, -1, top1 as int, winner(recent));
            lemma_best_is_unique(
                sums@,
                NUM_CLASSES as int,
                top1 as int,
                top2 as int,
                runner_up(recent),
            );
        }
        let margin: i32 = (sums[top1] - sums[top2]) / n;
        if top1 >= FIRST_WORD_CLASS && margin >= DETECT_MARGIN && self.hops.wrapping_sub(
            self.last_detect,
        ) >= COOLDOWN_HOPS {
            self.last_detect = self.hops;
            Some(Detection { class: top1, margin })
        } else {
            None
        }
    }

    /// The heartbeat to log at this hop, if one is due.
    pub fn status(&self) -> (status: Option<Status>)
        ensures
            status == status_of(self@),
    {
        if self.hops % STATUS_EVERY_HOPS == 0 {
            Some(
                Status {
                    seconds: self.hops / HOPS_PER_SECOND,
                    infer_us: self.infer_cycles / CYCLES_PER_MICROSECOND,
                },
            )
        } else {
            None
        }
    }
}

/// What an inference comes to. With `sums` each class's logits added up over this
/// inference and the up to three before it, `n` of them: a word is reported exactly
/// if some word's sum is at least `8 * n` above that of every other class and at
/// least 50 hops have passed since the latest report. What is reported is that word,
/// and as its margin the gap to the next class divided by `n`.
pub proof fn law_words_are_detected_by_their_lead(
    p: Progress,
    logits: Logits,
    cycles: u32,
    sums: Seq<int>,
    n: int,
)
    requires
        p.recent.len() <= 4,
        n == if p.recent.len() < 4 {
            p.recent.len() + 1
        } else {
            4
        },
        sums.len() == 12,
        forall|c: int|
            0 <= c < 12 ==> #[trigger] sums[c] == logits@[c] + (if n >= 2 {
                p.recent[p.recent.len() - 1]@[c] as int
            } else {
                0
            }) + (if n >= 3 {
                p.recent[p.recent.len() - 2]@[c] as int
            } else {
                0
            }) + (if n >= 4 {
                p.recent[p.recent.len() - 3]@[c] as int
            } else {
                0
            }),
    ensures
        verdict(p, logits, cycles) matches Some(heard) ==> {
            &&& 2 <= heard.class < 12
            &&& heard.margin >= 8
            &&& forall|j: int|
                0 <= j < 12 && j != heard.class ==> n * heard.margin <= sums[heard.class as int]
                    - #[trigger] sums[j]
            &&& exists|j: int|
                0 <= j < 12 && j != heard.class && sums[heard.class as int] - #[trigger] sums[j] < n
                    * (heard.margin + 1)
            &&& (p.hops - p.last_detect) % 0x1_0000_0000 >= 50
        },
        forall|i: int|
            #![trigger sums[i]]
            2 <= i < 12 && (forall|j: int|
                0 <= j < 12 && j != i ==> sums[i] - #[trigger] sums[j] >= 8 * n) && (p.hops
                - p.last_detect) % 0x1_0000_0000 >= 50 ==> (verdict(p, logits, cycles) matches Some(
                heard,
            ) && heard.class == i),
{
    let recent = with_logits(p, logits, cycles).recent;
    lemma_podium(recent);
    let w = winner(recent);
    let r = runner_up(recent);
    assert forall|c: int| 0 <= c < 12 implies #[trigger] sums[c] == scores(recent)[c] by {
        reveal_with_fuel(class_sum, 5);
        lemma_class_sum_bounds(recent, c);
    }
    let gap = sums[w] - sums[r];
    vstd::arithmetic::div_mod::lemma_fundamental_div_mod(gap, n);
    vstd::arithmetic::div_mod::lemma_mod_bound(gap, n);
    assert(n * (gap / n + 1) == n * (gap / n) + n) by (nonlinear_arith);
    assert forall|i: int|
        #![trigger sums[i]]
        2 <= i < 12 && (forall|j: int|
            0 <= j < 12 && j != i ==> sums[i] - #[trigger] sums[j] >= 8 * n) && (p.hops
            - p.last_detect) % 0x1_0000_0000 >= 50 implies (verdict(p, logits, cycles) matches Some(
        heard,
    ) && heard.class == i) by {
        if i != w {
            assert(sums[w] <= sums[i] - 8 * n);
            assert(scores(recent)[i] <= scores(recent)[w]);
        }
        assert(gap >= 8 * n);
        assert(gap / n >= 8) by (nonlinear_arith)
            requires
                gap >= 8 * n,
                n > 0,
        ;
    }
}

/// Where another class comes within `8 * n` of a word, that word is not detected: two
/// words that are neck and neck are none.
pub proof fn law_close_calls_are_not_detected(
    p: Progress,
    logits: Logits,
    cycles: u32,
    sums: Seq<int>,
    n: int,
    i: int,
    j: int,
)
    requires
        p.recent.len() <= 4,
        n == if p.recent.len() < 4 {
            p.recent.len() + 1
        } else {
            4
        },
        sums.len() == 12,
        forall|c: int|
            0 <= c < 12 ==> #[trigger] sums[c] == logits@[c] + (if n >= 2 {
                p.recent[p.recent.len() - 1]@[c] as int
            } else {
                0
            }) + (if n >= 3 {
                p.recent[p.recent.len() - 2]@[c] as int
            } else {
                0
            }) + (if n >= 4 {
                p.recent[p.recent.len() - 3]@[c] as int
            } else {
                0
            }),
        0 <= i < 12,
        0 <= j < 12,
        i != j,
        sums[i] - sums[j] < 8 * n,
    ensures
        verdict(p, logits, cycles) matches Some(heard) ==> heard.class != i,
{
    law_words_are_detected_by_their_lead(p, logits, cycles, sums, n);
    if let Some(heard) = verdict(p, logits, cycles) {
        if heard.class == i {
            assert(n * heard.margin <= sums[i] - sums[j]);
            assert(n * heard.margin >= 8 * n) by (nonlinear_arith)
                requires
                    heard.margin >= 8,
                    n > 0,
            ;
        }
    }
}

/// What a decision leaves behind: the hop of a report, and of no other decision, is
/// remembered as the latest; the logits and the duration are remembered; nothing else
/// changes.
pub proof fn law_decisions_are_remembered(p: Progress, logits: Logits, cycles: u32)
    requires
        p.recent.len() <= 4,
    ensures
        ({
            let q = after_logits(p, logits, cycles);
            &&& q.last_detect == if verdict(p, logits, cycles) is Some {
                p.hops
            } else {
                p.last_detect
            }
            &&& q.hops == p.hops
            &&& q.rows == p.rows
            &&& q.infer_cycles == cycles
            &&& q.recent.len() == if p.recent.len() < 4 {
                (p.recent.len() + 1) as int
            } else {
                4
            }
            &&& q.recent[q.recent.len() - 1] == logits
            &&& forall|k: int|
                0 < k < q.recent.len() ==> q.recent[q.recent.len() - 1 - k]
                    == #[trigger] p.recent[p.recent.len() - k]
        }),
{
}

/// What a row leaves behind: it is the window's last, the others keep their order and
/// at most 49 are kept; a hop more is counted; nothing else changes.
pub proof fn law_rows_are_remembered(p: Progress, row: Row)
    requires
        p.rows.len() <= 49,
    ensures
        ({
            let q = after_row(p, row);
            &&& q.hops == (p.hops + 1) % 0x1_0000_0000
            &&& q.last_detect == p.last_detect
            &&& q.infer_cycles == p.infer_cycles
            &&& q.recent == p.recent
            &&& q.rows.len() == if p.rows.len() < 49 {
                (p.rows.len() + 1) as int
            } else {
                49
            }
            &&& q.rows[q.rows.len() - 1] == row
            &&& forall|k: int|
                0 < k < q.rows.len() ==> q.rows[q.rows.len() - 1 - k]
                    == #[trigger] p.rows[p.rows.len() - k]
        }),
{
}

/// An inference is run on a full window at every fifth hop; a heartbeat comes at every
/// 250th and tells whole seconds, of 50 hops each, and microseconds, of 128 cycles
/// each. Nothing has been heard before the first hop.
pub proof fn law_hops_keep_time(p: Progress)
    ensures
        infer_due(p) <==> p.rows.len() == 49 && p.hops % 5 == 0,
        status_of(p) is Some <==> p.hops % 250 == 0,
        status_of(p) matches Some(status) ==> {
            &&& 50 * status.seconds <= p.hops < 50 * (status.seconds + 1)
            &&& 128 * status.infer_us <= p.infer_cycles < 128 * (status.infer_us + 1)
        },
        at_start().rows.len() == 0,
        at_start().recent.len() == 0,
        at_start().hops == 0,
        at_start().last_detect == 0,
        at_start().infer_cycles == 0,
{
}

/// Counting around the corner keeps a number's place among 2^32.
pub proof fn law_counting_wraps(x: int)
    ensures
        (x - wrapped(x)) % 0x1_0000_0000 == 0,
        0 <= x < 0x1_0000_0000 ==> wrapped(x) == x,
{
}

} // verus!
