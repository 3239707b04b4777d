//! The boot self-tests, as steps between the work that needs the device.
//!
//! Three tests run on a known clip before any live audio: the engine against the
//! expected logits on the exact quantized input, the device's features against
//! the expected ones, and both together. A wrong model thus tells itself apart
//! from a wrong frontend.
//!
//! The caller runs the engine, computes features and logs; each step takes what
//! came of that and says what is next.

use vstd::prelude::*;
use vstd::string::*;

use crate::kws::argmax::{argmax, best, lemma_best_exists, lemma_best_is_unique};
use crate::kws::frame::{clip_frame, framed, Frame, FRAME_HOP, FRAME_LEN};
use crate::kws::history::{Logits, NUM_CLASSES};
use crate::kws::report::{
    e2e_line, e2e_text, label_of, mfcc_line, mfcc_text, nn_line, nn_text, texts,
};
use crate::kws::window::{
    flattened, law_features_are_shifted_and_clamped, law_rows_lie_one_after_the_other,
    quantize_features, quantized, Row, Window, FEAT_LEN, NUM_FRAMES,
};
use crate::text::decimal;

verus! {

/// Logits as the scores of a single inference.
pub open spec fn widened(logits: Seq<i8>) -> Seq<i32> {
    Seq::new(logits.len(), |c: int| logits[c] as i32)
}

/// The class that logits speak for; the lower one among equals.
pub open spec fn class_of(logits: Seq<i8>) -> usize {
    choose|class: usize| best(widened(logits), NUM_CLASSES as int, class as int)
}

/// How far two logits are apart.
pub open spec fn distance(a: i8, b: i8) -> int {
    if a < b {
        b - a
    } else {
        a - b
    }
}

/// `maxdiff` is the greatest distance between two inferences' logits, class by
/// class.
pub open spec fn is_maxdiff(nn: Seq<i8>, want: Seq<i8>, maxdiff: i32) -> bool {
    &&& forall|c: int| 0 <= c < NUM_CLASSES ==> #[trigger] distance(nn[c], want[c]) <= maxdiff
    &&& exists|c: int| 0 <= c < NUM_CLASSES && #[trigger] distance(nn[c], want[c]) == maxdiff
}

/// The greatest distance between two inferences' logits, class by class.
pub open spec fn maxdiff_of(nn: Seq<i8>, want: Seq<i8>) -> i32 {
    choose|maxdiff: i32| is_maxdiff(nn, want, maxdiff)
}

/// The class that logits speak for; the lower one among equals.
pub fn top_class(logits: &Logits) -> (class: usize)
    ensures
        best(widened(logits@), NUM_CLASSES as int, class as int),
        class == class_of(logits@),
{
    let mut as_i32: [i32; NUM_CLASSES] = [0i32; NUM_CLASSES];
    for c in 0..NUM_CLASSES
        invariant
            forall|k: int| 0 <= k < c ==> #[trigger] as_i32@[k] == logits@[k],
    {
        as_i32[c] = logits[c] as i32;
    }
    assert(as_i32@ =~= widened(logits@));
    let (top, _) = argmax(&as_i32);
    proof {
        lemma_best_is_unique(
            as_i32@,
            NUM_CLASSES as int,
            -1,
            top as int,
            class_of(logits@) as int,
        );
    }
    top
}

/// The greatest distance between two inferences' logits, class by class.
pub fn logit_maxdiff(nn: &Logits, want: &Logits) -> (maxdiff: i32)
    ensures
        is_maxdiff(nn@, want@, maxdiff),
        maxdiff == maxdiff_of(nn@, want@),
{
    let mut maxdiff: i32 = 0;
    let ghost mut at: int = 0;
    for c in 0..NUM_CLASSES
        invariant
            0 <= maxdiff,
            0 <= at < NUM_CLASSES,
            forall|k: int| 0 <= k < c ==> #[trigger] distance(nn@[k], want@[k]) <= maxdiff,
            c == 0 ==> maxdiff == 0,
            c > 0 ==> distance(nn@[at], want@[at]) == maxdiff,
    {
        let mut diff: i32 = nn[c] as i32 - want[c] as i32;
        if diff < 0 {
            diff = -diff;
        }
        if diff > maxdiff || c == 0 {
            maxdiff = diff;
            proof {
                at = c as int;
            }
        }
    }
    assert(is_maxdiff(nn@, want@, maxdiff));
    maxdiff
}

/// A known clip, the quantized input made of it, and the logits and the class
/// that are expected for it.
pub struct TestVector {
    pub input_q: [i8; FEAT_LEN],
    pub logits: Logits,
    pub label: usize,
    pub pcm: Vec<i16>,
}

impl TestVector {
    /// The label is a class, and the clip has all frames of a window.
    pub open spec fn wf(&self) -> bool {
        &&& self.label < NUM_CLASSES
        &&& (NUM_FRAMES - 1) * FRAME_HOP + FRAME_LEN <= self.pcm@.len()
    }

    /// Whether the self-tests can use the vector.
    pub fn usable(&self) -> (ok: bool)
        ensures
            ok == self.wf(),
    {
        self.label < NUM_CLASSES && (NUM_FRAMES - 1) * FRAME_HOP + FRAME_LEN <= self.pcm.len()
    }
}

/// What the caller has done.
pub enum Trial {
    /// Nothing yet.
    Begun,
    /// The engine gave these logits for the exact input.
    Engine(Logits),
    /// The frame's features, scaled to input steps and rounded, are these.
    Row(Row),
    /// The greatest error of a feature, in thousandths, is this.
    MaxErr(i32),
    /// The engine gave these logits for the device's own features.
    EndToEnd(Logits),
}

/// What the caller has to do, once the lines are logged.
pub enum Next {
    /// Run the engine on this input.
    Infer([i8; FEAT_LEN]),
    /// Compute the features of this frame of the clip, and their greatest error
    /// so far.
    Analyse { f: usize, frame: Frame },
    /// Say what the greatest error is.
    Measure,
    /// Run the engine on this input, which is made of the device's own features.
    InferFeatures([i8; FEAT_LEN]),
    /// Go on to live audio.
    Done,
}

/// One step's outcome.
pub struct Outcome {
    pub lines: Vec<String>,
    pub next: Next,
}

/// Whether `trial` can follow once the rows of `rows` are known: there are as
/// many rows as the clip has frames, and the error is measured over all of them.
pub open spec fn expected(rows: Seq<Row>, trial: Trial) -> bool {
    match trial {
        Trial::Row(_) => rows.len() < NUM_FRAMES,
        Trial::MaxErr(_) => rows.len() == NUM_FRAMES,
        _ => true,
    }
}

/// The rows that are known after `trial`.
pub open spec fn rows_after(rows: Seq<Row>, trial: Trial) -> Seq<Row> {
    match trial {
        Trial::Engine(_) => Seq::empty(),
        Trial::Row(row) => rows.push(row),
        _ => rows,
    }
}

/// What is logged after `trial`.
pub open spec fn logged(test: TestVector, trial: Trial) -> Seq<Seq<char>> {
    match trial {
        Trial::Begun => Seq::empty(),
        Trial::Engine(nn) => seq![
            nn_text(class_of(nn@), test.label, maxdiff_of(nn@, test.logits@)),
            "selftest mfcc: computing"@,
        ],
        Trial::Row(_) => Seq::empty(),
        Trial::MaxErr(millis) => seq![mfcc_text(millis)],
        Trial::EndToEnd(nn) => seq![e2e_text(class_of(nn@), test.label)],
    }
}

/// `next` is what comes after `trial`, which has made the rows `rows` known, for a
/// model whose input has the zero point `zp`.
pub open spec fn comes_next(
    test: TestVector,
    zp: i32,
    rows: Seq<Row>,
    trial: Trial,
    next: Next,
) -> bool {
    match trial {
        Trial::Begun => next == Next::Infer(test.input_q),
        Trial::Engine(_) | Trial::Row(_) => if rows.len() < NUM_FRAMES {
            next matches Next::Analyse { f, frame } && f == rows.len() && frame@ == framed(
                test.pcm@,
                rows.len() as int,
            )
        } else {
            next is Measure
        },
        Trial::MaxErr(_) => next matches Next::InferFeatures(input) && input@ == quantized(
            flattened(rows),
            zp,
        ),
        Trial::EndToEnd(_) => next is Done,
    }
}

/// The self-tests' state: the rows computed so far.
pub struct SelfTest {
    window: Window,
    f: usize,
}

impl SelfTest {
    /// The rows are counted.
    pub closed spec fn wf(&self) -> bool {
        &&& self.window.wf()
        &&& self.f == self.window@.len()
        &&& self.f <= NUM_FRAMES
    }

    /// The rows computed so far.
    pub closed spec fn view(&self) -> Seq<Row> {
        self.window@
    }

    /// Self-tests of which none has run.
    pub fn new() -> (s: SelfTest)
        ensures
            s.wf(),
            s@ == Seq::<Row>::empty(),
    {
        SelfTest { window: Window::new(), f: 0 }
    }

    /// One step, for a model whose input has the zero point `zp`.
    pub fn step(&mut self, test: &TestVector, zp: i32, trial: Trial) -> (outcome: Outcome)
        requires
            old(self).wf(),
            test.wf(),
            expected(old(self)@, trial),
        ensures
            final(self).wf(),
            final(self)@ == rows_after(old(self)@, trial),
            texts(outcome.lines@) == logged(*test, trial),
            comes_next(*test, zp, final(self)@, trial, outcome.next),
    {
        let mut lines: Vec<String> = Vec::new();
        let next = match trial {
            Trial::Begun => Next::Infer(test.input_q),
            Trial::Engine(nn) => {
                let maxdiff: i32 = logit_maxdiff(&nn, &test.logits);
                lines.push(nn_line(top_class(&nn), test.label, maxdiff));
                lines.push("selftest mfcc: computing".to_owned());
                self.window = Window::new();
                self.f = 0;
                Next::Analyse { f: 0, frame: clip_frame(test.pcm.as_slice(), 0) }
            },
            Trial::Row(row) => {
                self.window.push(row);
                self.f = self.f + 1;
                if self.f < NUM_FRAMES {
                    Next::Analyse { f: self.f, frame: clip_frame(test.pcm.as_slice(), self.f) }
                } else {
                    Next::Measure
                }
            },
            Trial::MaxErr(millis) => {
                lines.push(mfcc_line(millis));
                Next::InferFeatures(quantize_features(&self.window.assemble(), zp))
            },
            Trial::EndToEnd(nn) => {
                lines.push(e2e_line(top_class(&nn), test.label));
                Next::Done
            },
        };
        Outcome { lines, next }
    }
}

/// The rows that are known after some trials, starting from none.
pub open spec fn rows_after_all(trials: Seq<Trial>) -> Seq<Row>
    decreases trials.len(),
{
    if trials.len() == 0 {
        Seq::empty()
    } else {
        rows_after(rows_after_all(trials.drop_last()), trials.last())
    }
}

/// The trials up to the last row: the engine's logits, then the clip's rows.
pub open spec fn trials_of(nn: Logits, rows: Seq<Row>) -> Seq<Trial> {
    seq![Trial::Begun, Trial::Engine(nn)] + Seq::new(rows.len(), |i: int| Trial::Row(rows[i]))
}

/// The self-tests ask for the clip's frames one after the other: with the rows of
/// some frames known, the next frame is asked for.
pub proof fn law_self_tests_walk_the_clip(
    test: TestVector,
    zp: i32,
    nn: Logits,
    rows: Seq<Row>,
    next: Next,
)
    requires
        rows.len() < NUM_FRAMES,
        comes_next(test, zp, rows_after_all(trials_of(nn, rows)), trials_of(nn, rows).last(), next),
    ensures
        next matches Next::Analyse { f, frame } && f == rows.len() && frame@ == framed(
            test.pcm@,
            rows.len() as int,
        ),
{
    lemma_rows_are_kept(nn, rows);
}

/// The last self-test runs the engine on the rows of all the clip's frames, in the
/// clip's order, quantized.
pub proof fn law_last_test_takes_the_clips_rows(
    test: TestVector,
    zp: i32,
    nn: Logits,
    rows: Seq<Row>,
    millis: i32,
    next: Next,
)
    requires
        rows.len() == NUM_FRAMES,
        comes_next(test, zp, rows_after_all(trials_of(nn, rows)), Trial::MaxErr(millis), next),
    ensures
        next matches Next::InferFeatures(input) && input@ == quantized(flattened(rows), zp),
{
    lemma_rows_are_kept(nn, rows);
}

proof fn lemma_rows_are_kept(nn: Logits, rows: Seq<Row>)
    ensures
        rows_after_all(trials_of(nn, rows)) == rows,
    decreases rows.len(),
{
    reveal_with_fuel(rows_after_all, 3);
    let trials = trials_of(nn, rows);
    if rows.len() == 0 {
        assert(trials =~= seq![Trial::Begun, Trial::Engine(nn)]);
        assert(trials.drop_last() =~= seq![Trial::Begun]);
    } else {
        lemma_rows_are_kept(nn, rows.drop_last());
        assert(trials.drop_last() =~= trials_of(nn, rows.drop_last()));
        assert(rows.drop_last().push(rows.last()) =~= rows);
    }
}

/// The class that logits speak for has the greatest logit of all twelve, and is the
/// lowest class that has it.
pub proof fn law_class_has_the_greatest_logit(logits: Seq<i8>, c: int)
    requires
        logits.len() == 12,
        0 <= c < 12,
    ensures
        class_of(logits) < 12,
        logits[c] <= logits[class_of(logits) as int],
        c < class_of(logits) ==> logits[c] < logits[class_of(logits) as int],
{
    let i = lemma_best_exists(widened(logits), 12, -1);
    let class = i as usize;
    assert(best(widened(logits), NUM_CLASSES as int, class as int));
    assert(widened(logits)[c] == logits[c]);
    assert(widened(logits)[class_of(logits) as int] == logits[class_of(logits) as int]);
}

/// The greatest distance is one that no class exceeds, either way, and that some
/// class has.
pub proof fn law_maxdiff_bounds_every_class(nn: Seq<i8>, want: Seq<i8>)
    requires
        nn.len() == 12,
        want.len() == 12,
    ensures
        forall|c: int|
            0 <= c < 12 ==> (#[trigger] nn[c]) - want[c] <= maxdiff_of(nn, want) && want[c] - nn[c]
                <= maxdiff_of(nn, want),
        exists|c: int|
            0 <= c < 12 && ((#[trigger] nn[c]) - want[c] == maxdiff_of(nn, want) || want[c] - nn[c]
                == maxdiff_of(nn, want)),
{
    let m = lemma_maxdiff_exists(nn, want, 12);
    assert(is_maxdiff(nn, want, m));
    let maxdiff = maxdiff_of(nn, want);
    assert(is_maxdiff(nn, want, maxdiff));
    assert forall|c: int| 0 <= c < 12 implies (#[trigger] nn[c]) - want[c] <= maxdiff && want[c]
        - nn[c] <= maxdiff by {
        assert(distance(nn[c], want[c]) <= maxdiff);
    }
    let c = choose|c: int| 0 <= c < 12 && #[trigger] distance(nn[c], want[c]) == maxdiff;
    assert(nn[c] - want[c] == maxdiff || want[c] - nn[c] == maxdiff);
}

/// The greatest distance is zero exactly when all logits are the expected ones.
pub proof fn law_no_difference_means_equal(nn: Seq<i8>, want: Seq<i8>)
    requires
        nn.len() == 12,
        want.len() == 12,
    ensures
        maxdiff_of(nn, want) == 0 <==> nn == want,
        maxdiff_of(nn, want) == maxdiff_of(want, nn),
{
    law_maxdiff_bounds_every_class(nn, want);
    law_maxdiff_bounds_every_class(want, nn);
    if maxdiff_of(nn, want) == 0 {
        assert forall|c: int| 0 <= c < 12 implies nn[c] == want[c] by {
            assert(nn[c] - want[c] <= 0);
        }
        assert(nn =~= want);
    }
    let a = choose|c: int|
        0 <= c < 12 && ((#[trigger] nn[c]) - want[c] == maxdiff_of(nn, want) || want[c] - nn[c]
            == maxdiff_of(nn, want));
    let b = choose|c: int|
        0 <= c < 12 && ((#[trigger] want[c]) - nn[c] == maxdiff_of(want, nn) || nn[c] - want[c]
            == maxdiff_of(want, nn));
    assert(want[a] - nn[a] <= maxdiff_of(want, nn) && nn[a] - want[a] <= maxdiff_of(want, nn));
    assert(nn[b] - want[b] <= maxdiff_of(nn, want) && want[b] - nn[b] <= maxdiff_of(nn, want));
}

proof fn lemma_maxdiff_exists(nn: Seq<i8>, want: Seq<i8>, n: int) -> (maxdiff: i32)
    requires
        1 <= n <= 12,
    ensures
        forall|c: int| 0 <= c < n ==> #[trigger] distance(nn[c], want[c]) <= maxdiff,
        exists|c: int| 0 <= c < n && #[trigger] distance(nn[c], want[c]) == maxdiff,
    decreases n,
{
    let last = distance(nn[n - 1], want[n - 1]) as i32;
    if n == 1 {
        last
    } else {
        let before = lemma_maxdiff_exists(nn, want, n - 1);
        if last > before {
            last
        } else {
            before
        }
    }
}

/// The first test runs the engine on the vector's own input.
pub proof fn law_first_test_takes_the_vectors_input(
    test: TestVector,
    zp: i32,
    rows: Seq<Row>,
    next: Next,
)
    requires
        comes_next(test, zp, rows, Trial::Begun, next),
    ensures
        next matches Next::Infer(input) && input == test.input_q,
{
}

/// The second test goes through the clip frame by frame: with the rows of the first
/// `n` frames known, the caller is asked for that of the 480 samples from sample
/// `320 * n` on, until it has all 49.
pub proof fn law_second_test_asks_for_the_next_samples(
    test: TestVector,
    zp: i32,
    rows: Seq<Row>,
    row: Row,
    nn: Logits,
    next: Next,
    i: int,
)
    requires
        test.wf(),
        rows.len() <= 49,
        0 <= i < 480,
        comes_next(test, zp, rows, Trial::Row(row), next) || (rows.len() == 0 && comes_next(
            test,
            zp,
            rows,
            Trial::Engine(nn),
            next,
        )),
    ensures
        rows.len() < 49 ==> (next matches Next::Analyse { f, frame } && f == rows.len()
            && frame@[i] == test.pcm@[320 * rows.len() + i]),
        rows.len() == 49 ==> next is Measure,
{
}

/// The third test runs the engine on the 49 rows, one after the other, each
/// coefficient shifted by the zero point and limited to a signed byte.
pub proof fn law_third_test_takes_the_rows(
    test: TestVector,
    zp: i32,
    rows: Seq<Row>,
    millis: i32,
    next: Next,
    f: int,
    j: int,
)
    requires
        rows.len() == 49,
        0 <= f < 49,
        0 <= j < 10,
        comes_next(test, zp, rows, Trial::MaxErr(millis), next),
    ensures
        next matches Next::InferFeatures(input) && {
            let x = rows[f]@[j] + zp;
            &&& -128 <= x <= 127 ==> input@[10 * f + j] == x
            &&& x < -128 ==> input@[10 * f + j] == -128
            &&& x > 127 ==> input@[10 * f + j] == 127
        },
{
    law_rows_lie_one_after_the_other(rows, f, j);
    law_features_are_shifted_and_clamped(flattened(rows), zp, 10 * f + j);
}

/// The rows are kept in the order in which they come, and the first test starts them
/// afresh. Nothing follows the third test.
pub proof fn law_rows_are_kept_in_order(rows: Seq<Row>, row: Row, nn: Logits, millis: i32)
    ensures
        rows_after(rows, Trial::Begun) == rows,
        rows_after(rows, Trial::Engine(nn)).len() == 0,
        rows_after(rows, Trial::Row(row)) == rows.push(row),
        rows_after(rows, Trial::MaxErr(millis)) == rows,
        rows_after(rows, Trial::EndToEnd(nn)) == rows,
        forall|test: TestVector, zp: i32, next: Next|
            #![trigger comes_next(test, zp, rows, Trial::EndToEnd(nn), next)]
            comes_next(test, zp, rows, Trial::EndToEnd(nn), next) ==> next is Done,
{
}

/// What the self-tests log, for the class `c` with the greatest logit and the greatest
/// distance `d` from the expected logits.
pub proof fn law_self_tests_log_their_results(
    test: TestVector,
    nn: Logits,
    row: Row,
    millis: i32,
    c: usize,
    d: i32,
)
    requires
        c < 12,
        forall|j: int| 0 <= j < 12 ==> #[trigger] nn@[j] <= nn@[c as int],
        forall|j: int| 0 <= j < c ==> #[trigger] nn@[j] < nn@[c as int],
        forall|j: int|
            0 <= j < 12 ==> (#[trigger] nn@[j]) - test.logits@[j] <= d && test.logits@[j] - nn@[j]
                <= d,
        exists|j: int|
            0 <= j < 12 && ((#[trigger] nn@[j]) - test.logits@[j] == d || test.logits@[j] - nn@[j]
                == d),
    ensures
        logged(test, Trial::Begun).len() == 0,
        logged(test, Trial::Engine(nn)) == seq![
            "selftest nn: argmax="@ + label_of(c) + " want="@ + label_of(test.label)
                + " logit-maxdiff="@ + decimal(d as int),
            "selftest mfcc: computing"@,
        ],
        logged(test, Trial::Row(row)).len() == 0,
        logged(test, Trial::MaxErr(millis)) == seq![
            "selftest mfcc: maxerr="@ + decimal(millis as int) + "e-3"@,
        ],
        logged(test, Trial::EndToEnd(nn)) == seq![
            "selftest e2e: argmax="@ + label_of(c) + " want="@ + label_of(test.label),
        ],
{
    let class = class_of(nn@);
    law_class_has_the_greatest_logit(nn@, c as int);
    assert(nn@[class as int] <= nn@[c as int]);
    if class < c {
        assert(nn@[class as int] < nn@[c as int]);
    }
    law_maxdiff_bounds_every_class(nn@, test.logits@);
    let m = maxdiff_of(nn@, test.logits@);
    let a = choose|j: int|
        0 <= j < 12 && ((#[trigger] nn@[j]) - test.logits@[j] == d || test.logits@[j] - nn@[j] == d);
    let b = choose|j: int|
        0 <= j < 12 && ((#[trigger] nn@[j]) - test.logits@[j] == m || test.logits@[j] - nn@[j] == m);
    assert(nn@[a] - test.logits@[a] <= m);
    assert(nn@[b] - test.logits@[b] <= d);
}

/// A vector is usable exactly when its label is one of twelve classes and its clip
/// has the samples of 49 frames. Rows are expected until there are 49, and the error
/// then.
pub proof fn law_vectors_have_a_class_and_a_whole_clip(
    test: TestVector,
    rows: Seq<Row>,
    row: Row,
    millis: i32,
)
    ensures
        test.wf() <==> test.label < 12 && test.pcm@.len() >= 48 * 320 + 480,
        expected(rows, Trial::Row(row)) <==> rows.len() < 49,
        expected(rows, Trial::MaxErr(millis)) <==> rows.len() == 49,
{
}

} // verus!
