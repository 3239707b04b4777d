//! The keyword spotter's boot, as steps between the work that needs the device, and
//! what it logs.
//!
//! The caller brings the engine up, validates the model, does the self-tests' work,
//! starts the microphone and logs; each step takes what came of that and says what
//! is next.

use vstd::prelude::*;

use crate::kws::history::Logits;
use crate::kws::report::{
    axon_line, axon_text, e2e_text, label_of, mfcc_text, mic_line, mic_text, model_line, model_text,
    nn_text, texts,
};
use crate::kws::selftest::{
    class_of, comes_next, expected, logged, maxdiff_of, rows_after, Next, Outcome, SelfTest,
    TestVector, Trial,
};
use crate::kws::window::{Row, NUM_FRAMES};
use crate::mic::line_of;
use crate::text::{decimal, decimal_nat};

verus! {

/// A point that the image reaches at boot.
#[derive(Clone, Copy, PartialEq, Eq, Structural, Debug)]
pub enum Milestone {
    /// It runs.
    Boot,
    /// There is no model to run; nothing more happens.
    NoModel,
    /// It is about to start the microphone.
    StartingPdm,
    /// It is about to enter the detection loop.
    Listening,
}

/// What the log line about a milestone says.
pub open spec fn milestone_text(milestone: Milestone) -> Seq<char> {
    match milestone {
        Milestone::Boot => "kws: boot"@,
        Milestone::NoModel => "kws: no model linked; idle"@,
        Milestone::StartingPdm => "kws: starting pdm"@,
        Milestone::Listening => "kws: listening"@,
    }
}

/// The log line about a milestone.
pub fn milestone_line(milestone: Milestone) -> (text: &'static str)
    ensures
        text@ == milestone_text(milestone),
{
    match milestone {
        Milestone::Boot => "kws: boot",
        Milestone::NoModel => "kws: no model linked; idle",
        Milestone::StartingPdm => "kws: starting pdm",
        Milestone::Listening => "kws: listening",
    }
}

/// The size of the log channel's buffer in bytes. The channel holds one byte
/// less.
pub const LOG_BUFFER: usize = 2048;

/// What the caller has done.
pub enum BootEvent {
    /// Nothing yet.
    Reset,
    /// The engine was brought up, with this code.
    AxonUp(i32),
    /// The model was validated, with this code.
    Validated(i32),
    /// What the self-tests asked for is done.
    Tried(Trial),
    /// The microphone was started and its data line was probed: it was this often
    /// high and low.
    Probed { high: u32, low: u32 },
}

/// What the caller has to do, once the lines are logged.
pub enum BootNext {
    /// Bring the engine up.
    InitAxon,
    /// Validate the model.
    Validate,
    /// Do this for the self-tests.
    Test(Next),
    /// Start the microphone, then probe its data line.
    StartPdm,
    /// Enter the detection loop.
    Listen,
    /// Idle for good.
    Idle,
}

/// One step's outcome.
pub struct BootOutcome {
    pub lines: Vec<String>,
    pub next: BootNext,
}

/// How far the boot has come: what it waits for.
#[derive(Clone, Copy, PartialEq, Eq, Structural, Debug)]
pub enum BootPhase {
    Off,
    Axon,
    Model,
    Engine,
    Rows,
    MaxErr,
    EndToEnd,
    Microphone,
    Over,
}

/// What an image is built with: the zero point of its model's input, if it has a
/// model, and the self-tests' vector, if it has one.
pub struct Plan {
    pub model: Option<i32>,
    pub test: Option<TestVector>,
}

/// How far the boot has come, and the rows that the self-tests have.
#[verifier::ext_equal]
pub struct BootState {
    pub phase: BootPhase,
    pub rows: Seq<Row>,
}

/// Whether `event` is what a boot in `phase` waits for.
pub open spec fn awaited(phase: BootPhase, event: BootEvent) -> bool {
    match event {
        BootEvent::Reset => phase == BootPhase::Off,
        BootEvent::AxonUp(_) => phase == BootPhase::Axon,
        BootEvent::Validated(_) => phase == BootPhase::Model,
        BootEvent::Tried(Trial::Begun) => false,
        BootEvent::Tried(Trial::Engine(_)) => phase == BootPhase::Engine,
        BootEvent::Tried(Trial::Row(_)) => phase == BootPhase::Rows,
        BootEvent::Tried(Trial::MaxErr(_)) => phase == BootPhase::MaxErr,
        BootEvent::Tried(Trial::EndToEnd(_)) => phase == BootPhase::EndToEnd,
        BootEvent::Probed { .. } => phase == BootPhase::Microphone,
    }
}

/// The rows that the self-tests have after `event`.
pub open spec fn boot_rows(rows: Seq<Row>, event: BootEvent) -> Seq<Row> {
    match event {
        BootEvent::Tried(trial) => rows_after(rows, trial),
        _ => rows,
    }
}

/// What a boot waits for after `event`, with which the self-tests have `rows`.
pub open spec fn boot_phase(plan: Plan, rows: Seq<Row>, event: BootEvent) -> BootPhase {
    match event {
        BootEvent::Reset => BootPhase::Axon,
        BootEvent::AxonUp(_) => if plan.model is Some {
            BootPhase::Model
        } else {
            BootPhase::Over
        },
        BootEvent::Validated(_) => if plan.test is Some {
            BootPhase::Engine
        } else {
            BootPhase::Microphone
        },
        BootEvent::Tried(Trial::Begun) => BootPhase::Engine,
        BootEvent::Tried(Trial::Engine(_)) | BootEvent::Tried(Trial::Row(_)) => if rows.len()
            < NUM_FRAMES {
            BootPhase::Rows
        } else {
            BootPhase::MaxErr
        },
        BootEvent::Tried(Trial::MaxErr(_)) => BootPhase::EndToEnd,
        BootEvent::Tried(Trial::EndToEnd(_)) => BootPhase::Microphone,
        BootEvent::Probed { .. } => BootPhase::Over,
    }
}

/// The state after `event`.
pub open spec fn after_boot_event(plan: Plan, state: BootState, event: BootEvent) -> BootState {
    let rows = boot_rows(state.rows, event);
    BootState { phase: boot_phase(plan, rows, event), rows }
}

/// What is logged after `event`.
pub open spec fn boot_lines(plan: Plan, event: BootEvent) -> Seq<Seq<char>> {
    match event {
        BootEvent::Reset => seq![milestone_text(Milestone::Boot)],
        BootEvent::AxonUp(rc) => if plan.model is Some {
            seq![axon_text(rc)]
        } else {
            seq![axon_text(rc), milestone_text(Milestone::NoModel)]
        },
        BootEvent::Validated(rc) => if plan.test is Some {
            seq![model_text(rc)]
        } else {
            seq![model_text(rc), milestone_text(Milestone::StartingPdm)]
        },
        BootEvent::Tried(trial) => logged(plan.test->0, trial) + if trial is EndToEnd {
            seq![milestone_text(Milestone::StartingPdm)]
        } else {
            Seq::empty()
        },
        BootEvent::Probed { high, low } => seq![
            mic_text(line_of(high, low)),
            milestone_text(Milestone::Listening),
        ],
    }
}

/// `next` is what comes after `event`, with which the self-tests have `rows`.
pub open spec fn boot_next(plan: Plan, rows: Seq<Row>, event: BootEvent, next: BootNext) -> bool {
    match event {
        BootEvent::Reset => next is InitAxon,
        BootEvent::AxonUp(_) => if plan.model is Some {
            next is Validate
        } else {
            next is Idle
        },
        BootEvent::Validated(_) => if plan.test is Some {
            next matches BootNext::Test(n) && comes_next(
                plan.test->0,
                plan.model->0,
                rows,
                Trial::Begun,
                n,
            )
        } else {
            next is StartPdm
        },
        BootEvent::Tried(trial) => if trial is EndToEnd {
            next is StartPdm
        } else {
            next matches BootNext::Test(n) && comes_next(
                plan.test->0,
                plan.model->0,
                rows,
                trial,
                n,
            )
        },
        BootEvent::Probed { .. } => next is Listen,
    }
}

/// A boot.
pub struct Boot {
    plan: Plan,
    tests: SelfTest,
    phase: BootPhase,
}

impl Boot {
    /// The self-tests only run with a model and a vector, and ask for as many rows
    /// as the clip has frames.
    pub closed spec fn wf(&self) -> bool {
        &&& self.tests.wf()
        &&& self.plan.test matches Some(test) ==> test.wf()
        &&& match self.phase {
            BootPhase::Off | BootPhase::Axon | BootPhase::Over => true,
            BootPhase::Model | BootPhase::Microphone => self.plan.model is Some,
            BootPhase::Engine | BootPhase::EndToEnd => self.plan.model is Some
                && self.plan.test is Some,
            BootPhase::Rows => self.plan.model is Some && self.plan.test is Some
                && self.tests@.len() < NUM_FRAMES,
            BootPhase::MaxErr => self.plan.model is Some && self.plan.test is Some
                && self.tests@.len() == NUM_FRAMES,
        }
    }

    /// What the image is built with.
    pub closed spec fn plan(&self) -> Plan {
        self.plan
    }

    /// How far the boot has come.
    pub closed spec fn view(&self) -> BootState {
        BootState { phase: self.phase, rows: self.tests@ }
    }

    /// A boot that has not begun.
    pub fn new(plan: Plan) -> (boot: Boot)
        requires
            plan.test matches Some(test) ==> test.wf(),
        ensures
            boot.wf(),
            boot.plan() == plan,
            boot@ == at_reset(),
    {
        Boot { plan, tests: SelfTest::new(), phase: BootPhase::Off }
    }

    /// Whether the boot waits for this event.
    pub fn awaits(&self, event: &BootEvent) -> (awaits: bool)
        ensures
            awaits == awaited(self@.phase, *event),
    {
        match event {
            BootEvent::Reset => self.phase == BootPhase::Off,
            BootEvent::AxonUp(_) => self.phase == BootPhase::Axon,
            BootEvent::Validated(_) => self.phase == BootPhase::Model,
            BootEvent::Tried(trial) => match trial {
                Trial::Begun => false,
                Trial::Engine(_) => self.phase == BootPhase::Engine,
                Trial::Row(_) => self.phase == BootPhase::Rows,
                Trial::MaxErr(_) => self.phase == BootPhase::MaxErr,
                Trial::EndToEnd(_) => self.phase == BootPhase::EndToEnd,
            },
            BootEvent::Probed { .. } => self.phase == BootPhase::Microphone,
        }
    }

    /// One step.
    pub fn step(&mut self, event: BootEvent) -> (outcome: BootOutcome)
        requires
            old(self).wf(),
            awaited(old(self)@.phase, event),
        ensures
            final(self).wf(),
            final(self).plan() == old(self).plan(),
            final(self)@ == after_boot_event(old(self).plan(), old(self)@, event),
            texts(outcome.lines@) == boot_lines(old(self).plan(), event),
            boot_next(old(self).plan(), final(self)@.rows, event, outcome.next),
    {
        match event {
            BootEvent::Reset => {
                self.phase = BootPhase::Axon;
                let mut lines: Vec<String> = Vec::new();
                lines.push(milestone_line(Milestone::Boot).to_owned());
                BootOutcome { lines, next: BootNext::InitAxon }
            },
            BootEvent::AxonUp(rc) => {
                let mut lines: Vec<String> = Vec::new();
                lines.push(axon_line(rc));
                if self.plan.model.is_some() {
                    self.phase = BootPhase::Model;
                    BootOutcome { lines, next: BootNext::Validate }
                } else {
                    self.phase = BootPhase::Over;
                    lines.push(milestone_line(Milestone::NoModel).to_owned());
                    BootOutcome { lines, next: BootNext::Idle }
                }
            },
            BootEvent::Validated(rc) => {
                let mut lines: Vec<String> = Vec::new();
                lines.push(model_line(rc));
                if self.plan.test.is_some() {
                    self.phase = BootPhase::Engine;
                    let outcome = self.test_step(Trial::Begun);
                    BootOutcome { lines, next: BootNext::Test(outcome.next) }
                } else {
                    self.phase = BootPhase::Microphone;
                    lines.push(milestone_line(Milestone::StartingPdm).to_owned());
                    BootOutcome { lines, next: BootNext::StartPdm }
                }
            },
            BootEvent::Tried(trial) => {
                let outcome = self.test_step(trial);
                let mut lines: Vec<String> = outcome.lines;
                match outcome.next {
                    Next::Infer(_) => {
                        self.phase = BootPhase::Engine;
                    },
                    Next::Analyse { .. } => {
                        self.phase = BootPhase::Rows;
                    },
                    Next::Measure => {
                        self.phase = BootPhase::MaxErr;
                    },
                    Next::InferFeatures(_) => {
                        self.phase = BootPhase::EndToEnd;
                    },
                    Next::Done => {
                        self.phase = BootPhase::Microphone;
                        lines.push(milestone_line(Milestone::StartingPdm).to_owned());
                        return BootOutcome { lines, next: BootNext::StartPdm };
                    },
                }
                BootOutcome { lines, next: BootNext::Test(outcome.next) }
            },
            BootEvent::Probed { high, low } => {
                self.phase = BootPhase::Over;
                let mut lines: Vec<String> = Vec::new();
                lines.push(mic_line(high, low).to_owned());
                lines.push(milestone_line(Milestone::Listening).to_owned());
                BootOutcome { lines, next: BootNext::Listen }
            },
        }
    }

    /// One step of the self-tests.
    fn test_step(&mut self, trial: Trial) -> (outcome: Outcome)
        requires
            old(self).tests.wf(),
            old(self).plan.model is Some,
            old(self).plan.test matches Some(test) && test.wf(),
            expected(old(self).tests@, trial),
        ensures
            final(self).tests.wf(),
            final(self).plan == old(self).plan,
            final(self).phase == old(self).phase,
            final(self).tests@ == rows_after(old(self).tests@, trial),
            texts(outcome.lines@) == logged(old(self).plan.test->0, trial),
            comes_next(
                old(self).plan.test->0,
                old(self).plan.model->0,
                final(self).tests@,
                trial,
                outcome.next,
            ),
    {
        let zp: i32 = self.plan.model.unwrap();
        let test: &TestVector = self.plan.test.as_ref().unwrap();
        self.tests.step(test, zp, trial)
    }
}

/// The state before the first event.
pub open spec fn at_reset() -> BootState {
    BootState { phase: BootPhase::Off, rows: Seq::empty() }
}

/// The state after some events.
pub open spec fn after_boot(plan: Plan, events: Seq<BootEvent>) -> BootState
    decreases events.len(),
{
    if events.len() == 0 {
        at_reset()
    } else {
        after_boot_event(plan, after_boot(plan, events.drop_last()), events.last())
    }
}

/// Whether each event is the one that the boot waited for.
pub open spec fn is_boot(plan: Plan, events: Seq<BootEvent>) -> bool
    decreases events.len(),
{
    events.len() > 0 ==> is_boot(plan, events.drop_last()) && awaited(
        after_boot(plan, events.drop_last()).phase,
        events.last(),
    )
}

/// All lines that are logged with some events.
pub open spec fn log_of(plan: Plan, events: Seq<BootEvent>) -> Seq<Seq<char>>
    decreases events.len(),
{
    if events.len() == 0 {
        Seq::empty()
    } else {
        log_of(plan, events.drop_last()) + boot_lines(plan, events.last())
    }
}

/// What a boot with a model and a test vector finds.
pub struct Findings {
    pub axon_rc: i32,
    pub model_rc: i32,
    pub nn: Logits,
    pub rows: Seq<Row>,
    pub maxerr_millis: i32,
    pub e2e: Logits,
    pub high: u32,
    pub low: u32,
}

/// The events of such a boot up to the first `n` rows.
pub open spec fn events_to_row(found: Findings, n: nat) -> Seq<BootEvent> {
    seq![
        BootEvent::Reset,
        BootEvent::AxonUp(found.axon_rc),
        BootEvent::Validated(found.model_rc),
        BootEvent::Tried(Trial::Engine(found.nn)),
    ] + Seq::new(n, |i: int| BootEvent::Tried(Trial::Row(found.rows[i])))
}

/// The events of such a boot up to the detection loop.
pub open spec fn events_of(found: Findings) -> Seq<BootEvent> {
    events_to_row(found, NUM_FRAMES as nat).push(
        BootEvent::Tried(Trial::MaxErr(found.maxerr_millis)),
    ).push(BootEvent::Tried(Trial::EndToEnd(found.e2e))).push(
        BootEvent::Probed { high: found.high, low: found.low },
    )
}

/// The lines logged from reset until the detection loop is entered.
pub open spec fn boot_log(test: TestVector, found: Findings) -> Seq<Seq<char>> {
    seq![
        milestone_text(Milestone::Boot),
        axon_text(found.axon_rc),
        model_text(found.model_rc),
        nn_text(class_of(found.nn@), test.label, maxdiff_of(found.nn@, test.logits@)),
        "selftest mfcc: computing"@,
        mfcc_text(found.maxerr_millis),
        e2e_text(class_of(found.e2e@), test.label),
        milestone_text(Milestone::StartingPdm),
        mic_text(line_of(found.high, found.low)),
        milestone_text(Milestone::Listening),
    ]
}

/// With a model and a test vector, the boot goes through the engine, the model, the
/// three self-tests and the microphone, and logs its ten lines in that order.
pub proof fn law_boot_logs_in_order(plan: Plan, found: Findings)
    requires
        plan.model is Some,
        plan.test is Some,
        found.rows.len() == NUM_FRAMES,
    ensures
        is_boot(plan, events_of(found)),
        after_boot(plan, events_of(found)).phase == BootPhase::Over,
        log_of(plan, events_of(found)) == boot_log(plan.test->0, found),
{
    lemma_boot_to_row(plan, found, NUM_FRAMES as nat);
    let to_rows = events_to_row(found, NUM_FRAMES as nat);
    let max_err = BootEvent::Tried(Trial::MaxErr(found.maxerr_millis));
    let end_to_end = BootEvent::Tried(Trial::EndToEnd(found.e2e));
    lemma_one_more(plan, to_rows, max_err);
    lemma_one_more(plan, to_rows.push(max_err), end_to_end);
    lemma_one_more(
        plan,
        to_rows.push(max_err).push(end_to_end),
        BootEvent::Probed { high: found.high, low: found.low },
    );
}

/// The events of a boot with a model but no test vector.
pub open spec fn events_untested(axon_rc: i32, model_rc: i32, high: u32, low: u32) -> Seq<
    BootEvent,
> {
    seq![
        BootEvent::Reset,
        BootEvent::AxonUp(axon_rc),
        BootEvent::Validated(model_rc),
        BootEvent::Probed { high, low },
    ]
}

/// Without a test vector the boot goes from the model to the microphone, and logs
/// the same lines but those of the self-tests.
pub proof fn law_boot_without_test_vector(
    plan: Plan,
    axon_rc: i32,
    model_rc: i32,
    high: u32,
    low: u32,
)
    requires
        plan.model is Some,
        plan.test is None,
    ensures
        is_boot(plan, events_untested(axon_rc, model_rc, high, low)),
        after_boot(plan, events_untested(axon_rc, model_rc, high, low)).phase == BootPhase::Over,
        log_of(plan, events_untested(axon_rc, model_rc, high, low)) == seq![
            milestone_text(Milestone::Boot),
            axon_text(axon_rc),
            model_text(model_rc),
            milestone_text(Milestone::StartingPdm),
            mic_text(line_of(high, low)),
            milestone_text(Milestone::Listening),
        ],
{
    let reset = Seq::<BootEvent>::empty().push(BootEvent::Reset);
    let axon = BootEvent::AxonUp(axon_rc);
    let model = BootEvent::Validated(model_rc);
    let probed = BootEvent::Probed { high, low };
    lemma_one_more(plan, Seq::empty(), BootEvent::Reset);
    lemma_one_more(plan, reset, axon);
    lemma_one_more(plan, reset.push(axon), model);
    lemma_one_more(plan, reset.push(axon).push(model), probed);
    assert(events_untested(axon_rc, model_rc, high, low) =~= reset.push(axon).push(model).push(
        probed,
    ));
}

/// Without a model the boot ends once the engine is up, and says so.
pub proof fn law_boot_without_model(plan: Plan, axon_rc: i32)
    requires
        plan.model is None,
    ensures
        is_boot(plan, seq![BootEvent::Reset, BootEvent::AxonUp(axon_rc)]),
        after_boot(plan, seq![BootEvent::Reset, BootEvent::AxonUp(axon_rc)]).phase
            == BootPhase::Over,
        log_of(plan, seq![BootEvent::Reset, BootEvent::AxonUp(axon_rc)]) == seq![
            milestone_text(Milestone::Boot),
            axon_text(axon_rc),
            milestone_text(Milestone::NoModel),
        ],
{
    let reset = Seq::<BootEvent>::empty().push(BootEvent::Reset);
    let axon = BootEvent::AxonUp(axon_rc);
    lemma_one_more(plan, Seq::empty(), BootEvent::Reset);
    lemma_one_more(plan, reset, axon);
    assert(seq![BootEvent::Reset, BootEvent::AxonUp(axon_rc)] =~= reset.push(axon));
}

proof fn lemma_one_more(plan: Plan, events: Seq<BootEvent>, event: BootEvent)
    ensures
        after_boot(plan, events.push(event)) == after_boot_event(
            plan,
            after_boot(plan, events),
            event,
        ),
        is_boot(plan, events.push(event)) <==> is_boot(plan, events) && awaited(
            after_boot(plan, events).phase,
            event,
        ),
        log_of(plan, events.push(event)) == log_of(plan, events) + boot_lines(plan, event),
{
    assert(events.push(event).drop_last() =~= events);
}

proof fn lemma_boot_to_row(plan: Plan, found: Findings, n: nat)
    requires
        plan.model is Some,
        plan.test is Some,
        found.rows.len() == NUM_FRAMES,
        n <= NUM_FRAMES,
    ensures
        is_boot(plan, events_to_row(found, n)),
        after_boot(plan, events_to_row(found, n)).rows == found.rows.take(n as int),
        after_boot(plan, events_to_row(found, n)).phase == if n < NUM_FRAMES {
            BootPhase::Rows
        } else {
            BootPhase::MaxErr
        },
        log_of(plan, events_to_row(found, n)) == boot_log(plan.test->0, found).take(5),
    decreases n,
{
    let events = events_to_row(found, n);
    if n == 0 {
        let none = Seq::<BootEvent>::empty();
        let axon = BootEvent::AxonUp(found.axon_rc);
        let model = BootEvent::Validated(found.model_rc);
        let engine = BootEvent::Tried(Trial::Engine(found.nn));
        lemma_one_more(plan, none, BootEvent::Reset);
        lemma_one_more(plan, none.push(BootEvent::Reset), axon);
        lemma_one_more(plan, none.push(BootEvent::Reset).push(axon), model);
        lemma_one_more(plan, none.push(BootEvent::Reset).push(axon).push(model), engine);
        assert(events =~= none.push(BootEvent::Reset).push(axon).push(model).push(engine));
    } else {
        let row = BootEvent::Tried(Trial::Row(found.rows[n - 1]));
        lemma_boot_to_row(plan, found, (n - 1) as nat);
        lemma_one_more(plan, events_to_row(found, (n - 1) as nat), row);
        assert(events =~= events_to_row(found, (n - 1) as nat).push(row));
    }
}

/// How many characters lines take, each with its line end.
pub open spec fn total_len(lines: Seq<Seq<char>>) -> nat
    decreases lines.len(),
{
    if lines.len() == 0 {
        0
    } else {
        total_len(lines.drop_last()) + lines.last().len() + 1
    }
}

/// However far a boot gets, and with or without a model or a test vector, the log
/// channel holds all that it logs, whose characters take a byte each: a host that
/// attaches late still sees the self-tests' results.
pub proof fn law_boot_log_fits(plan: Plan, events: Seq<BootEvent>)
    requires
        is_boot(plan, events),
    ensures
        total_len(log_of(plan, events)) < LOG_BUFFER,
{
    lemma_boot_log(plan, events);
    lemma_total_len(log_of(plan, events), 100);
    let n = log_of(plan, events).len();
    assert(n * (100nat + 1) <= 1010) by (nonlinear_arith)
        requires
            n <= 10,
    ;
}

/// How many lines can follow.
spec fn lines_left(phase: BootPhase) -> int {
    match phase {
        BootPhase::Off => 10,
        BootPhase::Axon => 9,
        BootPhase::Model => 8,
        BootPhase::Engine => 7,
        BootPhase::Rows | BootPhase::MaxErr => 5,
        BootPhase::EndToEnd => 4,
        BootPhase::Microphone => 2,
        BootPhase::Over => 0,
    }
}

proof fn lemma_boot_log(plan: Plan, events: Seq<BootEvent>)
    requires
        is_boot(plan, events),
    ensures
        log_of(plan, events).len() + lines_left(after_boot(plan, events).phase) <= 10,
        forall|i: int|
            0 <= i < log_of(plan, events).len() ==> (#[trigger] log_of(plan, events)[i]).len()
                <= 100,
    decreases events.len(),
{
    if events.len() > 0 {
        lemma_boot_log(plan, events.drop_last());
        lemma_boot_lines_are_short(plan, events.last());
    }
}

proof fn lemma_total_len(lines: Seq<Seq<char>>, limit: nat)
    requires
        forall|i: int| 0 <= i < lines.len() ==> (#[trigger] lines[i]).len() <= limit,
    ensures
        total_len(lines) <= lines.len() * (limit + 1),
    decreases lines.len(),
{
    if lines.len() > 0 {
        lemma_total_len(lines.drop_last(), limit);
        assert(lines.len() * (limit + 1) == (lines.len() - 1) * (limit + 1) + (limit + 1))
            by (nonlinear_arith)
            requires
                lines.len() > 0,
        ;
    }
}

proof fn lemma_boot_lines_are_short(plan: Plan, event: BootEvent)
    ensures
        forall|i: int|
            0 <= i < boot_lines(plan, event).len() ==> (#[trigger] boot_lines(plan, event)[i]).len()
                <= 100,
{
    reveal_strlit("kws: boot");
    reveal_strlit("kws: axon init rc=");
    reveal_strlit("kws: no model linked; idle");
    reveal_strlit("kws: model validate rc=");
    reveal_strlit("selftest nn: argmax=");
    reveal_strlit(" want=");
    reveal_strlit(" logit-maxdiff=");
    reveal_strlit("selftest mfcc: computing");
    reveal_strlit("selftest mfcc: maxerr=");
    reveal_strlit("e-3");
    reveal_strlit("selftest e2e: argmax=");
    reveal_strlit("kws: starting pdm");
    reveal_strlit("kws: mic alive (DIN toggling)");
    reveal_strlit("kws: mic DEAD (DIN stuck - check wiring)");
    reveal_strlit("kws: listening");
    match event {
        BootEvent::AxonUp(rc) => lemma_decimal_is_short(rc as int),
        BootEvent::Validated(rc) => lemma_decimal_is_short(rc as int),
        BootEvent::Tried(trial) => {
            let test = plan.test->0;
            lemma_label_is_short(test.label);
            match trial {
                Trial::Engine(nn) => {
                    lemma_label_is_short(class_of(nn@));
                    lemma_decimal_is_short(maxdiff_of(nn@, test.logits@) as int);
                },
                Trial::MaxErr(millis) => lemma_decimal_is_short(millis as int),
                Trial::EndToEnd(nn) => lemma_label_is_short(class_of(nn@)),
                _ => {},
            }
        },
        _ => {},
    }
}

proof fn lemma_label_is_short(class: usize)
    ensures
        label_of(class).len() <= 7,
{
    reveal_strlit("silence");
    reveal_strlit("unknown");
    reveal_strlit("yes");
    reveal_strlit("no");
    reveal_strlit("up");
    reveal_strlit("down");
    reveal_strlit("left");
    reveal_strlit("right");
    reveal_strlit("on");
    reveal_strlit("off");
    reveal_strlit("stop");
    reveal_strlit("go");
}

proof fn lemma_decimal_is_short(x: int)
    requires
        i32::MIN <= x <= i32::MAX,
    ensures
        decimal(x).len() <= 11,
{
    reveal_with_fuel(decimal_nat, 11);
}

/// A boot waits for what it has asked for.
pub proof fn law_boot_waits_for_what_it_asked(
    plan: Plan,
    state: BootState,
    event: BootEvent,
    next: BootNext,
)
    requires
        awaited(state.phase, event),
        state.phase == BootPhase::Rows ==> state.rows.len() < 49,
        boot_next(plan, after_boot_event(plan, state, event).rows, event, next),
    ensures
        ({
            let phase = after_boot_event(plan, state, event).phase;
            &&& next is InitAxon <==> phase == BootPhase::Axon
            &&& next is Validate <==> phase == BootPhase::Model
            &&& next matches BootNext::Test(n) ==> match n {
                Next::Infer(_) => phase == BootPhase::Engine,
                Next::Analyse { .. } => phase == BootPhase::Rows,
                Next::Measure => phase == BootPhase::MaxErr,
                Next::InferFeatures(_) => phase == BootPhase::EndToEnd,
                Next::Done => false,
            }
            &&& next is StartPdm <==> phase == BootPhase::Microphone
            &&& (next is Listen || next is Idle) <==> phase == BootPhase::Over
        }),
{
}

/// Each phase waits for one kind of event.
pub proof fn law_each_phase_waits_for_one_event(
    phase: BootPhase,
    rc: i32,
    nn: Logits,
    row: Row,
    high: u32,
    low: u32,
)
    ensures
        awaited(phase, BootEvent::Reset) <==> phase is Off,
        awaited(phase, BootEvent::AxonUp(rc)) <==> phase is Axon,
        awaited(phase, BootEvent::Validated(rc)) <==> phase is Model,
        !awaited(phase, BootEvent::Tried(Trial::Begun)),
        awaited(phase, BootEvent::Tried(Trial::Engine(nn))) <==> phase is Engine,
        awaited(phase, BootEvent::Tried(Trial::Row(row))) <==> phase is Rows,
        awaited(phase, BootEvent::Tried(Trial::MaxErr(rc))) <==> phase is MaxErr,
        awaited(phase, BootEvent::Tried(Trial::EndToEnd(nn))) <==> phase is EndToEnd,
        awaited(phase, BootEvent::Probed { high, low }) <==> phase is Microphone,
{
}

/// Which way a boot goes: to the model if there is one, through the self-tests if
/// there is a vector, then to the microphone and the detection loop.
pub proof fn law_boot_goes_its_way(
    plan: Plan,
    rows: Seq<Row>,
    rc: i32,
    nn: Logits,
    high: u32,
    low: u32,
    next: BootNext,
)
    ensures
        boot_next(plan, rows, BootEvent::Reset, next) ==> next is InitAxon,
        boot_next(plan, rows, BootEvent::AxonUp(rc), next) ==> if plan.model is Some {
            next is Validate
        } else {
            next is Idle
        },
        boot_next(plan, rows, BootEvent::Validated(rc), next) ==> if plan.test is Some {
            next matches BootNext::Test(Next::Infer(input)) && input == plan.test->0.input_q
        } else {
            next is StartPdm
        },
        boot_next(plan, rows, BootEvent::Tried(Trial::EndToEnd(nn)), next) ==> next is StartPdm,
        boot_next(plan, rows, BootEvent::Probed { high, low }, next) ==> next is Listen,
{
}

/// The self-tests' work is handed through as they ask for it, and their lines as they
/// give them.
pub proof fn law_self_tests_run_within_the_boot(
    plan: Plan,
    rows: Seq<Row>,
    trial: Trial,
    next: BootNext,
)
    requires
        plan.test is Some,
        plan.model is Some,
        !(trial is EndToEnd),
        boot_next(plan, rows, BootEvent::Tried(trial), next),
    ensures
        next matches BootNext::Test(n) && comes_next(plan.test->0, plan.model->0, rows, trial, n),
        boot_lines(plan, BootEvent::Tried(trial)) == logged(plan.test->0, trial),
        boot_rows(rows, BootEvent::Tried(trial)) == rows_after(rows, trial),
{
}

/// What the milestones are called.
pub proof fn law_milestones_in_full()
    ensures
        milestone_text(Milestone::Boot) == "kws: boot"@,
        milestone_text(Milestone::NoModel) == "kws: no model linked; idle"@,
        milestone_text(Milestone::StartingPdm) == "kws: starting pdm"@,
        milestone_text(Milestone::Listening) == "kws: listening"@,
        LOG_BUFFER == 2048,
{
}

/// The boot's log, line by line.
pub proof fn law_boot_log_in_full(test: TestVector, found: Findings)
    ensures
        boot_log(test, found) == seq![
            "kws: boot"@,
            "kws: axon init rc="@ + decimal(found.axon_rc as int),
            "kws: model validate rc="@ + decimal(found.model_rc as int),
            "selftest nn: argmax="@ + label_of(class_of(found.nn@)) + " want="@ + label_of(
                test.label,
            ) + " logit-maxdiff="@ + decimal(maxdiff_of(found.nn@, test.logits@) as int),
            "selftest mfcc: computing"@,
            "selftest mfcc: maxerr="@ + decimal(found.maxerr_millis as int) + "e-3"@,
            "selftest e2e: argmax="@ + label_of(class_of(found.e2e@)) + " want="@ + label_of(
                test.label,
            ),
            "kws: starting pdm"@,
            if found.high > 0 && found.low > 0 {
                "kws: mic alive (DIN toggling)"@
            } else {
                "kws: mic DEAD (DIN stuck - check wiring)"@
            },
            "kws: listening"@,
        ],
{
}

} // verus!
