//! The transcript of an execution: one record of named values per entry.
//!
//! A record is what goes into one line of the transcript file. Numbers,
//! diagnoses and questions are given as values; how they are spelled is the
//! writer's business.

use vstd::prelude::*;

use crate::execution::{Check, Entry, Pause};
use crate::executor::{
    answer_tag, failure_class, failure_code, kind_tag, preview_tag, ExecOutcome, StepFailure,
    StopCause,
};
use crate::number::{Num, Reading};
use crate::plan::{RecoveryPlan, RecoveryStep, RuntimeComputation, Verification};
use crate::prompts::{cause_text, observed_text, pause_code, pause_kind, pause_tag};
use crate::recovery_file::{entry_event, GateEntry};

verus! {

/// A part of the question that is put at a pause.
#[derive(Debug, Clone, Copy, PartialEq, Eq, Structural)]
pub enum Part {
    /// Its diagnosis.
    Diagnosis,
    /// Its detail.
    Detail,
    /// Its deadline, in seconds.
    Deadline,
}

/// A value in a record.
#[derive(Debug)]
pub enum Value {
    /// Text.
    Text(String),
    /// A count, a number of a step or an offset.
    Count(u64),
    /// A number.
    Number(Num),
    /// A truth value.
    Flag(bool),
    /// Nothing.
    Null,
    /// The diagnosis of a warning of the plan, by its place.
    Warning(usize),
    /// The diagnosis of a classified failure.
    Failure(StepFailure),
    /// A part of the question.
    Asked(Part),
}

/// A value with its text as text.
pub enum ValueView {
    /// Text.
    Text(Seq<char>),
    /// A count.
    Count(nat),
    /// A number.
    Number(Num),
    /// A truth value.
    Flag(bool),
    /// Nothing.
    Null,
    /// The diagnosis of a warning.
    Warning(nat),
    /// The diagnosis of a classified failure.
    Failure(StepFailure),
    /// A part of the question.
    Asked(Part),
}

impl View for Value {
    type V = ValueView;

    open spec fn view(&self) -> ValueView {
        match *self {
            Value::Text(s) => ValueView::Text(s@),
            Value::Count(n) => ValueView::Count(n as nat),
            Value::Number(n) => ValueView::Number(n),
            Value::Flag(b) => ValueView::Flag(b),
            Value::Null => ValueView::Null,
            Value::Warning(w) => ValueView::Warning(w as nat),
            Value::Failure(f) => ValueView::Failure(f),
            Value::Asked(p) => ValueView::Asked(p),
        }
    }
}

/// One named value of a record.
#[derive(Debug)]
pub struct Slot {
    /// Its name.
    pub name: &'static str,
    /// The value.
    pub value: Value,
}

/// A record as pairs of name and value.
pub type Record = Seq<(Seq<char>, ValueView)>;

/// Slots as pairs of name and value.
pub open spec fn slots(list: Seq<Slot>) -> Record {
    list.map_values(|s: Slot| (s.name@, s.value@))
}

/// The entries of an execution, in order.
#[derive(Debug)]
pub struct Transcript {
    /// The entries.
    pub entries: Vec<Entry>,
}

impl Transcript {
    /// A transcript without entries.
    pub fn new() -> (r: Self)
        ensures
            r.entries@.len() == 0,
    {
        Transcript { entries: Vec::new() }
    }
}

/// The event that an entry records.
pub open spec fn event_name(entry: Entry) -> Seq<char> {
    match entry {
        Entry::PlanStart => "plan-start"@,
        Entry::PlanComplete => "plan-complete"@,
        Entry::Advisory(_) => "advisory"@,
        Entry::HardRefusal(_) => "hard-refusal"@,
        Entry::OperatorDeclined(_) => "operator-declined"@,
        Entry::ConfirmPause { .. } => "confirm-pause"@,
        Entry::ConfirmAnswer { .. } => "confirm-answer"@,
        Entry::PreviewAnswer { .. } => "confirm-answer"@,
        Entry::ExclusivityLost { .. } => "exclusivity-lost"@,
        Entry::FrameArmed(_) => "frame-armed"@,
        Entry::FrameArmFailed { .. } => "frame-arm-failed"@,
        Entry::StepStart(_) => "step-start"@,
        Entry::StepOk(_) => "step-ok"@,
        Entry::Verify { .. } => "verify"@,
        Entry::Compute { .. } => "compute"@,
        Entry::RecordAccel { machine: false, .. } => "record-accel"@,
        Entry::RecordAccel { machine: true, .. } => "record-machine-accel"@,
        Entry::Send { .. } => "send"@,
        Entry::ResponseOk(_) => "response"@,
        Entry::ResponseError { .. } => "response"@,
        Entry::PreviewReposition { .. } => "preview-reposition"@,
        Entry::PreviewAccept { .. } => "preview-accept"@,
        Entry::PreviewWriteFailed { .. } => "preview-write-failed"@,
        Entry::CleanupSkip { .. } => "cleanup-skip"@,
        Entry::Cleanup { .. } => "cleanup"@,
        Entry::CleanupOk(_) => "cleanup-ok"@,
        Entry::CleanupError { .. } => "cleanup-error"@,
        Entry::Abort(_) => "abort"@,
    }
}

impl Entry {
    /// The event that the entry records.
    pub fn event(&self) -> (r: &'static str)
        ensures
            r@ == event_name(*self),
    {
        match self {
            Entry::PlanStart => "plan-start",
            Entry::PlanComplete => "plan-complete",
            Entry::Advisory(_) => "advisory",
            Entry::HardRefusal(_) => "hard-refusal",
            Entry::OperatorDeclined(_) => "operator-declined",
            Entry::ConfirmPause { .. } => "confirm-pause",
            Entry::ConfirmAnswer { .. } => "confirm-answer",
            Entry::PreviewAnswer { .. } => "confirm-answer",
            Entry::ExclusivityLost { .. } => "exclusivity-lost",
            Entry::FrameArmed(_) => "frame-armed",
            Entry::FrameArmFailed { .. } => "frame-arm-failed",
            Entry::StepStart(_) => "step-start",
            Entry::StepOk(_) => "step-ok",
            Entry::Verify { .. } => "verify",
            Entry::Compute { .. } => "compute",
            Entry::RecordAccel { machine: false, .. } => "record-accel",
            Entry::RecordAccel { machine: true, .. } => "record-machine-accel",
            Entry::Send { .. } => "send",
            Entry::ResponseOk(_) => "response",
            Entry::ResponseError { .. } => "response",
            Entry::PreviewReposition { .. } => "preview-reposition",
            Entry::PreviewAccept { .. } => "preview-accept",
            Entry::PreviewWriteFailed { .. } => "preview-write-failed",
            Entry::CleanupSkip { .. } => "cleanup-skip",
            Entry::Cleanup { .. } => "cleanup",
            Entry::CleanupOk(_) => "cleanup-ok",
            Entry::CleanupError { .. } => "cleanup-error",
            Entry::Abort(_) => "abort",
        }
    }
}

/// The step at place `i`, if there is one.
pub open spec fn step_of(plan: RecoveryPlan, i: int) -> Option<RecoveryStep> {
    if 0 <= i < plan.steps@.len() {
        Some(plan.steps@[i])
    } else {
        None
    }
}

fn step_at(plan: &RecoveryPlan, i: usize) -> (r: Option<&RecoveryStep>)
    ensures
        match r {
            Some(s) => step_of(*plan, i as int) == Some(*s),
            None => step_of(*plan, i as int) is None,
        },
{
    if i < plan.steps.len() {
        Some(&plan.steps[i])
    } else {
        None
    }
}

/// The verification that `check` means, if the step has it.
pub open spec fn check_at(step: RecoveryStep, check: Check) -> Option<Verification> {
    match check {
        Check::Pre(i) => if i < step.pre_verify@.len() {
            Some(step.pre_verify@[i as int])
        } else {
            None
        },
        Check::Post(i) => if i < step.verify@.len() {
            Some(step.verify@[i as int])
        } else {
            None
        },
    }
}

fn find_check<'a>(step: &'a RecoveryStep, check: Check) -> (r: Option<&'a Verification>)
    ensures
        match r {
            Some(v) => check_at(*step, check) == Some(*v),
            None => check_at(*step, check) is None,
        },
{
    match check {
        Check::Pre(i) => if i < step.pre_verify.len() {
            Some(&step.pre_verify[i])
        } else {
            None
        },
        Check::Post(i) => if i < step.verify.len() {
            Some(&step.verify[i])
        } else {
            None
        },
    }
}

/// The code of a question; empty for a warning that the plan does not have.
pub open spec fn asked_code(plan: RecoveryPlan, pause: Pause) -> Seq<char> {
    match pause {
        Pause::Warning(w) => if w < plan.warnings@.len() {
            pause_code(plan, pause)
        } else {
            Seq::empty()
        },
        _ => pause_code(plan, pause),
    }
}

fn ask_code(plan: &RecoveryPlan, pause: Pause) -> (r: String)
    ensures
        r@ == asked_code(*plan, pause),
{
    if let Pause::Warning(w) = pause {
        if w >= plan.warnings.len() {
            return String::new();
        }
    }
    let (_, code) = pause_tag(plan, pause);
    code.to_owned()
}

/// Text in a record.
pub open spec fn text(name: Seq<char>, s: Seq<char>) -> Record {
    seq![(name, ValueView::Text(s))]
}

/// A count in a record.
pub open spec fn count(name: Seq<char>, n: nat) -> Record {
    seq![(name, ValueView::Count(n))]
}

/// A number in a record.
pub open spec fn number(name: Seq<char>, n: Num) -> Record {
    seq![(name, ValueView::Number(n))]
}

/// A number in a record, or nothing in its place.
pub open spec fn maybe(name: Seq<char>, n: Option<Num>) -> Record {
    seq![
        (
            name,
            match n {
                Some(n) => ValueView::Number(n),
                None => ValueView::Null,
            },
        ),
    ]
}

/// The number of a reading in a record, or nothing in its place.
pub open spec fn reading(name: Seq<char>, n: Option<Reading>) -> Record {
    maybe(
        name,
        match n {
            Some(n) => Some(n.num),
            None => None,
        },
    )
}

/// The number of the step at place `i`, if there is one.
pub open spec fn step_slot(plan: RecoveryPlan, i: int) -> Record {
    match step_of(plan, i) {
        Some(step) => count("step"@, step.id as nat),
        None => Seq::empty(),
    }
}

/// The number and the phase of the step at place `i`, if there is one.
pub open spec fn phase_slots(plan: RecoveryPlan, i: int) -> Record {
    match step_of(plan, i) {
        Some(step) => count("step"@, step.id as nat) + text("phase"@, step.phase_name@),
        None => Seq::empty(),
    }
}

/// What a computation records, by what it computes.
pub open spec fn compute_slots(
    compute: Option<RuntimeComputation>,
    trigger: Option<Reading>,
    height: Option<Reading>,
    value: Reading,
) -> Record {
    match compute {
        Some(RuntimeComputation::TrueZ(_)) => reading("trigger_reading"@, trigger) + reading(
            "halt_z"@,
            height,
        ) + number("true_z"@, value.num),
        Some(RuntimeComputation::ParkZ { delta_z, z_max }) => reading("current_z"@, height)
            + number("delta_z"@, delta_z) + maybe("z_max"@, z_max) + number(
            "park_z"@,
            value.num,
        ),
        Some(RuntimeComputation::HoverPlane { target_z, z_max }) => reading("current_z"@, height)
            + number("target_z"@, target_z) + maybe("z_max"@, z_max) + number(
            "hover_plane"@,
            value.num,
        ),
        _ => Seq::empty(),
    }
}

/// What an abort records of its outcome.
pub open spec fn abort_slots(outcome: ExecOutcome) -> Record {
    match outcome {
        ExecOutcome::Aborted { step_id, phase, reason, cause, frame_invalid } => count(
            "step"@,
            step_id as nat,
        ) + text("phase"@, phase@) + text("reason"@, reason@) + text("cause"@, cause_text(cause))
            + (match cause {
            StopCause::CommandFailed { failure, .. } => seq![
                ("failure"@, ValueView::Text(failure_code(failure))),
                ("diagnosis"@, ValueView::Failure(failure)),
            ],
            _ => seq![("failure"@, ValueView::Null), ("diagnosis"@, ValueView::Null)],
        }) + seq![("frame_invalid"@, ValueView::Flag(frame_invalid))],
        ExecOutcome::Completed { .. } => Seq::empty(),
    }
}

/// The resume offset of a stop, if the plan binds it.
pub open spec fn binding_slot(plan: RecoveryPlan, stop: int) -> Record {
    match plan.preview {
        Some(spec) => if 0 <= stop < spec.bindings@.len() {
            count("resume_offset"@, spec.bindings@[stop].tail_offset as nat)
        } else {
            Seq::empty()
        },
        None => Seq::empty(),
    }
}

/// The offset of a stop, if the plan has it.
pub open spec fn stop_slot(plan: RecoveryPlan, stop: int) -> Record {
    match plan.preview {
        Some(spec) => if 0 <= stop < spec.stops@.len() {
            count("offset"@, spec.stops@[stop].offset as nat)
        } else {
            Seq::empty()
        },
        None => Seq::empty(),
    }
}

/// The cleanup command at place `i` of the step at place `step`, if there is one.
pub open spec fn cleanup_slot(plan: RecoveryPlan, step: int, i: int) -> Record {
    match step_of(plan, step) {
        Some(s) => if 0 <= i < s.cleanup_commands@.len() {
            text("command"@, s.cleanup_commands@[i]@)
        } else {
            Seq::empty()
        },
        None => Seq::empty(),
    }
}

/// What an entry records besides its event. `script` is the command that the
/// entry sends, if it sends one; `outcome` is what the execution came to, once
/// it is over.
pub open spec fn slots_of(
    plan: RecoveryPlan,
    entry: Entry,
    script: Seq<char>,
    outcome: Option<ExecOutcome>,
) -> Record {
    match entry {
        Entry::PlanStart => count("steps"@, plan.steps@.len()) + text(
            "resume_file"@,
            plan.resume_file@,
        ) + count("resume_offset"@, plan.resume_offset as nat),
        Entry::PlanComplete => count("steps"@, plan.steps@.len()),
        Entry::Advisory(w) => seq![("diagnosis"@, ValueView::Warning(w as nat))],
        Entry::HardRefusal(w) => seq![("diagnosis"@, ValueView::Warning(w as nat))],
        Entry::OperatorDeclined(step) => step_slot(plan, step as int),
        Entry::ConfirmPause { step, pause, .. } => text("kind"@, kind_tag(pause_kind(pause)))
            + phase_slots(plan, step as int) + seq![
            ("diagnosis"@, ValueView::Asked(Part::Diagnosis)),
            ("detail"@, ValueView::Asked(Part::Detail)),
            ("deadline_s"@, ValueView::Asked(Part::Deadline)),
        ],
        Entry::ConfirmAnswer { step, pause, answer } => text("kind"@, kind_tag(pause_kind(pause)))
            + step_slot(plan, step as int) + text("code"@, asked_code(plan, pause)) + text(
            "answer"@,
            answer_tag(answer),
        ),
        Entry::PreviewAnswer { step, choice } => text("kind"@, kind_tag(pause_kind(Pause::Preview)))
            + step_slot(plan, step as int) + text("code"@, asked_code(plan, Pause::Preview)) + text(
            "answer"@,
            preview_tag(choice),
        ),
        Entry::ExclusivityLost { step, reason } => phase_slots(plan, step as int) + text(
            "reason"@,
            reason@,
        ),
        Entry::FrameArmed(step) => step_slot(plan, step as int),
        Entry::FrameArmFailed { step, reason } => step_slot(plan, step as int) + text(
            "reason"@,
            reason@,
        ),
        Entry::StepStart(step) => phase_slots(plan, step as int) + (match step_of(
            plan,
            step as int,
        ) {
            Some(s) => text("summary"@, s.summary@),
            None => Seq::empty(),
        }),
        Entry::StepOk(step) => step_slot(plan, step as int),
        Entry::Verify { step, check, observed, holds } => text(
            "stage"@,
            match check {
                Check::Pre(_) => "pre"@,
                Check::Post(_) => "post"@,
            },
        ) + (match step_of(plan, step as int) {
            Some(s) => match check_at(s, check) {
                Some(v) => text("object"@, v.object@) + text("field"@, v.field@) + text(
                    "predicate"@,
                    v.description@,
                ),
                None => Seq::empty(),
            },
            None => Seq::empty(),
        }) + text("observed"@, observed_text(observed)) + seq![("holds"@, ValueView::Flag(holds))],
        Entry::Compute { step, trigger, height, value } => step_slot(plan, step as int) + (
        match step_of(plan, step as int) {
            Some(s) => compute_slots(s.compute, trigger, height, value),
            None => Seq::empty(),
        }),
        Entry::RecordAccel { step, value, .. } => step_slot(plan, step as int) + number(
            "max_accel"@,
            value.num,
        ),
        Entry::Send { step, .. } => step_slot(plan, step as int) + text("command"@, script),
        Entry::ResponseOk(step) => step_slot(plan, step as int) + text("result"@, "ok"@),
        Entry::ResponseError { step, error } => step_slot(plan, step as int) + text(
            "error"@,
            error@,
        ) + text("failure"@, failure_code(failure_class(error@))),
        Entry::PreviewReposition { step, stop } => step_slot(plan, step as int) + count(
            "cursor"@,
            stop as nat,
        ) + stop_slot(plan, stop as int) + text("command"@, script),
        Entry::PreviewAccept { step, stop } => step_slot(plan, step as int) + count(
            "cursor"@,
            stop as nat,
        ) + binding_slot(plan, stop as int),
        Entry::PreviewWriteFailed { step, reason } => step_slot(plan, step as int) + text(
            "reason"@,
            reason@,
        ),
        Entry::CleanupSkip { step, command } => step_slot(plan, step as int) + cleanup_slot(
            plan,
            step as int,
            command as int,
        ) + text("reason"@, NO_ACCEL@),
        Entry::Cleanup { step, .. } => step_slot(plan, step as int) + text("command"@, script),
        Entry::CleanupOk(step) => step_slot(plan, step as int),
        Entry::CleanupError { step, error } => step_slot(plan, step as int) + text(
            "error"@,
            error@,
        ),
        Entry::Abort(_) => match outcome {
            Some(o) => abort_slots(o),
            None => Seq::empty(),
        },
    }
}

/// Why a cleanup command is left out.
pub const NO_ACCEL: &'static str = "no recorded accel to substitute";

/// The record of an entry: its event, then what it says.
pub open spec fn record_of(
    plan: RecoveryPlan,
    entry: Entry,
    script: Seq<char>,
    outcome: Option<ExecOutcome>,
) -> Record {
    text("event"@, event_name(entry)) + slots_of(plan, entry, script, outcome)
}

fn put(out: &mut Vec<Slot>, name: &'static str, value: Value)
    ensures
        slots(final(out)@) == slots(old(out)@) + seq![(name@, value@)],
{
    let ghost given = slots(out@);
    let slot = Slot { name, value };
    out.push(slot);
    assert(slots(out@) =~= given + seq![(name@, value@)]);
}

fn put_text(out: &mut Vec<Slot>, name: &'static str, s: &str)
    ensures
        slots(final(out)@) == slots(old(out)@) + text(name@, s@),
{
    put(out, name, Value::Text(s.to_owned()));
}

fn put_count(out: &mut Vec<Slot>, name: &'static str, n: u64)
    ensures
        slots(final(out)@) == slots(old(out)@) + count(name@, n as nat),
{
    put(out, name, Value::Count(n));
}

fn put_number(out: &mut Vec<Slot>, name: &'static str, n: Num)
    ensures
        slots(final(out)@) == slots(old(out)@) + number(name@, n),
{
    put(out, name, Value::Number(n));
}

fn put_maybe(out: &mut Vec<Slot>, name: &'static str, n: Option<Num>)
    ensures
        slots(final(out)@) == slots(old(out)@) + maybe(name@, n),
{
    match n {
        Some(n) => put(out, name, Value::Number(n)),
        None => put(out, name, Value::Null),
    }
}

fn put_reading(out: &mut Vec<Slot>, name: &'static str, n: &Option<Reading>)
    ensures
        slots(final(out)@) == slots(old(out)@) + reading(name@, *n),
{
    match n {
        Some(n) => put(out, name, Value::Number(n.num)),
        None => put(out, name, Value::Null),
    }
}

fn put_step(out: &mut Vec<Slot>, plan: &RecoveryPlan, i: usize)
    ensures
        slots(final(out)@) == slots(old(out)@) + step_slot(*plan, i as int),
{
    let ghost given = slots(out@);
    assert(given + Seq::<(Seq<char>, ValueView)>::empty() =~= given);
    if let Some(step) = step_at(plan, i) {
        put_count(out, "step", step.id as u64);
    }
}

fn put_phase(out: &mut Vec<Slot>, plan: &RecoveryPlan, i: usize)
    ensures
        slots(final(out)@) == slots(old(out)@) + phase_slots(*plan, i as int),
{
    let ghost given = slots(out@);
    assert(given + Seq::<(Seq<char>, ValueView)>::empty() =~= given);
    if let Some(step) = step_at(plan, i) {
        put_count(out, "step", step.id as u64);
        put_text(out, "phase", step.phase_name.as_str());
        assert(slots(out@) =~= given + phase_slots(*plan, i as int));
    }
}

fn put_compute(
    out: &mut Vec<Slot>,
    compute: &Option<RuntimeComputation>,
    trigger: &Option<Reading>,
    height: &Option<Reading>,
    value: &Reading,
)
    ensures
        slots(final(out)@) == slots(old(out)@) + compute_slots(*compute, *trigger, *height, *value),
{
    let ghost given = slots(out@);
    match compute {
        Some(RuntimeComputation::TrueZ(_)) => {
            put_reading(out, "trigger_reading", trigger);
            put_reading(out, "halt_z", height);
            put_number(out, "true_z", value.num);
        },
        Some(RuntimeComputation::ParkZ { delta_z, z_max }) => {
            put_reading(out, "current_z", height);
            put_number(out, "delta_z", *delta_z);
            put_maybe(out, "z_max", *z_max);
            put_number(out, "park_z", value.num);
        },
        Some(RuntimeComputation::HoverPlane { target_z, z_max }) => {
            put_reading(out, "current_z", height);
            put_number(out, "target_z", *target_z);
            put_maybe(out, "z_max", *z_max);
            put_number(out, "hover_plane", value.num);
        },
        Some(RuntimeComputation::RecordMaxAccel) => {},
        Some(RuntimeComputation::RecordMachineAccel) => {},
        None => {},
    }
    assert(slots(out@) =~= given + compute_slots(*compute, *trigger, *height, *value));
}

fn put_abort(out: &mut Vec<Slot>, outcome: &ExecOutcome)
    ensures
        slots(final(out)@) == slots(old(out)@) + abort_slots(*outcome),
{
    let ghost given = slots(out@);
    match outcome {
        ExecOutcome::Aborted { step_id, phase, reason, cause, frame_invalid } => {
            put_count(out, "step", *step_id as u64);
            put_text(out, "phase", phase.as_str());
            put_text(out, "reason", reason.as_str());
            let what = cause.describe();
            put_text(out, "cause", what.as_str());
            match cause.step_failure() {
                Some(failure) => {
                    put_text(out, "failure", failure.code());
                    put(out, "diagnosis", Value::Failure(failure));
                },
                None => {
                    put(out, "failure", Value::Null);
                    put(out, "diagnosis", Value::Null);
                },
            }
            put(out, "frame_invalid", Value::Flag(*frame_invalid));
        },
        ExecOutcome::Completed { .. } => {},
    }
    assert(slots(out@) =~= given + abort_slots(*outcome));
}

fn put_verify(
    out: &mut Vec<Slot>,
    plan: &RecoveryPlan,
    step: usize,
    check: Check,
    observed: &Option<String>,
    holds: bool,
)
    ensures
        slots(final(out)@) == slots(old(out)@) + slots_of(
            *plan,
            Entry::Verify { step, check, observed: *observed, holds },
            Seq::empty(),
            None,
        ),
{
    let ghost given = slots(out@);
    match check {
        Check::Pre(_) => put_text(out, "stage", "pre"),
        Check::Post(_) => put_text(out, "stage", "post"),
    }
    if let Some(s) = step_at(plan, step) {
        if let Some(v) = find_check(s, check) {
            put_text(out, "object", v.object.as_str());
            put_text(out, "field", v.field.as_str());
            put_text(out, "predicate", v.description.as_str());
        }
    }
    match observed {
        Some(s) => put_text(out, "observed", s.as_str()),
        None => put_text(out, "observed", "absent"),
    }
    put(out, "holds", Value::Flag(holds));
    assert(slots(out@) =~= given + slots_of(
        *plan,
        Entry::Verify { step, check, observed: *observed, holds },
        Seq::empty(),
        None,
    ));
}

/// The outcome behind an optional reference.
pub open spec fn outcome_behind(outcome: Option<&ExecOutcome>) -> Option<ExecOutcome> {
    match outcome {
        Some(o) => Some(*o),
        None => None,
    }
}

/// The record of an entry.
pub fn record(
    plan: &RecoveryPlan,
    entry: &Entry,
    script: &str,
    outcome: Option<&ExecOutcome>,
) -> (r: Vec<Slot>)
    ensures
        slots(r@) == record_of(*plan, *entry, script@, outcome_behind(outcome)),
{
    let mut out: Vec<Slot> = Vec::new();
    assert(slots(out@) =~= Seq::<(Seq<char>, ValueView)>::empty());
    put_text(&mut out, "event", entry.event());
    let ghost head = slots(out@);
    assert(head =~= text("event"@, event_name(*entry)));
    assert(plan.steps@.len() == plan.steps.len());
    match entry {
        Entry::PlanStart => {
            put_count(&mut out, "steps", plan.steps.len() as u64);
            put_text(&mut out, "resume_file", plan.resume_file.as_str());
            put_count(&mut out, "resume_offset", plan.resume_offset);
        },
        Entry::PlanComplete => put_count(&mut out, "steps", plan.steps.len() as u64),
        Entry::Advisory(w) => put(&mut out, "diagnosis", Value::Warning(*w)),
        Entry::HardRefusal(w) => put(&mut out, "diagnosis", Value::Warning(*w)),
        Entry::OperatorDeclined(step) => put_step(&mut out, plan, *step),
        Entry::ConfirmPause { step, pause, .. } => {
            put_text(&mut out, "kind", kind_of(*pause));
            put_phase(&mut out, plan, *step);
            put(&mut out, "diagnosis", Value::Asked(Part::Diagnosis));
            put(&mut out, "detail", Value::Asked(Part::Detail));
            put(&mut out, "deadline_s", Value::Asked(Part::Deadline));
        },
        Entry::ConfirmAnswer { step, pause, answer } => {
            put_text(&mut out, "kind", kind_of(*pause));
            put_step(&mut out, plan, *step);
            let code = ask_code(plan, *pause);
            put_text(&mut out, "code", code.as_str());
            put_text(&mut out, "answer", (*answer).tag());
        },
        Entry::PreviewAnswer { step, choice } => {
            put_text(&mut out, "kind", kind_of(Pause::Preview));
            put_step(&mut out, plan, *step);
            let code = ask_code(plan, Pause::Preview);
            put_text(&mut out, "code", code.as_str());
            put_text(&mut out, "answer", (*choice).tag());
        },
        Entry::ExclusivityLost { step, reason } => {
            put_phase(&mut out, plan, *step);
            put_text(&mut out, "reason", reason.as_str());
        },
        Entry::FrameArmed(step) => put_step(&mut out, plan, *step),
        Entry::FrameArmFailed { step, reason } => {
            put_step(&mut out, plan, *step);
            put_text(&mut out, "reason", reason.as_str());
        },
        Entry::StepStart(step) => {
            put_phase(&mut out, plan, *step);
            if let Some(s) = step_at(plan, *step) {
                put_text(&mut out, "summary", s.summary.as_str());
            }
        },
        Entry::StepOk(step) => put_step(&mut out, plan, *step),
        Entry::Verify { step, check, observed, holds } => put_verify(
            &mut out,
            plan,
            *step,
            *check,
            observed,
            *holds,
        ),
        Entry::Compute { step, trigger, height, value } => {
            put_step(&mut out, plan, *step);
            if let Some(s) = step_at(plan, *step) {
                put_compute(&mut out, &s.compute, trigger, height, value);
            }
        },
        Entry::RecordAccel { step, value, .. } => {
            put_step(&mut out, plan, *step);
            put_number(&mut out, "max_accel", value.num);
        },
        Entry::Send { step, .. } => {
            put_step(&mut out, plan, *step);
            put_text(&mut out, "command", script);
        },
        Entry::ResponseOk(step) => {
            put_step(&mut out, plan, *step);
            put_text(&mut out, "result", "ok");
        },
        Entry::ResponseError { step, error } => {
            put_step(&mut out, plan, *step);
            put_text(&mut out, "error", error.as_str());
            put_text(&mut out, "failure", StepFailure::classify(error.as_str()).code());
        },
        Entry::PreviewReposition { step, stop } => {
            put_step(&mut out, plan, *step);
            put_count(&mut out, "cursor", *stop as u64);
            put_stop(&mut out, plan, *stop);
            put_text(&mut out, "command", script);
        },
        Entry::PreviewAccept { step, stop } => {
            put_step(&mut out, plan, *step);
            put_count(&mut out, "cursor", *stop as u64);
            put_binding(&mut out, plan, *stop);
        },
        Entry::PreviewWriteFailed { step, reason } => {
            put_step(&mut out, plan, *step);
            put_text(&mut out, "reason", reason.as_str());
        },
        Entry::CleanupSkip { step, command } => {
            put_step(&mut out, plan, *step);
            put_cleanup(&mut out, plan, *step, *command);
            put_text(&mut out, "reason", NO_ACCEL);
        },
        Entry::Cleanup { step, .. } => {
            put_step(&mut out, plan, *step);
            put_text(&mut out, "command", script);
        },
        Entry::CleanupOk(step) => put_step(&mut out, plan, *step),
        Entry::CleanupError { step, error } => {
            put_step(&mut out, plan, *step);
            put_text(&mut out, "error", error.as_str());
        },
        Entry::Abort(_) => {
            if let Some(o) = outcome {
                put_abort(&mut out, o);
            }
        },
    }
    assert(slots(out@) =~= record_of(*plan, *entry, script@, outcome_behind(outcome)));
    out
}

fn kind_of(pause: Pause) -> (r: &'static str)
    ensures
        r@ == kind_tag(pause_kind(pause)),
{
    let kind = match pause {
        Pause::Warning(_) => crate::executor::ConfirmKind::Diagnosis,
        Pause::StepDebug => crate::executor::ConfirmKind::StepDebug,
        Pause::ZHeight => crate::executor::ConfirmKind::ZHeight,
        Pause::Preview => crate::executor::ConfirmKind::Preview,
    };
    kind.tag()
}

fn put_stop(out: &mut Vec<Slot>, plan: &RecoveryPlan, stop: usize)
    ensures
        slots(final(out)@) == slots(old(out)@) + stop_slot(*plan, stop as int),
{
    let ghost given = slots(out@);
    assert(given + Seq::<(Seq<char>, ValueView)>::empty() =~= given);
    if let Some(spec) = &plan.preview {
        if stop < spec.stops.len() {
            put_count(out, "offset", spec.stops[stop].offset);
        }
    }
}

fn put_binding(out: &mut Vec<Slot>, plan: &RecoveryPlan, stop: usize)
    ensures
        slots(final(out)@) == slots(old(out)@) + binding_slot(*plan, stop as int),
{
    let ghost given = slots(out@);
    assert(given + Seq::<(Seq<char>, ValueView)>::empty() =~= given);
    if let Some(spec) = &plan.preview {
        if stop < spec.bindings.len() {
            put_count(out, "resume_offset", spec.bindings[stop].tail_offset);
        }
    }
}

fn put_cleanup(out: &mut Vec<Slot>, plan: &RecoveryPlan, step: usize, i: usize)
    ensures
        slots(final(out)@) == slots(old(out)@) + cleanup_slot(*plan, step as int, i as int),
{
    let ghost given = slots(out@);
    assert(given + Seq::<(Seq<char>, ValueView)>::empty() =~= given);
    if let Some(s) = step_at(plan, step) {
        if i < s.cleanup_commands.len() {
            put_text(out, "command", s.cleanup_commands[i].as_str());
        }
    }
}

/// The record of an entry that is made before the plan runs.
pub open spec fn gate_record_of(entry: GateEntry) -> Record {
    text("event"@, entry_event(entry)) + match entry {
        GateEntry::Renamed { name, m23_repointed } => text("name"@, name@) + count(
            "m23_repointed"@,
            m23_repointed as nat,
        ),
        GateEntry::Written { path, bytes, attempt } => text("path"@, path@) + count(
            "bytes"@,
            bytes as nat,
        ) + count("attempt"@, attempt as nat),
        GateEntry::Refused { reason } => text("gate"@, "idle-and-exclusive"@) + text(
            "reason"@,
            reason@,
        ),
    }
}

/// The record of an entry that is made before the plan runs.
pub fn gate_record(entry: &GateEntry) -> (r: Vec<Slot>)
    ensures
        slots(r@) == gate_record_of(*entry),
{
    let mut out: Vec<Slot> = Vec::new();
    assert(slots(out@) =~= Seq::<(Seq<char>, ValueView)>::empty());
    put_text(&mut out, "event", entry.event());
    match entry {
        GateEntry::Renamed { name, m23_repointed } => {
            put_text(&mut out, "name", name.as_str());
            put_count(&mut out, "m23_repointed", *m23_repointed);
        },
        GateEntry::Written { path, bytes, attempt } => {
            put_text(&mut out, "path", path.as_str());
            put_count(&mut out, "bytes", *bytes);
            put_count(&mut out, "attempt", *attempt as u64);
        },
        GateEntry::Refused { reason } => {
            put_text(&mut out, "gate", "idle-and-exclusive");
            put_text(&mut out, "reason", reason.as_str());
        },
    }
    assert(slots(out@) =~= gate_record_of(*entry));
    out
}

} // verus!
