//! Executing a plan, one outside event at a time.
//!
//! An [`Executor`] stands at one stage of one step and waits for one reply: an
//! answer of the operator, a status of the printer, the fate of a command.
//! [`Executor::on_event`] takes the reply, moves on, and says what the
//! transcript records. Nothing here can send, ask or wait; what to do next is
//! read off the stage.

use vstd::prelude::*;

use crate::executor::{ConfirmAnswer, PreviewAnswer};
use crate::json::{finite_of, looked_up, lookup, Json};
use crate::number::{Num, Reading};
use crate::plan::{
    cleanup_text, evaluate, resolve_cleanup, resolve_command, resolved, satisfied, shifted_id,
    spelled, trigger_field, trigger_field_of, Phase, RecoveryPlan, RecoveryStep, Resolved,
    RuntimeComputation, Tier, TriggerSource, Unresolved, Verification,
};
use crate::preview::{
    move_cursor, moved, open_cursor, opening, the_cursor_never_leaves_the_stops, Cursor,
};

verus! {

/// A number the executor reads from the printer.
#[derive(Debug, Clone, Copy, PartialEq, Eq, Structural)]
pub enum Field {
    /// The trigger height of a probe.
    Trigger(TriggerSource),
    /// The current Z.
    Height,
    /// The acceleration limit in force.
    Accel,
}

/// A question put to the operator.
#[derive(Debug, Clone, Copy, PartialEq, Eq, Structural)]
pub enum Pause {
    /// A confirmable warning of the plan.
    Warning(usize),
    /// The pause before a step.
    StepDebug,
    /// The Z-height confirmation.
    ZHeight,
    /// The resume-point preview.
    Preview,
}

/// Which of a step's verifications is meant.
#[derive(Debug, Clone, Copy, PartialEq, Eq, Structural)]
pub enum Check {
    /// One that must hold before anything is sent.
    Pre(usize),
    /// One that must hold once everything is sent.
    Post(usize),
}

/// Why execution stops.
#[derive(Debug)]
pub enum Cause {
    /// A verification did not hold in time.
    Verification {
        /// Which one.
        check: Check,
        /// The value last seen, as it was spelled; absent when there was none.
        observed: Option<String>,
    },
    /// A status query failed.
    Transport(String),
    /// A command failed.
    Command(String),
    /// A field is not in the status.
    Absent(Field),
    /// A field does not hold a finite number.
    NotFinite(Field),
    /// The value of a step could not be computed.
    Compute(String),
    /// A placeholder has no value.
    Placeholder(Unresolved),
    /// The accepted stop has no recovery binding.
    NoBinding,
    /// The recovery file of the accepted stop could not be written.
    Write(String),
    /// The operator declined a step.
    Gate,
    /// The frame interlock could not be armed.
    Arm(String),
    /// A warning of the plan is a refusal.
    Refusal(usize),
    /// A question was answered "abort".
    Declined(Pause),
    /// A question went unanswered.
    TimedOut(Pause),
    /// Exclusive g-code access was lost.
    Exclusivity(String),
}

/// What the executor waits for.
#[derive(Debug, Clone, Copy, PartialEq, Eq, Structural)]
pub enum Stage {
    /// The answer to a warning, before the first step.
    Warning(usize),
    /// Leave to run the step.
    Gate,
    /// The answer to the pause before the step.
    StepDebug,
    /// Exclusive g-code access, before the step sends anything.
    Recheck,
    /// The frame interlock, before the shifted frame is declared.
    Arm,
    /// The status for a verification; `again` after one that did not hold yet.
    Verify {
        /// Which one.
        check: Check,
        /// Whether it was polled before.
        again: bool,
    },
    /// The status that holds a number.
    Read(Field),
    /// The height computed from the numbers read.
    Compute,
    /// The fate of a command of the step.
    Send(usize),
    /// The status for the Z-height question.
    ReadLiveZ,
    /// The answer to the Z-height question.
    ZHeight,
    /// Exclusive g-code access, before the preview moves.
    PreviewRecheck(Cursor),
    /// The fate of the preview's move.
    PreviewMove(Cursor),
    /// The answer to the preview.
    PreviewAsk(Cursor),
    /// The recovery file of the accepted stop.
    PreviewWrite(Cursor),
    /// The fate of a cleanup command.
    Cleanup {
        /// The step it belongs to.
        step: usize,
        /// Which of its cleanup commands.
        command: usize,
    },
    /// Nothing: the plan completed.
    Completed,
    /// Nothing: the execution was aborted.
    Aborted,
}

/// A plan execution.
#[derive(Debug)]
pub struct Executor {
    /// What it waits for.
    pub stage: Stage,
    /// The step it stands at.
    pub step: usize,
    /// How many steps have put their side effects in force: the cleanups of
    /// exactly these are owed on an abort.
    pub registered: usize,
    /// The acceleration in force before the touch clamp.
    pub phase_accel: Option<Reading>,
    /// The printer's own acceleration.
    pub machine_accel: Option<Reading>,
    /// The value the current step resolved.
    pub computed: Option<Reading>,
    /// The trigger height read for the current step.
    pub trigger: Option<Reading>,
    /// The height read for the current step.
    pub height: Option<Reading>,
    /// Why it stops, once it does.
    pub cause: Option<Cause>,
}

/// What the outside reports.
#[derive(Debug)]
pub enum Event {
    /// Whether the step may run.
    Gate(bool),
    /// The answer to a question.
    Answer(ConfirmAnswer),
    /// The answer to the preview.
    Preview(PreviewAnswer),
    /// Whether exclusive g-code access holds, or why not.
    Exclusive(Result<(), String>),
    /// Whether the frame interlock is armed, or why not.
    Armed(Result<(), String>),
    /// The status of the printer, or why there is none.
    Status {
        /// The status map.
        reply: Result<Json, String>,
        /// For a verification that measures a distance, the distance.
        distance: Option<Num>,
        /// Whether the poll's deadline has passed.
        expired: bool,
    },
    /// The computed height, or why there is none.
    Computed(Result<Reading, String>),
    /// The fate of a command.
    Sent(Result<(), String>),
    /// The fate of the recovery file.
    Written(Result<(), String>),
}

/// One line of the transcript. Steps, commands and warnings are given by their
/// place in the plan.
#[derive(Debug)]
pub enum Entry {
    /// The execution begins.
    PlanStart,
    /// Every step completed.
    PlanComplete,
    /// A warning that does not stop anything.
    Advisory(usize),
    /// A warning that refuses the plan.
    HardRefusal(usize),
    /// The operator declined the step.
    OperatorDeclined(usize),
    /// A question is put.
    ConfirmPause {
        /// The step it is anchored to.
        step: usize,
        /// The question.
        pause: Pause,
        /// For the preview, the stop it shows.
        shown: Option<usize>,
        /// For the Z-height question, the Z read back.
        live_z: Option<Reading>,
    },
    /// A question is answered.
    ConfirmAnswer {
        /// The step it is anchored to.
        step: usize,
        /// The question.
        pause: Pause,
        /// The answer.
        answer: ConfirmAnswer,
    },
    /// The preview is answered.
    PreviewAnswer {
        /// The step it is anchored to.
        step: usize,
        /// The answer.
        choice: PreviewAnswer,
    },
    /// Exclusive g-code access was lost.
    ExclusivityLost {
        /// The step that did not run.
        step: usize,
        /// Why.
        reason: String,
    },
    /// The frame interlock is armed.
    FrameArmed(usize),
    /// The frame interlock could not be armed.
    FrameArmFailed {
        /// The step that did not run.
        step: usize,
        /// Why.
        reason: String,
    },
    /// A step begins.
    StepStart(usize),
    /// A step completed and verified.
    StepOk(usize),
    /// A verification was decided.
    Verify {
        /// The step.
        step: usize,
        /// Which verification.
        check: Check,
        /// The value seen.
        observed: Option<String>,
        /// Whether it held.
        holds: bool,
    },
    /// A height was computed.
    Compute {
        /// The step.
        step: usize,
        /// The trigger height, for the true Z.
        trigger: Option<Reading>,
        /// The height read.
        height: Option<Reading>,
        /// The result.
        value: Reading,
    },
    /// An acceleration was recorded.
    RecordAccel {
        /// The step.
        step: usize,
        /// Whether it is the printer's own.
        machine: bool,
        /// The value.
        value: Reading,
    },
    /// A command is sent.
    Send {
        /// The step.
        step: usize,
        /// Which of its commands.
        command: usize,
    },
    /// A command succeeded.
    ResponseOk(usize),
    /// A command failed.
    ResponseError {
        /// The step.
        step: usize,
        /// The error.
        error: String,
    },
    /// The preview moves to a stop.
    PreviewReposition {
        /// The step.
        step: usize,
        /// The stop.
        stop: usize,
    },
    /// A stop is accepted.
    PreviewAccept {
        /// The step.
        step: usize,
        /// The stop.
        stop: usize,
    },
    /// The recovery file of the accepted stop could not be written.
    PreviewWriteFailed {
        /// The step.
        step: usize,
        /// Why.
        reason: String,
    },
    /// A cleanup command is left out for want of a recorded acceleration.
    CleanupSkip {
        /// The step.
        step: usize,
        /// Which of its cleanup commands.
        command: usize,
    },
    /// A cleanup command is sent.
    Cleanup {
        /// The step.
        step: usize,
        /// Which of its cleanup commands.
        command: usize,
    },
    /// A cleanup command succeeded.
    CleanupOk(usize),
    /// A cleanup command failed.
    CleanupError {
        /// The step.
        step: usize,
        /// The error.
        error: String,
    },
    /// The execution is over.
    Abort(usize),
}

/// An executor's state after a move, and what the move records.
pub type Move = (Executor, Seq<Entry>);

/// `m` with `before` recorded first.
pub open spec fn after(before: Seq<Entry>, m: Move) -> Move {
    (m.0, before + m.1)
}

/// The step an executor stands at.
pub open spec fn current(plan: RecoveryPlan, s: Executor) -> RecoveryStep {
    plan.steps@[s.step as int]
}

/// `s` waiting at `stage`.
pub open spec fn at(s: Executor, stage: Stage) -> Executor {
    Executor { stage, ..s }
}

/// Runs the cleanups still owed: those of the first `steps` steps, the last of
/// them from command `command` on, newest step first and each step's commands
/// in order. Stops at the first that can be sent; when none is left the
/// execution is over.
pub open spec fn cleaning(plan: RecoveryPlan, s: Executor, steps: nat, command: nat) -> Move
    decreases steps, plan.steps@[steps - 1].cleanup_commands@.len() - command,
{
    if steps == 0 {
        (at(s, Stage::Aborted), seq![Entry::Abort(s.step)])
    } else {
        let commands = plan.steps@[steps - 1].cleanup_commands@;
        if command >= commands.len() {
            cleaning(plan, s, (steps - 1) as nat, 0)
        } else if cleanup_text(
            commands[command as int]@,
            spelled(s.phase_accel),
            spelled(s.machine_accel),
        ) is None {
            after(
                seq![Entry::CleanupSkip { step: (steps - 1) as usize, command: command as usize }],
                cleaning(plan, s, steps, command + 1),
            )
        } else {
            (
                at(s, Stage::Cleanup { step: (steps - 1) as usize, command: command as usize }),
                seq![Entry::Cleanup { step: (steps - 1) as usize, command: command as usize }],
            )
        }
    }
}

/// Stops for `cause`: every registered cleanup is owed, and the cause stands.
pub open spec fn aborting(plan: RecoveryPlan, s: Executor, cause: Cause) -> Move {
    cleaning(plan, Executor { cause: Some(cause), ..s }, s.registered as nat, 0)
}

/// A question is put, and its answer awaited at `stage`.
pub open spec fn asking(s: Executor, stage: Stage, pause: Pause) -> Move {
    (
        at(s, stage),
        seq![Entry::ConfirmPause { step: s.step, pause, shown: None, live_z: None }],
    )
}

/// Goes through the warnings from `warning` on: an advisory one is recorded, a
/// confirmable one is put to the operator, a refusal stops everything. With
/// none left the first step's gate is next.
pub open spec fn warned(plan: RecoveryPlan, s: Executor, warning: nat) -> Move
    decreases plan.warnings@.len() - warning,
{
    if warning >= plan.warnings@.len() {
        (at(s, Stage::Gate), Seq::empty())
    } else {
        match plan.warnings@[warning as int].tier {
            Tier::Advisory => after(
                seq![Entry::Advisory(warning as usize)],
                warned(plan, s, warning + 1),
            ),
            Tier::Confirmable => asking(
                s,
                Stage::Warning(warning as usize),
                Pause::Warning(warning as usize),
            ),
            Tier::Hard => after(
                seq![Entry::HardRefusal(warning as usize)],
                aborting(plan, s, Cause::Refusal(warning as usize)),
            ),
        }
    }
}

/// The state before anything happened.
pub open spec fn blank() -> Executor {
    Executor {
        stage: Stage::Gate,
        step: 0,
        registered: 0,
        phase_accel: None,
        machine_accel: None,
        computed: None,
        trigger: None,
        height: None,
        cause: None,
    }
}

/// The execution begins: with no steps it is complete at once, else the
/// warnings come first.
pub open spec fn started(plan: RecoveryPlan) -> Move {
    if plan.steps@.len() == 0 {
        (at(blank(), Stage::Completed), seq![Entry::PlanStart, Entry::PlanComplete])
    } else {
        after(seq![Entry::PlanStart], warned(plan, blank(), 0))
    }
}

/// The step after the current one, or completion after the last.
pub open spec fn step_done(plan: RecoveryPlan, s: Executor) -> Move {
    if s.step + 1 >= plan.steps@.len() {
        (at(s, Stage::Completed), seq![Entry::PlanComplete])
    } else {
        (Executor { stage: Stage::Gate, step: (s.step + 1) as usize, ..s }, Seq::empty())
    }
}

/// The preview opens, where the plan has stops to choose from.
pub open spec fn previewing(plan: RecoveryPlan, s: Executor) -> Move {
    match plan.preview {
        Some(spec) => if spec.stops@.len() > 0 {
            (at(s, Stage::PreviewRecheck(opening(spec))), Seq::empty())
        } else {
            step_done(plan, s)
        },
        None => step_done(plan, s),
    }
}

/// The step's verifications all hold: it is recorded, and a standoff or a
/// preview is followed by its question.
pub open spec fn verified(plan: RecoveryPlan, s: Executor) -> Move {
    after(
        seq![Entry::StepOk(s.step)],
        match current(plan, s).phase {
            Phase::ZConfirmStandoff => (at(s, Stage::ReadLiveZ), Seq::empty()),
            Phase::ResumePreview => previewing(plan, s),
            _ => step_done(plan, s),
        },
    )
}

/// The next verification once everything is sent.
pub open spec fn post_verifying(plan: RecoveryPlan, s: Executor, index: nat) -> Move {
    if index >= current(plan, s).verify@.len() {
        verified(plan, s)
    } else {
        (
            at(s, Stage::Verify { check: Check::Post(index as usize), again: false }),
            Seq::empty(),
        )
    }
}

/// What a command of the current step resolves to.
pub open spec fn command_of(plan: RecoveryPlan, s: Executor, command: int) -> Resolved {
    resolved(
        current(plan, s).commands@[command]@,
        spelled(s.computed),
        spelled(s.machine_accel),
    )
}

/// The next command of the step. One whose placeholder has no value is never
/// sent.
pub open spec fn sending(plan: RecoveryPlan, s: Executor, command: nat) -> Move {
    if command >= current(plan, s).commands@.len() {
        post_verifying(plan, s, 0)
    } else {
        match command_of(plan, s, command as int) {
            Resolved::Text(_) => (
                at(s, Stage::Send(command as usize)),
                seq![Entry::Send { step: s.step, command: command as usize }],
            ),
            Resolved::NoComputed => aborting(
                plan,
                s,
                Cause::Placeholder(Unresolved::NoComputed),
            ),
            Resolved::NoMachineAccel => aborting(
                plan,
                s,
                Cause::Placeholder(Unresolved::NoMachineAccel),
            ),
        }
    }
}

/// The step's value is known: its cleanup is registered, and its commands go
/// out.
pub open spec fn computed_as(plan: RecoveryPlan, s: Executor, value: Option<Reading>) -> Move {
    sending(plan, Executor { computed: value, registered: (s.step + 1) as usize, ..s }, 0)
}

/// The step's value is resolved.
pub open spec fn computing(plan: RecoveryPlan, s: Executor) -> Move {
    match current(plan, s).compute {
        None => computed_as(plan, s, s.phase_accel),
        Some(RuntimeComputation::TrueZ(formula)) => (
            at(s, Stage::Read(Field::Trigger(formula.trigger_source))),
            Seq::empty(),
        ),
        Some(RuntimeComputation::ParkZ { delta_z, z_max }) => (
            at(s, Stage::Read(Field::Height)),
            Seq::empty(),
        ),
        Some(RuntimeComputation::HoverPlane { target_z, z_max }) => (
            at(s, Stage::Read(Field::Height)),
            Seq::empty(),
        ),
        Some(RuntimeComputation::RecordMaxAccel) => (at(s, Stage::Read(Field::Accel)), Seq::empty()),
        Some(RuntimeComputation::RecordMachineAccel) => (
            at(s, Stage::Read(Field::Accel)),
            Seq::empty(),
        ),
    }
}

/// The next verification before anything is sent.
pub open spec fn pre_verifying(plan: RecoveryPlan, s: Executor, index: nat) -> Move {
    if index >= current(plan, s).pre_verify@.len() {
        computing(plan, s)
    } else {
        (
            at(s, Stage::Verify { check: Check::Pre(index as usize), again: false }),
            Seq::empty(),
        )
    }
}

/// The step begins.
pub open spec fn running(plan: RecoveryPlan, s: Executor) -> Move {
    after(
        seq![Entry::StepStart(s.step)],
        pre_verifying(
            plan,
            Executor { computed: None, trigger: None, height: None, ..s },
            0,
        ),
    )
}

/// Exclusive access holds: the interlock is armed first where the step declares
/// the shifted frame.
pub open spec fn cleared(plan: RecoveryPlan, s: Executor) -> Move {
    if shifted_id(plan) == Some(current(plan, s).id) {
        (at(s, Stage::Arm), Seq::empty())
    } else {
        running(plan, s)
    }
}

/// A question of the current step was answered; `go` is what follows a
/// "continue".
pub open spec fn answered(
    plan: RecoveryPlan,
    s: Executor,
    pause: Pause,
    answer: ConfirmAnswer,
    go: Move,
) -> Move {
    after(
        seq![Entry::ConfirmAnswer { step: s.step, pause, answer }],
        match answer {
            ConfirmAnswer::Continue => go,
            ConfirmAnswer::Abort => aborting(plan, s, Cause::Declined(pause)),
            ConfirmAnswer::TimedOut => aborting(plan, s, Cause::TimedOut(pause)),
        },
    )
}

/// The verification meant by `check` in a step.
pub open spec fn check_of(step: RecoveryStep, check: Check) -> Verification {
    match check {
        Check::Pre(index) => step.pre_verify@[index as int],
        Check::Post(index) => step.verify@[index as int],
    }
}

/// The computed value a verification is held against: none before the step has
/// sent anything.
pub open spec fn held_against(s: Executor, check: Check) -> Option<Num> {
    match (check, s.computed) {
        (Check::Post(_), Some(reading)) => Some(reading.num),
        _ => None,
    }
}

/// The value of a verification in a status.
pub open spec fn seen(v: Verification, status: Json) -> Option<Json> {
    looked_up(status, v.object@, v.field@)
}

/// A value as it is spelled.
pub open spec fn spelling_of(value: Option<Json>) -> Option<String> {
    match value {
        Some(v) => Some(v.spelling),
        None => None,
    }
}

/// The verification after `check`.
pub open spec fn next_check(plan: RecoveryPlan, s: Executor, check: Check) -> Move {
    match check {
        Check::Pre(index) => pre_verifying(plan, s, (index + 1) as nat),
        Check::Post(index) => post_verifying(plan, s, (index + 1) as nat),
    }
}

/// A status came in for a verification: it holds, or it is polled again until
/// its deadline, and then the execution stops.
pub open spec fn checked(
    plan: RecoveryPlan,
    s: Executor,
    check: Check,
    reply: Result<Json, String>,
    distance: Option<Num>,
    expired: bool,
) -> Move {
    match reply {
        Err(error) => aborting(plan, s, Cause::Transport(error)),
        Ok(status) => {
            let v = check_of(current(plan, s), check);
            let value = seen(v, status);
            let holds = satisfied(v.predicate, value, held_against(s, check), distance);
            let entry = Entry::Verify {
                step: s.step,
                check,
                observed: spelling_of(value),
                holds,
            };
            if holds {
                after(seq![entry], next_check(plan, s, check))
            } else if expired {
                after(
                    seq![entry],
                    aborting(
                        plan,
                        s,
                        Cause::Verification { check, observed: spelling_of(value) },
                    ),
                )
            } else {
                (at(s, Stage::Verify { check, again: true }), Seq::empty())
            }
        },
    }
}

/// The printer object and path of a field.
pub open spec fn field_path(field: Field) -> (Seq<char>, Seq<char>) {
    match field {
        Field::Trigger(source) => trigger_field_of(source),
        Field::Height => ("toolhead"@, "position.2"@),
        Field::Accel => ("toolhead"@, "max_accel"@),
    }
}

/// The value of a field in a status.
pub open spec fn field_in(field: Field, status: Json) -> Option<Json> {
    looked_up(status, field_path(field).0, field_path(field).1)
}

/// The finite number a field holds, or why there is none.
pub open spec fn read_number(field: Field, reply: Result<Json, String>) -> Result<Reading, Cause> {
    match reply {
        Err(error) => Err(Cause::Transport(error)),
        Ok(status) => match (field_in(field, status), finite_of(field_in(field, status))) {
            (None, _) => Err(Cause::Absent(field)),
            (_, Some(reading)) => Ok(reading),
            (_, None) => Err(Cause::NotFinite(field)),
        },
    }
}

/// A number was read for the current step.
pub open spec fn number_read(plan: RecoveryPlan, s: Executor, field: Field, value: Reading) -> Move {
    match (field, current(plan, s).compute) {
        (Field::Trigger(_), _) => (
            Executor { stage: Stage::Read(Field::Height), trigger: Some(value), ..s },
            Seq::empty(),
        ),
        (Field::Height, _) => (
            Executor { stage: Stage::Compute, height: Some(value), ..s },
            Seq::empty(),
        ),
        (Field::Accel, Some(RuntimeComputation::RecordMachineAccel)) => after(
            seq![Entry::RecordAccel { step: s.step, machine: true, value }],
            computed_as(plan, Executor { machine_accel: Some(value), ..s }, Some(value)),
        ),
        (Field::Accel, _) => after(
            seq![Entry::RecordAccel { step: s.step, machine: false, value }],
            computed_as(plan, Executor { phase_accel: Some(value), ..s }, Some(value)),
        ),
    }
}

/// The Z-height question is put, with the Z read back when there is one.
pub open spec fn asking_height(s: Executor, live_z: Option<Reading>) -> Move {
    (
        Executor { stage: Stage::ZHeight, height: live_z, ..s },
        seq![Entry::ConfirmPause { step: s.step, pause: Pause::ZHeight, shown: None, live_z }],
    )
}

/// The reading of a result, if it is one.
pub open spec fn reading_of(r: Result<Reading, Cause>) -> Option<Reading> {
    match r {
        Ok(reading) => Some(reading),
        Err(_) => None,
    }
}

/// What follows an answer to the preview: an accepted stop's recovery file is
/// written, a refusal stops the execution, anything else moves the cursor.
pub open spec fn preview_rest(
    plan: RecoveryPlan,
    s: Executor,
    c: Cursor,
    answer: PreviewAnswer,
) -> Move {
    match (answer, plan.preview) {
        (PreviewAnswer::Accept, Some(spec)) => if c.stop < spec.bindings@.len() {
            (
                at(s, Stage::PreviewWrite(c)),
                seq![Entry::PreviewAccept { step: s.step, stop: c.stop }],
            )
        } else {
            aborting(plan, s, Cause::NoBinding)
        },
        (PreviewAnswer::Abort, _) => aborting(plan, s, Cause::Declined(Pause::Preview)),
        (PreviewAnswer::TimedOut, _) => aborting(plan, s, Cause::TimedOut(Pause::Preview)),
        (_, Some(spec)) => (at(s, Stage::PreviewRecheck(moved(spec, c, answer))), Seq::empty()),
        (_, None) => step_done(plan, s),
    }
}

/// The preview was answered.
pub open spec fn preview_answered(
    plan: RecoveryPlan,
    s: Executor,
    c: Cursor,
    answer: PreviewAnswer,
) -> Move {
    after(
        seq![Entry::PreviewAnswer { step: s.step, choice: answer }],
        preview_rest(plan, s, c, answer),
    )
}

/// Where an event takes the execution. An event that is not the one awaited
/// changes nothing.
pub open spec fn stepped(plan: RecoveryPlan, s: Executor, event: Event) -> Move {
    match (s.stage, event) {
        (Stage::Warning(w), Event::Answer(answer)) => answered(
            plan,
            s,
            Pause::Warning(w),
            answer,
            warned(plan, s, (w + 1) as nat),
        ),
        (Stage::Gate, Event::Gate(true)) => if plan.debug_confirm_each_step {
            asking(s, Stage::StepDebug, Pause::StepDebug)
        } else {
            (at(s, Stage::Recheck), Seq::empty())
        },
        (Stage::Gate, Event::Gate(false)) => after(
            seq![Entry::OperatorDeclined(s.step)],
            aborting(plan, s, Cause::Gate),
        ),
        (Stage::StepDebug, Event::Answer(answer)) => answered(
            plan,
            s,
            Pause::StepDebug,
            answer,
            (at(s, Stage::Recheck), Seq::empty()),
        ),
        (Stage::Recheck, Event::Exclusive(Ok(_))) => cleared(plan, s),
        (Stage::Recheck, Event::Exclusive(Err(reason))) => after(
            seq![Entry::ExclusivityLost { step: s.step, reason }],
            aborting(plan, s, Cause::Exclusivity(reason)),
        ),
        (Stage::Arm, Event::Armed(Ok(_))) => after(
            seq![Entry::FrameArmed(s.step)],
            running(plan, s),
        ),
        (Stage::Arm, Event::Armed(Err(reason))) => after(
            seq![Entry::FrameArmFailed { step: s.step, reason }],
            aborting(plan, s, Cause::Arm(reason)),
        ),
        (Stage::Verify { check, again }, Event::Status { reply, distance, expired }) => checked(
            plan,
            s,
            check,
            reply,
            distance,
            expired,
        ),
        (Stage::Read(field), Event::Status { reply, distance, expired }) => match read_number(
            field,
            reply,
        ) {
            Ok(value) => number_read(plan, s, field, value),
            Err(cause) => aborting(plan, s, cause),
        },
        (Stage::Compute, Event::Computed(Ok(value))) => after(
            seq![Entry::Compute { step: s.step, trigger: s.trigger, height: s.height, value }],
            computed_as(plan, s, Some(value)),
        ),
        (Stage::Compute, Event::Computed(Err(error))) => aborting(plan, s, Cause::Compute(error)),
        (Stage::Send(command), Event::Sent(Ok(_))) => after(
            seq![Entry::ResponseOk(s.step)],
            sending(plan, s, (command + 1) as nat),
        ),
        (Stage::Send(command), Event::Sent(Err(error))) => after(
            seq![Entry::ResponseError { step: s.step, error }],
            aborting(plan, s, Cause::Command(error)),
        ),
        (Stage::ReadLiveZ, Event::Status { reply, distance, expired }) => asking_height(
            s,
            reading_of(read_number(Field::Height, reply)),
        ),
        (Stage::ZHeight, Event::Answer(answer)) => answered(
            plan,
            s,
            Pause::ZHeight,
            answer,
            step_done(plan, s),
        ),
        (Stage::PreviewRecheck(c), Event::Exclusive(Ok(_))) => (
            at(s, Stage::PreviewMove(c)),
            seq![Entry::PreviewReposition { step: s.step, stop: c.stop }],
        ),
        (Stage::PreviewRecheck(c), Event::Exclusive(Err(reason))) => after(
            seq![Entry::ExclusivityLost { step: s.step, reason }],
            aborting(plan, s, Cause::Exclusivity(reason)),
        ),
        (Stage::PreviewMove(c), Event::Sent(Ok(_))) => (
            at(s, Stage::PreviewAsk(c)),
            seq![
                Entry::ConfirmPause {
                    step: s.step,
                    pause: Pause::Preview,
                    shown: Some(c.stop),
                    live_z: None,
                },
            ],
        ),
        (Stage::PreviewMove(c), Event::Sent(Err(error))) => aborting(
            plan,
            s,
            Cause::Command(error),
        ),
        (Stage::PreviewAsk(c), Event::Preview(answer)) => preview_answered(plan, s, c, answer),
        (Stage::PreviewWrite(c), Event::Written(Ok(_))) => step_done(plan, s),
        (Stage::PreviewWrite(c), Event::Written(Err(reason))) => after(
            seq![Entry::PreviewWriteFailed { step: s.step, reason }],
            aborting(plan, s, Cause::Write(reason)),
        ),
        (Stage::Cleanup { step, command }, Event::Sent(Ok(_))) => after(
            seq![Entry::CleanupOk(step)],
            cleaning(plan, s, (step + 1) as nat, (command + 1) as nat),
        ),
        (Stage::Cleanup { step, command }, Event::Sent(Err(error))) => after(
            seq![Entry::CleanupError { step, error }],
            cleaning(plan, s, (step + 1) as nat, (command + 1) as nat),
        ),
        _ => (s, Seq::empty()),
    }
}

/// The places that a cause names are places in the plan and the step.
pub open spec fn names_places(plan: RecoveryPlan, step: RecoveryStep, cause: Cause) -> bool {
    match cause {
        Cause::Verification { check: Check::Pre(i), observed } => i < step.pre_verify@.len(),
        Cause::Verification { check: Check::Post(i), observed } => i < step.verify@.len(),
        Cause::Refusal(w) => w < plan.warnings@.len(),
        Cause::Declined(Pause::Warning(w)) => w < plan.warnings@.len(),
        Cause::TimedOut(Pause::Warning(w)) => w < plan.warnings@.len(),
        _ => true,
    }
}

/// The plan and the stage fit together: every place the stage names is a place
/// in the plan, and what the stage needs has been read.
pub open spec fn well_formed(plan: RecoveryPlan, s: Executor) -> bool {
    &&& s.registered <= plan.steps@.len()
    &&& s.stage is Completed || s.step < plan.steps@.len()
    &&& s.stage is Completed || s.registered <= s.step + 1
    &&& (s.stage is Aborted || s.stage is Cleanup) <==> s.cause is Some
    &&& s.cause matches Some(cause) ==> names_places(plan, current(plan, s), cause)
    &&& match s.stage {
        Stage::Warning(w) => w < plan.warnings@.len() && s.step == 0 && s.registered == 0,
        Stage::Verify { check: Check::Pre(i), again } => i < current(plan, s).pre_verify@.len(),
        Stage::Verify { check: Check::Post(i), again } => i < current(plan, s).verify@.len(),
        Stage::Read(Field::Trigger(source)) => current(plan, s).compute matches Some(
            RuntimeComputation::TrueZ(formula),
        ) && formula.trigger_source == source,
        Stage::Read(Field::Height) => match current(plan, s).compute {
            Some(RuntimeComputation::TrueZ(_)) => s.trigger is Some,
            Some(RuntimeComputation::ParkZ { .. }) => true,
            Some(RuntimeComputation::HoverPlane { .. }) => true,
            _ => false,
        },
        Stage::Read(Field::Accel) => match current(plan, s).compute {
            Some(RuntimeComputation::RecordMaxAccel) => true,
            Some(RuntimeComputation::RecordMachineAccel) => true,
            _ => false,
        },
        Stage::Compute => s.height is Some && match current(plan, s).compute {
            Some(RuntimeComputation::TrueZ(_)) => s.trigger is Some,
            Some(RuntimeComputation::ParkZ { .. }) => true,
            Some(RuntimeComputation::HoverPlane { .. }) => true,
            _ => false,
        },
        Stage::Send(command) => {
            &&& command < current(plan, s).commands@.len()
            &&& command_of(plan, s, command as int) is Text
            &&& s.registered == s.step + 1
        },
        Stage::PreviewRecheck(c) => plan.preview matches Some(spec) && c.in_bounds(spec),
        Stage::PreviewMove(c) => plan.preview matches Some(spec) && c.in_bounds(spec),
        Stage::PreviewAsk(c) => plan.preview matches Some(spec) && c.in_bounds(spec),
        Stage::PreviewWrite(c) => plan.preview matches Some(spec) && c.in_bounds(spec) && c.stop
            < spec.bindings@.len(),
        Stage::Cleanup { step, command } => {
            &&& step < s.registered
            &&& command < plan.steps@[step as int].cleanup_commands@.len()
            &&& cleanup_text(
                plan.steps@[step as int].cleanup_commands@[command as int]@,
                spelled(s.phase_accel),
                spelled(s.machine_accel),
            ) is Some
        },
        _ => true,
    }
}

/// `s` and the grown log are what `m` leads to.
pub open spec fn made(m: Move, before: Seq<Entry>, s: Executor, log: Seq<Entry>) -> bool {
    s == m.0 && log == before + m.1
}

proof fn lemma_recorded_first(before: Seq<Entry>, entry: Entry, m: Move, s: Executor, log: Seq<Entry>)
    requires
        made(m, before.push(entry), s, log),
    ensures
        made(after(seq![entry], m), before, s, log),
{
    assert(before.push(entry) + m.1 =~= before + (seq![entry] + m.1));
}

/// Records one entry.
fn note(log: &mut Vec<Entry>, entry: Entry)
    ensures
        final(log)@ == old(log)@.push(entry),
        final(log)@ == old(log)@ + seq![entry],
{
    log.push(entry);
    assert(log@ =~= old(log)@ + seq![entry]);
}

impl Executor {
    fn clean(&mut self, plan: &RecoveryPlan, steps: usize, command: usize, log: &mut Vec<Entry>)
        requires
            steps <= plan.steps@.len(),
        ensures
            made(
                cleaning(*plan, *old(self), steps as nat, command as nat),
                old(log)@,
                *final(self),
                final(log)@,
            ),
        decreases steps, plan.steps@[steps - 1].cleanup_commands@.len() - command,
    {
        if steps == 0 {
            note(log, Entry::Abort(self.step));
            self.stage = Stage::Aborted;
            return;
        }
        let commands = &plan.steps[steps - 1].cleanup_commands;
        if command >= commands.len() {
            self.clean(plan, steps - 1, 0, log);
            return;
        }
        let text = resolve_cleanup(
            commands[command].as_str(),
            self.phase_accel.as_ref(),
            self.machine_accel.as_ref(),
        );
        match text {
            Some(_) => {
                note(log, Entry::Cleanup { step: steps - 1, command });
                self.stage = Stage::Cleanup { step: steps - 1, command };
            },
            None => {
                let ghost before = log@;
                note(log, Entry::CleanupSkip { step: steps - 1, command });
                self.clean(plan, steps, command + 1, log);
                proof {
                    lemma_recorded_first(
                        before,
                        Entry::CleanupSkip { step: (steps - 1) as usize, command },
                        cleaning(*plan, *old(self), steps as nat, (command + 1) as nat),
                        *self,
                        log@,
                    );
                }
            },
        }
    }

    fn abort(&mut self, plan: &RecoveryPlan, cause: Cause, log: &mut Vec<Entry>)
        requires
            old(self).registered <= plan.steps@.len(),
        ensures
            made(
                aborting(*plan, *old(self), cause),
                old(log)@,
                *final(self),
                final(log)@,
            ),
    {
        self.cause = Some(cause);
        let registered: usize = self.registered;
        self.clean(plan, registered, 0, log);
    }

    fn ask(&mut self, stage: Stage, pause: Pause, log: &mut Vec<Entry>)
        ensures
            made(asking(*old(self), stage, pause), old(log)@, *final(self), final(log)@),
    {
        note(log, Entry::ConfirmPause { step: self.step, pause, shown: None, live_z: None });
        self.stage = stage;
    }

    fn warn(&mut self, plan: &RecoveryPlan, warning: usize, log: &mut Vec<Entry>)
        requires
            old(self).registered <= plan.steps@.len(),
            warning <= plan.warnings@.len(),
        ensures
            made(
                warned(*plan, *old(self), warning as nat),
                old(log)@,
                *final(self),
                final(log)@,
            ),
        decreases plan.warnings@.len() - warning,
    {
        if warning >= plan.warnings.len() {
            self.stage = Stage::Gate;
            assert(log@ =~= log@ + Seq::<Entry>::empty());
            return;
        }
        let ghost before = log@;
        match plan.warnings[warning].tier {
            Tier::Advisory => {
                note(log, Entry::Advisory(warning));
                self.warn(plan, warning + 1, log);
                proof {
                    lemma_recorded_first(
                        before,
                        Entry::Advisory(warning),
                        warned(*plan, *old(self), (warning + 1) as nat),
                        *self,
                        log@,
                    );
                }
            },
            Tier::Confirmable => {
                self.ask(Stage::Warning(warning), Pause::Warning(warning), log);
            },
            Tier::Hard => {
                note(log, Entry::HardRefusal(warning));
                self.abort(plan, Cause::Refusal(warning), log);
                proof {
                    lemma_recorded_first(
                        before,
                        Entry::HardRefusal(warning),
                        aborting(*plan, *old(self), Cause::Refusal(warning)),
                        *self,
                        log@,
                    );
                }
            },
        }
    }

    fn wait(&mut self, stage: Stage, Ghost(log): Ghost<Seq<Entry>>)
        ensures
            made((at(*old(self), stage), Seq::empty()), log, *final(self), log),
    {
        self.stage = stage;
        assert(log =~= log + Seq::<Entry>::empty());
    }

    /// Begins the execution of `plan`.
    pub fn start(plan: &RecoveryPlan, log: &mut Vec<Entry>) -> (r: Executor)
        ensures
            made(started(*plan), old(log)@, r, final(log)@),
            well_formed(*plan, r),
    {
        let mut s = Executor {
            stage: Stage::Gate,
            step: 0,
            registered: 0,
            phase_accel: None,
            machine_accel: None,
            computed: None,
            trigger: None,
            height: None,
            cause: None,
        };
        let ghost before = log@;
        note(log, Entry::PlanStart);
        if plan.steps.len() == 0 {
            note(log, Entry::PlanComplete);
            s.stage = Stage::Completed;
            assert(log@ =~= before + seq![Entry::PlanStart, Entry::PlanComplete]);
        } else {
            s.warn(plan, 0, log);
            proof {
                lemma_recorded_first(
                    before,
                    Entry::PlanStart,
                    warned(*plan, blank(), 0),
                    s,
                    log@,
                );
            }
        }
        proof {
            starting_is_well_formed(*plan);
        }
        s
    }

    fn finish_step(&mut self, plan: &RecoveryPlan, log: &mut Vec<Entry>)
        requires
            old(self).step < plan.steps@.len(),
        ensures
            made(step_done(*plan, *old(self)), old(log)@, *final(self), final(log)@),
    {
        let n: usize = plan.steps.len();
        if self.step + 1 >= n {
            note(log, Entry::PlanComplete);
            self.stage = Stage::Completed;
        } else {
            self.step = self.step + 1;
            self.stage = Stage::Gate;
            assert(log@ =~= log@ + Seq::<Entry>::empty());
        }
    }

    fn open_preview(&mut self, plan: &RecoveryPlan, log: &mut Vec<Entry>)
        requires
            old(self).step < plan.steps@.len(),
        ensures
            made(previewing(*plan, *old(self)), old(log)@, *final(self), final(log)@),
    {
        match &plan.preview {
            Some(spec) => if spec.stops.len() > 0 {
                self.wait(Stage::PreviewRecheck(open_cursor(spec)), Ghost(log@));
            } else {
                self.finish_step(plan, log);
            },
            None => {
                self.finish_step(plan, log);
            },
        }
    }

    fn verified_step(&mut self, plan: &RecoveryPlan, log: &mut Vec<Entry>)
        requires
            old(self).step < plan.steps@.len(),
        ensures
            made(verified(*plan, *old(self)), old(log)@, *final(self), final(log)@),
    {
        let ghost before = log@;
        let ghost entry = Entry::StepOk(self.step);
        note(log, Entry::StepOk(self.step));
        match plan.steps[self.step].phase {
            Phase::ZConfirmStandoff => {
                self.wait(Stage::ReadLiveZ, Ghost(log@));
                proof {
                    lemma_recorded_first(
                        before,
                        entry,
                        (at(*old(self), Stage::ReadLiveZ), Seq::empty()),
                        *self,
                        log@,
                    );
                }
            },
            Phase::ResumePreview => {
                self.open_preview(plan, log);
                proof {
                    lemma_recorded_first(
                        before,
                        entry,
                        previewing(*plan, *old(self)),
                        *self,
                        log@,
                    );
                }
            },
            _ => {
                self.finish_step(plan, log);
                proof {
                    lemma_recorded_first(before, entry, step_done(*plan, *old(self)), *self, log@);
                }
            },
        }
    }

    fn post_verify(&mut self, plan: &RecoveryPlan, index: usize, log: &mut Vec<Entry>)
        requires
            old(self).step < plan.steps@.len(),
        ensures
            made(
                post_verifying(*plan, *old(self), index as nat),
                old(log)@,
                *final(self),
                final(log)@,
            ),
    {
        if index >= plan.steps[self.step].verify.len() {
            self.verified_step(plan, log);
        } else {
            self.wait(Stage::Verify { check: Check::Post(index), again: false }, Ghost(log@));
        }
    }

    fn send(&mut self, plan: &RecoveryPlan, command: usize, log: &mut Vec<Entry>)
        requires
            old(self).step < plan.steps@.len(),
            old(self).registered <= plan.steps@.len(),
        ensures
            made(
                sending(*plan, *old(self), command as nat),
                old(log)@,
                *final(self),
                final(log)@,
            ),
    {
        let step = &plan.steps[self.step];
        if command >= step.commands.len() {
            self.post_verify(plan, 0, log);
            return;
        }
        let text = resolve_command(
            step.commands[command].as_str(),
            self.computed.as_ref(),
            self.machine_accel.as_ref(),
        );
        match text {
            Ok(_) => {
                note(log, Entry::Send { step: self.step, command });
                self.stage = Stage::Send(command);
            },
            Err(missing) => {
                self.abort(plan, Cause::Placeholder(missing), log);
            },
        }
    }

    fn run_with(&mut self, plan: &RecoveryPlan, value: Option<Reading>, log: &mut Vec<Entry>)
        requires
            old(self).step < plan.steps@.len(),
        ensures
            made(
                computed_as(*plan, *old(self), value),
                old(log)@,
                *final(self),
                final(log)@,
            ),
    {
        assert(plan.steps@.len() == plan.steps.len());
        self.computed = value;
        self.registered = self.step + 1;
        self.send(plan, 0, log);
    }

    fn compute(&mut self, plan: &RecoveryPlan, log: &mut Vec<Entry>)
        requires
            old(self).step < plan.steps@.len(),
        ensures
            made(computing(*plan, *old(self)), old(log)@, *final(self), final(log)@),
    {
        match &plan.steps[self.step].compute {
            None => {
                let value = self.phase_accel.clone();
                assert(value == self.phase_accel);
                self.run_with(plan, value, log);
            },
            Some(RuntimeComputation::TrueZ(formula)) => {
                self.wait(Stage::Read(Field::Trigger(formula.trigger_source)), Ghost(log@));
            },
            Some(RuntimeComputation::ParkZ { .. }) => {
                self.wait(Stage::Read(Field::Height), Ghost(log@));
            },
            Some(RuntimeComputation::HoverPlane { .. }) => {
                self.wait(Stage::Read(Field::Height), Ghost(log@));
            },
            Some(RuntimeComputation::RecordMaxAccel) => {
                self.wait(Stage::Read(Field::Accel), Ghost(log@));
            },
            Some(RuntimeComputation::RecordMachineAccel) => {
                self.wait(Stage::Read(Field::Accel), Ghost(log@));
            },
        }
    }

    fn pre_verify(&mut self, plan: &RecoveryPlan, index: usize, log: &mut Vec<Entry>)
        requires
            old(self).step < plan.steps@.len(),
        ensures
            made(
                pre_verifying(*plan, *old(self), index as nat),
                old(log)@,
                *final(self),
                final(log)@,
            ),
    {
        if index >= plan.steps[self.step].pre_verify.len() {
            self.compute(plan, log);
        } else {
            self.wait(Stage::Verify { check: Check::Pre(index), again: false }, Ghost(log@));
        }
    }

    fn run(&mut self, plan: &RecoveryPlan, log: &mut Vec<Entry>)
        requires
            old(self).step < plan.steps@.len(),
        ensures
            made(running(*plan, *old(self)), old(log)@, *final(self), final(log)@),
    {
        let ghost before = log@;
        note(log, Entry::StepStart(self.step));
        self.computed = None;
        self.trigger = None;
        self.height = None;
        let ghost fresh = *self;
        self.pre_verify(plan, 0, log);
        proof {
            lemma_recorded_first(
                before,
                Entry::StepStart(old(self).step),
                pre_verifying(*plan, fresh, 0),
                *self,
                log@,
            );
        }
    }

    fn answer(
        &mut self,
        plan: &RecoveryPlan,
        pause: Pause,
        answer: ConfirmAnswer,
        log: &mut Vec<Entry>,
    ) -> (go: bool)
        requires
            old(self).registered <= plan.steps@.len(),
        ensures
            go == (answer is Continue),
            go ==> *final(self) == *old(self) && final(log)@ == old(log)@.push(
                Entry::ConfirmAnswer { step: old(self).step, pause, answer },
            ),
            !go ==> forall|next: Move|
                made(
                    #[trigger] answered(*plan, *old(self), pause, answer, next),
                    old(log)@,
                    *final(self),
                    final(log)@,
                ),
    {
        let ghost before = log@;
        let ghost entry = Entry::ConfirmAnswer { step: self.step, pause, answer };
        note(log, Entry::ConfirmAnswer { step: self.step, pause, answer });
        match answer {
            ConfirmAnswer::Continue => true,
            ConfirmAnswer::Abort => {
                self.abort(plan, Cause::Declined(pause), log);
                proof {
                    lemma_recorded_first(
                        before,
                        entry,
                        aborting(*plan, *old(self), Cause::Declined(pause)),
                        *self,
                        log@,
                    );
                }
                false
            },
            ConfirmAnswer::TimedOut => {
                self.abort(plan, Cause::TimedOut(pause), log);
                proof {
                    lemma_recorded_first(
                        before,
                        entry,
                        aborting(*plan, *old(self), Cause::TimedOut(pause)),
                        *self,
                        log@,
                    );
                }
                false
            },
        }
    }

    fn check(
        &mut self,
        plan: &RecoveryPlan,
        check: Check,
        reply: Result<Json, String>,
        distance: Option<Num>,
        expired: bool,
        log: &mut Vec<Entry>,
    )
        requires
            well_formed(*plan, *old(self)),
            old(self).stage matches Stage::Verify { check: c, again } && c == check,
        ensures
            made(
                checked(*plan, *old(self), check, reply, distance, expired),
                old(log)@,
                *final(self),
                final(log)@,
            ),
    {
        let ghost before = log@;
        let status = match reply {
            Err(error) => {
                self.abort(plan, Cause::Transport(error), log);
                return;
            },
            Ok(status) => status,
        };
        let step = &plan.steps[self.step];
        let (v, against): (&Verification, Option<Num>) = match check {
            Check::Pre(index) => (&step.pre_verify[index], None),
            Check::Post(index) => (
                &step.verify[index],
                match &self.computed {
                    Some(reading) => Some(reading.num),
                    None => None,
                },
            ),
        };
        let value = lookup(&status, v.object.as_str(), v.field.as_str());
        let observed: Option<String> = match value {
            Some(json) => Some(json.spelling.clone()),
            None => None,
        };
        let holds: bool = evaluate(&v.predicate, value, against, distance);
        let ghost entry = Entry::Verify { step: self.step, check, observed, holds };
        if holds {
            note(log, Entry::Verify { step: self.step, check, observed, holds });
            assert(step.pre_verify@.len() == step.pre_verify.len());
            assert(step.verify@.len() == step.verify.len());
            match check {
                Check::Pre(index) => {
                    self.pre_verify(plan, index + 1, log);
                },
                Check::Post(index) => {
                    self.post_verify(plan, index + 1, log);
                },
            }
            proof {
                lemma_recorded_first(
                    before,
                    entry,
                    next_check(*plan, *old(self), check),
                    *self,
                    log@,
                );
            }
        } else if expired {
            let again: Option<String> = observed.clone();
            assert(again == observed);
            note(log, Entry::Verify { step: self.step, check, observed, holds });
            self.abort(plan, Cause::Verification { check, observed: again }, log);
            proof {
                lemma_recorded_first(
                    before,
                    entry,
                    aborting(*plan, *old(self), Cause::Verification { check, observed }),
                    *self,
                    log@,
                );
            }
        } else {
            self.wait(Stage::Verify { check, again: true }, Ghost(log@));
        }
    }

    fn number(
        &mut self,
        plan: &RecoveryPlan,
        field: Field,
        value: Reading,
        log: &mut Vec<Entry>,
    )
        requires
            old(self).step < plan.steps@.len(),
        ensures
            made(
                number_read(*plan, *old(self), field, value),
                old(log)@,
                *final(self),
                final(log)@,
            ),
    {
        let ghost before = log@;
        match field {
            Field::Trigger(_) => {
                self.trigger = Some(value);
                self.stage = Stage::Read(Field::Height);
                assert(log@ =~= log@ + Seq::<Entry>::empty());
            },
            Field::Height => {
                self.height = Some(value);
                self.stage = Stage::Compute;
                assert(log@ =~= log@ + Seq::<Entry>::empty());
            },
            Field::Accel => {
                let machine = match &plan.steps[self.step].compute {
                    Some(RuntimeComputation::RecordMachineAccel) => true,
                    _ => false,
                };
                note(log, Entry::RecordAccel { step: self.step, machine, value: value.clone() });
                if machine {
                    self.machine_accel = Some(value.clone());
                } else {
                    self.phase_accel = Some(value.clone());
                }
                let ghost slotted = *self;
                self.run_with(plan, Some(value), log);
                proof {
                    lemma_recorded_first(
                        before,
                        Entry::RecordAccel { step: old(self).step, machine, value },
                        computed_as(*plan, slotted, Some(value)),
                        *self,
                        log@,
                    );
                }
            },
        }
    }

    fn preview(
        &mut self,
        plan: &RecoveryPlan,
        c: Cursor,
        answer: PreviewAnswer,
        log: &mut Vec<Entry>,
    )
        requires
            well_formed(*plan, *old(self)),
            old(self).stage == Stage::PreviewAsk(c),
        ensures
            made(
                preview_answered(*plan, *old(self), c, answer),
                old(log)@,
                *final(self),
                final(log)@,
            ),
    {
        let ghost before = log@;
        let ghost entry = Entry::PreviewAnswer { step: self.step, choice: answer };
        note(log, Entry::PreviewAnswer { step: self.step, choice: answer });
        let ghost noted = log@;
        match answer {
            PreviewAnswer::Abort => {
                self.abort(plan, Cause::Declined(Pause::Preview), log);
            },
            PreviewAnswer::TimedOut => {
                self.abort(plan, Cause::TimedOut(Pause::Preview), log);
            },
            PreviewAnswer::Accept => {
                if let Some(spec) = &plan.preview {
                    match spec.binding(c.stop) {
                        Some(_) => {
                            note(log, Entry::PreviewAccept { step: self.step, stop: c.stop });
                            self.stage = Stage::PreviewWrite(c);
                        },
                        None => {
                            self.abort(plan, Cause::NoBinding, log);
                        },
                    }
                }
            },
            _ => {
                if let Some(spec) = &plan.preview {
                    let next = move_cursor(spec, c, answer);
                    self.wait(Stage::PreviewRecheck(next), Ghost(log@));
                }
            },
        }
        proof {
            lemma_recorded_first(
                before,
                entry,
                preview_rest(*plan, *old(self), c, answer),
                *self,
                log@,
            );
        }
    }

    /// Takes the reply the stage waits for, moves on, and appends to `log` what
    /// the transcript records of the move.
    pub fn on_event(&mut self, plan: &RecoveryPlan, event: Event, log: &mut Vec<Entry>)
        requires
            well_formed(*plan, *old(self)),
        ensures
            made(stepped(*plan, *old(self), event), old(log)@, *final(self), final(log)@),
            well_formed(*plan, *final(self)),
    {
        proof {
            stepping_keeps_well_formed(*plan, *self, event);
            assert(plan.warnings@.len() == plan.warnings.len());
        }
        let ghost before = log@;
        let ghost s = *self;
        assert(before =~= before + Seq::<Entry>::empty());
        match (self.stage, event) {
            (Stage::Warning(w), Event::Answer(answer)) => {
                if self.answer(plan, Pause::Warning(w), answer, log) {
                    self.warn(plan, w + 1, log);
                    proof {
                        lemma_recorded_first(
                            before,
                            Entry::ConfirmAnswer { step: s.step, pause: Pause::Warning(w), answer },
                            warned(*plan, s, (w + 1) as nat),
                            *self,
                            log@,
                        );
                    }
                }
            },
            (Stage::Gate, Event::Gate(go)) => {
                if !go {
                    note(log, Entry::OperatorDeclined(self.step));
                    self.abort(plan, Cause::Gate, log);
                    proof {
                        lemma_recorded_first(
                            before,
                            Entry::OperatorDeclined(s.step),
                            aborting(*plan, s, Cause::Gate),
                            *self,
                            log@,
                        );
                    }
                } else if plan.debug_confirm_each_step {
                    self.ask(Stage::StepDebug, Pause::StepDebug, log);
                } else {
                    self.wait(Stage::Recheck, Ghost(log@));
                }
            },
            (Stage::StepDebug, Event::Answer(answer)) => {
                if self.answer(plan, Pause::StepDebug, answer, log) {
                    self.wait(Stage::Recheck, Ghost(log@));
                    proof {
                        lemma_recorded_first(
                            before,
                            Entry::ConfirmAnswer { step: s.step, pause: Pause::StepDebug, answer },
                            (at(s, Stage::Recheck), Seq::empty()),
                            *self,
                            log@,
                        );
                    }
                }
            },
            (Stage::Recheck, Event::Exclusive(Ok(_))) => {
                let id: u32 = plan.steps[self.step].id;
                match plan.shifted() {
                    Some(shifted) => if shifted == id {
                        self.wait(Stage::Arm, Ghost(log@));
                    } else {
                        self.run(plan, log);
                    },
                    None => {
                        self.run(plan, log);
                    },
                }
            },
            (Stage::Recheck, Event::Exclusive(Err(reason))) => {
                note(log, Entry::ExclusivityLost { step: self.step, reason: reason.clone() });
                self.abort(plan, Cause::Exclusivity(reason), log);
                proof {
                    lemma_recorded_first(
                        before,
                        Entry::ExclusivityLost { step: s.step, reason },
                        aborting(*plan, s, Cause::Exclusivity(reason)),
                        *self,
                        log@,
                    );
                }
            },
            (Stage::Arm, Event::Armed(Ok(_))) => {
                note(log, Entry::FrameArmed(self.step));
                self.run(plan, log);
                proof {
                    lemma_recorded_first(
                        before,
                        Entry::FrameArmed(s.step),
                        running(*plan, s),
                        *self,
                        log@,
                    );
                }
            },
            (Stage::Arm, Event::Armed(Err(reason))) => {
                note(log, Entry::FrameArmFailed { step: self.step, reason: reason.clone() });
                self.abort(plan, Cause::Arm(reason), log);
                proof {
                    lemma_recorded_first(
                        before,
                        Entry::FrameArmFailed { step: s.step, reason },
                        aborting(*plan, s, Cause::Arm(reason)),
                        *self,
                        log@,
                    );
                }
            },
            (Stage::Verify { check, .. }, Event::Status { reply, distance, expired }) => {
                self.check(plan, check, reply, distance, expired, log);
            },
            (Stage::Read(field), Event::Status { reply, .. }) => {
                match query_number(field, reply) {
                    Ok(value) => {
                        self.number(plan, field, value, log);
                    },
                    Err(cause) => {
                        self.abort(plan, cause, log);
                    },
                }
            },
            (Stage::Compute, Event::Computed(Ok(value))) => {
                let trigger = self.trigger.clone();
                let height = self.height.clone();
                assert(trigger == self.trigger && height == self.height);
                note(
                    log,
                    Entry::Compute { step: self.step, trigger, height, value: value.clone() },
                );
                self.run_with(plan, Some(value), log);
                proof {
                    lemma_recorded_first(
                        before,
                        Entry::Compute {
                            step: s.step,
                            trigger: s.trigger,
                            height: s.height,
                            value,
                        },
                        computed_as(*plan, s, Some(value)),
                        *self,
                        log@,
                    );
                }
            },
            (Stage::Compute, Event::Computed(Err(error))) => {
                self.abort(plan, Cause::Compute(error), log);
            },
            (Stage::Send(command), Event::Sent(Ok(_))) => {
                note(log, Entry::ResponseOk(self.step));
                assert(current(*plan, s).commands@.len() == current(*plan, s).commands.len());
                self.send(plan, command + 1, log);
                proof {
                    lemma_recorded_first(
                        before,
                        Entry::ResponseOk(s.step),
                        sending(*plan, s, (command + 1) as nat),
                        *self,
                        log@,
                    );
                }
            },
            (Stage::Send(_), Event::Sent(Err(error))) => {
                note(log, Entry::ResponseError { step: self.step, error: error.clone() });
                self.abort(plan, Cause::Command(error), log);
                proof {
                    lemma_recorded_first(
                        before,
                        Entry::ResponseError { step: s.step, error },
                        aborting(*plan, s, Cause::Command(error)),
                        *self,
                        log@,
                    );
                }
            },
            (Stage::ReadLiveZ, Event::Status { reply, .. }) => {
                let live_z: Option<Reading> = match query_number(Field::Height, reply) {
                    Ok(value) => Some(value),
                    Err(_) => None,
                };
                self.height = live_z.clone();
                assert(self.height == live_z);
                note(
                    log,
                    Entry::ConfirmPause {
                        step: self.step,
                        pause: Pause::ZHeight,
                        shown: None,
                        live_z,
                    },
                );
                self.stage = Stage::ZHeight;
            },
            (Stage::ZHeight, Event::Answer(answer)) => {
                if self.answer(plan, Pause::ZHeight, answer, log) {
                    self.finish_step(plan, log);
                    proof {
                        lemma_recorded_first(
                            before,
                            Entry::ConfirmAnswer { step: s.step, pause: Pause::ZHeight, answer },
                            step_done(*plan, s),
                            *self,
                            log@,
                        );
                    }
                }
            },
            (Stage::PreviewRecheck(c), Event::Exclusive(Ok(_))) => {
                note(log, Entry::PreviewReposition { step: self.step, stop: c.stop });
                self.stage = Stage::PreviewMove(c);
            },
            (Stage::PreviewRecheck(_), Event::Exclusive(Err(reason))) => {
                note(log, Entry::ExclusivityLost { step: self.step, reason: reason.clone() });
                self.abort(plan, Cause::Exclusivity(reason), log);
                proof {
                    lemma_recorded_first(
                        before,
                        Entry::ExclusivityLost { step: s.step, reason },
                        aborting(*plan, s, Cause::Exclusivity(reason)),
                        *self,
                        log@,
                    );
                }
            },
            (Stage::PreviewMove(c), Event::Sent(Ok(_))) => {
                note(
                    log,
                    Entry::ConfirmPause {
                        step: self.step,
                        pause: Pause::Preview,
                        shown: Some(c.stop),
                        live_z: None,
                    },
                );
                self.stage = Stage::PreviewAsk(c);
            },
            (Stage::PreviewMove(_), Event::Sent(Err(error))) => {
                self.abort(plan, Cause::Command(error), log);
            },
            (Stage::PreviewAsk(c), Event::Preview(answer)) => {
                self.preview(plan, c, answer, log);
            },
            (Stage::PreviewWrite(_), Event::Written(Ok(_))) => {
                self.finish_step(plan, log);
            },
            (Stage::PreviewWrite(_), Event::Written(Err(reason))) => {
                note(log, Entry::PreviewWriteFailed { step: self.step, reason: reason.clone() });
                self.abort(plan, Cause::Write(reason), log);
                proof {
                    lemma_recorded_first(
                        before,
                        Entry::PreviewWriteFailed { step: s.step, reason },
                        aborting(*plan, s, Cause::Write(reason)),
                        *self,
                        log@,
                    );
                }
            },
            (Stage::Cleanup { step, command }, Event::Sent(Ok(_))) => {
                note(log, Entry::CleanupOk(step));
                assert(plan.steps@[step as int].cleanup_commands@.len()
                    == plan.steps@[step as int].cleanup_commands.len());
                self.clean(plan, step + 1, command + 1, log);
                proof {
                    lemma_recorded_first(
                        before,
                        Entry::CleanupOk(step),
                        cleaning(*plan, s, (step + 1) as nat, (command + 1) as nat),
                        *self,
                        log@,
                    );
                }
            },
            (Stage::Cleanup { step, command }, Event::Sent(Err(error))) => {
                note(log, Entry::CleanupError { step, error });
                assert(plan.steps@[step as int].cleanup_commands@.len()
                    == plan.steps@[step as int].cleanup_commands.len());
                self.clean(plan, step + 1, command + 1, log);
                proof {
                    lemma_recorded_first(
                        before,
                        Entry::CleanupError { step, error },
                        cleaning(*plan, s, (step + 1) as nat, (command + 1) as nat),
                        *self,
                        log@,
                    );
                }
            },
            _ => {},
        }
    }
}

/// The finite number a field holds in a status, or why there is none.
pub fn query_number(field: Field, reply: Result<Json, String>) -> (r: Result<Reading, Cause>)
    ensures
        r == read_number(field, reply),
{
    let status = match reply {
        Err(error) => {
            return Err(Cause::Transport(error));
        },
        Ok(status) => status,
    };
    let (object, path) = match field {
        Field::Trigger(source) => trigger_field(source),
        Field::Height => ("toolhead", "position.2"),
        Field::Accel => ("toolhead", "max_accel"),
    };
    match lookup(&status, object, path) {
        None => Err(Cause::Absent(field)),
        Some(value) => match value.as_number() {
            Some(reading) => if reading.num.is_finite() {
                Ok(reading.clone())
            } else {
                Err(Cause::NotFinite(field))
            },
            None => Err(Cause::NotFinite(field)),
        },
    }
}

/// An execution begins well-formed.
pub proof fn starting_is_well_formed(plan: RecoveryPlan)
    ensures
        well_formed(plan, started(plan).0),
{
    if plan.steps@.len() > 0 {
        lemma_warned(plan, blank(), 0);
    }
}

proof fn lemma_cleaning(plan: RecoveryPlan, s: Executor, steps: nat, command: nat)
    requires
        steps <= s.registered,
        s.registered <= plan.steps@.len(),
        s.step < plan.steps@.len(),
        s.registered <= s.step + 1,
        s.cause matches Some(cause) && names_places(plan, current(plan, s), cause),
    ensures
        well_formed(plan, cleaning(plan, s, steps, command).0),
    decreases steps, plan.steps@[steps - 1].cleanup_commands@.len() - command,
{
    if steps > 0 {
        let commands = plan.steps@[steps - 1].cleanup_commands@;
        assert(commands.len() == plan.steps@[steps - 1].cleanup_commands.len());
        if command >= commands.len() {
            lemma_cleaning(plan, s, (steps - 1) as nat, 0);
        } else if cleanup_text(
            commands[command as int]@,
            spelled(s.phase_accel),
            spelled(s.machine_accel),
        ) is None {
            lemma_cleaning(plan, s, steps, command + 1);
        }
    }
}

proof fn lemma_aborting(plan: RecoveryPlan, s: Executor, cause: Cause)
    requires
        s.registered <= plan.steps@.len(),
        s.step < plan.steps@.len(),
        s.registered <= s.step + 1,
        names_places(plan, current(plan, s), cause),
    ensures
        well_formed(plan, aborting(plan, s, cause).0),
{
    lemma_cleaning(plan, Executor { cause: Some(cause), ..s }, s.registered as nat, 0);
}

proof fn lemma_warned(plan: RecoveryPlan, s: Executor, warning: nat)
    requires
        warning <= plan.warnings@.len(),
        plan.steps@.len() > 0,
        s.step == 0,
        s.registered == 0,
        s.cause is None,
    ensures
        well_formed(plan, warned(plan, s, warning).0),
    decreases plan.warnings@.len() - warning,
{
    assert(plan.warnings@.len() == plan.warnings.len());
    if warning < plan.warnings@.len() {
        match plan.warnings@[warning as int].tier {
            Tier::Advisory => {
                lemma_warned(plan, s, warning + 1);
            },
            Tier::Confirmable => {},
            Tier::Hard => {
                lemma_aborting(plan, s, Cause::Refusal(warning as usize));
            },
        }
    }
}

/// What holds of an execution that stands at a step and has not stopped.
spec fn underway(plan: RecoveryPlan, s: Executor) -> bool {
    &&& s.step < plan.steps@.len()
    &&& s.registered <= s.step + 1
    &&& s.registered <= plan.steps@.len()
    &&& s.cause is None
}

proof fn lemma_step_done(plan: RecoveryPlan, s: Executor)
    requires
        underway(plan, s),
    ensures
        well_formed(plan, step_done(plan, s).0),
{
    assert(plan.steps@.len() == plan.steps.len());
}

proof fn lemma_verified(plan: RecoveryPlan, s: Executor)
    requires
        underway(plan, s),
    ensures
        well_formed(plan, verified(plan, s).0),
{
    lemma_step_done(plan, s);
    if let Some(spec) = plan.preview {
        if spec.stops@.len() > 0 {
            let first = Cursor { stop: 0, rep: 0 };
            assert(first.in_bounds(spec));
            the_cursor_never_leaves_the_stops(spec, first, PreviewAnswer::Abort);
        }
    }
}

proof fn lemma_post_verifying(plan: RecoveryPlan, s: Executor, index: nat)
    requires
        underway(plan, s),
    ensures
        well_formed(plan, post_verifying(plan, s, index).0),
{
    lemma_verified(plan, s);
    assert(current(plan, s).verify@.len() == current(plan, s).verify.len());
}

proof fn lemma_sending(plan: RecoveryPlan, s: Executor, command: nat)
    requires
        underway(plan, s),
        s.registered == s.step + 1,
    ensures
        well_formed(plan, sending(plan, s, command).0),
{
    lemma_post_verifying(plan, s, 0);
    lemma_aborting(plan, s, Cause::Placeholder(Unresolved::NoComputed));
    lemma_aborting(plan, s, Cause::Placeholder(Unresolved::NoMachineAccel));
    assert(current(plan, s).commands@.len() == current(plan, s).commands.len());
}

proof fn lemma_computed_as(plan: RecoveryPlan, s: Executor, value: Option<Reading>)
    requires
        underway(plan, s),
    ensures
        well_formed(plan, computed_as(plan, s, value).0),
{
    assert(plan.steps@.len() == plan.steps.len());
    lemma_sending(
        plan,
        Executor { computed: value, registered: (s.step + 1) as usize, ..s },
        0,
    );
}

proof fn lemma_pre_verifying(plan: RecoveryPlan, s: Executor, index: nat)
    requires
        underway(plan, s),
    ensures
        well_formed(plan, pre_verifying(plan, s, index).0),
{
    lemma_computed_as(plan, s, s.phase_accel);
    assert(current(plan, s).pre_verify@.len() == current(plan, s).pre_verify.len());
}

proof fn lemma_running(plan: RecoveryPlan, s: Executor)
    requires
        underway(plan, s),
    ensures
        well_formed(plan, running(plan, s).0),
{
    lemma_pre_verifying(plan, Executor { computed: None, trigger: None, height: None, ..s }, 0);
}

proof fn lemma_checked(
    plan: RecoveryPlan,
    s: Executor,
    check: Check,
    reply: Result<Json, String>,
    distance: Option<Num>,
    expired: bool,
)
    requires
        well_formed(plan, s),
        s.stage matches Stage::Verify { check: c, again } && c == check,
    ensures
        well_formed(plan, checked(plan, s, check, reply, distance, expired).0),
{
    match reply {
        Err(error) => {
            lemma_aborting(plan, s, Cause::Transport(error));
        },
        Ok(status) => {
            let v = check_of(current(plan, s), check);
            let value = seen(v, status);
            lemma_aborting(plan, s, Cause::Verification { check, observed: spelling_of(value) });
            match check {
                Check::Pre(index) => {
                    lemma_pre_verifying(plan, s, (index + 1) as nat);
                },
                Check::Post(index) => {
                    lemma_post_verifying(plan, s, (index + 1) as nat);
                },
            }
        },
    }
}

proof fn lemma_number_read(plan: RecoveryPlan, s: Executor, field: Field, value: Reading)
    requires
        well_formed(plan, s),
        s.stage == Stage::Read(field),
    ensures
        well_formed(plan, number_read(plan, s, field, value).0),
{
    lemma_computed_as(plan, Executor { machine_accel: Some(value), ..s }, Some(value));
    lemma_computed_as(plan, Executor { phase_accel: Some(value), ..s }, Some(value));
}

proof fn lemma_answered(plan: RecoveryPlan, s: Executor, pause: Pause, answer: ConfirmAnswer, go: Move)
    requires
        underway(plan, s),
        well_formed(plan, go.0),
        pause matches Pause::Warning(w) ==> w < plan.warnings@.len(),
    ensures
        well_formed(plan, answered(plan, s, pause, answer, go).0),
{
    lemma_aborting(plan, s, Cause::Declined(pause));
    lemma_aborting(plan, s, Cause::TimedOut(pause));
}

/// No event takes an execution out of its well-formed states.
pub proof fn stepping_keeps_well_formed(plan: RecoveryPlan, s: Executor, event: Event)
    requires
        well_formed(plan, s),
    ensures
        well_formed(plan, stepped(plan, s, event).0),
{
    match (s.stage, event) {
        (Stage::Warning(w), Event::Answer(answer)) => {
            lemma_warned(plan, s, (w + 1) as nat);
            lemma_answered(
                plan,
                s,
                Pause::Warning(w),
                answer,
                warned(plan, s, (w + 1) as nat),
            );
        },
        (Stage::Gate, Event::Gate(go)) => {
            lemma_aborting(plan, s, Cause::Gate);
        },
        (Stage::StepDebug, Event::Answer(answer)) => {
            lemma_answered(
                plan,
                s,
                Pause::StepDebug,
                answer,
                (at(s, Stage::Recheck), Seq::empty()),
            );
        },
        (Stage::Recheck, Event::Exclusive(Ok(_))) => {
            lemma_running(plan, s);
        },
        (Stage::Recheck, Event::Exclusive(Err(reason))) => {
            lemma_aborting(plan, s, Cause::Exclusivity(reason));
        },
        (Stage::Arm, Event::Armed(Ok(_))) => {
            lemma_running(plan, s);
        },
        (Stage::Arm, Event::Armed(Err(reason))) => {
            lemma_aborting(plan, s, Cause::Arm(reason));
        },
        (Stage::Verify { check, again }, Event::Status { reply, distance, expired }) => {
            lemma_checked(plan, s, check, reply, distance, expired);
        },
        (Stage::Read(field), Event::Status { reply, distance, expired }) => {
            match read_number(field, reply) {
                Ok(value) => {
                    lemma_number_read(plan, s, field, value);
                },
                Err(cause) => {
                    lemma_aborting(plan, s, cause);
                },
            }
        },
        (Stage::Compute, Event::Computed(Ok(value))) => {
            lemma_computed_as(plan, s, Some(value));
        },
        (Stage::Compute, Event::Computed(Err(error))) => {
            lemma_aborting(plan, s, Cause::Compute(error));
        },
        (Stage::Send(command), Event::Sent(Ok(_))) => {
            lemma_sending(plan, s, (command + 1) as nat);
        },
        (Stage::Send(command), Event::Sent(Err(error))) => {
            lemma_aborting(plan, s, Cause::Command(error));
        },
        (Stage::ZHeight, Event::Answer(answer)) => {
            lemma_step_done(plan, s);
            lemma_answered(plan, s, Pause::ZHeight, answer, step_done(plan, s));
        },
        (Stage::PreviewRecheck(c), Event::Exclusive(Err(reason))) => {
            lemma_aborting(plan, s, Cause::Exclusivity(reason));
        },
        (Stage::PreviewMove(c), Event::Sent(Err(error))) => {
            lemma_aborting(plan, s, Cause::Command(error));
        },
        (Stage::PreviewAsk(c), Event::Preview(answer)) => {
            lemma_aborting(plan, s, Cause::NoBinding);
            lemma_aborting(plan, s, Cause::Declined(Pause::Preview));
            lemma_aborting(plan, s, Cause::TimedOut(Pause::Preview));
            if let Some(spec) = plan.preview {
                the_cursor_never_leaves_the_stops(spec, c, answer);
            }
        },
        (Stage::PreviewWrite(c), Event::Written(Ok(_))) => {
            lemma_step_done(plan, s);
        },
        (Stage::PreviewWrite(c), Event::Written(Err(reason))) => {
            lemma_aborting(plan, s, Cause::Write(reason));
        },
        (Stage::Cleanup { step, command }, Event::Sent(_)) => {
            lemma_cleaning(plan, s, (step + 1) as nat, (command + 1) as nat);
        },
        _ => {},
    }
}

} // verus!
