//! What a plan execution is made of: the dry run, the tuning, the questions and
//! answers, the classified failures, and why an execution stopped.

use vstd::prelude::*;

use crate::number::Span;
use crate::plan::{Diagnosis, PreviewBinding, RecoveryPlan, RecoveryStep, Tier};
use crate::text::{contains, occurs};

verus! {

/// What a dry run would send, with no means to send it.
#[derive(Debug, Clone, PartialEq)]
pub struct DryRun {
    /// `(step id, command)` in exact send order, with placeholders left as
    /// they are: their values do not exist until a live run.
    pub would_send: Vec<(u32, String)>,
    /// The full rendered plan.
    pub rendered: String,
}

/// The step ids and commands of one step, in order.
pub open spec fn step_commands(step: RecoveryStep) -> Seq<(u32, Seq<char>)> {
    step.commands@.map_values(|c: String| (step.id, c@))
}

/// The step ids and commands of the first `n` steps, in order.
pub open spec fn plan_commands(plan: RecoveryPlan, n: nat) -> Seq<(u32, Seq<char>)>
    decreases n,
{
    if n == 0 {
        Seq::empty()
    } else {
        plan_commands(plan, (n - 1) as nat) + step_commands(plan.steps@[n - 1])
    }
}

/// Pairs with the command as text.
pub open spec fn listed(pairs: Seq<(u32, String)>) -> Seq<(u32, Seq<char>)> {
    pairs.map_values(|p: (u32, String)| (p.0, p.1@))
}

/// Enumerates the plan without any ability to execute it.
pub fn dry_run(plan: &RecoveryPlan) -> (r: DryRun)
    ensures
        listed(r.would_send@) == plan_commands(*plan, plan.steps@.len()),
        r.rendered@ == plan.rendered@,
{
    let mut would_send: Vec<(u32, String)> = Vec::new();
    assert(listed(would_send@) =~= plan_commands(*plan, 0));
    let mut i: usize = 0;
    while i < plan.steps.len()
        invariant
            0 <= i <= plan.steps@.len(),
            listed(would_send@) == plan_commands(*plan, i as nat),
        decreases plan.steps@.len() - i,
    {
        let step = &plan.steps[i];
        let ghost before = listed(would_send@);
        let mut j: usize = 0;
        assert(step_commands(*step).take(0) =~= Seq::empty());
        assert(before + Seq::<(u32, Seq<char>)>::empty() =~= before);
        while j < step.commands.len()
            invariant
                0 <= j <= step.commands@.len(),
                listed(would_send@) == before + step_commands(*step).take(j as int),
            decreases step.commands@.len() - j,
        {
            let ghost sent = would_send@;
            would_send.push((step.id, step.commands[j].clone()));
            assert(listed(would_send@) =~= listed(sent).push((step.id, step.commands@[j as int]@)));
            assert(step_commands(*step).take(j + 1) =~= step_commands(*step).take(j as int).push(
                (step.id, step.commands@[j as int]@),
            ));
            j = j + 1;
            assert(listed(would_send@) =~= before + step_commands(*step).take(j as int));
        }
        assert(step_commands(*step).take(j as int) =~= step_commands(*step));
        i = i + 1;
    }
    DryRun { would_send, rendered: plan.rendered.clone() }
}

/// Execution tuning.
#[derive(Debug, Clone, Copy, PartialEq, Eq, Structural)]
pub struct ExecOptions {
    /// Poll deadline for predicates that settle at once.
    pub verify_timeout: Span,
    /// Poll deadline for temperatures.
    pub temp_timeout: Span,
    /// Poll interval.
    pub poll_interval: Span,
    /// Deadline of a question when the plan carries none.
    pub confirm_timeout: Span,
    /// Budget for the g-code mutex when the plan carries none.
    pub gcode_barrier_timeout: Span,
}

impl ExecOptions {
    /// Production tuning: ten seconds for state to settle, fifteen minutes to
    /// heat, two polls a second, and the given deadlines for questions and for
    /// the g-code mutex.
    pub fn production(confirm_timeout: Span, gcode_barrier_timeout: Span) -> (r: Self)
        ensures
            r.verify_timeout.nanos == 10_000_000_000,
            r.temp_timeout.nanos == 900_000_000_000,
            r.poll_interval.nanos == 500_000_000,
            r.confirm_timeout == confirm_timeout,
            r.gcode_barrier_timeout == gcode_barrier_timeout,
    {
        ExecOptions {
            verify_timeout: Span::from_secs(10),
            temp_timeout: Span::from_secs(900),
            poll_interval: Span::from_millis(500),
            confirm_timeout,
            gcode_barrier_timeout,
        }
    }
}

/// Which feature raised a pause.
#[derive(Debug, Clone, Copy, PartialEq, Eq, Structural)]
pub enum ConfirmKind {
    /// A confirmable diagnosis from the pre-flight.
    Diagnosis,
    /// The Z-height confirmation.
    ZHeight,
    /// The pause before each step.
    StepDebug,
    /// The resume-point preview, answered with a [`PreviewAnswer`].
    Preview,
}

/// The stable tag of a kind of pause.
pub open spec fn kind_tag(kind: ConfirmKind) -> Seq<char> {
    match kind {
        ConfirmKind::Diagnosis => "diagnosis"@,
        ConfirmKind::ZHeight => "z-height"@,
        ConfirmKind::StepDebug => "step-debug"@,
        ConfirmKind::Preview => "preview"@,
    }
}

impl ConfirmKind {
    /// Stable tag carried in the transcript and the socket response.
    pub fn tag(self) -> (r: &'static str)
        ensures
            r@ == kind_tag(self),
    {
        match self {
            ConfirmKind::Diagnosis => "diagnosis",
            ConfirmKind::ZHeight => "z-height",
            ConfirmKind::StepDebug => "step-debug",
            ConfirmKind::Preview => "preview",
        }
    }
}

/// The answer to a resume-preview pause.
#[derive(Debug, Clone, Copy, PartialEq, Eq, Structural)]
pub enum PreviewAnswer {
    /// Commit the current stop as the resume point.
    Accept,
    /// Jump to the next representative.
    NextRep,
    /// Jump to the previous representative.
    PrevRep,
    /// Move this many stops along the toolpath.
    Nudge(i32),
    /// Stop; abort the recovery.
    Abort,
    /// Nobody answered within the deadline.
    TimedOut,
}

/// The stable tag of a preview answer.
pub open spec fn preview_tag(answer: PreviewAnswer) -> Seq<char> {
    match answer {
        PreviewAnswer::Accept => "accept"@,
        PreviewAnswer::NextRep => "next"@,
        PreviewAnswer::PrevRep => "prev"@,
        PreviewAnswer::Nudge(_) => "nudge"@,
        PreviewAnswer::Abort => "abort"@,
        PreviewAnswer::TimedOut => "timeout"@,
    }
}

impl PreviewAnswer {
    /// Stable tag carried in the transcript.
    pub fn tag(self) -> (r: &'static str)
        ensures
            r@ == preview_tag(self),
    {
        match self {
            PreviewAnswer::Accept => "accept",
            PreviewAnswer::NextRep => "next",
            PreviewAnswer::PrevRep => "prev",
            PreviewAnswer::Nudge(_) => "nudge",
            PreviewAnswer::Abort => "abort",
            PreviewAnswer::TimedOut => "timeout",
        }
    }
}

/// The answer to a yes-or-no pause.
#[derive(Debug, Clone, Copy, PartialEq, Eq, Structural)]
pub enum ConfirmAnswer {
    /// Proceed anyway.
    Continue,
    /// Stop; abort the recovery.
    Abort,
    /// Nobody answered within the deadline; treated as an abort.
    TimedOut,
}

/// The stable tag of an answer.
pub open spec fn answer_tag(answer: ConfirmAnswer) -> Seq<char> {
    match answer {
        ConfirmAnswer::Continue => "continue"@,
        ConfirmAnswer::Abort => "abort"@,
        ConfirmAnswer::TimedOut => "timeout"@,
    }
}

impl ConfirmAnswer {
    /// Stable tag carried in the transcript.
    pub fn tag(self) -> (r: &'static str)
        ensures
            r@ == answer_tag(self),
    {
        match self {
            ConfirmAnswer::Continue => "continue",
            ConfirmAnswer::Abort => "abort",
            ConfirmAnswer::TimedOut => "timeout",
        }
    }
}

/// The exact Klipper error of a probe that was already in contact.
pub const PROBE_TRIGGERED_EARLY: &'static str = "Probe triggered prior to movement";

/// The exact Klipper error of a probe that never triggered.
pub const NO_TRIGGER_FULL_MOVEMENT: &'static str = "No trigger on probe after full movement";

/// A stable part of the message of a touch sequence that found no agreeing
/// samples.
pub const TOUCH_CONSENSUS_FAILURE_MARKER: &'static str = "in a sliding window of";

/// The exact Klipper error of an out-of-range move.
pub const MOVE_OUT_OF_RANGE: &'static str = "Move out of range";

/// A classified Klipper command failure.
#[derive(Debug, Clone, Copy, PartialEq, Eq, Structural)]
pub enum StepFailure {
    /// The probe was in contact before the descent moved.
    ProbeTriggeredEarly,
    /// The probe never triggered, or its touches did not agree.
    NoTrigger,
    /// The move was out of range.
    MoveOutOfRange,
    /// Any other command error.
    Unknown,
}

/// The class of a Klipper error message: the first of the known errors that
/// stands in it.
pub open spec fn failure_class(message: Seq<char>) -> StepFailure {
    if occurs(message, PROBE_TRIGGERED_EARLY@) {
        StepFailure::ProbeTriggeredEarly
    } else if occurs(message, NO_TRIGGER_FULL_MOVEMENT@) || occurs(
        message,
        TOUCH_CONSENSUS_FAILURE_MARKER@,
    ) {
        StepFailure::NoTrigger
    } else if occurs(message, MOVE_OUT_OF_RANGE@) {
        StepFailure::MoveOutOfRange
    } else {
        StepFailure::Unknown
    }
}

/// The stable tag of a failure class.
pub open spec fn failure_code(failure: StepFailure) -> Seq<char> {
    match failure {
        StepFailure::ProbeTriggeredEarly => "probe-triggered-early"@,
        StepFailure::NoTrigger => "no-trigger"@,
        StepFailure::MoveOutOfRange => "move-out-of-range"@,
        StepFailure::Unknown => "unknown"@,
    }
}

/// What was seen: a probe that was already in contact.
pub const EARLY_WHAT: &'static str = "the probe reported a trigger before the descent had moved";

/// Why it stops the recovery: a probe that was already in contact.
pub const EARLY_WHY: &'static str = "Klipper saw the probe already in contact when the move started. Either the nozzle was resting on the part (the believed Z was too low), or the probe is stuck triggered. Either way the reading that would come out of this is not a measurement of anything, and the true-Z arithmetic built on it would put the frame in the wrong place for the rest of the print.";

/// What to do: a probe that was already in contact.
pub const EARLY_FIX: &'static str = "Check the nozzle is not touching the part and that the probe reads untriggered at rest (`QUERY_PROBE`). On a Tap-style probe this usually means debris or a filament blob on the nozzle — clean it, then re-run a fresh dry run before retrying.";

/// What was seen: a probe that never triggered.
pub const NO_TRIGGER_WHAT: &'static str = "the probe descended the full envelope without ever contacting the part";

/// Why it stops the recovery: a probe that never triggered.
pub const NO_TRIGGER_WHY: &'static str = "The envelope is deliberately bounded, so this is the safe failure: the nozzle stopped short rather than pressing on indefinitely, and the part was never touched. But it also means Z is still unknown — the one thing the whole recovery exists to establish. On the consensus-touch path the same code covers touches that could not agree with each other, which is the same problem with more evidence.";

/// What to do: a probe that never triggered.
pub const NO_TRIGGER_FIX: &'static str = "The part is likely lower than the reconstruction believed (bed sag, or a Z estimate biased high). Raise `envelope_margin` in printer.cfg's [plr] section by a few tenths and re-run a fresh dry run. If the touches simply disagreed, raise `touch_sample_range` toward its 0.015 cap, or reduce machine vibration.";

/// What was seen: a move outside the limits.
pub const RANGE_WHAT: &'static str = "Klipper refused a commanded move as outside the machine's limits";

/// Why it stops the recovery: a move outside the limits.
pub const RANGE_WHY: &'static str = "Klipper does not clamp an out-of-range move, it refuses it — which is the backstop working. It also means the plan's arithmetic and the machine's rail limits disagree, and until they are reconciled every other coordinate in the plan is equally suspect.";

/// What to do: a move outside the limits.
pub const RANGE_FIX: &'static str = "Check that the Z rail's `position_min`/`position_max` and the XY travel limits in printer.cfg match the physical machine, then re-run a fresh dry run: the whole-itinerary pre-flight checks every coordinate against those limits before anything is sent.";

/// What was seen: an unrecognized command error.
pub const UNKNOWN_WHAT: &'static str = "Klipper rejected a command with an error plrd does not recognize";

/// Why it stops the recovery: an unrecognized command error.
pub const UNKNOWN_WHY: &'static str = "plrd never continues past a command it could not confirm succeeded. Because the error is unrecognized, plrd cannot say whether the command partly took effect — so the only defensible assumption is that the machine state is no longer what the plan believes.";

/// What to do: an unrecognized command error.
pub const UNKNOWN_FIX: &'static str = "Read the raw Klipper message in the transcript (and klippy.log) — it names the real problem. Fix that, then re-run a fresh dry run before retrying.";

impl StepFailure {
    /// Classifies a Klipper error message.
    pub fn classify(message: &str) -> (r: Self)
        ensures
            r == failure_class(message@),
    {
        if contains(message, PROBE_TRIGGERED_EARLY) {
            StepFailure::ProbeTriggeredEarly
        } else if contains(message, NO_TRIGGER_FULL_MOVEMENT) || contains(
            message,
            TOUCH_CONSENSUS_FAILURE_MARKER,
        ) {
            StepFailure::NoTrigger
        } else if contains(message, MOVE_OUT_OF_RANGE) {
            StepFailure::MoveOutOfRange
        } else {
            StepFailure::Unknown
        }
    }

    /// Stable tag carried in the transcript and abort record.
    pub fn code(self) -> (r: &'static str)
        ensures
            r@ == failure_code(self),
    {
        match self {
            StepFailure::ProbeTriggeredEarly => "probe-triggered-early",
            StepFailure::NoTrigger => "no-trigger",
            StepFailure::MoveOutOfRange => "move-out-of-range",
            StepFailure::Unknown => "unknown",
        }
    }

    /// Every classified failure explains itself, and none may be continued
    /// past.
    pub fn diagnosis(&self) -> (r: Diagnosis)
        ensures
            r.tier == Tier::Hard,
            r.override_key is None,
            r.measured is None,
            r.expected is None,
            match *self {
                StepFailure::ProbeTriggeredEarly => r.says(
                    "probe_triggered_early"@,
                    Tier::Hard,
                    EARLY_WHAT@,
                    EARLY_WHY@,
                    EARLY_FIX@,
                ),
                StepFailure::NoTrigger => r.says(
                    "probe_no_trigger"@,
                    Tier::Hard,
                    NO_TRIGGER_WHAT@,
                    NO_TRIGGER_WHY@,
                    NO_TRIGGER_FIX@,
                ),
                StepFailure::MoveOutOfRange => r.says(
                    "move_out_of_range"@,
                    Tier::Hard,
                    RANGE_WHAT@,
                    RANGE_WHY@,
                    RANGE_FIX@,
                ),
                StepFailure::Unknown => r.says(
                    "klipper_command_error"@,
                    Tier::Hard,
                    UNKNOWN_WHAT@,
                    UNKNOWN_WHY@,
                    UNKNOWN_FIX@,
                ),
            },
    {
        match self {
            StepFailure::ProbeTriggeredEarly => Diagnosis::new(
                "probe_triggered_early",
                Tier::Hard,
                EARLY_WHAT.to_owned(),
                EARLY_WHY.to_owned(),
                EARLY_FIX.to_owned(),
            ),
            StepFailure::NoTrigger => Diagnosis::new(
                "probe_no_trigger",
                Tier::Hard,
                NO_TRIGGER_WHAT.to_owned(),
                NO_TRIGGER_WHY.to_owned(),
                NO_TRIGGER_FIX.to_owned(),
            ),
            StepFailure::MoveOutOfRange => Diagnosis::new(
                "move_out_of_range",
                Tier::Hard,
                RANGE_WHAT.to_owned(),
                RANGE_WHY.to_owned(),
                RANGE_FIX.to_owned(),
            ),
            StepFailure::Unknown => Diagnosis::new(
                "klipper_command_error",
                Tier::Hard,
                UNKNOWN_WHAT.to_owned(),
                UNKNOWN_WHY.to_owned(),
                UNKNOWN_FIX.to_owned(),
            ),
        }
    }
}

/// Why execution stopped before the plan completed.
#[derive(Debug, Clone, PartialEq, Eq)]
pub enum StopCause {
    /// A verification did not hold in time.
    VerificationFailed {
        /// The failing verification, rendered.
        verification: String,
        /// The last observed value, rendered.
        observed: String,
    },
    /// A status query failed.
    Transport(String),
    /// A command failed.
    CommandFailed {
        /// Its class.
        failure: StepFailure,
        /// The raw Klipper error.
        message: String,
    },
    /// A value a step needs could not be computed.
    ComputeFailed(String),
    /// The operator declined at a step gate.
    OperatorDeclined,
    /// The frame interlock could not be written, so the shifted frame was
    /// never declared.
    FrameGuardUnwritable(String),
    /// The pre-flight raised a refusal.
    HardDiagnosis {
        /// Its code.
        code: &'static str,
    },
    /// A question was answered "abort".
    ConfirmationDeclined {
        /// Which feature asked.
        kind: ConfirmKind,
        /// The code that was put to the operator.
        code: &'static str,
    },
    /// A question went unanswered.
    ConfirmationTimedOut {
        /// Which feature asked.
        kind: ConfirmKind,
        /// The code that went unanswered.
        code: &'static str,
    },
    /// Somebody else has the printer; nothing of the step was sent.
    ExclusivityLost(String),
}

impl StopCause {
    /// The classified failure, when the stop was a command error.
    pub fn step_failure(&self) -> (r: Option<StepFailure>)
        ensures
            r == (match *self {
                StopCause::CommandFailed { failure, message } => Some(failure),
                _ => None::<StepFailure>,
            }),
    {
        match self {
            StopCause::CommandFailed { failure, .. } => Some(*failure),
            StopCause::VerificationFailed { .. }
            | StopCause::Transport(_)
            | StopCause::ComputeFailed(_)
            | StopCause::OperatorDeclined
            | StopCause::FrameGuardUnwritable(_)
            | StopCause::HardDiagnosis { .. }
            | StopCause::ConfirmationDeclined { .. }
            | StopCause::ConfirmationTimedOut { .. }
            | StopCause::ExclusivityLost(_) => None,
        }
    }
}

/// Result of executing a plan.
#[derive(Debug, Clone, PartialEq, Eq)]
pub enum ExecOutcome {
    /// Every step completed and verified.
    Completed {
        /// Number of steps executed.
        steps: usize,
    },
    /// Execution stopped at a step.
    Aborted {
        /// The step that failed.
        step_id: u32,
        /// The step's phase name.
        phase: String,
        /// The reason code.
        reason: String,
        /// What actually went wrong.
        cause: StopCause,
        /// Whether Klipper's Z frame is now unknown.
        frame_invalid: bool,
    },
}

/// Materialises the recovery file for the resume point chosen at execution
/// time.
pub trait RecoveryFileWriter {
    /// Writes the recovery file for `binding`; the reason when it cannot.
    fn write_for(&mut self, binding: &PreviewBinding) -> Result<(), String>;
}

/// A [`RecoveryFileWriter`] that holds nothing to write with: the writer of a
/// dry run.
pub struct NoopFileWriter;

impl RecoveryFileWriter for NoopFileWriter {
    fn write_for(&mut self, binding: &PreviewBinding) -> (r: Result<(), String>)
        ensures
            r is Ok,
    {
        Ok(())
    }
}

/// Records, before the shifted frame is declared, that Klipper's Z frame is
/// about to be at risk.
pub trait FrameGuard {
    /// Arms the interlock for `step`; the reason when it cannot be persisted.
    fn arm(&mut self, step: &RecoveryStep) -> Result<(), String>;
}

/// A [`FrameGuard`] that records nothing.
pub struct NoFrameGuard;

impl FrameGuard for NoFrameGuard {
    fn arm(&mut self, step: &RecoveryStep) -> (r: Result<(), String>)
        ensures
            r is Ok,
    {
        Ok(())
    }
}

/// Re-establishes exclusive control of the g-code channel.
pub trait Exclusivity {
    /// Re-asserts exclusive access within `budget`; the reason when it cannot.
    fn recheck(&mut self, budget: Span) -> Result<(), String>;
}

/// An [`Exclusivity`] that checks nothing.
pub struct NoExclusivity;

impl Exclusivity for NoExclusivity {
    fn recheck(&mut self, budget: Span) -> (r: Result<(), String>)
        ensures
            r is Ok,
    {
        Ok(())
    }
}

} // verus!
