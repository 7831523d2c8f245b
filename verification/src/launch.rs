//! The gates of an execution, from the frame interlock to the last line the
//! operator reads.
//!
//! Everything that can fail on the disk comes before anything that reaches the
//! printer: without a transcript and a recovery file nothing is sent. The first
//! thing that reaches the printer is the printer gate that asks whether it is idle.

use vstd::prelude::*;

use crate::executor::{ExecOutcome, StopCause};
use crate::gates::{idle_step, IdleCheck, IdleEvent, IdleView};
use crate::pipeline::{say, say_two};
use crate::plan::RecoveryStep;
use crate::prompts::cause_text;
use crate::recover::{EXIT_OK, EXIT_RUNTIME};
use crate::recovery_file::{
    claim_entries, claim_lines, entry_views, path_in, settled, Claim, ClaimState, FileClaim,
    GateEntry, GateEntryView, PlanBundle, RECOVERY_NAME_RETRIES,
};
use crate::text::{decimal, decimal_of, texts};

verus! {

/// The marker of a Z frame that is, or is about to be, unknown.
#[derive(Debug)]
pub struct FrameInvalid {
    /// When it was written, by the wall clock.
    pub detected_wall_ns: u64,
    /// The step that it is about.
    pub step_id: u32,
    /// That step's phase.
    pub phase: String,
    /// Why.
    pub reason: String,
}

/// Why the marker stands before anything went wrong.
pub const FRAME_DECLARED: &'static str = "shifted-frame-declared";

/// The marker that is written before a step declares the shifted frame.
pub fn entry_marker(step: &RecoveryStep, wall_ns: u64) -> (r: FrameInvalid)
    ensures
        r.detected_wall_ns == wall_ns,
        r.step_id == step.id,
        r.phase@ == step.phase_name@,
        r.reason@ == FRAME_DECLARED@,
{
    FrameInvalid {
        detected_wall_ns: wall_ns,
        step_id: step.id,
        phase: step.phase_name.clone(),
        reason: FRAME_DECLARED.to_owned(),
    }
}

/// What is left to do when the execution has ended.
#[derive(Debug, Clone, Copy, PartialEq, Eq, Structural)]
pub enum Cleanup {
    /// Nothing.
    Nothing,
    /// The recovery file is to be removed: nothing will select it.
    RemoveRecoveryFile,
    /// The pending announcement and the frame marker are to be removed: the
    /// print has resumed.
    ForgetRecovery,
}

/// Where an execution stands, and what it waits for.
#[derive(Debug)]
pub enum Launch {
    /// The frame marker is to be read.
    ReadMarker,
    /// Moonraker is to be reached.
    Connect,
    /// The transcript is to be created.
    OpenTranscript,
    /// The recovery file is to be written.
    WriteFile(FileClaim),
    /// The printer is to be asked.
    AskPrinter(IdleCheck),
    /// The plan is to be executed.
    Run,
    /// The marker is to be written again, with the reason of the abort.
    RecordFrame {
        /// The step that failed.
        step_id: u32,
        /// That step's phase.
        phase: String,
        /// The reason code.
        reason: String,
        /// What went wrong.
        cause: StopCause,
    },
    /// It has ended.
    Done {
        /// The exit code.
        code: u8,
        /// What is left to do.
        cleanup: Cleanup,
    },
}

/// What an execution waited for.
#[derive(Debug)]
pub enum LaunchEvent {
    /// The frame marker, if it stands.
    MarkerRead(Option<FrameInvalid>),
    /// Moonraker was reached, or not.
    Connected(Result<(), String>),
    /// The transcript was created, or not.
    TranscriptMade {
        /// Its path.
        path: String,
        /// Whether it was.
        result: Result<(), String>,
    },
    /// What claiming the recovery file's name gave.
    Claimed(Claim),
    /// What the printer answered.
    Printer(IdleEvent),
    /// The plan was executed.
    Executed(ExecOutcome),
    /// The marker was written again, or not.
    FrameRecorded(Result<(), String>),
}

/// The refusal while the frame is unknown.
pub open spec fn marked_line(step: nat, phase: Seq<char>, reason: Seq<char>) -> Seq<char> {
    "recover: REFUSED — the printer's Z frame is unknown after an aborted recovery (aborted at step "@ + decimal(step) + " ["@ + phase + "]: "@ + reason + "). Re-run a dry run (plrd scan / plrd recover without --execute) for a fresh plan before resuming."@
}

fn marked_text(step: u32, phase: &str, reason: &str) -> (r: String)
    ensures
        r@ == marked_line(step as nat, phase@, reason@),
{
    let mut out = "recover: REFUSED — the printer's Z frame is unknown after an aborted recovery (aborted at step ".to_owned();
    let digits1 = decimal_of(step as u64);
    out.append(digits1.as_str());
    out.append(" [");
    out.append(phase);
    out.append("]: ");
    out.append(reason);
    out.append("). Re-run a dry run (plrd scan / plrd recover without --execute) for a fresh plan before resuming.");
    out
}

/// The refusal without a transcript.
pub open spec fn untranscribed_line(path: Seq<char>, e: Seq<char>) -> Seq<char> {
    "recover: REFUSED — cannot create transcript "@ + path + ": "@ + e
}

fn untranscribed_text(path: &str, e: &str) -> (r: String)
    ensures
        r@ == untranscribed_line(path@, e@),
{
    let mut out = "recover: REFUSED — cannot create transcript ".to_owned();
    out.append(path);
    out.append(": ");
    out.append(e);
    out
}

/// A completed execution.
pub open spec fn completed_line(steps: nat) -> Seq<char> {
    "recover: COMPLETED — "@ + decimal(steps) + " steps executed and verified."@
}

fn completed_text(steps: u64) -> (r: String)
    ensures
        r@ == completed_line(steps as nat),
{
    let mut out = "recover: COMPLETED — ".to_owned();
    let digits1 = decimal_of(steps);
    out.append(digits1.as_str());
    out.append(" steps executed and verified.");
    out
}

/// An aborted execution.
pub open spec fn aborted_line(step: nat, phase: Seq<char>, reason: Seq<char>, cause: Seq<char>) -> Seq<char> {
    "recover: ABORTED at step "@ + decimal(step) + " ["@ + phase + "]: "@ + reason + " ("@ + cause + ")"@
}

fn aborted_text(step: u32, phase: &str, reason: &str, cause: &str) -> (r: String)
    ensures
        r@ == aborted_line(step as nat, phase@, reason@, cause@),
{
    let mut out = "recover: ABORTED at step ".to_owned();
    let digits1 = decimal_of(step as u64);
    out.append(digits1.as_str());
    out.append(" [");
    out.append(phase);
    out.append("]: ");
    out.append(reason);
    out.append(" (");
    out.append(cause);
    out.append(")");
    out
}

/// The note when the marker could not be written again.
pub open spec fn note_line(e: Seq<char>) -> Seq<char> {
    "recover: note — could not update the frame-invalid marker with the abort reason ("@ + e + "); the marker written before the declare still stands, so --execute remains refused."@
}

fn note_text(e: &str) -> (r: String)
    ensures
        r@ == note_line(e@),
{
    let mut out = "recover: note — could not update the frame-invalid marker with the abort reason (".to_owned();
    out.append(e);
    out.append("); the marker written before the declare still stands, so --execute remains refused.");
    out
}

/// What a missing interlock avoided, and what had already happened.
pub open spec fn unguarded_line(why: Seq<char>, wal_dir: Seq<char>) -> Seq<char> {
    "recover: REFUSED to declare the shifted Z frame — the frame-invalid interlock could not be written ("@ + why + ").\nrecover:   AVOIDED: the shifted probing frame was never declared and the probe never ran, so no fabricated Z reference exists and no fresh dry run is needed — retrying is safe once the write works.\nrecover:   ALREADY DONE: everything before it, exactly as any abort at this point leaves it — the conservative believed-Z declaration and its lift, XY homing, and the commanded heater targets.\nrecover:   *** THE HEATERS MAY STILL BE HOT AND THE IDLE TIMEOUT IS EXTENDED (motors stay energized; nothing will shut down on its own). Do not walk away from the machine. *** \nrecover:   Fix the WAL directory "@ + wal_dir + " (it also holds the transcript), then retry or cool the printer down by hand."@
}

fn unguarded_text(why: &str, wal_dir: &str) -> (r: String)
    ensures
        r@ == unguarded_line(why@, wal_dir@),
{
    let mut out = "recover: REFUSED to declare the shifted Z frame — the frame-invalid interlock could not be written (".to_owned();
    out.append(why);
    out.append(").\nrecover:   AVOIDED: the shifted probing frame was never declared and the probe never ran, so no fabricated Z reference exists and no fresh dry run is needed — retrying is safe once the write works.\nrecover:   ALREADY DONE: everything before it, exactly as any abort at this point leaves it — the conservative believed-Z declaration and its lift, XY homing, and the commanded heater targets.\nrecover:   *** THE HEATERS MAY STILL BE HOT AND THE IDLE TIMEOUT IS EXTENDED (motors stay energized; nothing will shut down on its own). Do not walk away from the machine. *** \nrecover:   Fix the WAL directory ");
    out.append(wal_dir);
    out.append(" (it also holds the transcript), then retry or cool the printer down by hand.");
    out
}

/// What to do when somebody else has the printer.
pub open spec fn crowded_line(step: nat, why: Seq<char>) -> Seq<char> {
    "recover: STOPPED before step "@ + decimal(step) + " — "@ + why + "\nrecover:   Step "@ + decimal(step) + " sent nothing. Everything before it ran and is left exactly as any abort at this point leaves it.\nrecover:   Something else is driving this printer: an autostart macro, a queued job, or a [gcode_macro] that called PLR_RECOVER and kept going. Let it finish (or cancel it), then run a fresh dry run before resuming — the plan is now stale."@
}

fn crowded_text(step: u32, why: &str) -> (r: String)
    ensures
        r@ == crowded_line(step as nat, why@),
{
    let mut out = "recover: STOPPED before step ".to_owned();
    let digits1 = decimal_of(step as u64);
    out.append(digits1.as_str());
    out.append(" — ");
    out.append(why);
    out.append("\nrecover:   Step ");
    let digits2 = decimal_of(step as u64);
    out.append(digits2.as_str());
    out.append(" sent nothing. Everything before it ran and is left exactly as any abort at this point leaves it.\nrecover:   Something else is driving this printer: an autostart macro, a queued job, or a [gcode_macro] that called PLR_RECOVER and kept going. Let it finish (or cancel it), then run a fresh dry run before resuming — the plan is now stale.");
    out
}

/// Said when the frame is unknown.
pub const FRAME_UNKNOWN: &'static str = "recover: the printer's Z frame is now UNKNOWN — re-run a dry run (plrd scan / plrd recover without --execute) for a fresh plan before any resume; --execute is refused until then.";

/// Said after any other abort.
pub const LEFT_AS_IS: &'static str =
    "recover: the printer was left as-is; review the transcript before retrying.";

/// The last thing an abort says: what its cause leaves the operator with.
pub open spec fn abort_advice(cause: StopCause, step_id: u32, wal_dir: Seq<char>) -> Seq<char> {
    match cause {
        StopCause::FrameGuardUnwritable(why) => unguarded_line(why@, wal_dir),
        StopCause::ExclusivityLost(why) => crowded_line(step_id as nat, why@),
        _ => LEFT_AS_IS@,
    }
}

fn advise(cause: &StopCause, step_id: u32, wal_dir: &str) -> (r: String)
    ensures
        r@ == abort_advice(*cause, step_id, wal_dir@),
{
    match cause {
        StopCause::FrameGuardUnwritable(why) => unguarded_text(why.as_str(), wal_dir),
        StopCause::ExclusivityLost(why) => crowded_text(step_id, why.as_str()),
        StopCause::VerificationFailed { .. }
        | StopCause::Transport(_)
        | StopCause::CommandFailed { .. }
        | StopCause::ComputeFailed(_)
        | StopCause::OperatorDeclined
        | StopCause::HardDiagnosis { .. }
        | StopCause::ConfirmationDeclined { .. }
        | StopCause::ConfirmationTimedOut { .. } => LEFT_AS_IS.to_owned(),
    }
}

/// The end of a refused execution.
pub open spec fn refused() -> Launch {
    Launch::Done { code: EXIT_RUNTIME, cleanup: Cleanup::Nothing }
}

/// `after` is where an execution stands once a name was claimed, or not.
pub open spec fn after_claim(
    claim: FileClaim,
    was: PlanBundle,
    event: Claim,
    after: Launch,
    now: PlanBundle,
) -> bool {
    match event {
        Claim::Written => {
            &&& settled(claim, was, now)
            &&& after == Launch::AskPrinter(IdleCheck::Sample)
        },
        Claim::Taken(name) => {
            &&& now == was
            &&& if claim.attempt + 1 < RECOVERY_NAME_RETRIES {
                &&& after matches Launch::WriteFile(next)
                &&& next.renamed == Some(name)
                &&& next.path@ == path_in(was.sdcard_root@, name@)
                &&& next.attempt == claim.attempt + 1
            } else {
                after == refused()
            }
        },
        Claim::Failed(_) => now == was && after == refused(),
    }
}

/// `after` is where an execution stands once the printer answered. A refusal
/// leaves the recovery file to be removed.
pub open spec fn after_printer(gate: IdleView, event: IdleEvent, after: Launch) -> bool {
    match idle_step(gate, event) {
        IdleView::Clear => after == Launch::Run,
        IdleView::Refused(_) => after == (Launch::Done {
            code: EXIT_RUNTIME,
            cleanup: Cleanup::RemoveRecoveryFile,
        }),
        next => after matches Launch::AskPrinter(g) && g@ == next,
    }
}

/// `after` and `now` are where an execution stands after `event`. What nobody
/// waited for changes nothing.
pub open spec fn launched(
    before: Launch,
    was: PlanBundle,
    event: LaunchEvent,
    after: Launch,
    now: PlanBundle,
) -> bool {
    match (before, event) {
        (Launch::ReadMarker, LaunchEvent::MarkerRead(marker)) => {
            &&& now == was
            &&& after == match marker {
                Some(_) => refused(),
                None => Launch::Connect,
            }
        },
        (Launch::Connect, LaunchEvent::Connected(result)) => {
            &&& now == was
            &&& after == match result {
                Ok(_) => Launch::OpenTranscript,
                Err(_) => refused(),
            }
        },
        (Launch::OpenTranscript, LaunchEvent::TranscriptMade { result, .. }) => {
            &&& now == was
            &&& match result {
                Ok(_) => after matches Launch::WriteFile(claim) && claim.started(was),
                Err(_) => after == refused(),
            }
        },
        (Launch::WriteFile(claim), LaunchEvent::Claimed(event)) => after_claim(
            claim,
            was,
            event,
            after,
            now,
        ),
        (Launch::AskPrinter(gate), LaunchEvent::Printer(event)) => now == was && after_printer(
            gate@,
            event,
            after,
        ),
        (Launch::Run, LaunchEvent::Executed(outcome)) => {
            &&& now == was
            &&& match outcome {
                ExecOutcome::Completed { .. } => after == (Launch::Done {
                    code: EXIT_OK,
                    cleanup: Cleanup::ForgetRecovery,
                }),
                ExecOutcome::Aborted { step_id, phase, reason, cause, frame_invalid } => {
                    if frame_invalid {
                        after == (Launch::RecordFrame { step_id, phase, reason, cause })
                    } else {
                        after == refused()
                    }
                },
            }
        },
        (Launch::RecordFrame { .. }, LaunchEvent::FrameRecorded(_)) => now == was && after
            == refused(),
        _ => now == was && after == before,
    }
}

/// What the operator is told at `event`, a line each.
pub open spec fn launch_lines(
    wal_dir: Seq<char>,
    before: Launch,
    was: PlanBundle,
    event: LaunchEvent,
) -> Seq<Seq<char>> {
    match (before, event) {
        (Launch::ReadMarker, LaunchEvent::MarkerRead(Some(marker))) => seq![
            marked_line(marker.step_id as nat, marker.phase@, marker.reason@),
        ],
        (Launch::Connect, LaunchEvent::Connected(Err(e))) => seq![
            "recover: cannot reach Moonraker: "@ + e@,
        ],
        (Launch::OpenTranscript, LaunchEvent::TranscriptMade { path, result }) => match result {
            Ok(_) => seq!["recover: transcript: "@ + path@],
            Err(e) => seq![untranscribed_line(path@, e@)],
        },
        (Launch::WriteFile(claim), LaunchEvent::Claimed(event)) => claim_lines(claim, was, event),
        (Launch::AskPrinter(gate), LaunchEvent::Printer(event)) => match idle_step(gate@, event) {
            IdleView::Refused(reason) => seq!["recover: REFUSED — "@ + reason],
            _ => Seq::empty(),
        },
        (Launch::Run, LaunchEvent::Executed(outcome)) => match outcome {
            ExecOutcome::Completed { steps } => seq![completed_line(steps as nat)],
            ExecOutcome::Aborted { step_id, phase, reason, cause, frame_invalid } => {
                let told = aborted_line(step_id as nat, phase@, reason@, cause_text(cause));
                if frame_invalid {
                    seq![told]
                } else {
                    seq![told, abort_advice(cause, step_id, wal_dir)]
                }
            },
        },
        (
            Launch::RecordFrame { step_id, cause, .. },
            LaunchEvent::FrameRecorded(result),
        ) => match result {
            Ok(_) => seq![FRAME_UNKNOWN@, abort_advice(cause, step_id, wal_dir)],
            Err(e) => seq![note_line(e@), FRAME_UNKNOWN@, abort_advice(cause, step_id, wal_dir)],
        },
        _ => Seq::empty(),
    }
}

/// What goes into the transcript at `event`.
pub open spec fn launch_entries(before: Launch, was: PlanBundle, event: LaunchEvent) -> Seq<
    GateEntryView,
> {
    match (before, event) {
        (Launch::WriteFile(claim), LaunchEvent::Claimed(event)) => claim_entries(
            claim,
            was,
            event,
        ),
        (Launch::AskPrinter(gate), LaunchEvent::Printer(event)) => match idle_step(gate@, event) {
            IdleView::Refused(reason) => seq![GateEntryView::Refused { reason }],
            _ => Seq::empty(),
        },
        _ => Seq::empty(),
    }
}

/// A claim in progress goes by the bundle; a printer gate has not decided yet.
pub open spec fn fits(launch: Launch, bundle: PlanBundle) -> bool {
    match launch {
        Launch::WriteFile(claim) => claim.well_formed(bundle),
        Launch::AskPrinter(gate) => !(gate@ is Clear) && !(gate@ is Refused),
        _ => true,
    }
}

fn refuse() -> (r: Launch)
    ensures
        r == refused(),
{
    Launch::Done { code: EXIT_RUNTIME, cleanup: Cleanup::Nothing }
}

fn on_printer(
    gate: IdleCheck,
    event: IdleEvent,
    lines: &mut Vec<String>,
    entries: &mut Vec<GateEntry>,
) -> (r: Launch)
    ensures
        after_printer(gate@, event, r),
        texts(final(lines)@) == texts(old(lines)@) + match idle_step(gate@, event) {
            IdleView::Refused(reason) => seq!["recover: REFUSED — "@ + reason],
            _ => Seq::empty(),
        },
        entry_views(final(entries)@) == entry_views(old(entries)@) + match idle_step(gate@, event) {
            IdleView::Refused(reason) => seq![GateEntryView::Refused { reason }],
            _ => Seq::empty(),
        },
{
    let ghost said = texts(lines@);
    let ghost noted = entry_views(entries@);
    assert(said + Seq::<Seq<char>>::empty() =~= said);
    assert(noted + Seq::<GateEntryView>::empty() =~= noted);
    match gate.on_event(event) {
        IdleCheck::Clear => Launch::Run,
        IdleCheck::Refused(reason) => {
            say_two(lines, "recover: REFUSED — ", reason.as_str());
            let entry = GateEntry::Refused { reason };
            entries.push(entry);
            assert(entry_views(entries@) =~= noted + seq![entry@]);
            Launch::Done { code: EXIT_RUNTIME, cleanup: Cleanup::RemoveRecoveryFile }
        },
        next => Launch::AskPrinter(next),
    }
}

fn on_outcome(outcome: ExecOutcome, wal_dir: &str, lines: &mut Vec<String>) -> (r: Launch)
    ensures
        match outcome {
            ExecOutcome::Completed { .. } => r == (Launch::Done {
                code: EXIT_OK,
                cleanup: Cleanup::ForgetRecovery,
            }),
            ExecOutcome::Aborted { step_id, phase, reason, cause, frame_invalid } => {
                if frame_invalid {
                    r == (Launch::RecordFrame { step_id, phase, reason, cause })
                } else {
                    r == refused()
                }
            },
        },
        texts(final(lines)@) == texts(old(lines)@) + (match outcome {
            ExecOutcome::Completed { steps } => seq![completed_line(steps as nat)],
            ExecOutcome::Aborted { step_id, phase, reason, cause, frame_invalid } => {
                let told = aborted_line(step_id as nat, phase@, reason@, cause_text(cause));
                if frame_invalid {
                    seq![told]
                } else {
                    seq![told, abort_advice(cause, step_id, wal_dir@)]
                }
            },
        }),
{
    let ghost said = texts(lines@);
    match outcome {
        ExecOutcome::Completed { steps } => {
            say(lines, completed_text(steps as u64));
            Launch::Done { code: EXIT_OK, cleanup: Cleanup::ForgetRecovery }
        },
        ExecOutcome::Aborted { step_id, phase, reason, cause, frame_invalid } => {
            let what = cause.describe();
            let told = aborted_text(step_id, phase.as_str(), reason.as_str(), what.as_str());
            let ghost first = told@;
            say(lines, told);
            if frame_invalid {
                Launch::RecordFrame { step_id, phase, reason, cause }
            } else {
                let advice = advise(&cause, step_id, wal_dir);
                let ghost second = advice@;
                say(lines, advice);
                assert(texts(lines@) =~= said + seq![first, second]);
                refuse()
            }
        },
    }
}

impl Launch {
    /// An execution as it starts.
    pub fn start() -> (r: Self)
        ensures
            r == Launch::ReadMarker,
    {
        Launch::ReadMarker
    }

    /// Takes what the execution waited for.
    pub fn on_event(
        self,
        wal_dir: &str,
        bundle: &mut PlanBundle,
        event: LaunchEvent,
        lines: &mut Vec<String>,
        entries: &mut Vec<GateEntry>,
    ) -> (r: Self)
        requires
            fits(self, *old(bundle)),
        ensures
            launched(self, *old(bundle), event, r, *final(bundle)),
            fits(r, *final(bundle)),
            texts(final(lines)@) == texts(old(lines)@) + launch_lines(
                wal_dir@,
                self,
                *old(bundle),
                event,
            ),
            entry_views(final(entries)@) == entry_views(old(entries)@) + launch_entries(
                self,
                *old(bundle),
                event,
            ),
    {
        let ghost said = texts(lines@);
        let ghost noted = entry_views(entries@);
        assert(said + Seq::<Seq<char>>::empty() =~= said);
        assert(noted + Seq::<GateEntryView>::empty() =~= noted);
        match (self, event) {
            (Launch::ReadMarker, LaunchEvent::MarkerRead(marker)) => match marker {
                Some(m) => {
                    say(lines, marked_text(m.step_id, m.phase.as_str(), m.reason.as_str()));
                    refuse()
                },
                None => Launch::Connect,
            },
            (Launch::Connect, LaunchEvent::Connected(result)) => match result {
                Ok(_) => Launch::OpenTranscript,
                Err(e) => {
                    say_two(lines, "recover: cannot reach Moonraker: ", e.as_str());
                    refuse()
                },
            },
            (Launch::OpenTranscript, LaunchEvent::TranscriptMade { path, result }) => match result {
                Ok(_) => {
                    say_two(lines, "recover: transcript: ", path.as_str());
                    Launch::WriteFile(FileClaim::start(bundle))
                },
                Err(e) => {
                    say(lines, untranscribed_text(path.as_str(), e.as_str()));
                    refuse()
                },
            },
            (Launch::WriteFile(claim), LaunchEvent::Claimed(event)) => {
                let mut claim = claim;
                match claim.on_claim(bundle, event, lines, entries) {
                    ClaimState::Trying => Launch::WriteFile(claim),
                    ClaimState::Done => Launch::AskPrinter(IdleCheck::Sample),
                    ClaimState::Refused => refuse(),
                }
            },
            (Launch::AskPrinter(gate), LaunchEvent::Printer(event)) => on_printer(
                gate,
                event,
                lines,
                entries,
            ),
            (Launch::Run, LaunchEvent::Executed(outcome)) => on_outcome(outcome, wal_dir, lines),
            (
                Launch::RecordFrame { step_id, phase, reason, cause },
                LaunchEvent::FrameRecorded(result),
            ) => {
                let advice = advise(&cause, step_id, wal_dir);
                let ghost last = advice@;
                match result {
                    Ok(_) => {
                        say(lines, FRAME_UNKNOWN.to_owned());
                        say(lines, advice);
                        assert(texts(lines@) =~= said + seq![FRAME_UNKNOWN@, last]);
                    },
                    Err(e) => {
                        say(lines, note_text(e.as_str()));
                        say(lines, FRAME_UNKNOWN.to_owned());
                        say(lines, advice);
                        assert(texts(lines@) =~= said + seq![note_line(e@), FRAME_UNKNOWN@, last]);
                    },
                }
                refuse()
            },
            (stage, _) => stage,
        }
    }
}

/// A run of an execution: the stages it passes with the bundle as it is there,
/// and what takes it from each one to the next.
pub open spec fn launch_ran(
    stages: Seq<Launch>,
    bundles: Seq<PlanBundle>,
    events: Seq<LaunchEvent>,
) -> bool {
    &&& stages.len() == events.len() + 1
    &&& bundles.len() == events.len() + 1
    &&& stages[0] == Launch::ReadMarker
    &&& forall|i: int|
        0 <= i < events.len() ==> launched(
            stages[i],
            bundles[i],
            #[trigger] events[i],
            stages[i + 1],
            bundles[i + 1],
        )
}

proof fn lemma_shorter(
    stages: Seq<Launch>,
    bundles: Seq<PlanBundle>,
    events: Seq<LaunchEvent>,
)
    requires
        launch_ran(stages, bundles, events),
        events.len() > 0,
    ensures
        launch_ran(stages.drop_last(), bundles.drop_last(), events.drop_last()),
        launched(
            stages.drop_last().last(),
            bundles.drop_last().last(),
            events.last(),
            stages.last(),
            bundles.last(),
        ),
{
    let s = stages.drop_last();
    let b = bundles.drop_last();
    let e = events.drop_last();
    assert forall|i: int| 0 <= i < e.len() implies launched(
        s[i],
        b[i],
        #[trigger] e[i],
        s[i + 1],
        b[i + 1],
    ) by {
        assert(events[i] == e[i]);
    }
    let n = events.len() - 1;
    assert(launched(stages[n], bundles[n], events[n], stages[n + 1], bundles[n + 1]));
}

/// The execution has reached the printer, or could from here.
pub open spec fn at_the_printer(stage: Launch) -> bool {
    stage is AskPrinter || stage is Run || stage is RecordFrame
}

/// The recovery file was written at `i`.
pub open spec fn written_at(stages: Seq<Launch>, events: Seq<LaunchEvent>, i: int) -> bool {
    &&& 0 <= i < events.len()
    &&& stages[i] is WriteFile
    &&& events[i] matches LaunchEvent::Claimed(Claim::Written)
}

/// The disk comes first: the printer is not even asked unless the recovery file
/// was written before.
pub proof fn the_file_is_written_before_the_printer_is_asked(
    stages: Seq<Launch>,
    bundles: Seq<PlanBundle>,
    events: Seq<LaunchEvent>,
)
    requires
        launch_ran(stages, bundles, events),
        at_the_printer(stages.last()),
    ensures
        exists|i: int| written_at(stages, events, i),
    decreases events.len(),
{
    if events.len() > 0 {
        lemma_shorter(stages, bundles, events);
        let s = stages.drop_last();
        let e = events.drop_last();
        let n = events.len() - 1;
        if at_the_printer(s.last()) {
            the_file_is_written_before_the_printer_is_asked(s, bundles.drop_last(), e);
            let i = choose|i: int| written_at(s, e, i);
            assert(written_at(stages, events, i));
        } else {
            assert(written_at(stages, events, n));
        }
    }
}

/// The transcript was created at `i`.
pub open spec fn transcribed_at(stages: Seq<Launch>, events: Seq<LaunchEvent>, i: int) -> bool {
    &&& 0 <= i < events.len()
    &&& stages[i] is OpenTranscript
    &&& events[i] matches LaunchEvent::TranscriptMade { result: Ok(_), .. }
}

/// No transcript, no execution: whatever writes the recovery file or reaches the
/// printer comes after a transcript was created.
pub proof fn no_transcript_no_execution(
    stages: Seq<Launch>,
    bundles: Seq<PlanBundle>,
    events: Seq<LaunchEvent>,
)
    requires
        launch_ran(stages, bundles, events),
        at_the_printer(stages.last()) || stages.last() is WriteFile,
    ensures
        exists|i: int| transcribed_at(stages, events, i),
    decreases events.len(),
{
    if events.len() > 0 {
        lemma_shorter(stages, bundles, events);
        let s = stages.drop_last();
        let e = events.drop_last();
        let n = events.len() - 1;
        if at_the_printer(s.last()) || s.last() is WriteFile {
            no_transcript_no_execution(s, bundles.drop_last(), e);
            let i = choose|i: int| transcribed_at(s, e, i);
            assert(transcribed_at(stages, events, i));
        } else {
            assert(transcribed_at(stages, events, n));
        }
    }
}

/// The printer gate became clear at `i`.
pub open spec fn cleared_at(stages: Seq<Launch>, events: Seq<LaunchEvent>, i: int) -> bool {
    &&& 0 <= i < events.len()
    &&& stages[i] matches Launch::AskPrinter(gate)
    &&& events[i] matches LaunchEvent::Printer(event)
    &&& idle_step(gate@, event) is Clear
}

/// A plan is executed only on a printer that the printer gate found clear.
pub proof fn a_plan_runs_only_on_a_clear_printer(
    stages: Seq<Launch>,
    bundles: Seq<PlanBundle>,
    events: Seq<LaunchEvent>,
)
    requires
        launch_ran(stages, bundles, events),
        stages.last() is Run,
    ensures
        exists|i: int| cleared_at(stages, events, i),
    decreases events.len(),
{
    if events.len() > 0 {
        lemma_shorter(stages, bundles, events);
        let s = stages.drop_last();
        let e = events.drop_last();
        let n = events.len() - 1;
        if s.last() is Run {
            a_plan_runs_only_on_a_clear_printer(s, bundles.drop_last(), e);
            let i = choose|i: int| cleared_at(s, e, i);
            assert(cleared_at(stages, events, i));
        } else {
            assert(cleared_at(stages, events, n));
        }
    }
}

/// While the frame is unknown nothing is executed: the marker ends the run
/// before anything connects.
pub proof fn a_standing_marker_refuses(
    marker: FrameInvalid,
    was: PlanBundle,
    after: Launch,
    now: PlanBundle,
)
    requires
        launched(Launch::ReadMarker, was, LaunchEvent::MarkerRead(Some(marker)), after, now),
    ensures
        after == refused(),
        now == was,
{
}

/// The plan ran to completion at `i`.
pub open spec fn completed_at(stages: Seq<Launch>, events: Seq<LaunchEvent>, i: int) -> bool {
    &&& 0 <= i < events.len()
    &&& stages[i] is Run
    &&& events[i] matches LaunchEvent::Executed(ExecOutcome::Completed { .. })
}

/// Success is completion: a run succeeds, and the marker and the pending
/// announcement are lifted, only where the plan ran to its end. Every other end
/// of a run leaves the marker as it stands.
pub proof fn only_completion_lifts_the_marker(
    stages: Seq<Launch>,
    bundles: Seq<PlanBundle>,
    events: Seq<LaunchEvent>,
)
    requires
        launch_ran(stages, bundles, events),
    ensures
        stages.last() matches Launch::Done { code, cleanup } ==> {
            let completed = exists|i: int| completed_at(stages, events, i);
            (code == EXIT_OK <==> completed) && (cleanup is ForgetRecovery <==> completed)
        },
        !(stages.last() is Done) ==> !exists|i: int| completed_at(stages, events, i),
    decreases events.len(),
{
    if events.len() > 0 {
        lemma_shorter(stages, bundles, events);
        let s = stages.drop_last();
        let e = events.drop_last();
        let n = events.len() - 1;
        only_completion_lifts_the_marker(s, bundles.drop_last(), e);
        if exists|i: int| completed_at(s, e, i) {
            let i = choose|i: int| completed_at(s, e, i);
            assert(completed_at(stages, events, i));
        } else if exists|i: int| completed_at(stages, events, i) {
            let i = choose|i: int| completed_at(stages, events, i);
            assert(i == n) by {
                if i < n {
                    assert(completed_at(s, e, i));
                }
            }
        } else {
            assert(!completed_at(stages, events, n));
        }
    }
}

} // verus!
