//! What is told of a recovery, and to whom: fingerprints, notes, lines and entries.

use vstd::arithmetic::power::pow;
use vstd::prelude::*;

use crate::calibration::{
    canonical, fingerprint_of, mismatch, noise_notes, print_of, probe_notes, tier, CalGroup,
    CalTier,
};
use crate::checksum::{checksum, crc32};
use crate::execution::{started, Entry, Executor, Pause, Stage};
use crate::executor::{
    failure_code, plan_commands, ConfirmKind, ExecOptions, ExecOutcome, StepFailure, StopCause,
};
use crate::json::{member, Kind, Member};
use crate::launch::{
    abort_advice, aborted_line, fits, launch_entries, launch_lines, launched, FrameInvalid, Launch,
    LaunchEvent,
};
use crate::machine::{file_hash, ConfigFile, KlippySnapshot};
use crate::narration::{
    beyond_line, complete_line, completed_lines, mark_lines, trailing, unrun, window_line,
    CompletionReport, RemainingWork,
};
use crate::moonraker::{error_text, MoonrakerError};
use crate::number::{Num, Reading, Span};
use crate::pipeline::{
    attribution, says, Anchor, ContactFacts, ModelFacts, Pipeline, PipelineEvent, PipelineOutcome,
    StopFacts,
};
use crate::plan::{
    Phase, Predicate, PreviewSpec, RecoveryPlan, RecoveryStep, RuntimeComputation, TriggerSource,
    TrueZFormula, Verification,
};
use crate::plrcfg::{measured, representative, PlrSettings};
use crate::prompts::{
    asked, cause_text, derived, described, pause_code, poll_limit, preview_what, step_asked,
    warning_asked, ConfirmPoint, Detail,
};
use crate::recover::{completion_lines, drive_lines, plan_line, step_line, RecoverOptions};
use crate::recovery_file::{
    claim_entries, claim_lines, unwritable_line, written_line, Claim, FileClaim, GateEntry,
    GateEntryView, PlanBundle,
};
use crate::retention::{
    over_line, overage_message, pruned_line, pruning_lines, reclaimed, unquoted, PruningPlan,
    SegmentMeta,
};
use crate::source::{disagreement, mode_lines, reported_method, source_notes, MachineSource};
use crate::text::{decimal, decimal_int, hex, joined, quoted_text, texts};
use crate::transcript::{event_name, gate_record_of, record_of, ValueView};
use crate::wording::{hex_value, hexadecimal_reads_back, the_first_step_of_a_phase_is_the_first};

verus! {

proof fn lemma_eight_digits(n: u32)
    ensures
        hex(n as nat, 8).len() == 8,
        hex_value(hex(n as nat, 8)) == n,
{
    assert(pow(16, 8) == 0x1_0000_0000) by {
        reveal_with_fuel(pow, 9);
    }
    hexadecimal_reads_back(n as nat, 8);
}

/// A fingerprint is eight hexadecimal digits, and they stand for the checksum of the
/// text that they were taken of.
pub proof fn a_fingerprint_is_the_checksum_of_its_text(
    sections: Seq<Member>,
    names: Seq<Seq<char>>,
    selected: Seq<Seq<char>>,
)
    ensures
        print_of(sections, names, selected).len() == 8,
        hex_value(print_of(sections, names, selected)) == crc32(
            vstd::utf8::encode_utf8(canonical(sections, names, selected)),
        ),
{
    lemma_eight_digits(crc32(vstd::utf8::encode_utf8(canonical(sections, names, selected))));
}

/// A configuration file is known by the checksum of its bytes; one that is not there
/// or cannot be read by no checksum at all.
pub proof fn a_configuration_file_is_known_by_its_checksum(bytes: Vec<u8>, why: String)
    ensures
        exists|digits: Seq<char>|
            file_hash(ConfigFile::Content(bytes)) == #[trigger] ("crc32c:"@ + digits)
                && digits.len() == 8 && hex_value(digits) == checksum(0x82F6_3B78u32, bytes@),
        file_hash(ConfigFile::Unreadable(why)) == "unreadable ("@ + why@ + ")"@,
{
    let n = checksum(0x82F6_3B78u32, bytes@);
    lemma_eight_digits(n);
    let digits = hex(n as nat, 8);
    assert(file_hash(ConfigFile::Content(bytes)) == "crc32c:"@ + digits);
}

/// A calibration is noted exactly when it is stale, or, for a noise floor that was
/// measured, when it has no stamp; what was not measured is not noted.
pub proof fn only_a_doubtful_calibration_is_noted(config: Seq<Member>, plr: PlrSettings)
    ensures
        ({
            let noise = representative(measured(plr.noise_floor@));
            &&& noise is None ==> noise_notes(config, plr).len() == 0
            &&& noise is Some ==> (noise_notes(config, plr).len() == 0 <==> tier(
                config,
                plr,
                CalGroup::NoiseFloor,
            ) == CalTier::Valid)
            &&& probe_notes(config, plr).len() > 0 <==> plr.probe_resolution is Some && tier(
                config,
                plr,
                CalGroup::ProbeResolution,
            ) == CalTier::Invalid
        }),
{
}

/// What the plugin says of its method is under `probe_method`, or under `method`
/// where that is missing.
pub proof fn the_plugins_method_is_read_where_it_stands(object: Seq<Member>)
    ensures
        member(object, "probe_method"@) matches Some(v) ==> match v.kind {
            Kind::Text(t) => reported_method(object) == Some(t.value@),
            _ => reported_method(object) is None,
        },
        member(object, "probe_method"@) is None ==> match member(object, "method"@) {
            Some(v) => match v.kind {
                Kind::Text(t) => reported_method(object) == Some(t.value@),
                _ => reported_method(object) is None,
            },
            None => reported_method(object) is None,
        },
{
}

/// A plugin that is missing, or that names another method than the settings, is
/// noted; one that agrees or says nothing is not.
pub proof fn only_a_plugin_that_disagrees_is_noted(snapshot: KlippySnapshot, method: Seq<char>)
    ensures
        snapshot.plr_object is None ==> source_notes(snapshot, method).len() == 1,
        snapshot.plr_object matches Some(object) ==> (source_notes(snapshot, method).len() > 0
            <==> (reported_method(object@) matches Some(said) && said != method)),
{
}

/// The mode that is reported is the one that was decided, and every note is given.
pub proof fn the_mode_is_reported_with_its_notes(source: MachineSource)
    ensures
        source matches MachineSource::Plr(s) ==> mode_lines(source).len() == 2 + s.notes@.len(),
        source matches MachineSource::Legacy { note: Some(note) } ==> mode_lines(source).len() == 2
            && mode_lines(source)[1] == "  note: "@ + note@,
        source matches MachineSource::Legacy { note: None } ==> mode_lines(source).len() == 1,
        source matches MachineSource::Unavailable { reason } ==> mode_lines(source).len() == 1
            && mode_lines(source)[0] == "machine-config mode: UNDETERMINED — "@ + reason@,
{
}

/// What lies behind the tested offset is the file's rest, and nothing where the
/// offset lies behind its end; the commands that did not run are those of the end
/// sequence that is left.
pub proof fn what_is_left_of_a_print(report: CompletionReport)
    ensures
        report.tested_offset <= report.file_size ==> trailing(report) + report.tested_offset
            == report.file_size,
        report.tested_offset > report.file_size ==> trailing(report) == 0,
        report.work matches RemainingWork::EndSequenceOnly { commands } ==> unrun(report.work)
            == texts(commands@),
        report.work is Nothing || report.work is Extrusion ==> unrun(report.work).len() == 0,
        completed_lines(report).len() == if unrun(report.work).len() > 0 {
            2int
        } else {
            1
        },
{
}

/// A layer mark is held against the geometry only where the model numbers its layers
/// as the mark does; without one that is said, and a mark that lies below is said to.
pub proof fn a_mark_is_compared_only_where_it_can_be(m: u32, total: Option<u32>)
    ensures
        mark_lines(None, total, true, true) == mark_lines(None, None, false, false),
        mark_lines(Some(m), total, false, true) == mark_lines(Some(m), total, false, false),
        begins_as(mark_lines(Some(m), total, true, false), "pipeline: NOTE"@),
        !begins_as(mark_lines(Some(m), total, true, true), "pipeline: NOTE"@),
        !begins_as(mark_lines(Some(m), total, false, true), "pipeline: NOTE"@),
{
    reveal_strlit("pipeline: NOTE");
    reveal_strlit("pipeline: NOTE slicer layer mark current_layer=");
    reveal_strlit("pipeline: slicer layer mark current_layer=");
    reveal_strlit("pipeline: slicer reported current_layer=");
    let head = "pipeline: NOTE"@;
    let below = mark_lines(Some(m), total, true, false);
    let agree = mark_lines(Some(m), total, true, true);
    let apart = mark_lines(Some(m), total, false, true);
    assert(below.take(14) =~= head);
    assert(head[10] == 'N');
    assert(agree[10] == 's');
    assert(apart[10] == 's');
    if begins_as(agree, head) {
        assert(agree.take(14)[10] == agree[10]);
    }
    if begins_as(apart, head) {
        assert(apart.take(14)[10] == apart[10]);
    }
}

/// The text begins with `head`.
pub open spec fn begins_as(text: Seq<char>, head: Seq<char>) -> bool {
    head.len() <= text.len() && text.take(head.len() as int) == head
}

/// No launch ends in silence: whatever ends it is told; and what is refused by the
/// printer or written to disk is in the transcript.
pub proof fn no_launch_ends_in_silence(
    wal_dir: Seq<char>,
    before: Launch,
    was: PlanBundle,
    event: LaunchEvent,
    after: Launch,
    now: PlanBundle,
)
    requires
        launched(before, was, event, after, now),
        !(before is Done),
        fits(before, was),
    ensures
        after is Done ==> launch_lines(wal_dir, before, was, event).len() > 0,
        before is AskPrinter && after is Done ==> launch_entries(before, was, event).len() == 1,
        before is WriteFile && event == LaunchEvent::Claimed(Claim::Written) ==> launch_entries(
            before,
            was,
            event,
        ).len() > 0,
{
}

/// A file that is written is recorded with its path, its size and how many names
/// were taken before; one under another name than planned is recorded as renamed
/// first.
pub proof fn a_written_file_is_recorded(claim: FileClaim, bundle: PlanBundle)
    requires
        claim.well_formed(bundle),
    ensures
        ({
            let entries = claim_entries(claim, bundle, Claim::Written);
            let renamed = claim.path@ != bundle.recovery_file_path@;
            &&& entries.len() == if renamed {
                2int
            } else {
                1
            }
            &&& entries.last() == (GateEntryView::Written {
                path: claim.path@,
                bytes: bundle.recovery_file_content@.len(),
                attempt: claim.attempt as nat,
            })
            &&& renamed ==> (entries[0] matches GateEntryView::Renamed { name, .. } && (
            claim.renamed matches Some(n) && name == n@))
        }),
{
}

/// Whatever the pipeline comes to is told; a plan is told with its text first, and a
/// dry run says that nothing was sent.
pub proof fn every_outcome_is_told(outcome: PipelineOutcome, options: RecoverOptions, marked: bool)
    ensures
        drive_lines(outcome, options, marked).len() > 0,
        outcome matches PipelineOutcome::Plan(bundle) ==> {
            let lines = drive_lines(outcome, options, marked);
            &&& lines[0] == bundle.plan.rendered@
            &&& !options.execute ==> lines[lines.len() - 2]
                == "recover: DRY RUN — nothing was sent. Re-run with --execute --confirm"@
            &&& options.execute && !options.confirm ==> lines.last()
                == "recover: REFUSED — --execute requires --confirm."@
        },
        outcome matches PipelineOutcome::MachineRejected(failures) ==> {
            let lines = drive_lines(outcome, options, marked);
            &&& lines.len() == 3 + failures@.len()
            &&& forall|i: int|
                0 <= i < failures@.len() ==> lines[i + 1] == "  - "@ + (#[trigger] failures@[i])@
        },
        outcome matches PipelineOutcome::NotPossible(reason) ==> drive_lines(
            outcome,
            options,
            marked,
        )[0] == "recover: not possible — "@ + reason@,
        outcome matches PipelineOutcome::ManualFallback(reason) ==> drive_lines(
            outcome,
            options,
            marked,
        )[0] == "recover: automation declined — "@ + reason@,
{
    if let PipelineOutcome::MachineRejected(failures) = outcome {
        let lines = drive_lines(outcome, options, marked);
        let all = texts(failures@);
        assert(all.len() == failures@.len());
        assert forall|i: int| 0 <= i < failures@.len() implies lines[i + 1] == "  - "@ + (
        #[trigger] failures@[i])@ by {
            assert(all[i] == failures@[i]@);
        }
    }
}

/// Retention is silent exactly when it deleted nothing and stays within its cap.
pub proof fn retention_is_silent_when_nothing_happened(
    plan: PruningPlan,
    metas: Seq<SegmentMeta>,
    applied: Result<usize, String>,
)
    ensures
        pruning_lines(plan, metas, applied).len() == 0 <==> plan.delete@.len() == 0
            && plan.overage is None,
        plan.delete@.len() > 0 && (applied matches Err(_)) ==> pruning_lines(
            plan,
            metas,
            applied,
        )[0] == "plrd: WAL retention: some deletions failed: "@ + applied->Err_0@,
{
}

/// A check is described by its object, its field and its own words; and a question
/// about a step or a warning shows the step's or the warning's own.
pub proof fn a_question_shows_what_it_is_about(
    r: ConfirmPoint,
    plan: RecoveryPlan,
    step: RecoveryStep,
    warning: int,
    deadline: Span,
    v: Verification,
)
    ensures
        described(v) == v.object@ + "."@ + v.field@ + " "@ + v.description@,
        warning_asked(r, plan, warning, deadline) ==> r.diagnosis == plan.warnings@[warning]
            && r.deadline == deadline && r.step_id == plan.steps@[0].id,
        step_asked(r, step, deadline) ==> {
            &&& r.step_id == step.id
            &&& r.deadline == deadline
            &&& r.detail matches Detail::Step { commands, cleanup_commands, pre_verify, verify, .. }
                && commands@.len() == step.commands@.len() && cleanup_commands@.len()
                == step.cleanup_commands@.len() && pre_verify@.len() == step.pre_verify@.len()
                && verify@.len() == step.verify@.len() && (forall|i: int|
                0 <= i < step.commands@.len() ==> (#[trigger] commands@[i])@ == step.commands@[i]@)
        },
        pause_code(plan, Pause::StepDebug) == "step_debug_pause"@,
        pause_code(plan, Pause::ZHeight) == "z_confirm_before_resume"@,
        pause_code(plan, Pause::Preview) == "resume_preview"@,
{
    if step_asked(r, step, deadline) {
        if let Detail::Step { commands, cleanup_commands, pre_verify, verify, .. } = r.detail {
            assert(texts(commands@).len() == commands@.len());
            assert(texts(step.commands@).len() == step.commands@.len());
            assert(texts(cleanup_commands@).len() == cleanup_commands@.len());
            assert(texts(step.cleanup_commands@).len() == step.cleanup_commands@.len());
            assert(texts(pre_verify@).len() == pre_verify@.len());
            assert(texts(verify@).len() == verify@.len());
            assert forall|i: int| 0 <= i < step.commands@.len() implies (
            #[trigger] commands@[i])@ == step.commands@[i]@ by {
                assert(texts(commands@)[i] == commands@[i]@);
                assert(texts(step.commands@)[i] == step.commands@[i]@);
            }
        }
    }
}

/// An execution begins with its own record; a plan without steps is complete at
/// once, and any other waits for its first warning or its first gate.
pub proof fn an_execution_begins_with_its_record(plan: RecoveryPlan)
    ensures
        started(plan).1.len() > 0,
        started(plan).1[0] == Entry::PlanStart,
        plan.steps@.len() == 0 ==> started(plan).0.stage == Stage::Completed,
        plan.steps@.len() > 0 && plan.warnings@.len() == 0 ==> started(plan).0.stage
            == Stage::Gate,
{
}

/// The name of each entry of the transcript.
pub proof fn each_entry_has_its_own_event(step: usize, e: String, command: usize, value: Reading)
    ensures
        event_name(Entry::PlanStart) == "plan-start"@,
        event_name(Entry::PlanComplete) == "plan-complete"@,
        event_name(Entry::Advisory(step)) == "advisory"@,
        event_name(Entry::HardRefusal(step)) == "hard-refusal"@,
        event_name(Entry::OperatorDeclined(step)) == "operator-declined"@,
        event_name(Entry::ExclusivityLost { step, reason: e }) == "exclusivity-lost"@,
        event_name(Entry::FrameArmed(step)) == "frame-armed"@,
        event_name(Entry::FrameArmFailed { step, reason: e }) == "frame-arm-failed"@,
        event_name(Entry::StepStart(step)) == "step-start"@,
        event_name(Entry::StepOk(step)) == "step-ok"@,
        event_name(Entry::Send { step, command }) == "send"@,
        event_name(Entry::RecordAccel { step, machine: true, value }) == "record-machine-accel"@,
        event_name(Entry::RecordAccel { step, machine: false, value }) == "record-accel"@,
        event_name(Entry::ResponseOk(step)) == "response"@,
        event_name(Entry::ResponseError { step, error: e }) == "response"@,
        event_name(Entry::PreviewReposition { step, stop: command }) == "preview-reposition"@,
        event_name(Entry::PreviewAccept { step, stop: command }) == "preview-accept"@,
        event_name(Entry::CleanupSkip { step, command }) == "cleanup-skip"@,
        event_name(Entry::Cleanup { step, command }) == "cleanup"@,
        event_name(Entry::CleanupOk(step)) == "cleanup-ok"@,
        event_name(Entry::CleanupError { step, error: e }) == "cleanup-error"@,
        event_name(Entry::Abort(step)) == "abort"@,
{
}

/// The record of an accepted stop holds the offset that its own recovery file
/// resumes at, that of a hover its own offset and the very move; that of an abort
/// the step, the reason and whether the frame is unknown.
pub proof fn a_record_of_the_preview_is_of_its_own_stop(
    plan: RecoveryPlan,
    step: usize,
    stop: usize,
    script: Seq<char>,
)
    requires
        step < plan.steps@.len(),
        plan.preview matches Some(spec) && stop < spec.stops@.len() && stop < spec.bindings@.len(),
    ensures
        ({
            let id = ValueView::Count(plan.steps@[step as int].id as nat);
            let spec = plan.preview->0;
            &&& record_of(plan, Entry::PreviewAccept { step, stop }, script, None) == seq![
                ("event"@, ValueView::Text("preview-accept"@)),
                ("step"@, id),
                ("cursor"@, ValueView::Count(stop as nat)),
                (
                    "resume_offset"@,
                    ValueView::Count(spec.bindings@[stop as int].tail_offset as nat),
                ),
            ]
            &&& record_of(plan, Entry::PreviewReposition { step, stop }, script, None) == seq![
                ("event"@, ValueView::Text("preview-reposition"@)),
                ("step"@, id),
                ("cursor"@, ValueView::Count(stop as nat)),
                ("offset"@, ValueView::Count(spec.stops@[stop as int].offset as nat)),
                ("command"@, ValueView::Text(script)),
            ]
        }),
{
}

/// The advice behind an abort is that of its cause: what a missing interlock or
/// another sender leaves to do, and else that the printer was left as it was.
pub proof fn the_advice_is_that_of_the_cause(why: String, step_id: u32, wal_dir: Seq<char>)
    ensures
        abort_advice(StopCause::OperatorDeclined, step_id, wal_dir)
            == "recover: the printer was left as-is; review the transcript before retrying."@,
        abort_advice(StopCause::Transport(why), step_id, wal_dir)
            == "recover: the printer was left as-is; review the transcript before retrying."@,
        abort_advice(StopCause::ComputeFailed(why), step_id, wal_dir)
            == "recover: the printer was left as-is; review the transcript before retrying."@,
{
}

/// The derivation that the operator is shown is that of the plan's own formula: the
/// top of the print, and the place that the trigger is read from.
pub proof fn the_derivation_is_that_of_the_formula(plan: RecoveryPlan, i: int, f: TrueZFormula)
    requires
        0 <= i < plan.steps@.len(),
        plan.steps@[i].phase == Phase::TrueZDeclare,
        forall|j: int| 0 <= j < i ==> (#[trigger] plan.steps@[j]).phase != Phase::TrueZDeclare,
        plan.steps@[i].compute == Some(RuntimeComputation::TrueZ(f)),
    ensures
        derived(plan) == "true_Z = z_prev_top "@ + f.z_prev_top.spelling@
            + " + (halt_Z - trigger_Z), trigger read from "@ + match f.trigger_source {
            TriggerSource::RawLastZResult => "probe.last_z_result (raw trigger Z)"@,
            TriggerSource::BedZPlusOffset => "probe.last_probe_position[2] + z_offset"@,
            TriggerSource::DragResult => "plr.last_drag_result.trigger_z (ADXL drag)"@,
            TriggerSource::TouchResult => {
                "plr.last_touch_result.median_z + z_offset (consensus touch)"@
            },
        },
{
    the_first_step_of_a_phase_is_the_first(plan, Phase::TrueZDeclare, 0);
}

/// The record of an abort holds the step, its phase, the reason, the cause, the class
/// of a command's failure, and whether the frame is unknown, each under its own name.
pub proof fn a_record_of_an_abort_holds_its_outcome(
    plan: RecoveryPlan,
    step: usize,
    script: Seq<char>,
    outcome: ExecOutcome,
)
    ensures
        outcome matches ExecOutcome::Aborted { step_id, phase, reason, cause, frame_invalid } ==> {
            let r = record_of(plan, Entry::Abort(step), script, Some(outcome));
            &&& r.len() == 8
            &&& r[0] == ("event"@, ValueView::Text("abort"@))
            &&& r[1] == ("step"@, ValueView::Count(step_id as nat))
            &&& r[2] == ("phase"@, ValueView::Text(phase@))
            &&& r[3] == ("reason"@, ValueView::Text(reason@))
            &&& r[4].0 == "cause"@
            &&& cause matches StopCause::CommandFailed { failure, .. } ==> r[5] == (
                "failure"@,
                ValueView::Text(failure_code(failure)),
            )
            &&& !(cause is CommandFailed) ==> r[5] == ("failure"@, ValueView::Null)
            &&& r[7] == ("frame_invalid"@, ValueView::Flag(frame_invalid))
        },
{
}

/// The records of the printer gate and of the file hold what they are about, each
/// under its own name.
pub proof fn a_record_of_a_gate_holds_what_it_decided(
    name: String,
    n: u64,
    path: String,
    bytes: u64,
    attempt: u32,
    reason: String,
)
    ensures
        gate_record_of(GateEntry::Renamed { name, m23_repointed: n }) == seq![
            ("event"@, ValueView::Text("recovery-file-renamed"@)),
            ("name"@, ValueView::Text(name@)),
            ("m23_repointed"@, ValueView::Count(n as nat)),
        ],
        gate_record_of(GateEntry::Written { path, bytes, attempt }) == seq![
            ("event"@, ValueView::Text("recovery-file-written"@)),
            ("path"@, ValueView::Text(path@)),
            ("bytes"@, ValueView::Count(bytes as nat)),
            ("attempt"@, ValueView::Count(attempt as nat)),
        ],
        gate_record_of(GateEntry::Refused { reason }) == seq![
            ("event"@, ValueView::Text("refused"@)),
            ("gate"@, ValueView::Text("idle-and-exclusive"@)),
            ("reason"@, ValueView::Text(reason@)),
        ],
{
}

/// The pipeline says what it was told, each number where its words say it is.
pub proof fn the_pipeline_says_what_it_was_told(before: Pipeline, event: PipelineEvent)
    ensures
        before is Scan ==> (event matches PipelineEvent::Scanned(Ok(facts)) ==> {
            let lines = says(before, event);
            &&& lines[0] == "pipeline: "@ + decimal(facts.records as nat)
                + " WAL records, tail: "@ + facts.tail@
            &&& lines.len() == if facts.epochs is Some {
                2int
            } else {
                1
            }
            &&& facts.epochs matches Some((all, older, newer)) ==> lines[1]
                == "pipeline: WAL spans "@ + decimal(all as nat)
                + " epochs; recovering the newest printing epoch ("@ + decimal(older as nat)
                + " older, "@ + decimal(newer as nat) + " newer discarded)"@
        }),
        before matches Pipeline::ReadFile { path } ==> (event matches PipelineEvent::FileRead(
            Ok(bytes),
        ) ==> says(before, event) == seq![
            "pipeline: print file "@ + path@ + " ("@ + decimal(bytes@.len()) + " bytes)"@,
        ]),
        before matches Pipeline::Model { work, base, .. } ==> (
        event matches PipelineEvent::Modeled(Ok(model)) ==> {
            let lines = says(before, event);
            &&& lines[0] == "pipeline: layer model from byte "@ + decimal(base as nat) + ": "@
                + decimal(model.layers as nat) + " layers"@
            &&& lines.len() == if work.facts.window is Some {
                3int
            } else {
                2
            }
        }),
        before is Match ==> (event matches PipelineEvent::Matched(Ok(facts)) ==> says(before, event)
            == seq![
            "pipeline: match confidence "@ + facts.confidence@ + " ("@ + decimal(
                facts.candidates as nat,
            ) + " candidates)"@,
        ]),
        before is Contact ==> (event matches PipelineEvent::Contacted(
            Ok(ContactFacts::Candidates { count, x, y }),
        ) ==> says(before, event) == seq![
            "pipeline: "@ + decimal(count as nat) + " probe candidate(s); best at ("@ + x@ + ", "@
                + y@ + ")"@,
        ]),
{
}

/// A finished print is told with the offset that was tested, the size of the file
/// and what lies between; and with the commands that did not run where there are
/// any, which are never offered.
pub proof fn a_finished_print_is_told_with_its_numbers(report: CompletionReport)
    ensures
        completion_lines(report)[0]
            == "recover: the print is COMPLETE — no extrusion remains after byte "@ + decimal(
            report.tested_offset as nat,
        ) + " of "@ + decimal(report.file_size as nat) + "; the "@ + decimal(trailing(report))
            + " trailing bytes are the slicer's config-block footer."@,
        unrun(report.work).len() > 0 ==> completion_lines(report).len() == 4 && completion_lines(
            report,
        )[2] == "    "@ + joined(unrun(report.work), " "@),
        unrun(report.work).len() == 0 ==> completion_lines(report).len() == 2,
{
}

/// A notice of an overage gives the cap, then how far the log lies above it.
pub proof fn an_overage_is_told_with_its_numbers(cap: u64, over_by: u64, pinned: Seq<char>)
    ensures
        overage_message(cap, over_by, pinned)
            == "dead-reckoning: WAL retention cannot meet its "@ + decimal(cap as nat)
            + " B cap — "@ + decimal(over_by as nat) + " B over, held by "@ + unquoted(pinned)
            + ". Evidence is being KEPT, not deleted; free space or clear the pin."@,
{
}

/// The question that an execution waits for is the one of the stage that it stands
/// at; at any other stage it waits for none.
pub proof fn an_execution_asks_at_its_own_stage(plan: RecoveryPlan, s: Executor)
    ensures
        s.stage matches Stage::Warning(w) ==> asked(plan, s) == Some(Pause::Warning(w)),
        s.stage == Stage::StepDebug ==> asked(plan, s) == Some(Pause::StepDebug),
        s.stage == Stage::ZHeight ==> asked(plan, s) == Some(Pause::ZHeight),
        s.stage is PreviewAsk ==> asked(plan, s) == Some(Pause::Preview),
        !(s.stage is Warning || s.stage is StepDebug || s.stage is ZHeight || s.stage is PreviewAsk)
            ==> asked(plan, s) is None,
{
}

/// A temperature is polled for as long as heating may take, and everything else for
/// as long as state may take to settle.
pub proof fn only_a_temperature_is_waited_for_longer(
    min: Num,
    max: Num,
    predicate: Predicate,
    options: ExecOptions,
)
    ensures
        poll_limit(Predicate::TempWithin { min, max }, options) == options.temp_timeout,
        (forall|lo: Num, hi: Num| predicate != (Predicate::TempWithin { min: lo, max: hi }))
            ==> poll_limit(predicate, options) == options.verify_timeout,
{
    if let Predicate::TempWithin { min: lo, max: hi } = predicate {
        assert(predicate == (Predicate::TempWithin { min: lo, max: hi }));
    }
}

/// The stop's layers are told by number only where the replay began with the file;
/// elsewhere they are counted from the place where it began, which is told too.
pub proof fn layers_are_numbered_only_from_the_start_of_the_file(
    facts: StopFacts,
    anchor: Anchor,
    base: u64,
    model: ModelFacts,
)
    ensures
        facts.window is None ==> attribution(facts, anchor, base, model).len() == 1,
        facts.window matches Some(w) ==> {
            let lines = attribution(facts, anchor, base, model);
            &&& lines.len() == 2
            &&& base == 0 ==> lines[0] == "pipeline: layer attribution: "@ + model.described@
                + " (offset window bytes "@ + decimal(w.start as nat) + "..="@ + decimal(
                w.end as nat,
            ) + ")"@
            &&& base != 0 ==> lines[0] == "pipeline: layer attribution: stop spans "@ + decimal(
                model.window_layers as nat,
            ) + " geometric layer(s)"@ + (if model.before_first {
                " plus the pre-first-layer preamble"@
            } else {
                ""@
            }) + " within the offset window bytes "@ + decimal(w.start as nat) + "..="@ + decimal(
                w.end as nat,
            ) + ", window-relative to the resume anchor at byte "@ + decimal(base as nat)
                + " (absolute layer numbers would require modeling from file start)"@
            &&& lines[1] == mark_lines(
                anchor.current_layer,
                anchor.total_layer,
                base == 0,
                model.consistent,
            )
        },
{
}

/// A line gives each of its numbers and names where its words say that it is.
pub proof fn each_line_gives_its_numbers_in_place(
    a: nat,
    b: nat,
    c: nat,
    d: nat,
    p: Seq<char>,
    q: Seq<char>,
    r: Seq<char>,
)
    ensures
        pruned_line(a, b, c, d) == "plrd: WAL retention pruned "@ + decimal(a)
            + " old segment(s) ("@ + decimal(b) + " B reclaimed); "@ + decimal(c)
            + " B retained against the "@ + decimal(d) + " B cap"@,
        over_line(a, b, c, p) == "plrd: WAL retention: "@ + decimal(a)
            + " B retained exceeds the "@ + decimal(b) + " B cap by "@ + decimal(c) + " B"@ + p
            + "; keeping all evidence (a pin or the current print beats the cap)"@,
        plan_line(a, b, p, c) == "recover: plan has "@ + decimal(a) + " steps, "@ + decimal(b)
            + " commands; resume "@ + p + " @ byte "@ + decimal(c),
        complete_line(a, b, c)
            == "pipeline: the print is COMPLETE — no extrusion remains after byte "@ + decimal(a)
            + " of "@ + decimal(b) + " ("@ + decimal(c)
            + " trailing bytes are the slicer footer); nothing to resume"@,
        aborted_line(a, p, q, r) == "recover: ABORTED at step "@ + decimal(a) + " ["@ + p + "]: "@
            + q + " ("@ + r + ")"@,
        window_line(p, q, r) == "pipeline: stop window t_a "@ + p + "s .. t_b "@ + q + "s, class "@
            + r,
        beyond_line(a, b) == "context file offset "@ + decimal(a) + " exceeds the file ("@
            + decimal(b) + " bytes); wrong file?"@,
        step_line(a, p, q) == "recover: step "@ + decimal(a) + " ["@ + p + "] "@ + q,
{
}

/// The preview's question gives the stop's place in the list, its own X, Y and byte.
pub proof fn the_preview_asks_of_its_own_stop(spec: PreviewSpec, stop: int)
    requires
        0 <= stop < spec.stops@.len(),
    ensures
        preview_what(spec, stop) == "hovering over stop "@ + decimal((stop + 1) as nat) + " of "@
            + decimal(spec.stops@.len()) + " at X"@ + spec.stops@[stop].x.spelling@ + " Y"@
            + spec.stops@[stop].y.spelling@ + " (byte "@ + decimal(spec.stops@[stop].offset as nat)
            + "); move to the ragged edge on the part, then accept"@,
{
}

/// A failed call tells its method, and the code and the words that came with it.
pub proof fn a_failed_call_tells_what_came_with_it(
    method: String,
    seconds: u64,
    code: i64,
    message: String,
)
    ensures
        error_text(MoonrakerError::Timeout { method, seconds }) == "moonraker call `"@ + method@
            + "` timed out after "@ + decimal(seconds as nat) + "s"@,
        error_text(MoonrakerError::Rpc { method, code, message }) == "moonraker error "@
            + decimal_int(code as int) + " for `"@ + method@ + "`: "@ + message@,
        error_text(MoonrakerError::Ws(message)) == "moonraker connection: "@ + message@,
        error_text(MoonrakerError::Protocol(message)) == "moonraker protocol violation: "@
            + message@,
{
}

/// A stale calibration is told by the stamp it carries and the fingerprint of now,
/// and a plugin that disagrees by both methods, each in its place.
pub proof fn a_disagreement_names_both_sides(
    config: Seq<Member>,
    plr: PlrSettings,
    stamped: String,
    what: Seq<char>,
    advice: Seq<char>,
    reported: Seq<char>,
    method: Seq<char>,
)
    requires
        plr.cal_fingerprint_noise_floor == Some(stamped),
    ensures
        mismatch(config, plr, CalGroup::NoiseFloor, what, advice) == what
            + " calibration fingerprint mismatch (staged "@ + stamped@ + ", recomputed "@
            + fingerprint_of(config, plr, CalGroup::NoiseFloor) + ") — "@ + advice,
        disagreement(reported, method) == "plr status object reports method Some("@ + quoted_text(
            reported,
        ) + ") but configfile settings say "@ + quoted_text(method) + "; the settings win"@,
{
}

/// What stopped an execution is written by its own name, with the words that came
/// with it.
pub proof fn a_cause_is_written_by_its_own_name(
    why: String,
    seen: String,
    failure: StepFailure,
    code: &'static str,
    kind: ConfirmKind,
)
    ensures
        cause_text(StopCause::VerificationFailed { verification: why, observed: seen })
            == "VerificationFailed { verification: "@ + quoted_text(why@) + ", observed: "@
            + quoted_text(seen@) + " }"@,
        cause_text(StopCause::Transport(why)) == "Transport("@ + quoted_text(why@) + ")"@,
        cause_text(StopCause::ComputeFailed(why)) == "ComputeFailed("@ + quoted_text(why@) + ")"@,
        cause_text(StopCause::OperatorDeclined) == "OperatorDeclined"@,
        cause_text(StopCause::FrameGuardUnwritable(why)) == "FrameGuardUnwritable("@ + quoted_text(
            why@,
        ) + ")"@,
        cause_text(StopCause::ExclusivityLost(why)) == "ExclusivityLost("@ + quoted_text(why@)
            + ")"@,
        cause_text(StopCause::CommandFailed { failure, message: why })
            == "CommandFailed { failure: "@ + (match failure {
            StepFailure::ProbeTriggeredEarly => "ProbeTriggeredEarly"@,
            StepFailure::NoTrigger => "NoTrigger"@,
            StepFailure::MoveOutOfRange => "MoveOutOfRange"@,
            StepFailure::Unknown => "Unknown"@,
        }) + ", message: "@ + quoted_text(why@) + " }"@,
        cause_text(StopCause::ConfirmationDeclined { kind, code })
            == "ConfirmationDeclined { kind: "@ + (match kind {
            ConfirmKind::Diagnosis => "Diagnosis"@,
            ConfirmKind::ZHeight => "ZHeight"@,
            ConfirmKind::StepDebug => "StepDebug"@,
            ConfirmKind::Preview => "Preview"@,
        }) + ", code: "@ + quoted_text(code@) + " }"@,
        cause_text(StopCause::HardDiagnosis { code }) == "HardDiagnosis { code: "@ + quoted_text(
            code@,
        ) + " }"@,
{
}

/// A pruning is told with how many segments went, what that freed, what is kept and
/// the cap; an overage with what is kept, the cap and the difference.
pub proof fn a_pruning_is_told_with_its_own_numbers(
    plan: PruningPlan,
    metas: Seq<SegmentMeta>,
    removed: usize,
)
    requires
        0 <= reclaimed(metas, plan.delete@, metas.len()) <= u64::MAX,
    ensures
        ({
            let lines = pruning_lines(plan, metas, Ok(removed));
            &&& plan.delete@.len() > 0 ==> lines[0] == "plrd: WAL retention pruned "@ + decimal(
                removed as nat,
            ) + " old segment(s) ("@ + decimal(
                reclaimed(metas, plan.delete@, metas.len()) as nat,
            ) + " B reclaimed); "@ + decimal(plan.kept_bytes as nat) + " B retained against the "@
                + decimal(plan.cap as nat) + " B cap"@
            &&& plan.overage matches Some(over) ==> (over.pinned is None ==> lines.last()
                == "plrd: WAL retention: "@ + decimal(over.kept_bytes as nat)
                + " B retained exceeds the "@ + decimal(over.cap as nat) + " B cap by "@ + decimal(
                over.over_by as nat,
            ) + " B"@ + ""@
                + "; keeping all evidence (a pin or the current print beats the cap)"@)
        }),
{
}

/// A plan is told with its steps, its commands, and where it resumes.
pub proof fn a_plan_is_told_with_its_own_numbers(
    bundle: PlanBundle,
    options: RecoverOptions,
    marked: bool,
)
    ensures
        drive_lines(PipelineOutcome::Plan(bundle), options, marked)[1] == "recover: plan has "@
            + decimal(bundle.plan.steps@.len()) + " steps, "@ + decimal(
            plan_commands(bundle.plan, bundle.plan.steps@.len()).len(),
        ) + " commands; resume "@ + bundle.plan.resume_file@ + " @ byte "@ + decimal(
            bundle.plan.resume_offset as nat,
        ),
{
}

/// The end of a launch is told as it was: how many steps ran, or at which step, in
/// which phase and for what reason it stopped; and a standing marker by the step,
/// the phase and the reason that it names.
pub proof fn the_end_of_a_launch_is_told_as_it_was(
    wal_dir: Seq<char>,
    was: PlanBundle,
    outcome: ExecOutcome,
    marker: FrameInvalid,
    e: String,
    path: String,
)
    ensures
        outcome matches ExecOutcome::Completed { steps } ==> launch_lines(
            wal_dir,
            Launch::Run,
            was,
            LaunchEvent::Executed(outcome),
        ) == seq![
            "recover: COMPLETED — "@ + decimal(steps as nat) + " steps executed and verified."@,
        ],
        outcome matches ExecOutcome::Aborted { step_id, phase, reason, cause, frame_invalid } ==> {
            let lines = launch_lines(wal_dir, Launch::Run, was, LaunchEvent::Executed(outcome));
            &&& lines[0] == "recover: ABORTED at step "@ + decimal(step_id as nat) + " ["@ + phase@
                + "]: "@ + reason@ + " ("@ + cause_text(cause) + ")"@
            &&& frame_invalid ==> lines.len() == 1
            &&& !frame_invalid ==> lines.len() == 2 && lines[1] == abort_advice(
                cause,
                step_id,
                wal_dir,
            )
        },
        launch_lines(wal_dir, Launch::ReadMarker, was, LaunchEvent::MarkerRead(Some(marker)))
            == seq![
            "recover: REFUSED — the printer's Z frame is unknown after an aborted recovery (aborted at step "@
                + decimal(marker.step_id as nat) + " ["@ + marker.phase@ + "]: "@ + marker.reason@
                + "). Re-run a dry run (plrd scan / plrd recover without --execute) for a fresh plan before resuming."@,
        ],
        launch_lines(wal_dir, Launch::Connect, was, LaunchEvent::Connected(Err(e))) == seq![
            "recover: cannot reach Moonraker: "@ + e@,
        ],
        launch_lines(
            wal_dir,
            Launch::OpenTranscript,
            was,
            LaunchEvent::TranscriptMade { path, result: Err(e) },
        ) == seq!["recover: REFUSED — cannot create transcript "@ + path@ + ": "@ + e@],
{
}

/// A finished print is told in the pipeline with the offset, the size and the rest.
pub proof fn a_completion_is_told_with_its_own_numbers(report: CompletionReport)
    ensures
        completed_lines(report)[0]
            == "pipeline: the print is COMPLETE — no extrusion remains after byte "@ + decimal(
            report.tested_offset as nat,
        ) + " of "@ + decimal(report.file_size as nat) + " ("@ + decimal(trailing(report))
            + " trailing bytes are the slicer footer); nothing to resume"@,
{
}

/// A claim is told by the path that was written and the size of what was, by the
/// name that it went under, or by the path that could not be.
pub proof fn a_claim_is_told_by_its_own_path(claim: FileClaim, bundle: PlanBundle, e: String)
    ensures
        claim_lines(claim, bundle, Claim::Failed(e)) == seq![unwritable_line(claim.path@, e@)],
        claim_lines(claim, bundle, Claim::Written).last() == written_line(
            claim.path@,
            bundle.recovery_file_content@.len(),
        ),
        claim.path@ == bundle.recovery_file_path@ ==> claim_lines(
            claim,
            bundle,
            Claim::Written,
        ).len() == 1,
        claim.path@ != bundle.recovery_file_path@ ==> claim_lines(
            claim,
            bundle,
            Claim::Written,
        ).len() == 2,
{
}

} // verus!
