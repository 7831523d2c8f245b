//! The operator's side of a recovery: the gates between a pipeline outcome and
//! an execution, and what the operator is told on the way.
//!
//! A dry run is the default. Executing takes two flags and an explicit answer;
//! nothing connects before that.

use vstd::prelude::*;

use crate::executor::{dry_run, plan_commands, listed, ExecOptions};
use crate::narration::{trailing, unrun, unrun_joined, CompletionReport};
use crate::number::Span;
use crate::pipeline::{say, PipelineOutcome};
use crate::plan::{RecoveryPlan, RecoveryStep};
use crate::recovery_file::{lossy_text, preview_lines, preview_recovery_file, PlanBundle};
use crate::source::{prefixed, push_prefixed};
use crate::text::{
    decimal, decimal_of, joined, lowercased, same, texts, to_ascii_lowercase, trim, trimmed,
};

verus! {

/// Success.
pub const EXIT_OK: u8 = 0;

/// Runtime failure.
pub const EXIT_RUNTIME: u8 = 1;

/// Usage error.
pub const EXIT_USAGE: u8 = 2;

/// The command needs Linux.
pub const EXIT_UNSUPPORTED: u8 = 3;

/// The question before an execution.
pub const CONSENT_PROMPT: &'static str = "Execute this recovery on the printer? [y/N] ";

/// The flags of one recovery.
#[derive(Debug, Clone, Copy)]
pub struct RecoverOptions {
    /// Execute instead of a dry run.
    pub execute: bool,
    /// The second flag that executing takes.
    pub confirm: bool,
    /// Ask before every step.
    pub step: bool,
    /// The executor's tuning.
    pub exec_options: ExecOptions,
    /// How long connecting may take.
    pub connect_timeout: Span,
}

impl RecoverOptions {
    /// Production options for the given flags: ten seconds to connect.
    pub fn new(execute: bool, confirm: bool, step: bool, exec_options: ExecOptions) -> (r: Self)
        ensures
            r.execute == execute,
            r.confirm == confirm,
            r.step == step,
            r.exec_options == exec_options,
            r.connect_timeout.nanos == 10_000_000_000,
    {
        RecoverOptions {
            execute,
            confirm,
            step,
            exec_options,
            connect_timeout: Span::from_secs(10),
        }
    }
}

/// A line is consent only when it is `y` or `yes`, in any case, with nothing but
/// whitespace around it.
pub open spec fn consents(line: Option<Seq<char>>) -> bool {
    match line {
        Some(s) => lowercased(trimmed(s)) == "y"@ || lowercased(trimmed(s)) == "yes"@,
        None => false,
    }
}

/// The text behind an optional reference.
pub open spec fn text_behind(line: Option<&str>) -> Option<Seq<char>> {
    match line {
        Some(s) => Some(s@),
        None => None,
    }
}

/// Whether a line is consent. A line that could not be read is not.
pub fn read_yes(line: Option<&str>) -> (r: bool)
    ensures
        r == consents(text_behind(line)),
{
    match line {
        Some(s) => {
            let t = trim(s);
            let answer = to_ascii_lowercase(t.as_str());
            same(answer.as_str(), "y") || same(answer.as_str(), "yes")
        },
        None => false,
    }
}

/// The line that announces a step.
pub open spec fn step_line(id: nat, phase: Seq<char>, summary: Seq<char>) -> Seq<char> {
    "recover: step "@ + decimal(id) + " ["@ + phase + "] "@ + summary
}

fn announce_step_text(id: u32, phase: &str, summary: &str) -> (r: String)
    ensures
        r@ == step_line(id as nat, phase@, summary@),
{
    let mut out = "recover: step ".to_owned();
    let digits1 = decimal_of(id as u64);
    out.append(digits1.as_str());
    out.append(" [");
    out.append(phase);
    out.append("] ");
    out.append(summary);
    out
}

/// The question before a step.
pub open spec fn step_question(id: nat) -> Seq<char> {
    "  proceed with step "@ + decimal(id) + "? [y/N] "@
}

fn step_question_text(id: u32) -> (r: String)
    ensures
        r@ == step_question(id as nat),
{
    let mut out = "  proceed with step ".to_owned();
    let digits1 = decimal_of(id as u64);
    out.append(digits1.as_str());
    out.append("? [y/N] ");
    out
}

/// Announces a step.
pub fn announce_step(step: &RecoveryStep) -> (r: String)
    ensures
        r@ == step_line(step.id as nat, step.phase_name@, step.summary@),
{
    announce_step_text(step.id, step.phase_name.as_str(), step.summary.as_str())
}

/// The question before a step; none unless the operator wants to be asked.
pub fn step_prompt(options: &RecoverOptions, step: &RecoveryStep) -> (r: Option<String>)
    ensures
        match r {
            Some(s) => options.step && s@ == step_question(step.id as nat),
            None => !options.step,
        },
{
    if options.step {
        Some(step_question_text(step.id))
    } else {
        None
    }
}

/// Whether a step may run: always, unless the operator wants to be asked and
/// does not consent.
pub fn step_allowed(options: &RecoverOptions, line: Option<&str>) -> (r: bool)
    ensures
        r == (!options.step || consents(text_behind(line))),
{
    !options.step || read_yes(line)
}

/// A finished print, in the operator's words.
pub open spec fn finished_line(tested: nat, size: nat, rest: nat) -> Seq<char> {
    "recover: the print is COMPLETE — no extrusion remains after byte "@ + decimal(tested) + " of "@ + decimal(size) + "; the "@ + decimal(rest) + " trailing bytes are the slicer's config-block footer."@
}

fn finished_text(tested: u64, size: u64, rest: u64) -> (r: String)
    ensures
        r@ == finished_line(tested as nat, size as nat, rest as nat),
{
    let mut out = "recover: the print is COMPLETE — no extrusion remains after byte ".to_owned();
    let digits1 = decimal_of(tested);
    out.append(digits1.as_str());
    out.append(" of ");
    let digits2 = decimal_of(size);
    out.append(digits2.as_str());
    out.append("; the ");
    let digits3 = decimal_of(rest);
    out.append(digits3.as_str());
    out.append(" trailing bytes are the slicer's config-block footer.");
    out
}

/// Said of a print that ran its end sequence.
pub const ENDED_TOO: &'static str = "  Nothing to recover; the print ran its end sequence too.";

/// Said before the commands that did not run.
pub const ENDED_WITHOUT: &'static str =
    "  Nothing to recover. These end-sequence commands did not run:";

/// Said after the commands that did not run.
pub const NOT_OFFERED: &'static str = "  They are NOT offered for execution: an end macro homes, drops the bed or moves Z, and none of the plan's envelope or pre-flight checks apply to a macro body. Run them by hand if you want them.";

/// The report on a finished print, a line each.
pub open spec fn completion_lines(report: CompletionReport) -> Seq<Seq<char>> {
    let done = finished_line(
        report.tested_offset as nat,
        report.file_size as nat,
        trailing(report),
    );
    if unrun(report.work).len() == 0 {
        seq![done, ENDED_TOO@]
    } else {
        seq![done, ENDED_WITHOUT@, "    "@ + joined(unrun(report.work), " "@), NOT_OFFERED@]
    }
}

/// Reports a finished print.
pub fn report_completion(report: &CompletionReport, lines: &mut Vec<String>)
    ensures
        texts(final(lines)@) == texts(old(lines)@) + completion_lines(*report),
{
    let ghost given = texts(lines@);
    lines.push(
        finished_text(report.tested_offset, report.file_size, report.trailing_bytes()),
    );
    match unrun_joined(report) {
        None => {
            lines.push(ENDED_TOO.to_owned());
        },
        Some(commands) => {
            lines.push(ENDED_WITHOUT.to_owned());
            let mut line = "    ".to_owned();
            line.append(commands.as_str());
            lines.push(line);
            lines.push(NOT_OFFERED.to_owned());
        },
    }
    assert(texts(lines@) =~= given + completion_lines(*report));
}

/// What the operator's side does next.
#[derive(Debug, Clone, Copy, PartialEq, Eq, Structural)]
pub enum Next {
    /// It ends.
    Exit {
        /// The exit code.
        code: u8,
        /// Whether the frame-invalid marker is to be cleared.
        clear_marker: bool,
    },
    /// It asks for consent.
    AskConsent,
    /// It executes the plan.
    Execute,
}

/// The size of a plan and where it resumes.
pub open spec fn plan_line(steps: nat, commands: nat, file: Seq<char>, offset: nat) -> Seq<char> {
    "recover: plan has "@ + decimal(steps) + " steps, "@ + decimal(commands) + " commands; resume "@ + file + " @ byte "@ + decimal(offset)
}

fn plan_text(steps: u64, commands: u64, file: &str, offset: u64) -> (r: String)
    ensures
        r@ == plan_line(steps as nat, commands as nat, file@, offset as nat),
{
    let mut out = "recover: plan has ".to_owned();
    let digits1 = decimal_of(steps);
    out.append(digits1.as_str());
    out.append(" steps, ");
    let digits2 = decimal_of(commands);
    out.append(digits2.as_str());
    out.append(" commands; resume ");
    out.append(file);
    out.append(" @ byte ");
    let digits3 = decimal_of(offset);
    out.append(digits3.as_str());
    out
}

/// Said when a dry run clears the marker.
pub const MARKER_CLEARED: &'static str = "recover: cleared the stale frame-invalid marker; this fresh plan re-establishes the Z frame from scratch, so --execute is re-enabled after review.";

/// Said at the end of a dry run.
pub const DRY_RUN: &'static str =
    "recover: DRY RUN — nothing was sent. Re-run with --execute --confirm";

/// Said at the very end of a dry run.
pub const DRY_RUN_TAIL: &'static str = "         to execute after review.";

/// Said when the second flag is missing.
pub const CONFIRM_MISSING: &'static str = "recover: REFUSED — --execute requires --confirm.";

/// Said before the question.
pub const ABOUT_TO: &'static str = "recover: about to EXECUTE the plan above on the printer.";

/// Said when the operator does not consent.
pub const DECLINED: &'static str = "recover: declined by operator; nothing was sent.";

/// Said of a clean end.
pub const CLEAN: &'static str =
    "recover: the WAL ends with a CLEAN print end; nothing to recover.";

/// Said of a machine that was rejected.
pub const REJECTED: &'static str = "recover: REFUSED — machine prerequisites failed:";

/// The advice after a rejection.
pub const REJECTED_ADVICE: &'static str =
    "  Fix the machine/config, set machine.validated_config_hash to the";

/// The rest of the advice.
pub const REJECTED_TAIL: &'static str =
    "  computed hash printed above once re-validated, and retry.";

/// The advice after automation declined.
pub const BY_HAND: &'static str =
    "  Manual recovery is required; the report above is the evidence.";

/// How many commands a plan sends.
pub open spec fn command_count(plan: RecoveryPlan) -> nat {
    plan_commands(plan, plan.steps@.len()).len()
}

/// What every plan is introduced with.
pub open spec fn plan_lines(plan: RecoveryPlan) -> Seq<Seq<char>> {
    seq![
        plan.rendered@,
        plan_line(
            plan.steps@.len(),
            command_count(plan),
            plan.resume_file@,
            plan.resume_offset as nat,
        ),
    ]
}

/// The preview of a bundle's recovery file.
pub open spec fn bundle_preview(bundle: PlanBundle) -> Seq<Seq<char>> {
    preview_lines(
        bundle.recovery_file_path@,
        bundle.recovery_file_content@.len(),
        lossy_text(bundle.recovery_file_content@),
    )
}

/// What a dry run says behind the plan.
pub open spec fn dry_lines(bundle: PlanBundle, marked: bool) -> Seq<Seq<char>> {
    bundle_preview(bundle) + (if marked {
        seq![MARKER_CLEARED@]
    } else {
        Seq::empty()
    }) + seq![DRY_RUN@, DRY_RUN_TAIL@]
}

/// What the operator is told of an outcome. `marked` says whether the
/// frame-invalid marker stands.
pub open spec fn drive_lines(
    outcome: PipelineOutcome,
    options: RecoverOptions,
    marked: bool,
) -> Seq<Seq<char>> {
    match outcome {
        PipelineOutcome::CleanShutdown => seq![CLEAN@],
        PipelineOutcome::Complete(report) => completion_lines(report),
        PipelineOutcome::MachineRejected(failures) => seq![REJECTED@] + prefixed(
            "  - "@,
            texts(failures@),
        ) + seq![REJECTED_ADVICE@, REJECTED_TAIL@],
        PipelineOutcome::ManualFallback(reason) => seq![
            "recover: automation declined — "@ + reason@,
            BY_HAND@,
        ],
        PipelineOutcome::NotPossible(reason) => seq!["recover: not possible — "@ + reason@],
        PipelineOutcome::Plan(bundle) => plan_lines(bundle.plan) + (if !options.execute {
            dry_lines(bundle, marked)
        } else if !options.confirm {
            seq![CONFIRM_MISSING@]
        } else {
            seq![ABOUT_TO@]
        }),
    }
}

/// What the operator's side does with an outcome. Only a plan goes on, and only
/// with both flags.
pub open spec fn drive_next(
    outcome: PipelineOutcome,
    options: RecoverOptions,
    marked: bool,
) -> Next {
    match outcome {
        PipelineOutcome::CleanShutdown => Next::Exit { code: EXIT_OK, clear_marker: false },
        PipelineOutcome::Complete(_) => Next::Exit { code: EXIT_OK, clear_marker: false },
        PipelineOutcome::Plan(_) => if !options.execute {
            Next::Exit { code: EXIT_OK, clear_marker: marked }
        } else if !options.confirm {
            Next::Exit { code: EXIT_USAGE, clear_marker: false }
        } else {
            Next::AskConsent
        },
        _ => Next::Exit { code: EXIT_RUNTIME, clear_marker: false },
    }
}

fn append_all(lines: &mut Vec<String>, more: &Vec<String>)
    ensures
        texts(final(lines)@) == texts(old(lines)@) + texts(more@),
{
    let ghost given = texts(lines@);
    let ghost all = texts(more@);
    let mut i: usize = 0;
    assert(given + all.take(0) =~= given);
    while i < more.len()
        invariant
            0 <= i <= more@.len(),
            all == texts(more@),
            texts(lines@) == given + all.take(i as int),
        decreases more@.len() - i,
    {
        let ghost before = texts(lines@);
        lines.push(more[i].clone());
        assert(texts(lines@) =~= before.push(more@[i as int]@));
        assert(texts(lines@) =~= given + all.take(i + 1));
        i = i + 1;
    }
    assert(all.take(i as int) =~= all);
}

fn two(before: &str, text: &str) -> (r: String)
    ensures
        r@ == before@ + text@,
{
    let mut out = before.to_owned();
    out.append(text);
    out
}

fn drive_plan(
    bundle: &PlanBundle,
    options: &RecoverOptions,
    marked: bool,
    lines: &mut Vec<String>,
) -> (r: Next)
    ensures
        r == (if !options.execute {
            Next::Exit { code: EXIT_OK, clear_marker: marked }
        } else if !options.confirm {
            Next::Exit { code: EXIT_USAGE, clear_marker: false }
        } else {
            Next::AskConsent
        }),
        texts(final(lines)@) == texts(old(lines)@) + (plan_lines(bundle.plan) + (
        if !options.execute {
            dry_lines(*bundle, marked)
        } else if !options.confirm {
            seq![CONFIRM_MISSING@]
        } else {
            seq![ABOUT_TO@]
        })),
{
    let ghost given = texts(lines@);
    let dry = dry_run(&bundle.plan);
    assert(dry.would_send@.len() == listed(dry.would_send@).len());
    assert(bundle.plan.steps@.len() == bundle.plan.steps.len());
    let summary = plan_text(
        bundle.plan.steps.len() as u64,
        dry.would_send.len() as u64,
        bundle.plan.resume_file.as_str(),
        bundle.plan.resume_offset,
    );
    lines.push(dry.rendered);
    lines.push(summary);
    let ghost intro = given + plan_lines(bundle.plan);
    assert(texts(lines@) =~= intro);
    if !options.execute {
        let preview = preview_recovery_file(bundle);
        append_all(lines, &preview);
        if marked {
            say(lines, MARKER_CLEARED.to_owned());
        }
        say(lines, DRY_RUN.to_owned());
        say(lines, DRY_RUN_TAIL.to_owned());
        assert(texts(lines@) =~= given + (plan_lines(bundle.plan) + dry_lines(*bundle, marked)));
        return Next::Exit { code: EXIT_OK, clear_marker: marked };
    }
    if !options.confirm {
        lines.push(CONFIRM_MISSING.to_owned());
        assert(texts(lines@) =~= given + (plan_lines(bundle.plan) + seq![CONFIRM_MISSING@]));
        return Next::Exit { code: EXIT_USAGE, clear_marker: false };
    }
    lines.push(ABOUT_TO.to_owned());
    assert(texts(lines@) =~= given + (plan_lines(bundle.plan) + seq![ABOUT_TO@]));
    Next::AskConsent
}

/// The gates over a pipeline outcome, up to the question.
pub fn drive(
    outcome: &PipelineOutcome,
    options: &RecoverOptions,
    marked: bool,
    lines: &mut Vec<String>,
) -> (r: Next)
    ensures
        r == drive_next(*outcome, *options, marked),
        texts(final(lines)@) == texts(old(lines)@) + drive_lines(*outcome, *options, marked),
{
    let ghost given = texts(lines@);
    match outcome {
        PipelineOutcome::CleanShutdown => {
            lines.push(CLEAN.to_owned());
            assert(texts(lines@) =~= given + seq![CLEAN@]);
            Next::Exit { code: EXIT_OK, clear_marker: false }
        },
        PipelineOutcome::Complete(report) => {
            report_completion(report, lines);
            Next::Exit { code: EXIT_OK, clear_marker: false }
        },
        PipelineOutcome::MachineRejected(failures) => {
            say(lines, REJECTED.to_owned());
            push_prefixed(lines, "  - ", failures);
            say(lines, REJECTED_ADVICE.to_owned());
            say(lines, REJECTED_TAIL.to_owned());
            assert(texts(lines@) =~= given + drive_lines(*outcome, *options, marked));
            Next::Exit { code: EXIT_RUNTIME, clear_marker: false }
        },
        PipelineOutcome::ManualFallback(reason) => {
            lines.push(two("recover: automation declined — ", reason.as_str()));
            lines.push(BY_HAND.to_owned());
            assert(texts(lines@) =~= given + drive_lines(*outcome, *options, marked));
            Next::Exit { code: EXIT_RUNTIME, clear_marker: false }
        },
        PipelineOutcome::NotPossible(reason) => {
            lines.push(two("recover: not possible — ", reason.as_str()));
            assert(texts(lines@) =~= given + drive_lines(*outcome, *options, marked));
            Next::Exit { code: EXIT_RUNTIME, clear_marker: false }
        },
        PipelineOutcome::Plan(bundle) => drive_plan(bundle, options, marked, lines),
    }
}

/// The answer to the question: without consent the recovery ends.
pub fn on_consent(line: Option<&str>, lines: &mut Vec<String>) -> (r: Next)
    ensures
        if consents(text_behind(line)) {
            &&& r == Next::Execute
            &&& texts(final(lines)@) == texts(old(lines)@)
        } else {
            &&& r == (Next::Exit { code: EXIT_RUNTIME, clear_marker: false })
            &&& texts(final(lines)@) == texts(old(lines)@) + seq![DECLINED@]
        },
{
    let ghost given = texts(lines@);
    if read_yes(line) {
        Next::Execute
    } else {
        lines.push(DECLINED.to_owned());
        assert(texts(lines@) =~= given + seq![DECLINED@]);
        Next::Exit { code: EXIT_RUNTIME, clear_marker: false }
    }
}

/// The subcommand: a configuration or a log that cannot be read ends it; else
/// the gates over the outcome.
pub fn run_recover(
    outcome: &Result<PipelineOutcome, String>,
    options: &RecoverOptions,
    marked: bool,
    lines: &mut Vec<String>,
) -> (r: Next)
    ensures
        match *outcome {
            Ok(o) => {
                &&& r == drive_next(o, *options, marked)
                &&& texts(final(lines)@) == texts(old(lines)@) + drive_lines(o, *options, marked)
            },
            Err(e) => {
                &&& r == (Next::Exit { code: EXIT_RUNTIME, clear_marker: false })
                &&& texts(final(lines)@) == texts(old(lines)@) + seq!["plrd recover: "@ + e@]
            },
        },
{
    let ghost given = texts(lines@);
    match outcome {
        Ok(o) => drive(o, options, marked, lines),
        Err(e) => {
            lines.push(two("plrd recover: ", e.as_str()));
            assert(texts(lines@) =~= given + seq!["plrd recover: "@ + e@]);
            Next::Exit { code: EXIT_RUNTIME, clear_marker: false }
        },
    }
}

/// A dry run is the default: without the flag nothing is asked and nothing
/// executes, whatever the outcome.
pub proof fn without_the_flag_nothing_executes(
    outcome: PipelineOutcome,
    options: RecoverOptions,
    marked: bool,
)
    requires
        !options.execute,
    ensures
        drive_next(outcome, options, marked) is Exit,
{
}

/// Executing takes a plan and both flags.
pub proof fn consent_is_asked_only_with_a_plan_and_both_flags(
    outcome: PipelineOutcome,
    options: RecoverOptions,
    marked: bool,
)
    ensures
        drive_next(outcome, options, marked) == Next::AskConsent <==> (outcome is Plan
            && options.execute && options.confirm),
        drive_next(outcome, options, marked) != Next::Execute,
{
}

/// The marker of a broken frame is cleared by a dry run over a fresh plan, and by
/// nothing else on this side.
pub proof fn only_a_dry_run_clears_the_marker(
    outcome: PipelineOutcome,
    options: RecoverOptions,
    marked: bool,
)
    ensures
        (drive_next(outcome, options, marked) matches Next::Exit { clear_marker: true, .. })
            <==> (marked && outcome is Plan && !options.execute),
{
}

} // verus!
