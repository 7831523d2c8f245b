//! What the daemon asks for, answers and records: the printer gate, the launch of a
//! plan, the operator's consent, the calls to the printer, and what is said of a
//! stop.

use vstd::prelude::*;

use crate::execution::{Cause, Check, Entry, Executor, Field, Pause, Stage};
use crate::executor::{
    answer_tag, failure_class, failure_code, kind_tag, plan_commands, preview_tag, ConfirmAnswer,
    ConfirmKind, ExecOutcome, PreviewAnswer, StepFailure, StopCause,
};
use crate::gates::{idle_step, status_fault, IdleEvent, IdleView};
use crate::json::{child, child_of, Json, Kind};
use crate::launch::{fits, launched, Launch, LaunchEvent};
use crate::moonraker::{
    escaped, escapes, heard, id_after, json_text, query_members, query_params, request,
    script_params, Frame, MoonrakerError,
};
use crate::number::{Reading, Span};
use crate::pipeline::PipelineOutcome;
use crate::plan::{shifted_id, PreviewSpec, RecoveryPlan, RecoveryStep, RuntimeComputation};
use crate::powerfail::{
    edge_marker, watched, MarkerKind, SyncPolicy, WalCmd, Watcher, WatcherEvent, WatcherOutcome,
};
use crate::prompts::{
    concludes, height_asked, hover_text, invalidates_frame, pause_kind, reason_code, reports,
    stop_asked, ConfirmPoint, Detail,
};
use crate::recover::{consents, drive_next, Next, RecoverOptions};
use crate::recovery_file::{path_in, Claim, PlanBundle};
use crate::text::{decimal, lowercased, occurs, trimmed};
use crate::transcript::{record_of, ValueView};

verus! {

/// The text under `field` of `object` in a status.
pub open spec fn status_text(status: Json, object: Seq<char>, field: Seq<char>, s: Seq<char>) -> bool {
    child_of(child(status, object), field) matches Some(v) && (v.kind matches Kind::Text(t) && t.value@
        == s)
}

/// The printer gate lets exactly the idle printer pass: one that says it is ready,
/// whose print is standing by, complete, cancelled or failed, and whose card is
/// known not to print.
pub proof fn only_an_idle_printer_passes(status: Json)
    ensures
        status_fault(status) is None <==> {
            &&& status_text(status, "webhooks"@, "state"@, "ready"@)
            &&& status_text(status, "print_stats"@, "state"@, "standby"@) || status_text(
                status,
                "print_stats"@,
                "state"@,
                "complete"@,
            ) || status_text(status, "print_stats"@, "state"@, "cancelled"@) || status_text(
                status,
                "print_stats"@,
                "state"@,
                "error"@,
            )
            &&& (child_of(child(status, "virtual_sdcard"@), "is_active"@) matches Some(v)
                && v.kind == Kind::Bool(false))
        },
{
    reveal_strlit("unknown");
    reveal_strlit("ready");
    reveal_strlit("standby");
    reveal_strlit("complete");
    reveal_strlit("cancelled");
    reveal_strlit("error");
    assert("unknown"@.len() == 7 && "ready"@.len() == 5 && "error"@.len() == 5);
    assert("unknown"@[0] == 'u' && "standby"@[0] == 's');
    assert("complete"@.len() == 8 && "cancelled"@.len() == 9);
}

/// The printer gate goes from an idle sample over the barrier to a second idle
/// sample; a printer that is not idle, cannot be asked or keeps the barrier is
/// refused; and a decision stands.
pub proof fn the_printer_gate_samples_twice(status: Json, e: String, gate: IdleView, event: IdleEvent)
    ensures
        ({
            let idle = status_fault(status) is None;
            let told = IdleEvent::Status(Ok(status));
            &&& idle ==> idle_step(IdleView::Sample, told) == IdleView::Barrier
            &&& !idle ==> idle_step(IdleView::Sample, told) is Refused
            &&& idle ==> idle_step(IdleView::Resample, told) == IdleView::Clear
            &&& !idle ==> idle_step(IdleView::Resample, told) is Refused
        }),
        idle_step(IdleView::Sample, IdleEvent::Status(Err(e))) is Refused,
        idle_step(IdleView::Resample, IdleEvent::Status(Err(e))) is Refused,
        idle_step(IdleView::Barrier, IdleEvent::Barrier(Ok(()))) == IdleView::Resample,
        idle_step(IdleView::Barrier, IdleEvent::Barrier(Err(e))) is Refused,
        gate is Clear || gate is Refused ==> idle_step(gate, event) == gate,
{
}

/// A launch ends well only on a completed plan, and forgets the recovery then and
/// only then; a printer that refuses has the recovery file removed again; any other
/// end leaves everything as it is.
pub proof fn a_launch_ends_as_its_plan_does(
    before: Launch,
    was: PlanBundle,
    event: LaunchEvent,
    after: Launch,
    now: PlanBundle,
)
    requires
        launched(before, was, event, after, now),
        !(before is Done),
    ensures
        after matches Launch::Done { code, cleanup } ==> {
            &&& code == 0 <==> (event matches LaunchEvent::Executed(
                ExecOutcome::Completed { .. },
            ))
            &&& code == 0 || code == 1
            &&& cleanup is ForgetRecovery <==> code == 0
            &&& cleanup is RemoveRecoveryFile <==> before is AskPrinter
        },
        !(before is WriteFile) ==> now == was,
        after is Run && !(before is Run) && fits(before, was) ==> (before matches Launch::AskPrinter(gate) && gate@
            is Resample),
        before is Run && (event matches LaunchEvent::Executed(
            ExecOutcome::Aborted { frame_invalid: true, .. },
        )) ==> after is RecordFrame,
        before is Run && (event matches LaunchEvent::Executed(
            ExecOutcome::Aborted { frame_invalid: false, .. },
        )) ==> after is Done,
        before is ReadMarker && (event matches LaunchEvent::MarkerRead(Some(_))) ==> after is Done,
        before is ReadMarker && (event matches LaunchEvent::MarkerRead(None)) ==> after is Connect,
        before is Connect && (event matches LaunchEvent::Connected(Err(_))) ==> after is Done,
        before is Connect && (event matches LaunchEvent::Connected(Ok(_))) ==> after
            is OpenTranscript,
{
}

/// A name that is taken is followed by the one that was free, in the same
/// directory; after the sixteenth the launch is refused. A file that cannot be
/// written refuses it too.
pub proof fn a_taken_name_is_followed_by_a_free_one(
    before: Launch,
    was: PlanBundle,
    event: LaunchEvent,
    after: Launch,
    now: PlanBundle,
)
    requires
        launched(before, was, event, after, now),
        before is WriteFile,
    ensures
        before matches Launch::WriteFile(claim) && {
            &&& event matches LaunchEvent::Claimed(Claim::Taken(name)) ==> {
                &&& now == was
                &&& claim.attempt < 15 ==> (after matches Launch::WriteFile(next) && next.renamed
                    == Some(name) && next.path@ == path_in(was.sdcard_root@, name@) && next.attempt
                    == claim.attempt + 1)
                &&& claim.attempt >= 15 ==> after is Done
            }
            &&& event matches LaunchEvent::Claimed(Claim::Failed(_)) ==> after is Done && now == was
            &&& event == LaunchEvent::Claimed(Claim::Written) ==> (after matches Launch::AskPrinter(
                gate,
            ) && gate@ is Sample)
        },
{
}

/// Consent is a plain yes, in any case and with any space around it; silence, the
/// end of input and anything else are a no.
pub proof fn consent_is_a_plain_yes(line: Seq<char>)
    ensures
        !consents(None),
        consents(Some(line)) <==> lowercased(trimmed(line)) == seq!['y'] || lowercased(
            trimmed(line),
        ) == seq!['y', 'e', 's'],
        trimmed(line).len() == 0 ==> !consents(Some(line)),
{
    reveal_strlit("y");
    reveal_strlit("yes");
    assert("y"@ =~= seq!['y']);
    assert("yes"@ =~= seq!['y', 'e', 's']);
    assert(lowercased(trimmed(line)).len() == trimmed(line).len());
}

/// The exit of a recovery by its outcome: none needed and a dry run end well, a
/// missing confirmation is a fault of usage, and what could not be done is one of
/// the run.
pub proof fn the_exit_tells_the_outcome(
    outcome: PipelineOutcome,
    options: RecoverOptions,
    marked: bool,
)
    ensures
        ({
            let next = drive_next(outcome, options, marked);
            &&& outcome is CleanShutdown || outcome is Complete ==> (next matches Next::Exit {
                code: 0,
                clear_marker: false,
            })
            &&& outcome is MachineRejected || outcome is ManualFallback || outcome is NotPossible
                ==> (next matches Next::Exit { code: 1, clear_marker: false })
            &&& outcome is Plan && !options.execute ==> (next matches Next::Exit {
                code,
                clear_marker,
            } && code == 0 && clear_marker == marked)
            &&& outcome is Plan && options.execute && !options.confirm ==> (
            next matches Next::Exit { code: 2, clear_marker: false })
        }),
{
}

/// Each character goes into a JSON string as JSON wants it: a quote and a backslash
/// behind a backslash, a control character by its letter or its number, and every
/// other one as it is.
pub proof fn a_character_is_escaped_as_json_wants(c: char, a: Seq<char>, b: Seq<char>)
    ensures
        c == '"' ==> escaped(c) == seq!['\\', '"'],
        c == '\\' ==> escaped(c) == seq!['\\', '\\'],
        c == '\n' ==> escaped(c) == seq!['\\', 'n'],
        c == '\r' ==> escaped(c) == seq!['\\', 'r'],
        c == '\t' ==> escaped(c) == seq!['\\', 't'],
        c as int >= 0x20 && c != '"' && c != '\\' ==> escaped(c) == seq![c],
        (c as int) < 0x20 ==> escaped(c).len() >= 2 && escaped(c)[0] == '\\',
        escapes(a + b) == escapes(a) + escapes(b),
        escapes(seq![c]) == escaped(c),
        json_text(a) == seq!['"'] + escapes(a) + seq!['"'],
{
    lemma_escapes_add(a, b);
    assert(seq![c].skip(1) =~= Seq::<char>::empty());
    assert(escapes(seq![c].skip(1)) =~= Seq::<char>::empty());
    assert(escaped(c) + Seq::<char>::empty() =~= escaped(c));
}

proof fn lemma_escapes_add(a: Seq<char>, b: Seq<char>)
    ensures
        escapes(a + b) == escapes(a) + escapes(b),
    decreases a.len(),
{
    if a.len() == 0 {
        assert(a + b =~= b);
        assert(escapes(a) + escapes(b) =~= escapes(b));
    } else {
        lemma_escapes_add(a.skip(1), b);
        assert((a + b).skip(1) =~= a.skip(1) + b);
        assert((a + b)[0] == a[0]);
        assert(escaped(a[0]) + (escapes(a.skip(1)) + escapes(b)) =~= escapes(a) + escapes(b));
    }
}

/// A call carries its own number, its method and its parameters, each in its own
/// member; a script and the objects of a query stand in the members that the
/// printer reads.
pub proof fn a_call_carries_what_it_is_given(
    id: u64,
    method: Seq<char>,
    params: Seq<char>,
    script: Seq<char>,
    name: Seq<char>,
)
    ensures
        request(id, method, Some(params)) == "{\"id\":"@ + decimal(id as nat)
            + ",\"jsonrpc\":\"2.0\",\"method\":"@ + json_text(method) + ",\"params\":"@ + params
            + "}"@,
        request(id, method, None) == "{\"id\":"@ + decimal(id as nat)
            + ",\"jsonrpc\":\"2.0\",\"method\":"@ + json_text(method) + "}"@,
        script_params(script) == "{\"script\":"@ + json_text(script) + "}"@,
        query_params(seq![name]) == "{\"objects\":{"@ + (json_text(name) + ":null"@) + "}}"@,
        id < u64::MAX ==> id_after(id) == id + 1,
{
    assert(query_members(seq![name]) =~= seq![json_text(name) + ":null"@]);
}

/// The whole number under a member of a message.
pub open spec fn holds_integer(message: Json, name: Seq<char>, n: int) -> bool {
    child(message, name) matches Some(v) && (v.kind matches Kind::Number(number)
        && number.integer matches Some(i) && i == n)
}

/// A call is answered by the message with its own number and by no other: with the
/// result that it holds, or with the error that it holds, whose code and words are
/// its own. A closed connection ends every call.
pub proof fn a_call_is_answered_by_its_own_reply(
    id: u64,
    method: Seq<char>,
    message: Json,
    r: Option<Result<Json, MoonrakerError>>,
    code: i64,
)
    requires
        heard(id, method, Frame::Text(Ok(message)), r),
    ensures
        r is Some <==> holds_integer(message, "id"@, id as int),
        r matches Some(Ok(result)) ==> child(message, "result"@) == Some(result) && child(
            message,
            "error"@,
        ) is None,
        r is Some && child(message, "error"@) is Some ==> (r matches Some(
            Err(MoonrakerError::Rpc { method: m, code: c, message: text }),
        ) && m@ == method && (holds_integer(child(message, "error"@)->0, "code"@, code as int)
            ==> c == code) && (child(child(message, "error"@)->0, "message"@) matches Some(v) && (
        v.kind matches Kind::Text(t) ==> text@ == t.value@) || !(child(
            child(message, "error"@)->0,
            "message"@,
        ) matches Some(v) && v.kind is Text))),
        r is Some && child(message, "error"@) is None && child(message, "result"@) is None ==> (
        r matches Some(Err(MoonrakerError::Protocol(_)))),
{
}

/// What is no reply ends a call only where the connection is gone or speaks no
/// JSON.
pub proof fn a_lost_connection_ends_a_call(
    id: u64,
    method: Seq<char>,
    frame: Frame,
    r: Option<Result<Json, MoonrakerError>>,
)
    requires
        heard(id, method, frame, r),
    ensures
        frame is Ended || frame is Close ==> (r matches Some(Err(MoonrakerError::Closed))),
        frame matches Frame::Failed(why) ==> (r matches Some(Err(MoonrakerError::Ws(w))) && w
            == why),
        frame is Other ==> r is None,
        frame matches Frame::Text(Err(_)) ==> (r matches Some(
            Err(MoonrakerError::Protocol(_)),
        )),
{
}

/// An edge is confirmed by reading the level again; only an asserted one is
/// answered, first with what must be done and then with what can be; a false one is
/// forgotten; and the moment of the edge is kept through all of it.
pub proof fn an_edge_is_answered_as_it_is_confirmed(ns: u64, other: u64)
    ensures
        watched(Watcher::Waiting, WatcherEvent::Edge { mono_ns: ns }) == (Watcher::Confirming {
            edge_mono_ns: ns,
        }),
        watched(
            Watcher::Confirming { edge_mono_ns: ns },
            WatcherEvent::Read { asserted: true },
        ) == (Watcher::Mandatory { edge_mono_ns: ns }),
        watched(
            Watcher::Confirming { edge_mono_ns: ns },
            WatcherEvent::Read { asserted: false },
        ) == Watcher::Waiting,
        watched(Watcher::Mandatory { edge_mono_ns: ns }, WatcherEvent::Returned) == (
        Watcher::BestEffort { edge_mono_ns: ns }),
        watched(Watcher::BestEffort { edge_mono_ns: ns }, WatcherEvent::Returned) == Watcher::Done(
            WatcherOutcome::Fired,
        ),
        watched(Watcher::Waiting, WatcherEvent::SourceFailed) == Watcher::Done(
            WatcherOutcome::SourceEnded,
        ),
        watched(Watcher::Confirming { edge_mono_ns: ns }, WatcherEvent::SourceFailed)
            == Watcher::Done(WatcherOutcome::SourceEnded),
        watched(
            Watcher::Mandatory { edge_mono_ns: ns },
            WatcherEvent::Edge { mono_ns: other },
        ) == (Watcher::Mandatory { edge_mono_ns: ns }),
        edge_marker(ns) matches WalCmd::Append { mono_ns, kind, sync } && mono_ns == ns && kind
            == MarkerKind::PowerFailing && sync == SyncPolicy::Immediate,
{
}

/// A printer's error is told by its own words: an early trigger before all others,
/// then a missing one, then a move out of range; anything else is unknown.
pub proof fn a_failure_is_told_by_its_words(message: Seq<char>)
    ensures
        ({
            let early = occurs(message, "Probe triggered prior to movement"@);
            let none = occurs(message, "No trigger on probe after full movement"@) || occurs(
                message,
                "in a sliding window of"@,
            );
            let range = occurs(message, "Move out of range"@);
            let class = failure_class(message);
            &&& class == StepFailure::ProbeTriggeredEarly <==> early
            &&& class == StepFailure::NoTrigger <==> !early && none
            &&& class == StepFailure::MoveOutOfRange <==> !early && !none && range
            &&& class == StepFailure::Unknown <==> !early && !none && !range
        }),
        failure_code(StepFailure::ProbeTriggeredEarly) == "probe-triggered-early"@,
        failure_code(StepFailure::NoTrigger) == "no-trigger"@,
        failure_code(StepFailure::MoveOutOfRange) == "move-out-of-range"@,
        failure_code(StepFailure::Unknown) == "unknown"@,
{
}

/// The tags by which questions and answers are recorded, one for each.
pub proof fn each_answer_has_its_own_tag(n: i32, w: usize)
    ensures
        kind_tag(ConfirmKind::Diagnosis) == "diagnosis"@,
        kind_tag(ConfirmKind::ZHeight) == "z-height"@,
        kind_tag(ConfirmKind::StepDebug) == "step-debug"@,
        kind_tag(ConfirmKind::Preview) == "preview"@,
        answer_tag(ConfirmAnswer::Continue) == "continue"@,
        answer_tag(ConfirmAnswer::Abort) == "abort"@,
        answer_tag(ConfirmAnswer::TimedOut) == "timeout"@,
        preview_tag(PreviewAnswer::Accept) == "accept"@,
        preview_tag(PreviewAnswer::NextRep) == "next"@,
        preview_tag(PreviewAnswer::PrevRep) == "prev"@,
        preview_tag(PreviewAnswer::Nudge(n)) == "nudge"@,
        preview_tag(PreviewAnswer::Abort) == "abort"@,
        preview_tag(PreviewAnswer::TimedOut) == "timeout"@,
        pause_kind(Pause::StepDebug) == ConfirmKind::StepDebug,
        pause_kind(Pause::ZHeight) == ConfirmKind::ZHeight,
        pause_kind(Pause::Preview) == ConfirmKind::Preview,
        pause_kind(Pause::Warning(w)) == ConfirmKind::Diagnosis,
{
}

/// The list of a dry run holds each step's commands as they stand, each with its
/// step's id, step by step.
pub proof fn a_dry_run_lists_every_command(plan: RecoveryPlan, n: nat, k: int)
    requires
        n < plan.steps@.len(),
        0 <= k < plan.steps@[n as int].commands@.len(),
    ensures
        plan_commands(plan, 0).len() == 0,
        plan_commands(plan, n + 1).len() == plan_commands(plan, n).len()
            + plan.steps@[n as int].commands@.len(),
        plan_commands(plan, n + 1)[plan_commands(plan, n).len() + k] == (
            plan.steps@[n as int].id,
            plan.steps@[n as int].commands@[k]@,
        ),
        forall|i: int|
            0 <= i < plan_commands(plan, n).len() ==> #[trigger] plan_commands(plan, n + 1)[i]
                == plan_commands(plan, n)[i],
{
}

/// The frame is unknown after an abort exactly where the step that declares the
/// shifted frame may have run: at that step or behind it, unless its interlock could
/// not be armed.
pub proof fn an_abort_behind_the_declaration_loses_the_frame(
    plan: RecoveryPlan,
    step: RecoveryStep,
    cause: Cause,
    declared: u32,
)
    ensures
        shifted_id(plan) == Some(declared) && !(cause is Arm) ==> (invalidates_frame(
            plan,
            step,
            cause,
        ) <==> declared <= step.id),
        cause is Arm ==> !invalidates_frame(plan, step, cause),
        shifted_id(plan) is None ==> !invalidates_frame(plan, step, cause),
{
}

/// The reason of an abort names what stopped it: the operator, their silence, the
/// interlock, another sender, or the warning; and else what the step itself would
/// be stopped for.
pub proof fn the_reason_names_what_stopped_it(
    plan: RecoveryPlan,
    step: RecoveryStep,
    pause: Pause,
    why: String,
    w: usize,
    field: Field,
)
    ensures
        reason_code(plan, step, Cause::Declined(pause)) == "confirmation-declined"@,
        reason_code(plan, step, Cause::TimedOut(pause)) == "confirmation-timeout"@,
        reason_code(plan, step, Cause::Arm(why)) == "frame-interlock-unwritable"@,
        reason_code(plan, step, Cause::Exclusivity(why)) == "exclusive-gcode-access-lost"@,
        reason_code(plan, step, Cause::Refusal(w)) == plan.warnings@[w as int].code@,
        reason_code(plan, step, Cause::Command(why)) == step.abort_code@,
        reason_code(plan, step, Cause::Transport(why)) == step.abort_code@,
        reason_code(plan, step, Cause::Compute(why)) == step.abort_code@,
        reason_code(plan, step, Cause::Absent(field)) == step.abort_code@,
        reason_code(plan, step, Cause::NotFinite(field)) == step.abort_code@,
        reason_code(plan, step, Cause::Gate) == step.abort_code@,
{
}

/// A stop is reported as what it was, with the words that came with it.
pub proof fn a_stop_is_reported_as_what_it_was(
    plan: RecoveryPlan,
    step: RecoveryStep,
    cause: Cause,
    stop: StopCause,
)
    requires
        reports(plan, step, cause, stop),
    ensures
        cause matches Cause::Verification { check, observed } ==> (
        stop matches StopCause::VerificationFailed { observed: seen, .. } && (
        observed matches Some(o) ==> seen@ == o@) && (observed is None ==> seen@ == "absent"@)),
        cause matches Cause::Transport(e) ==> stop == StopCause::Transport(e),
        cause matches Cause::Command(e) ==> (stop matches StopCause::CommandFailed {
            failure,
            message,
        } && message == e && failure == failure_class(e@)),
        cause matches Cause::Compute(e) ==> stop == StopCause::ComputeFailed(e),
        cause is Absent || cause is NotFinite || cause is Placeholder || cause is NoBinding
            || cause is Write ==> stop is ComputeFailed,
        cause is Gate <==> stop is OperatorDeclined,
        cause matches Cause::Arm(e) ==> stop == StopCause::FrameGuardUnwritable(e),
        cause matches Cause::Exclusivity(e) ==> stop == StopCause::ExclusivityLost(e),
        cause matches Cause::Refusal(w) ==> (stop matches StopCause::HardDiagnosis { code } && code@
            == plan.warnings@[w as int].code@),
        cause matches Cause::Declined(pause) ==> (stop matches StopCause::ConfirmationDeclined {
            kind,
            ..
        } && kind == pause_kind(pause)),
        cause matches Cause::TimedOut(pause) ==> (stop matches StopCause::ConfirmationTimedOut {
            kind,
            ..
        } && kind == pause_kind(pause)),
{
}

/// The hover move goes to its stop's own X and Y at the preview's feedrate, and
/// names no height.
pub proof fn the_hover_move_is_in_the_plane(spec: PreviewSpec, stop: int)
    ensures
        hover_text(spec, stop) == seq!['G', '1', ' ', 'X'] + spec.stops@[stop].x.spelling@ + seq![
            ' ',
            'Y',
        ] + spec.stops@[stop].y.spelling@ + seq![' ', 'F'] + spec.travel_feed.spelling@,
{
    reveal_strlit("G1 X");
    reveal_strlit(" Y");
    reveal_strlit(" F");
    assert("G1 X"@ =~= seq!['G', '1', ' ', 'X']);
    assert(" Y"@ =~= seq![' ', 'Y']);
    assert(" F"@ =~= seq![' ', 'F']);
}

/// The preview's question shows the stop that the nozzle hovers over, every field of
/// it its own, and warns exactly before the safe line.
pub proof fn the_preview_shows_the_stop_it_hovers_over(
    r: ConfirmPoint,
    spec: PreviewSpec,
    stop: int,
    step: RecoveryStep,
    deadline: Span,
)
    requires
        stop_asked(r, spec, stop, step, deadline),
    ensures
        r.kind == ConfirmKind::Preview,
        r.step_id == step.id,
        r.deadline == deadline,
        r.detail matches Detail::Stop {
            offset,
            resume_offset,
            x,
            y,
            z,
            layer,
            feature,
            on_infill,
            is_candidate,
            position,
            count,
            before_skip_forward,
        } && {
            let cur = spec.stops@[stop];
            &&& offset == cur.offset && resume_offset == cur.resume_offset
            &&& x == cur.x.num && y == cur.y.num && z == cur.z
            &&& layer == cur.layer && feature@ == cur.feature@
            &&& on_infill == cur.on_infill && is_candidate == cur.is_candidate
            &&& position == stop + 1 && count == spec.stops@.len()
            &&& before_skip_forward <==> stop < spec.default_index
        },
{
}

/// The height question gives the height that was read as the one measured, and the
/// height that was computed as the one expected, each where there is one.
pub proof fn the_height_question_sets_read_against_computed(
    r: ConfirmPoint,
    plan: RecoveryPlan,
    step: RecoveryStep,
    computed: Option<Reading>,
    live: Option<Reading>,
    deadline: Span,
)
    requires
        height_asked(r, plan, step, computed, live, deadline),
    ensures
        r.kind == ConfirmKind::ZHeight,
        r.step_id == step.id,
        r.deadline == deadline,
        live matches Some(z) ==> (r.diagnosis.measured matches Some(m) && m.value == z.num),
        live is None ==> r.diagnosis.measured is None,
        computed matches Some(z) ==> (r.diagnosis.expected matches Some(e) && e.min == Some(z.num)
            && e.max == Some(z.num)),
        computed is None ==> r.diagnosis.expected is None,
        r.detail matches Detail::Height { standoff_target_z, live_toolhead_z, .. } && {
            &&& computed matches Some(z) ==> standoff_target_z == Some(z.num)
            &&& computed is None ==> standoff_target_z is None
            &&& live matches Some(z) ==> live_toolhead_z == Some(z.num)
            &&& live is None ==> live_toolhead_z is None
        },
{
}

/// An execution that is over is reported as it ended: completed with all its steps,
/// or aborted at the step where it stood.
pub proof fn an_execution_is_reported_as_it_ended(
    plan: RecoveryPlan,
    s: Executor,
    outcome: ExecOutcome,
)
    requires
        concludes(plan, s, outcome),
    ensures
        s.stage == Stage::Completed <==> outcome is Completed,
        s.stage == Stage::Aborted <==> outcome is Aborted,
        outcome matches ExecOutcome::Completed { steps } ==> steps == plan.steps@.len(),
        outcome matches ExecOutcome::Aborted { step_id, phase, reason, frame_invalid, .. } ==> {
            let step = plan.steps@[s.step as int];
            &&& step_id == step.id
            &&& phase@ == step.phase_name@
            &&& reason@ == reason_code(plan, step, s.cause->0)
            &&& frame_invalid == invalidates_frame(plan, step, s.cause->0)
        },
{
}

/// A record of what was sent holds the very text, under its step; that of a check
/// holds the check's own object and field, what was seen, and whether it held; that
/// of a computed height holds each number under its own name.
pub proof fn a_record_says_what_happened(
    plan: RecoveryPlan,
    step: usize,
    command: usize,
    script: Seq<char>,
    check: Check,
    observed: String,
    holds: bool,
    trigger: Reading,
    height: Reading,
    value: Reading,
)
    requires
        step < plan.steps@.len(),
        match check {
            Check::Pre(i) => i < plan.steps@[step as int].pre_verify@.len(),
            Check::Post(i) => i < plan.steps@[step as int].verify@.len(),
        },
        plan.steps@[step as int].compute matches Some(RuntimeComputation::TrueZ(_)),
    ensures
        ({
            let at = plan.steps@[step as int];
            let id = ValueView::Count(at.id as nat);
            let v = match check {
                Check::Pre(i) => at.pre_verify@[i as int],
                Check::Post(i) => at.verify@[i as int],
            };
            &&& record_of(plan, Entry::Send { step, command }, script, None) == seq![
                ("event"@, ValueView::Text("send"@)),
                ("step"@, id),
                ("command"@, ValueView::Text(script)),
            ]
            &&& record_of(
                plan,
                Entry::Verify { step, check, observed: Some(observed), holds },
                script,
                None,
            ) == seq![
                ("event"@, ValueView::Text("verify"@)),
                ("stage"@, ValueView::Text(if check is Pre { "pre"@ } else { "post"@ })),
                ("object"@, ValueView::Text(v.object@)),
                ("field"@, ValueView::Text(v.field@)),
                ("predicate"@, ValueView::Text(v.description@)),
                ("observed"@, ValueView::Text(observed@)),
                ("holds"@, ValueView::Flag(holds)),
            ]
            &&& record_of(
                plan,
                Entry::Compute { step, trigger: Some(trigger), height: Some(height), value },
                script,
                None,
            ) == seq![
                ("event"@, ValueView::Text("compute"@)),
                ("step"@, id),
                ("trigger_reading"@, ValueView::Number(trigger.num)),
                ("halt_z"@, ValueView::Number(height.num)),
                ("true_z"@, ValueView::Number(value.num)),
            ]
            &&& record_of(plan, Entry::RecordAccel { step, machine: true, value }, script, None)
                == seq![
                ("event"@, ValueView::Text("record-machine-accel"@)),
                ("step"@, id),
                ("max_accel"@, ValueView::Number(value.num)),
            ]
            &&& record_of(plan, Entry::RecordAccel { step, machine: false, value }, script, None)
                == seq![
                ("event"@, ValueView::Text("record-accel"@)),
                ("step"@, id),
                ("max_accel"@, ValueView::Number(value.num)),
            ]
        }),
{
    let at = plan.steps@[step as int];
    let id = ValueView::Count(at.id as nat);
    let v = match check {
        Check::Pre(i) => at.pre_verify@[i as int],
        Check::Post(i) => at.verify@[i as int],
    };
    assert(record_of(plan, Entry::Send { step, command }, script, None) =~= seq![
        ("event"@, ValueView::Text("send"@)),
        ("step"@, id),
        ("command"@, ValueView::Text(script)),
    ]);
    assert(record_of(
        plan,
        Entry::Compute { step, trigger: Some(trigger), height: Some(height), value },
        script,
        None,
    ) =~= seq![
        ("event"@, ValueView::Text("compute"@)),
        ("step"@, id),
        ("trigger_reading"@, ValueView::Number(trigger.num)),
        ("halt_z"@, ValueView::Number(height.num)),
        ("true_z"@, ValueView::Number(value.num)),
    ]);
}

/// The record of a question's answer holds the kind of question, its step, its code
/// and the answer; that of a failed command the words and their class; that of a step
/// that begins its phase and what it is for; and that of a cleanup what was sent, or
/// what was left out.
pub proof fn a_record_of_an_answer_holds_it(
    plan: RecoveryPlan,
    step: usize,
    command: usize,
    script: Seq<char>,
    answer: ConfirmAnswer,
    choice: PreviewAnswer,
    error: String,
)
    requires
        step < plan.steps@.len(),
        command < plan.steps@[step as int].cleanup_commands@.len(),
    ensures
        ({
            let at = plan.steps@[step as int];
            let id = ValueView::Count(at.id as nat);
            &&& record_of(
                plan,
                Entry::ConfirmAnswer { step, pause: Pause::ZHeight, answer },
                script,
                None,
            ) == seq![
                ("event"@, ValueView::Text("confirm-answer"@)),
                ("kind"@, ValueView::Text("z-height"@)),
                ("step"@, id),
                ("code"@, ValueView::Text("z_confirm_before_resume"@)),
                ("answer"@, ValueView::Text(answer_tag(answer))),
            ]
            &&& record_of(plan, Entry::PreviewAnswer { step, choice }, script, None) == seq![
                ("event"@, ValueView::Text("confirm-answer"@)),
                ("kind"@, ValueView::Text("preview"@)),
                ("step"@, id),
                ("code"@, ValueView::Text("resume_preview"@)),
                ("answer"@, ValueView::Text(preview_tag(choice))),
            ]
            &&& record_of(plan, Entry::ResponseError { step, error }, script, None) == seq![
                ("event"@, ValueView::Text("response"@)),
                ("step"@, id),
                ("error"@, ValueView::Text(error@)),
                ("failure"@, ValueView::Text(failure_code(failure_class(error@)))),
            ]
            &&& record_of(plan, Entry::StepStart(step), script, None) == seq![
                ("event"@, ValueView::Text("step-start"@)),
                ("step"@, id),
                ("phase"@, ValueView::Text(at.phase_name@)),
                ("summary"@, ValueView::Text(at.summary@)),
            ]
            &&& record_of(plan, Entry::Cleanup { step, command }, script, None) == seq![
                ("event"@, ValueView::Text("cleanup"@)),
                ("step"@, id),
                ("command"@, ValueView::Text(script)),
            ]
            &&& record_of(plan, Entry::CleanupSkip { step, command }, script, None) == seq![
                ("event"@, ValueView::Text("cleanup-skip"@)),
                ("step"@, id),
                ("command"@, ValueView::Text(at.cleanup_commands@[command as int]@)),
                ("reason"@, ValueView::Text("no recorded accel to substitute"@)),
            ]
        }),
{
}

} // verus!
