//! Before a step sends anything: what every execution has been told by then.

use vstd::prelude::*;

use crate::execution::{
    aborting, blank, check_of, checked, cleaning, current, pre_verifying, read_number, running,
    seen, sending, spelling_of, stepped, warned, well_formed, Cause, Check, Entry, Event, Executor,
    Move, Pause, Stage,
};
use crate::executor::ConfirmAnswer;
use crate::guarantees::{
    a_stopped_execution_keeps_its_cause, every_execution_is_well_formed, played,
};
use crate::json::Json;
use crate::number::Num;
use crate::plan::{
    cleanup_text, first_index_from, shifted_id, spelled, Phase, RecoveryPlan, Tier, Unresolved,
};
use crate::prompts::invalidates_frame;

verus! {

/// Where an execution stood when event `k` came in.
pub open spec fn stood(plan: RecoveryPlan, events: Seq<Event>, k: int) -> Executor {
    played(plan, events.take(k)).0
}

/// At some moment the execution stood at `stage` of step `i` and was told
/// `told`.
pub open spec fn was_told(
    plan: RecoveryPlan,
    events: Seq<Event>,
    stage: Stage,
    i: int,
    told: spec_fn(Event) -> bool,
) -> bool {
    exists|k: int|
        0 <= k < events.len() && (#[trigger] stood(plan, events, k)).stage == stage && stood(
            plan,
            events,
            k,
        ).step == i && told(events[k])
}

/// The step gate let step `i` run.
pub open spec fn let_through(plan: RecoveryPlan, events: Seq<Event>, i: int) -> bool {
    was_told(plan, events, Stage::Gate, i, |e: Event| e == Event::Gate(true))
}

/// The operator answered "continue" to the pause before step `i`.
pub open spec fn confirmed_step(plan: RecoveryPlan, events: Seq<Event>, i: int) -> bool {
    was_told(
        plan,
        events,
        Stage::StepDebug,
        i,
        |e: Event| e == Event::Answer(ConfirmAnswer::Continue),
    )
}

/// Exclusive g-code access was shown for step `i`.
pub open spec fn had_exclusive(plan: RecoveryPlan, events: Seq<Event>, i: int) -> bool {
    was_told(
        plan,
        events,
        Stage::Recheck,
        i,
        |e: Event| e matches Event::Exclusive(Ok(_)),
    )
}

/// The frame interlock was armed for step `i`.
pub open spec fn was_armed(plan: RecoveryPlan, events: Seq<Event>, i: int) -> bool {
    was_told(plan, events, Stage::Arm, i, |e: Event| e matches Event::Armed(Ok(_)))
}

/// The operator answered "continue" to warning `w`.
pub open spec fn confirmed_warning(plan: RecoveryPlan, events: Seq<Event>, w: int) -> bool {
    was_told(
        plan,
        events,
        Stage::Warning(w as usize),
        0,
        |e: Event| e == Event::Answer(ConfirmAnswer::Continue),
    )
}

/// A stage at which the current step has begun.
pub open spec fn begun(stage: Stage) -> bool {
    match stage {
        Stage::Verify { .. } => true,
        Stage::Read(_) => true,
        Stage::Compute => true,
        Stage::Send(_) => true,
        Stage::ReadLiveZ => true,
        Stage::ZHeight => true,
        Stage::PreviewRecheck(_) => true,
        Stage::PreviewMove(_) => true,
        Stage::PreviewAsk(_) => true,
        Stage::PreviewWrite(_) => true,
        _ => false,
    }
}

/// What an execution that has not stopped has been told by the time it stands
/// where it does.
pub open spec fn cleared_for(plan: RecoveryPlan, events: Seq<Event>, s: Executor) -> bool {
    let i = s.step as int;
    let gated = s.stage is StepDebug || s.stage is Recheck || s.stage is Arm || begun(s.stage);
    &&& gated ==> let_through(plan, events, i)
    &&& (s.stage is Recheck || s.stage is Arm || begun(s.stage)) && plan.debug_confirm_each_step
        ==> confirmed_step(plan, events, i)
    &&& (s.stage is Arm || begun(s.stage)) ==> had_exclusive(plan, events, i)
    &&& begun(s.stage) && shifted_id(plan) == Some(plan.steps@[i].id) ==> was_armed(plan, events, i)
}

/// Every warning before the `n`th was passed: none of them is a refusal, and
/// each that wants an answer was answered "continue".
pub open spec fn warnings_passed(plan: RecoveryPlan, events: Seq<Event>, n: int) -> bool {
    forall|w: int|
        0 <= w < n ==> (#[trigger] plan.warnings@[w]).tier != Tier::Hard && (plan.warnings@[w].tier
            == Tier::Confirmable ==> confirmed_warning(plan, events, w))
}

proof fn lemma_was_told_grows(
    plan: RecoveryPlan,
    events: Seq<Event>,
    stage: Stage,
    i: int,
    told: spec_fn(Event) -> bool,
)
    requires
        events.len() > 0,
        was_told(plan, events.drop_last(), stage, i, told),
    ensures
        was_told(plan, events, stage, i, told),
{
    let less = events.drop_last();
    let k = choose|k: int|
        0 <= k < less.len() && (#[trigger] stood(plan, less, k)).stage == stage && stood(
            plan,
            less,
            k,
        ).step == i && told(less[k]);
    assert(less.take(k) =~= events.take(k));
    assert(stood(plan, events, k) == stood(plan, less, k));
}

proof fn lemma_told_now(
    plan: RecoveryPlan,
    events: Seq<Event>,
    stage: Stage,
    i: int,
    told: spec_fn(Event) -> bool,
)
    requires
        events.len() > 0,
        played(plan, events.drop_last()).0.stage == stage,
        played(plan, events.drop_last()).0.step == i,
        told(events.last()),
    ensures
        was_told(plan, events, stage, i, told),
{
    let k = events.len() - 1;
    assert(events.take(k) =~= events.drop_last());
    assert(stood(plan, events, k).stage == stage);
}

/// Where the work on a step can lead without stopping: further into the step,
/// to the step gate of the next, or to completion.
spec fn within(s: Executor, m: Move) -> bool {
    m.0.cause is Some || {
        ||| m.0.step == s.step && begun(m.0.stage)
        ||| m.0.stage == Stage::Gate && m.0.step == s.step + 1
        ||| m.0.stage == Stage::Completed
    }
}

/// Every command the log sends is of step `i`.
spec fn only_of(log: Seq<Entry>, i: int) -> bool {
    forall|e: int|
        0 <= e < log.len() ==> (#[trigger] log[e] matches Entry::Send { step, command } ==> step
            == i)
}

proof fn lemma_cleaning_marks(plan: RecoveryPlan, s: Executor, steps: nat, command: nat)
    ensures
        cleaning(plan, s, steps, command).0.cause == s.cause,
        forall|e: int|
            0 <= e < cleaning(plan, s, steps, command).1.len() ==> !((#[trigger] cleaning(
                plan,
                s,
                steps,
                command,
            ).1[e]) is Send),
    decreases steps, plan.steps@[steps - 1].cleanup_commands@.len() - command,
{
    if steps > 0 {
        let commands = plan.steps@[steps - 1].cleanup_commands@;
        if command >= commands.len() {
            lemma_cleaning_marks(plan, s, (steps - 1) as nat, 0);
        } else if cleanup_text(
            commands[command as int]@,
            spelled(s.phase_accel),
            spelled(s.machine_accel),
        ) is None {
            lemma_cleaning_marks(plan, s, steps, command + 1);
        }
    }
}

proof fn lemma_aborting_only(plan: RecoveryPlan, s: Executor, cause: Cause, i: int)
    ensures
        aborting(plan, s, cause).0.cause == Some(cause),
        only_of(aborting(plan, s, cause).1, i),
{
    lemma_cleaning_marks(plan, Executor { cause: Some(cause), ..s }, s.registered as nat, 0);
}

proof fn lemma_sending_within(plan: RecoveryPlan, s: Executor, command: nat)
    requires
        s.step < plan.steps@.len(),
        s.cause is None,
    ensures
        within(s, sending(plan, s, command)),
        only_of(sending(plan, s, command).1, s.step as int),
{
    lemma_aborting_only(
        plan,
        s,
        Cause::Placeholder(Unresolved::NoComputed),
        s.step as int,
    );
    lemma_aborting_only(
        plan,
        s,
        Cause::Placeholder(Unresolved::NoMachineAccel),
        s.step as int,
    );
    assert(plan.steps@.len() == plan.steps.len());
}

proof fn lemma_pre_verifying_within(plan: RecoveryPlan, s: Executor, index: nat)
    requires
        s.step < plan.steps@.len(),
        s.cause is None,
    ensures
        within(s, pre_verifying(plan, s, index)),
        only_of(pre_verifying(plan, s, index).1, s.step as int),
{
    let t = Executor { computed: s.phase_accel, registered: (s.step + 1) as usize, ..s };
    lemma_sending_within(plan, t, 0);
}

proof fn lemma_running_within(plan: RecoveryPlan, s: Executor)
    requires
        s.step < plan.steps@.len(),
        s.cause is None,
    ensures
        within(s, running(plan, s)),
        only_of(running(plan, s).1, s.step as int),
{
    lemma_pre_verifying_within(
        plan,
        Executor { computed: None, trigger: None, height: None, ..s },
        0,
    );
}

proof fn lemma_checked_within(
    plan: RecoveryPlan,
    s: Executor,
    check: Check,
    reply: Result<Json, String>,
    distance: Option<Num>,
    expired: bool,
)
    requires
        s.step < plan.steps@.len(),
        s.cause is None,
    ensures
        within(s, checked(plan, s, check, reply, distance, expired)),
        only_of(checked(plan, s, check, reply, distance, expired).1, s.step as int),
{
    let i = s.step as int;
    assert(plan.steps@.len() == plan.steps.len());
    match reply {
        Err(error) => {
            lemma_aborting_only(plan, s, Cause::Transport(error), i);
        },
        Ok(status) => {
            let observed = spelling_of(seen(check_of(current(plan, s), check), status));
            lemma_aborting_only(plan, s, Cause::Verification { check, observed }, i);
            match check {
                Check::Pre(index) => {
                    lemma_pre_verifying_within(plan, s, (index + 1) as nat);
                },
                Check::Post(index) => {},
            }
        },
    }
}

/// A move from inside a step stays within it.
proof fn lemma_begun_within(plan: RecoveryPlan, s: Executor, event: Event)
    requires
        well_formed(plan, s),
        begun(s.stage),
    ensures
        within(s, stepped(plan, s, event)),
        only_of(stepped(plan, s, event).1, s.step as int),
{
    let i = s.step as int;
    assert(plan.steps@.len() == plan.steps.len());
    match (s.stage, event) {
        (Stage::Verify { check, again }, Event::Status { reply, distance, expired }) => {
            lemma_checked_within(plan, s, check, reply, distance, expired);
        },
        (Stage::Read(field), Event::Status { reply, distance, expired }) => {
            match read_number(field, reply) {
                Ok(value) => {
                    lemma_sending_within(
                        plan,
                        Executor {
                            machine_accel: Some(value),
                            computed: Some(value),
                            registered: (s.step + 1) as usize,
                            ..s
                        },
                        0,
                    );
                    lemma_sending_within(
                        plan,
                        Executor {
                            phase_accel: Some(value),
                            computed: Some(value),
                            registered: (s.step + 1) as usize,
                            ..s
                        },
                        0,
                    );
                },
                Err(cause) => {
                    lemma_aborting_only(plan, s, cause, i);
                },
            }
        },
        (Stage::Compute, Event::Computed(Ok(value))) => {
            lemma_sending_within(
                plan,
                Executor {
                    computed: Some(value),
                    registered: (s.step + 1) as usize,
                    ..s
                },
                0,
            );
        },
        (Stage::Compute, Event::Computed(Err(error))) => {
            lemma_aborting_only(plan, s, Cause::Compute(error), i);
        },
        (Stage::Send(command), Event::Sent(Ok(_))) => {
            lemma_sending_within(plan, s, (command + 1) as nat);
        },
        (Stage::Send(command), Event::Sent(Err(error))) => {
            lemma_aborting_only(plan, s, Cause::Command(error), i);
        },
        (Stage::ZHeight, Event::Answer(answer)) => {
            lemma_aborting_only(plan, s, Cause::Declined(Pause::ZHeight), i);
            lemma_aborting_only(plan, s, Cause::TimedOut(Pause::ZHeight), i);
        },
        (Stage::PreviewRecheck(c), Event::Exclusive(Err(reason))) => {
            lemma_aborting_only(plan, s, Cause::Exclusivity(reason), i);
        },
        (Stage::PreviewMove(c), Event::Sent(Err(error))) => {
            lemma_aborting_only(plan, s, Cause::Command(error), i);
        },
        (Stage::PreviewAsk(c), Event::Preview(answer)) => {
            lemma_aborting_only(plan, s, Cause::NoBinding, i);
            lemma_aborting_only(plan, s, Cause::Declined(Pause::Preview), i);
            lemma_aborting_only(plan, s, Cause::TimedOut(Pause::Preview), i);
        },
        (Stage::PreviewWrite(c), Event::Written(Err(reason))) => {
            lemma_aborting_only(plan, s, Cause::Write(reason), i);
        },
        _ => {},
    }
}

/// Where the warnings from `w` on lead without stopping.
proof fn lemma_warned_lands(plan: RecoveryPlan, s: Executor, w: nat)
    requires
        s.cause is None,
        w <= plan.warnings@.len(),
    ensures
        ({
            let m = warned(plan, s, w);
            &&& m.0.step == s.step || m.0.cause is Some
            &&& m.0.cause is Some || {
                ||| m.0.stage matches Stage::Warning(v) && w <= v < plan.warnings@.len() && forall|
                    u: int,
                |
                    w <= u < v ==> (#[trigger] plan.warnings@[u]).tier == Tier::Advisory
                ||| m.0.stage == Stage::Gate && forall|u: int|
                    w <= u < plan.warnings@.len() ==> (#[trigger] plan.warnings@[u]).tier
                        == Tier::Advisory
            }
            &&& only_of(m.1, 0)
        }),
    decreases plan.warnings@.len() - w,
{
    assert(plan.warnings@.len() == plan.warnings.len());
    if w < plan.warnings@.len() {
        match plan.warnings@[w as int].tier {
            Tier::Advisory => {
                lemma_warned_lands(plan, s, w + 1);
            },
            Tier::Confirmable => {},
            Tier::Hard => {
                lemma_aborting_only(plan, s, Cause::Refusal(w as usize), 0);
            },
        }
    }
}

proof fn lemma_clearance_grows(plan: RecoveryPlan, events: Seq<Event>, s: Executor)
    requires
        events.len() > 0,
        cleared_for(plan, events.drop_last(), s),
    ensures
        cleared_for(plan, events, s),
{
    let less = events.drop_last();
    let i = s.step as int;
    let gate = |e: Event| e == Event::Gate(true);
    let go = |e: Event| e == Event::Answer(ConfirmAnswer::Continue);
    let mine = |e: Event| e matches Event::Exclusive(Ok(_));
    let armed = |e: Event| e matches Event::Armed(Ok(_));
    if let_through(plan, less, i) {
        lemma_was_told_grows(plan, events, Stage::Gate, i, gate);
    }
    if confirmed_step(plan, less, i) {
        lemma_was_told_grows(plan, events, Stage::StepDebug, i, go);
    }
    if had_exclusive(plan, less, i) {
        lemma_was_told_grows(plan, events, Stage::Recheck, i, mine);
    }
    if was_armed(plan, less, i) {
        lemma_was_told_grows(plan, events, Stage::Arm, i, armed);
    }
}

proof fn lemma_warnings_grow(plan: RecoveryPlan, events: Seq<Event>, n: int)
    requires
        events.len() > 0,
        warnings_passed(plan, events.drop_last(), n),
    ensures
        warnings_passed(plan, events, n),
{
    let go = |e: Event| e == Event::Answer(ConfirmAnswer::Continue);
    assert forall|w: int| 0 <= w < n implies (#[trigger] plan.warnings@[w]).tier != Tier::Hard && (
    plan.warnings@[w].tier == Tier::Confirmable ==> confirmed_warning(plan, events, w)) by {
        if plan.warnings@[w].tier == Tier::Confirmable {
            lemma_was_told_grows(plan, events, Stage::Warning(w as usize), 0, go);
        }
    }
}

/// No step is begun, and nothing of it is sent, unless the step gate let it through,
/// the operator continued past the pause before it where the plan wants one,
/// exclusive g-code access was shown, and, for the step that declares the
/// shifted frame, the interlock was armed. And no gate is reached unless every
/// warning was passed. This holds of every execution that has not stopped.
pub proof fn nothing_runs_uncleared(plan: RecoveryPlan, events: Seq<Event>)
    ensures
        played(plan, events).0.cause is None && plan.steps@.len() > 0 ==> {
            &&& cleared_for(plan, events, played(plan, events).0)
            &&& warnings_passed(
                plan,
                events,
                warnings_behind(plan, played(plan, events).0),
            )
        },
    decreases events.len(),
{
    let now = played(plan, events);
    if plan.steps@.len() == 0 || now.0.cause is Some {
    } else if events.len() == 0 {
        lemma_warned_lands(plan, blank(), 0);
    } else {
        let less = events.drop_last();
        let s = played(plan, less).0;
        let event = events.last();
        let i = s.step as int;
        every_execution_is_well_formed(plan, less);
        every_execution_is_well_formed(plan, events);
        nothing_runs_uncleared(plan, less);
        if s.cause is Some {
            a_stopped_execution_keeps_its_cause(plan, s, event);
        } else {
            let t = now.0;
            assert(t == stepped(plan, s, event).0);
            lemma_clearance_grows(plan, events, s);
            lemma_warnings_grow(plan, events, warnings_behind(plan, s));
            let gate = |e: Event| e == Event::Gate(true);
            let go = |e: Event| e == Event::Answer(ConfirmAnswer::Continue);
            let mine = |e: Event| e matches Event::Exclusive(Ok(_));
            let armed = |e: Event| e matches Event::Armed(Ok(_));
            if begun(s.stage) {
                lemma_begun_within(plan, s, event);
            } else {
                match (s.stage, event) {
                    (Stage::Warning(w), Event::Answer(answer)) => {
                        lemma_aborting_only(plan, s, Cause::Declined(Pause::Warning(w)), 0);
                        lemma_aborting_only(plan, s, Cause::TimedOut(Pause::Warning(w)), 0);
                        lemma_warned_lands(plan, s, (w + 1) as nat);
                        assert(answer == ConfirmAnswer::Continue);
                        lemma_told_now(plan, events, Stage::Warning(w), 0, go);
                        assert(confirmed_warning(plan, events, w as int));
                        assert(plan.warnings@[w as int].tier != Tier::Hard) by {
                            lemma_confirmable(plan, less);
                        }
                    },
                    (Stage::Gate, Event::Gate(ok)) => {
                        lemma_aborting_only(plan, s, Cause::Gate, 0);
                        lemma_told_now(plan, events, Stage::Gate, i, gate);
                    },
                    (Stage::StepDebug, Event::Answer(answer)) => {
                        lemma_aborting_only(plan, s, Cause::Declined(Pause::StepDebug), 0);
                        lemma_aborting_only(plan, s, Cause::TimedOut(Pause::StepDebug), 0);
                        lemma_told_now(plan, events, Stage::StepDebug, i, go);
                    },
                    (Stage::Recheck, Event::Exclusive(Ok(_))) => {
                        lemma_told_now(plan, events, Stage::Recheck, i, mine);
                        lemma_running_within(plan, s);
                    },
                    (Stage::Recheck, Event::Exclusive(Err(reason))) => {
                        lemma_aborting_only(plan, s, Cause::Exclusivity(reason), 0);
                    },
                    (Stage::Arm, Event::Armed(Ok(_))) => {
                        lemma_told_now(plan, events, Stage::Arm, i, armed);
                        lemma_running_within(plan, s);
                    },
                    (Stage::Arm, Event::Armed(Err(reason))) => {
                        lemma_aborting_only(plan, s, Cause::Arm(reason), 0);
                    },
                    _ => {},
                }
            }
        }
    }
}

/// The number of warnings that lie behind an execution.
pub open spec fn warnings_behind(plan: RecoveryPlan, s: Executor) -> int {
    match s.stage {
        Stage::Warning(w) => w as int,
        _ => plan.warnings@.len() as int,
    }
}

/// A warning that waits for an answer is one that wants it.
proof fn lemma_confirmable(plan: RecoveryPlan, events: Seq<Event>)
    ensures
        played(plan, events).0.stage matches Stage::Warning(w) ==> w < plan.warnings@.len()
            && plan.warnings@[w as int].tier == Tier::Confirmable,
    decreases events.len(),
{
    every_execution_is_well_formed(plan, events);
    if events.len() == 0 {
        if plan.steps@.len() > 0 {
            lemma_warned_asks(plan, blank(), 0);
        }
    } else {
        let less = events.drop_last();
        let s = played(plan, less).0;
        let event = events.last();
        every_execution_is_well_formed(plan, less);
        lemma_confirmable(plan, less);
        if s.cause is Some {
            a_stopped_execution_keeps_its_cause(plan, s, event);
        } else if begun(s.stage) {
            lemma_begun_within(plan, s, event);
        } else {
            match (s.stage, event) {
                (Stage::Warning(w), Event::Answer(answer)) => {
                    lemma_aborting_only(plan, s, Cause::Declined(Pause::Warning(w)), 0);
                    lemma_aborting_only(plan, s, Cause::TimedOut(Pause::Warning(w)), 0);
                    lemma_warned_asks(plan, s, (w + 1) as nat);
                },
                (Stage::Gate, Event::Gate(ok)) => {
                    lemma_aborting_only(plan, s, Cause::Gate, 0);
                },
                (Stage::StepDebug, Event::Answer(answer)) => {
                    lemma_aborting_only(plan, s, Cause::Declined(Pause::StepDebug), 0);
                    lemma_aborting_only(plan, s, Cause::TimedOut(Pause::StepDebug), 0);
                },
                (Stage::Recheck, Event::Exclusive(Ok(_))) => {
                    lemma_running_within(plan, s);
                },
                (Stage::Recheck, Event::Exclusive(Err(reason))) => {
                    lemma_aborting_only(plan, s, Cause::Exclusivity(reason), 0);
                },
                (Stage::Arm, Event::Armed(Ok(_))) => {
                    lemma_running_within(plan, s);
                },
                (Stage::Arm, Event::Armed(Err(reason))) => {
                    lemma_aborting_only(plan, s, Cause::Arm(reason), 0);
                },
                _ => {},
            }
        }
    }
}

proof fn lemma_warned_asks(plan: RecoveryPlan, s: Executor, w: nat)
    requires
        s.cause is None,
    ensures
        warned(plan, s, w).0.stage matches Stage::Warning(v) ==> warned(plan, s, w).0.cause is Some
            || v < plan.warnings@.len() && plan.warnings@[v as int].tier == Tier::Confirmable,
    decreases plan.warnings@.len() - w,
{
    assert(plan.warnings@.len() == plan.warnings.len());
    if w < plan.warnings@.len() {
        match plan.warnings@[w as int].tier {
            Tier::Advisory => {
                lemma_warned_asks(plan, s, w + 1);
            },
            Tier::Confirmable => {},
            Tier::Hard => {
                lemma_aborting_only(plan, s, Cause::Refusal(w as usize), 0);
            },
        }
    }
}

/// Step `i` was cleared to send.
pub open spec fn cleared_to_send(plan: RecoveryPlan, events: Seq<Event>, i: int) -> bool {
    &&& let_through(plan, events, i)
    &&& plan.debug_confirm_each_step ==> confirmed_step(plan, events, i)
    &&& had_exclusive(plan, events, i)
    &&& shifted_id(plan) == Some(plan.steps@[i].id) ==> was_armed(plan, events, i)
}

/// The log sends nothing.
spec fn sends_nothing(log: Seq<Entry>) -> bool {
    forall|e: int| 0 <= e < log.len() ==> !((#[trigger] log[e]) is Send)
}

proof fn lemma_aborting_sends_nothing(plan: RecoveryPlan, s: Executor, cause: Cause)
    ensures
        sends_nothing(aborting(plan, s, cause).1),
{
    lemma_cleaning_marks(plan, Executor { cause: Some(cause), ..s }, s.registered as nat, 0);
}

proof fn lemma_warned_sends_nothing(plan: RecoveryPlan, s: Executor, w: nat)
    ensures
        sends_nothing(warned(plan, s, w).1),
    decreases plan.warnings@.len() - w,
{
    if w < plan.warnings@.len() {
        match plan.warnings@[w as int].tier {
            Tier::Advisory => {
                lemma_warned_sends_nothing(plan, s, w + 1);
            },
            Tier::Confirmable => {},
            Tier::Hard => {
                lemma_aborting_sends_nothing(plan, s, Cause::Refusal(w as usize));
            },
        }
    }
}

/// What a move of a well-formed execution sends is of the step it stands at,
/// and only from inside that step or on entering it.
proof fn lemma_stepped_sends(plan: RecoveryPlan, s: Executor, event: Event)
    requires
        well_formed(plan, s),
    ensures
        ({
            let log = stepped(plan, s, event).1;
            ||| sends_nothing(log)
            ||| only_of(log, s.step as int) && s.cause is None && {
                ||| begun(s.stage)
                ||| s.stage == Stage::Recheck && shifted_id(plan) != Some(current(plan, s).id)
                    && (event matches Event::Exclusive(Ok(_)))
                ||| s.stage == Stage::Arm && (event matches Event::Armed(Ok(_)))
            }
        }),
{
    if begun(s.stage) {
        lemma_begun_within(plan, s, event);
    } else {
        match (s.stage, event) {
            (Stage::Warning(w), Event::Answer(answer)) => {
                lemma_aborting_sends_nothing(plan, s, Cause::Declined(Pause::Warning(w)));
                lemma_aborting_sends_nothing(plan, s, Cause::TimedOut(Pause::Warning(w)));
                lemma_warned_sends_nothing(plan, s, (w + 1) as nat);
            },
            (Stage::Gate, Event::Gate(ok)) => {
                lemma_aborting_sends_nothing(plan, s, Cause::Gate);
            },
            (Stage::StepDebug, Event::Answer(answer)) => {
                lemma_aborting_sends_nothing(plan, s, Cause::Declined(Pause::StepDebug));
                lemma_aborting_sends_nothing(plan, s, Cause::TimedOut(Pause::StepDebug));
            },
            (Stage::Recheck, Event::Exclusive(Ok(_))) => {
                lemma_running_within(plan, s);
            },
            (Stage::Recheck, Event::Exclusive(Err(reason))) => {
                lemma_aborting_sends_nothing(plan, s, Cause::Exclusivity(reason));
            },
            (Stage::Arm, Event::Armed(Ok(_))) => {
                lemma_running_within(plan, s);
            },
            (Stage::Arm, Event::Armed(Err(reason))) => {
                lemma_aborting_sends_nothing(plan, s, Cause::Arm(reason));
            },
            (Stage::Cleanup { step, command }, Event::Sent(_)) => {
                lemma_cleaning_marks(plan, s, (step + 1) as nat, (command + 1) as nat);
            },
            _ => {},
        }
    }
}

proof fn lemma_cleared_grows(plan: RecoveryPlan, events: Seq<Event>, i: int)
    requires
        events.len() > 0,
        cleared_to_send(plan, events.drop_last(), i),
    ensures
        cleared_to_send(plan, events, i),
{
    let less = events.drop_last();
    lemma_was_told_grows(plan, events, Stage::Gate, i, |e: Event| e == Event::Gate(true));
    if confirmed_step(plan, less, i) {
        lemma_was_told_grows(
            plan,
            events,
            Stage::StepDebug,
            i,
            |e: Event| e == Event::Answer(ConfirmAnswer::Continue),
        );
    }
    lemma_was_told_grows(
        plan,
        events,
        Stage::Recheck,
        i,
        |e: Event| e matches Event::Exclusive(Ok(_)),
    );
    if was_armed(plan, less, i) {
        lemma_was_told_grows(
            plan,
            events,
            Stage::Arm,
            i,
            |e: Event| e matches Event::Armed(Ok(_)),
        );
    }
}

/// Every command that any execution ever sends is of a step that was cleared by
/// then. In particular the frame interlock was armed before the first command
/// of the step that declares the shifted frame: if the frame was ever put at
/// risk, the record of it existed first, whatever happens next.
pub proof fn every_command_sent_was_cleared(plan: RecoveryPlan, events: Seq<Event>)
    ensures
        forall|e: int|
            0 <= e < played(plan, events).1.len() ==> (#[trigger] played(
                plan,
                events,
            ).1[e] matches Entry::Send { step, command } ==> cleared_to_send(
                plan,
                events,
                step as int,
            )),
    decreases events.len(),
{
    let log = played(plan, events).1;
    if events.len() == 0 {
        if plan.steps@.len() > 0 {
            lemma_warned_sends_nothing(plan, blank(), 0);
        }
    } else {
        let less = events.drop_last();
        let before = played(plan, less);
        let s = before.0;
        let event = events.last();
        let m = stepped(plan, s, event);
        let i = s.step as int;
        every_execution_is_well_formed(plan, less);
        every_command_sent_was_cleared(plan, less);
        nothing_runs_uncleared(plan, less);
        lemma_stepped_sends(plan, s, event);
        assert(log =~= before.1 + m.1);
        if !sends_nothing(m.1) {
            lemma_clearance_grows(plan, events, s);
            if s.stage == Stage::Recheck {
                lemma_told_now(
                    plan,
                    events,
                    Stage::Recheck,
                    i,
                    |e: Event| e matches Event::Exclusive(Ok(_)),
                );
            }
            if s.stage == Stage::Arm {
                lemma_told_now(
                    plan,
                    events,
                    Stage::Arm,
                    i,
                    |e: Event| e matches Event::Armed(Ok(_)),
                );
            }
            assert(cleared_to_send(plan, events, i));
        }
        assert forall|e: int|
            0 <= e < log.len() implies (#[trigger] log[e] matches Entry::Send { step, command }
            ==> cleared_to_send(plan, events, step as int)) by {
            if log[e] is Send {
                if e < before.1.len() {
                    assert(before.1[e] == log[e]);
                    match log[e] {
                        Entry::Send { step, command } => {
                            lemma_cleared_grows(plan, events, step as int);
                        },
                        _ => {},
                    }
                } else {
                    assert(m.1[e - before.1.len()] == log[e]);
                }
            }
        }
    }
}

/// The steps are numbered in order.
pub open spec fn numbered(plan: RecoveryPlan) -> bool {
    forall|i: int, j: int|
        0 <= i < j < plan.steps@.len() ==> (#[trigger] plan.steps@[i]).id < (
        #[trigger] plan.steps@[j]).id
}

/// The log sends a command of step `i`.
pub open spec fn sent_of(log: Seq<Entry>, i: int) -> bool {
    exists|e: int|
        0 <= e < log.len() && (#[trigger] log[e] matches Entry::Send { step, command } && step == i)
}

/// A stage before the current step begins.
spec fn ahead_of_step(stage: Stage) -> bool {
    match stage {
        Stage::Warning(_) => true,
        Stage::Gate => true,
        Stage::StepDebug => true,
        Stage::Recheck => true,
        Stage::Arm => true,
        _ => false,
    }
}

/// The execution is past the arming of step `i`, and did not stop at any.
spec fn past_arming(s: Executor, i: int) -> bool {
    &&& s.step >= i
    &&& s.step == i ==> !ahead_of_step(s.stage)
    &&& s.stage != Stage::Arm
    &&& !(s.cause matches Some(Cause::Arm(_)))
}

/// From the work on a step the execution stays past its arming.
spec fn onward(s: Executor, m: Move) -> bool {
    past_arming(m.0, s.step as int)
}

proof fn lemma_cleaning_stays(plan: RecoveryPlan, s: Executor, steps: nat, command: nat)
    ensures
        cleaning(plan, s, steps, command).0.step == s.step,
        cleaning(plan, s, steps, command).0.cause == s.cause,
        cleaning(plan, s, steps, command).0.stage is Cleanup || cleaning(
            plan,
            s,
            steps,
            command,
        ).0.stage is Aborted,
    decreases steps, plan.steps@[steps - 1].cleanup_commands@.len() - command,
{
    if steps > 0 {
        let commands = plan.steps@[steps - 1].cleanup_commands@;
        if command >= commands.len() {
            lemma_cleaning_stays(plan, s, (steps - 1) as nat, 0);
        } else if cleanup_text(
            commands[command as int]@,
            spelled(s.phase_accel),
            spelled(s.machine_accel),
        ) is None {
            lemma_cleaning_stays(plan, s, steps, command + 1);
        }
    }
}

proof fn lemma_aborting_onward(plan: RecoveryPlan, s: Executor, cause: Cause)
    requires
        !(cause is Arm),
    ensures
        onward(s, aborting(plan, s, cause)),
{
    lemma_cleaning_stays(plan, Executor { cause: Some(cause), ..s }, s.registered as nat, 0);
}

proof fn lemma_sending_onward(plan: RecoveryPlan, s: Executor, command: nat)
    requires
        s.step < plan.steps@.len(),
        s.cause is None,
    ensures
        onward(s, sending(plan, s, command)),
{
    lemma_aborting_onward(plan, s, Cause::Placeholder(Unresolved::NoComputed));
    lemma_aborting_onward(plan, s, Cause::Placeholder(Unresolved::NoMachineAccel));
    assert(plan.steps@.len() == plan.steps.len());
}

proof fn lemma_pre_verifying_onward(plan: RecoveryPlan, s: Executor, index: nat)
    requires
        s.step < plan.steps@.len(),
        s.cause is None,
    ensures
        onward(s, pre_verifying(plan, s, index)),
{
    let t = Executor { computed: s.phase_accel, registered: (s.step + 1) as usize, ..s };
    lemma_sending_onward(plan, t, 0);
}

proof fn lemma_running_onward(plan: RecoveryPlan, s: Executor)
    requires
        s.step < plan.steps@.len(),
        s.cause is None,
    ensures
        onward(s, running(plan, s)),
{
    lemma_pre_verifying_onward(
        plan,
        Executor { computed: None, trigger: None, height: None, ..s },
        0,
    );
}

proof fn lemma_checked_onward(
    plan: RecoveryPlan,
    s: Executor,
    check: Check,
    reply: Result<Json, String>,
    distance: Option<Num>,
    expired: bool,
)
    requires
        s.step < plan.steps@.len(),
        s.cause is None,
    ensures
        onward(s, checked(plan, s, check, reply, distance, expired)),
{
    assert(plan.steps@.len() == plan.steps.len());
    match reply {
        Err(error) => {
            lemma_aborting_onward(plan, s, Cause::Transport(error));
        },
        Ok(status) => {
            let observed = spelling_of(seen(check_of(current(plan, s), check), status));
            lemma_aborting_onward(plan, s, Cause::Verification { check, observed });
            match check {
                Check::Pre(index) => {
                    lemma_pre_verifying_onward(plan, s, (index + 1) as nat);
                },
                Check::Post(index) => {},
            }
        },
    }
}

/// A move from inside a step, or after the execution stopped, stays past the
/// step's arming.
proof fn lemma_begun_onward(plan: RecoveryPlan, s: Executor, event: Event)
    requires
        well_formed(plan, s),
        past_arming(s, s.step as int),
    ensures
        onward(s, stepped(plan, s, event)),
{
    assert(plan.steps@.len() == plan.steps.len());
    match (s.stage, event) {
        (Stage::Verify { check, again }, Event::Status { reply, distance, expired }) => {
            lemma_checked_onward(plan, s, check, reply, distance, expired);
        },
        (Stage::Read(field), Event::Status { reply, distance, expired }) => {
            match read_number(field, reply) {
                Ok(value) => {
                    let registered = (s.step + 1) as usize;
                    let computed = Some(value);
                    lemma_sending_onward(
                        plan,
                        Executor { machine_accel: Some(value), computed, registered, ..s },
                        0,
                    );
                    lemma_sending_onward(
                        plan,
                        Executor { phase_accel: Some(value), computed, registered, ..s },
                        0,
                    );
                },
                Err(cause) => {
                    lemma_aborting_onward(plan, s, cause);
                },
            }
        },
        (Stage::Compute, Event::Computed(Ok(value))) => {
            lemma_sending_onward(
                plan,
                Executor { computed: Some(value), registered: (s.step + 1) as usize, ..s },
                0,
            );
        },
        (Stage::Compute, Event::Computed(Err(error))) => {
            lemma_aborting_onward(plan, s, Cause::Compute(error));
        },
        (Stage::Send(command), Event::Sent(Ok(_))) => {
            lemma_sending_onward(plan, s, (command + 1) as nat);
        },
        (Stage::Send(command), Event::Sent(Err(error))) => {
            lemma_aborting_onward(plan, s, Cause::Command(error));
        },
        (Stage::ZHeight, Event::Answer(answer)) => {
            lemma_aborting_onward(plan, s, Cause::Declined(Pause::ZHeight));
            lemma_aborting_onward(plan, s, Cause::TimedOut(Pause::ZHeight));
        },
        (Stage::PreviewRecheck(c), Event::Exclusive(Err(reason))) => {
            lemma_aborting_onward(plan, s, Cause::Exclusivity(reason));
        },
        (Stage::PreviewMove(c), Event::Sent(Err(error))) => {
            lemma_aborting_onward(plan, s, Cause::Command(error));
        },
        (Stage::PreviewAsk(c), Event::Preview(answer)) => {
            lemma_aborting_onward(plan, s, Cause::NoBinding);
            lemma_aborting_onward(plan, s, Cause::Declined(Pause::Preview));
            lemma_aborting_onward(plan, s, Cause::TimedOut(Pause::Preview));
        },
        (Stage::PreviewWrite(c), Event::Written(Err(reason))) => {
            lemma_aborting_onward(plan, s, Cause::Write(reason));
        },
        (Stage::Cleanup { step, command }, Event::Sent(fate)) => {
            lemma_cleaning_stays(plan, s, (step + 1) as nat, (command + 1) as nat);
        },
        _ => {},
    }
}

/// Past the arming of the step that declares the shifted frame, no event leads
/// back.
proof fn lemma_stays_past(plan: RecoveryPlan, s: Executor, event: Event, i: int)
    requires
        well_formed(plan, s),
        numbered(plan),
        0 <= i < plan.steps@.len(),
        shifted_id(plan) == Some(plan.steps@[i].id),
        past_arming(s, i),
    ensures
        past_arming(stepped(plan, s, event).0, i),
{
    if ahead_of_step(s.stage) {
        assert(plan.steps@[i].id < plan.steps@[s.step as int].id);
        match (s.stage, event) {
            (Stage::Gate, Event::Gate(ok)) => {
                lemma_aborting_onward(plan, s, Cause::Gate);
            },
            (Stage::StepDebug, Event::Answer(answer)) => {
                lemma_aborting_onward(plan, s, Cause::Declined(Pause::StepDebug));
                lemma_aborting_onward(plan, s, Cause::TimedOut(Pause::StepDebug));
            },
            (Stage::Recheck, Event::Exclusive(Ok(_))) => {
                lemma_running_onward(plan, s);
            },
            (Stage::Recheck, Event::Exclusive(Err(reason))) => {
                lemma_aborting_onward(plan, s, Cause::Exclusivity(reason));
            },
            _ => {},
        }
    } else {
        lemma_begun_onward(plan, s, event);
    }
}

proof fn lemma_sent_lies_behind(plan: RecoveryPlan, events: Seq<Event>, i: int)
    requires
        numbered(plan),
        0 <= i < plan.steps@.len(),
        shifted_id(plan) == Some(plan.steps@[i].id),
        sent_of(played(plan, events).1, i),
    ensures
        past_arming(played(plan, events).0, i),
    decreases events.len(),
{
    let log = played(plan, events).1;
    if events.len() == 0 {
        lemma_warned_sends_nothing(plan, blank(), 0);
    } else {
        let less = events.drop_last();
        let before = played(plan, less);
        let s = before.0;
        let event = events.last();
        let m = stepped(plan, s, event);
        every_execution_is_well_formed(plan, less);
        assert(log =~= before.1 + m.1);
        if sent_of(before.1, i) {
            lemma_sent_lies_behind(plan, less, i);
            lemma_stays_past(plan, s, event, i);
        } else {
            let e = choose|e: int|
                0 <= e < log.len() && (#[trigger] log[e] matches Entry::Send { step, command }
                    && step == i);
            assert(e >= before.1.len()) by {
                if e < before.1.len() {
                    assert(before.1[e] == log[e]);
                }
            }
            assert(m.1[e - before.1.len()] == log[e]);
            lemma_stepped_sends(plan, s, event);
            assert(s.step == i);
            if begun(s.stage) {
                lemma_begun_onward(plan, s, event);
            } else {
                lemma_running_onward(plan, s);
            }
        }
    }
}

/// An abort reports the Z frame unknown whenever the step that declares the
/// shifted frame has sent anything, however long ago, and never before the
/// execution came to that step.
pub proof fn a_declared_frame_is_reported_unknown(plan: RecoveryPlan, events: Seq<Event>, i: int)
    requires
        numbered(plan),
        first_index_from(plan, Phase::ShiftedFrame, 0) == Some(i),
        played(plan, events).0.cause is Some,
    ensures
        ({
            let s = played(plan, events).0;
            let reported = invalidates_frame(plan, current(plan, s), s.cause->0);
            &&& sent_of(played(plan, events).1, i) ==> reported
            &&& s.step < i ==> !reported
        }),
{
    let s = played(plan, events).0;
    every_execution_is_well_formed(plan, events);
    lemma_first_index_bounds(plan, Phase::ShiftedFrame, 0);
    if s.step < i {
        assert(plan.steps@[s.step as int].id < plan.steps@[i].id);
    }
    if sent_of(played(plan, events).1, i) {
        lemma_sent_lies_behind(plan, events, i);
        if s.step > i {
            assert(plan.steps@[i].id < plan.steps@[s.step as int].id);
        }
    }
}

proof fn lemma_first_index_bounds(plan: RecoveryPlan, phase: Phase, from: int)
    ensures
        first_index_from(plan, phase, from) matches Some(i) ==> from <= i < plan.steps@.len() && 0
            <= i,
    decreases plan.steps@.len() - from,
{
    if 0 <= from < plan.steps@.len() {
        lemma_first_index_bounds(plan, phase, from + 1);
    }
}

} // verus!
