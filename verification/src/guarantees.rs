//! What holds of every execution, whatever the operator answers and the printer
//! reports.

use vstd::prelude::*;

use crate::execution::{
    aborting, after, answered, asking, at, blank, check_of, checked, cleaning, computed_as, current,
    next_check, post_verifying, pre_verifying, preview_rest, previewing, read_number, running, seen,
    sending, started, starting_is_well_formed, step_done, stepped, stepping_keeps_well_formed,
    verified, warned, well_formed, Cause, Check, Entry, Event, Executor, Move, Pause, Stage,
};
use crate::executor::{plan_commands, ConfirmAnswer, PreviewAnswer};
use crate::json::Json;
use crate::number::{Num, Reading};
use crate::plan::{
    cleanup_text, resolved, satisfied, spelled, wants_computed, Phase, RecoveryPlan, Resolved, Tier,
    Unresolved, MACHINE_ACCEL_PLACEHOLDER,
};
use crate::prompts::script_text;
use crate::text::occurs;

verus! {

/// Where an execution of `plan` stands after `events`, and all it recorded.
pub open spec fn played(plan: RecoveryPlan, events: Seq<Event>) -> Move
    decreases events.len(),
{
    if events.len() == 0 {
        started(plan)
    } else {
        let before = played(plan, events.drop_last());
        after(before.1, stepped(plan, before.0, events.last()))
    }
}

/// Every execution stays well-formed.
pub proof fn every_execution_is_well_formed(plan: RecoveryPlan, events: Seq<Event>)
    ensures
        well_formed(plan, played(plan, events).0),
    decreases events.len(),
{
    if events.len() == 0 {
        starting_is_well_formed(plan);
    } else {
        every_execution_is_well_formed(plan, events.drop_last());
        stepping_keeps_well_formed(
            plan,
            played(plan, events.drop_last()).0,
            events.last(),
        );
    }
}

/// What a transcript shows of the plan itself.
pub enum Mark {
    /// A step began.
    Started(int),
    /// A verification held.
    Held(int, Check),
    /// A command was sent.
    Sent(int, int),
    /// A step completed.
    Done(int),
}

/// What one entry shows of the plan itself.
pub open spec fn mark(entry: Entry) -> Seq<Mark> {
    match entry {
        Entry::StepStart(step) => seq![Mark::Started(step as int)],
        Entry::Verify { step, check, observed, holds: true } => seq![
            Mark::Held(step as int, check),
        ],
        Entry::Send { step, command } => seq![Mark::Sent(step as int, command as int)],
        Entry::StepOk(step) => seq![Mark::Done(step as int)],
        _ => Seq::empty(),
    }
}

/// What a transcript shows of the plan itself.
pub open spec fn trace(log: Seq<Entry>) -> Seq<Mark>
    decreases log.len(),
{
    if log.len() == 0 {
        Seq::empty()
    } else {
        trace(log.drop_last()) + mark(log.last())
    }
}

/// The first `n` pre-verifications of step `i`.
pub open spec fn pre_marks(i: int, n: nat) -> Seq<Mark> {
    Seq::new(n, |k: int| Mark::Held(i, Check::Pre(k as usize)))
}

/// The first `n` commands of step `i`.
pub open spec fn send_marks(i: int, n: nat) -> Seq<Mark> {
    Seq::new(n, |k: int| Mark::Sent(i, k))
}

/// The first `n` post-verifications of step `i`.
pub open spec fn post_marks(i: int, n: nat) -> Seq<Mark> {
    Seq::new(n, |k: int| Mark::Held(i, Check::Post(k as usize)))
}

/// Step `i` up to its pre-verifications.
pub open spec fn prepared(plan: RecoveryPlan, i: int, pre: nat) -> Seq<Mark> {
    seq![Mark::Started(i)] + pre_marks(i, pre)
}

/// Step `i` up to its commands.
pub open spec fn commanded(plan: RecoveryPlan, i: int, sent: nat) -> Seq<Mark> {
    prepared(plan, i, plan.steps@[i].pre_verify@.len()) + send_marks(i, sent)
}

/// Step `i` up to its post-verifications.
pub open spec fn settled(plan: RecoveryPlan, i: int, post: nat) -> Seq<Mark> {
    commanded(plan, i, plan.steps@[i].commands@.len()) + post_marks(i, post)
}

/// All of step `i`: it begins, each pre-verification holds, each command is
/// sent, each post-verification holds, it is done.
pub open spec fn step_marks(plan: RecoveryPlan, i: int) -> Seq<Mark> {
    settled(plan, i, plan.steps@[i].verify@.len()).push(Mark::Done(i))
}

/// All of the first `n` steps, in order.
pub open spec fn full(plan: RecoveryPlan, n: nat) -> Seq<Mark>
    decreases n,
{
    if n == 0 {
        Seq::empty()
    } else {
        full(plan, (n - 1) as nat) + step_marks(plan, n - 1)
    }
}

/// What an execution that has not stopped must have recorded where it stands.
pub open spec fn expected(plan: RecoveryPlan, s: Executor) -> Seq<Mark> {
    let i = s.step as int;
    let before = full(plan, s.step as nat);
    match s.stage {
        Stage::Verify { check: Check::Pre(k), again } => before + prepared(plan, i, k as nat),
        Stage::Read(_) => before + prepared(plan, i, plan.steps@[i].pre_verify@.len()),
        Stage::Compute => before + prepared(plan, i, plan.steps@[i].pre_verify@.len()),
        Stage::Send(k) => before + commanded(plan, i, (k + 1) as nat),
        Stage::Verify { check: Check::Post(k), again } => before + settled(plan, i, k as nat),
        Stage::ReadLiveZ => full(plan, (i + 1) as nat),
        Stage::ZHeight => full(plan, (i + 1) as nat),
        Stage::PreviewRecheck(_) => full(plan, (i + 1) as nat),
        Stage::PreviewMove(_) => full(plan, (i + 1) as nat),
        Stage::PreviewAsk(_) => full(plan, (i + 1) as nat),
        Stage::PreviewWrite(_) => full(plan, (i + 1) as nat),
        Stage::Completed => full(plan, plan.steps@.len()),
        _ => before,
    }
}

/// `a` is how `b` begins.
pub open spec fn starts(a: Seq<Mark>, b: Seq<Mark>) -> bool {
    a.len() <= b.len() && a =~= b.take(a.len() as int)
}

/// A move keeps to the plan: what it records continues the plan's own order,
/// and brings an execution that has not stopped to what is expected there.
spec fn keeps(plan: RecoveryPlan, base: Seq<Mark>, m: Move) -> bool {
    &&& starts(base + trace(m.1), full(plan, plan.steps@.len()))
    &&& m.0.cause is None ==> base + trace(m.1) == expected(plan, m.0)
}

proof fn lemma_trace_concat(a: Seq<Entry>, b: Seq<Entry>)
    ensures
        trace(a + b) == trace(a) + trace(b),
    decreases b.len(),
{
    if b.len() == 0 {
        assert(a + b =~= a);
        assert(trace(a) + trace(b) =~= trace(a));
    } else {
        lemma_trace_concat(a, b.drop_last());
        assert((a + b).drop_last() =~= a + b.drop_last());
        assert(trace(a + b) =~= trace(a) + trace(b));
    }
}

proof fn lemma_trace_one(e: Entry)
    ensures
        trace(seq![e]) == mark(e),
{
    let none = seq![e].drop_last();
    assert(none.len() == 0);
    assert(trace(none) == Seq::<Mark>::empty());
    assert(seq![e].last() == e);
    assert(trace(seq![e]) =~= mark(e));
}

/// A move that first records `e`.
proof fn lemma_after_one(plan: RecoveryPlan, base: Seq<Mark>, e: Entry, m: Move)
    requires
        keeps(plan, base + mark(e), m),
    ensures
        keeps(plan, base, after(seq![e], m)),
{
    lemma_trace_concat(seq![e], m.1);
    lemma_trace_one(e);
    assert(base + (mark(e) + trace(m.1)) =~= base + mark(e) + trace(m.1));
}

proof fn lemma_full_grows(plan: RecoveryPlan, i: nat, n: nat)
    requires
        i <= n,
    ensures
        starts(full(plan, i), full(plan, n)),
    decreases n - i,
{
    if i < n {
        lemma_full_grows(plan, i + 1, n);
        let a = full(plan, i);
        let b = full(plan, i + 1);
        let c = full(plan, n);
        assert(a =~= b.take(a.len() as int));
        assert(a =~= c.take(a.len() as int)) by {
            assert(b =~= c.take(b.len() as int));
            assert(c.take(b.len() as int).take(a.len() as int) =~= c.take(a.len() as int));
        }
    }
}

/// The beginning of a step, after all before it, is how the plan begins.
proof fn lemma_partial(plan: RecoveryPlan, i: nat, part: Seq<Mark>)
    requires
        i < plan.steps@.len(),
        starts(part, step_marks(plan, i as int)),
    ensures
        starts(full(plan, i) + part, full(plan, plan.steps@.len())),
{
    lemma_full_grows(plan, i + 1, plan.steps@.len());
    let a = full(plan, i) + part;
    let b = full(plan, i + 1);
    let c = full(plan, plan.steps@.len());
    assert(a =~= b.take(a.len() as int));
    assert(a =~= c.take(a.len() as int)) by {
        assert(c.take(b.len() as int).take(a.len() as int) =~= c.take(a.len() as int));
    }
}

proof fn lemma_parts(plan: RecoveryPlan, i: int, pre: nat, sent: nat, post: nat)
    requires
        0 <= i < plan.steps@.len(),
    ensures
        pre <= plan.steps@[i].pre_verify@.len() ==> starts(
            prepared(plan, i, pre),
            step_marks(plan, i),
        ),
        sent <= plan.steps@[i].commands@.len() ==> starts(
            commanded(plan, i, sent),
            step_marks(plan, i),
        ),
        post <= plan.steps@[i].verify@.len() ==> starts(
            settled(plan, i, post),
            step_marks(plan, i),
        ),
{
}

proof fn lemma_expected_starts(plan: RecoveryPlan, s: Executor)
    requires
        well_formed(plan, s),
    ensures
        starts(expected(plan, s), full(plan, plan.steps@.len())),
{
    if !(s.stage is Completed) {
        let i = s.step as int;
        let step = plan.steps@[i];
        lemma_full_grows(plan, s.step as nat, plan.steps@.len());
        lemma_full_grows(plan, (s.step + 1) as nat, plan.steps@.len());
        match s.stage {
            Stage::Verify { check: Check::Pre(k), again } => {
                lemma_parts(plan, i, k as nat, 0, 0);
                lemma_partial(plan, s.step as nat, prepared(plan, i, k as nat));
            },
            Stage::Read(_) => {
                lemma_parts(plan, i, step.pre_verify@.len(), 0, 0);
                lemma_partial(plan, s.step as nat, prepared(plan, i, step.pre_verify@.len()));
            },
            Stage::Compute => {
                lemma_parts(plan, i, step.pre_verify@.len(), 0, 0);
                lemma_partial(plan, s.step as nat, prepared(plan, i, step.pre_verify@.len()));
            },
            Stage::Send(k) => {
                lemma_parts(plan, i, 0, (k + 1) as nat, 0);
                lemma_partial(plan, s.step as nat, commanded(plan, i, (k + 1) as nat));
            },
            Stage::Verify { check: Check::Post(k), again } => {
                lemma_parts(plan, i, 0, 0, k as nat);
                lemma_partial(plan, s.step as nat, settled(plan, i, k as nat));
            },
            _ => {},
        }
    }
}

proof fn lemma_cleaning(plan: RecoveryPlan, s: Executor, steps: nat, command: nat)
    ensures
        trace(cleaning(plan, s, steps, command).1) == Seq::<Mark>::empty(),
        cleaning(plan, s, steps, command).0.cause == s.cause,
        cleaning(plan, s, steps, command).0.step == s.step,
    decreases steps, plan.steps@[steps - 1].cleanup_commands@.len() - command,
{
    if steps == 0 {
        lemma_trace_one(Entry::Abort(s.step));
    } else {
        let commands = plan.steps@[steps - 1].cleanup_commands@;
        if command >= commands.len() {
            lemma_cleaning(plan, s, (steps - 1) as nat, 0);
        } else {
            let skip = Entry::CleanupSkip {
                step: (steps - 1) as usize,
                command: command as usize,
            };
            let go = Entry::Cleanup { step: (steps - 1) as usize, command: command as usize };
            lemma_trace_one(skip);
            lemma_trace_one(go);
            if cleanup_text(
                commands[command as int]@,
                spelled(s.phase_accel),
                spelled(s.machine_accel),
            ) is None {
                lemma_cleaning(plan, s, steps, command + 1);
                lemma_trace_concat(seq![skip], cleaning(plan, s, steps, command + 1).1);
                assert(trace(cleaning(plan, s, steps, command).1) =~= Seq::<Mark>::empty());
            }
        }
    }
}

proof fn lemma_aborting(plan: RecoveryPlan, base: Seq<Mark>, s: Executor, cause: Cause)
    requires
        starts(base, full(plan, plan.steps@.len())),
    ensures
        keeps(plan, base, aborting(plan, s, cause)),
        aborting(plan, s, cause).0.cause == Some(cause),
{
    lemma_cleaning(plan, Executor { cause: Some(cause), ..s }, s.registered as nat, 0);
    assert(base + Seq::<Mark>::empty() =~= base);
}

/// An execution that stands at a step and has not stopped.
spec fn underway(plan: RecoveryPlan, s: Executor) -> bool {
    &&& s.step < plan.steps@.len()
    &&& s.registered <= s.step + 1
    &&& s.registered <= plan.steps@.len()
    &&& s.cause is None
}

proof fn lemma_step_done(plan: RecoveryPlan, s: Executor)
    requires
        underway(plan, s),
    ensures
        keeps(plan, full(plan, (s.step + 1) as nat), step_done(plan, s)),
{
    let m = step_done(plan, s);
    let base = full(plan, (s.step + 1) as nat);
    lemma_full_grows(plan, (s.step + 1) as nat, plan.steps@.len());
    lemma_trace_one(Entry::PlanComplete);
    assert(base + Seq::<Mark>::empty() =~= base);
    assert(plan.steps@.len() == plan.steps.len());
}

proof fn lemma_verified(plan: RecoveryPlan, s: Executor)
    requires
        underway(plan, s),
    ensures
        ({
            let step = current(plan, s);
            keeps(
                plan,
                full(plan, s.step as nat) + settled(plan, s.step as int, step.verify@.len()),
                verified(plan, s),
            )
        }),
{
    let i = s.step as int;
    let step = current(plan, s);
    let base = full(plan, s.step as nat) + settled(plan, i, step.verify@.len());
    let next = full(plan, (s.step + 1) as nat);
    let e = Entry::StepOk(s.step);
    assert(base + mark(e) =~= next);
    lemma_full_grows(plan, (s.step + 1) as nat, plan.steps@.len());
    lemma_step_done(plan, s);
    assert(next + Seq::<Mark>::empty() =~= next);
    match step.phase {
        Phase::ZConfirmStandoff => {
            lemma_after_one(plan, base, e, (at(s, Stage::ReadLiveZ), Seq::empty()));
        },
        Phase::ResumePreview => {
            lemma_after_one(plan, base, e, previewing(plan, s));
        },
        _ => {
            lemma_after_one(plan, base, e, step_done(plan, s));
        },
    }
}

proof fn lemma_post_verifying(plan: RecoveryPlan, s: Executor, index: nat)
    requires
        underway(plan, s),
        index <= current(plan, s).verify@.len(),
    ensures
        keeps(
            plan,
            full(plan, s.step as nat) + settled(plan, s.step as int, index),
            post_verifying(plan, s, index),
        ),
{
    let step = current(plan, s);
    assert(step.verify@.len() == step.verify.len());
    let base = full(plan, s.step as nat) + settled(plan, s.step as int, index);
    if index == step.verify@.len() {
        lemma_verified(plan, s);
    } else {
        lemma_parts(plan, s.step as int, 0, 0, index);
        lemma_partial(plan, s.step as nat, settled(plan, s.step as int, index));
        assert(base + Seq::<Mark>::empty() =~= base);
    }
}

proof fn lemma_sending(plan: RecoveryPlan, s: Executor, command: nat)
    requires
        underway(plan, s),
        command <= current(plan, s).commands@.len(),
    ensures
        keeps(
            plan,
            full(plan, s.step as nat) + commanded(plan, s.step as int, command),
            sending(plan, s, command),
        ),
{
    let i = s.step as int;
    let step = current(plan, s);
    assert(step.commands@.len() == step.commands.len());
    let base = full(plan, s.step as nat) + commanded(plan, i, command);
    if command == step.commands@.len() {
        lemma_post_verifying(plan, s, 0);
        assert(settled(plan, i, 0) =~= commanded(plan, i, command));
    } else {
        lemma_parts(plan, i, 0, command, 0);
        lemma_partial(plan, s.step as nat, commanded(plan, i, command));
        lemma_parts(plan, i, 0, command + 1, 0);
        lemma_partial(plan, s.step as nat, commanded(plan, i, command + 1));
        lemma_aborting(plan, base, s, Cause::Placeholder(Unresolved::NoComputed));
        lemma_aborting(plan, base, s, Cause::Placeholder(Unresolved::NoMachineAccel));
        let e = Entry::Send { step: s.step, command: command as usize };
        lemma_trace_one(e);
        assert(base + mark(e) =~= full(plan, s.step as nat) + commanded(plan, i, command + 1));
    }
}

proof fn lemma_computed_as(plan: RecoveryPlan, s: Executor, value: Option<Reading>)
    requires
        underway(plan, s),
    ensures
        keeps(
            plan,
            full(plan, s.step as nat) + prepared(
                plan,
                s.step as int,
                current(plan, s).pre_verify@.len(),
            ),
            computed_as(plan, s, value),
        ),
{
    assert(plan.steps@.len() == plan.steps.len());
    let t = Executor { computed: value, registered: (s.step + 1) as usize, ..s };
    lemma_sending(plan, t, 0);
    assert(commanded(plan, s.step as int, 0) =~= prepared(
        plan,
        s.step as int,
        current(plan, s).pre_verify@.len(),
    ));
}

proof fn lemma_pre_verifying(plan: RecoveryPlan, s: Executor, index: nat)
    requires
        underway(plan, s),
        index <= current(plan, s).pre_verify@.len(),
    ensures
        keeps(
            plan,
            full(plan, s.step as nat) + prepared(plan, s.step as int, index),
            pre_verifying(plan, s, index),
        ),
{
    let i = s.step as int;
    let step = current(plan, s);
    assert(step.pre_verify@.len() == step.pre_verify.len());
    let base = full(plan, s.step as nat) + prepared(plan, i, index);
    lemma_parts(plan, i, index, 0, 0);
    lemma_partial(plan, s.step as nat, prepared(plan, i, index));
    assert(base + Seq::<Mark>::empty() =~= base);
    if index == step.pre_verify@.len() {
        lemma_computed_as(plan, s, s.phase_accel);
    }
}

proof fn lemma_running(plan: RecoveryPlan, s: Executor)
    requires
        underway(plan, s),
    ensures
        keeps(plan, full(plan, s.step as nat), running(plan, s)),
{
    let t = Executor { computed: None, trigger: None, height: None, ..s };
    lemma_pre_verifying(plan, t, 0);
    let base = full(plan, s.step as nat);
    let e = Entry::StepStart(s.step);
    assert(base + mark(e) =~= base + prepared(plan, s.step as int, 0));
    lemma_after_one(plan, base, e, pre_verifying(plan, t, 0));
}

proof fn lemma_warned(plan: RecoveryPlan, s: Executor, warning: nat)
    requires
        underway(plan, s),
        s.step == 0,
        warning <= plan.warnings@.len(),
    ensures
        keeps(plan, Seq::empty(), warned(plan, s, warning)),
    decreases plan.warnings@.len() - warning,
{
    let none = Seq::<Mark>::empty();
    assert(plan.warnings@.len() == plan.warnings.len());
    assert(starts(none, full(plan, plan.steps@.len())));
    assert(none + none =~= none);
    assert(full(plan, 0) =~= none);
    if warning < plan.warnings@.len() {
        match plan.warnings@[warning as int].tier {
            Tier::Advisory => {
                lemma_warned(plan, s, warning + 1);
                lemma_after_one(
                    plan,
                    none,
                    Entry::Advisory(warning as usize),
                    warned(plan, s, warning + 1),
                );
            },
            Tier::Confirmable => {
                lemma_trace_one(
                    Entry::ConfirmPause {
                        step: s.step,
                        pause: Pause::Warning(warning as usize),
                        shown: None,
                        live_z: None,
                    },
                );
            },
            Tier::Hard => {
                lemma_aborting(plan, none, s, Cause::Refusal(warning as usize));
                lemma_after_one(
                    plan,
                    none,
                    Entry::HardRefusal(warning as usize),
                    aborting(plan, s, Cause::Refusal(warning as usize)),
                );
            },
        }
    }
}

proof fn lemma_answered(
    plan: RecoveryPlan,
    base: Seq<Mark>,
    s: Executor,
    pause: Pause,
    answer: ConfirmAnswer,
    go: Move,
)
    requires
        starts(base, full(plan, plan.steps@.len())),
        keeps(plan, base, go),
    ensures
        keeps(plan, base, answered(plan, s, pause, answer, go)),
{
    let e = Entry::ConfirmAnswer { step: s.step, pause, answer };
    lemma_aborting(plan, base, s, Cause::Declined(pause));
    lemma_aborting(plan, base, s, Cause::TimedOut(pause));
    assert(base + mark(e) =~= base);
    match answer {
        ConfirmAnswer::Continue => {
            lemma_after_one(plan, base, e, go);
        },
        ConfirmAnswer::Abort => {
            lemma_after_one(plan, base, e, aborting(plan, s, Cause::Declined(pause)));
        },
        ConfirmAnswer::TimedOut => {
            lemma_after_one(plan, base, e, aborting(plan, s, Cause::TimedOut(pause)));
        },
    }
}

/// A move that first records something that is not of the plan, then aborts.
proof fn lemma_noted_abort(plan: RecoveryPlan, base: Seq<Mark>, s: Executor, e: Entry, cause: Cause)
    requires
        starts(base, full(plan, plan.steps@.len())),
        mark(e) == Seq::<Mark>::empty(),
    ensures
        keeps(plan, base, after(seq![e], aborting(plan, s, cause))),
{
    lemma_aborting(plan, base, s, cause);
    assert(base + mark(e) =~= base);
    lemma_after_one(plan, base, e, aborting(plan, s, cause));
}

proof fn lemma_checked(
    plan: RecoveryPlan,
    s: Executor,
    check: Check,
    reply: Result<Json, String>,
    distance: Option<Num>,
    expired: bool,
)
    requires
        well_formed(plan, s),
        s.cause is None,
        s.stage matches Stage::Verify { check: c, again } && c == check,
    ensures
        keeps(plan, expected(plan, s), checked(plan, s, check, reply, distance, expired)),
{
    let base = expected(plan, s);
    lemma_expected_starts(plan, s);
    match reply {
        Err(error) => {
            lemma_aborting(plan, base, s, Cause::Transport(error));
        },
        Ok(status) => {
            let v = check_of(current(plan, s), check);
            let value = seen(v, status);
            let observed = crate::execution::spelling_of(value);
            let holds = satisfied(
                v.predicate,
                value,
                crate::execution::held_against(s, check),
                distance,
            );
            let e = Entry::Verify { step: s.step, check, observed, holds };
            if holds {
                match check {
                    Check::Pre(k) => {
                        lemma_pre_verifying(plan, s, (k + 1) as nat);
                        assert(base + mark(e) =~= full(plan, s.step as nat) + prepared(
                            plan,
                            s.step as int,
                            (k + 1) as nat,
                        ));
                    },
                    Check::Post(k) => {
                        lemma_post_verifying(plan, s, (k + 1) as nat);
                        assert(base + mark(e) =~= full(plan, s.step as nat) + settled(
                            plan,
                            s.step as int,
                            (k + 1) as nat,
                        ));
                    },
                }
                lemma_after_one(plan, base, e, next_check(plan, s, check));
            } else if expired {
                lemma_noted_abort(plan, base, s, e, Cause::Verification { check, observed });
            } else {
                assert(base + Seq::<Mark>::empty() =~= base);
            }
        },
    }
}

proof fn lemma_stepped(plan: RecoveryPlan, s: Executor, event: Event)
    requires
        well_formed(plan, s),
        s.cause is None,
    ensures
        keeps(plan, expected(plan, s), stepped(plan, s, event)),
{
    let base = expected(plan, s);
    let m = stepped(plan, s, event);
    lemma_expected_starts(plan, s);
    stepping_keeps_well_formed(plan, s, event);
    assert(base + Seq::<Mark>::empty() =~= base);
    match (s.stage, event) {
        (Stage::Warning(w), Event::Answer(answer)) => {
            assert(full(plan, 0) =~= Seq::<Mark>::empty());
            lemma_warned(plan, s, (w + 1) as nat);
            lemma_answered(
                plan,
                base,
                s,
                Pause::Warning(w),
                answer,
                warned(plan, s, (w + 1) as nat),
            );
        },
        (Stage::Gate, Event::Gate(go)) => {
            lemma_noted_abort(plan, base, s, Entry::OperatorDeclined(s.step), Cause::Gate);
            lemma_trace_one(
                Entry::ConfirmPause {
                    step: s.step,
                    pause: Pause::StepDebug,
                    shown: None,
                    live_z: None,
                },
            );
        },
        (Stage::StepDebug, Event::Answer(answer)) => {
            lemma_answered(
                plan,
                base,
                s,
                Pause::StepDebug,
                answer,
                (at(s, Stage::Recheck), Seq::empty()),
            );
        },
        (Stage::Recheck, Event::Exclusive(Ok(_))) => {
            lemma_running(plan, s);
        },
        (Stage::Recheck, Event::Exclusive(Err(reason))) => {
            lemma_noted_abort(
                plan,
                base,
                s,
                Entry::ExclusivityLost { step: s.step, reason },
                Cause::Exclusivity(reason),
            );
        },
        (Stage::Arm, Event::Armed(Ok(_))) => {
            lemma_running(plan, s);
            let e = Entry::FrameArmed(s.step);
            assert(base + mark(e) =~= base);
            lemma_after_one(plan, base, e, running(plan, s));
        },
        (Stage::Arm, Event::Armed(Err(reason))) => {
            lemma_noted_abort(
                plan,
                base,
                s,
                Entry::FrameArmFailed { step: s.step, reason },
                Cause::Arm(reason),
            );
        },
        (Stage::Verify { check, again }, Event::Status { reply, distance, expired }) => {
            lemma_checked(plan, s, check, reply, distance, expired);
        },
        (Stage::Read(field), Event::Status { reply, distance, expired }) => {
            match read_number(field, reply) {
                Ok(value) => {
                    let machine = Executor { machine_accel: Some(value), ..s };
                    let phase = Executor { phase_accel: Some(value), ..s };
                    lemma_computed_as(plan, machine, Some(value));
                    lemma_computed_as(plan, phase, Some(value));
                    let e = Entry::RecordAccel { step: s.step, machine: true, value };
                    let f = Entry::RecordAccel { step: s.step, machine: false, value };
                    assert(base + mark(e) =~= base);
                    assert(base + mark(f) =~= base);
                    lemma_after_one(plan, base, e, computed_as(plan, machine, Some(value)));
                    lemma_after_one(plan, base, f, computed_as(plan, phase, Some(value)));
                },
                Err(cause) => {
                    lemma_aborting(plan, base, s, cause);
                },
            }
        },
        (Stage::Compute, Event::Computed(Ok(value))) => {
            lemma_computed_as(plan, s, Some(value));
            let e = Entry::Compute {
                step: s.step,
                trigger: s.trigger,
                height: s.height,
                value,
            };
            assert(base + mark(e) =~= base);
            lemma_after_one(plan, base, e, computed_as(plan, s, Some(value)));
        },
        (Stage::Compute, Event::Computed(Err(error))) => {
            lemma_aborting(plan, base, s, Cause::Compute(error));
        },
        (Stage::Send(command), Event::Sent(Ok(_))) => {
            lemma_sending(plan, s, (command + 1) as nat);
            let e = Entry::ResponseOk(s.step);
            assert(base + mark(e) =~= base);
            lemma_after_one(plan, base, e, sending(plan, s, (command + 1) as nat));
        },
        (Stage::Send(command), Event::Sent(Err(error))) => {
            lemma_noted_abort(
                plan,
                base,
                s,
                Entry::ResponseError { step: s.step, error },
                Cause::Command(error),
            );
        },
        (Stage::ReadLiveZ, Event::Status { reply, distance, expired }) => {
            lemma_trace_one(m.1[0]);
        },
        (Stage::ZHeight, Event::Answer(answer)) => {
            lemma_step_done(plan, s);
            lemma_answered(plan, base, s, Pause::ZHeight, answer, step_done(plan, s));
        },
        (Stage::PreviewRecheck(c), Event::Exclusive(Ok(_))) => {
            lemma_trace_one(m.1[0]);
        },
        (Stage::PreviewRecheck(c), Event::Exclusive(Err(reason))) => {
            lemma_noted_abort(
                plan,
                base,
                s,
                Entry::ExclusivityLost { step: s.step, reason },
                Cause::Exclusivity(reason),
            );
        },
        (Stage::PreviewMove(c), Event::Sent(Ok(_))) => {
            lemma_trace_one(m.1[0]);
        },
        (Stage::PreviewMove(c), Event::Sent(Err(error))) => {
            lemma_aborting(plan, base, s, Cause::Command(error));
        },
        (Stage::PreviewAsk(c), Event::Preview(answer)) => {
            let e = Entry::PreviewAnswer { step: s.step, choice: answer };
            assert(base + mark(e) =~= base);
            lemma_aborting(plan, base, s, Cause::NoBinding);
            lemma_aborting(plan, base, s, Cause::Declined(Pause::Preview));
            lemma_aborting(plan, base, s, Cause::TimedOut(Pause::Preview));
            lemma_trace_one(Entry::PreviewAccept { step: s.step, stop: c.stop });
            lemma_after_one(plan, base, e, preview_rest(plan, s, c, answer));
        },
        (Stage::PreviewWrite(c), Event::Written(Ok(_))) => {
            lemma_step_done(plan, s);
        },
        (Stage::PreviewWrite(c), Event::Written(Err(reason))) => {
            lemma_noted_abort(
                plan,
                base,
                s,
                Entry::PreviewWriteFailed { step: s.step, reason },
                Cause::Write(reason),
            );
        },
        _ => {},
    }
}

/// Once it stops, an execution records nothing more of the plan, and the cause
/// it stopped for stands: no cleanup, and no failure of one, can change it.
pub proof fn a_stopped_execution_keeps_its_cause(plan: RecoveryPlan, s: Executor, event: Event)
    requires
        well_formed(plan, s),
        s.cause is Some,
    ensures
        stepped(plan, s, event).0.cause == s.cause,
        stepped(plan, s, event).0.step == s.step,
        stepped(plan, s, event).0.stage is Cleanup || stepped(plan, s, event).0.stage is Aborted,
        trace(stepped(plan, s, event).1) == Seq::<Mark>::empty(),
{
    stepping_keeps_well_formed(plan, s, event);
    match (s.stage, event) {
        (Stage::Cleanup { step, command }, Event::Sent(fate)) => {
            let rest = cleaning(plan, s, (step + 1) as nat, (command + 1) as nat);
            lemma_cleaning(plan, s, (step + 1) as nat, (command + 1) as nat);
            match fate {
                Ok(_) => {
                    lemma_trace_one(Entry::CleanupOk(step));
                    lemma_trace_concat(seq![Entry::CleanupOk(step)], rest.1);
                },
                Err(error) => {
                    let e = Entry::CleanupError { step, error };
                    lemma_trace_one(e);
                    lemma_trace_concat(seq![e], rest.1);
                },
            }
            assert(trace(stepped(plan, s, event).1) =~= Seq::<Mark>::empty());
        },
        _ => {},
    }
}

/// An execution does what the plan says and nothing else: what it records of
/// steps begun, verifications held, commands sent and steps done is, in this
/// order, how the plan itself goes. One that has not stopped stands exactly
/// where that record ends; one that completed has recorded all of it.
pub proof fn an_execution_follows_the_plan(plan: RecoveryPlan, events: Seq<Event>)
    ensures
        starts(trace(played(plan, events).1), full(plan, plan.steps@.len())),
        played(plan, events).0.cause is None ==> trace(played(plan, events).1) == expected(
            plan,
            played(plan, events).0,
        ),
        played(plan, events).0.stage is Completed ==> trace(played(plan, events).1) == full(
            plan,
            plan.steps@.len(),
        ),
    decreases events.len(),
{
    let all = full(plan, plan.steps@.len());
    let none = Seq::<Mark>::empty();
    every_execution_is_well_formed(plan, events);
    if events.len() == 0 {
        assert(starts(none, all));
        if plan.steps@.len() == 0 {
            lemma_trace_one(Entry::PlanStart);
            lemma_trace_one(Entry::PlanComplete);
            lemma_trace_concat(seq![Entry::PlanStart], seq![Entry::PlanComplete]);
            assert(seq![Entry::PlanStart] + seq![Entry::PlanComplete] =~= seq![
                Entry::PlanStart,
                Entry::PlanComplete,
            ]);
            assert(trace(started(plan).1) =~= none);
        } else {
            lemma_warned(plan, blank(), 0);
            assert(none + mark(Entry::PlanStart) =~= none);
            lemma_after_one(plan, none, Entry::PlanStart, warned(plan, blank(), 0));
            assert(none + trace(started(plan).1) =~= trace(started(plan).1));
        }
    } else {
        let less = events.drop_last();
        an_execution_follows_the_plan(plan, less);
        every_execution_is_well_formed(plan, less);
        let before = played(plan, less);
        let m = stepped(plan, before.0, events.last());
        lemma_trace_concat(before.1, m.1);
        if before.0.cause is None {
            lemma_stepped(plan, before.0, events.last());
        } else {
            a_stopped_execution_keeps_its_cause(plan, before.0, events.last());
            assert(trace(before.1) + none =~= trace(before.1));
        }
    }
}

/// The commands that a mark sends, with the id of their step.
pub open spec fn command_marked(plan: RecoveryPlan, m: Mark) -> Seq<(u32, Seq<char>)> {
    match m {
        Mark::Sent(i, k) => seq![(plan.steps@[i].id, plan.steps@[i].commands@[k]@)],
        _ => Seq::empty(),
    }
}

/// The commands that marks send, with the ids of their steps, in order.
pub open spec fn commands_marked(plan: RecoveryPlan, marks: Seq<Mark>) -> Seq<(u32, Seq<char>)>
    decreases marks.len(),
{
    if marks.len() == 0 {
        Seq::empty()
    } else {
        commands_marked(plan, marks.drop_last()) + command_marked(plan, marks.last())
    }
}

proof fn lemma_commands_concat(plan: RecoveryPlan, a: Seq<Mark>, b: Seq<Mark>)
    ensures
        commands_marked(plan, a + b) == commands_marked(plan, a) + commands_marked(plan, b),
    decreases b.len(),
{
    if b.len() == 0 {
        assert(a + b =~= a);
        assert(commands_marked(plan, a) + commands_marked(plan, b) =~= commands_marked(plan, a));
    } else {
        lemma_commands_concat(plan, a, b.drop_last());
        assert((a + b).drop_last() =~= a + b.drop_last());
        assert(commands_marked(plan, a + b) =~= commands_marked(plan, a) + commands_marked(plan, b));
    }
}

proof fn lemma_no_commands(plan: RecoveryPlan, marks: Seq<Mark>)
    requires
        forall|k: int| 0 <= k < marks.len() ==> !((#[trigger] marks[k]) is Sent),
    ensures
        commands_marked(plan, marks) == Seq::<(u32, Seq<char>)>::empty(),
    decreases marks.len(),
{
    if marks.len() > 0 {
        lemma_no_commands(plan, marks.drop_last());
        assert(!(marks[marks.len() - 1] is Sent));
        assert(commands_marked(plan, marks) =~= Seq::<(u32, Seq<char>)>::empty());
    }
}

proof fn lemma_send_marks(plan: RecoveryPlan, i: int, n: nat)
    requires
        0 <= i < plan.steps@.len(),
        n <= plan.steps@[i].commands@.len(),
    ensures
        commands_marked(plan, send_marks(i, n)) == crate::executor::step_commands(
            plan.steps@[i],
        ).take(n as int),
    decreases n,
{
    let all = crate::executor::step_commands(plan.steps@[i]);
    if n == 0 {
        assert(all.take(0) =~= Seq::<(u32, Seq<char>)>::empty());
    } else {
        lemma_send_marks(plan, i, (n - 1) as nat);
        assert(send_marks(i, n).drop_last() =~= send_marks(i, (n - 1) as nat));
        assert(commands_marked(plan, send_marks(i, n)) =~= all.take(n as int));
    }
}

proof fn lemma_full_commands(plan: RecoveryPlan, n: nat)
    requires
        n <= plan.steps@.len(),
    ensures
        commands_marked(plan, full(plan, n)) == plan_commands(plan, n),
    decreases n,
{
    if n > 0 {
        let i = n - 1;
        let step = plan.steps@[i];
        lemma_full_commands(plan, i as nat);
        lemma_commands_concat(plan, full(plan, i as nat), step_marks(plan, i));
        let pre = prepared(plan, i, step.pre_verify@.len());
        let sent = send_marks(i, step.commands@.len());
        let post = post_marks(i, step.verify@.len()).push(Mark::Done(i));
        assert(step_marks(plan, i) =~= pre + sent + post);
        lemma_commands_concat(plan, pre + sent, post);
        lemma_commands_concat(plan, pre, sent);
        lemma_no_commands(plan, pre);
        lemma_no_commands(plan, post);
        lemma_send_marks(plan, i, step.commands@.len());
        let all = crate::executor::step_commands(step);
        assert(all.take(step.commands@.len() as int) =~= all);
        assert(commands_marked(plan, step_marks(plan, i)) =~= all);
    }
}

proof fn lemma_commands_of_start(plan: RecoveryPlan, a: Seq<Mark>, b: Seq<Mark>)
    requires
        starts(a, b),
    ensures
        commands_marked(plan, a).len() <= commands_marked(plan, b).len(),
        commands_marked(plan, a) == commands_marked(plan, b).take(
            commands_marked(plan, a).len() as int,
        ),
{
    let rest = b.skip(a.len() as int);
    assert(b =~= a + rest);
    lemma_commands_concat(plan, a, rest);
    assert(commands_marked(plan, a) =~= commands_marked(plan, b).take(
        commands_marked(plan, a).len() as int,
    ));
}

/// Only the plan's commands are ever sent as steps, each once and in the plan's
/// order: whatever happens, they are how the list of the dry run begins, and an
/// execution that completes has sent all of that list.
pub proof fn an_execution_sends_what_the_dry_run_lists(plan: RecoveryPlan, events: Seq<Event>)
    ensures
        ({
            let sent = commands_marked(plan, trace(played(plan, events).1));
            let listed = plan_commands(plan, plan.steps@.len());
            &&& sent.len() <= listed.len()
            &&& sent == listed.take(sent.len() as int)
            &&& played(plan, events).0.stage is Completed ==> sent == listed
        }),
{
    an_execution_follows_the_plan(plan, events);
    lemma_full_commands(plan, plan.steps@.len());
    lemma_commands_of_start(
        plan,
        trace(played(plan, events).1),
        full(plan, plan.steps@.len()),
    );
}

/// What an execution sends is text of the plan: a command of the step it stands
/// at with the step's value and the printer's own acceleration written in, the
/// hover move over a stop, or a cleanup of a step whose side effects are in
/// force. A command without placeholders goes out as it stands.
pub proof fn what_is_sent_is_text_of_the_plan(plan: RecoveryPlan, events: Seq<Event>)
    ensures
        ({
            let s = played(plan, events).0;
            match s.stage {
                Stage::Send(k) => {
                    &&& k < current(plan, s).commands@.len()
                    &&& resolved(
                        current(plan, s).commands@[k as int]@,
                        spelled(s.computed),
                        spelled(s.machine_accel),
                    ) == Resolved::Text(script_text(plan, s))
                    &&& !wants_computed(current(plan, s).commands@[k as int]@) && !occurs(
                        current(plan, s).commands@[k as int]@,
                        MACHINE_ACCEL_PLACEHOLDER@,
                    ) ==> script_text(plan, s) == current(plan, s).commands@[k as int]@
                },
                Stage::PreviewMove(c) => {
                    &&& plan.preview matches Some(spec)
                    &&& c.stop < spec.stops@.len()
                    &&& script_text(plan, s) == crate::prompts::hover_text(spec, c.stop as int)
                },
                Stage::Cleanup { step, command } => {
                    &&& step < s.registered
                    &&& command < plan.steps@[step as int].cleanup_commands@.len()
                    &&& cleanup_text(
                        plan.steps@[step as int].cleanup_commands@[command as int]@,
                        spelled(s.phase_accel),
                        spelled(s.machine_accel),
                    ) == Some(script_text(plan, s))
                },
                _ => true,
            }
        }),
{
    every_execution_is_well_formed(plan, events);
}

/// The cleanups owed: those of the first `steps` steps, newest step first, each
/// step's in order, the newest from `command` on.
pub open spec fn owed(plan: RecoveryPlan, steps: nat, command: nat) -> Seq<(int, int)>
    decreases steps, plan.steps@[steps - 1].cleanup_commands@.len() - command,
{
    if steps == 0 {
        Seq::empty()
    } else if command >= plan.steps@[steps - 1].cleanup_commands@.len() {
        owed(plan, (steps - 1) as nat, 0)
    } else {
        seq![(steps - 1, command as int)] + owed(plan, steps, command + 1)
    }
}

/// The cleanup that an entry runs, or leaves out for want of a recorded
/// acceleration.
pub open spec fn cleanup_in(entry: Entry) -> Seq<(int, int)> {
    match entry {
        Entry::Cleanup { step, command } => seq![(step as int, command as int)],
        Entry::CleanupSkip { step, command } => seq![(step as int, command as int)],
        _ => Seq::empty(),
    }
}

/// The cleanups that a transcript shows.
pub open spec fn cleanups(log: Seq<Entry>) -> Seq<(int, int)>
    decreases log.len(),
{
    if log.len() == 0 {
        Seq::empty()
    } else {
        cleanups(log.drop_last()) + cleanup_in(log.last())
    }
}

/// The cleanups still to come.
pub open spec fn remaining(plan: RecoveryPlan, s: Executor) -> Seq<(int, int)> {
    match s.stage {
        Stage::Cleanup { step, command } => owed(plan, (step + 1) as nat, (command + 1) as nat),
        _ => Seq::empty(),
    }
}

/// A move that stops the execution accounts for every registered cleanup; any
/// other runs none.
spec fn accounts(plan: RecoveryPlan, m: Move) -> bool {
    if m.0.cause is None {
        cleanups(m.1) == Seq::<(int, int)>::empty()
    } else {
        cleanups(m.1) + remaining(plan, m.0) == owed(plan, m.0.registered as nat, 0)
    }
}

proof fn lemma_cleanups_concat(a: Seq<Entry>, b: Seq<Entry>)
    ensures
        cleanups(a + b) == cleanups(a) + cleanups(b),
    decreases b.len(),
{
    if b.len() == 0 {
        assert(a + b =~= a);
        assert(cleanups(a) + cleanups(b) =~= cleanups(a));
    } else {
        lemma_cleanups_concat(a, b.drop_last());
        assert((a + b).drop_last() =~= a + b.drop_last());
        assert(cleanups(a + b) =~= cleanups(a) + cleanups(b));
    }
}

proof fn lemma_cleanups_one(e: Entry)
    ensures
        cleanups(seq![e]) == cleanup_in(e),
{
    let none = seq![e].drop_last();
    assert(none.len() == 0);
    assert(cleanups(none) == Seq::<(int, int)>::empty());
    assert(seq![e].last() == e);
    assert(cleanups(seq![e]) =~= cleanup_in(e));
}

proof fn lemma_accounts_after(plan: RecoveryPlan, e: Entry, m: Move)
    requires
        accounts(plan, m),
        cleanup_in(e) == Seq::<(int, int)>::empty(),
    ensures
        accounts(plan, after(seq![e], m)),
{
    lemma_cleanups_one(e);
    lemma_cleanups_concat(seq![e], m.1);
    assert(cleanups(seq![e] + m.1) =~= cleanups(m.1));
}

/// A move that runs no cleanup.
proof fn lemma_accounts_one(plan: RecoveryPlan, s: Executor, e: Entry)
    requires
        s.cause is None,
        cleanup_in(e) == Seq::<(int, int)>::empty(),
    ensures
        accounts(plan, (s, seq![e])),
        accounts(plan, (s, Seq::empty())),
{
    lemma_cleanups_one(e);
}

proof fn lemma_cleaning_owed(plan: RecoveryPlan, s: Executor, steps: nat, command: nat)
    requires
        steps <= plan.steps@.len(),
    ensures
        cleanups(cleaning(plan, s, steps, command).1) + remaining(
            plan,
            cleaning(plan, s, steps, command).0,
        ) == owed(plan, steps, command),
        cleaning(plan, s, steps, command).0.registered == s.registered,
        cleaning(plan, s, steps, command).0.cause == s.cause,
    decreases steps, plan.steps@[steps - 1].cleanup_commands@.len() - command,
{
    assert(plan.steps@.len() == plan.steps.len());
    let none = Seq::<(int, int)>::empty();
    if steps == 0 {
        lemma_cleanups_one(Entry::Abort(s.step));
        assert(none + none =~= none);
    } else {
        let commands = plan.steps@[steps - 1].cleanup_commands@;
        assert(commands.len() == plan.steps@[steps - 1].cleanup_commands.len());
        if command >= commands.len() {
            lemma_cleaning_owed(plan, s, (steps - 1) as nat, 0);
        } else {
            let skip = Entry::CleanupSkip {
                step: (steps - 1) as usize,
                command: command as usize,
            };
            let go = Entry::Cleanup { step: (steps - 1) as usize, command: command as usize };
            lemma_cleanups_one(skip);
            lemma_cleanups_one(go);
            if cleanup_text(
                commands[command as int]@,
                spelled(s.phase_accel),
                spelled(s.machine_accel),
            ) is None {
                let rest = cleaning(plan, s, steps, command + 1);
                lemma_cleaning_owed(plan, s, steps, command + 1);
                lemma_cleanups_concat(seq![skip], rest.1);
                assert(cleanup_in(skip) + cleanups(rest.1) + remaining(plan, rest.0)
                    =~= cleanup_in(skip) + (cleanups(rest.1) + remaining(plan, rest.0)));
            }
        }
    }
}

proof fn lemma_aborting_accounts(plan: RecoveryPlan, s: Executor, cause: Cause)
    requires
        s.registered <= plan.steps@.len(),
    ensures
        accounts(plan, aborting(plan, s, cause)),
{
    lemma_cleaning_owed(plan, Executor { cause: Some(cause), ..s }, s.registered as nat, 0);
}

proof fn lemma_post_verifying_accounts(plan: RecoveryPlan, s: Executor, index: nat)
    requires
        underway(plan, s),
    ensures
        accounts(plan, post_verifying(plan, s, index)),
        accounts(plan, step_done(plan, s)),
{
    let e = Entry::StepOk(s.step);
    lemma_accounts_one(plan, step_done(plan, s).0, Entry::PlanComplete);
    lemma_accounts_one(plan, at(s, Stage::ReadLiveZ), e);
    lemma_accounts_one(plan, previewing(plan, s).0, e);
    lemma_accounts_one(plan, post_verifying(plan, s, index).0, e);
    lemma_accounts_after(plan, e, step_done(plan, s));
    lemma_accounts_after(plan, e, previewing(plan, s));
    lemma_accounts_after(plan, e, (at(s, Stage::ReadLiveZ), Seq::empty()));
}

proof fn lemma_sending_accounts(plan: RecoveryPlan, s: Executor, command: nat)
    requires
        underway(plan, s),
    ensures
        accounts(plan, sending(plan, s, command)),
{
    lemma_post_verifying_accounts(plan, s, 0);
    lemma_aborting_accounts(plan, s, Cause::Placeholder(Unresolved::NoComputed));
    lemma_aborting_accounts(plan, s, Cause::Placeholder(Unresolved::NoMachineAccel));
    lemma_accounts_one(
        plan,
        at(s, Stage::Send(command as usize)),
        Entry::Send { step: s.step, command: command as usize },
    );
}

proof fn lemma_computed_accounts(plan: RecoveryPlan, s: Executor, value: Option<Reading>)
    requires
        underway(plan, s),
    ensures
        accounts(plan, computed_as(plan, s, value)),
{
    assert(plan.steps@.len() == plan.steps.len());
    lemma_sending_accounts(
        plan,
        Executor { computed: value, registered: (s.step + 1) as usize, ..s },
        0,
    );
}

proof fn lemma_pre_verifying_accounts(plan: RecoveryPlan, s: Executor, index: nat)
    requires
        underway(plan, s),
    ensures
        accounts(plan, pre_verifying(plan, s, index)),
{
    lemma_computed_accounts(plan, s, s.phase_accel);
    assert(cleanups(Seq::<Entry>::empty()) == Seq::<(int, int)>::empty());
}

proof fn lemma_running_accounts(plan: RecoveryPlan, s: Executor)
    requires
        underway(plan, s),
    ensures
        accounts(plan, running(plan, s)),
{
    let t = Executor { computed: None, trigger: None, height: None, ..s };
    lemma_pre_verifying_accounts(plan, t, 0);
    lemma_accounts_after(plan, Entry::StepStart(s.step), pre_verifying(plan, t, 0));
}

proof fn lemma_warned_accounts(plan: RecoveryPlan, s: Executor, w: nat)
    requires
        underway(plan, s),
    ensures
        accounts(plan, warned(plan, s, w)),
    decreases plan.warnings@.len() - w,
{
    if w >= plan.warnings@.len() {
        lemma_accounts_one(plan, at(s, Stage::Gate), Entry::PlanStart);
    } else {
        match plan.warnings@[w as int].tier {
            Tier::Advisory => {
                lemma_warned_accounts(plan, s, w + 1);
                lemma_accounts_after(plan, Entry::Advisory(w as usize), warned(plan, s, w + 1));
            },
            Tier::Confirmable => {
                let m = asking(s, Stage::Warning(w as usize), Pause::Warning(w as usize));
                lemma_accounts_one(plan, m.0, m.1[0]);
            },
            Tier::Hard => {
                lemma_aborting_accounts(plan, s, Cause::Refusal(w as usize));
                lemma_accounts_after(
                    plan,
                    Entry::HardRefusal(w as usize),
                    aborting(plan, s, Cause::Refusal(w as usize)),
                );
            },
        }
    }
}

proof fn lemma_answered_accounts(
    plan: RecoveryPlan,
    s: Executor,
    pause: Pause,
    answer: ConfirmAnswer,
    go: Move,
)
    requires
        underway(plan, s),
        accounts(plan, go),
    ensures
        accounts(plan, answered(plan, s, pause, answer, go)),
{
    let e = Entry::ConfirmAnswer { step: s.step, pause, answer };
    lemma_aborting_accounts(plan, s, Cause::Declined(pause));
    lemma_aborting_accounts(plan, s, Cause::TimedOut(pause));
    lemma_accounts_after(plan, e, go);
    lemma_accounts_after(plan, e, aborting(plan, s, Cause::Declined(pause)));
    lemma_accounts_after(plan, e, aborting(plan, s, Cause::TimedOut(pause)));
}

proof fn lemma_stepped_accounts(plan: RecoveryPlan, s: Executor, event: Event)
    requires
        well_formed(plan, s),
        s.cause is None,
    ensures
        accounts(plan, stepped(plan, s, event)),
{
    let m = stepped(plan, s, event);
    lemma_accounts_one(plan, s, Entry::PlanStart);
    match (s.stage, event) {
        (Stage::Warning(w), Event::Answer(answer)) => {
            lemma_warned_accounts(plan, s, (w + 1) as nat);
            lemma_answered_accounts(
                plan,
                s,
                Pause::Warning(w),
                answer,
                warned(plan, s, (w + 1) as nat),
            );
        },
        (Stage::Gate, Event::Gate(go)) => {
            lemma_aborting_accounts(plan, s, Cause::Gate);
            lemma_accounts_after(
                plan,
                Entry::OperatorDeclined(s.step),
                aborting(plan, s, Cause::Gate),
            );
            let a = asking(s, Stage::StepDebug, Pause::StepDebug);
            lemma_accounts_one(plan, a.0, a.1[0]);
            lemma_accounts_one(plan, at(s, Stage::Recheck), Entry::PlanStart);
        },
        (Stage::StepDebug, Event::Answer(answer)) => {
            lemma_accounts_one(plan, at(s, Stage::Recheck), Entry::PlanStart);
            lemma_answered_accounts(
                plan,
                s,
                Pause::StepDebug,
                answer,
                (at(s, Stage::Recheck), Seq::empty()),
            );
        },
        (Stage::Recheck, Event::Exclusive(Ok(_))) => {
            lemma_running_accounts(plan, s);
            lemma_accounts_one(plan, at(s, Stage::Arm), Entry::PlanStart);
        },
        (Stage::Recheck, Event::Exclusive(Err(reason))) => {
            lemma_aborting_accounts(plan, s, Cause::Exclusivity(reason));
            lemma_accounts_after(
                plan,
                Entry::ExclusivityLost { step: s.step, reason },
                aborting(plan, s, Cause::Exclusivity(reason)),
            );
        },
        (Stage::Arm, Event::Armed(Ok(_))) => {
            lemma_running_accounts(plan, s);
            lemma_accounts_after(plan, Entry::FrameArmed(s.step), running(plan, s));
        },
        (Stage::Arm, Event::Armed(Err(reason))) => {
            lemma_aborting_accounts(plan, s, Cause::Arm(reason));
            lemma_accounts_after(
                plan,
                Entry::FrameArmFailed { step: s.step, reason },
                aborting(plan, s, Cause::Arm(reason)),
            );
        },
        (Stage::Verify { check, again }, Event::Status { reply, distance, expired }) => {
            match reply {
                Err(error) => {
                    lemma_aborting_accounts(plan, s, Cause::Transport(error));
                },
                Ok(status) => {
                    let v = check_of(current(plan, s), check);
                    let value = seen(v, status);
                    let observed = crate::execution::spelling_of(value);
                    let holds = satisfied(
                        v.predicate,
                        value,
                        crate::execution::held_against(s, check),
                        distance,
                    );
                    let e = Entry::Verify { step: s.step, check, observed, holds };
                    let stop = Cause::Verification { check, observed };
                    lemma_aborting_accounts(plan, s, stop);
                    lemma_accounts_after(plan, e, aborting(plan, s, stop));
                    lemma_accounts_one(
                        plan,
                        at(s, Stage::Verify { check, again: true }),
                        Entry::PlanStart,
                    );
                    match check {
                        Check::Pre(k) => {
                            lemma_pre_verifying_accounts(plan, s, (k + 1) as nat);
                        },
                        Check::Post(k) => {
                            lemma_post_verifying_accounts(plan, s, (k + 1) as nat);
                        },
                    }
                    lemma_accounts_after(plan, e, next_check(plan, s, check));
                },
            }
        },
        (Stage::Read(field), Event::Status { reply, distance, expired }) => {
            match read_number(field, reply) {
                Ok(value) => {
                    let machine = Executor { machine_accel: Some(value), ..s };
                    let phase = Executor { phase_accel: Some(value), ..s };
                    lemma_computed_accounts(plan, machine, Some(value));
                    lemma_computed_accounts(plan, phase, Some(value));
                    lemma_accounts_after(
                        plan,
                        Entry::RecordAccel { step: s.step, machine: true, value },
                        computed_as(plan, machine, Some(value)),
                    );
                    lemma_accounts_after(
                        plan,
                        Entry::RecordAccel { step: s.step, machine: false, value },
                        computed_as(plan, phase, Some(value)),
                    );
                    if !(field is Accel) {
                        lemma_accounts_one(plan, m.0, Entry::PlanStart);
                    }
                },
                Err(cause) => {
                    lemma_aborting_accounts(plan, s, cause);
                },
            }
        },
        (Stage::Compute, Event::Computed(Ok(value))) => {
            lemma_computed_accounts(plan, s, Some(value));
            lemma_accounts_after(
                plan,
                Entry::Compute { step: s.step, trigger: s.trigger, height: s.height, value },
                computed_as(plan, s, Some(value)),
            );
        },
        (Stage::Compute, Event::Computed(Err(error))) => {
            lemma_aborting_accounts(plan, s, Cause::Compute(error));
        },
        (Stage::Send(command), Event::Sent(Ok(_))) => {
            lemma_sending_accounts(plan, s, (command + 1) as nat);
            lemma_accounts_after(
                plan,
                Entry::ResponseOk(s.step),
                sending(plan, s, (command + 1) as nat),
            );
        },
        (Stage::Send(command), Event::Sent(Err(error))) => {
            lemma_aborting_accounts(plan, s, Cause::Command(error));
            lemma_accounts_after(
                plan,
                Entry::ResponseError { step: s.step, error },
                aborting(plan, s, Cause::Command(error)),
            );
        },
        (Stage::ReadLiveZ, Event::Status { reply, distance, expired }) => {
            lemma_accounts_one(plan, m.0, m.1[0]);
        },
        (Stage::ZHeight, Event::Answer(answer)) => {
            lemma_post_verifying_accounts(plan, s, 0);
            lemma_answered_accounts(plan, s, Pause::ZHeight, answer, step_done(plan, s));
        },
        (Stage::PreviewRecheck(c), Event::Exclusive(Ok(_))) => {
            lemma_accounts_one(plan, m.0, m.1[0]);
        },
        (Stage::PreviewRecheck(c), Event::Exclusive(Err(reason))) => {
            lemma_aborting_accounts(plan, s, Cause::Exclusivity(reason));
            lemma_accounts_after(
                plan,
                Entry::ExclusivityLost { step: s.step, reason },
                aborting(plan, s, Cause::Exclusivity(reason)),
            );
        },
        (Stage::PreviewMove(c), Event::Sent(Ok(_))) => {
            lemma_accounts_one(plan, m.0, m.1[0]);
        },
        (Stage::PreviewMove(c), Event::Sent(Err(error))) => {
            lemma_aborting_accounts(plan, s, Cause::Command(error));
        },
        (Stage::PreviewAsk(c), Event::Preview(answer)) => {
            lemma_aborting_accounts(plan, s, Cause::NoBinding);
            lemma_aborting_accounts(plan, s, Cause::Declined(Pause::Preview));
            lemma_aborting_accounts(plan, s, Cause::TimedOut(Pause::Preview));
            let rest = preview_rest(plan, s, c, answer);
            lemma_accounts_one(
                plan,
                at(s, Stage::PreviewWrite(c)),
                Entry::PreviewAccept { step: s.step, stop: c.stop },
            );
            if rest.1.len() == 0 && rest.0.cause is None {
                lemma_accounts_one(plan, rest.0, Entry::PlanStart);
                assert(rest.1 =~= Seq::<Entry>::empty());
            }
            lemma_accounts_after(
                plan,
                Entry::PreviewAnswer { step: s.step, choice: answer },
                rest,
            );
        },
        (Stage::PreviewWrite(c), Event::Written(Ok(_))) => {
            lemma_post_verifying_accounts(plan, s, 0);
        },
        (Stage::PreviewWrite(c), Event::Written(Err(reason))) => {
            lemma_aborting_accounts(plan, s, Cause::Write(reason));
            lemma_accounts_after(
                plan,
                Entry::PreviewWriteFailed { step: s.step, reason },
                aborting(plan, s, Cause::Write(reason)),
            );
        },
        _ => {},
    }
}

/// An abort runs every cleanup that is in force, and no other: newest step
/// first and each step's commands in order, whether earlier cleanups succeed or
/// fail. An execution that has not stopped runs none.
pub proof fn an_abort_runs_the_cleanups_in_reverse(plan: RecoveryPlan, events: Seq<Event>)
    ensures
        ({
            let s = played(plan, events).0;
            let shown = cleanups(played(plan, events).1);
            &&& s.cause is None ==> shown == Seq::<(int, int)>::empty()
            &&& s.cause is Some ==> shown + remaining(plan, s) == owed(
                plan,
                s.registered as nat,
                0,
            )
            &&& s.stage is Aborted ==> shown == owed(plan, s.registered as nat, 0)
        }),
    decreases events.len(),
{
    let none = Seq::<(int, int)>::empty();
    every_execution_is_well_formed(plan, events);
    if events.len() == 0 {
        if plan.steps@.len() == 0 {
            lemma_cleanups_one(Entry::PlanStart);
            lemma_cleanups_one(Entry::PlanComplete);
            lemma_cleanups_concat(seq![Entry::PlanStart], seq![Entry::PlanComplete]);
            assert(seq![Entry::PlanStart] + seq![Entry::PlanComplete] =~= seq![
                Entry::PlanStart,
                Entry::PlanComplete,
            ]);
            assert(cleanups(started(plan).1) =~= none);
        } else {
            lemma_warned_accounts(plan, blank(), 0);
            lemma_accounts_after(plan, Entry::PlanStart, warned(plan, blank(), 0));
        }
    } else {
        let less = events.drop_last();
        an_abort_runs_the_cleanups_in_reverse(plan, less);
        every_execution_is_well_formed(plan, less);
        let before = played(plan, less);
        let s = before.0;
        let event = events.last();
        let m = stepped(plan, s, event);
        lemma_cleanups_concat(before.1, m.1);
        if s.cause is None {
            lemma_stepped_accounts(plan, s, event);
            assert(none + cleanups(m.1) =~= cleanups(m.1));
        } else {
            a_stopped_execution_keeps_its_cause(plan, s, event);
            match (s.stage, event) {
                (Stage::Cleanup { step, command }, Event::Sent(fate)) => {
                    let rest = cleaning(plan, s, (step + 1) as nat, (command + 1) as nat);
                    let e = match fate {
                        Ok(_) => Entry::CleanupOk(step),
                        Err(error) => Entry::CleanupError { step, error },
                    };
                    lemma_cleaning_owed(plan, s, (step + 1) as nat, (command + 1) as nat);
                    lemma_cleanups_one(e);
                    lemma_cleanups_concat(seq![e], rest.1);
                    assert(cleanups(m.1) =~= cleanups(rest.1));
                    assert(cleanups(before.1) + cleanups(rest.1) + remaining(plan, rest.0)
                        =~= cleanups(before.1) + (cleanups(rest.1) + remaining(plan, rest.0)));
                },
                _ => {
                    assert(m.1 =~= Seq::<Entry>::empty());
                    assert(cleanups(before.1) + none =~= cleanups(before.1));
                },
            }
        }
    }
    let s = played(plan, events).0;
    let shown = cleanups(played(plan, events).1);
    if s.stage is Aborted {
        assert(shown + none =~= shown);
    }
}

/// No execution continues past a failure: a verification that does not hold by
/// its deadline, a query that fails, a number that is missing or not finite, a
/// computation that fails and a command that fails each stop it, for that
/// cause.
pub proof fn every_failure_stops_the_execution(plan: RecoveryPlan, s: Executor, event: Event)
    requires
        well_formed(plan, s),
        s.cause is None,
    ensures
        match (s.stage, event) {
            (Stage::Verify { check, again }, Event::Status { reply, distance, expired }) => match reply {
                Err(error) => stepped(plan, s, event).0.cause == Some(Cause::Transport(error)),
                Ok(status) => {
                    let v = check_of(current(plan, s), check);
                    let value = seen(v, status);
                    expired && !satisfied(
                        v.predicate,
                        value,
                        crate::execution::held_against(s, check),
                        distance,
                    ) ==> stepped(plan, s, event).0.cause == Some(
                        Cause::Verification {
                            check,
                            observed: crate::execution::spelling_of(value),
                        },
                    )
                },
            },
            (Stage::Read(field), Event::Status { reply, distance, expired }) => read_number(
                field,
                reply,
            ) matches Err(cause) ==> stepped(plan, s, event).0.cause == Some(cause),
            (Stage::Compute, Event::Computed(Err(error))) => stepped(plan, s, event).0.cause
                == Some(Cause::Compute(error)),
            (Stage::Send(_), Event::Sent(Err(error))) => stepped(plan, s, event).0.cause == Some(
                Cause::Command(error),
            ),
            (Stage::PreviewMove(_), Event::Sent(Err(error))) => stepped(plan, s, event).0.cause
                == Some(Cause::Command(error)),
            (Stage::PreviewWrite(_), Event::Written(Err(reason))) => stepped(
                plan,
                s,
                event,
            ).0.cause == Some(Cause::Write(reason)),
            _ => true,
        },
{
    let none = Seq::<Mark>::empty();
    assert(starts(none, full(plan, plan.steps@.len())));
    match (s.stage, event) {
        (Stage::Verify { check, again }, Event::Status { reply, distance, expired }) => {
            match reply {
                Err(error) => {
                    lemma_aborting(plan, none, s, Cause::Transport(error));
                },
                Ok(status) => {
                    let value = seen(check_of(current(plan, s), check), status);
                    lemma_aborting(
                        plan,
                        none,
                        s,
                        Cause::Verification {
                            check,
                            observed: crate::execution::spelling_of(value),
                        },
                    );
                },
            }
        },
        (Stage::Read(field), Event::Status { reply, distance, expired }) => {
            match read_number(field, reply) {
                Err(cause) => {
                    lemma_aborting(plan, none, s, cause);
                },
                Ok(_) => {},
            }
        },
        (Stage::Compute, Event::Computed(Err(error))) => {
            lemma_aborting(plan, none, s, Cause::Compute(error));
        },
        (Stage::Send(_), Event::Sent(Err(error))) => {
            lemma_aborting(plan, none, s, Cause::Command(error));
        },
        (Stage::PreviewMove(_), Event::Sent(Err(error))) => {
            lemma_aborting(plan, none, s, Cause::Command(error));
        },
        (Stage::PreviewWrite(_), Event::Written(Err(reason))) => {
            lemma_aborting(plan, none, s, Cause::Write(reason));
        },
        _ => {},
    }
}

/// A stage that only the preview itself leads to.
spec fn in_preview(stage: Stage) -> bool {
    stage is PreviewMove || stage is PreviewAsk || stage is PreviewWrite
}

proof fn lemma_cleaning_not_preview(plan: RecoveryPlan, s: Executor, steps: nat, command: nat)
    ensures
        !in_preview(cleaning(plan, s, steps, command).0.stage),
        forall|e: int|
            0 <= e < cleaning(plan, s, steps, command).1.len() ==> !((#[trigger] cleaning(
                plan,
                s,
                steps,
                command,
            ).1[e]) is PreviewReposition),
    decreases steps, plan.steps@[steps - 1].cleanup_commands@.len() - command,
{
    if steps > 0 {
        let commands = plan.steps@[steps - 1].cleanup_commands@;
        if command >= commands.len() {
            lemma_cleaning_not_preview(plan, s, (steps - 1) as nat, 0);
        } else if cleanup_text(
            commands[command as int]@,
            spelled(s.phase_accel),
            spelled(s.machine_accel),
        ) is None {
            lemma_cleaning_not_preview(plan, s, steps, command + 1);
        }
    }
}

/// A move that stays out of the preview proper.
spec fn aside(m: Move) -> bool {
    &&& !in_preview(m.0.stage)
    &&& forall|e: int| 0 <= e < m.1.len() ==> !((#[trigger] m.1[e]) is PreviewReposition)
}

proof fn lemma_aborting_aside(plan: RecoveryPlan, s: Executor, cause: Cause)
    ensures
        aside(aborting(plan, s, cause)),
{
    lemma_cleaning_not_preview(
        plan,
        Executor { cause: Some(cause), ..s },
        s.registered as nat,
        0,
    );
}

proof fn lemma_warned_aside(plan: RecoveryPlan, s: Executor, w: nat)
    ensures
        aside(warned(plan, s, w)),
    decreases plan.warnings@.len() - w,
{
    if w < plan.warnings@.len() {
        match plan.warnings@[w as int].tier {
            Tier::Advisory => {
                lemma_warned_aside(plan, s, w + 1);
            },
            Tier::Confirmable => {},
            Tier::Hard => {
                lemma_aborting_aside(plan, s, Cause::Refusal(w as usize));
            },
        }
    }
}

proof fn lemma_sending_aside(plan: RecoveryPlan, s: Executor, command: nat)
    ensures
        aside(sending(plan, s, command)),
        aside(post_verifying(plan, s, command)),
        aside(step_done(plan, s)),
{
    lemma_aborting_aside(plan, s, Cause::Placeholder(Unresolved::NoComputed));
    lemma_aborting_aside(plan, s, Cause::Placeholder(Unresolved::NoMachineAccel));
}

proof fn lemma_computed_aside(plan: RecoveryPlan, s: Executor, value: Option<Reading>)
    ensures
        aside(computed_as(plan, s, value)),
{
    lemma_sending_aside(
        plan,
        Executor { computed: value, registered: (s.step + 1) as usize, ..s },
        0,
    );
}

proof fn lemma_running_aside(plan: RecoveryPlan, s: Executor, index: nat)
    ensures
        aside(pre_verifying(plan, s, index)),
        aside(running(plan, s)),
{
    let t = Executor { computed: None, trigger: None, height: None, ..s };
    lemma_computed_aside(plan, s, s.phase_accel);
    lemma_computed_aside(plan, t, t.phase_accel);
}

/// The preview never moves on stale leave, and never commits a stop nobody
/// accepted. Each hover move follows an exclusive-access check of its own, for
/// the very stop it hovers over; the recovery file is written for a stop only
/// once that stop was accepted, and the writing is not asked for again.
pub proof fn the_preview_moves_and_commits_only_as_told(
    plan: RecoveryPlan,
    s: Executor,
    event: Event,
)
    requires
        well_formed(plan, s),
    ensures
        ({
            let m = stepped(plan, s, event);
            &&& m.0.stage matches Stage::PreviewMove(c) ==> s.stage == m.0.stage || (s.stage
                == Stage::PreviewRecheck(c) && (event matches Event::Exclusive(Ok(_))))
            &&& forall|e: int|
                0 <= e < m.1.len() ==> (#[trigger] m.1[e] matches Entry::PreviewReposition {
                    step,
                    stop,
                } ==> s.stage is PreviewRecheck && (event matches Event::Exclusive(Ok(_)))
                    && s.stage->PreviewRecheck_0.stop == stop)
            &&& m.0.stage matches Stage::PreviewWrite(c) ==> s.stage == m.0.stage || (s.stage
                == Stage::PreviewAsk(c) && event == Event::Preview(PreviewAnswer::Accept))
            &&& s.stage is PreviewWrite && event is Written ==> !(m.0.stage is PreviewWrite)
        }),
{
    match (s.stage, event) {
        (Stage::Warning(w), Event::Answer(answer)) => {
            lemma_aborting_aside(plan, s, Cause::Declined(Pause::Warning(w)));
            lemma_aborting_aside(plan, s, Cause::TimedOut(Pause::Warning(w)));
            lemma_warned_aside(plan, s, (w + 1) as nat);
        },
        (Stage::Gate, Event::Gate(ok)) => {
            lemma_aborting_aside(plan, s, Cause::Gate);
        },
        (Stage::StepDebug, Event::Answer(answer)) => {
            lemma_aborting_aside(plan, s, Cause::Declined(Pause::StepDebug));
            lemma_aborting_aside(plan, s, Cause::TimedOut(Pause::StepDebug));
        },
        (Stage::Recheck, Event::Exclusive(Ok(_))) => {
            lemma_running_aside(plan, s, 0);
        },
        (Stage::Recheck, Event::Exclusive(Err(reason))) => {
            lemma_aborting_aside(plan, s, Cause::Exclusivity(reason));
        },
        (Stage::Arm, Event::Armed(Ok(_))) => {
            lemma_running_aside(plan, s, 0);
        },
        (Stage::Arm, Event::Armed(Err(reason))) => {
            lemma_aborting_aside(plan, s, Cause::Arm(reason));
        },
        (Stage::Verify { check, again }, Event::Status { reply, distance, expired }) => {
            match reply {
                Err(error) => {
                    lemma_aborting_aside(plan, s, Cause::Transport(error));
                },
                Ok(status) => {
                    let value = seen(check_of(current(plan, s), check), status);
                    lemma_aborting_aside(
                        plan,
                        s,
                        Cause::Verification {
                            check,
                            observed: crate::execution::spelling_of(value),
                        },
                    );
                    match check {
                        Check::Pre(k) => {
                            lemma_running_aside(plan, s, (k + 1) as nat);
                        },
                        Check::Post(k) => {
                            lemma_sending_aside(plan, s, (k + 1) as nat);
                        },
                    }
                },
            }
        },
        (Stage::Read(field), Event::Status { reply, distance, expired }) => {
            match read_number(field, reply) {
                Ok(value) => {
                    lemma_computed_aside(
                        plan,
                        Executor { machine_accel: Some(value), ..s },
                        Some(value),
                    );
                    lemma_computed_aside(
                        plan,
                        Executor { phase_accel: Some(value), ..s },
                        Some(value),
                    );
                },
                Err(cause) => {
                    lemma_aborting_aside(plan, s, cause);
                },
            }
        },
        (Stage::Compute, Event::Computed(Ok(value))) => {
            lemma_computed_aside(plan, s, Some(value));
        },
        (Stage::Compute, Event::Computed(Err(error))) => {
            lemma_aborting_aside(plan, s, Cause::Compute(error));
        },
        (Stage::Send(command), Event::Sent(Ok(_))) => {
            lemma_sending_aside(plan, s, (command + 1) as nat);
        },
        (Stage::Send(command), Event::Sent(Err(error))) => {
            lemma_aborting_aside(plan, s, Cause::Command(error));
        },
        (Stage::ZHeight, Event::Answer(answer)) => {
            lemma_aborting_aside(plan, s, Cause::Declined(Pause::ZHeight));
            lemma_aborting_aside(plan, s, Cause::TimedOut(Pause::ZHeight));
        },
        (Stage::PreviewRecheck(c), Event::Exclusive(Err(reason))) => {
            lemma_aborting_aside(plan, s, Cause::Exclusivity(reason));
        },
        (Stage::PreviewMove(c), Event::Sent(Err(error))) => {
            lemma_aborting_aside(plan, s, Cause::Command(error));
        },
        (Stage::PreviewAsk(c), Event::Preview(answer)) => {
            lemma_aborting_aside(plan, s, Cause::NoBinding);
            lemma_aborting_aside(plan, s, Cause::Declined(Pause::Preview));
            lemma_aborting_aside(plan, s, Cause::TimedOut(Pause::Preview));
        },
        (Stage::PreviewWrite(c), Event::Written(Err(reason))) => {
            lemma_aborting_aside(plan, s, Cause::Write(reason));
        },
        (Stage::Cleanup { step, command }, Event::Sent(_)) => {
            lemma_cleaning_not_preview(plan, s, (step + 1) as nat, (command + 1) as nat);
        },
        _ => {},
    }
}

} // verus!
