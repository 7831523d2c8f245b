//! What an execution has seen of the printer by the time it acts on it: no command
//! before its checks hold, and every value from the field it belongs to.

use vstd::prelude::*;

use crate::clearance::stood;
use crate::execution::{
    aborting, at, blank, check_of, cleaning, current, read_number, sending, spelling_of, stepped,
    warned, well_formed, Cause, Check, Entry, Event, Executor, Field, Move, Pause, Stage,
};
use crate::executor::PreviewAnswer;
use crate::guarantees::{every_execution_is_well_formed, played};
use crate::json::{looked_up, Json, Kind};
use crate::number::{Num, Reading};
use crate::plan::{
    satisfied, Predicate, PreviewSpec, RecoveryPlan, RuntimeComputation, Tier, Unresolved,
};
use crate::preview::{moved, Cursor};
use crate::verdicts::{a_temperature_passes_exactly_within_its_bounds, is_a_number, reports, worth};

verus! {

/// The check `j` before a step's commands.
pub open spec fn first_check(j: int) -> Check {
    Check::Pre(j as usize)
}

/// The check `j` behind a step's commands.
pub open spec fn last_check(j: int) -> Check {
    Check::Post(j as usize)
}

/// The value that a verification is held against when it measures a distance from
/// the step's own: none before the step has sent anything.
pub open spec fn step_value(s: Executor, check: Check) -> Option<Num> {
    match check {
        Check::Pre(_) => None,
        Check::Post(_) => match s.computed {
            Some(reading) => Some(reading.num),
            None => None,
        },
    }
}

/// An execution that waits for `check` is told a status in which it holds: the
/// value under the check's own object and field satisfies its predicate.
pub open spec fn held_now(plan: RecoveryPlan, s: Executor, event: Event, check: Check) -> bool {
    let step = plan.steps@[s.step as int];
    let v = match check {
        Check::Pre(j) => step.pre_verify@[j as int],
        Check::Post(j) => step.verify@[j as int],
    };
    &&& s.stage matches Stage::Verify { check: c, .. }
    &&& c == check
    &&& event matches Event::Status { reply: Ok(status), distance, .. }
    &&& satisfied(
        v.predicate,
        looked_up(status, v.object@, v.field@),
        step_value(s, check),
        distance,
    )
}

/// At some moment `check` of step `i` was seen to hold.
pub open spec fn was_seen_to_hold(
    plan: RecoveryPlan,
    events: Seq<Event>,
    i: int,
    check: Check,
) -> bool {
    exists|k: int|
        0 <= k < events.len() && (#[trigger] stood(plan, events, k)).step == i && held_now(
            plan,
            stood(plan, events, k),
            events[k],
            check,
        )
}

/// How many of the checks before the step's commands lie behind an execution.
pub open spec fn pre_behind(plan: RecoveryPlan, s: Executor) -> int {
    match s.stage {
        Stage::Verify { check: Check::Pre(j), .. } => j as int,
        Stage::Verify { check: Check::Post(_), .. } => current(plan, s).pre_verify@.len() as int,
        Stage::Read(_) => current(plan, s).pre_verify@.len() as int,
        Stage::Compute => current(plan, s).pre_verify@.len() as int,
        Stage::Send(_) => current(plan, s).pre_verify@.len() as int,
        _ => 0,
    }
}

/// How many of the checks behind the step's commands lie behind an execution.
pub open spec fn post_behind(plan: RecoveryPlan, s: Executor) -> int {
    match s.stage {
        Stage::Verify { check: Check::Post(j), .. } => j as int,
        _ => 0,
    }
}

/// Every check before the commands lies behind, but for the one that holds now.
spec fn pre_all(plan: RecoveryPlan, s: Executor, event: Event) -> bool {
    forall|j: int|
        pre_behind(plan, s) <= j < current(plan, s).pre_verify@.len() ==> held_now(
            plan,
            s,
            event,
            #[trigger] first_check(j),
        )
}

spec fn post_all(plan: RecoveryPlan, s: Executor, event: Event) -> bool {
    forall|j: int|
        post_behind(plan, s) <= j < current(plan, s).verify@.len() ==> held_now(
            plan,
            s,
            event,
            #[trigger] last_check(j),
        )
}

/// The log shows neither a command sent nor a step done.
pub open spec fn quiet_log(log: Seq<Entry>) -> bool {
    forall|e: int| 0 <= e < log.len() ==> !((#[trigger] log[e]) is Send) && !(log[e] is StepOk)
}

/// What a move from `s` may show and where it may lead.
spec fn lawful(plan: RecoveryPlan, s: Executor, event: Event, m: Move) -> bool {
    let t = m.0;
    &&& t.cause is None ==> {
        &&& t.step == s.step ==> {
            &&& pre_behind(plan, t) > pre_behind(plan, s) ==> forall|j: int|
                pre_behind(plan, s) <= j < pre_behind(plan, t) ==> held_now(
                    plan,
                    s,
                    event,
                    #[trigger] first_check(j),
                )
            &&& post_behind(plan, t) > post_behind(plan, s) ==> forall|j: int|
                post_behind(plan, s) <= j < post_behind(plan, t) ==> held_now(
                    plan,
                    s,
                    event,
                    #[trigger] last_check(j),
                )
        }
        &&& t.step != s.step ==> pre_behind(plan, t) == 0 && post_behind(plan, t) == 0
    }
    &&& forall|e: int|
        0 <= e < m.1.len() ==> {
            &&& (#[trigger] m.1[e]) matches Entry::Send { step, .. } ==> step == s.step && pre_all(
                plan,
                s,
                event,
            )
            &&& m.1[e] matches Entry::StepOk(step) ==> step == s.step && post_all(plan, s, event)
        }
}

proof fn lemma_cleaning(plan: RecoveryPlan, s: Executor, steps: nat, command: nat)
    ensures
        ({
            let m = cleaning(plan, s, steps, command);
            &&& m.0 == at(s, m.0.stage)
            &&& quiet_log(m.1)
            &&& forall|e: int| 0 <= e < m.1.len() ==> !((#[trigger] m.1[e]) is RecordAccel) && !(
            m.1[e] is Compute)
        }),
    decreases steps, plan.steps@[steps - 1].cleanup_commands@.len() - command,
{
    if steps > 0 {
        let commands = plan.steps@[steps - 1].cleanup_commands@;
        if command >= commands.len() {
            lemma_cleaning(plan, s, (steps - 1) as nat, 0);
        } else {
            lemma_cleaning(plan, s, steps, command + 1);
        }
    }
}

proof fn lemma_aborting(plan: RecoveryPlan, s: Executor, cause: Cause)
    ensures
        ({
            let m = aborting(plan, s, cause);
            &&& m.0.cause == Some(cause)
            &&& m.0 == (Executor { stage: m.0.stage, cause: Some(cause), ..s })
            &&& quiet_log(m.1)
            &&& forall|e: int| 0 <= e < m.1.len() ==> !((#[trigger] m.1[e]) is RecordAccel) && !(
            m.1[e] is Compute)
        }),
{
    lemma_cleaning(plan, Executor { cause: Some(cause), ..s }, s.registered as nat, 0);
}

proof fn lemma_warned(plan: RecoveryPlan, s: Executor, w: nat)
    ensures
        ({
            let m = warned(plan, s, w);
            &&& m.0 == (Executor { stage: m.0.stage, cause: m.0.cause, ..s })
            &&& m.0.cause is Some || m.0.cause == s.cause
            &&& m.0.cause == s.cause && s.cause is None ==> m.0.stage is Warning || m.0.stage is Gate
            &&& quiet_log(m.1)
            &&& forall|e: int| 0 <= e < m.1.len() ==> !((#[trigger] m.1[e]) is RecordAccel) && !(
            m.1[e] is Compute)
        }),
    decreases plan.warnings@.len() - w,
{
    if w < plan.warnings@.len() {
        match plan.warnings@[w as int].tier {
            Tier::Advisory => {
                lemma_warned(plan, s, w + 1);
            },
            Tier::Confirmable => {},
            Tier::Hard => {
                lemma_aborting(plan, s, Cause::Refusal(w as usize));
            },
        }
    }
}

/// The moves inside one step, from its first command on.
proof fn lemma_sending(plan: RecoveryPlan, s: Executor, command: nat)
    ensures
        ({
            let m = sending(plan, s, command);
            let t = m.0;
            &&& t == (Executor { stage: t.stage, step: t.step, cause: t.cause, ..s })
            &&& t.cause is Some || t.cause == s.cause
            &&& t.cause is Some && s.cause is None ==> quiet_log(m.1)
            &&& command < current(plan, s).commands@.len() && t.cause == s.cause && s.cause is None
                ==> t.step == s.step && t.stage is Send
            &&& forall|e: int|
                0 <= e < m.1.len() ==> {
                    &&& (#[trigger] m.1[e]) matches Entry::Send { step, .. } ==> step == s.step
                    &&& m.1[e] matches Entry::StepOk(step) ==> step == s.step
                        && current(plan, s).verify@.len() == 0 && command >= current(
                        plan,
                        s,
                    ).commands@.len()
                    &&& !(m.1[e] is RecordAccel) && !(m.1[e] is Compute)
                }
            &&& t.cause is None && t.step == s.step ==> pre_behind(plan, t) <= current(
                plan,
                s,
            ).pre_verify@.len() && post_behind(plan, t) == 0
            &&& t.step != s.step ==> pre_behind(plan, t) == 0 && post_behind(plan, t) == 0
        }),
{
    lemma_aborting(
        plan,
        s,
        Cause::Placeholder(Unresolved::NoComputed),
    );
    lemma_aborting(
        plan,
        s,
        Cause::Placeholder(Unresolved::NoMachineAccel),
    );
}

/// No move shows a command sent or a step done, or gets past a check, unless the
/// check in question holds of what it was told.
#[verifier::rlimit(60)]
#[verifier::spinoff_prover]
proof fn lemma_lawful(plan: RecoveryPlan, s: Executor, event: Event)
    requires
        well_formed(plan, s),
        s.cause is None,
    ensures
        lawful(plan, s, event, stepped(plan, s, event)),
{
    let m = stepped(plan, s, event);
    match (s.stage, event) {
        (Stage::Warning(w), Event::Answer(answer)) => {
            lemma_warned(plan, s, (w + 1) as nat);
            lemma_aborting(plan, s, Cause::Declined(Pause::Warning(w)));
            lemma_aborting(plan, s, Cause::TimedOut(Pause::Warning(w)));
        },
        (Stage::Gate, Event::Gate(ok)) => {
            lemma_aborting(plan, s, Cause::Gate);
        },
        (Stage::StepDebug, Event::Answer(answer)) => {
            lemma_aborting(plan, s, Cause::Declined(Pause::StepDebug));
            lemma_aborting(plan, s, Cause::TimedOut(Pause::StepDebug));
        },
        (Stage::Recheck, Event::Exclusive(Ok(_))) => {
            let s2 = Executor { computed: None, trigger: None, height: None, ..s };
            lemma_sending(
                plan,
                Executor { computed: s2.phase_accel, registered: (s2.step + 1) as usize, ..s2 },
                0,
            );
        },
        (Stage::Recheck, Event::Exclusive(Err(reason))) => {
            lemma_aborting(plan, s, Cause::Exclusivity(reason));
        },
        (Stage::Arm, Event::Armed(Ok(_))) => {
            let s2 = Executor { computed: None, trigger: None, height: None, ..s };
            lemma_sending(
                plan,
                Executor { computed: s2.phase_accel, registered: (s2.step + 1) as usize, ..s2 },
                0,
            );
        },
        (Stage::Arm, Event::Armed(Err(reason))) => {
            lemma_aborting(plan, s, Cause::Arm(reason));
        },
        (Stage::Verify { check, again }, Event::Status { reply, distance, expired }) => {
            lemma_lawful_check(plan, s, check, again, event);
        },
        (Stage::Read(field), Event::Status { reply, distance, expired }) => {
            match read_number(field, reply) {
                Ok(value) => {
                    let a = Executor { machine_accel: Some(value), ..s };
                    let b = Executor { phase_accel: Some(value), ..s };
                    lemma_sending(
                        plan,
                        Executor { computed: Some(value), registered: (s.step + 1) as usize, ..a },
                        0,
                    );
                    lemma_sending(
                        plan,
                        Executor { computed: Some(value), registered: (s.step + 1) as usize, ..b },
                        0,
                    );
                },
                Err(cause) => {
                    lemma_aborting(plan, s, cause);
                },
            }
        },
        (Stage::Compute, Event::Computed(Ok(value))) => {
            lemma_sending(
                plan,
                Executor { computed: Some(value), registered: (s.step + 1) as usize, ..s },
                0,
            );
        },
        (Stage::Compute, Event::Computed(Err(error))) => {
            lemma_aborting(plan, s, Cause::Compute(error));
        },
        (Stage::Send(command), Event::Sent(Ok(_))) => {
            lemma_sending(plan, s, (command + 1) as nat);
        },
        (Stage::Send(command), Event::Sent(Err(error))) => {
            lemma_aborting(plan, s, Cause::Command(error));
        },
        (Stage::ZHeight, Event::Answer(answer)) => {
            lemma_aborting(plan, s, Cause::Declined(Pause::ZHeight));
            lemma_aborting(plan, s, Cause::TimedOut(Pause::ZHeight));
        },
        (Stage::PreviewRecheck(c), Event::Exclusive(Err(reason))) => {
            lemma_aborting(plan, s, Cause::Exclusivity(reason));
        },
        (Stage::PreviewMove(c), Event::Sent(Err(error))) => {
            lemma_aborting(plan, s, Cause::Command(error));
        },
        (Stage::PreviewAsk(c), Event::Preview(answer)) => {
            lemma_aborting(plan, s, Cause::NoBinding);
            lemma_aborting(plan, s, Cause::Declined(Pause::Preview));
            lemma_aborting(plan, s, Cause::TimedOut(Pause::Preview));
        },
        (Stage::PreviewWrite(c), Event::Written(Err(reason))) => {
            lemma_aborting(plan, s, Cause::Write(reason));
        },
        _ => {},
    }
}

#[verifier::rlimit(40)]
#[verifier::spinoff_prover]
proof fn lemma_lawful_check(
    plan: RecoveryPlan,
    s: Executor,
    check: Check,
    again: bool,
    event: Event,
)
    requires
        well_formed(plan, s),
        s.cause is None,
        s.stage == (Stage::Verify { check, again }),
        event is Status,
    ensures
        lawful(plan, s, event, stepped(plan, s, event)),
{
    if let Event::Status { reply, distance, expired } = event {
        match reply {
            Err(error) => {
                lemma_aborting(plan, s, Cause::Transport(error));
            },
            Ok(status) => {
                let v = check_of(current(plan, s), check);
                let value = looked_up(status, v.object@, v.field@);
                lemma_aborting(
                    plan,
                    s,
                    Cause::Verification {
                        check,
                        observed: spelling_of(value),
                    },
                );
                lemma_sending(
                    plan,
                    Executor { computed: s.phase_accel, registered: (s.step + 1) as usize, ..s },
                    0,
                );
                match check {
                    Check::Pre(j) => {
                        if satisfied(v.predicate, value, None, distance) {
                            assert(first_check(j as int) == check);
                            assert(held_now(plan, s, event, first_check(j as int)));
                        }
                    },
                    Check::Post(j) => {
                        if satisfied(v.predicate, value, step_value(s, check), distance) {
                            assert(last_check(j as int) == check);
                            assert(held_now(plan, s, event, last_check(j as int)));
                        }
                    },
                }
            },
        }
    }
}

proof fn lemma_seen_grows(plan: RecoveryPlan, events: Seq<Event>, i: int, check: Check)
    requires
        events.len() > 0,
        was_seen_to_hold(plan, events.drop_last(), i, check),
    ensures
        was_seen_to_hold(plan, events, i, check),
{
    let less = events.drop_last();
    let k = choose|k: int|
        0 <= k < less.len() && (#[trigger] stood(plan, less, k)).step == i && held_now(
            plan,
            stood(plan, less, k),
            less[k],
            check,
        );
    assert(less.take(k) =~= events.take(k));
    assert(stood(plan, events, k) == stood(plan, less, k));
}

proof fn lemma_seen_now(plan: RecoveryPlan, events: Seq<Event>, check: Check)
    requires
        events.len() > 0,
        held_now(plan, played(plan, events.drop_last()).0, events.last(), check),
    ensures
        was_seen_to_hold(plan, events, played(plan, events.drop_last()).0.step as int, check),
{
    let k = events.len() - 1;
    assert(events.take(k) =~= events.drop_last());
    assert(stood(plan, events, k) == played(plan, events.drop_last()).0);
}

/// Of every check that lies behind an execution it was seen that it held.
pub open spec fn seen_behind(plan: RecoveryPlan, events: Seq<Event>, s: Executor) -> bool {
    &&& forall|j: int|
        0 <= j < pre_behind(plan, s) ==> was_seen_to_hold(
            plan,
            events,
            s.step as int,
            #[trigger] first_check(j),
        )
    &&& forall|j: int|
        0 <= j < post_behind(plan, s) ==> was_seen_to_hold(
            plan,
            events,
            s.step as int,
            #[trigger] last_check(j),
        )
}

/// What one entry of the log shows was allowed by what was seen.
pub open spec fn allowed(plan: RecoveryPlan, events: Seq<Event>, entry: Entry) -> bool {
    &&& entry matches Entry::Send { step, .. } ==> forall|j: int|
        0 <= j < plan.steps@[step as int].pre_verify@.len() ==> was_seen_to_hold(
            plan,
            events,
            step as int,
            #[trigger] first_check(j),
        )
    &&& entry matches Entry::StepOk(step) ==> forall|j: int|
        0 <= j < plan.steps@[step as int].verify@.len() ==> was_seen_to_hold(
            plan,
            events,
            step as int,
            #[trigger] last_check(j),
        )
}

/// No command of a step is sent before each of the checks that come first was seen
/// to hold of the printer's own status, and no step is done before each of those
/// that come last was.
pub proof fn nothing_is_sent_or_done_unchecked(plan: RecoveryPlan, events: Seq<Event>)
    ensures
        played(plan, events).0.cause is None ==> seen_behind(
            plan,
            events,
            played(plan, events).0,
        ),
        forall|e: int|
            0 <= e < played(plan, events).1.len() ==> allowed(
                plan,
                events,
                #[trigger] played(plan, events).1[e],
            ),
    decreases events.len(),
{
    let now = played(plan, events);
    if events.len() == 0 {
        lemma_warned(plan, blank(), 0);
    } else {
        let less = events.drop_last();
        let was = played(plan, less);
        let s = was.0;
        let event = events.last();
        let m = stepped(plan, s, event);
        every_execution_is_well_formed(plan, less);
        nothing_is_sent_or_done_unchecked(plan, less);
        if s.cause is Some {
            lemma_stopped(plan, s, event);
        } else {
            lemma_lawful(plan, s, event);
        }
        assert(now == (m.0, was.1 + m.1));
        assert forall|e: int| 0 <= e < now.1.len() implies allowed(
            plan,
            events,
            #[trigger] now.1[e],
        ) by {
            if e < was.1.len() {
                assert(now.1[e] == was.1[e]);
                lemma_allowed_grows(plan, events, was.1[e]);
            } else {
                assert(now.1[e] == m.1[e - was.1.len()]);
                let entry = m.1[e - was.1.len()];
                if s.cause is None {
                    lemma_allowed_now(plan, events, entry);
                }
            }
        }
        if s.cause is None && m.0.cause is None {
            lemma_behind_now(plan, events);
        }
    }
}

proof fn lemma_stopped(plan: RecoveryPlan, s: Executor, event: Event)
    requires
        well_formed(plan, s),
        s.cause is Some,
    ensures
        stepped(plan, s, event).0.cause == s.cause,
        quiet_log(stepped(plan, s, event).1),
{
    if let (Stage::Cleanup { step, command }, Event::Sent(_)) = (s.stage, event) {
        lemma_cleaning(plan, s, (step + 1) as nat, (command + 1) as nat);
    }
}

proof fn lemma_allowed_grows(plan: RecoveryPlan, events: Seq<Event>, entry: Entry)
    requires
        events.len() > 0,
        allowed(plan, events.drop_last(), entry),
    ensures
        allowed(plan, events, entry),
{
    if let Entry::Send { step, command } = entry {
        assert forall|j: int| 0 <= j < plan.steps@[step as int].pre_verify@.len() implies was_seen_to_hold(
            plan,
            events,
            step as int,
            #[trigger] first_check(j),
        ) by {
            lemma_seen_grows(plan, events, step as int, first_check(j));
        }
    }
    if let Entry::StepOk(step) = entry {
        assert forall|j: int| 0 <= j < plan.steps@[step as int].verify@.len() implies was_seen_to_hold(
            plan,
            events,
            step as int,
            #[trigger] last_check(j),
        ) by {
            lemma_seen_grows(plan, events, step as int, last_check(j));
        }
    }
}

proof fn lemma_allowed_now(plan: RecoveryPlan, events: Seq<Event>, entry: Entry)
    requires
        events.len() > 0,
        seen_behind(plan, events.drop_last(), played(plan, events.drop_last()).0),
        ({
            let s = played(plan, events.drop_last()).0;
            &&& entry matches Entry::Send { step, .. } ==> step == s.step && pre_all(
                plan,
                s,
                events.last(),
            )
            &&& entry matches Entry::StepOk(step) ==> step == s.step && post_all(
                plan,
                s,
                events.last(),
            )
        }),
    ensures
        allowed(plan, events, entry),
{
    let s = played(plan, events.drop_last()).0;
    if let Entry::Send { step, command } = entry {
        assert forall|j: int| 0 <= j < plan.steps@[step as int].pre_verify@.len() implies was_seen_to_hold(
            plan,
            events,
            step as int,
            #[trigger] first_check(j),
        ) by {
            if j < pre_behind(plan, s) {
                lemma_seen_grows(plan, events, step as int, first_check(j));
            } else {
                lemma_seen_now(plan, events, first_check(j));
            }
        }
    }
    if let Entry::StepOk(step) = entry {
        assert forall|j: int| 0 <= j < plan.steps@[step as int].verify@.len() implies was_seen_to_hold(
            plan,
            events,
            step as int,
            #[trigger] last_check(j),
        ) by {
            if j < post_behind(plan, s) {
                lemma_seen_grows(plan, events, step as int, last_check(j));
            } else {
                lemma_seen_now(plan, events, last_check(j));
            }
        }
    }
}

proof fn lemma_behind_now(plan: RecoveryPlan, events: Seq<Event>)
    requires
        events.len() > 0,
        played(plan, events).0.cause is None,
        seen_behind(plan, events.drop_last(), played(plan, events.drop_last()).0),
        lawful(
            plan,
            played(plan, events.drop_last()).0,
            events.last(),
            stepped(plan, played(plan, events.drop_last()).0, events.last()),
        ),
    ensures
        seen_behind(plan, events, played(plan, events).0),
{
    let s = played(plan, events.drop_last()).0;
    let event = events.last();
    let t = played(plan, events).0;
    assert(t == stepped(plan, s, event).0);
    assert forall|j: int| 0 <= j < pre_behind(plan, t) implies was_seen_to_hold(
        plan,
        events,
        t.step as int,
        #[trigger] first_check(j),
    ) by {
        if j < pre_behind(plan, s) {
            lemma_seen_grows(plan, events, s.step as int, first_check(j));
        } else {
            assert(held_now(plan, s, event, first_check(j)));
            lemma_seen_now(plan, events, first_check(j));
        }
    }
    assert forall|j: int| 0 <= j < post_behind(plan, t) implies was_seen_to_hold(
        plan,
        events,
        t.step as int,
        #[trigger] last_check(j),
    ) by {
        if j < post_behind(plan, s) {
            lemma_seen_grows(plan, events, s.step as int, last_check(j));
        } else {
            assert(held_now(plan, s, event, last_check(j)));
            lemma_seen_now(plan, events, last_check(j));
        }
    }
}

/// A status shows a number under `object` and `field` that is within the bounds.
pub open spec fn shows_within(
    event: Event,
    object: Seq<char>,
    field: Seq<char>,
    min: Num,
    max: Num,
) -> bool {
    &&& event matches Event::Status { reply: Ok(status), .. }
    &&& looked_up(status, object, field) matches Some(v)
    &&& v.kind matches Kind::Number(n)
    &&& is_a_number(n.reading.num)
    &&& worth(min) <= worth(n.reading.num) <= worth(max)
}

/// No command of a step is sent while one of its temperatures reads above the upper
/// bound, or below the lower: before the first of them the printer itself reported,
/// at that check, a number between the two.
pub proof fn nothing_is_sent_outside_a_temperature_bound(
    plan: RecoveryPlan,
    events: Seq<Event>,
    e: int,
    step: usize,
    command: usize,
    j: int,
    min: Num,
    max: Num,
)
    requires
        0 <= e < played(plan, events).1.len(),
        played(plan, events).1[e] == (Entry::Send { step, command }),
        0 <= j < plan.steps@[step as int].pre_verify@.len(),
        plan.steps@[step as int].pre_verify@[j].predicate == (Predicate::TempWithin { min, max }),
        is_a_number(min) && is_a_number(max),
    ensures
        exists|k: int|
            0 <= k < events.len() && (#[trigger] stood(plan, events, k)).step == step && stood(
                plan,
                events,
                k,
            ).stage is Verify && shows_within(
                events[k],
                plan.steps@[step as int].pre_verify@[j].object@,
                plan.steps@[step as int].pre_verify@[j].field@,
                min,
                max,
            ),
{
    nothing_is_sent_or_done_unchecked(plan, events);
    assert(allowed(plan, events, played(plan, events).1[e]));
    let check = first_check(j);
    assert(plan.steps@[step as int].pre_verify@.len() == plan.steps@[step as int].pre_verify.len());
    assert(was_seen_to_hold(plan, events, step as int, check));
    let k = choose|k: int|
        0 <= k < events.len() && (#[trigger] stood(plan, events, k)).step == step && held_now(
            plan,
            stood(plan, events, k),
            events[k],
            check,
        );
    let v = plan.steps@[step as int].pre_verify@[j];
    if let Event::Status { reply: Ok(status), distance, expired } = events[k] {
        if let Some(value) = looked_up(status, v.object@, v.field@) {
            if let Kind::Number(n) = value.kind {
                a_temperature_passes_exactly_within_its_bounds(
                    min,
                    max,
                    value,
                    n.reading,
                    None,
                    distance,
                );
            }
        }
        assert(shows_within(events[k], v.object@, v.field@, min, max));
    }
}

/// A check that does not hold lets nothing through: before its deadline it is only
/// asked for again, with nothing sent and nothing recorded, and behind it the
/// execution stops. A check that holds is recorded as held, and never stops it for
/// its own sake.
pub proof fn a_check_that_fails_lets_nothing_through(
    plan: RecoveryPlan,
    s: Executor,
    check: Check,
    again: bool,
    status: Json,
    distance: Option<Num>,
    expired: bool,
)
    requires
        well_formed(plan, s),
        s.cause is None,
        s.stage == (Stage::Verify { check, again }),
    ensures
        ({
            let event = Event::Status { reply: Ok(status), distance, expired };
            let m = stepped(plan, s, event);
            let holds = held_now(plan, s, event, check);
            &&& !holds && !expired ==> m.0 == at(s, Stage::Verify { check, again: true })
                && m.1.len() == 0
            &&& !holds && expired ==> (m.0.cause matches Some(Cause::Verification { check: c, .. })
                && c == check) && quiet_log(m.1)
            &&& holds || expired ==> m.1.len() > 0 && (m.1[0] matches Entry::Verify {
                step,
                check: c,
                holds: h,
                ..
            } && step == s.step && c == check && h == holds)
        }),
{
    let v = check_of(current(plan, s), check);
    let value = looked_up(status, v.object@, v.field@);
    lemma_aborting(
        plan,
        s,
        Cause::Verification { check, observed: spelling_of(value) },
    );
}

/// The status reports this number as the acceleration limit in force.
pub open spec fn reports_accel(event: Event, reading: Reading) -> bool {
    &&& event matches Event::Status { reply: Ok(status), .. }
    &&& looked_up(status, "toolhead"@, "max_accel"@) matches Some(v)
    &&& reports(v, reading)
    &&& reading.num.finite()
}

/// The two accelerations are kept apart, and nothing but the step that records one
/// changes it: the printer's own is the one read by the step that records it, the
/// one in force before the clamp by the other.
#[verifier::rlimit(60)]
#[verifier::spinoff_prover]
pub proof fn the_accelerations_are_kept_apart(plan: RecoveryPlan, s: Executor, event: Event)
    requires
        well_formed(plan, s),
    ensures
        ({
            let t = stepped(plan, s, event).0;
            let compute = plan.steps@[s.step as int].compute;
            &&& t.machine_accel != s.machine_accel ==> {
                &&& s.stage == Stage::Read(Field::Accel)
                &&& compute == Some(RuntimeComputation::RecordMachineAccel)
            }
            &&& t.phase_accel != s.phase_accel ==> {
                &&& s.stage == Stage::Read(Field::Accel)
                &&& compute != Some(RuntimeComputation::RecordMachineAccel)
            }
            &&& s.stage == Stage::Read(Field::Accel) ==> forall|reading: Reading| #[trigger]
                reports_accel(event, reading) ==> if compute == Some(
                    RuntimeComputation::RecordMachineAccel,
                ) {
                    t.machine_accel == Some(reading)
                } else {
                    t.phase_accel == Some(reading)
                }
        }),
{
    lemma_readings(plan, s, event);
}

/// Nothing of an execution changes but by the event that it is about: which of its
/// values a move may change, and to what.
spec fn keeps(plan: RecoveryPlan, s: Executor, event: Event) -> bool {
    let m = stepped(plan, s, event);
    let t = m.0;
    let reading = s.stage == Stage::Read(Field::Accel) && event is Status;
    &&& !reading ==> t.machine_accel == s.machine_accel && t.phase_accel == s.phase_accel
    &&& t.registered == s.registered || t.registered == s.step + 1
    &&& forall|e: int|
        0 <= e < m.1.len() ==> {
            &&& (#[trigger] m.1[e]) is Send ==> t.registered == s.step + 1 || t.registered
                == s.registered && s.stage is Send
            &&& m.1[e] is RecordAccel ==> reading
            &&& m.1[e] is Compute ==> s.stage == Stage::Compute
        }
}

#[verifier::rlimit(60)]
#[verifier::spinoff_prover]
proof fn lemma_readings(plan: RecoveryPlan, s: Executor, event: Event)
    requires
        well_formed(plan, s),
    ensures
        keeps(plan, s, event),
        s.stage == Stage::Read(Field::Accel) ==> {
            let t = stepped(plan, s, event).0;
            let machine = plan.steps@[s.step as int].compute == Some(
                RuntimeComputation::RecordMachineAccel,
            );
            &&& machine ==> t.phase_accel == s.phase_accel
            &&& !machine ==> t.machine_accel == s.machine_accel
            &&& forall|reading: Reading| #[trigger]
                reports_accel(event, reading) ==> if machine {
                    t.machine_accel == Some(reading)
                } else {
                    t.phase_accel == Some(reading)
                }
        },
{
    let s2 = Executor { computed: None, trigger: None, height: None, ..s };
    assert(plan.steps@.len() == plan.steps.len());
    match (s.stage, event) {
        (Stage::Warning(w), Event::Answer(answer)) => {
            lemma_warned(plan, s, (w + 1) as nat);
            lemma_aborting(plan, s, Cause::Declined(Pause::Warning(w)));
            lemma_aborting(plan, s, Cause::TimedOut(Pause::Warning(w)));
        },
        (Stage::Gate, Event::Gate(ok)) => {
            lemma_aborting(plan, s, Cause::Gate);
        },
        (Stage::StepDebug, Event::Answer(answer)) => {
            lemma_aborting(plan, s, Cause::Declined(Pause::StepDebug));
            lemma_aborting(plan, s, Cause::TimedOut(Pause::StepDebug));
        },
        (Stage::Recheck, Event::Exclusive(Ok(_))) => {
            lemma_sending(
                plan,
                Executor { computed: s2.phase_accel, registered: (s2.step + 1) as usize, ..s2 },
                0,
            );
        },
        (Stage::Recheck, Event::Exclusive(Err(reason))) => {
            lemma_aborting(plan, s, Cause::Exclusivity(reason));
        },
        (Stage::Arm, Event::Armed(Ok(_))) => {
            lemma_sending(
                plan,
                Executor { computed: s2.phase_accel, registered: (s2.step + 1) as usize, ..s2 },
                0,
            );
        },
        (Stage::Arm, Event::Armed(Err(reason))) => {
            lemma_aborting(plan, s, Cause::Arm(reason));
        },
        (Stage::Verify { check, again }, Event::Status { reply, distance, expired }) => {
            match reply {
                Err(error) => {
                    lemma_aborting(plan, s, Cause::Transport(error));
                },
                Ok(status) => {
                    let v = check_of(current(plan, s), check);
                    let value = looked_up(status, v.object@, v.field@);
                    lemma_aborting(
                        plan,
                        s,
                        Cause::Verification {
                            check,
                            observed: spelling_of(value),
                        },
                    );
                    lemma_sending(
                        plan,
                        Executor {
                            computed: s.phase_accel,
                            registered: (s.step + 1) as usize,
                            ..s
                        },
                        0,
                    );
                },
            }
        },
        (Stage::Read(field), Event::Status { reply, distance, expired }) => {
            match read_number(field, reply) {
                Ok(value) => {
                    let a = Executor { machine_accel: Some(value), ..s };
                    let b = Executor { phase_accel: Some(value), ..s };
                    lemma_sending(
                        plan,
                        Executor { computed: Some(value), registered: (s.step + 1) as usize, ..a },
                        0,
                    );
                    lemma_sending(
                        plan,
                        Executor { computed: Some(value), registered: (s.step + 1) as usize, ..b },
                        0,
                    );
                },
                Err(cause) => {
                    lemma_aborting(plan, s, cause);
                },
            }
        },
        (Stage::Compute, Event::Computed(Ok(value))) => {
            lemma_sending(
                plan,
                Executor { computed: Some(value), registered: (s.step + 1) as usize, ..s },
                0,
            );
        },
        (Stage::Compute, Event::Computed(Err(error))) => {
            lemma_aborting(plan, s, Cause::Compute(error));
        },
        (Stage::Send(command), Event::Sent(Ok(_))) => {
            lemma_sending(plan, s, (command + 1) as nat);
        },
        (Stage::Send(command), Event::Sent(Err(error))) => {
            lemma_aborting(plan, s, Cause::Command(error));
        },
        (Stage::ZHeight, Event::Answer(answer)) => {
            lemma_aborting(plan, s, Cause::Declined(Pause::ZHeight));
            lemma_aborting(plan, s, Cause::TimedOut(Pause::ZHeight));
        },
        (Stage::PreviewRecheck(c), Event::Exclusive(Err(reason))) => {
            lemma_aborting(plan, s, Cause::Exclusivity(reason));
        },
        (Stage::PreviewMove(c), Event::Sent(Err(error))) => {
            lemma_aborting(plan, s, Cause::Command(error));
        },
        (Stage::PreviewAsk(c), Event::Preview(answer)) => {
            lemma_aborting(plan, s, Cause::NoBinding);
            lemma_aborting(plan, s, Cause::Declined(Pause::Preview));
            lemma_aborting(plan, s, Cause::TimedOut(Pause::Preview));
        },
        (Stage::PreviewWrite(c), Event::Written(Err(reason))) => {
            lemma_aborting(plan, s, Cause::Write(reason));
        },
        (Stage::Cleanup { step, command }, Event::Sent(_)) => {
            lemma_cleaning(plan, s, (step + 1) as nat, (command + 1) as nat);
        },
        _ => {},
    }
}

/// By the time a step sends its first command its cleanup is owed, so that a stop at
/// any later moment undoes it.
pub proof fn a_step_that_sends_owes_its_cleanup(plan: RecoveryPlan, s: Executor, event: Event, e: int)
    requires
        well_formed(plan, s),
        0 <= e < stepped(plan, s, event).1.len(),
        stepped(plan, s, event).1[e] is Send,
        !(s.stage is Send),
    ensures
        stepped(plan, s, event).0.registered == s.step + 1,
{
    lemma_readings(plan, s, event);
}

/// The first number that a computation reads is the one that its own formula names;
/// the height comes from the tool head, behind a trigger that was read; and what is
/// computed is what the step's placeholders and its last checks are held against.
pub proof fn a_computation_reads_what_its_formula_names(
    plan: RecoveryPlan,
    s: Executor,
    reading: Reading,
    status: Json,
    distance: Option<Num>,
    expired: bool,
)
    requires
        well_formed(plan, s),
        s.cause is None,
    ensures
        ({
            let told = Event::Status { reply: Ok(status), distance, expired };
            let m = stepped(plan, s, told);
            let done = stepped(plan, s, Event::Computed(Ok(reading)));
            &&& s.stage matches Stage::Read(Field::Trigger(source)) ==> {
                &&& plan.steps@[s.step as int].compute matches Some(
                    RuntimeComputation::TrueZ(formula),
                ) && formula.trigger_source == source
                &&& read_number(Field::Trigger(source), Ok(status)) == Ok::<Reading, Cause>(reading)
                    ==> m.0 == (Executor {
                    stage: Stage::Read(Field::Height),
                    trigger: Some(reading),
                    ..s
                })
            }
            &&& s.stage == Stage::Read(Field::Height) && (looked_up(
                status,
                "toolhead"@,
                "position.2"@,
            ) matches Some(v) && reports(v, reading)) && reading.num.finite() ==> m.0 == (Executor {
                stage: Stage::Compute,
                height: Some(reading),
                ..s
            })
            &&& s.stage == Stage::Compute ==> {
                &&& done.0.cause is None && done.0.step == s.step ==> done.0.computed == Some(
                    reading,
                )
                &&& done.1.len() > 0 && done.1[0] == (Entry::Compute {
                    step: s.step,
                    trigger: s.trigger,
                    height: s.height,
                    value: reading,
                })
            }
        }),
{
    lemma_sending(
        plan,
        Executor { computed: Some(reading), registered: (s.step + 1) as usize, ..s },
        0,
    );
}

/// The Z-height question shows the height that the tool head reports, and none
/// where it reports none; and it is always put.
pub proof fn the_height_question_shows_the_tool_heads_height(
    plan: RecoveryPlan,
    s: Executor,
    reading: Reading,
    reply: Result<Json, String>,
    distance: Option<Num>,
    expired: bool,
)
    requires
        s.stage == Stage::ReadLiveZ,
    ensures
        ({
            let m = stepped(plan, s, Event::Status { reply, distance, expired });
            &&& m.0.stage == Stage::ZHeight
            &&& m.1.len() == 1
            &&& m.1[0] matches Entry::ConfirmPause { step, pause, shown, live_z }
            &&& step == s.step && pause == Pause::ZHeight && shown is None
            &&& reply is Err ==> live_z is None
            &&& reply matches Ok(status) ==> (looked_up(status, "toolhead"@, "position.2"@)
                matches Some(v) && reports(v, reading) && reading.num.finite()) ==> live_z == Some(
                reading,
            )
            &&& live_z matches Some(z) ==> (reply matches Ok(status) && (looked_up(
                status,
                "toolhead"@,
                "position.2"@,
            ) matches Some(v) && reports(v, z)))
        }),
{
}

/// A step that computes nothing carries the acceleration that was in force before
/// the clamp, and none other, whether it has checks of its own or not.
pub proof fn a_plain_step_carries_the_recorded_acceleration(
    plan: RecoveryPlan,
    s: Executor,
    event: Event,
)
    requires
        well_formed(plan, s),
        s.cause is None,
        plan.steps@[s.step as int].compute is None,
        plan.steps@[s.step as int].commands@.len() > 0,
        ({
            let n = plan.steps@[s.step as int].pre_verify@.len();
            ||| s.stage == Stage::Arm && n == 0 && (event matches Event::Armed(Ok(_)))
            ||| (s.stage matches Stage::Verify { check: Check::Pre(j), .. } && j + 1 == n && held_now(
                plan,
                s,
                event,
                Check::Pre(j),
            ))
        }),
    ensures
        stepped(plan, s, event).0.cause is None ==> stepped(plan, s, event).0.computed
            == s.phase_accel && stepped(plan, s, event).0.stage is Send,
{
    let s2 = Executor { computed: None, trigger: None, height: None, ..s };
    lemma_sending(
        plan,
        Executor { computed: s2.phase_accel, registered: (s2.step + 1) as usize, ..s2 },
        0,
    );
    lemma_sending(
        plan,
        Executor { computed: s.phase_accel, registered: (s.step + 1) as usize, ..s },
        0,
    );
}

/// A warning is met by its own tier before anything runs: an advisory one is
/// recorded and passed, a confirmable one is put to the operator and waited for, and
/// a refusal is recorded and stops everything; with none left the first step's turn
/// comes.
pub proof fn a_warning_is_met_by_its_tier(plan: RecoveryPlan, s: Executor, w: nat)
    requires
        s.cause is None,
        w <= plan.warnings@.len(),
    ensures
        ({
            let m = warned(plan, s, w);
            &&& w == plan.warnings@.len() ==> m.0 == at(s, Stage::Gate) && m.1.len() == 0
            &&& w < plan.warnings@.len() ==> match plan.warnings@[w as int].tier {
                Tier::Advisory => {
                    &&& m.0 == warned(plan, s, w + 1).0
                    &&& m.1 == seq![Entry::Advisory(w as usize)] + warned(plan, s, w + 1).1
                },
                Tier::Confirmable => {
                    &&& m.0 == at(s, Stage::Warning(w as usize))
                    &&& m.1.len() == 1
                    &&& m.1[0] matches Entry::ConfirmPause { step, pause, .. } && step == s.step
                        && pause == Pause::Warning(w as usize)
                },
                Tier::Hard => {
                    &&& m.0.cause == Some(Cause::Refusal(w as usize))
                    &&& m.1.len() > 0 && m.1[0] == Entry::HardRefusal(w as usize)
                    &&& quiet_log(m.1)
                },
            }
        }),
{
    if w < plan.warnings@.len() {
        lemma_aborting(plan, s, Cause::Refusal(w as usize));
    }
}

/// An answer to the preview does what it says: an accepted stop is written for where
/// it has a recovery file of its own, and stops the execution where it has none; a
/// refusal and silence stop it; and any other answer moves the cursor.
pub proof fn an_answer_to_the_preview_does_what_it_says(
    plan: RecoveryPlan,
    s: Executor,
    c: Cursor,
    spec: PreviewSpec,
    answer: PreviewAnswer,
)
    requires
        s.stage == Stage::PreviewAsk(c),
        plan.preview == Some(spec),
        s.cause is None,
    ensures
        ({
            let m = stepped(plan, s, Event::Preview(answer));
            &&& m.1.len() > 0 && m.1[0] == (Entry::PreviewAnswer { step: s.step, choice: answer })
            &&& answer == PreviewAnswer::Accept && c.stop < spec.bindings@.len() ==> m.0 == at(
                s,
                Stage::PreviewWrite(c),
            ) && m.1.last() == (Entry::PreviewAccept { step: s.step, stop: c.stop })
            &&& answer == PreviewAnswer::Accept && c.stop >= spec.bindings@.len() ==> m.0.cause
                == Some(Cause::NoBinding)
            &&& answer == PreviewAnswer::Abort ==> m.0.cause == Some(
                Cause::Declined(Pause::Preview),
            )
            &&& answer == PreviewAnswer::TimedOut ==> m.0.cause == Some(
                Cause::TimedOut(Pause::Preview),
            )
            &&& answer is NextRep || answer is PrevRep || answer is Nudge ==> m.0 == at(
                s,
                Stage::PreviewRecheck(moved(spec, c, answer)),
            )
        }),
{
    lemma_aborting(plan, s, Cause::NoBinding);
    lemma_aborting(plan, s, Cause::Declined(Pause::Preview));
    lemma_aborting(plan, s, Cause::TimedOut(Pause::Preview));
}

} // verus!
