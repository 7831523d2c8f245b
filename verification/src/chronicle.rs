//! The transcript of an execution: what is sent or asked stands in it before it
//! is sent or asked, and what comes back stands in it before anything follows.

use vstd::prelude::*;

use crate::execution::{
    aborting, blank, check_of, checked, cleaning, current, held_against,
    pre_verifying, read_number, running, seen, sending, spelling_of, stepped, warned,
    well_formed, Cause, Check, Entry, Event, Executor, Field, Move, Pause, Stage,
};
use crate::executor::{ConfirmAnswer, PreviewAnswer};
use crate::guarantees::{every_execution_is_well_formed, played};
use crate::json::Json;
use crate::number::Num;
use crate::plan::{cleanup_text, satisfied, spelled, RecoveryPlan, RuntimeComputation, Tier, Unresolved};

verus! {

/// The entry that stands in the transcript by the time an executor waits where
/// it does: the command it has out, the question it has put, the end it came to.
/// A stage that only reads or checks has none.
pub open spec fn announcement(s: Executor) -> Option<Entry> {
    let step = s.step;
    match s.stage {
        Stage::Warning(w) => Some(
            Entry::ConfirmPause { step, pause: Pause::Warning(w), shown: None, live_z: None },
        ),
        Stage::StepDebug => Some(
            Entry::ConfirmPause { step, pause: Pause::StepDebug, shown: None, live_z: None },
        ),
        Stage::ZHeight => Some(
            Entry::ConfirmPause { step, pause: Pause::ZHeight, shown: None, live_z: s.height },
        ),
        Stage::PreviewAsk(c) => Some(
            Entry::ConfirmPause {
                step,
                pause: Pause::Preview,
                shown: Some(c.stop),
                live_z: None,
            },
        ),
        Stage::Send(command) => Some(Entry::Send { step, command }),
        Stage::PreviewMove(c) => Some(Entry::PreviewReposition { step, stop: c.stop }),
        Stage::PreviewWrite(c) => Some(Entry::PreviewAccept { step, stop: c.stop }),
        Stage::Cleanup { step: owner, command } => Some(Entry::Cleanup { step: owner, command }),
        Stage::Completed => Some(Entry::PlanComplete),
        Stage::Aborted => Some(Entry::Abort(step)),
        _ => None,
    }
}

/// The last entry is the one the executor's stage is announced with.
pub open spec fn announced(m: Move) -> bool {
    announcement(m.0) matches Some(entry) ==> m.1.len() > 0 && m.1.last() == entry
}

proof fn lemma_cleaning_announced(plan: RecoveryPlan, s: Executor, steps: nat, command: nat)
    ensures
        announced(cleaning(plan, s, steps, command)),
    decreases steps, plan.steps@[steps - 1].cleanup_commands@.len() - command,
{
    if steps > 0 {
        let commands = plan.steps@[steps - 1].cleanup_commands@;
        if command >= commands.len() {
            lemma_cleaning_announced(plan, s, (steps - 1) as nat, 0);
        } else if cleanup_text(
            commands[command as int]@,
            spelled(s.phase_accel),
            spelled(s.machine_accel),
        ) is None {
            lemma_cleaning_announced(plan, s, steps, command + 1);
        }
    }
}

proof fn lemma_aborting_announced(plan: RecoveryPlan, s: Executor, cause: Cause)
    ensures
        announced(aborting(plan, s, cause)),
{
    lemma_cleaning_announced(plan, Executor { cause: Some(cause), ..s }, s.registered as nat, 0);
}

proof fn lemma_warned_announced(plan: RecoveryPlan, s: Executor, warning: nat)
    ensures
        announced(warned(plan, s, warning)),
    decreases plan.warnings@.len() - warning,
{
    if warning < plan.warnings@.len() {
        match plan.warnings@[warning as int].tier {
            Tier::Advisory => {
                lemma_warned_announced(plan, s, warning + 1);
            },
            Tier::Confirmable => {},
            Tier::Hard => {
                lemma_aborting_announced(plan, s, Cause::Refusal(warning as usize));
            },
        }
    }
}

proof fn lemma_sending_announced(plan: RecoveryPlan, s: Executor, command: nat)
    ensures
        announced(sending(plan, s, command)),
{
    lemma_aborting_announced(plan, s, Cause::Placeholder(Unresolved::NoComputed));
    lemma_aborting_announced(plan, s, Cause::Placeholder(Unresolved::NoMachineAccel));
}

proof fn lemma_pre_verifying_announced(plan: RecoveryPlan, s: Executor, index: nat)
    ensures
        announced(pre_verifying(plan, s, index)),
{
    lemma_sending_announced(
        plan,
        Executor { computed: s.phase_accel, registered: (s.step + 1) as usize, ..s },
        0,
    );
}

proof fn lemma_running_announced(plan: RecoveryPlan, s: Executor)
    ensures
        announced(running(plan, s)),
{
    lemma_pre_verifying_announced(
        plan,
        Executor { computed: None, trigger: None, height: None, ..s },
        0,
    );
}

proof fn lemma_checked_announced(
    plan: RecoveryPlan,
    s: Executor,
    check: Check,
    reply: Result<Json, String>,
    distance: Option<Num>,
    expired: bool,
)
    ensures
        announced(checked(plan, s, check, reply, distance, expired)),
{
    match reply {
        Err(error) => {
            lemma_aborting_announced(plan, s, Cause::Transport(error));
        },
        Ok(status) => {
            let observed = spelling_of(seen(check_of(current(plan, s), check), status));
            lemma_aborting_announced(plan, s, Cause::Verification { check, observed });
            match check {
                Check::Pre(index) => {
                    lemma_pre_verifying_announced(plan, s, (index + 1) as nat);
                },
                Check::Post(index) => {},
            }
        },
    }
}

proof fn lemma_stepped_announced(plan: RecoveryPlan, s: Executor, event: Event)
    ensures
        announced(stepped(plan, s, event)) || stepped(plan, s, event) == (s, Seq::<Entry>::empty()),
{
    match (s.stage, event) {
        (Stage::Warning(w), Event::Answer(answer)) => {
            lemma_aborting_announced(plan, s, Cause::Declined(Pause::Warning(w)));
            lemma_aborting_announced(plan, s, Cause::TimedOut(Pause::Warning(w)));
            lemma_warned_announced(plan, s, (w + 1) as nat);
        },
        (Stage::Gate, Event::Gate(go)) => {
            lemma_aborting_announced(plan, s, Cause::Gate);
        },
        (Stage::StepDebug, Event::Answer(answer)) => {
            lemma_aborting_announced(plan, s, Cause::Declined(Pause::StepDebug));
            lemma_aborting_announced(plan, s, Cause::TimedOut(Pause::StepDebug));
        },
        (Stage::Recheck, Event::Exclusive(Ok(_))) => {
            lemma_running_announced(plan, s);
        },
        (Stage::Recheck, Event::Exclusive(Err(reason))) => {
            lemma_aborting_announced(plan, s, Cause::Exclusivity(reason));
        },
        (Stage::Arm, Event::Armed(Ok(_))) => {
            lemma_running_announced(plan, s);
        },
        (Stage::Arm, Event::Armed(Err(reason))) => {
            lemma_aborting_announced(plan, s, Cause::Arm(reason));
        },
        (Stage::Verify { check, again }, Event::Status { reply, distance, expired }) => {
            lemma_checked_announced(plan, s, check, reply, distance, expired);
        },
        (Stage::Read(field), Event::Status { reply, distance, expired }) => {
            match read_number(field, reply) {
                Ok(value) => {
                    let registered = (s.step + 1) as usize;
                    let computed = Some(value);
                    lemma_sending_announced(
                        plan,
                        Executor { machine_accel: Some(value), computed, registered, ..s },
                        0,
                    );
                    lemma_sending_announced(
                        plan,
                        Executor { phase_accel: Some(value), computed, registered, ..s },
                        0,
                    );
                },
                Err(cause) => {
                    lemma_aborting_announced(plan, s, cause);
                },
            }
        },
        (Stage::Compute, Event::Computed(Ok(value))) => {
            lemma_sending_announced(
                plan,
                Executor { computed: Some(value), registered: (s.step + 1) as usize, ..s },
                0,
            );
        },
        (Stage::Compute, Event::Computed(Err(error))) => {
            lemma_aborting_announced(plan, s, Cause::Compute(error));
        },
        (Stage::Send(command), Event::Sent(Ok(_))) => {
            lemma_sending_announced(plan, s, (command + 1) as nat);
        },
        (Stage::Send(command), Event::Sent(Err(error))) => {
            lemma_aborting_announced(plan, s, Cause::Command(error));
        },
        (Stage::ZHeight, Event::Answer(answer)) => {
            lemma_aborting_announced(plan, s, Cause::Declined(Pause::ZHeight));
            lemma_aborting_announced(plan, s, Cause::TimedOut(Pause::ZHeight));
        },
        (Stage::PreviewRecheck(c), Event::Exclusive(Err(reason))) => {
            lemma_aborting_announced(plan, s, Cause::Exclusivity(reason));
        },
        (Stage::PreviewMove(c), Event::Sent(Err(error))) => {
            lemma_aborting_announced(plan, s, Cause::Command(error));
        },
        (Stage::PreviewAsk(c), Event::Preview(answer)) => {
            lemma_aborting_announced(plan, s, Cause::NoBinding);
            lemma_aborting_announced(plan, s, Cause::Declined(Pause::Preview));
            lemma_aborting_announced(plan, s, Cause::TimedOut(Pause::Preview));
        },
        (Stage::PreviewWrite(c), Event::Written(Err(reason))) => {
            lemma_aborting_announced(plan, s, Cause::Write(reason));
        },
        (Stage::Cleanup { step, command }, Event::Sent(fate)) => {
            lemma_cleaning_announced(plan, s, (step + 1) as nat, (command + 1) as nat);
        },
        _ => {},
    }
}

/// A transcript begins with the plan, and whatever an execution has out stands
/// in it last: a command, a cleanup, a move of the preview, a question, the
/// recovery file of an accepted stop. So nothing is sent or asked that the
/// transcript does not hold already, and a transcript that is cut short still
/// names what was out when it was. One that ran to the end closes with how it
/// ended.
pub proof fn nothing_goes_out_unrecorded(plan: RecoveryPlan, events: Seq<Event>)
    ensures
        played(plan, events).1.len() > 0,
        played(plan, events).1[0] == Entry::PlanStart,
        announced(played(plan, events)),
    decreases events.len(),
{
    if events.len() == 0 {
        lemma_warned_announced(plan, blank(), 0);
    } else {
        let before = played(plan, events.drop_last());
        nothing_goes_out_unrecorded(plan, events.drop_last());
        lemma_stepped_announced(plan, before.0, events.last());
    }
}

/// The entry that an event is recorded with, where it is a reply that the
/// transcript keeps. A status is kept once a verification is decided on it or a
/// number taken from it.
pub open spec fn record_of(plan: RecoveryPlan, s: Executor, event: Event) -> Option<Entry> {
    let step = s.step;
    match (s.stage, event) {
        (Stage::Warning(w), Event::Answer(answer)) => Some(
            Entry::ConfirmAnswer { step, pause: Pause::Warning(w), answer },
        ),
        (Stage::StepDebug, Event::Answer(answer)) => Some(
            Entry::ConfirmAnswer { step, pause: Pause::StepDebug, answer },
        ),
        (Stage::ZHeight, Event::Answer(answer)) => Some(
            Entry::ConfirmAnswer { step, pause: Pause::ZHeight, answer },
        ),
        (Stage::PreviewAsk(c), Event::Preview(choice)) => Some(
            Entry::PreviewAnswer { step, choice },
        ),
        (Stage::Gate, Event::Gate(false)) => Some(Entry::OperatorDeclined(step)),
        (Stage::Recheck, Event::Exclusive(Err(reason))) => Some(
            Entry::ExclusivityLost { step, reason },
        ),
        (Stage::PreviewRecheck(c), Event::Exclusive(Err(reason))) => Some(
            Entry::ExclusivityLost { step, reason },
        ),
        (Stage::Arm, Event::Armed(Ok(_))) => Some(Entry::FrameArmed(step)),
        (Stage::Arm, Event::Armed(Err(reason))) => Some(Entry::FrameArmFailed { step, reason }),
        (Stage::Send(command), Event::Sent(Ok(_))) => Some(Entry::ResponseOk(step)),
        (Stage::Send(command), Event::Sent(Err(error))) => Some(
            Entry::ResponseError { step, error },
        ),
        (Stage::Cleanup { step: owner, command }, Event::Sent(Ok(_))) => Some(
            Entry::CleanupOk(owner),
        ),
        (Stage::Cleanup { step: owner, command }, Event::Sent(Err(error))) => Some(
            Entry::CleanupError { step: owner, error },
        ),
        (Stage::PreviewWrite(c), Event::Written(Err(reason))) => Some(
            Entry::PreviewWriteFailed { step, reason },
        ),
        (Stage::Compute, Event::Computed(Ok(value))) => Some(
            Entry::Compute { step, trigger: s.trigger, height: s.height, value },
        ),
        (Stage::Read(Field::Accel), Event::Status { reply, distance, expired }) => {
            match read_number(Field::Accel, reply) {
                Ok(value) => Some(
                    Entry::RecordAccel {
                        step,
                        machine: current(plan, s).compute == Some(
                            RuntimeComputation::RecordMachineAccel,
                        ),
                        value,
                    },
                ),
                Err(_) => None,
            }
        },
        (Stage::Verify { check, again }, Event::Status { reply: Ok(status), distance, expired }) => {
            let v = check_of(current(plan, s), check);
            let value = seen(v, status);
            let holds = satisfied(v.predicate, value, held_against(s, check), distance);
            if holds || expired {
                Some(Entry::Verify { step, check, observed: spelling_of(value), holds })
            } else {
                None
            }
        },
        _ => None,
    }
}

/// A reply that the transcript keeps is the first thing recorded when it comes
/// in, before anything that follows from it.
pub proof fn a_reply_is_recorded_before_what_follows(
    plan: RecoveryPlan,
    events: Seq<Event>,
    event: Event,
)
    ensures
        record_of(plan, played(plan, events).0, event) matches Some(entry) ==> {
            let before = played(plan, events).1;
            let now = played(plan, events.push(event)).1;
            now.len() > before.len() && now[before.len() as int] == entry
        },
{
    let s = played(plan, events).0;
    let m = stepped(plan, s, event);
    assert(events.push(event).drop_last() =~= events);
    assert(played(plan, events.push(event)).1 =~= played(plan, events).1 + m.1);
    every_execution_is_well_formed(plan, events);
    assert(record_of(plan, s, event) matches Some(entry) ==> m.1.len() > 0 && m.1[0] == entry);
}

/// The same state, stopped for another reason.
pub open spec fn stopped_for(s: Executor, cause: Option<Cause>) -> Executor {
    Executor { cause, ..s }
}

proof fn lemma_cleaning_ignores_the_cause(
    plan: RecoveryPlan,
    s: Executor,
    cause: Option<Cause>,
    steps: nat,
    command: nat,
)
    ensures
        cleaning(plan, stopped_for(s, cause), steps, command).0 == stopped_for(
            cleaning(plan, s, steps, command).0,
            cause,
        ),
        cleaning(plan, stopped_for(s, cause), steps, command).1 == cleaning(
            plan,
            s,
            steps,
            command,
        ).1,
    decreases steps, plan.steps@[steps - 1].cleanup_commands@.len() - command,
{
    if steps > 0 {
        let commands = plan.steps@[steps - 1].cleanup_commands@;
        if command >= commands.len() {
            lemma_cleaning_ignores_the_cause(plan, s, cause, (steps - 1) as nat, 0);
        } else if cleanup_text(
            commands[command as int]@,
            spelled(s.phase_accel),
            spelled(s.machine_accel),
        ) is None {
            lemma_cleaning_ignores_the_cause(plan, s, cause, steps, command + 1);
        }
    }
}

/// The two ways of not saying yes to the question that is out.
pub open spec fn refusals(s: Executor) -> Option<(Event, Event)> {
    match s.stage {
        Stage::Warning(_) | Stage::StepDebug | Stage::ZHeight => Some(
            (Event::Answer(ConfirmAnswer::Abort), Event::Answer(ConfirmAnswer::TimedOut)),
        ),
        Stage::PreviewAsk(_) => Some(
            (Event::Preview(PreviewAnswer::Abort), Event::Preview(PreviewAnswer::TimedOut)),
        ),
        _ => None,
    }
}

/// A question that goes unanswered ends the execution as a refusal does: the
/// same cleanups are run from the same state and the same is recorded of them.
/// Only the answer itself and the cause differ.
pub proof fn silence_ends_as_a_refusal_does(plan: RecoveryPlan, s: Executor)
    requires
        well_formed(plan, s),
    ensures
        refusals(s) matches Some((refused, silent)) ==> {
            let by_refusal = stepped(plan, s, refused);
            let by_silence = stepped(plan, s, silent);
            &&& by_refusal.0.cause is Some
            &&& by_silence.0 == stopped_for(by_refusal.0, by_silence.0.cause)
            &&& by_refusal.1.len() > 0
            &&& by_silence.1.len() > 0
            &&& by_silence.1.drop_first() == by_refusal.1.drop_first()
        },
{
    if refusals(s) is Some {
        let pause = match s.stage {
            Stage::Warning(w) => Pause::Warning(w),
            Stage::StepDebug => Pause::StepDebug,
            Stage::ZHeight => Pause::ZHeight,
            _ => Pause::Preview,
        };
        let refused = stopped_for(s, Some(Cause::Declined(pause)));
        let silence = Some(Cause::TimedOut(pause));
        lemma_cleaning_ignores_the_cause(plan, refused, silence, s.registered as nat, 0);
        lemma_cleaning_ignores_the_cause(
            plan,
            s,
            Some(Cause::Declined(pause)),
            s.registered as nat,
            0,
        );
        assert(stopped_for(refused, silence) == stopped_for(s, silence));
        let (said, unsaid) = refusals(s)->0;
        let by_refusal = stepped(plan, s, said);
        let by_silence = stepped(plan, s, unsaid);
        let rest = cleaning(plan, refused, s.registered as nat, 0).1;
        assert(by_refusal.1.drop_first() =~= rest);
        assert(by_silence.1.drop_first() =~= rest);
    }
}

} // verus!
