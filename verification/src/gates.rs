//! The printer gates: the printer must be ready and idle, and the daemon must
//! have the g-code channel to itself.
//!
//! A sample of the printer's state is stale as soon as it is taken: whatever
//! holds the g-code mutex may still move the machine. So the printer gate samples, then
//! waits for the mutex with a command that does nothing, then samples again.

use vstd::prelude::*;

use crate::executor::ExecOptions;
use crate::json::{bool_of, child, child_of, text_of, Json};
use crate::number::Span;
use crate::plan::{duration_or, plan_duration_or, RecoveryPlan};
use crate::text::{quoted, quoted_text, same};

verus! {

/// The command that waits for the g-code mutex: it sets a line number, which
/// changes nothing.
pub const GCODE_BARRIER_SENTINEL: &'static str = "M110";

/// A state's name in a status answer, or `unknown`.
pub open spec fn state_of(status: Json, object: Seq<char>) -> Seq<char> {
    match text_of(child_of(child(status, object), "state"@)) {
        Some(s) => s,
        None => "unknown"@,
    }
}

/// The print states that count as idle.
pub open spec fn is_idle(state: Seq<char>) -> bool {
    state == "standby"@ || state == "complete"@ || state == "cancelled"@ || state == "error"@
}

/// The refusal of a printer that is not ready.
pub open spec fn not_ready(s: Seq<char>) -> Seq<char> {
    "klippy state is "@ + quoted_text(s) + ", not \"ready\""@
}

fn not_ready_text(s: &str) -> (r: String)
    ensures
        r@ == not_ready(s@),
{
    let mut out = "klippy state is ".to_owned();
    let quoted1 = quoted(s);
    out.append(quoted1.as_str());
    out.append(", not \"ready\"");
    out
}

/// The refusal of a printer that is not idle.
pub open spec fn not_idle(s: Seq<char>) -> Seq<char> {
    "printer is not idle (print_stats.state "@ + quoted_text(s) + ")"@
}

fn not_idle_text(s: &str) -> (r: String)
    ensures
        r@ == not_idle(s@),
{
    let mut out = "printer is not idle (print_stats.state ".to_owned();
    let quoted1 = quoted(s);
    out.append(quoted1.as_str());
    out.append(")");
    out
}

/// The refusal when the printer cannot be asked.
pub open spec fn query_failed(e: Seq<char>) -> Seq<char> {
    "status query failed: "@ + e
}

fn query_failed_text(e: &str) -> (r: String)
    ensures
        r@ == query_failed(e@),
{
    let mut out = "status query failed: ".to_owned();
    out.append(e);
    out
}

/// What is wrong with the printer's state: not ready, not idle, or not known to
/// have stopped playing a file.
pub open spec fn status_fault(status: Json) -> Option<Seq<char>> {
    let ready = state_of(status, "webhooks"@);
    let print = state_of(status, "print_stats"@);
    if ready != "ready"@ {
        Some(not_ready(ready))
    } else if !is_idle(print) {
        Some(not_idle(print))
    } else {
        match bool_of(child_of(child(status, "virtual_sdcard"@), "is_active"@)) {
            Some(false) => None,
            Some(true) => Some("virtual_sdcard is actively printing"@),
            None => Some("virtual_sdcard.is_active is not known"@),
        }
    }
}

fn read_state<'a>(status: &'a Json, object: &str) -> (r: &'a str)
    ensures
        r@ == state_of(*status, object@),
{
    match status.get(object) {
        Some(v) => match v.get("state") {
            Some(s) => match s.as_str() {
                Some(s) => s,
                None => "unknown",
            },
            None => "unknown",
        },
        None => "unknown",
    }
}

/// Whether the printer is ready and idle, by its answer about `webhooks`,
/// `print_stats` and `virtual_sdcard`; the reason when it is not. An answer that
/// leaves open whether a file is being played does not pass.
pub fn printer_ready_and_idle(status: &Json) -> (r: Result<(), String>)
    ensures
        match status_fault(*status) {
            Some(fault) => r matches Err(e) && e@ == fault,
            None => r is Ok,
        },
{
    let ready = read_state(status, "webhooks");
    if !same(ready, "ready") {
        return Err(not_ready_text(ready));
    }
    let print = read_state(status, "print_stats");
    if !(same(print, "standby") || same(print, "complete") || same(print, "cancelled") || same(
        print,
        "error",
    )) {
        return Err(not_idle_text(print));
    }
    let active: Option<bool> = match status.get("virtual_sdcard") {
        Some(v) => match v.get("is_active") {
            Some(b) => b.as_bool(),
            None => None,
        },
        None => None,
    };
    match active {
        Some(false) => Ok(()),
        Some(true) => Err("virtual_sdcard is actively printing".to_owned()),
        None => Err("virtual_sdcard.is_active is not known".to_owned()),
    }
}

/// The reason when waiting for the mutex failed.
pub open spec fn barrier_failed(e: Seq<char>) -> Seq<char> {
    "could not confirm exclusive g-code access — the read-only M110 barrier did not complete ("@ + e + "), so another g-code source may still hold Klipper's g-code mutex"@
}

fn barrier_failed_text(e: &str) -> (r: String)
    ensures
        r@ == barrier_failed(e@),
{
    let mut out = "could not confirm exclusive g-code access — the read-only M110 barrier did not complete (".to_owned();
    out.append(e);
    out.append("), so another g-code source may still hold Klipper's g-code mutex");
    out
}

/// The refusal of a printer that was busy all along.
pub open spec fn busy(why: Seq<char>) -> Seq<char> {
    why + "; nothing was sent."@
}

fn busy_text(why: &str) -> (r: String)
    ensures
        r@ == busy(why@),
{
    let mut out = why.to_owned();
    out.append("; nothing was sent.");
    out
}

/// The refusal when nobody released the mutex.
pub open spec fn held(why: Seq<char>) -> Seq<char> {
    why + ". Nothing but the read-only M110 was sent. If this recovery was started from a [gcode_macro], that macro still holds the mutex: call PLR_RECOVER as the macro's LAST command, or run it directly."@
}

fn held_text(why: &str) -> (r: String)
    ensures
        r@ == held(why@),
{
    let mut out = why.to_owned();
    out.append(". Nothing but the read-only M110 was sent. If this recovery was started from a [gcode_macro], that macro still holds the mutex: call PLR_RECOVER as the macro's LAST command, or run it directly.");
    out
}

/// The refusal of a printer that became busy meanwhile.
pub open spec fn disturbed(why: Seq<char>) -> Seq<char> {
    "the printer stopped being idle while dead-reckoning was waiting for Klipper's g-code mutex ("@ + why + "). Another g-code source ran between the check and now — most likely the [gcode_macro] this recovery was started from. Nothing but the read-only M110 was sent."@
}

fn disturbed_text(why: &str) -> (r: String)
    ensures
        r@ == disturbed(why@),
{
    let mut out = "the printer stopped being idle while dead-reckoning was waiting for Klipper's g-code mutex (".to_owned();
    out.append(why);
    out.append("). Another g-code source ran between the check and now — most likely the [gcode_macro] this recovery was started from. Nothing but the read-only M110 was sent.");
    out
}

/// Where the printer gate stands.
#[derive(Debug)]
pub enum IdleCheck {
    /// The printer's state is to be asked.
    Sample,
    /// The sentinel is to be sent.
    Barrier,
    /// The printer's state is to be asked again.
    Resample,
    /// The printer is idle and the channel is free.
    Clear,
    /// The printer gate refuses, for this reason.
    Refused(String),
}

/// A gate with its reason as text.
pub enum IdleView {
    /// The printer's state is to be asked.
    Sample,
    /// The sentinel is to be sent.
    Barrier,
    /// The printer's state is to be asked again.
    Resample,
    /// The printer is idle and the channel is free.
    Clear,
    /// The printer gate refuses, for this reason.
    Refused(Seq<char>),
}

impl View for IdleCheck {
    type V = IdleView;

    open spec fn view(&self) -> IdleView {
        match *self {
            IdleCheck::Sample => IdleView::Sample,
            IdleCheck::Barrier => IdleView::Barrier,
            IdleCheck::Resample => IdleView::Resample,
            IdleCheck::Clear => IdleView::Clear,
            IdleCheck::Refused(reason) => IdleView::Refused(reason@),
        }
    }
}

/// What the printer answered.
#[derive(Debug)]
pub enum IdleEvent {
    /// Its state, or why it could not be asked.
    Status(Result<Json, String>),
    /// The sentinel returned, or why it did not.
    Barrier(Result<(), String>),
}

/// What is wrong with an answer about the printer's state.
pub open spec fn answer_fault(answer: Result<Json, String>) -> Option<Seq<char>> {
    match answer {
        Ok(status) => status_fault(status),
        Err(e) => Some(query_failed(e@)),
    }
}

/// The printer gate after an answer. An answer to something that was not asked changes
/// nothing.
pub open spec fn idle_step(gate: IdleView, event: IdleEvent) -> IdleView {
    match (gate, event) {
        (IdleView::Sample, IdleEvent::Status(answer)) => match answer_fault(answer) {
            Some(why) => IdleView::Refused(busy(why)),
            None => IdleView::Barrier,
        },
        (IdleView::Barrier, IdleEvent::Barrier(sent)) => match sent {
            Ok(_) => IdleView::Resample,
            Err(e) => IdleView::Refused(held(barrier_failed(e@))),
        },
        (IdleView::Resample, IdleEvent::Status(answer)) => match answer_fault(answer) {
            Some(why) => IdleView::Refused(disturbed(why)),
            None => IdleView::Clear,
        },
        _ => gate,
    }
}

fn judge(answer: &Result<Json, String>) -> (r: Result<(), String>)
    ensures
        match answer_fault(*answer) {
            Some(fault) => r matches Err(e) && e@ == fault,
            None => r is Ok,
        },
{
    match answer {
        Ok(status) => printer_ready_and_idle(status),
        Err(e) => Err(query_failed_text(e.as_str())),
    }
}

impl IdleCheck {
    /// The printer gate as it starts.
    pub fn start() -> (r: Self)
        ensures
            r@ == IdleView::Sample,
    {
        IdleCheck::Sample
    }

    /// The printer gate after an answer.
    pub fn on_event(self, event: IdleEvent) -> (r: Self)
        ensures
            r@ == idle_step(self@, event),
    {
        match (self, event) {
            (IdleCheck::Sample, IdleEvent::Status(answer)) => match judge(&answer) {
                Ok(_) => IdleCheck::Barrier,
                Err(why) => IdleCheck::Refused(busy_text(why.as_str())),
            },
            (IdleCheck::Barrier, IdleEvent::Barrier(sent)) => match sent {
                Ok(_) => IdleCheck::Resample,
                Err(e) => {
                    let why = barrier_failed_text(e.as_str());
                    IdleCheck::Refused(held_text(why.as_str()))
                },
            },
            (IdleCheck::Resample, IdleEvent::Status(answer)) => match judge(&answer) {
                Ok(_) => IdleCheck::Clear,
                Err(why) => IdleCheck::Refused(disturbed_text(why.as_str())),
            },
            (gate, _) => gate,
        }
    }
}

/// The printer gate after a run of answers.
pub open spec fn idle_run(events: Seq<IdleEvent>) -> IdleView
    decreases events.len(),
{
    if events.len() == 0 {
        IdleView::Sample
    } else {
        idle_step(idle_run(events.drop_last()), events.last())
    }
}

/// `event` is the answer of a printer that is ready and idle.
pub open spec fn says_idle(event: IdleEvent) -> bool {
    event matches IdleEvent::Status(answer) && answer_fault(answer) is None
}

/// The places in a run where the printer gate passed: a first idle sample, the sentinel
/// after it, and a second idle sample after that.
pub open spec fn passed_at(events: Seq<IdleEvent>, a: int, b: int, c: int) -> bool {
    &&& 0 <= a < b < c < events.len()
    &&& says_idle(events[a])
    &&& events[b] matches IdleEvent::Barrier(Ok(_))
    &&& says_idle(events[c])
}

/// The printer gate is never clear on less than an idle sample, the mutex, and another
/// idle sample, in this order.
pub proof fn clear_takes_the_mutex_between_two_idle_samples(events: Seq<IdleEvent>)
    requires
        idle_run(events) is Clear,
    ensures
        exists|a: int, b: int, c: int| passed_at(events, a, b, c),
    decreases events.len(),
{
    let before = events.drop_last();
    let n = events.len() - 1;
    if idle_run(before) is Clear {
        clear_takes_the_mutex_between_two_idle_samples(before);
        let (a, b, c) = choose|a: int, b: int, c: int| passed_at(before, a, b, c);
        assert(passed_at(events, a, b, c));
    } else {
        assert(idle_run(before) is Resample);
        lemma_resample(before);
        let (a, b) = choose|a: int, b: int| reached_at(before, a, b);
        assert(passed_at(events, a, b, n));
    }
}

/// The places in a run where the sentinel returned after an idle sample.
pub open spec fn reached_at(events: Seq<IdleEvent>, a: int, b: int) -> bool {
    &&& 0 <= a < b < events.len()
    &&& says_idle(events[a])
    &&& events[b] matches IdleEvent::Barrier(Ok(_))
}

proof fn lemma_resample(events: Seq<IdleEvent>)
    requires
        idle_run(events) is Resample,
    ensures
        exists|a: int, b: int| reached_at(events, a, b),
    decreases events.len(),
{
    let before = events.drop_last();
    let n = events.len() - 1;
    if idle_run(before) is Resample {
        lemma_resample(before);
        let (a, b) = choose|a: int, b: int| reached_at(before, a, b);
        assert(reached_at(events, a, b));
    } else {
        the_sentinel_waits_for_an_idle_sample(before);
        let a = choose|a: int| 0 <= a < before.len() && says_idle(#[trigger] before[a]);
        assert(reached_at(events, a, n));
    }
}

/// A plainly busy printer is refused before anything is sent: the printer gate asks for
/// the sentinel only after a sample that said idle.
pub proof fn the_sentinel_waits_for_an_idle_sample(events: Seq<IdleEvent>)
    requires
        idle_run(events) is Barrier,
    ensures
        exists|a: int| 0 <= a < events.len() && says_idle(#[trigger] events[a]),
    decreases events.len(),
{
    let before = events.drop_last();
    if idle_run(before) is Barrier {
        the_sentinel_waits_for_an_idle_sample(before);
        let a = choose|a: int| 0 <= a < before.len() && says_idle(#[trigger] before[a]);
        assert(says_idle(events[a]));
    } else {
        assert(says_idle(events[events.len() - 1]));
    }
}

/// How long to wait for the mutex under `plan`: as the operator set it, else the
/// default.
pub fn barrier_budget(plan: &RecoveryPlan, options: &ExecOptions) -> (r: Span)
    ensures
        r == duration_or(plan.gcode_barrier_timeout_s, options.gcode_barrier_timeout),
{
    plan_duration_or(plan.gcode_barrier_timeout_s, options.gcode_barrier_timeout)
}

} // verus!
