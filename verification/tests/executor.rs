//! Plan execution, driven against a fake printer.

use plrd::execution::{Check, Entry, Event, Executor, Pause, Stage};
use plrd::executor::{
    dry_run, ConfirmAnswer, ConfirmKind, ExecOptions, ExecOutcome, Exclusivity, FrameGuard,
    NoExclusivity, NoFrameGuard, NoopFileWriter, PreviewAnswer, RecoveryFileWriter, StepFailure,
    StopCause,
};
use plrd::gates::barrier_budget;
use plrd::json::{lookup, Json, Kind, Member, Number, Text};
use plrd::moonraker::{
    gcode_script_params, query_objects_params, query_status, Frame, MoonrakerClient, MoonrakerError,
};
use plrd::number::{Num, Reading, Seconds, Span};
use plrd::plan::{
    evaluate, plan_duration_or, reference, Diagnosis, Phase, Predicate, PreviewBinding,
    PreviewSpec, PreviewStop, RecoveryFileSpec, RecoveryPlan, RecoveryStep, RuntimeComputation,
    Tier, TriggerSource, TrueZFormula, Verification,
};
use plrd::prompts::{AbortConfirmer, ConfirmPoint, Confirmer, Detail};
use plrd::transcript::{record, Part, Slot, Transcript, Value as Recorded};
use serde_json::Value;
use std::collections::VecDeque;

fn value(text: &str) -> Value {
    serde_json::from_str(text).unwrap()
}

fn canonical(number: f64) -> Option<String> {
    if !number.is_finite() {
        None
    } else if number.abs() < 1e15 && number.fract() == 0.0 {
        Some(format!("{}", number as i64))
    } else {
        Some(format!("{number}"))
    }
}

fn json(v: &Value) -> Json {
    let kind = match v {
        Value::Null => Kind::Null,
        Value::Bool(b) => Kind::Bool(*b),
        Value::Number(n) => {
            let number = n.as_f64().unwrap();
            Kind::Number(Number {
                reading: Reading {
                    num: Num { bits: number.to_bits() },
                    spelling: format!("{number}"),
                },
                integer: n.as_i64().map(i128::from).or(n.as_u64().map(i128::from)),
                canonical: canonical(number),
            })
        }
        Value::String(s) => {
            let collapsed = s.split_whitespace().collect::<Vec<_>>().join(" ");
            Kind::Text(Text {
                value: s.clone(),
                canonical: collapsed.parse::<f64>().ok().and_then(canonical),
            })
        }
        Value::Array(items) => Kind::Array(items.iter().map(json).collect()),
        Value::Object(map) => Kind::Object(members(map)),
    };
    Json { kind, spelling: v.to_string() }
}

fn members(map: &serde_json::Map<String, Value>) -> Vec<Member> {
    map.iter().map(|(key, v)| Member { key: key.clone(), value: json(v) }).collect()
}

fn num(x: f64) -> Num {
    Num { bits: x.to_bits() }
}

fn bare_step(id: u32, phase: Phase, phase_name: &str, abort_code: &str) -> RecoveryStep {
    RecoveryStep {
        id,
        phase,
        phase_name: phase_name.to_owned(),
        summary: phase_name.to_owned(),
        commands: vec![],
        pre_verify: vec![],
        verify: vec![],
        compute: None,
        cleanup_commands: vec![],
        abort_code: abort_code.to_owned(),
    }
}

fn verification(object: &str, field: &str, predicate: Predicate) -> Verification {
    Verification {
        object: object.to_owned(),
        field: field.to_owned(),
        description: format!("{predicate:?}"),
        predicate,
    }
}

fn plan_of(steps: Vec<RecoveryStep>) -> RecoveryPlan {
    RecoveryPlan {
        steps,
        resume_file: "x_RECOVERY.gcode".to_owned(),
        resume_offset: 1234,
        recovery_file: RecoveryFileSpec {
            name: "x_RECOVERY.gcode".to_owned(),
            source_name: "x.gcode".to_owned(),
        },
        debug_confirm_each_step: false,
        confirm_timeout_s: None,
        gcode_barrier_timeout_s: None,
        preview: None,
        warnings: vec![],
        rendered: "step 1 [idle-timeout] disarm idle timeout\n  fail: abort\n".to_owned(),
    }
}

/// Three steps: an idle timeout with its check, a probe behind a temperature
/// check, and the declaration of the true Z.
fn test_plan() -> RecoveryPlan {
    let mut idle = bare_step(1, Phase::Other, "idle-timeout", "idle-timeout-not-applied");
    idle.summary = "disarm idle timeout".to_owned();
    idle.commands = vec!["SET_IDLE_TIMEOUT TIMEOUT=86400".to_owned()];
    idle.verify = vec![verification(
        "idle_timeout",
        "idle_timeout",
        Predicate::NumWithin { expected: num(86_400.0), epsilon: num(0.5) },
    )];
    let mut probe = bare_step(2, Phase::Other, "probe", "probe-no-trigger");
    probe.commands = vec!["PROBE PROBE_SPEED=1 SAMPLES=1".to_owned()];
    probe.pre_verify = vec![verification(
        "extruder",
        "temperature",
        Predicate::TempWithin { min: num(140.0), max: num(160.0) },
    )];
    probe.verify = vec![verification("probe", "last_z_result", Predicate::FinitePresent)];
    let mut declare =
        bare_step(3, Phase::TrueZDeclare, "true-z-declare", "true-z-declare-failed");
    declare.summary = "declare true Z".to_owned();
    declare.commands = vec!["SET_KINEMATIC_POSITION Z={true_z}".to_owned()];
    declare.compute = Some(true_z(TriggerSource::RawLastZResult));
    plan_of(vec![idle, probe, declare])
}

fn true_z(trigger_source: TriggerSource) -> RuntimeComputation {
    RuntimeComputation::TrueZ(TrueZFormula { z_prev_top: reading(12.4), trigger_source })
}

/// Plausible printer state: trigger at 0.90, halt at 0.75, so the true Z is
/// 12.4 + (0.75 - 0.90) = 12.25.
fn happy_handler(method: &str, params: &Value) -> Result<Value, (i64, String)> {
    match method {
        "printer.gcode.script" => Ok(Value::from("ok")),
        "printer.objects.query" => {
            let mut status = serde_json::Map::new();
            for name in params["objects"].as_object().unwrap().keys() {
                let state = match name.as_str() {
                    "idle_timeout" => value("{\"idle_timeout\": 86400.0, \"state\": \"Ready\"}"),
                    "extruder" => value("{\"temperature\": 150.2, \"target\": 150.0}"),
                    "probe" => value("{\"last_z_result\": 0.90}"),
                    "toolhead" => value("{\"position\": [10.0, 20.0, 0.75, 0.0]}"),
                    "webhooks" => value("{\"state\": \"ready\"}"),
                    "print_stats" => value("{\"state\": \"standby\"}"),
                    "virtual_sdcard" => value("{\"is_active\": false}"),
                    other => value(&format!("{{\"unknown-object\": \"{other}\"}}")),
                };
                status.insert(name.clone(), state);
            }
            let mut result = serde_json::Map::new();
            result.insert("eventtime".to_owned(), Value::from(1.0));
            result.insert("status".to_owned(), Value::Object(status));
            Ok(Value::Object(result))
        }
        other => Err((-32601, format!("Method not found: {other}"))),
    }
}

/// The happy printer with the state of one object replaced.
fn with_state(
    object: &'static str,
    state: &'static str,
) -> impl FnMut(&str, &Value) -> Result<Value, (i64, String)> {
    move |method, params| {
        let mut v = happy_handler(method, params)?;
        if let Some(found) = v.get_mut("status").and_then(|s| s.get_mut(object)) {
            *found = value(state);
        }
        Ok(v)
    }
}

/// The happy printer that fails every script.
fn failing_scripts(
    message: &str,
) -> impl FnMut(&str, &Value) -> Result<Value, (i64, String)> {
    let message = message.to_owned();
    move |method, params| {
        if method == "printer.gcode.script" {
            Err((400, message.clone()))
        } else {
            happy_handler(method, params)
        }
    }
}

fn fast_options() -> ExecOptions {
    ExecOptions {
        verify_timeout: Span::from_millis(300),
        temp_timeout: Span::from_millis(300),
        poll_interval: Span::from_millis(20),
        confirm_timeout: Span::from_millis(300),
        gcode_barrier_timeout: Span::from_millis(300),
    }
}

/// The code by which a handler says that its answer does not come in time.
const TIMED_OUT: i64 = i64::MIN;

/// A printer that answers calls from a closure and records every script.
struct FakePrinter<'a> {
    client: MoonrakerClient,
    handler: Box<dyn FnMut(&str, &Value) -> Result<Value, (i64, String)> + 'a>,
    sent: Vec<String>,
    calls: u32,
}

impl<'a> FakePrinter<'a> {
    fn new(handler: impl FnMut(&str, &Value) -> Result<Value, (i64, String)> + 'a) -> Self {
        FakePrinter {
            client: MoonrakerClient::connected(Span::from_secs(5)),
            handler: Box::new(handler),
            sent: Vec::new(),
            calls: 0,
        }
    }

    /// One call over the wire format, with an unrelated notification first.
    fn call(&mut self, method: &str, params: &str) -> Result<Json, MoonrakerError> {
        self.calls += 1;
        let (id, request) = self.client.begin_call(method, Some(params));
        let request = value(&request);
        assert_eq!(request["method"], method);
        assert_eq!(request["id"], id);
        if method == "printer.gcode.script" {
            self.sent.push(request["params"]["script"].as_str().unwrap().to_owned());
        }
        let noise = json(&value("{\"jsonrpc\":\"2.0\",\"method\":\"notify_proc_stat_update\"}"));
        assert!(self.client.on_frame(id, method, Frame::Text(Ok(noise))).is_none());
        let mut reply = serde_json::Map::new();
        reply.insert("jsonrpc".to_owned(), Value::from("2.0"));
        reply.insert("id".to_owned(), Value::from(id));
        match (self.handler)(method, &request["params"]) {
            Ok(result) => {
                reply.insert("result".to_owned(), result);
            }
            Err((TIMED_OUT, _)) => return Err(self.client.timed_out(method)),
            Err((code, message)) => {
                let mut error = serde_json::Map::new();
                error.insert("code".to_owned(), Value::from(code));
                error.insert("message".to_owned(), Value::from(message));
                reply.insert("error".to_owned(), Value::Object(error));
            }
        }
        let reply = json(&Value::Object(reply));
        self.client.on_frame(id, method, Frame::Text(Ok(reply))).unwrap()
    }

    fn gcode(&mut self, script: &str) -> Result<(), String> {
        match self.call("printer.gcode.script", &gcode_script_params(script)) {
            Ok(_) => Ok(()),
            Err(e) => Err(e.message()),
        }
    }

    fn status(&mut self, objects: &[&str]) -> Result<Json, String> {
        let names = objects.iter().map(|o| (*o).to_owned()).collect();
        match self.call("printer.objects.query", &query_objects_params(names)) {
            Ok(result) => query_status(result).map_err(|e| e.message()),
            Err(e) => Err(e.message()),
        }
    }

    fn gcode_sent(&self) -> Vec<&str> {
        self.sent.iter().map(|s| s.as_str()).collect()
    }
}

fn text_value(s: &str) -> Value {
    Value::from(s)
}

fn number_value(n: Num) -> Value {
    Value::from(f64::from_bits(n.bits))
}

fn diagnosis_value(d: &Diagnosis) -> Value {
    let mut map = serde_json::Map::new();
    map.insert("code".to_owned(), text_value(d.code));
    let tier = match d.tier {
        Tier::Advisory => "advisory",
        Tier::Confirmable => "confirmable",
        Tier::Hard => "hard",
    };
    map.insert("tier".to_owned(), text_value(tier));
    map.insert("what".to_owned(), text_value(&d.what));
    map.insert("why".to_owned(), text_value(&d.why));
    map.insert("suggested_fix".to_owned(), text_value(&d.suggested_fix));
    Value::Object(map)
}

fn detail_value(detail: &Detail) -> Value {
    let mut map = serde_json::Map::new();
    match detail {
        Detail::RaisedBy(by) => {
            map.insert("raised_by".to_owned(), text_value(by));
        }
        Detail::Step { summary, commands, pre_verify, verify, cleanup_commands } => {
            map.insert("summary".to_owned(), text_value(summary));
            map.insert("commands".to_owned(), Value::from(commands.clone()));
            map.insert("pre_verify".to_owned(), Value::from(pre_verify.clone()));
            map.insert("verify".to_owned(), Value::from(verify.clone()));
            map.insert("cleanup_commands".to_owned(), Value::from(cleanup_commands.clone()));
        }
        Detail::Height { standoff_target_z, live_toolhead_z, derivation } => {
            let z = |n: &Option<Num>| n.map_or(Value::Null, number_value);
            map.insert("standoff_target_z".to_owned(), z(standoff_target_z));
            map.insert("live_toolhead_z".to_owned(), z(live_toolhead_z));
            map.insert("derivation".to_owned(), text_value(derivation));
        }
        Detail::Stop { offset, resume_offset, position, count, .. } => {
            map.insert("offset".to_owned(), Value::from(*offset));
            map.insert("resume_offset".to_owned(), Value::from(*resume_offset));
            map.insert("position".to_owned(), Value::from(*position));
            map.insert("count".to_owned(), Value::from(*count));
        }
    }
    Value::Object(map)
}

/// One record as a line of JSON.
fn record_line(plan: &RecoveryPlan, slots: &[Slot], asked: Option<&ConfirmPoint>) -> String {
    let mut map = serde_json::Map::new();
    for slot in slots {
        let v = match &slot.value {
            Recorded::Text(s) => text_value(s),
            Recorded::Count(n) => Value::from(*n),
            Recorded::Number(n) => number_value(*n),
            Recorded::Flag(b) => Value::from(*b),
            Recorded::Null => Value::Null,
            Recorded::Warning(w) => diagnosis_value(&plan.warnings[*w]),
            Recorded::Failure(f) => diagnosis_value(&f.diagnosis()),
            Recorded::Asked(Part::Diagnosis) => diagnosis_value(&asked.unwrap().diagnosis),
            Recorded::Asked(Part::Detail) => detail_value(&asked.unwrap().detail),
            Recorded::Asked(Part::Deadline) => Value::from(asked.unwrap().deadline.as_secs() as u64),
        };
        map.insert(slot.name.to_owned(), v);
    }
    Value::Object(map).to_string()
}

fn reading(x: f64) -> Reading {
    Reading { num: num(x), spelling: format!("{x}") }
}

fn float(n: Num) -> f64 {
    f64::from_bits(n.bits)
}

/// The height that a step computes from the numbers it read.
fn height_of(plan: &RecoveryPlan, executor: &Executor) -> Result<Reading, String> {
    let at = float(executor.height.as_ref().unwrap().num);
    let result = match plan.steps[executor.step].compute.as_ref().unwrap() {
        RuntimeComputation::TrueZ(formula) => {
            let trigger = float(executor.trigger.as_ref().unwrap().num);
            float(formula.z_prev_top.num) + (at - trigger)
        }
        RuntimeComputation::ParkZ { delta_z, z_max } => {
            z_max.map_or(at + float(*delta_z), |max| (at + float(*delta_z)).min(float(max)))
        }
        RuntimeComputation::HoverPlane { target_z, z_max } => {
            let target = at.max(float(*target_z));
            z_max.map_or(target, |max| target.min(float(max)))
        }
        _ => panic!("no height to compute"),
    };
    Ok(reading(result))
}

/// The collaborators of one execution.
struct Hands<'a> {
    gate: &'a mut dyn FnMut(&RecoveryStep) -> bool,
    confirmer: &'a mut dyn Confirmer,
    guard: &'a mut dyn FrameGuard,
    writer: &'a mut dyn RecoveryFileWriter,
}

/// Runs a plan to its end against a fake printer: the outcome and the
/// transcript. Every poll that fails once more is the last one.
fn execute(
    plan: &RecoveryPlan,
    printer: &mut FakePrinter,
    options: &ExecOptions,
    hands: Hands,
    recheck: &mut dyn FnMut(&mut FakePrinter, Span) -> Result<(), String>,
) -> (ExecOutcome, String) {
    let budget = barrier_budget(plan, options);
    let mut log = Transcript::new();
    let mut executor = Executor::start(plan, &mut log.entries);
    let mut transcript = String::new();
    let mut written = 0;
    loop {
        let script = executor.script(plan);
        let asked = executor.question(plan, options);
        let outcome = executor.outcome(plan);
        for entry in &log.entries[written..] {
            let slots = record(plan, entry, script.as_deref().unwrap_or(""), outcome.as_ref());
            transcript.push_str(&record_line(plan, &slots, asked.as_ref()));
            transcript.push('\n');
        }
        written = log.entries.len();
        if let Some(outcome) = outcome {
            return (outcome, transcript);
        }
        let event = match executor.stage {
            Stage::Gate => Event::Gate((hands.gate)(&plan.steps[executor.step])),
            Stage::Warning(_) | Stage::StepDebug | Stage::ZHeight => {
                Event::Answer(hands.confirmer.confirm(&asked.unwrap()))
            }
            Stage::PreviewAsk(_) => {
                Event::Preview(hands.confirmer.confirm_preview(&asked.unwrap()))
            }
            Stage::Recheck | Stage::PreviewRecheck(_) => Event::Exclusive(recheck(printer, budget)),
            Stage::Arm => Event::Armed(hands.guard.arm(&plan.steps[executor.step])),
            Stage::Verify { check, again } => {
                let step = &plan.steps[executor.step];
                let v = match check {
                    Check::Pre(i) => &step.pre_verify[i],
                    Check::Post(i) => &step.verify[i],
                };
                let object = executor.object(plan).unwrap();
                let reply = printer.status(&[object.as_str()]);
                let computed = executor.computed.as_ref().map(|r| r.num);
                let distance = match (&reply, reference(&v.predicate, computed)) {
                    (Ok(status), Some(from)) => lookup(status, &v.object, &v.field)
                        .and_then(|j| j.as_num())
                        .map(|n| num((float(n) - float(from)).abs())),
                    _ => None,
                };
                Event::Status { reply, distance, expired: again }
            }
            Stage::Read(_) | Stage::ReadLiveZ => {
                let object = executor.object(plan).unwrap();
                Event::Status {
                    reply: printer.status(&[object.as_str()]),
                    distance: None,
                    expired: false,
                }
            }
            Stage::Compute => Event::Computed(height_of(plan, &executor)),
            Stage::Send(_) | Stage::Cleanup { .. } | Stage::PreviewMove(_) => {
                Event::Sent(printer.gcode(&script.unwrap()))
            }
            Stage::PreviewWrite(cursor) => {
                let spec = plan.preview.as_ref().unwrap();
                Event::Written(hands.writer.write_for(spec.binding(cursor.stop).unwrap()))
            }
            Stage::Completed | Stage::Aborted => unreachable!(),
        };
        executor.on_event(plan, event, &mut log.entries);
    }
}

fn run_all(
    plan: &RecoveryPlan,
    printer: &mut FakePrinter,
    confirmer: &mut dyn Confirmer,
    options: &ExecOptions,
    exclusivity: &mut dyn Exclusivity,
    writer: &mut dyn RecoveryFileWriter,
) -> (ExecOutcome, String) {
    let hands = Hands { gate: &mut |_| true, confirmer, guard: &mut NoFrameGuard, writer };
    execute(plan, printer, options, hands, &mut |_, budget| exclusivity.recheck(budget))
}

fn run_with(
    plan: &RecoveryPlan,
    printer: &mut FakePrinter,
    confirmer: &mut dyn Confirmer,
) -> (ExecOutcome, String) {
    run_all(plan, printer, confirmer, &fast_options(), &mut NoExclusivity, &mut NoopFileWriter)
}

fn run(plan: &RecoveryPlan, printer: &mut FakePrinter) -> (ExecOutcome, String) {
    run_with(plan, printer, &mut AbortConfirmer)
}

#[test]
fn happy_path_executes_every_step_in_order() {
    let mut fake = FakePrinter::new(happy_handler);
    let (outcome, transcript) = run(&test_plan(), &mut fake);
    assert_eq!(outcome, ExecOutcome::Completed { steps: 3 });
    assert_eq!(
        fake.gcode_sent(),
        vec![
            "SET_IDLE_TIMEOUT TIMEOUT=86400",
            "PROBE PROBE_SPEED=1 SAMPLES=1",
            "SET_KINEMATIC_POSITION Z=12.25",
        ]
    );
    for needle in ["plan-start", "step-start", "\"send\"", "\"compute\"", "plan-complete"] {
        assert!(transcript.contains(needle), "missing {needle}: {transcript}");
    }
}

#[test]
fn pre_verification_failure_aborts_before_sending_the_step() {
    let mut fake =
        FakePrinter::new(with_state("extruder", "{\"temperature\": 22.5, \"target\": 0.0}"));
    let (outcome, transcript) = run(&test_plan(), &mut fake);
    match outcome {
        ExecOutcome::Aborted { step_id, reason, cause, .. } => {
            assert_eq!(step_id, 2);
            assert_eq!(reason, "probe-no-trigger");
            assert!(matches!(cause, StopCause::VerificationFailed { .. }));
        }
        other => panic!("expected abort, got {other:?}"),
    }
    assert_eq!(fake.gcode_sent(), vec!["SET_IDLE_TIMEOUT TIMEOUT=86400"]);
    assert!(transcript.contains("\"holds\":false"), "{transcript}");
    assert!(transcript.contains("abort"), "{transcript}");
}

#[test]
fn post_verification_failure_aborts_mid_plan() {
    let mut fake = FakePrinter::new(with_state("idle_timeout", "{\"idle_timeout\": 600.0}"));
    let (outcome, _) = run(&test_plan(), &mut fake);
    match outcome {
        ExecOutcome::Aborted { step_id, reason, .. } => {
            assert_eq!(step_id, 1);
            assert_eq!(reason, "idle-timeout-not-applied");
        }
        other => panic!("expected abort, got {other:?}"),
    }
    assert_eq!(fake.gcode_sent().len(), 1);
}

#[test]
fn command_error_aborts_immediately_and_is_typed_unknown() {
    let mut fake = FakePrinter::new(failing_scripts("Klippy shutdown"));
    let (outcome, transcript) = run(&test_plan(), &mut fake);
    match outcome {
        ExecOutcome::Aborted { step_id, cause, .. } => {
            assert_eq!(step_id, 1);
            assert_eq!(cause.step_failure(), Some(StepFailure::Unknown));
            assert!(matches!(
                cause,
                StopCause::CommandFailed { failure: StepFailure::Unknown, .. }
            ));
        }
        other => panic!("expected abort, got {other:?}"),
    }
    assert!(transcript.contains("\"failure\":\"unknown\""), "{transcript}");
    assert_eq!(fake.gcode_sent().len(), 1);
}

#[test]
fn klipper_error_strings_promote_to_typed_step_failures() {
    for (message, expected, code) in [
        (
            "Probe triggered prior to movement",
            StepFailure::ProbeTriggeredEarly,
            "probe-triggered-early",
        ),
        ("No trigger on probe after full movement", StepFailure::NoTrigger, "no-trigger"),
        (
            "PLR_TOUCH failed: could not find 3 touches within 0.010 mm of each \
             other in a sliding window of 5, after 10 touches.",
            StepFailure::NoTrigger,
            "no-trigger",
        ),
        (
            "Move out of range: 5.0 250.0 0.0 [250.0]",
            StepFailure::MoveOutOfRange,
            "move-out-of-range",
        ),
        ("some other klippy failure", StepFailure::Unknown, "unknown"),
    ] {
        assert_eq!(StepFailure::classify(message), expected, "{message}");
        let mut fake = FakePrinter::new(failing_scripts(message));
        let (outcome, transcript) = run(&test_plan(), &mut fake);
        match outcome {
            ExecOutcome::Aborted { cause, .. } => {
                assert!(
                    matches!(cause, StopCause::CommandFailed { failure, .. } if failure == expected),
                    "{message}: {cause:?}"
                );
            }
            other => panic!("expected abort for {message}, got {other:?}"),
        }
        assert!(
            transcript.contains(&format!("\"failure\":\"{code}\"")),
            "{message}: {transcript}"
        );
    }
}

#[test]
fn step_gate_decline_stops_before_sending() {
    let mut fake = FakePrinter::new(happy_handler);
    let mut gates = 0;
    let hands = Hands {
        gate: &mut |step| {
            gates += 1;
            step.id == 1
        },
        confirmer: &mut AbortConfirmer,
        guard: &mut NoFrameGuard,
        writer: &mut NoopFileWriter,
    };
    let (outcome, transcript) =
        execute(&test_plan(), &mut fake, &fast_options(), hands, &mut |_, _| Ok(()));
    match outcome {
        ExecOutcome::Aborted { step_id, cause, .. } => {
            assert_eq!(step_id, 2);
            assert_eq!(cause, StopCause::OperatorDeclined);
        }
        other => panic!("expected abort, got {other:?}"),
    }
    assert_eq!(gates, 2);
    assert_eq!(fake.gcode_sent(), vec!["SET_IDLE_TIMEOUT TIMEOUT=86400"]);
    assert!(transcript.contains("operator-declined"), "{transcript}");
}

#[test]
fn drag_trigger_source_reads_the_plr_status_object() {
    let mut plan = test_plan();
    plan.steps[2].compute = Some(true_z(TriggerSource::DragResult));
    let mut fake = FakePrinter::new(with_state(
        "plr",
        "{\"method\": \"adxl_drag\", \"last_drag_result\":
            {\"trigger_z\": 0.75, \"passes\": 4, \"confidence\": 0.97}}",
    ));
    let (outcome, transcript) = run(&plan, &mut fake);
    assert_eq!(outcome, ExecOutcome::Completed { steps: 3 }, "{transcript}");
    assert!(fake.gcode_sent().contains(&"SET_KINEMATIC_POSITION Z=12.4"), "{:?}", fake.sent);
}

#[test]
fn compute_failure_never_substitutes() {
    let mut fake =
        FakePrinter::new(with_state("toolhead", "{\"position\": [10.0, 20.0, null, 0.0]}"));
    let (outcome, _) = run(&test_plan(), &mut fake);
    match outcome {
        ExecOutcome::Aborted { step_id, cause, .. } => {
            assert_eq!(step_id, 3);
            assert!(matches!(cause, StopCause::ComputeFailed(_)), "{cause:?}");
        }
        other => panic!("expected abort, got {other:?}"),
    }
    assert!(!fake.sent.iter().any(|c| c.contains("SET_KINEMATIC_POSITION")));
}

#[test]
fn placeholder_without_computation_refuses_to_send() {
    let mut plan = test_plan();
    plan.steps[2].compute = None;
    let mut fake = FakePrinter::new(happy_handler);
    let (outcome, _) = run(&plan, &mut fake);
    match outcome {
        ExecOutcome::Aborted { step_id, cause, .. } => {
            assert_eq!(step_id, 3);
            assert!(matches!(cause, StopCause::ComputeFailed(_)));
        }
        other => panic!("expected abort, got {other:?}"),
    }
    assert!(!fake.sent.iter().any(|c| c.contains("{true_z}")));
}

/// Clamp, touch, restore.
fn accel_plan() -> RecoveryPlan {
    let mut clamp = bare_step(1, Phase::Other, "accel-clamp", "accel-clamp-failed");
    clamp.commands = vec!["SET_VELOCITY_LIMIT ACCEL=100".to_owned()];
    clamp.compute = Some(RuntimeComputation::RecordMaxAccel);
    clamp.cleanup_commands = vec!["SET_VELOCITY_LIMIT ACCEL={restore_accel}".to_owned()];
    let mut touch = bare_step(2, Phase::Other, "probe", "probe-no-trigger");
    touch.commands = vec![
        "PLR_TOUCH SAMPLES=3 SAMPLE_RANGE=0.01 SPEED=1 RETRACT=2 TOUCH_ACCEL=100".to_owned(),
    ];
    touch.verify = vec![verification(
        "plr",
        "last_touch_result.median_z",
        Predicate::FinitePresent,
    )];
    let mut restore = bare_step(3, Phase::Other, "accel-restore", "accel-restore-failed");
    restore.commands = vec!["SET_VELOCITY_LIMIT ACCEL={restore_accel}".to_owned()];
    restore.verify = vec![verification(
        "toolhead",
        "max_accel",
        Predicate::NumWithinComputed { epsilon: num(1.0) },
    )];
    plan_of(vec![clamp, touch, restore])
}

/// A printer whose acceleration limit follows the last limit it was sent.
fn accel_handler(
    median: &'static str,
    fail_restore: bool,
) -> impl FnMut(&str, &Value) -> Result<Value, (i64, String)> {
    let mut accel = 3000.0_f64;
    move |method, params| match method {
        "printer.gcode.script" => {
            let script = params["script"].as_str().unwrap_or("");
            if let Some(rest) = script.strip_prefix("SET_VELOCITY_LIMIT ACCEL=") {
                if let Ok(v) = rest.trim().parse::<f64>() {
                    if fail_restore && v > 200.0 {
                        return Err((400, "Move out of range".to_owned()));
                    }
                    accel = v;
                }
            }
            Ok(Value::from("ok"))
        }
        "printer.objects.query" => {
            let mut status = serde_json::Map::new();
            for name in params["objects"].as_object().unwrap().keys() {
                let state = match name.as_str() {
                    "toolhead" => format!(
                        "{{\"position\": [10.0, 20.0, 0.75, 0.0], \"max_accel\": {accel:.1}}}"
                    ),
                    "plr" => format!("{{\"last_touch_result\": {{\"median_z\": {median}}}}}"),
                    other => format!("{{\"unknown\": \"{other}\"}}"),
                };
                status.insert(name.clone(), value(&state));
            }
            let mut result = serde_json::Map::new();
            result.insert("status".to_owned(), Value::Object(status));
            Ok(Value::Object(result))
        }
        other => Err((-32601, format!("Method not found: {other}"))),
    }
}

/// Idle timeout, shifted frame, probe.
fn shifted_plan() -> RecoveryPlan {
    let mut idle = bare_step(1, Phase::Other, "idle-timeout", "idle-timeout-not-applied");
    idle.commands = vec!["SET_IDLE_TIMEOUT TIMEOUT=86400".to_owned()];
    let mut shift =
        bare_step(2, Phase::ShiftedFrame, "shifted-frame", "shifted-frame-not-declared");
    shift.commands = vec!["SET_KINEMATIC_POSITION Z=-1.15".to_owned()];
    let mut probe = bare_step(3, Phase::Other, "probe", "probe-no-trigger");
    probe.commands = vec!["PROBE PROBE_SPEED=1 SAMPLES=1".to_owned()];
    probe.verify = vec![verification("probe", "last_z_result", Predicate::FinitePresent)];
    plan_of(vec![idle, shift, probe])
}

#[test]
fn frame_invalid_is_set_only_at_or_after_the_shifted_frame() {
    let mut fake = FakePrinter::new(with_state("probe", "{\"last_z_result\": null}"));
    let (outcome, transcript) = run(&shifted_plan(), &mut fake);
    match outcome {
        ExecOutcome::Aborted { step_id, frame_invalid, .. } => {
            assert_eq!(step_id, 3);
            assert!(frame_invalid);
        }
        other => panic!("expected abort, got {other:?}"),
    }
    assert!(transcript.contains("\"frame_invalid\":true"), "{transcript}");
}

#[test]
fn frame_invalid_is_false_before_the_shifted_frame() {
    let mut fake = FakePrinter::new(with_state("idle_timeout", "{\"idle_timeout\": 600.0}"));
    let (outcome, _) = run(&test_plan(), &mut fake);
    assert!(matches!(outcome, ExecOutcome::Aborted { frame_invalid: false, .. }));
}

#[test]
fn accel_clamp_records_restores_on_success() {
    let mut fake = FakePrinter::new(accel_handler("0.75", false));
    let (outcome, transcript) = run(&accel_plan(), &mut fake);
    assert_eq!(outcome, ExecOutcome::Completed { steps: 3 }, "{transcript}");
    assert_eq!(
        fake.gcode_sent(),
        vec![
            "SET_VELOCITY_LIMIT ACCEL=100",
            "PLR_TOUCH SAMPLES=3 SAMPLE_RANGE=0.01 SPEED=1 RETRACT=2 TOUCH_ACCEL=100",
            "SET_VELOCITY_LIMIT ACCEL=3000",
        ]
    );
    assert!(transcript.contains("record-accel"), "{transcript}");
    assert!(!transcript.contains("\"event\":\"cleanup\""), "{transcript}");
}

#[test]
fn accel_cleanup_runs_on_abort_and_cannot_mask_the_reason() {
    let mut fake = FakePrinter::new(accel_handler("null", false));
    let (outcome, transcript) = run(&accel_plan(), &mut fake);
    match outcome {
        ExecOutcome::Aborted { step_id, reason, cause, .. } => {
            assert_eq!(step_id, 2);
            assert_eq!(reason, "probe-no-trigger");
            assert!(matches!(cause, StopCause::VerificationFailed { .. }));
        }
        other => panic!("expected abort, got {other:?}"),
    }
    assert!(fake.gcode_sent().contains(&"SET_VELOCITY_LIMIT ACCEL=3000"), "{:?}", fake.sent);
    assert!(transcript.contains("\"event\":\"cleanup\""), "{transcript}");
}

#[test]
fn accel_cleanup_failure_is_logged_but_never_masks_the_reason() {
    let mut fake = FakePrinter::new(accel_handler("null", true));
    let (outcome, transcript) = run(&accel_plan(), &mut fake);
    match outcome {
        ExecOutcome::Aborted { reason, .. } => assert_eq!(reason, "probe-no-trigger"),
        other => panic!("expected abort, got {other:?}"),
    }
    assert!(transcript.contains("cleanup-error"), "{transcript}");
}

#[test]
fn dry_run_lists_commands_and_takes_no_client() {
    let dry = dry_run(&test_plan());
    assert_eq!(
        dry.would_send,
        vec![
            (1, "SET_IDLE_TIMEOUT TIMEOUT=86400".to_owned()),
            (2, "PROBE PROBE_SPEED=1 SAMPLES=1".to_owned()),
            (3, "SET_KINEMATIC_POSITION Z={true_z}".to_owned()),
        ]
    );
    assert!(dry.rendered.contains("idle-timeout"));
    assert!(dry.rendered.contains("fail: abort"));
}

#[test]
fn lookup_walks_dotted_paths_and_indices() {
    let status = json(&value(
        "{\"toolhead\": {\"position\": [1.0, 2.0, 3.5, 0.0], \"homed_axes\": \"xyz\"}}",
    ));
    let found = |object: &str, field: &str| {
        lookup(&status, object, field).map(|j| j.spelling.clone())
    };
    assert_eq!(found("toolhead", "position.2"), Some("3.5".to_owned()));
    assert_eq!(found("toolhead", "homed_axes"), Some("\"xyz\"".to_owned()));
    assert_eq!(found("toolhead", "position.9"), None);
    assert_eq!(found("toolhead", "missing"), None);
    assert_eq!(found("extruder", "target"), None);
}

/// A predicate on a spelled value, with the distance worked out.
fn holds(predicate: &Predicate, spelled: Option<&str>, computed: Option<f64>) -> bool {
    let seen = spelled.map(|s| json(&value(s)));
    let computed = computed.map(num);
    let distance = match (seen.as_ref().and_then(|j| j.as_num()), reference(predicate, computed)) {
        (Some(n), Some(from)) => Some(num((float(n) - float(from)).abs())),
        _ => None,
    };
    evaluate(predicate, seen.as_ref(), computed, distance)
}

#[test]
fn predicates_evaluate_faithfully() {
    let within = Predicate::NumWithin { expected: num(86_400.0), epsilon: num(0.5) };
    assert!(holds(&within, Some("86400.2"), None));
    assert!(!holds(&within, Some("86300.0"), None));
    assert!(!holds(&within, Some("\"86400\""), None));
    assert!(holds(&Predicate::NumAtLeast { min: num(5.0) }, Some("5.0"), None));
    assert!(!holds(&Predicate::NumAtLeast { min: num(5.0) }, Some("4.9"), None));
    assert!(holds(&Predicate::NumAtMost { max: num(5.0) }, Some("5.0"), None));
    assert!(!holds(&Predicate::NumAtMost { max: num(5.0) }, Some("5.1"), None));
    let band = Predicate::TempWithin { min: num(140.0), max: num(160.0) };
    assert!(holds(&band, Some("150.0"), None));
    assert!(!holds(&band, Some("139.9"), None));
    assert!(holds(&Predicate::Contains { needle: "z".to_owned() }, Some("\"xyz\""), None));
    assert!(holds(&Predicate::Equals { value: "ready".to_owned() }, Some("\"ready\""), None));
    assert!(holds(&Predicate::BoolTrue, Some("true"), None));
    assert!(holds(&Predicate::BoolFalse, Some("false"), None));
    assert!(!holds(&Predicate::BoolTrue, Some("\"true\""), None));
    assert!(holds(&Predicate::FinitePresent, Some("1.5"), None));
    assert!(!holds(&Predicate::FinitePresent, Some("null"), None));
    assert!(holds(&Predicate::NonEmptyMatrix, Some("[[0.1], [0.2]]"), None));
    assert!(!holds(&Predicate::NonEmptyMatrix, Some("[[]]"), None));
    let computed = Predicate::NumWithinComputed { epsilon: num(0.05) };
    assert!(holds(&computed, Some("12.26"), Some(12.25)));
    assert!(!holds(&computed, Some("12.26"), None));
    assert!(!holds(&Predicate::BoolTrue, None, None));
}

/// Answers from a script, then with a default, and keeps every question.
struct ScriptedConfirmer {
    answers: VecDeque<ConfirmAnswer>,
    default: ConfirmAnswer,
    asked: Vec<(ConfirmKind, String, u32)>,
    deadlines: Vec<Span>,
}

impl ScriptedConfirmer {
    fn new(answers: &[ConfirmAnswer], default: ConfirmAnswer) -> Self {
        ScriptedConfirmer {
            answers: answers.iter().copied().collect(),
            default,
            asked: Vec::new(),
            deadlines: Vec::new(),
        }
    }
}

impl Confirmer for ScriptedConfirmer {
    fn confirm(&mut self, point: &ConfirmPoint) -> ConfirmAnswer {
        self.asked.push((point.kind, point.diagnosis.code.to_owned(), point.step_id));
        self.deadlines.push(point.deadline);
        self.answers.pop_front().unwrap_or(self.default)
    }
}

fn seconds(value: f64, span: Span) -> Option<Seconds> {
    Some(Seconds { value: num(value), span })
}

#[test]
fn the_confirm_point_carries_the_deadline_the_executor_enforces() {
    let mut plan = z_confirm_plan();
    plan.confirm_timeout_s = seconds(45.0, Span::from_secs(45));
    let mut spy = ScriptedConfirmer::new(&[], ConfirmAnswer::Abort);
    let (outcome, _) = run_with(&plan, &mut FakePrinter::new(happy_handler), &mut spy);
    assert!(matches!(outcome, ExecOutcome::Aborted { .. }), "{outcome:?}");
    assert_eq!(spy.deadlines, vec![Span::from_secs(45)]);

    plan.confirm_timeout_s = None;
    let options = ExecOptions::production(Span::from_secs(600), Span::from_secs(60));
    let mut spy = ScriptedConfirmer::new(&[], ConfirmAnswer::Abort);
    let _ = run_all(
        &plan,
        &mut FakePrinter::new(happy_handler),
        &mut spy,
        &options,
        &mut NoExclusivity,
        &mut NoopFileWriter,
    );
    assert_eq!(spy.deadlines, vec![Span::from_secs(600)]);
}

/// Exclusive for the first `allow` checks, then busy; keeps every budget.
struct LosesAccessAfter {
    allow: usize,
    calls: Vec<Span>,
}

impl Exclusivity for LosesAccessAfter {
    fn recheck(&mut self, budget: Span) -> Result<(), String> {
        self.calls.push(budget);
        if self.calls.len() <= self.allow {
            Ok(())
        } else {
            Err("printer is not idle (print_stats.state \"printing\")".to_owned())
        }
    }
}

#[test]
fn losing_exclusive_gcode_access_aborts_before_the_step_sends_anything() {
    let plan = z_confirm_plan();
    let mut fake = FakePrinter::new(happy_handler);
    let (outcome, transcript) = run_all(
        &plan,
        &mut fake,
        &mut AbortConfirmer,
        &fast_options(),
        &mut LosesAccessAfter { allow: 0, calls: vec![] },
        &mut NoopFileWriter,
    );
    match outcome {
        ExecOutcome::Aborted { step_id, reason, cause, frame_invalid, .. } => {
            assert_eq!(step_id, 1);
            assert_eq!(reason, "exclusive-gcode-access-lost");
            assert!(
                matches!(cause, StopCause::ExclusivityLost(ref why) if why.contains("not idle")),
                "{cause:?}"
            );
            assert!(frame_invalid);
        }
        other => panic!("expected an abort, got {other:?}"),
    }
    assert!(transcript.contains("\"event\":\"exclusivity-lost\""), "{transcript}");
    assert!(fake.gcode_sent().is_empty(), "{:?}", fake.sent);

    let mut fake = FakePrinter::new(happy_handler);
    let (outcome, _) = run_all(
        &plan,
        &mut fake,
        &mut AbortConfirmer,
        &fast_options(),
        &mut LosesAccessAfter { allow: 2, calls: vec![] },
        &mut NoopFileWriter,
    );
    assert!(matches!(outcome, ExecOutcome::Aborted { step_id: 3, .. }), "{outcome:?}");
    assert!(fake.sent.iter().any(|c| c.starts_with("SET_IDLE_TIMEOUT")));
    assert!(fake.sent.iter().any(|c| c.starts_with("PROBE")));
    assert!(!fake.sent.iter().any(|c| c.starts_with("SET_KINEMATIC_POSITION")));
}

#[test]
fn the_recheck_budget_comes_from_the_plan_then_the_daemon_default() {
    for (plan_value, expected) in [
        (seconds(90.0, Span::from_secs(90)), Span::from_secs(90)),
        (None, Span::from_millis(300)),
        (seconds(0.0, Span::zero()), Span::from_millis(300)),
        (seconds(f64::NAN, Span::zero()), Span::from_millis(300)),
    ] {
        let mut plan = z_confirm_plan();
        plan.gcode_barrier_timeout_s = plan_value;
        let mut exclusivity = LosesAccessAfter { allow: 0, calls: vec![] };
        let _ = run_all(
            &plan,
            &mut FakePrinter::new(happy_handler),
            &mut AbortConfirmer,
            &fast_options(),
            &mut exclusivity,
            &mut NoopFileWriter,
        );
        assert_eq!(exclusivity.calls, vec![expected], "plan value {plan_value:?}");
        assert_eq!(plan_duration_or(plan_value, Span::from_millis(300)), expected);
    }
}

fn framed_plan() -> RecoveryPlan {
    let mut plan = test_plan();
    plan.steps[0].phase = Phase::ShiftedFrame;
    plan
}

fn z_confirm_plan() -> RecoveryPlan {
    let mut plan = framed_plan();
    let mut standoff = bare_step(
        4,
        Phase::ZConfirmStandoff,
        "z-confirm-standoff",
        "z-confirm-standoff-failed",
    );
    standoff.commands = vec!["G90".to_owned(), "G1 Z{park_z} F1200".to_owned()];
    standoff.compute = Some(RuntimeComputation::ParkZ { delta_z: num(1.0), z_max: None });
    plan.steps.push(standoff);
    plan
}

fn warning(code: &'static str, tier: Tier) -> Diagnosis {
    Diagnosis::new(code, tier, "what".to_owned(), "why".to_owned(), "fix".to_owned())
}

#[test]
fn an_advisory_diagnosis_proceeds_and_is_transcribed() {
    let mut plan = test_plan();
    plan.warnings = vec![warning("resume_not_on_infill", Tier::Advisory)];
    let mut confirmer = ScriptedConfirmer::new(&[], ConfirmAnswer::Abort);
    let (outcome, transcript) =
        run_with(&plan, &mut FakePrinter::new(happy_handler), &mut confirmer);
    assert_eq!(outcome, ExecOutcome::Completed { steps: 3 }, "{transcript}");
    assert!(confirmer.asked.is_empty());
    assert!(transcript.contains("\"event\":\"advisory\""), "{transcript}");
    assert!(transcript.contains("resume_not_on_infill"), "{transcript}");
    assert!(transcript.contains("\"tier\":\"advisory\""), "{transcript}");
}

#[test]
fn a_confirmable_diagnosis_aborts_by_default_before_anything_is_sent() {
    let mut plan = test_plan();
    plan.warnings = vec![warning("purge_z_below_resume", Tier::Confirmable)];
    let mut fake = FakePrinter::new(happy_handler);
    let (outcome, transcript) = run(&plan, &mut fake);
    match outcome {
        ExecOutcome::Aborted { step_id, reason, cause, frame_invalid, .. } => {
            assert_eq!(step_id, 1);
            assert_eq!(reason, "confirmation-declined");
            assert!(!frame_invalid);
            assert_eq!(
                cause,
                StopCause::ConfirmationDeclined {
                    kind: ConfirmKind::Diagnosis,
                    code: "purge_z_below_resume",
                }
            );
        }
        other => panic!("expected abort, got {other:?}"),
    }
    assert!(fake.gcode_sent().is_empty(), "{:?}", fake.sent);
    assert!(transcript.contains("\"event\":\"confirm-pause\""), "{transcript}");
    assert!(transcript.contains("\"answer\":\"abort\""), "{transcript}");
}

#[test]
fn a_confirmable_diagnosis_answered_continue_proceeds() {
    let mut plan = test_plan();
    plan.warnings = vec![warning("purge_z_below_resume", Tier::Confirmable)];
    let mut fake = FakePrinter::new(happy_handler);
    let mut confirmer = ScriptedConfirmer::new(&[ConfirmAnswer::Continue], ConfirmAnswer::Abort);
    let (outcome, transcript) = run_with(&plan, &mut fake, &mut confirmer);
    assert_eq!(outcome, ExecOutcome::Completed { steps: 3 }, "{transcript}");
    assert_eq!(confirmer.asked.len(), 1);
    assert_eq!(confirmer.asked[0].0, ConfirmKind::Diagnosis);
    assert_eq!(confirmer.asked[0].1, "purge_z_below_resume");
    assert!(transcript.contains("\"answer\":\"continue\""), "{transcript}");
    assert_eq!(fake.gcode_sent().len(), 3);
}

#[test]
fn a_hard_diagnosis_refuses_the_plan() {
    let mut plan = test_plan();
    plan.warnings = vec![warning("outside_the_bed", Tier::Hard)];
    let mut fake = FakePrinter::new(happy_handler);
    let mut confirmer = ScriptedConfirmer::new(&[], ConfirmAnswer::Continue);
    let (outcome, transcript) = run_with(&plan, &mut fake, &mut confirmer);
    match outcome {
        ExecOutcome::Aborted { step_id, cause, .. } => {
            assert_eq!(step_id, 1);
            assert_eq!(cause, StopCause::HardDiagnosis { code: "outside_the_bed" });
        }
        other => panic!("expected abort, got {other:?}"),
    }
    assert!(confirmer.asked.is_empty());
    assert!(fake.gcode_sent().is_empty());
    assert!(transcript.contains("outside_the_bed"), "{transcript}");
}

#[test]
fn the_z_confirmation_reports_the_believed_z_and_continues() {
    let mut confirmer = ScriptedConfirmer::new(&[ConfirmAnswer::Continue], ConfirmAnswer::Abort);
    let (outcome, transcript) =
        run_with(&z_confirm_plan(), &mut FakePrinter::new(happy_handler), &mut confirmer);
    assert_eq!(outcome, ExecOutcome::Completed { steps: 4 }, "{transcript}");
    assert_eq!(
        confirmer.asked,
        vec![(ConfirmKind::ZHeight, "z_confirm_before_resume".to_owned(), 4)]
    );
    let pause_at = transcript.find("\"confirm-pause\"").unwrap();
    let step_ok = transcript.find("\"step-ok\",\"step\":4").unwrap();
    assert!(step_ok < pause_at, "{transcript}");
    assert!(transcript.contains("z_prev_top"), "{transcript}");
    assert!(transcript.contains("last_z_result"), "{transcript}");
    assert!(transcript.contains("live_toolhead_z"), "{transcript}");
}

#[test]
fn declining_the_z_confirmation_aborts_and_invalidates_the_frame() {
    let mut confirmer = ScriptedConfirmer::new(&[ConfirmAnswer::Abort], ConfirmAnswer::Abort);
    let (outcome, transcript) =
        run_with(&z_confirm_plan(), &mut FakePrinter::new(happy_handler), &mut confirmer);
    match outcome {
        ExecOutcome::Aborted { step_id, reason, frame_invalid, .. } => {
            assert_eq!(step_id, 4);
            assert_eq!(reason, "confirmation-declined");
            assert!(frame_invalid);
        }
        other => panic!("expected abort, got {other:?}"),
    }
    assert!(transcript.contains("\"frame_invalid\":true"), "{transcript}");
}

#[test]
fn an_unanswered_confirmation_times_out_into_the_same_clean_abort() {
    let mut silent = ScriptedConfirmer::new(&[], ConfirmAnswer::TimedOut);
    let (outcome, transcript) =
        run_with(&z_confirm_plan(), &mut FakePrinter::new(happy_handler), &mut silent);
    match outcome {
        ExecOutcome::Aborted { step_id, reason, cause, frame_invalid, .. } => {
            assert_eq!(step_id, 4);
            assert_eq!(reason, "confirmation-timeout");
            assert_eq!(
                cause,
                StopCause::ConfirmationTimedOut {
                    kind: ConfirmKind::ZHeight,
                    code: "z_confirm_before_resume",
                }
            );
            assert!(frame_invalid);
        }
        other => panic!("expected abort, got {other:?}"),
    }
    assert!(transcript.contains("\"answer\":\"timeout\""), "{transcript}");
    assert!(transcript.contains("\"frame_invalid\":true"), "{transcript}");
}

#[test]
fn the_plans_confirm_timeout_overrides_the_daemon_default() {
    let mut plan = z_confirm_plan();
    plan.confirm_timeout_s = seconds(0.05, Span::from_millis(50));
    let mut options = fast_options();
    options.confirm_timeout = Span::from_secs(60);
    let mut silent = ScriptedConfirmer::new(&[], ConfirmAnswer::TimedOut);
    let (outcome, transcript) = run_all(
        &plan,
        &mut FakePrinter::new(happy_handler),
        &mut silent,
        &options,
        &mut NoExclusivity,
        &mut NoopFileWriter,
    );
    match outcome {
        ExecOutcome::Aborted { reason, .. } => assert_eq!(reason, "confirmation-timeout"),
        other => panic!("expected abort, got {other:?}"),
    }
    assert_eq!(silent.deadlines, vec![Span::from_millis(50)]);
    assert!(transcript.contains("\"answer\":\"timeout\""), "{transcript}");

    let mut silent = ScriptedConfirmer::new(&[], ConfirmAnswer::TimedOut);
    let (outcome, _) =
        run_with(&z_confirm_plan(), &mut FakePrinter::new(happy_handler), &mut silent);
    assert!(matches!(outcome, ExecOutcome::Aborted { .. }));
    assert_eq!(silent.deadlines, vec![Span::from_millis(300)]);
}

#[test]
fn step_debug_pauses_before_every_step_and_reports_it() {
    let mut plan = test_plan();
    plan.debug_confirm_each_step = true;
    let mut confirmer = ScriptedConfirmer::new(&[], ConfirmAnswer::Continue);
    let (outcome, transcript) =
        run_with(&plan, &mut FakePrinter::new(happy_handler), &mut confirmer);
    assert_eq!(outcome, ExecOutcome::Completed { steps: 3 }, "{transcript}");
    assert_eq!(confirmer.asked.len(), 3);
    assert!(confirmer
        .asked
        .iter()
        .all(|(k, c, _)| *k == ConfirmKind::StepDebug && c == "step_debug_pause"));
    assert_eq!(confirmer.asked.iter().map(|a| a.2).collect::<Vec<_>>(), vec![1, 2, 3]);
    assert!(transcript.contains("SET_IDLE_TIMEOUT TIMEOUT=86400"), "{transcript}");
    assert!(transcript.contains("\"pre_verify\""), "{transcript}");

    let mut declining = ScriptedConfirmer::new(
        &[ConfirmAnswer::Continue, ConfirmAnswer::Abort],
        ConfirmAnswer::Abort,
    );
    let mut fake = FakePrinter::new(happy_handler);
    let (outcome, _) = run_with(&plan, &mut fake, &mut declining);
    assert!(matches!(outcome, ExecOutcome::Aborted { step_id: 2, .. }), "{outcome:?}");
    assert_eq!(fake.gcode_sent(), vec!["SET_IDLE_TIMEOUT TIMEOUT=86400"]);
}

#[test]
fn confirm_points_are_byte_identical_to_today_when_disabled() {
    let plan = test_plan();
    assert!(!plan.debug_confirm_each_step);
    let mut fake_a = FakePrinter::new(happy_handler);
    let (outcome_a, transcript_a) = run(&plan, &mut fake_a);
    let mut fake_b = FakePrinter::new(happy_handler);
    let mut confirmer = ScriptedConfirmer::new(&[], ConfirmAnswer::Abort);
    let (outcome_b, transcript_b) = run_with(&plan, &mut fake_b, &mut confirmer);
    assert_eq!(outcome_a, ExecOutcome::Completed { steps: 3 });
    assert_eq!(outcome_a, outcome_b);
    assert_eq!(transcript_a, transcript_b);
    assert_eq!(fake_a.gcode_sent(), fake_b.gcode_sent());
    assert!(confirmer.asked.is_empty());
    for absent in ["confirm-pause", "confirm-answer", "advisory"] {
        assert!(!transcript_a.contains(absent), "{absent}: {transcript_a}");
    }
}

/// The machine's acceleration around the touch clamp.
fn two_slot_accel_plan() -> RecoveryPlan {
    let mut machine = bare_step(1, Phase::Other, "recovery-accel", "recovery-accel-failed");
    machine.commands = vec!["SET_VELOCITY_LIMIT ACCEL=1000".to_owned()];
    machine.compute = Some(RuntimeComputation::RecordMachineAccel);
    machine.cleanup_commands = vec!["SET_VELOCITY_LIMIT ACCEL={machine_accel}".to_owned()];
    let mut clamp = bare_step(2, Phase::Other, "accel-clamp", "accel-clamp-failed");
    clamp.commands = vec!["SET_VELOCITY_LIMIT ACCEL=100".to_owned()];
    clamp.compute = Some(RuntimeComputation::RecordMaxAccel);
    clamp.cleanup_commands = vec!["SET_VELOCITY_LIMIT ACCEL={restore_accel}".to_owned()];
    let mut touch = bare_step(3, Phase::Other, "probe", "probe-no-trigger");
    touch.commands = vec!["PLR_TOUCH SAMPLES=3".to_owned()];
    touch.verify = vec![verification(
        "plr",
        "last_touch_result.median_z",
        Predicate::FinitePresent,
    )];
    let mut restore = bare_step(4, Phase::Other, "accel-restore", "accel-restore-failed");
    restore.commands = vec!["SET_VELOCITY_LIMIT ACCEL={restore_accel}".to_owned()];
    let mut back = bare_step(
        5,
        Phase::Other,
        "recovery-accel-restore",
        "recovery-accel-restore-failed",
    );
    back.commands = vec!["SET_VELOCITY_LIMIT ACCEL={machine_accel}".to_owned()];
    plan_of(vec![machine, clamp, touch, restore, back])
}

#[test]
fn both_accel_slots_restore_independently_on_the_success_path() {
    let mut fake = FakePrinter::new(accel_handler("0.75", false));
    let (outcome, transcript) = run(&two_slot_accel_plan(), &mut fake);
    assert_eq!(outcome, ExecOutcome::Completed { steps: 5 }, "{transcript}");
    assert_eq!(
        fake.gcode_sent(),
        vec![
            "SET_VELOCITY_LIMIT ACCEL=1000",
            "SET_VELOCITY_LIMIT ACCEL=100",
            "PLR_TOUCH SAMPLES=3",
            "SET_VELOCITY_LIMIT ACCEL=1000",
            "SET_VELOCITY_LIMIT ACCEL=3000",
        ]
    );
    assert!(transcript.contains("record-machine-accel"), "{transcript}");
}

#[test]
fn both_accel_slots_restore_in_reverse_order_on_abort() {
    let mut fake = FakePrinter::new(accel_handler("null", false));
    let (outcome, transcript) = run(&two_slot_accel_plan(), &mut fake);
    match outcome {
        ExecOutcome::Aborted { step_id, reason, .. } => {
            assert_eq!(step_id, 3);
            assert_eq!(reason, "probe-no-trigger");
        }
        other => panic!("expected abort, got {other:?}"),
    }
    assert_eq!(
        fake.gcode_sent(),
        vec![
            "SET_VELOCITY_LIMIT ACCEL=1000",
            "SET_VELOCITY_LIMIT ACCEL=100",
            "PLR_TOUCH SAMPLES=3",
            "SET_VELOCITY_LIMIT ACCEL=1000",
            "SET_VELOCITY_LIMIT ACCEL=3000",
        ],
        "{transcript}"
    );
}

#[test]
fn a_machine_accel_placeholder_without_a_record_refuses_to_send() {
    let mut plan = two_slot_accel_plan();
    plan.steps[0].compute = None;
    plan.steps[0].cleanup_commands = vec![];
    let mut fake = FakePrinter::new(accel_handler("0.75", false));
    let (outcome, _) = run(&plan, &mut fake);
    match outcome {
        ExecOutcome::Aborted { step_id, cause, .. } => {
            assert_eq!(step_id, 5);
            assert!(matches!(cause, StopCause::ComputeFailed(_)), "{cause:?}");
        }
        other => panic!("expected abort, got {other:?}"),
    }
    assert!(!fake.sent.iter().any(|c| c.contains("{machine_accel}")));
}

#[test]
fn a_cleanup_without_a_record_is_skipped() {
    let mut plan = two_slot_accel_plan();
    plan.steps[0].compute = None;
    let mut fake = FakePrinter::new(accel_handler("null", false));
    let (_, transcript) = run(&plan, &mut fake);
    assert!(transcript.contains("\"event\":\"cleanup-skip\""), "{transcript}");
    assert!(transcript.contains("no recorded accel to substitute"), "{transcript}");
    assert!(!fake.sent.iter().any(|c| c.contains("{machine_accel}")));
}

#[test]
fn every_step_failure_variant_explains_itself() {
    for failure in [
        StepFailure::ProbeTriggeredEarly,
        StepFailure::NoTrigger,
        StepFailure::MoveOutOfRange,
        StepFailure::Unknown,
    ] {
        let d = failure.diagnosis();
        assert_eq!(d.tier, Tier::Hard, "{failure:?}");
        assert_eq!(d.override_key, None);
        assert!(!d.what.trim().is_empty(), "{failure:?}");
        assert!(!d.why.trim().is_empty(), "{failure:?}");
        assert!(d.suggested_fix.len() > 20, "{failure:?}");
    }
}

#[test]
fn an_aborting_command_error_carries_its_diagnosis_into_the_transcript() {
    let mut fake = FakePrinter::new(failing_scripts("No trigger on probe after full movement"));
    let (_, transcript) = run(&test_plan(), &mut fake);
    assert!(transcript.contains("probe_no_trigger"), "{transcript}");
    assert!(transcript.contains("envelope_margin"), "{transcript}");
    assert!(transcript.contains("\"tier\":\"hard\""), "{transcript}");
}

/// Plays preview answers, then aborts.
struct ScriptedPreview {
    answers: VecDeque<PreviewAnswer>,
}

impl Confirmer for ScriptedPreview {
    fn confirm(&mut self, _point: &ConfirmPoint) -> ConfirmAnswer {
        ConfirmAnswer::Abort
    }

    fn confirm_preview(&mut self, _point: &ConfirmPoint) -> PreviewAnswer {
        self.answers.pop_front().unwrap_or(PreviewAnswer::Abort)
    }
}

/// Keeps every tail offset it is asked to write.
struct RecordingWriter {
    offsets: Vec<u64>,
    fault: Option<String>,
}

impl RecoveryFileWriter for RecordingWriter {
    fn write_for(&mut self, binding: &PreviewBinding) -> Result<(), String> {
        self.offsets.push(binding.tail_offset);
        match &self.fault {
            Some(why) => Err(why.clone()),
            None => Ok(()),
        }
    }
}

fn preview_stop(index: u32, offset: u64) -> PreviewStop {
    PreviewStop {
        offset,
        resume_offset: offset,
        x: reading(10.0 + f64::from(index)),
        y: reading(20.0),
        z: num(0.4),
        layer: Some(1),
        feature: "internal-infill".to_owned(),
        on_infill: true,
        is_candidate: true,
    }
}

fn binding(tail_offset: u64, entry: &str) -> PreviewBinding {
    PreviewBinding { tail_offset, entry_commands: vec![entry.to_owned()] }
}

fn preview_plan(steps: Vec<RecoveryStep>) -> RecoveryPlan {
    let mut plan = plan_of(steps);
    plan.resume_offset = 300;
    plan.preview = Some(PreviewSpec {
        stops: vec![preview_stop(0, 100), preview_stop(1, 200), preview_stop(2, 300)],
        representatives: vec![0, 2],
        default_index: 2,
        bindings: vec![
            binding(100, "G1 X10 Y20"),
            binding(200, "G1 X11 Y20"),
            binding(300, "G1 X12 Y20"),
        ],
        travel_feed: reading(6000.0),
    });
    plan
}

fn resume_preview_step(id: u32) -> RecoveryStep {
    let mut step = bare_step(id, Phase::ResumePreview, "resume-preview", "resume-preview-failed");
    step.commands =
        vec!["G90".to_owned(), "G1 Z{park_z} F1200".to_owned(), "M104 S150".to_owned()];
    step.compute =
        Some(RuntimeComputation::HoverPlane { target_z: num(0.5), z_max: Some(num(300.0)) });
    step
}

fn shifted_frame_step(id: u32) -> RecoveryStep {
    let mut step =
        bare_step(id, Phase::ShiftedFrame, "shifted-frame", "shifted-frame-not-declared");
    step.commands = vec!["SET_KINEMATIC_POSITION Z=1".to_owned()];
    step
}

#[test]
fn preview_accept_writes_the_chosen_stop_once_and_rechecks_per_reposition() {
    let mut confirmer = ScriptedPreview {
        answers: [PreviewAnswer::Nudge(-1), PreviewAnswer::Nudge(-1), PreviewAnswer::Accept].into(),
    };
    let mut writer = RecordingWriter { offsets: vec![], fault: None };
    let mut exclusivity = LosesAccessAfter { allow: 100, calls: vec![] };
    let mut fake = FakePrinter::new(happy_handler);
    let (outcome, _) = run_all(
        &preview_plan(vec![resume_preview_step(1)]),
        &mut fake,
        &mut confirmer,
        &fast_options(),
        &mut exclusivity,
        &mut writer,
    );
    assert!(matches!(outcome, ExecOutcome::Completed { .. }));
    assert_eq!(writer.offsets, vec![100]);
    assert_eq!(exclusivity.calls.len(), 4);
    assert_eq!(
        fake.gcode_sent(),
        vec![
            "G90",
            "G1 Z0.75 F1200",
            "M104 S150",
            "G1 X12 Y20 F6000",
            "G1 X11 Y20 F6000",
            "G1 X10 Y20 F6000",
        ]
    );
}

#[test]
fn preview_abort_invalidates_the_frame_and_never_writes() {
    let mut confirmer = ScriptedPreview { answers: [PreviewAnswer::Abort].into() };
    let mut writer = RecordingWriter { offsets: vec![], fault: None };
    let (outcome, _) = run_all(
        &preview_plan(vec![shifted_frame_step(1), resume_preview_step(2)]),
        &mut FakePrinter::new(happy_handler),
        &mut confirmer,
        &fast_options(),
        &mut NoExclusivity,
        &mut writer,
    );
    match outcome {
        ExecOutcome::Aborted { frame_invalid, phase, .. } => {
            assert!(frame_invalid);
            assert_eq!(phase, "resume-preview");
        }
        other => panic!("expected an abort, got {other:?}"),
    }
    assert!(writer.offsets.is_empty());
}

#[test]
fn preview_jumps_between_representatives_and_stays_within_the_stops() {
    let mut confirmer = ScriptedPreview {
        answers: [
            PreviewAnswer::PrevRep,
            PreviewAnswer::Nudge(-5),
            PreviewAnswer::NextRep,
            PreviewAnswer::Nudge(7),
            PreviewAnswer::Nudge(-1),
            PreviewAnswer::Accept,
        ]
        .into(),
    };
    let mut writer = RecordingWriter { offsets: vec![], fault: Some("disk full".to_owned()) };
    let mut fake = FakePrinter::new(happy_handler);
    let (outcome, transcript) = run_all(
        &preview_plan(vec![resume_preview_step(1)]),
        &mut fake,
        &mut confirmer,
        &fast_options(),
        &mut NoExclusivity,
        &mut writer,
    );
    assert_eq!(
        fake.gcode_sent()[3..].to_vec(),
        vec![
            "G1 X12 Y20 F6000",
            "G1 X10 Y20 F6000",
            "G1 X10 Y20 F6000",
            "G1 X12 Y20 F6000",
            "G1 X12 Y20 F6000",
            "G1 X11 Y20 F6000",
        ]
    );
    assert_eq!(writer.offsets, vec![200]);
    assert!(matches!(outcome, ExecOutcome::Aborted { .. }), "{outcome:?}");
    assert!(transcript.contains("disk full"), "{transcript}");
}

#[test]
fn preview_timeout_aborts_without_a_file() {
    let mut confirmer = ScriptedPreview { answers: [PreviewAnswer::TimedOut].into() };
    let mut writer = RecordingWriter { offsets: vec![], fault: None };
    let (outcome, transcript) = run_all(
        &preview_plan(vec![resume_preview_step(1)]),
        &mut FakePrinter::new(happy_handler),
        &mut confirmer,
        &fast_options(),
        &mut NoExclusivity,
        &mut writer,
    );
    match outcome {
        ExecOutcome::Aborted { cause, .. } => assert_eq!(
            cause,
            StopCause::ConfirmationTimedOut { kind: ConfirmKind::Preview, code: "resume_preview" }
        ),
        other => panic!("expected an abort, got {other:?}"),
    }
    assert!(writer.offsets.is_empty());
    assert!(transcript.contains("\"answer\":\"timeout\""), "{transcript}");
}

#[test]
fn dry_run_holds_a_writer_that_cannot_write() {
    let mut writer = NoopFileWriter;
    let binding = PreviewBinding { tail_offset: 42, entry_commands: vec![] };
    assert!(writer.write_for(&binding).is_ok());
}

/// An interlock that cannot be written.
struct BrokenGuard;

impl FrameGuard for BrokenGuard {
    fn arm(&mut self, _step: &RecoveryStep) -> Result<(), String> {
        Err("read-only file system".to_owned())
    }
}

#[test]
fn an_unwritable_interlock_stops_before_the_shifted_frame() {
    let mut fake = FakePrinter::new(happy_handler);
    let hands = Hands {
        gate: &mut |_| true,
        confirmer: &mut AbortConfirmer,
        guard: &mut BrokenGuard,
        writer: &mut NoopFileWriter,
    };
    let (outcome, transcript) =
        execute(&shifted_plan(), &mut fake, &fast_options(), hands, &mut |_, _| Ok(()));
    match outcome {
        ExecOutcome::Aborted { step_id, cause, .. } => {
            assert_eq!(step_id, 2);
            assert_eq!(cause, StopCause::FrameGuardUnwritable("read-only file system".to_owned()));
        }
        other => panic!("expected an abort, got {other:?}"),
    }
    assert_eq!(fake.gcode_sent(), vec!["SET_IDLE_TIMEOUT TIMEOUT=86400"]);
    assert!(transcript.contains("read-only file system"), "{transcript}");
}

#[test]
fn a_failed_status_query_is_a_transport_stop() {
    let mut fake = FakePrinter::new(|method: &str, params: &Value| {
        if method == "printer.objects.query" {
            Err((503, "Klippy not connected".to_owned()))
        } else {
            happy_handler(method, params)
        }
    });
    let (outcome, _) = run(&test_plan(), &mut fake);
    match outcome {
        ExecOutcome::Aborted { step_id, cause, .. } => {
            assert_eq!(step_id, 1);
            match cause {
                StopCause::Transport(why) => {
                    assert!(why.contains("Klippy not connected"), "{why}");
                }
                other => panic!("{other:?}"),
            }
        }
        other => panic!("expected an abort, got {other:?}"),
    }
}

#[test]
fn an_empty_plan_is_complete_at_once() {
    let mut fake = FakePrinter::new(happy_handler);
    let (outcome, transcript) = run(&plan_of(vec![]), &mut fake);
    assert_eq!(outcome, ExecOutcome::Completed { steps: 0 });
    assert_eq!(fake.calls, 0);
    assert!(transcript.contains("\"event\":\"plan-complete\",\"steps\":0"), "{transcript}");
}

#[test]
fn production_tuning_is_what_the_printer_needs() {
    let options = ExecOptions::production(Span::from_secs(600), Span::from_secs(60));
    assert_eq!(options.verify_timeout, Span::from_secs(10));
    assert_eq!(options.temp_timeout, Span::from_secs(900));
    assert_eq!(options.poll_interval, Span::from_millis(500));
    assert_eq!(options.confirm_timeout, Span::from_secs(600));
    assert_eq!(options.gcode_barrier_timeout, Span::from_secs(60));
}

/// The same plan up to its Z-height question, which is then answered `answer`.
fn ended_by(answer: ConfirmAnswer) -> (Vec<String>, String) {
    let mut confirmer = ScriptedConfirmer::new(&[], answer);
    let mut fake = FakePrinter::new(happy_handler);
    let (_, transcript) = run_with(&z_confirm_plan(), &mut fake, &mut confirmer);
    (fake.gcode_sent().into_iter().map(str::to_owned).collect(), transcript)
}

#[test]
fn silence_sends_what_a_refusal_sends() {
    let (by_refusal, refused) = ended_by(ConfirmAnswer::Abort);
    let (by_silence, silent) = ended_by(ConfirmAnswer::TimedOut);
    assert_eq!(by_refusal, by_silence);
    assert_eq!(refused.lines().count(), silent.lines().count());
    assert!(refused.contains("\"answer\":\"abort\""), "{refused}");
    assert!(silent.contains("\"answer\":\"timeout\""), "{silent}");
}

#[test]
fn a_transcript_that_is_cut_short_names_what_was_out() {
    let mut only = bare_step(1, Phase::ShiftedFrame, "shifted-frame", "shifted-frame-failed");
    only.commands = vec!["G28 Z".to_owned(), "M400".to_owned()];
    only.cleanup_commands = vec!["M84".to_owned()];
    let plan = plan_of(vec![only]);
    let mut log = Vec::new();
    let mut executor = Executor::start(&plan, &mut log);
    assert!(matches!(log[0], Entry::PlanStart));
    executor.on_event(&plan, Event::Gate(true), &mut log);
    executor.on_event(&plan, Event::Exclusive(Ok(())), &mut log);
    executor.on_event(&plan, Event::Armed(Ok(())), &mut log);
    assert_eq!(executor.stage, Stage::Send(0));
    assert!(matches!(log.last(), Some(Entry::Send { step: 0, command: 0 })));
    executor.on_event(&plan, Event::Sent(Ok(())), &mut log);
    assert!(matches!(log[log.len() - 2], Entry::ResponseOk(0)));
    assert!(matches!(log.last(), Some(Entry::Send { step: 0, command: 1 })));
    executor.on_event(&plan, Event::Sent(Err("Must home first".to_owned())), &mut log);
    assert!(matches!(log[log.len() - 2], Entry::ResponseError { step: 0, .. }));
    assert!(matches!(log.last(), Some(Entry::Cleanup { step: 0, command: 0 })));
    executor.on_event(&plan, Event::Sent(Ok(())), &mut log);
    assert_eq!(executor.stage, Stage::Aborted);
    assert!(matches!(log[log.len() - 2], Entry::CleanupOk(0)));
    assert!(matches!(log.last(), Some(Entry::Abort(0))));
}

#[test]
fn an_event_that_is_not_awaited_changes_nothing() {
    let plan = z_confirm_plan();
    let mut log = Vec::new();
    let mut executor = Executor::start(&plan, &mut log);
    let recorded = log.len();
    executor.on_event(&plan, Event::Answer(ConfirmAnswer::Continue), &mut log);
    executor.on_event(&plan, Event::Sent(Ok(())), &mut log);
    assert_eq!(executor.stage, Stage::Gate);
    assert_eq!(log.len(), recorded);
    executor.on_event(&plan, Event::Gate(false), &mut log);
    assert_eq!(executor.stage, Stage::Aborted);
    assert!(matches!(log[recorded], Entry::OperatorDeclined(0)));
}

#[test]
fn a_question_is_on_record_before_it_is_answered() {
    let mut plan = z_confirm_plan();
    plan.warnings = vec![warning("E-TEST", Tier::Confirmable)];
    let mut log = Vec::new();
    let mut executor = Executor::start(&plan, &mut log);
    assert_eq!(executor.stage, Stage::Warning(0));
    match log.last() {
        Some(Entry::ConfirmPause { step: 0, pause, shown: None, live_z: None }) => {
            assert_eq!(*pause, Pause::Warning(0));
        }
        other => panic!("{other:?}"),
    }
    executor.on_event(&plan, Event::Answer(ConfirmAnswer::Abort), &mut log);
    assert!(matches!(log[log.len() - 2], Entry::ConfirmAnswer { step: 0, .. }));
    assert!(matches!(log.last(), Some(Entry::Abort(0))));
}
