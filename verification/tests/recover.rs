//! The recover subcommand: from an outcome to an exit code, against a fake
//! printer, a directory held in memory and scripted standard input.

use plrd::execution::{Check, Event, Executor, Stage};
use plrd::executor::{
    ConfirmAnswer, ExecOptions, ExecOutcome, FrameGuard, NoopFileWriter, PreviewAnswer,
    RecoveryFileWriter,
};
use plrd::gates::{
    barrier_budget, printer_ready_and_idle, IdleCheck, IdleEvent, GCODE_BARRIER_SENTINEL,
};
use plrd::json::{lookup, Json, Kind, Member, Number, Text};
use plrd::launch::{entry_marker, Cleanup, FrameInvalid, Launch, LaunchEvent};
use plrd::machine::{machine_config, ConfigFile, MachineSection};
use plrd::moonraker::{
    gcode_script_params, query_objects_params, query_status, Frame, MoonrakerClient, MoonrakerError,
};
use plrd::narration::{CompletionReport, RemainingWork};
use plrd::number::{Num, Reading, Span};
use plrd::pipeline::PipelineOutcome;
use plrd::plan::{
    reference, Diagnosis, Phase, Predicate, RecoveryFileSpec, RecoveryPlan, RecoveryStep,
    RuntimeComputation, Tier, TriggerSource, TrueZFormula, Verification,
};
use plrd::prompts::{AbortConfirmer, ConfirmPoint, Confirmer, Detail};
use plrd::recover::{
    announce_step, drive, on_consent, read_yes, run_recover, step_allowed, step_prompt, Next,
    RecoverOptions, CONSENT_PROMPT, EXIT_OK, EXIT_RUNTIME, EXIT_USAGE,
};
use plrd::recovery_file::{
    join_path, point_plan, preview_recovery_file, trim_separators, Claim, GateEntry, PlanBundle,
    RECOVERY_NAME_RETRIES,
};
use plrd::transcript::{gate_record, record, Part, Slot, Transcript, Value as Recorded};
use serde_json::Value;
use std::collections::BTreeMap;

fn value(text: &str) -> Value {
    serde_json::from_str(text).unwrap()
}

fn canonical(number: f64) -> Option<String> {
    if !number.is_finite() {
        None
    } else if number.abs() < 1e15 && number.fract() == 0.0 {
        Some(format!("{}", number as i64))
    } else {
        Some(format!("{number}"))
    }
}

fn json(v: &Value) -> Json {
    let kind = match v {
        Value::Null => Kind::Null,
        Value::Bool(b) => Kind::Bool(*b),
        Value::Number(n) => {
            let number = n.as_f64().unwrap();
            Kind::Number(Number {
                reading: Reading {
                    num: Num { bits: number.to_bits() },
                    spelling: format!("{number}"),
                },
                integer: n.as_i64().map(i128::from).or(n.as_u64().map(i128::from)),
                canonical: canonical(number),
            })
        }
        Value::String(s) => {
            let collapsed = s.split_whitespace().collect::<Vec<_>>().join(" ");
            Kind::Text(Text {
                value: s.clone(),
                canonical: collapsed.parse::<f64>().ok().and_then(canonical),
            })
        }
        Value::Array(items) => Kind::Array(items.iter().map(json).collect()),
        Value::Object(map) => Kind::Object(members(map)),
    };
    Json { kind, spelling: v.to_string() }
}

fn members(map: &serde_json::Map<String, Value>) -> Vec<Member> {
    map.iter().map(|(key, v)| Member { key: key.clone(), value: json(v) }).collect()
}

fn num(x: f64) -> Num {
    Num { bits: x.to_bits() }
}

fn bare_step(id: u32, phase: Phase, phase_name: &str, abort_code: &str) -> RecoveryStep {
    RecoveryStep {
        id,
        phase,
        phase_name: phase_name.to_owned(),
        summary: phase_name.to_owned(),
        commands: vec![],
        pre_verify: vec![],
        verify: vec![],
        compute: None,
        cleanup_commands: vec![],
        abort_code: abort_code.to_owned(),
    }
}

fn verification(object: &str, field: &str, predicate: Predicate) -> Verification {
    Verification {
        object: object.to_owned(),
        field: field.to_owned(),
        description: format!("{predicate:?}"),
        predicate,
    }
}

fn plan_of(steps: Vec<RecoveryStep>) -> RecoveryPlan {
    RecoveryPlan {
        steps,
        resume_file: "x_RECOVERY.gcode".to_owned(),
        resume_offset: 1234,
        recovery_file: RecoveryFileSpec {
            name: "x_RECOVERY.gcode".to_owned(),
            source_name: "x.gcode".to_owned(),
        },
        debug_confirm_each_step: false,
        confirm_timeout_s: None,
        gcode_barrier_timeout_s: None,
        preview: None,
        warnings: vec![],
        rendered: "step 1 [idle-timeout] disarm idle timeout\n  fail: abort\n".to_owned(),
    }
}

/// Three steps: an idle timeout with its check, a probe behind a temperature
/// check, and the declaration of the true Z.
fn test_plan() -> RecoveryPlan {
    let mut idle = bare_step(1, Phase::Other, "idle-timeout", "idle-timeout-not-applied");
    idle.summary = "disarm idle timeout".to_owned();
    idle.commands = vec!["SET_IDLE_TIMEOUT TIMEOUT=86400".to_owned()];
    idle.verify = vec![verification(
        "idle_timeout",
        "idle_timeout",
        Predicate::NumWithin { expected: num(86_400.0), epsilon: num(0.5) },
    )];
    let mut probe = bare_step(2, Phase::Other, "probe", "probe-no-trigger");
    probe.commands = vec!["PROBE PROBE_SPEED=1 SAMPLES=1".to_owned()];
    probe.pre_verify = vec![verification(
        "extruder",
        "temperature",
        Predicate::TempWithin { min: num(140.0), max: num(160.0) },
    )];
    probe.verify = vec![verification("probe", "last_z_result", Predicate::FinitePresent)];
    let mut declare =
        bare_step(3, Phase::TrueZDeclare, "true-z-declare", "true-z-declare-failed");
    declare.summary = "declare true Z".to_owned();
    declare.commands = vec!["SET_KINEMATIC_POSITION Z={true_z}".to_owned()];
    declare.compute = Some(true_z(TriggerSource::RawLastZResult));
    plan_of(vec![idle, probe, declare])
}

fn true_z(trigger_source: TriggerSource) -> RuntimeComputation {
    RuntimeComputation::TrueZ(TrueZFormula { z_prev_top: reading(12.4), trigger_source })
}

/// Plausible printer state: trigger at 0.90, halt at 0.75, so the true Z is
/// 12.4 + (0.75 - 0.90) = 12.25.
fn happy_handler(method: &str, params: &Value) -> Result<Value, (i64, String)> {
    match method {
        "printer.gcode.script" => Ok(Value::from("ok")),
        "printer.objects.query" => {
            let mut status = serde_json::Map::new();
            for name in params["objects"].as_object().unwrap().keys() {
                let state = match name.as_str() {
                    "idle_timeout" => value("{\"idle_timeout\": 86400.0, \"state\": \"Ready\"}"),
                    "extruder" => value("{\"temperature\": 150.2, \"target\": 150.0}"),
                    "probe" => value("{\"last_z_result\": 0.90}"),
                    "toolhead" => value("{\"position\": [10.0, 20.0, 0.75, 0.0]}"),
                    "webhooks" => value("{\"state\": \"ready\"}"),
                    "print_stats" => value("{\"state\": \"standby\"}"),
                    "virtual_sdcard" => value("{\"is_active\": false}"),
                    other => value(&format!("{{\"unknown-object\": \"{other}\"}}")),
                };
                status.insert(name.clone(), state);
            }
            let mut result = serde_json::Map::new();
            result.insert("eventtime".to_owned(), Value::from(1.0));
            result.insert("status".to_owned(), Value::Object(status));
            Ok(Value::Object(result))
        }
        other => Err((-32601, format!("Method not found: {other}"))),
    }
}

/// The happy printer with the state of one object replaced.
fn with_state(
    object: &'static str,
    state: &'static str,
) -> impl FnMut(&str, &Value) -> Result<Value, (i64, String)> {
    move |method, params| {
        let mut v = happy_handler(method, params)?;
        if let Some(found) = v.get_mut("status").and_then(|s| s.get_mut(object)) {
            *found = value(state);
        }
        Ok(v)
    }
}

/// The happy printer that fails every script.
fn failing_scripts(
    message: &str,
) -> impl FnMut(&str, &Value) -> Result<Value, (i64, String)> {
    let message = message.to_owned();
    move |method, params| {
        if method == "printer.gcode.script" {
            Err((400, message.clone()))
        } else {
            happy_handler(method, params)
        }
    }
}

fn fast_options() -> ExecOptions {
    ExecOptions {
        verify_timeout: Span::from_millis(300),
        temp_timeout: Span::from_millis(300),
        poll_interval: Span::from_millis(20),
        confirm_timeout: Span::from_millis(300),
        gcode_barrier_timeout: Span::from_millis(300),
    }
}

/// The code by which a handler says that its answer does not come in time.
const TIMED_OUT: i64 = i64::MIN;

/// A printer that answers calls from a closure and records every script.
struct FakePrinter<'a> {
    client: MoonrakerClient,
    handler: Box<dyn FnMut(&str, &Value) -> Result<Value, (i64, String)> + 'a>,
    sent: Vec<String>,
    calls: u32,
}

impl<'a> FakePrinter<'a> {
    fn new(handler: impl FnMut(&str, &Value) -> Result<Value, (i64, String)> + 'a) -> Self {
        FakePrinter {
            client: MoonrakerClient::connected(Span::from_secs(5)),
            handler: Box::new(handler),
            sent: Vec::new(),
            calls: 0,
        }
    }

    /// One call over the wire format, with an unrelated notification first.
    fn call(&mut self, method: &str, params: &str) -> Result<Json, MoonrakerError> {
        self.calls += 1;
        let (id, request) = self.client.begin_call(method, Some(params));
        let request = value(&request);
        assert_eq!(request["method"], method);
        assert_eq!(request["id"], id);
        if method == "printer.gcode.script" {
            self.sent.push(request["params"]["script"].as_str().unwrap().to_owned());
        }
        let noise = json(&value("{\"jsonrpc\":\"2.0\",\"method\":\"notify_proc_stat_update\"}"));
        assert!(self.client.on_frame(id, method, Frame::Text(Ok(noise))).is_none());
        let mut reply = serde_json::Map::new();
        reply.insert("jsonrpc".to_owned(), Value::from("2.0"));
        reply.insert("id".to_owned(), Value::from(id));
        match (self.handler)(method, &request["params"]) {
            Ok(result) => {
                reply.insert("result".to_owned(), result);
            }
            Err((TIMED_OUT, _)) => return Err(self.client.timed_out(method)),
            Err((code, message)) => {
                let mut error = serde_json::Map::new();
                error.insert("code".to_owned(), Value::from(code));
                error.insert("message".to_owned(), Value::from(message));
                reply.insert("error".to_owned(), Value::Object(error));
            }
        }
        let reply = json(&Value::Object(reply));
        self.client.on_frame(id, method, Frame::Text(Ok(reply))).unwrap()
    }

    fn gcode(&mut self, script: &str) -> Result<(), String> {
        match self.call("printer.gcode.script", &gcode_script_params(script)) {
            Ok(_) => Ok(()),
            Err(e) => Err(e.message()),
        }
    }

    fn status(&mut self, objects: &[&str]) -> Result<Json, String> {
        let names = objects.iter().map(|o| (*o).to_owned()).collect();
        match self.call("printer.objects.query", &query_objects_params(names)) {
            Ok(result) => query_status(result).map_err(|e| e.message()),
            Err(e) => Err(e.message()),
        }
    }

    fn gcode_sent(&self) -> Vec<&str> {
        self.sent.iter().map(|s| s.as_str()).collect()
    }
}

fn text_value(s: &str) -> Value {
    Value::from(s)
}

fn number_value(n: Num) -> Value {
    Value::from(f64::from_bits(n.bits))
}

fn diagnosis_value(d: &Diagnosis) -> Value {
    let mut map = serde_json::Map::new();
    map.insert("code".to_owned(), text_value(d.code));
    let tier = match d.tier {
        Tier::Advisory => "advisory",
        Tier::Confirmable => "confirmable",
        Tier::Hard => "hard",
    };
    map.insert("tier".to_owned(), text_value(tier));
    map.insert("what".to_owned(), text_value(&d.what));
    map.insert("why".to_owned(), text_value(&d.why));
    map.insert("suggested_fix".to_owned(), text_value(&d.suggested_fix));
    Value::Object(map)
}

fn detail_value(detail: &Detail) -> Value {
    let mut map = serde_json::Map::new();
    match detail {
        Detail::RaisedBy(by) => {
            map.insert("raised_by".to_owned(), text_value(by));
        }
        Detail::Step { summary, commands, pre_verify, verify, cleanup_commands } => {
            map.insert("summary".to_owned(), text_value(summary));
            map.insert("commands".to_owned(), Value::from(commands.clone()));
            map.insert("pre_verify".to_owned(), Value::from(pre_verify.clone()));
            map.insert("verify".to_owned(), Value::from(verify.clone()));
            map.insert("cleanup_commands".to_owned(), Value::from(cleanup_commands.clone()));
        }
        Detail::Height { standoff_target_z, live_toolhead_z, derivation } => {
            let z = |n: &Option<Num>| n.map_or(Value::Null, number_value);
            map.insert("standoff_target_z".to_owned(), z(standoff_target_z));
            map.insert("live_toolhead_z".to_owned(), z(live_toolhead_z));
            map.insert("derivation".to_owned(), text_value(derivation));
        }
        Detail::Stop { offset, resume_offset, position, count, .. } => {
            map.insert("offset".to_owned(), Value::from(*offset));
            map.insert("resume_offset".to_owned(), Value::from(*resume_offset));
            map.insert("position".to_owned(), Value::from(*position));
            map.insert("count".to_owned(), Value::from(*count));
        }
    }
    Value::Object(map)
}

/// One record as a line of JSON.
fn record_line(plan: &RecoveryPlan, slots: &[Slot], asked: Option<&ConfirmPoint>) -> String {
    let mut map = serde_json::Map::new();
    for slot in slots {
        let v = match &slot.value {
            Recorded::Text(s) => text_value(s),
            Recorded::Count(n) => Value::from(*n),
            Recorded::Number(n) => number_value(*n),
            Recorded::Flag(b) => Value::from(*b),
            Recorded::Null => Value::Null,
            Recorded::Warning(w) => diagnosis_value(&plan.warnings[*w]),
            Recorded::Failure(f) => diagnosis_value(&f.diagnosis()),
            Recorded::Asked(Part::Diagnosis) => diagnosis_value(&asked.unwrap().diagnosis),
            Recorded::Asked(Part::Detail) => detail_value(&asked.unwrap().detail),
            Recorded::Asked(Part::Deadline) => Value::from(asked.unwrap().deadline.as_secs() as u64),
        };
        map.insert(slot.name.to_owned(), v);
    }
    Value::Object(map).to_string()
}

fn reading(x: f64) -> Reading {
    Reading { num: num(x), spelling: format!("{x}") }
}

fn float(n: Num) -> f64 {
    f64::from_bits(n.bits)
}

/// The height that a step computes from the numbers it read.
fn height_of(plan: &RecoveryPlan, executor: &Executor) -> Result<Reading, String> {
    let at = float(executor.height.as_ref().unwrap().num);
    let result = match plan.steps[executor.step].compute.as_ref().unwrap() {
        RuntimeComputation::TrueZ(formula) => {
            let trigger = float(executor.trigger.as_ref().unwrap().num);
            float(formula.z_prev_top.num) + (at - trigger)
        }
        RuntimeComputation::ParkZ { delta_z, z_max } => {
            z_max.map_or(at + float(*delta_z), |max| (at + float(*delta_z)).min(float(max)))
        }
        RuntimeComputation::HoverPlane { target_z, z_max } => {
            let target = at.max(float(*target_z));
            z_max.map_or(target, |max| target.min(float(max)))
        }
        _ => panic!("no height to compute"),
    };
    Ok(reading(result))
}

/// The collaborators of one execution.
struct Hands<'a> {
    gate: &'a mut dyn FnMut(&RecoveryStep) -> bool,
    confirmer: &'a mut dyn Confirmer,
    guard: &'a mut dyn FrameGuard,
    writer: &'a mut dyn RecoveryFileWriter,
}

/// Runs a plan to its end against a fake printer: the outcome and the
/// transcript. Every poll that fails once more is the last one.
fn execute(
    plan: &RecoveryPlan,
    printer: &mut FakePrinter,
    options: &ExecOptions,
    hands: Hands,
    recheck: &mut dyn FnMut(&mut FakePrinter, Span) -> Result<(), String>,
) -> (ExecOutcome, String) {
    let budget = barrier_budget(plan, options);
    let mut log = Transcript::new();
    let mut executor = Executor::start(plan, &mut log.entries);
    let mut transcript = String::new();
    let mut written = 0;
    loop {
        let script = executor.script(plan);
        let asked = executor.question(plan, options);
        let outcome = executor.outcome(plan);
        for entry in &log.entries[written..] {
            let slots = record(plan, entry, script.as_deref().unwrap_or(""), outcome.as_ref());
            transcript.push_str(&record_line(plan, &slots, asked.as_ref()));
            transcript.push('\n');
        }
        written = log.entries.len();
        if let Some(outcome) = outcome {
            return (outcome, transcript);
        }
        let event = match executor.stage {
            Stage::Gate => Event::Gate((hands.gate)(&plan.steps[executor.step])),
            Stage::Warning(_) | Stage::StepDebug | Stage::ZHeight => {
                Event::Answer(hands.confirmer.confirm(&asked.unwrap()))
            }
            Stage::PreviewAsk(_) => {
                Event::Preview(hands.confirmer.confirm_preview(&asked.unwrap()))
            }
            Stage::Recheck | Stage::PreviewRecheck(_) => Event::Exclusive(recheck(printer, budget)),
            Stage::Arm => Event::Armed(hands.guard.arm(&plan.steps[executor.step])),
            Stage::Verify { check, again } => {
                let step = &plan.steps[executor.step];
                let v = match check {
                    Check::Pre(i) => &step.pre_verify[i],
                    Check::Post(i) => &step.verify[i],
                };
                let object = executor.object(plan).unwrap();
                let reply = printer.status(&[object.as_str()]);
                let computed = executor.computed.as_ref().map(|r| r.num);
                let distance = match (&reply, reference(&v.predicate, computed)) {
                    (Ok(status), Some(from)) => lookup(status, &v.object, &v.field)
                        .and_then(|j| j.as_num())
                        .map(|n| num((float(n) - float(from)).abs())),
                    _ => None,
                };
                Event::Status { reply, distance, expired: again }
            }
            Stage::Read(_) | Stage::ReadLiveZ => {
                let object = executor.object(plan).unwrap();
                Event::Status {
                    reply: printer.status(&[object.as_str()]),
                    distance: None,
                    expired: false,
                }
            }
            Stage::Compute => Event::Computed(height_of(plan, &executor)),
            Stage::Send(_) | Stage::Cleanup { .. } | Stage::PreviewMove(_) => {
                Event::Sent(printer.gcode(&script.unwrap()))
            }
            Stage::PreviewWrite(cursor) => {
                let spec = plan.preview.as_ref().unwrap();
                Event::Written(hands.writer.write_for(spec.binding(cursor.stop).unwrap()))
            }
            Stage::Completed | Stage::Aborted => unreachable!(),
        };
        executor.on_event(plan, event, &mut log.entries);
    }
}

fn bare_section() -> MachineSection {
    MachineSection {
        force_move_enabled: false,
        z_self_locking_attested: false,
        z_steppers: vec![],
        primary_mcu: "mcu".to_owned(),
        probe_kind: None,
        probe_z_offset: None,
        probe_activate_gcode_no_move: false,
        probe_deactivate_gcode_no_move: false,
        z_position_min: None,
        validated_config_hash: None,
        virtual_sdcard_root: None,
    }
}

fn bundle_of(plan: RecoveryPlan) -> PlanBundle {
    PlanBundle {
        plan,
        file_path: "/g/x.gcode".to_owned(),
        machine: machine_config(&bare_section(), true, &ConfigFile::Unset),
        recovery_file_content: b"; recovery\nG28 X Y\n".to_vec(),
        recovery_file_path: "/g/x_RECOVERY.gcode".to_owned(),
        sdcard_root: "/g".to_owned(),
        recovery_source_name: "x.gcode".to_owned(),
        original_file_bytes: None,
    }
}

fn plan_outcome() -> PipelineOutcome {
    let mut plan = test_plan();
    plan.rendered = "1. SET_IDLE_TIMEOUT TIMEOUT=86400".to_owned();
    PipelineOutcome::Plan(bundle_of(plan))
}

fn fast_recover(execute: bool, confirm: bool, step: bool) -> RecoverOptions {
    RecoverOptions::new(execute, confirm, step, fast_options())
}

/// Everything outside the daemon but the printer.
struct World {
    files: BTreeMap<String, Vec<u8>>,
    full: bool,
    marker: Option<FrameInvalid>,
    unmarkable: bool,
    pending: bool,
    transcript: Option<String>,
    printer: bool,
}

impl World {
    fn new() -> Self {
        World {
            files: BTreeMap::new(),
            full: false,
            marker: None,
            unmarkable: false,
            pending: true,
            transcript: None,
            printer: true,
        }
    }

    /// Claims `path` for `content` unless it is taken.
    fn claim(&mut self, bundle: &PlanBundle, path: &str) -> Claim {
        if self.full {
            return Claim::Failed("No such file or directory (os error 2)".to_owned());
        }
        if self.files.contains_key(path) {
            let stem = bundle.recovery_source_name.trim_end_matches(".gcode").to_owned();
            let free = (2..)
                .map(|n| format!("{stem}_RECOVERY-{n}.gcode"))
                .find(|name| !self.files.contains_key(&join_path(&bundle.sdcard_root, name)))
                .unwrap();
            return Claim::Taken(free);
        }
        self.files.insert(path.to_owned(), bundle.recovery_file_content.clone());
        Claim::Written
    }
}

struct MarkerGuard<'a> {
    marker: &'a mut Option<FrameInvalid>,
    unmarkable: bool,
}

impl FrameGuard for MarkerGuard<'_> {
    fn arm(&mut self, step: &RecoveryStep) -> Result<(), String> {
        if self.unmarkable {
            return Err("Read-only file system (os error 30)".to_owned());
        }
        *self.marker = Some(entry_marker(step, 1));
        Ok(())
    }
}

fn idle_event(gate: &IdleCheck, printer: &mut FakePrinter, budget: Span) -> IdleEvent {
    match gate {
        IdleCheck::Barrier => {
            let before = printer.client.call_timeout;
            printer.client.set_call_timeout(budget);
            let sent = printer.gcode(GCODE_BARRIER_SENTINEL);
            printer.client.set_call_timeout(before);
            IdleEvent::Barrier(sent)
        }
        _ => IdleEvent::Status(printer.status(&["webhooks", "print_stats", "virtual_sdcard"])),
    }
}

fn idle_and_exclusive(printer: &mut FakePrinter, budget: Span) -> Result<(), String> {
    let mut gate = IdleCheck::start();
    loop {
        let event = idle_event(&gate, printer, budget);
        gate = gate.on_event(event);
        match gate {
            IdleCheck::Clear => return Ok(()),
            IdleCheck::Refused(why) => return Err(why),
            _ => {}
        }
    }
}

/// One line of standard input, with its line end.
fn read_line<'a>(input: &mut &'a str) -> Option<&'a str> {
    if input.is_empty() {
        return None;
    }
    let end = input.find('\n').map_or(input.len(), |i| i + 1);
    let (line, rest) = input.split_at(end);
    *input = rest;
    Some(line)
}

fn run_launch(
    bundle: &mut PlanBundle,
    world: &mut World,
    printer: &mut FakePrinter,
    options: &RecoverOptions,
    confirmer: &mut dyn Confirmer,
    input: &mut &str,
    lines: &mut Vec<String>,
) -> u8 {
    let mut launch = Launch::start();
    let mut entries: Vec<GateEntry> = Vec::new();
    loop {
        let event = match &launch {
            Launch::ReadMarker => LaunchEvent::MarkerRead(world.marker.as_ref().map(|m| {
                FrameInvalid {
                    detected_wall_ns: m.detected_wall_ns,
                    step_id: m.step_id,
                    phase: m.phase.clone(),
                    reason: m.reason.clone(),
                }
            })),
            Launch::Connect => LaunchEvent::Connected(if world.printer {
                Ok(())
            } else {
                Err("Connection refused (os error 111)".to_owned())
            }),
            Launch::OpenTranscript => {
                world.transcript = Some(String::new());
                LaunchEvent::TranscriptMade {
                    path: "/wal/recovery-transcript-1.jsonl".to_owned(),
                    result: Ok(()),
                }
            }
            Launch::WriteFile(claim) => {
                let path = claim.path.clone();
                LaunchEvent::Claimed(world.claim(bundle, &path))
            }
            Launch::AskPrinter(gate) => {
                let budget = barrier_budget(&bundle.plan, &options.exec_options);
                LaunchEvent::Printer(idle_event(gate, printer, budget))
            }
            Launch::Run => {
                let hands = Hands {
                    gate: &mut |step| {
                        lines.push(announce_step(step));
                        let line = match step_prompt(options, step) {
                            Some(prompt) => {
                                lines.push(prompt);
                                read_line(input)
                            }
                            None => None,
                        };
                        step_allowed(options, line)
                    },
                    confirmer,
                    guard: &mut MarkerGuard {
                        marker: &mut world.marker,
                        unmarkable: world.unmarkable,
                    },
                    writer: &mut NoopFileWriter,
                };
                let (outcome, text) = execute(
                    &bundle.plan,
                    printer,
                    &options.exec_options,
                    hands,
                    &mut |printer, budget| idle_and_exclusive(printer, budget),
                );
                world.transcript.as_mut().unwrap().push_str(&text);
                LaunchEvent::Executed(outcome)
            }
            Launch::RecordFrame { step_id, phase, reason, .. } => {
                if world.unmarkable {
                    LaunchEvent::FrameRecorded(Err("Read-only file system".to_owned()))
                } else {
                    world.marker = Some(FrameInvalid {
                        detected_wall_ns: 2,
                        step_id: *step_id,
                        phase: phase.clone(),
                        reason: reason.clone(),
                    });
                    LaunchEvent::FrameRecorded(Ok(()))
                }
            }
            Launch::Done { code, cleanup } => {
                match cleanup {
                    Cleanup::Nothing => {}
                    Cleanup::RemoveRecoveryFile => {
                        world.files.remove(&bundle.recovery_file_path);
                    }
                    Cleanup::ForgetRecovery => {
                        world.marker = None;
                        world.pending = false;
                    }
                }
                return *code;
            }
        };
        let noted = entries.len();
        launch = launch.on_event("/wal", bundle, event, lines, &mut entries);
        for entry in &entries[noted..] {
            let line = record_line(&bundle.plan, &gate_record(entry), None);
            let transcript = world.transcript.as_mut().unwrap();
            transcript.push_str(&line);
            transcript.push('\n');
        }
    }
}

fn run_drive_with(
    outcome: PipelineOutcome,
    world: &mut World,
    printer: &mut FakePrinter,
    options: &RecoverOptions,
    confirmer: &mut dyn Confirmer,
    mut input: &str,
) -> (u8, String) {
    let mut lines = Vec::new();
    let mut next = drive(&outcome, options, world.marker.is_some(), &mut lines);
    let code = loop {
        match next {
            Next::Exit { code, clear_marker } => {
                if clear_marker {
                    world.marker = None;
                }
                break code;
            }
            Next::AskConsent => {
                lines.push(CONSENT_PROMPT.to_owned());
                next = on_consent(read_line(&mut input), &mut lines);
            }
            Next::Execute => match outcome {
                PipelineOutcome::Plan(mut bundle) => {
                    break run_launch(
                        &mut bundle,
                        world,
                        printer,
                        options,
                        confirmer,
                        &mut input,
                        &mut lines,
                    );
                }
                _ => panic!("nothing to execute"),
            },
        }
    };
    (code, lines.join("\n"))
}

fn run_drive(
    outcome: PipelineOutcome,
    world: &mut World,
    printer: &mut FakePrinter,
    options: &RecoverOptions,
    input: &str,
) -> (u8, String) {
    run_drive_with(outcome, world, printer, options, &mut AbortConfirmer, input)
}

/// A printer that must not be called.
fn dead_printer<'a>() -> FakePrinter<'a> {
    FakePrinter::new(|method: &str, _: &Value| panic!("called {method}"))
}

#[test]
fn dry_run_is_default_prints_plan_and_never_connects() {
    let mut world = World::new();
    let (code, output) = run_drive(
        plan_outcome(),
        &mut world,
        &mut dead_printer(),
        &fast_recover(false, false, false),
        "",
    );
    assert_eq!(code, EXIT_OK, "{output}");
    assert!(output.contains("DRY RUN"), "{output}");
    assert!(output.contains("SET_IDLE_TIMEOUT"), "{output}");
    assert!(output.contains("nothing was sent"), "{output}");
    assert!(world.transcript.is_none());
    assert!(world.files.is_empty());
}

#[test]
fn execute_without_confirm_is_a_usage_refusal() {
    let (code, output) = run_drive(
        plan_outcome(),
        &mut World::new(),
        &mut dead_printer(),
        &fast_recover(true, false, false),
        "y\n",
    );
    assert_eq!(code, EXIT_USAGE, "{output}");
    assert!(output.contains("--execute requires --confirm"), "{output}");
}

#[test]
fn prompt_decline_refuses_before_any_connection() {
    for answer in ["n\n", "\n", "no\n", "Y es\n"] {
        let (code, output) = run_drive(
            plan_outcome(),
            &mut World::new(),
            &mut dead_printer(),
            &fast_recover(true, true, false),
            answer,
        );
        assert_eq!(code, EXIT_RUNTIME, "answer {answer:?}: {output}");
        assert!(output.contains("declined by operator"), "{output}");
    }
}

#[test]
fn printer_not_idle_refuses_with_zero_gcode() {
    let mut fake = FakePrinter::new(with_state("print_stats", "{\"state\": \"printing\"}"));
    let (code, output) = run_drive(
        plan_outcome(),
        &mut World::new(),
        &mut fake,
        &fast_recover(true, true, false),
        "y\n",
    );
    assert_eq!(code, EXIT_RUNTIME, "{output}");
    assert!(output.contains("not idle"), "{output}");
    assert!(fake.gcode_sent().is_empty());
}

#[test]
fn klippy_not_ready_refuses_with_zero_gcode() {
    let mut fake = FakePrinter::new(with_state("webhooks", "{\"state\": \"shutdown\"}"));
    let (code, output) = run_drive(
        plan_outcome(),
        &mut World::new(),
        &mut fake,
        &fast_recover(true, true, false),
        "y\n",
    );
    assert_eq!(code, EXIT_RUNTIME, "{output}");
    assert!(output.contains("klippy state"), "{output}");
    assert!(fake.gcode_sent().is_empty());
}

#[test]
fn a_macro_that_starts_a_print_after_calling_us_is_refused_at_the_barrier() {
    let mut printing = false;
    let mut fake = FakePrinter::new(move |method: &str, params: &Value| {
        if method == "printer.gcode.script"
            && params["script"].as_str() == Some(GCODE_BARRIER_SENTINEL)
        {
            printing = true;
            return Ok(Value::from("ok"));
        }
        let mut v = happy_handler(method, params)?;
        if printing {
            if let Some(status) = v.get_mut("status").and_then(Value::as_object_mut) {
                status.insert("print_stats".to_owned(), value("{\"state\": \"printing\"}"));
                status.insert(
                    "virtual_sdcard".to_owned(),
                    value(
                        "{\"is_active\": true, \"file_path\": \"/g/x.gcode\",
                          \"file_position\": 0}",
                    ),
                );
            }
        }
        Ok(v)
    });
    let mut world = World::new();
    let (code, output) = run_drive(
        plan_outcome(),
        &mut world,
        &mut fake,
        &fast_recover(true, true, false),
        "y\n",
    );
    assert_eq!(code, EXIT_RUNTIME, "{output}");
    assert!(
        output.contains("stopped being idle while dead-reckoning was waiting"),
        "{output}"
    );
    assert!(output.contains("[gcode_macro]"), "{output}");
    assert_eq!(fake.gcode_sent(), vec![GCODE_BARRIER_SENTINEL]);
    let text = world.transcript.unwrap();
    assert!(text.contains("\"event\":\"refused\""), "{text}");
    assert!(text.contains("idle-and-exclusive"), "{text}");
    assert!(!text.contains("step-start"), "{text}");
    assert!(!world.files.keys().any(|name| name.contains("_RECOVERY")));
}

#[test]
fn a_held_gcode_mutex_times_out_into_a_refusal() {
    let mut fake = FakePrinter::new(|method: &str, params: &Value| {
        if params["script"].as_str() == Some(GCODE_BARRIER_SENTINEL) {
            Err((TIMED_OUT, String::new()))
        } else {
            happy_handler(method, params)
        }
    });
    let (code, output) = run_drive(
        plan_outcome(),
        &mut World::new(),
        &mut fake,
        &fast_recover(true, true, false),
        "y\n",
    );
    assert_eq!(code, EXIT_RUNTIME, "{output}");
    assert!(output.contains("may still hold Klipper's g-code mutex"), "{output}");
    assert!(output.contains("timed out"), "{output}");
    assert!(output.contains("PLR_RECOVER as the macro's LAST command"), "{output}");
    assert_eq!(fake.gcode_sent(), vec![GCODE_BARRIER_SENTINEL]);
}

#[test]
fn a_failed_barrier_sentinel_refuses_rather_than_assuming_success() {
    let mut fake = FakePrinter::new(|method: &str, params: &Value| {
        if params["script"].as_str() == Some(GCODE_BARRIER_SENTINEL) {
            return Err((400, "Klippy is shutdown: Lost communication".to_owned()));
        }
        happy_handler(method, params)
    });
    let (code, output) = run_drive(
        plan_outcome(),
        &mut World::new(),
        &mut fake,
        &fast_recover(true, true, false),
        "y\n",
    );
    assert_eq!(code, EXIT_RUNTIME, "{output}");
    assert!(output.contains("may still hold Klipper's g-code mutex"), "{output}");
    assert!(output.contains("Klippy is shutdown"), "{output}");
    assert_eq!(fake.gcode_sent(), vec![GCODE_BARRIER_SENTINEL]);
}

#[test]
fn the_barrier_sentinel_precedes_every_plan_command() {
    let mut fake = FakePrinter::new(happy_handler);
    let (code, output) = run_drive(
        plan_outcome(),
        &mut World::new(),
        &mut fake,
        &fast_recover(true, true, false),
        "y\n",
    );
    assert_eq!(code, EXIT_OK, "{output}");
    assert_eq!(fake.gcode_sent().first(), Some(&GCODE_BARRIER_SENTINEL));
    assert!(fake.gcode_sent().len() > 1);
}

#[test]
fn happy_path_executes_and_writes_a_transcript() {
    let mut fake = FakePrinter::new(happy_handler);
    let mut world = World::new();
    let (code, output) = run_drive(
        plan_outcome(),
        &mut world,
        &mut fake,
        &fast_recover(true, true, false),
        "yes\n",
    );
    assert_eq!(code, EXIT_OK, "{output}");
    assert!(output.contains("COMPLETED"), "{output}");
    assert_eq!(
        fake.gcode_sent(),
        vec![
            GCODE_BARRIER_SENTINEL,
            GCODE_BARRIER_SENTINEL,
            "SET_IDLE_TIMEOUT TIMEOUT=86400",
            GCODE_BARRIER_SENTINEL,
            "PROBE PROBE_SPEED=1 SAMPLES=1",
            GCODE_BARRIER_SENTINEL,
            "SET_KINEMATIC_POSITION Z=12.25",
        ]
    );
    let text = world.transcript.unwrap();
    assert!(text.contains("plan-start"), "{text}");
    assert!(text.contains("plan-complete"), "{text}");
    assert!(!world.pending);
}

#[test]
fn recovery_file_is_written_before_execution_and_recorded_in_the_transcript() {
    let mut world = World::new();
    let (code, output) = run_drive(
        plan_outcome(),
        &mut world,
        &mut FakePrinter::new(happy_handler),
        &fast_recover(true, true, false),
        "y\n",
    );
    assert_eq!(code, EXIT_OK, "{output}");
    assert_eq!(
        world.files.get("/g/x_RECOVERY.gcode").unwrap().as_slice(),
        b"; recovery\nG28 X Y\n".as_slice()
    );
    let text = world.transcript.unwrap();
    let write_at = text.find("recovery-file-written").unwrap();
    let first_send = text.find("\"send\"").unwrap();
    assert!(write_at < first_send, "{text}");
    assert!(text.contains("x_RECOVERY.gcode"), "{text}");
}

/// A bundle whose plan selects the planned recovery file.
fn selecting_bundle() -> PlanBundle {
    let mut bundle = bundle_of(test_plan());
    let mut select = bare_step(
        4,
        Phase::Other,
        "recovery-file-select",
        "recovery-file-select-failed",
    );
    select.commands = vec!["M23 x_RECOVERY.gcode".to_owned(), "M24".to_owned()];
    bundle.plan.steps.push(select);
    bundle
}

#[test]
fn a_file_appearing_after_planning_is_never_clobbered() {
    let mut fake = FakePrinter::new(happy_handler);
    let mut world = World::new();
    world
        .files
        .insert("/g/x_RECOVERY.gcode".to_owned(), b"PRECIOUS DO NOT CLOBBER".to_vec());
    let (code, output) = run_drive(
        PipelineOutcome::Plan(selecting_bundle()),
        &mut world,
        &mut fake,
        &fast_recover(true, true, false),
        "y\n",
    );
    assert_eq!(code, EXIT_OK, "{output}");
    assert_eq!(
        world.files.get("/g/x_RECOVERY.gcode").unwrap().as_slice(),
        b"PRECIOUS DO NOT CLOBBER".as_slice()
    );
    assert!(world.files.contains_key("/g/x_RECOVERY-2.gcode"), "{output}");
    assert!(output.contains("name was taken since planning"), "{output}");
    assert!(fake.gcode_sent().contains(&"M23 x_RECOVERY-2.gcode"), "{:?}", fake.sent);
    assert!(!fake.gcode_sent().contains(&"M23 x_RECOVERY.gcode"), "{:?}", fake.sent);
    assert!(output.contains("1 M23 command(s) repointed"), "{output}");
    let text = world.transcript.unwrap();
    assert!(text.contains("x_RECOVERY-2.gcode"), "{text}");
    assert!(text.contains("\"m23_repointed\":1"), "{text}");
}

#[test]
fn recovery_file_write_failure_aborts_before_any_gcode() {
    let mut fake = FakePrinter::new(happy_handler);
    let mut world = World::new();
    world.full = true;
    let (code, output) = run_drive(
        plan_outcome(),
        &mut world,
        &mut fake,
        &fast_recover(true, true, false),
        "y\n",
    );
    assert_eq!(code, EXIT_RUNTIME, "{output}");
    assert!(output.contains("cannot write recovery file"), "{output}");
    assert!(fake.gcode_sent().is_empty(), "{:?}", fake.sent);
    assert_eq!(fake.calls, 0);
}

#[test]
fn names_that_are_always_taken_run_out() {
    let mut bundle = bundle_of(test_plan());
    let mut lines = Vec::new();
    let mut entries = Vec::new();
    let mut launch = Launch::start();
    for event in [
        LaunchEvent::MarkerRead(None),
        LaunchEvent::Connected(Ok(())),
        LaunchEvent::TranscriptMade { path: "/wal/t.jsonl".to_owned(), result: Ok(()) },
    ] {
        launch = launch.on_event("/wal", &mut bundle, event, &mut lines, &mut entries);
    }
    for attempt in 0..RECOVERY_NAME_RETRIES {
        assert!(matches!(launch, Launch::WriteFile(_)), "attempt {attempt}");
        let taken = LaunchEvent::Claimed(Claim::Taken(format!("x_RECOVERY-{attempt}.gcode")));
        launch = launch.on_event("/wal", &mut bundle, taken, &mut lines, &mut entries);
    }
    assert!(matches!(
        launch,
        Launch::Done { code: EXIT_RUNTIME, cleanup: Cleanup::Nothing }
    ));
    assert!(lines.last().unwrap().contains("could not claim a free recovery file name in 16"));
    assert!(entries.is_empty());
}

#[test]
fn step_mode_gates_every_step_and_stops_on_no() {
    let mut fake = FakePrinter::new(happy_handler);
    let (code, output) = run_drive(
        plan_outcome(),
        &mut World::new(),
        &mut fake,
        &fast_recover(true, true, true),
        "y\ny\ny\nn\n",
    );
    assert_eq!(code, EXIT_RUNTIME, "{output}");
    assert!(output.contains("ABORTED at step 3"), "{output}");
    assert_eq!(
        fake.gcode_sent(),
        vec![
            GCODE_BARRIER_SENTINEL,
            GCODE_BARRIER_SENTINEL,
            "SET_IDLE_TIMEOUT TIMEOUT=86400",
            GCODE_BARRIER_SENTINEL,
            "PROBE PROBE_SPEED=1 SAMPLES=1",
        ]
    );
}

#[test]
fn verification_failure_aborts_with_transcript_and_nonzero_exit() {
    let mut fake = FakePrinter::new(with_state("idle_timeout", "{\"idle_timeout\": 600.0}"));
    let (code, output) = run_drive(
        plan_outcome(),
        &mut World::new(),
        &mut fake,
        &fast_recover(true, true, false),
        "y\n",
    );
    assert_eq!(code, EXIT_RUNTIME, "{output}");
    assert!(output.contains("ABORTED at step 1"), "{output}");
    assert!(output.contains("idle-timeout-not-applied"), "{output}");
    assert!(output.contains("left as-is"), "{output}");
    assert_eq!(
        fake.gcode_sent(),
        vec![
            GCODE_BARRIER_SENTINEL,
            GCODE_BARRIER_SENTINEL,
            "SET_IDLE_TIMEOUT TIMEOUT=86400",
        ]
    );
}

fn complete(work: RemainingWork) -> PipelineOutcome {
    PipelineOutcome::Complete(CompletionReport {
        file: "/g/part.gcode".to_owned(),
        tested_offset: 500_000,
        file_size: 514_537,
        work,
    })
}

#[test]
fn non_plan_outcomes_map_to_exit_codes() {
    let options = fast_recover(false, false, false);
    let run = |outcome: PipelineOutcome| {
        run_drive(outcome, &mut World::new(), &mut dead_printer(), &options, "")
    };
    let (code, output) = run(PipelineOutcome::CleanShutdown);
    assert_eq!(code, EXIT_OK);
    assert!(output.contains("CLEAN"), "{output}");
    let (code, output) = run(complete(RemainingWork::EndSequenceOnly {
        commands: vec!["M107".to_owned(), "M104".to_owned(), "M84".to_owned()],
    }));
    assert_eq!(code, EXIT_OK);
    assert!(output.contains("the print is COMPLETE"), "{output}");
    assert!(output.contains("14537 trailing bytes"), "{output}");
    assert!(output.contains("M107 M104 M84"), "{output}");
    assert!(output.contains("NOT offered for execution"), "{output}");
    assert!(!output.contains("WAL ends with a CLEAN"), "{output}");
    let (code, output) = run(complete(RemainingWork::Nothing));
    assert_eq!(code, EXIT_OK);
    assert!(output.contains("ran its end sequence too"), "{output}");
    let (code, output) = run(PipelineOutcome::ManualFallback("vase mode".to_owned()));
    assert_eq!(code, EXIT_RUNTIME);
    assert!(output.contains("automation declined"), "{output}");
    let (code, output) = run(PipelineOutcome::NotPossible("no file".to_owned()));
    assert_eq!(code, EXIT_RUNTIME);
    assert!(output.contains("not possible"), "{output}");
    let (code, output) = run(PipelineOutcome::MachineRejected(vec![
        "[force_move] enable_force_move is off".to_owned(),
        "no probe".to_owned(),
    ]));
    assert_eq!(code, EXIT_RUNTIME);
    assert!(output.contains("machine prerequisites failed"), "{output}");
    assert!(output.contains("force_move"), "{output}");
    assert!(output.contains("no probe"), "{output}");
}

#[test]
fn a_log_that_cannot_be_read_is_a_runtime_error() {
    let mut lines = Vec::new();
    let next = run_recover(
        &Err("cannot read /nonexistent/plrd.conf".to_owned()),
        &fast_recover(false, false, false),
        false,
        &mut lines,
    );
    assert_eq!(next, Next::Exit { code: EXIT_RUNTIME, clear_marker: false });
    assert_eq!(lines, vec!["plrd recover: cannot read /nonexistent/plrd.conf".to_owned()]);
}

/// An idle step and the shifted frame, which never reads back as declared.
fn shifted_steps() -> Vec<RecoveryStep> {
    let mut idle = bare_step(1, Phase::Other, "idle-timeout", "idle-timeout-not-applied");
    idle.commands = vec!["SET_IDLE_TIMEOUT TIMEOUT=86400".to_owned()];
    let mut shift =
        bare_step(2, Phase::ShiftedFrame, "shifted-frame", "shifted-frame-not-declared");
    shift.commands = vec!["SET_KINEMATIC_POSITION Z=-1.15".to_owned()];
    vec![idle, shift]
}

fn unsettled_outcome() -> PipelineOutcome {
    let mut steps = shifted_steps();
    steps[1].verify = vec![verification(
        "toolhead",
        "position.2",
        Predicate::NumWithin { expected: num(-1.15), epsilon: num(0.05) },
    )];
    PipelineOutcome::Plan(bundle_of(plan_of(steps)))
}

#[test]
fn abort_at_the_shifted_frame_writes_the_marker() {
    let mut world = World::new();
    let (code, output) = run_drive(
        unsettled_outcome(),
        &mut world,
        &mut FakePrinter::new(happy_handler),
        &fast_recover(true, true, false),
        "y\n",
    );
    assert_eq!(code, EXIT_RUNTIME);
    assert!(output.contains("ABORTED at step 2"), "{output}");
    assert!(output.contains("Z frame is now UNKNOWN"), "{output}");
    let marker = world.marker.unwrap();
    assert_eq!(marker.step_id, 2);
    assert_eq!(marker.reason, "shifted-frame-not-declared");
}

#[test]
fn an_unwritable_interlock_refuses_and_says_so() {
    let mut world = World::new();
    world.unmarkable = true;
    let mut fake = FakePrinter::new(happy_handler);
    let (code, output) = run_drive(
        PipelineOutcome::Plan(bundle_of(plan_of(shifted_steps()))),
        &mut world,
        &mut fake,
        &fast_recover(true, true, false),
        "y\n",
    );
    assert_eq!(code, EXIT_RUNTIME);
    assert!(output.contains("Read-only file system (os error 30)"), "{output}");
    assert!(output.contains("/wal"), "{output}");
    assert!(!fake.sent.iter().any(|c| c.starts_with("SET_KINEMATIC_POSITION")));
}

#[test]
fn frame_invalid_marker_refuses_execute_and_a_dry_run_clears_it() {
    let mut world = World::new();
    world.printer = false;
    world.marker = Some(FrameInvalid {
        detected_wall_ns: 1,
        step_id: 7,
        phase: "shifted-frame".to_owned(),
        reason: "shifted-frame-not-declared".to_owned(),
    });
    let execute = fast_recover(true, true, false);
    let (code, output) =
        run_drive(plan_outcome(), &mut world, &mut dead_printer(), &execute, "y\n");
    assert_eq!(code, EXIT_RUNTIME, "{output}");
    assert!(output.contains("Z frame is unknown"), "{output}");
    assert!(output.contains("step 7"), "{output}");
    assert!(world.marker.is_some());

    let (code, output) = run_drive(
        plan_outcome(),
        &mut world,
        &mut dead_printer(),
        &fast_recover(false, false, false),
        "",
    );
    assert_eq!(code, EXIT_OK, "{output}");
    assert!(output.contains("cleared the stale frame-invalid"), "{output}");
    assert!(world.marker.is_none());

    let (code, output) =
        run_drive(plan_outcome(), &mut world, &mut dead_printer(), &execute, "y\n");
    assert_eq!(code, EXIT_RUNTIME, "{output}");
    assert!(!output.contains("Z frame is unknown"), "{output}");
    assert!(output.contains("cannot reach Moonraker"), "{output}");
}

#[test]
fn read_yes_accepts_only_explicit_consent() {
    for (input, expected) in [
        ("y\n", true),
        ("Y\n", true),
        ("yes\n", true),
        ("YES\n", true),
        ("n\n", false),
        ("\n", false),
        ("", false),
        ("yep\n", false),
        (" y es\n", false),
    ] {
        assert_eq!(read_yes(Some(input)), expected, "{input:?}");
    }
    assert!(!read_yes(None));
}

/// Looks at the marker when it is asked, then stops answering.
struct WalksAway {
    asked: bool,
}

impl Confirmer for WalksAway {
    fn confirm(&mut self, _point: &ConfirmPoint) -> ConfirmAnswer {
        self.asked = true;
        ConfirmAnswer::TimedOut
    }

    fn confirm_preview(&mut self, _point: &ConfirmPoint) -> PreviewAnswer {
        PreviewAnswer::TimedOut
    }
}

#[test]
fn the_interlock_stands_from_the_declaration_to_the_abort() {
    let mut steps = shifted_steps();
    let mut standoff = bare_step(
        3,
        Phase::ZConfirmStandoff,
        "z-confirm-standoff",
        "z-confirm-standoff-failed",
    );
    standoff.commands = vec!["G90".to_owned(), "G1 Z{park_z} F1200".to_owned()];
    standoff.compute = Some(RuntimeComputation::ParkZ { delta_z: num(1.0), z_max: None });
    steps.push(standoff);
    let mut world = World::new();
    let mut confirmer = WalksAway { asked: false };
    let (code, output) = run_drive_with(
        PipelineOutcome::Plan(bundle_of(plan_of(steps))),
        &mut world,
        &mut FakePrinter::new(happy_handler),
        &fast_recover(true, true, false),
        &mut confirmer,
        "y\n",
    );
    assert_eq!(code, EXIT_RUNTIME, "{output}");
    assert!(confirmer.asked);
    let text = world.transcript.unwrap();
    let armed = text.find("\"event\":\"frame-armed\"").unwrap();
    let declared = text.find("SET_KINEMATIC_POSITION").unwrap();
    assert!(armed < declared, "{text}");
    assert_eq!(world.marker.unwrap().step_id, 3);
}

#[test]
fn a_successful_completion_clears_the_interlock() {
    let mut world = World::new();
    let (code, output) = run_drive(
        PipelineOutcome::Plan(bundle_of(plan_of(shifted_steps()))),
        &mut world,
        &mut FakePrinter::new(happy_handler),
        &fast_recover(true, true, false),
        "y\n",
    );
    assert_eq!(code, EXIT_OK, "{output}");
    assert!(world.marker.is_none());
    let text = world.transcript.unwrap();
    assert!(text.contains("\"event\":\"frame-armed\""), "{text}");
}

#[test]
fn an_entry_marker_names_its_step() {
    let marker = entry_marker(&shifted_steps()[1], 99);
    assert_eq!(marker.detected_wall_ns, 99);
    assert_eq!(marker.step_id, 2);
    assert_eq!(marker.phase, "shifted-frame");
    assert_eq!(marker.reason, "shifted-frame-declared");
}

#[test]
fn a_transcript_that_cannot_be_made_stops_everything() {
    let mut bundle = bundle_of(test_plan());
    let mut lines = Vec::new();
    let mut entries = Vec::new();
    let mut launch = Launch::start();
    for event in [
        LaunchEvent::MarkerRead(None),
        LaunchEvent::Connected(Ok(())),
        LaunchEvent::TranscriptMade {
            path: "/wal/t.jsonl".to_owned(),
            result: Err("No space left on device".to_owned()),
        },
    ] {
        launch = launch.on_event("/wal", &mut bundle, event, &mut lines, &mut entries);
    }
    assert!(matches!(launch, Launch::Done { code: EXIT_RUNTIME, .. }));
    assert!(lines[0].contains("/wal/t.jsonl"), "{lines:?}");
    assert!(lines[0].contains("No space left on device"), "{lines:?}");
}

#[test]
fn idle_states_are_judged_one_by_one() {
    let judged = |text: &str| printer_ready_and_idle(&json(&value(text)));
    let ready = "\"webhooks\": {\"state\": \"ready\"}";
    for state in ["standby", "complete", "cancelled", "error"] {
        let idle = format!(
            "{{{ready}, \"print_stats\": {{\"state\": \"{state}\"}},
               \"virtual_sdcard\": {{\"is_active\": false}}}}"
        );
        assert_eq!(judged(&idle), Ok(()), "{state}");
    }
    let paused = format!(
        "{{{ready}, \"print_stats\": {{\"state\": \"paused\"}},
           \"virtual_sdcard\": {{\"is_active\": false}}}}"
    );
    assert!(judged(&paused).unwrap_err().contains("\"paused\""));
    let active = format!(
        "{{{ready}, \"print_stats\": {{\"state\": \"standby\"}},
           \"virtual_sdcard\": {{\"is_active\": true}}}}"
    );
    assert_eq!(judged(&active), Err("virtual_sdcard is actively printing".to_owned()));
    for card in ["{}", "{\"is_active\": null}", "{\"is_active\": 0}", "null"] {
        let open = format!(
            "{{{ready}, \"print_stats\": {{\"state\": \"standby\"}}, \"virtual_sdcard\": {card}}}"
        );
        assert_eq!(
            judged(&open),
            Err("virtual_sdcard.is_active is not known".to_owned()),
            "{card}"
        );
    }
    assert!(judged("{}").unwrap_err().contains("\"unknown\""));
}

#[test]
fn the_preview_shows_the_first_forty_lines() {
    let mut bundle = bundle_of(test_plan());
    let short = preview_recovery_file(&bundle).join("\n");
    assert!(short.contains("/g/x_RECOVERY.gcode"), "{short}");
    assert!(short.contains("19 bytes"), "{short}");
    assert!(short.contains("G28 X Y"), "{short}");
    let mut content: Vec<u8> = (1..=50).map(|n| format!("G1 X{n}\n")).collect::<String>().into_bytes();
    content.extend([0xff, b'\n']);
    bundle.recovery_file_content = content;
    let long = preview_recovery_file(&bundle).join("\n");
    assert!(long.contains("G1 X40"), "{long}");
    assert!(!long.contains("G1 X41"), "{long}");
    bundle.recovery_file_content = vec![b'G', 0xff, b'\n'];
    let broken = preview_recovery_file(&bundle).join("\n");
    assert!(broken.contains("G\u{fffd}"), "{broken}");
}

#[test]
fn paths_join_as_the_file_system_does() {
    assert_eq!(join_path("/g", "x.gcode"), "/g/x.gcode");
    assert_eq!(join_path("/g/", "x.gcode"), "/g/x.gcode");
    assert_eq!(join_path("/g", "/abs.gcode"), "/abs.gcode");
    assert_eq!(join_path("", "x.gcode"), "x.gcode");
    assert_eq!(trim_separators("/g//"), "/g");
    assert_eq!(trim_separators("C:\\g\\"), "C:\\g");
}

#[test]
fn every_selection_is_repointed() {
    let mut bundle = selecting_bundle();
    assert_eq!(point_plan(&mut bundle.plan, None, "y.gcode"), 1);
    assert_eq!(bundle.plan.steps[3].commands, vec!["M23 y.gcode".to_owned(), "M24".to_owned()]);
    assert_eq!(bundle.plan.resume_file, "y.gcode");
    assert_eq!(bundle.plan.recovery_file.name, "y.gcode");
    assert_eq!(point_plan(&mut bundle.plan, Some("x.gcode"), "z.gcode"), 0);
}
