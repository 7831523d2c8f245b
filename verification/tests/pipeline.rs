//! The pipeline from a log to a plan, fed with the results of its outside work.

use plrd::checksum::crc32c;
use plrd::json::{Json, Kind, Member, Number, Text};
use plrd::machine::{
    klipper_config_hash, machine_config, ConfigFile, KlippySnapshot, MachineSection,
    MachineZStepper, ProbeKind,
};
use plrd::narration::{list_layers, RemainingWork};
use plrd::number::{Num, Reading};
use plrd::pipeline::{
    contains_type_annotations, search_window, stop_evidence, Anchor, ContactFacts, GateVerdict,
    Interval, MatchFacts, MatchFailure, MatchKind, ModelFacts, OffsetWindow, Pipeline,
    PipelineEvent, PipelineOutcome, Planned, PossibleStops, PreviewResult, PreviewUse,
    Reconstructed, Setup, StopFacts, WalFacts, ZCandidate,
};
use plrd::plan::{Phase, RecoveryFileSpec, RecoveryPlan, RecoveryStep};
use plrd::plrcfg::{PlanConfig, ResumePolicy, LIVE_CONFIG_HASH};
use plrd::source::{report_machine_mode, resolve_machine_source, MachineSource};
use serde_json::Value;

fn value(text: &str) -> Value {
    serde_json::from_str(text).unwrap()
}

fn canonical(number: f64) -> Option<String> {
    if !number.is_finite() {
        None
    } else if number.abs() < 1e15 && number.fract() == 0.0 {
        Some(format!("{}", number as i64))
    } else {
        Some(format!("{number}"))
    }
}

fn json(v: &Value) -> Json {
    let kind = match v {
        Value::Null => Kind::Null,
        Value::Bool(b) => Kind::Bool(*b),
        Value::Number(n) => {
            let number = n.as_f64().unwrap();
            Kind::Number(Number {
                reading: Reading {
                    num: Num { bits: number.to_bits() },
                    spelling: format!("{number}"),
                },
                integer: n.as_i64().map(i128::from).or(n.as_u64().map(i128::from)),
                canonical: canonical(number),
            })
        }
        Value::String(s) => {
            let collapsed = s.split_whitespace().collect::<Vec<_>>().join(" ");
            Kind::Text(Text {
                value: s.clone(),
                canonical: collapsed.parse::<f64>().ok().and_then(canonical),
            })
        }
        Value::Array(items) => Kind::Array(items.iter().map(json).collect()),
        Value::Object(map) => Kind::Object(members(map)),
    };
    Json { kind, spelling: v.to_string() }
}

fn members(map: &serde_json::Map<String, Value>) -> Vec<Member> {
    map.iter().map(|(key, v)| Member { key: key.clone(), value: json(v) }).collect()
}

fn num(x: f64) -> Num {
    Num { bits: x.to_bits() }
}

fn defaults() -> PlanConfig {
    PlanConfig {
        probe_speed: num(1.0),
        margin: num(0.5),
        sag_allowance: num(0.2),
        entry_feed: num(1200.0),
        drag_speed: num(20.0),
        drag_z_step: num(0.05),
        drag_sensitivity: num(3.0),
        touch_samples: num(3.0),
        touch_sample_range: num(0.01),
        touch_retract: num(2.0),
        touch_accel: num(100.0),
        max_probe_nozzle_temp: num(150.0),
        reheat_park_x: None,
        reheat_park_y: None,
        reheat_park_delta_z: num(2.0),
        pre_home_z_lift: num(5.0),
        purge_enable: true,
        purge_amount: num(5.0),
        purge_macro: None,
        purge_x: None,
        purge_y: None,
        purge_z: None,
        purge_speed: num(300.0),
        purge_retract: num(1.0),
        clean_nozzle_macro: "CLEAN_NOZZLE".to_owned(),
        drag_nozzle_temp: num(100.0),
        recovery_accel: None,
        accel_home: None,
        accel_travel: None,
        accel_probe: None,
        accel_entry: None,
        confirm_z_before_resume: false,
        debug_confirm_each_step: false,
        unsafe_allow_purge_z_below_bed: false,
        confirm_timeout_s: None,
        gcode_barrier_timeout_s: None,
        resume_candidate_policy: ResumePolicy::Ask,
        preview_standoff: None,
        preview_nozzle_temp: None,
        legacy_single_probe: false,
    }
}

/// The `configfile` status of a machine with a tap probe, its `[plr]` options
/// overridden as given.
fn configfile_status(overrides: &[(&str, &str)]) -> Value {
    let mut plr = value(
        r#"{
            "probe_method": "tap",
            "accel_chip": "",
            "wal_dir": "/var/lib/plrd/wal",
            "control_socket": "/var/lib/plrd/plrd.sock",
            "probe_speed": 1.0,
            "envelope_margin": 0.5,
            "sag_allowance": 0.2,
            "drag_speed": 20.0,
            "drag_z_step": 0.05,
            "drag_sensitivity": 30.0,
            "exclusion_radius": 5.0,
            "entry_feedrate": 1200.0,
            "self_locking_z": true,
            "probe_resolution": 0.0125
        }"#,
    );
    for (key, text) in overrides {
        plr[*key] = value(text);
    }
    let mut status = value(
        r#"{
            "config": {
                "plr": {},
                "stepper_z": {"step_pin": "PB0", "position_min": "-2", "position_max": "250"},
                "stepper_z1": {"step_pin": "!PB3"},
                "probe": {"z_offset": "-0.1", "activate_gcode": "", "deactivate_gcode": ""},
                "printer": {"kinematics": "corexy"}
            },
            "warnings": [],
            "save_config_pending": false,
            "save_config_pending_items": {},
            "settings": {
                "printer": {
                    "kinematics": "corexy",
                    "max_velocity": 300.0,
                    "minimum_z_position": -3.0
                },
                "force_move": {"enable_force_move": true},
                "stepper_z": {"step_pin": "PB0", "position_min": -2.0, "position_max": 250.0},
                "stepper_z1": {"step_pin": "!PB3"},
                "probe": {"z_offset": -0.1, "activate_gcode": "", "deactivate_gcode": ""},
                "virtual_sdcard": {"path": "/home/pi/printer_data/gcodes"}
            }
        }"#,
    );
    status["config"]["plr"]["probe_method"] = plr["probe_method"].clone();
    status["config"]["plr"]["accel_chip"] = plr["accel_chip"].clone();
    status["settings"]["plr"] = plr;
    status
}

fn plr_object() -> Value {
    value(
        r#"{
            "probe_method": "tap",
            "configured": true,
            "attested": true,
            "probe_resolution": 0.0125,
            "daemon_alive": true
        }"#,
    )
}

fn query_result(configfile: Value, plr: Value) -> Value {
    let mut result = value(r#"{"eventtime": 100.5, "status": {}}"#);
    result["status"]["configfile"] = configfile;
    result["status"]["plr"] = plr;
    result
}

fn snapshot_of(result: &Value) -> KlippySnapshot {
    KlippySnapshot::from_query_result(json(result)).unwrap()
}


fn stepper(name: &str, mcu: Option<&str>) -> MachineZStepper {
    MachineZStepper { name: name.to_owned(), mcu: mcu.map(str::to_owned) }
}

fn full_section() -> MachineSection {
    MachineSection {
        force_move_enabled: true,
        z_self_locking_attested: true,
        z_steppers: vec![stepper("stepper_z", None), stepper("stepper_z1", Some("mcu"))],
        primary_mcu: "mcu".to_owned(),
        probe_kind: Some("tap".to_owned()),
        probe_z_offset: Some(num(-0.1)),
        probe_activate_gcode_no_move: true,
        probe_deactivate_gcode_no_move: true,
        z_position_min: Some(num(-2.0)),
        validated_config_hash: None,
        virtual_sdcard_root: Some("/g".to_owned()),
    }
}

fn setup() -> Setup {
    Setup { section: full_section(), defaults: defaults() }
}

#[test]
fn machine_config_maps_the_section_faithfully() {
    let m = machine_config(&full_section(), true, &ConfigFile::Unset);
    assert!(m.force_move_enabled);
    assert!(m.z_self_locking_attested);
    assert_eq!(m.z_steppers.len(), 2);
    assert_eq!(m.z_steppers[0].mcu, "mcu");
    assert!(m.type_annotations_present);
    assert_eq!(m.probes.len(), 1);
    assert!(matches!(m.probes[0].kind, ProbeKind::Tap));
    assert_eq!(m.probes[0].z_offset, num(-0.1));
    assert!(m.config_hash.contains("unavailable"));
}

#[test]
fn load_cell_kind_and_missing_probe_fields() {
    let mut section = full_section();
    section.probe_kind = Some("load_cell".to_owned());
    let m = machine_config(&section, true, &ConfigFile::Unset);
    assert!(matches!(m.probes[0].kind, ProbeKind::LoadCell));
    section.probe_z_offset = None;
    let m = machine_config(&section, true, &ConfigFile::Unset);
    assert!(m.probes.is_empty());
}

#[test]
fn config_hash_is_stable_and_detects_change() {
    let content = |text: &str| ConfigFile::Content(text.as_bytes().to_vec());
    let h1 = klipper_config_hash(&content("[probe]\nz_offset: -0.1\n"));
    assert!(h1.starts_with("crc32c:"), "{h1}");
    assert_eq!(h1, klipper_config_hash(&content("[probe]\nz_offset: -0.1\n")));
    assert_ne!(h1, klipper_config_hash(&content("[probe]\nz_offset: -0.2\n")));
    assert!(klipper_config_hash(&ConfigFile::Unreadable("no such file".to_owned()))
        .contains("unreadable"));
    assert_eq!(klipper_config_hash(&content("123456789")), "crc32c:e3069283");
    assert_eq!(crc32c(b"123456789"), 0xe306_9283);
}

#[test]
fn type_annotation_scan_finds_the_marker() {
    assert!(contains_type_annotations(b"G1 X0\n;TYPE:WALL-OUTER\nG1 X1"));
    assert!(!contains_type_annotations(b"G1 X0\n; type: nope\n"));
    assert!(!contains_type_annotations(b""));
    assert!(contains_type_annotations(b";TYPE:"));
    assert!(!contains_type_annotations(b";TYPE"));
}

fn interval(lo: f64, hi: f64) -> Interval {
    Interval { lo: num(lo), hi: num(hi) }
}

fn stop_set(xy: Option<(Interval, Interval)>, window: Option<OffsetWindow>) -> PossibleStops {
    PossibleStops {
        xy,
        z_candidates: vec![
            ZCandidate { z: interval(4.2, 4.2), mid: num(4.2), wide: false },
            ZCandidate { z: interval(4.0, 4.4), mid: num(4.2), wide: true },
        ],
        e: Some(interval(10.0, 12.0)),
        window,
    }
}

#[test]
fn stop_evidence_maps_the_set_onto_the_matcher_contract() {
    let set = stop_set(
        Some((interval(10.0, 12.0), interval(20.0, 21.0))),
        Some(OffsetWindow { start: 100, end: 500 }),
    );
    let evidence = stop_evidence(&set, 40).unwrap();
    assert_eq!(evidence.x, interval(10.0, 12.0));
    assert_eq!(evidence.y, interval(20.0, 21.0));
    assert_eq!(evidence.e, Some(interval(10.0, 12.0)));
    assert_eq!(evidence.z_candidates, vec![num(4.2), num(4.0), num(4.4), num(4.2)]);
    assert_eq!(evidence.window, (100, Some(501)));
}

#[test]
fn stop_evidence_without_xy_is_none_and_window_falls_back() {
    assert!(stop_evidence(&stop_set(None, None), 40).is_none());
    let set = stop_set(Some((interval(0.0, 1.0), interval(0.0, 1.0))), None);
    let evidence = stop_evidence(&set, 40).unwrap();
    assert_eq!(evidence.window, (40, None));
    assert_eq!(
        search_window(Some(OffsetWindow { start: 7, end: u64::MAX }), 0),
        (7, Some(u64::MAX))
    );
}

fn unreachable_klippy() -> Result<KlippySnapshot, String> {
    Err("connect /nonexistent-plrd/klippy.sock: No such file or directory".to_owned())
}

#[test]
fn machine_source_resolution_with_unreachable_klippy() {
    match resolve_machine_source(unreachable_klippy(), false, &defaults()) {
        MachineSource::Unavailable { reason } => {
            assert!(reason.contains("klippy is unreachable"), "{reason}");
        }
        other => panic!("expected unavailable, got {other:?}"),
    }
    match resolve_machine_source(unreachable_klippy(), true, &defaults()) {
        MachineSource::Legacy { note } => {
            assert!(note.unwrap().contains("config-hash blessing"));
        }
        other => panic!("expected legacy fallback, got {other:?}"),
    }
}

#[test]
fn machine_mode_report_renders_each_mode() {
    let source = resolve_machine_source(unreachable_klippy(), false, &defaults());
    let text = report_machine_mode(&source).join("\n");
    assert!(text.contains("UNDETERMINED"), "{text}");
    let source = resolve_machine_source(unreachable_klippy(), true, &defaults());
    let text = report_machine_mode(&source).join("\n");
    assert!(text.contains("legacy [machine]"), "{text}");
    assert!(text.contains("note:"), "{text}");
}

fn plr_source(overrides: &[(&str, &str)], commissioned: bool) -> MachineSource {
    let snapshot = snapshot_of(&query_result(configfile_status(overrides), plr_object()));
    resolve_machine_source(Ok(snapshot), commissioned, &defaults())
}

#[test]
fn machine_mode_report_renders_plr_mode() {
    let text = report_machine_mode(&plr_source(&[], false)).join("\n");
    assert!(text.contains("mode: [plr]"), "{text}");
    assert!(text.contains("probe_method = tap"), "{text}");
}

/// Feeds `events` in order: where the pipeline ends, and what it said.
fn feed(setup: &Setup, events: Vec<PipelineEvent>) -> (Pipeline, String) {
    let mut lines = Vec::new();
    let mut pipeline = Pipeline::start();
    for event in events {
        pipeline = pipeline.on_event(setup, event, &mut lines);
    }
    (pipeline, lines.join("\n"))
}

fn outcome_of(pipeline: Pipeline) -> PipelineOutcome {
    match pipeline {
        Pipeline::Done(outcome) => outcome,
        other => panic!("expected an outcome, got {other:?}"),
    }
}

fn refusal_of(pipeline: Pipeline) -> String {
    match outcome_of(pipeline) {
        PipelineOutcome::NotPossible(reason) => reason,
        other => panic!("expected not-possible, got {other:?}"),
    }
}

fn fallback_of(pipeline: Pipeline) -> String {
    match outcome_of(pipeline) {
        PipelineOutcome::ManualFallback(reason) => reason,
        other => panic!("expected a manual fallback, got {other:?}"),
    }
}

fn scanned() -> PipelineEvent {
    PipelineEvent::Scanned(Ok(WalFacts {
        records: 4,
        tail: "torn".to_owned(),
        epochs: None,
        file: Some("/g/part.gcode".to_owned()),
    }))
}

fn file_read() -> PipelineEvent {
    PipelineEvent::FileRead(Ok(b";TYPE:WALL-OUTER\nG1 X1 E1\n".to_vec()))
}

fn stop_facts(window: Option<OffsetWindow>, has_xy: bool) -> StopFacts {
    StopFacts {
        t_a: "6.000".to_owned(),
        t_b: "6.500".to_owned(),
        class: "AmbiguousWindow".to_owned(),
        window,
        has_xy,
    }
}

fn reconstructed() -> PipelineEvent {
    PipelineEvent::Reconstructed(Ok(Reconstructed::Recovery(stop_facts(
        Some(OffsetWindow { start: 10, end: 20 }),
        true,
    ))))
}

fn legacy() -> PipelineEvent {
    PipelineEvent::Sourced {
        source: MachineSource::Legacy { note: None },
        file: ConfigFile::Content(b"123456789".to_vec()),
    }
}

fn live(overrides: &[(&str, &str)]) -> PipelineEvent {
    PipelineEvent::Sourced { source: plr_source(overrides, false), file: ConfigFile::Unset }
}

fn anchor(file_position: Option<u64>) -> PipelineEvent {
    PipelineEvent::Anchored(Some(Anchor {
        file_position,
        current_layer: Some(40),
        total_layer: Some(45),
    }))
}

fn modeled() -> PipelineEvent {
    PipelineEvent::Modeled(Ok(ModelFacts {
        layers: 3,
        described: "layers 1-2".to_owned(),
        window_layers: 2,
        before_first: false,
        consistent: true,
    }))
}

fn carry_on() -> PipelineEvent {
    PipelineEvent::Gated(GateVerdict::MustNotSuppress { reason: None, invalidates_offsets: false })
}

fn matched(unique: bool) -> PipelineEvent {
    PipelineEvent::Matched(Ok(MatchFacts {
        confidence: "SmallSet".to_owned(),
        candidates: 3,
        unique,
    }))
}

fn contacted() -> PipelineEvent {
    PipelineEvent::Contacted(Ok(ContactFacts::Candidates {
        count: 2,
        x: "10.00".to_owned(),
        y: "20.00".to_owned(),
    }))
}

fn planned(preview: bool) -> PipelineEvent {
    let select = RecoveryStep {
        id: 1,
        phase: Phase::Other,
        phase_name: "recovery-file-select".to_owned(),
        summary: "select".to_owned(),
        commands: vec!["M23 part_RECOVERY.gcode".to_owned(), "M24".to_owned()],
        pre_verify: vec![],
        verify: vec![],
        compute: None,
        cleanup_commands: vec![],
        abort_code: "recovery-file-select-failed".to_owned(),
    };
    let spec = plrd::plan::PreviewSpec {
        stops: vec![],
        representatives: vec![],
        default_index: 0,
        bindings: vec![],
        travel_feed: Reading { num: num(6000.0), spelling: "6000".to_owned() },
    };
    PipelineEvent::Planned(Ok(Planned::Plan(RecoveryPlan {
        steps: vec![select],
        resume_file: "part_RECOVERY.gcode".to_owned(),
        resume_offset: 18,
        recovery_file: RecoveryFileSpec {
            name: "part_RECOVERY.gcode".to_owned(),
            source_name: "part.gcode".to_owned(),
        },
        debug_confirm_each_step: false,
        confirm_timeout_s: None,
        gcode_barrier_timeout_s: None,
        preview: if preview { Some(spec) } else { None },
        warnings: vec![],
        rendered: "dead-reckoning recovery plan".to_owned(),
    })))
}

fn named() -> PipelineEvent {
    PipelineEvent::Named("part_RECOVERY.gcode".to_owned())
}

fn generated(gate: Result<(), String>, preflight: Result<(), String>) -> PipelineEvent {
    PipelineEvent::Generated { content: b"; recovery\n".to_vec(), gate, preflight }
}

/// The events up to a recovery that is known, for the machine of `source`.
fn opening(source: PipelineEvent) -> Vec<PipelineEvent> {
    vec![scanned(), PipelineEvent::HeartbeatRead(Ok(())), file_read(), reconstructed(), source]
}

/// The events of a run that reaches a plan.
fn full_run(source: PipelineEvent, file_position: Option<u64>) -> Vec<PipelineEvent> {
    let mut events = opening(source);
    events.push(PipelineEvent::Validated(Ok(())));
    events.push(anchor(file_position));
    events.push(modeled());
    events.push(carry_on());
    events.push(matched(false));
    events.push(PipelineEvent::Previewed(PreviewResult::Stops));
    events.push(PipelineEvent::Resumed(Ok(Some(2))));
    events.push(contacted());
    events.push(planned(true));
    events.push(named());
    events.push(generated(Ok(()), Ok(())));
    events
}

#[test]
fn full_pipeline_reaches_a_validated_plan() {
    let (pipeline, output) = feed(&setup(), full_run(legacy(), Some(8)));
    match outcome_of(pipeline) {
        PipelineOutcome::Plan(bundle) => {
            assert_eq!(bundle.file_path, "/g/part.gcode");
            assert_eq!(bundle.recovery_file_path, "/g/part_RECOVERY.gcode");
            assert_eq!(bundle.sdcard_root, "/g");
            assert_eq!(bundle.recovery_source_name, "part.gcode");
            assert_eq!(bundle.recovery_file_content, b"; recovery\n".to_vec());
            assert_eq!(bundle.machine.config_hash, "crc32c:e3069283");
            assert!(bundle.machine.type_annotations_present);
            assert!(bundle.original_file_bytes.is_some());
        }
        other => panic!("expected a plan, got {other:?}"),
    }
    for line in [
        "pipeline: 4 WAL records, tail: torn",
        "pipeline: print file /g/part.gcode (26 bytes)",
        "pipeline: stop window t_a 6.000s .. t_b 6.500s, class AmbiguousWindow",
        "pipeline: machine prerequisites validated",
        "pipeline: layer model from byte 8: 3 layers",
        "pipeline: match confidence SmallSet (3 candidates)",
        "pipeline: 2 probe candidate(s); best at (10.00, 20.00)",
    ] {
        assert!(output.contains(line), "{line}: {output}");
    }
}

#[test]
fn default_machine_section_is_rejected_before_planning() {
    let mut events = opening(legacy());
    events.push(PipelineEvent::Validated(Err(vec![
        "[force_move] is off".to_owned(),
        "no Z motor".to_owned(),
        "no probe".to_owned(),
    ])));
    let (pipeline, output) = feed(&setup(), events);
    match outcome_of(pipeline) {
        PipelineOutcome::MachineRejected(failures) => assert_eq!(failures.len(), 3),
        other => panic!("expected machine rejection, got {other:?}"),
    }
    assert!(output.contains("machine hash computed: crc32c:e3069283"), "{output}");
    assert!(output.contains("legacy mode"), "{output}");
}

#[test]
fn uncommissioned_machine_with_unreachable_klippy_refuses() {
    let source = resolve_machine_source(unreachable_klippy(), false, &defaults());
    let (pipeline, _) =
        feed(&setup(), opening(PipelineEvent::Sourced { source, file: ConfigFile::Unset }));
    let reason = refusal_of(pipeline);
    assert!(reason.contains("klippy is unreachable"), "{reason}");
    assert!(reason.contains("dry run"), "{reason}");
}

#[test]
fn missing_print_file_is_not_possible() {
    let (pipeline, _) = feed(
        &setup(),
        vec![
            scanned(),
            PipelineEvent::HeartbeatRead(Ok(())),
            PipelineEvent::FileRead(Err("No such file or directory".to_owned())),
            reconstructed(),
        ],
    );
    let reason = refusal_of(pipeline);
    assert_eq!(reason, "print file /g/part.gcode unreadable: No such file or directory");
}

#[test]
fn plr_mode_reaches_a_plan_and_ignores_the_legacy_section() {
    let mut uncommissioned = setup();
    uncommissioned.section.force_move_enabled = false;
    uncommissioned.section.probe_kind = None;
    let (pipeline, output) = feed(&uncommissioned, full_run(live(&[]), Some(8)));
    match outcome_of(pipeline) {
        PipelineOutcome::Plan(bundle) => {
            assert_eq!(bundle.machine.config_hash, LIVE_CONFIG_HASH);
            assert!(bundle.machine.force_move_enabled);
            assert_eq!(bundle.sdcard_root, "/home/pi/printer_data/gcodes");
        }
        other => panic!("expected a plan, got {other:?}\n{output}"),
    }
    assert!(output.contains("machine config from the [plr] section"), "{output}");
    assert!(output.contains("[machine] is ignored while [plr] exists"), "{output}");
}

/// The preview's mark once the candidates are built from `file_position`.
fn preview_mark(file_position: u64) -> (PreviewUse, String) {
    let events = full_run(live(&[]), Some(file_position)).into_iter().take(11).collect();
    let (pipeline, output) = feed(&setup(), events);
    match pipeline {
        Pipeline::Resume { preview, .. } => (preview, output),
        other => panic!("expected the resume stage, got {other:?}"),
    }
}

#[test]
fn preview_provenance_is_withheld_on_a_mid_file_model_despite_a_slicer_mark() {
    let (preview, output) = preview_mark(8);
    assert!(output.contains("window-relative to the resume anchor"), "{output}");
    assert_eq!(preview, PreviewUse::With { mark: None });
}

#[test]
fn preview_provenance_adopts_the_slicer_mark_on_a_base_zero_model() {
    let (preview, output) = preview_mark(0);
    assert!(output.contains("layer attribution:"), "{output}");
    assert!(!output.contains("window-relative"), "{output}");
    assert_eq!(preview, PreviewUse::With { mark: Some(40) });
}

#[test]
fn plr_mode_uncalibrated_drag_is_rejected_with_the_hint() {
    let overrides = [("probe_method", "\"adxl_drag\""), ("accel_chip", "\"adxl345\"")];
    let events: Vec<PipelineEvent> = opening(live(&overrides));
    let (pipeline, output) = feed(&setup(), events);
    match &pipeline {
        Pipeline::Validate(work) => assert_eq!(work.inputs.machine.noise_floor, None),
        other => panic!("expected validation, got {other:?}"),
    }
    assert!(!output.contains("machine hash computed"), "{output}");
    let mut lines = Vec::new();
    let failures = vec!["no noise floor: run PLR_NOISE_TEST first".to_owned()];
    let pipeline =
        pipeline.on_event(&setup(), PipelineEvent::Validated(Err(failures)), &mut lines);
    assert!(lines.is_empty(), "{lines:?}");
    assert!(matches!(outcome_of(pipeline), PipelineOutcome::MachineRejected(_)));
}

#[test]
fn unreadable_plr_section_refuses_rather_than_falling_back() {
    let source = plr_source(&[("probe_method", "\"laser\"")], true);
    let (pipeline, _) =
        feed(&setup(), opening(PipelineEvent::Sourced { source, file: ConfigFile::Unset }));
    let reason = refusal_of(pipeline);
    assert!(reason.contains("[plr] section is present but unreadable"), "{reason}");
}

#[test]
fn no_plr_section_stays_on_the_legacy_path() {
    let configfile = value(
        r#"{"settings": {"printer": {"kinematics": "corexy"}}, "config": {}, "warnings": [],
            "save_config_pending": false, "save_config_pending_items": {}}"#,
    );
    let snapshot = snapshot_of(&query_result(configfile, value("{}")));
    let source = resolve_machine_source(Ok(snapshot), true, &defaults());
    let sourced = PipelineEvent::Sourced { source, file: ConfigFile::Unset };
    let (pipeline, output) = feed(&setup(), full_run(sourced, Some(8)));
    assert!(matches!(outcome_of(pipeline), PipelineOutcome::Plan(_)));
    assert!(output.contains("legacy mode"), "{output}");
    assert!(!output.contains("klippy is unreachable"), "{output}");
}

#[test]
fn clean_wal_short_circuits() {
    let (pipeline, _) = feed(
        &setup(),
        vec![
            scanned(),
            PipelineEvent::HeartbeatRead(Ok(())),
            file_read(),
            PipelineEvent::Reconstructed(Ok(Reconstructed::CleanShutdown)),
        ],
    );
    assert!(matches!(outcome_of(pipeline), PipelineOutcome::CleanShutdown));
}

#[test]
fn a_log_without_a_print_file_still_knows_a_clean_end() {
    let nameless = || {
        PipelineEvent::Scanned(Ok(WalFacts {
            records: 9,
            tail: "clean".to_owned(),
            epochs: Some((3, 1, 1)),
            file: None,
        }))
    };
    let heartbeat = || PipelineEvent::HeartbeatRead(Err("no heartbeat".to_owned()));
    let (pipeline, output) = feed(
        &setup(),
        vec![
            nameless(),
            heartbeat(),
            PipelineEvent::Reconstructed(Ok(Reconstructed::CleanShutdown)),
        ],
    );
    assert!(matches!(outcome_of(pipeline), PipelineOutcome::CleanShutdown));
    assert_eq!(
        output,
        "pipeline: 9 WAL records, tail: clean\n\
         pipeline: WAL spans 3 epochs; recovering the newest printing epoch (1 older, 1 newer \
         discarded)\n\
         pipeline: no heartbeat"
    );
    let (pipeline, _) = feed(&setup(), vec![nameless(), heartbeat(), reconstructed()]);
    assert_eq!(refusal_of(pipeline), "no WAL context names a print file; nothing to resume");
}

#[test]
fn a_log_that_cannot_be_read_fails_the_run() {
    let (pipeline, _) =
        feed(&setup(), vec![PipelineEvent::Scanned(Err("bad header".to_owned()))]);
    match pipeline {
        Pipeline::Failed(why) => assert_eq!(why, "bad header"),
        other => panic!("expected a failure, got {other:?}"),
    }
}

#[test]
fn a_failed_reconstruction_is_not_possible() {
    let (pipeline, _) = feed(
        &setup(),
        vec![
            scanned(),
            PipelineEvent::HeartbeatRead(Ok(())),
            file_read(),
            PipelineEvent::Reconstructed(Err("no motion".to_owned())),
        ],
    );
    assert_eq!(refusal_of(pipeline), "reconstruction failed: no motion");
}

/// The events up to the anchor of a validated machine.
fn validated() -> Vec<PipelineEvent> {
    let mut events = opening(legacy());
    events.push(PipelineEvent::Validated(Ok(())));
    events
}

#[test]
fn an_anchor_must_lie_in_the_file() {
    let mut events = validated();
    events.push(PipelineEvent::Anchored(None));
    assert_eq!(refusal_of(feed(&setup(), events).0), "no WAL context names /g/part.gcode");
    let mut events = validated();
    events.push(anchor(Some(27)));
    assert_eq!(
        refusal_of(feed(&setup(), events).0),
        "context file offset 27 exceeds the file (26 bytes); wrong file?"
    );
    let mut events = validated();
    events.push(anchor(None));
    events.push(PipelineEvent::Modeled(Err("bad E".to_owned())));
    assert_eq!(refusal_of(feed(&setup(), events).0), "WAL context state invalid: bad E");
}

#[test]
fn the_completion_gate_suppresses_or_refuses() {
    let gated = |verdict: GateVerdict| {
        let mut events = validated();
        events.push(anchor(Some(0)));
        events.push(modeled());
        events.push(PipelineEvent::Gated(verdict));
        feed(&setup(), events)
    };
    let (pipeline, output) = gated(GateVerdict::Complete(RemainingWork::EndSequenceOnly {
        commands: vec!["M107".to_owned()],
    }));
    match outcome_of(pipeline) {
        PipelineOutcome::Complete(report) => {
            assert_eq!(report.file, "/g/part.gcode");
            assert_eq!(report.tested_offset, 10);
            assert_eq!(report.file_size, 26);
            assert_eq!(report.trailing_bytes(), 16);
            assert_eq!(report.unrun_commands(), vec!["M107".to_owned()]);
        }
        other => panic!("expected completion, got {other:?}"),
    }
    assert!(output.contains("the print is COMPLETE"), "{output}");
    assert!(output.contains("NOT offered"), "{output}");
    let (pipeline, _) = gated(GateVerdict::MustNotSuppress {
        reason: Some("the file shrank".to_owned()),
        invalidates_offsets: true,
    });
    assert_eq!(refusal_of(pipeline), "the file shrank");
    let (pipeline, _) =
        gated(GateVerdict::MustNotSuppress { reason: None, invalidates_offsets: true });
    assert_eq!(refusal_of(pipeline), "the print file changed");
}

#[test]
fn without_a_region_the_operator_recovers_by_hand() {
    let mut events = validated();
    events[3] = PipelineEvent::Reconstructed(Ok(Reconstructed::Recovery(stop_facts(None, false))));
    events.push(anchor(Some(0)));
    events.push(modeled());
    let (pipeline, output) = feed(&setup(), events);
    assert!(fallback_of(pipeline).contains("no XY region"));
    assert!(output.contains("no offset window (nothing to map)"), "{output}");
}

#[test]
fn a_match_decides_what_is_previewed() {
    let after = |event: PipelineEvent| {
        let mut events = validated();
        events.push(anchor(Some(0)));
        events.push(modeled());
        events.push(carry_on());
        events.push(event);
        feed(&setup(), events)
    };
    match after(matched(true)).0 {
        Pipeline::Resume { kind, preview, .. } => {
            assert_eq!(kind, MatchKind::Found);
            assert_eq!(preview, PreviewUse::Without);
        }
        other => panic!("{other:?}"),
    }
    let (pipeline, output) = after(PipelineEvent::Matched(Err(MatchFailure::Inconclusive {
        lines: 12,
        layers: vec![7, 8],
    })));
    match pipeline {
        Pipeline::BuildPreview { kind, .. } => {
            assert_eq!(kind, MatchKind::LayerOnly { layer: 7 });
        }
        other => panic!("{other:?}"),
    }
    assert!(
        output.contains("match inconclusive: 12 candidate lines across layers [7, 8]"),
        "{output}"
    );
    assert_eq!(list_layers(&vec![7, 8]), "[7, 8]");
    let (pipeline, _) =
        after(PipelineEvent::Matched(Err(MatchFailure::Other("no line".to_owned()))));
    assert_eq!(fallback_of(pipeline), "stop-point match failed: no line");
}

/// The outcome when the run of `full_run` ends with `event` at place `at`.
fn cut(at: usize, event: PipelineEvent) -> Pipeline {
    let mut events: Vec<PipelineEvent> =
        full_run(legacy(), Some(8)).into_iter().take(at).collect();
    events.push(event);
    feed(&setup(), events).0
}

#[test]
fn every_later_refusal_names_its_cause() {
    let declined = PipelineEvent::Previewed(PreviewResult::Declined("vase mode".to_owned()));
    assert_eq!(
        fallback_of(cut(10, declined)),
        "resume preview declined (vase mode); manual recovery required"
    );
    assert_eq!(
        fallback_of(cut(11, PipelineEvent::Resumed(Err("all bridges".to_owned())))),
        "no safe resume point: all bridges"
    );
    assert_eq!(
        fallback_of(cut(11, PipelineEvent::Resumed(Ok(None)))),
        "resume point has no layer attribution; contact selection impossible"
    );
    assert_eq!(
        fallback_of(cut(12, PipelineEvent::Contacted(Err("no flat".to_owned())))),
        "contact selection failed: no flat"
    );
    assert_eq!(
        refusal_of(cut(13, PipelineEvent::Planned(Err("no bed".to_owned())))),
        "planning failed: no bed"
    );
    assert_eq!(
        fallback_of(cut(13, PipelineEvent::Planned(Ok(Planned::ManualFallback("x".to_owned()))))),
        "planner declined: x"
    );
    assert!(matches!(
        outcome_of(cut(13, PipelineEvent::Planned(Ok(Planned::NoRecoveryNeeded)))),
        PipelineOutcome::CleanShutdown
    ));
    assert_eq!(
        refusal_of(cut(15, generated(Err("M109 early".to_owned()), Ok(())))),
        "generated recovery file violates the heating gate: M109 early"
    );
    assert_eq!(
        refusal_of(cut(15, generated(Ok(()), Err("X300".to_owned())))),
        "generated recovery file failed pre-flight: X300"
    );
}

#[test]
fn an_unknown_root_refuses_the_plan() {
    let mut rootless = setup();
    rootless.section.virtual_sdcard_root = None;
    let events: Vec<PipelineEvent> = full_run(legacy(), Some(8)).into_iter().take(14).collect();
    let (pipeline, _) = feed(&rootless, events);
    assert_eq!(
        refusal_of(pipeline),
        "virtual_sdcard root unknown; cannot place the recovery file"
    );
}

#[test]
fn a_taken_name_repoints_the_plan() {
    let mut events = full_run(legacy(), Some(8));
    events[14] = PipelineEvent::Named("part_RECOVERY-2.gcode".to_owned());
    match outcome_of(feed(&setup(), events).0) {
        PipelineOutcome::Plan(bundle) => {
            assert_eq!(bundle.recovery_file_path, "/g/part_RECOVERY-2.gcode");
            assert_eq!(bundle.plan.resume_file, "part_RECOVERY-2.gcode");
            assert_eq!(bundle.plan.steps[0].commands[0], "M23 part_RECOVERY-2.gcode");
        }
        other => panic!("expected a plan, got {other:?}"),
    }
}

#[test]
fn an_answer_nobody_waits_for_changes_nothing() {
    let (pipeline, output) = feed(&setup(), vec![named(), contacted(), modeled()]);
    assert!(matches!(pipeline, Pipeline::Scan));
    assert!(output.is_empty(), "{output}");
}
