use plrd::calibration::{
    collapse_whitespace, compute_fingerprint, fingerprint, validate_group, CalGroup, CalTier,
};
use plrd::checksum::{crc32_hex, crc32c};
use plrd::json::{Json, Kind, Member, Number, Text};
use plrd::machine::{
    klipper_config_hash, machine_from_settings, on_klippy_reply, pin_mcu, ConfigFile, KlippyReply,
    KlippySnapshot, MachineConfig, ProbeKind,
};
use plrd::number::{Num, Reading};
use plrd::plrcfg::{
    gcode_macro_names, resume_policy_from, PlanConfig, PlrSettings, ResumePolicy,
    LIVE_CONFIG_HASH, NOISE_FLOOR_PREFIX, NOISE_FLOOR_SPEED, NOISE_FLOOR_TEMP,
    NOISE_FLOOR_TEMP_SENSOR, UNSAFE_PURGE_Z_BELOW_BED,
};
use serde_json::Value;

fn value(text: &str) -> Value {
    serde_json::from_str(text).unwrap()
}

fn canonical(number: f64) -> Option<String> {
    if !number.is_finite() {
        None
    } else if number.abs() < 1e15 && number.fract() == 0.0 {
        Some(format!("{}", number as i64))
    } else {
        Some(format!("{number}"))
    }
}

fn json(v: &Value) -> Json {
    let kind = match v {
        Value::Null => Kind::Null,
        Value::Bool(b) => Kind::Bool(*b),
        Value::Number(n) => {
            let number = n.as_f64().unwrap();
            Kind::Number(Number {
                reading: Reading {
                    num: Num { bits: number.to_bits() },
                    spelling: format!("{number}"),
                },
                integer: n.as_i64().map(i128::from).or(n.as_u64().map(i128::from)),
                canonical: canonical(number),
            })
        }
        Value::String(s) => {
            let collapsed = s.split_whitespace().collect::<Vec<_>>().join(" ");
            Kind::Text(Text {
                value: s.clone(),
                canonical: collapsed.parse::<f64>().ok().and_then(canonical),
            })
        }
        Value::Array(items) => Kind::Array(items.iter().map(json).collect()),
        Value::Object(map) => Kind::Object(members(map)),
    };
    Json { kind, spelling: v.to_string() }
}

fn members(map: &serde_json::Map<String, Value>) -> Vec<Member> {
    map.iter().map(|(key, v)| Member { key: key.clone(), value: json(v) }).collect()
}

fn num(x: f64) -> Num {
    Num { bits: x.to_bits() }
}

fn defaults() -> PlanConfig {
    PlanConfig {
        probe_speed: num(1.0),
        margin: num(0.5),
        sag_allowance: num(0.2),
        entry_feed: num(1200.0),
        drag_speed: num(20.0),
        drag_z_step: num(0.05),
        drag_sensitivity: num(3.0),
        touch_samples: num(3.0),
        touch_sample_range: num(0.01),
        touch_retract: num(2.0),
        touch_accel: num(100.0),
        max_probe_nozzle_temp: num(150.0),
        reheat_park_x: None,
        reheat_park_y: None,
        reheat_park_delta_z: num(2.0),
        pre_home_z_lift: num(5.0),
        purge_enable: true,
        purge_amount: num(5.0),
        purge_macro: None,
        purge_x: None,
        purge_y: None,
        purge_z: None,
        purge_speed: num(300.0),
        purge_retract: num(1.0),
        clean_nozzle_macro: "CLEAN_NOZZLE".to_owned(),
        drag_nozzle_temp: num(100.0),
        recovery_accel: None,
        accel_home: None,
        accel_travel: None,
        accel_probe: None,
        accel_entry: None,
        confirm_z_before_resume: false,
        debug_confirm_each_step: false,
        unsafe_allow_purge_z_below_bed: false,
        confirm_timeout_s: None,
        gcode_barrier_timeout_s: None,
        resume_candidate_policy: ResumePolicy::Ask,
        preview_standoff: None,
        preview_nozzle_temp: None,
        legacy_single_probe: false,
    }
}

/// The `configfile` status of a machine with a tap probe, its `[plr]` options
/// overridden as given.
fn configfile_status(overrides: &[(&str, &str)]) -> Value {
    let mut plr = value(
        r#"{
            "probe_method": "tap",
            "accel_chip": "",
            "wal_dir": "/var/lib/plrd/wal",
            "control_socket": "/var/lib/plrd/plrd.sock",
            "probe_speed": 1.0,
            "envelope_margin": 0.5,
            "sag_allowance": 0.2,
            "drag_speed": 20.0,
            "drag_z_step": 0.05,
            "drag_sensitivity": 30.0,
            "exclusion_radius": 5.0,
            "entry_feedrate": 1200.0,
            "self_locking_z": true,
            "probe_resolution": 0.0125
        }"#,
    );
    for (key, text) in overrides {
        plr[*key] = value(text);
    }
    let mut status = value(
        r#"{
            "config": {
                "plr": {},
                "stepper_z": {"step_pin": "PB0", "position_min": "-2", "position_max": "250"},
                "stepper_z1": {"step_pin": "!PB3"},
                "probe": {"z_offset": "-0.1", "activate_gcode": "", "deactivate_gcode": ""},
                "printer": {"kinematics": "corexy"}
            },
            "warnings": [],
            "save_config_pending": false,
            "save_config_pending_items": {},
            "settings": {
                "printer": {
                    "kinematics": "corexy",
                    "max_velocity": 300.0,
                    "minimum_z_position": -3.0
                },
                "force_move": {"enable_force_move": true},
                "stepper_z": {"step_pin": "PB0", "position_min": -2.0, "position_max": 250.0},
                "stepper_z1": {"step_pin": "!PB3"},
                "probe": {"z_offset": -0.1, "activate_gcode": "", "deactivate_gcode": ""},
                "virtual_sdcard": {"path": "/home/pi/printer_data/gcodes"}
            }
        }"#,
    );
    status["config"]["plr"]["probe_method"] = plr["probe_method"].clone();
    status["config"]["plr"]["accel_chip"] = plr["accel_chip"].clone();
    status["settings"]["plr"] = plr;
    status
}

fn plr_object() -> Value {
    value(
        r#"{
            "probe_method": "tap",
            "configured": true,
            "attested": true,
            "probe_resolution": 0.0125,
            "daemon_alive": true
        }"#,
    )
}

fn query_result(configfile: Value, plr: Value) -> Value {
    let mut result = value(r#"{"eventtime": 100.5, "status": {}}"#);
    result["status"]["configfile"] = configfile;
    result["status"]["plr"] = plr;
    result
}

fn snapshot_of(result: &Value) -> KlippySnapshot {
    KlippySnapshot::from_query_result(json(result)).unwrap()
}

fn settings_of(snapshot: &KlippySnapshot) -> PlrSettings {
    PlrSettings::parse(snapshot.plr_section().unwrap(), &defaults()).unwrap()
}

fn parse_fixture(overrides: &[(&str, &str)]) -> (KlippySnapshot, PlrSettings) {
    let snapshot = snapshot_of(&query_result(configfile_status(overrides), plr_object()));
    let plr = settings_of(&snapshot);
    (snapshot, plr)
}

fn assemble(snapshot: &KlippySnapshot, plr: &PlrSettings) -> (MachineConfig, Vec<String>) {
    machine_from_settings(&snapshot.settings, &snapshot.config, plr, true)
}

fn floor_keys(plr: &PlrSettings) -> Vec<&str> {
    plr.noise_floor.iter().map(|m| m.key.as_str()).collect()
}

#[test]
fn full_fixture_parses_and_validates() {
    let (snapshot, plr) = parse_fixture(&[]);
    assert_eq!(plr.probe_method, "tap");
    assert!(plr.self_locking_z);
    assert_eq!(plr.probe_resolution, Some(num(0.0125)));
    assert!(plr.noise_floor.is_empty());
    assert_eq!(plr.control_socket, "/var/lib/plrd/plrd.sock");

    let (machine, notes) = assemble(&snapshot, &plr);
    assert!(notes.is_empty(), "{notes:?}");
    assert!(machine.force_move_enabled);
    assert!(machine.z_self_locking_attested);
    assert_eq!(machine.z_steppers.len(), 2);
    assert!(machine.z_steppers.iter().all(|s| s.mcu == "mcu"));
    assert_eq!(machine.probes.len(), 1);
    assert!(matches!(machine.probes[0].kind, ProbeKind::Tap));
    assert_eq!(machine.probes[0].z_offset, num(-0.1));
    assert!(machine.probes[0].activate_gcode_no_move);
    assert_eq!(machine.z_position_min, Some(num(-2.0)));
    assert_eq!(machine.virtual_sdcard_root.as_deref(), Some("/home/pi/printer_data/gcodes"));
    assert_eq!(machine.config_hash, LIVE_CONFIG_HASH);
    assert_eq!(machine.validated_config_hash.as_deref(), Some(LIVE_CONFIG_HASH));
}

#[test]
fn plan_config_carries_the_plr_tunables() {
    let (_, plr) = parse_fixture(&[
        ("probe_speed", "1.5"),
        ("envelope_margin", "0.8"),
        ("sag_allowance", "0.3"),
        ("entry_feedrate", "900.0"),
        ("drag_z_step", "0.08"),
    ]);
    let config = plr.plan_config();
    assert_eq!(config.probe_speed, num(1.5));
    assert_eq!(config.margin, num(0.8));
    assert_eq!(config.sag_allowance, num(0.3));
    assert_eq!(config.entry_feed, num(900.0));
    assert_eq!(config.drag_z_step, num(0.08));
}

#[test]
fn plan_config_carries_the_frozen_recovery_ux_keys() {
    let (_, plr) = parse_fixture(&[
        ("max_probe_nozzle_temp", "155.0"),
        ("reheat_park_x", "12.5"),
        ("reheat_park_y", "30.0"),
        ("reheat_park_delta_z", "3.0"),
        ("pre_home_z_lift", "8.0"),
        ("purge_enable", "false"),
        ("purge_amount", "7.0"),
        ("purge_macro", "\"MY_PURGE\""),
        ("clean_nozzle_macro", "\"WIPE_NOZZLE\""),
    ]);
    assert_eq!(plr.max_probe_nozzle_temp, num(155.0));
    assert_eq!(plr.reheat_park_x.unwrap(), num(12.5));
    assert_eq!(plr.reheat_park_y.unwrap(), num(30.0));
    assert!(!plr.purge_enable);
    assert_eq!(plr.purge_macro.as_deref(), Some("MY_PURGE"));
    assert_eq!(plr.clean_nozzle_macro, "WIPE_NOZZLE");
    let config = plr.plan_config();
    assert_eq!(config.max_probe_nozzle_temp, num(155.0));
    assert_eq!(config.reheat_park_x.unwrap(), num(12.5));
    assert_eq!(config.reheat_park_delta_z, num(3.0));
    assert_eq!(config.pre_home_z_lift, num(8.0));
    assert!(!config.purge_enable);
    assert_eq!(config.purge_macro.as_deref(), Some("MY_PURGE"));
    assert_eq!(config.clean_nozzle_macro, "WIPE_NOZZLE");
}

#[test]
fn frozen_keys_default_and_parse_tolerantly() {
    let (_, plr) = parse_fixture(&[]);
    assert_eq!(plr.max_probe_nozzle_temp, num(150.0));
    assert_eq!(plr.reheat_park_x, None);
    assert_eq!(plr.reheat_park_y, None);
    assert!(plr.purge_enable);
    assert_eq!(plr.purge_macro, None);
    assert_eq!(plr.clean_nozzle_macro, "CLEAN_NOZZLE");
    let (_, plr) = parse_fixture(&[("reheat_park_x", "\"oops\"")]);
    assert_eq!(plr.reheat_park_x, None);
    let (_, plr) = parse_fixture(&[("purge_macro", "\"  \"")]);
    assert_eq!(plr.purge_macro, None);
}

#[test]
fn purge_and_drag_temp_keys_parse_and_carry_through() {
    let (_, plr) = parse_fixture(&[
        ("drag_nozzle_temp", "120.0"),
        ("purge_x", "150.0"),
        ("purge_y", "12.0"),
        ("purge_z", "0.8"),
        ("purge_speed", "240.0"),
        ("purge_retract", "2.0"),
        ("purge_amount", "9.0"),
    ]);
    assert_eq!(plr.drag_nozzle_temp, num(120.0));
    assert_eq!(plr.purge_x.unwrap(), num(150.0));
    assert_eq!(plr.purge_y.unwrap(), num(12.0));
    assert_eq!(plr.purge_z.unwrap(), num(0.8));
    let config = plr.plan_config();
    assert_eq!(config.drag_nozzle_temp, num(120.0));
    assert_eq!(config.purge_speed, num(240.0));
    assert_eq!(config.purge_retract, num(2.0));
    assert_eq!(config.purge_amount, num(9.0));
    assert_eq!(config.purge_x, plr.purge_x);
}

#[test]
fn purge_and_drag_temp_keys_default_tolerantly() {
    let (_, plr) = parse_fixture(&[]);
    let d = defaults();
    assert_eq!(plr.drag_nozzle_temp, d.drag_nozzle_temp);
    assert_eq!(plr.purge_speed, d.purge_speed);
    assert_eq!(plr.purge_retract, d.purge_retract);
    assert_eq!(plr.purge_x, None);
    assert_eq!(plr.purge_y, None);
    assert_eq!(plr.purge_z, None);
    let (_, plr) = parse_fixture(&[("purge_x", "\"oops\"")]);
    assert_eq!(plr.purge_x, None);
    let (_, plr) = parse_fixture(&[("drag_nozzle_temp", "0.0")]);
    assert_eq!(plr.drag_nozzle_temp, num(0.0));
}

#[test]
fn gcode_macro_names_are_uppercased_from_lowercased_sections() {
    let sections = value(
        r#"{
            "gcode_macro clean_nozzle": {"gcode": "..."},
            "gcode_macro my_purge": {"gcode": "..."},
            "stepper_z": {"step_pin": "PB0"}
        }"#,
    );
    let names = gcode_macro_names(&members(sections.as_object().unwrap()));
    assert!(names.contains(&"CLEAN_NOZZLE".to_owned()));
    assert!(names.contains(&"MY_PURGE".to_owned()));
    assert!(!names.contains(&"STEPPER_Z".to_owned()));
    assert_eq!(names.len(), 2);
}

#[test]
fn macro_names_are_trimmed_sorted_and_listed_once() {
    let names = ["gcode_macro zeta", "gcode_macro  ALPHA ", "gcode_macro alpha", "gcode_macros x"]
        .iter()
        .map(|k| Member { key: (*k).to_owned(), value: json(&Value::Null) })
        .collect::<Vec<_>>();
    assert_eq!(gcode_macro_names(&names), vec!["ALPHA", "ZETA"]);
}

#[test]
fn adxl_drag_machine_builds_the_drag_probe() {
    let (snapshot, plr) = parse_fixture(&[
        ("probe_method", "\"adxl_drag\""),
        ("accel_chip", "\"adxl345\""),
        ("noise_floor_rms", "118.0"),
        ("noise_floor_peak", "410.0"),
        ("noise_floor_speed", "20.0"),
    ]);
    let rms = plr.noise_floor.iter().find(|m| m.key == "noise_floor_rms").map(|m| m.value);
    assert_eq!(rms, Some(num(118.0)));
    assert_eq!(plr.representative_noise_floor(), Some(num(118.0)));
    assert_eq!(plr.noise_floor_speed, Some(num(20.0)));
    assert!(!floor_keys(&plr).contains(&"noise_floor_speed"));
    let (machine, _) = assemble(&snapshot, &plr);
    assert_eq!(machine.noise_floor_speed, Some(num(20.0)));
    assert_eq!(machine.probes.len(), 1);
    assert!(matches!(&machine.probes[0].kind, ProbeKind::AdxlDrag { chip } if chip == "adxl345"));
    assert_eq!(machine.noise_floor, Some(num(118.0)));
}

#[test]
fn uncalibrated_drag_machine_fails_validation_with_the_hint() {
    let (snapshot, plr) = parse_fixture(&[
        ("probe_method", "\"adxl_drag\""),
        ("accel_chip", "\"adxl345\""),
        ("noise_floor_speed", "20.0"),
    ]);
    assert!(plr.noise_floor.is_empty());
    assert_eq!(plr.noise_floor_speed, Some(num(20.0)));
    let (machine, _) = assemble(&snapshot, &plr);
    assert_eq!(machine.noise_floor, None);
}

#[test]
fn temp_sensor_metadata_parses_alongside_real_measurements() {
    let (snapshot, plr) = parse_fixture(&[
        ("probe_method", "\"adxl_drag\""),
        ("accel_chip", "\"adxl345\""),
        ("noise_floor_rms", "118.0"),
        ("noise_floor_still_rms", "31.0"),
        ("noise_floor_speed", "20.0"),
        ("noise_floor_temp", "40.0"),
        ("noise_floor_temp_sensor", "\"temperature_sensor chamber\""),
    ]);
    assert_eq!(floor_keys(&plr), vec!["noise_floor_rms", "noise_floor_still_rms"]);
    assert_eq!(plr.representative_noise_floor(), Some(num(118.0)));
    assert_eq!(plr.noise_floor_speed, Some(num(20.0)));
    let (machine, _) = assemble(&snapshot, &plr);
    assert_eq!(machine.noise_floor, Some(num(118.0)));
    assert_eq!(machine.noise_floor_speed, Some(num(20.0)));
}

#[test]
fn temperature_only_is_not_a_calibrated_noise_floor() {
    let (snapshot, plr) = parse_fixture(&[
        ("probe_method", "\"adxl_drag\""),
        ("accel_chip", "\"adxl345\""),
        ("noise_floor_temp", "40.0"),
        ("noise_floor_temp_sensor", "\"extruder\""),
    ]);
    assert!(plr.noise_floor.is_empty());
    assert_eq!(plr.representative_noise_floor(), None);
    let (machine, _) = assemble(&snapshot, &plr);
    assert_eq!(machine.noise_floor, None);
}

#[test]
fn without_rms_the_least_measurement_stands_for_the_floor() {
    let section = value(
        r#"{"probe_method": "tap", "noise_floor_peak": 410.0, "noise_floor_abs": 7.5}"#,
    );
    let plr = PlrSettings::parse(&members(section.as_object().unwrap()), &defaults()).unwrap();
    assert_eq!(plr.representative_noise_floor(), Some(num(7.5)));
}

#[test]
fn a_non_numeric_measurement_still_refuses_the_section() {
    for key in ["noise_floor_rms", "noise_floor_p95"] {
        let snapshot = snapshot_of(&query_result(
            configfile_status(&[("probe_method", "\"adxl_drag\""), (key, "\"loud\"")]),
            plr_object(),
        ));
        let err = PlrSettings::parse(snapshot.plr_section().unwrap(), &defaults()).unwrap_err();
        assert_eq!(err, format!("[plr] {key} is not a number: \"loud\""));
    }
}

#[test]
fn every_metadata_key_carries_the_noise_floor_prefix() {
    for key in [NOISE_FLOOR_SPEED, NOISE_FLOOR_TEMP, NOISE_FLOOR_TEMP_SENSOR] {
        assert!(
            key.starts_with(NOISE_FLOOR_PREFIX),
            "{key} cannot be exempted from a sweep it never reaches"
        );
    }
}

#[test]
fn missing_cross_check_sections_fail_validation_not_parsing() {
    let (snapshot, plr) = parse_fixture(&[]);
    let whole = query_result(configfile_status(&[]), plr_object());
    let mut only = value("{}");
    only["plr"] = whole["status"]["configfile"]["settings"]["plr"].clone();
    let settings = members(only.as_object().unwrap());
    let (machine, _) = machine_from_settings(&settings, &settings, &plr, false);
    assert!(!machine.force_move_enabled);
    assert!(machine.z_steppers.is_empty());
    assert!(machine.probes.is_empty());
    assert_eq!(machine.z_position_min, None);
    assert_eq!(machine.virtual_sdcard_root, None);
    assert!(!machine.type_annotations_present);
    assert!(snapshot.plr_section().is_some());
}

#[test]
fn secondary_mcu_z_and_nonempty_activate_gcode_are_detected() {
    let mut result = query_result(configfile_status(&[]), plr_object());
    let settings = &mut result["status"]["configfile"]["settings"];
    settings["stepper_z1"]["step_pin"] = value("\"^!z_board:PA1\"");
    settings["probe"]["activate_gcode"] = value("\"G1 Z5\\n\"");
    let snapshot = snapshot_of(&result);
    let (machine, _) = assemble(&snapshot, &settings_of(&snapshot));
    assert!(machine
        .z_steppers
        .iter()
        .any(|s| s.name == "stepper_z1" && s.mcu == "z_board"));
    assert!(!machine.probes[0].activate_gcode_no_move);
    assert!(machine.probes[0].deactivate_gcode_no_move);
}

#[test]
fn both_probe_sections_present_is_a_multiple_probe_refusal() {
    let mut result = query_result(configfile_status(&[]), plr_object());
    result["status"]["configfile"]["settings"]["load_cell_probe"] =
        value(r#"{"z_offset": -0.15, "activate_gcode": ""}"#);
    let snapshot = snapshot_of(&result);
    let (machine, _) = assemble(&snapshot, &settings_of(&snapshot));
    assert!(matches!(machine.probes[0].kind, ProbeKind::Tap));
    assert_eq!(machine.probes.len(), 2);
}

#[test]
fn load_cell_method_reads_its_own_section_first() {
    let mut result =
        query_result(configfile_status(&[("probe_method", "\"load_cell\"")]), plr_object());
    let settings = result["status"]["configfile"]["settings"].as_object_mut().unwrap();
    let mut probe = settings.remove("probe").unwrap();
    probe["z_offset"] = value("-0.15");
    settings.insert("load_cell_probe".to_owned(), probe);
    let snapshot = snapshot_of(&result);
    let (machine, _) = assemble(&snapshot, &settings_of(&snapshot));
    assert_eq!(machine.probes.len(), 1);
    assert!(matches!(machine.probes[0].kind, ProbeKind::LoadCell));
    assert_eq!(machine.probes[0].z_offset, num(-0.15));
}

#[test]
fn a_probe_without_an_offset_is_not_at_zero() {
    let mut result = query_result(configfile_status(&[]), plr_object());
    result["status"]["configfile"]["settings"]["probe"] = value("{}");
    let snapshot = snapshot_of(&result);
    let (machine, _) = assemble(&snapshot, &settings_of(&snapshot));
    assert!(f64::from_bits(machine.probes[0].z_offset.bits).is_nan());
    assert!(machine.probes[0].z_offset.is_nan());
}

#[test]
fn a_stepper_without_a_pin_is_noted() {
    let mut result = query_result(configfile_status(&[]), plr_object());
    result["status"]["configfile"]["settings"]["stepper_z1"] = value("{}");
    let snapshot = snapshot_of(&result);
    let (machine, notes) = assemble(&snapshot, &settings_of(&snapshot));
    assert_eq!(notes, vec!["section [stepper_z1] has no step_pin; assuming mcu"]);
    assert_eq!(machine.z_steppers[1].mcu, "mcu");
}

#[test]
fn tilde_sdcard_root_is_noted() {
    let mut result = query_result(configfile_status(&[]), plr_object());
    result["status"]["configfile"]["settings"]["virtual_sdcard"]["path"] =
        value("\"~/printer_data/gcodes\"");
    let snapshot = snapshot_of(&result);
    let (_, notes) = assemble(&snapshot, &settings_of(&snapshot));
    assert!(notes.iter().any(|n| n.contains('~')), "{notes:?}");
}

#[test]
fn parse_rejects_bad_types_and_methods() {
    for (key, text, needle) in [
        ("probe_method", "7", "not a string"),
        ("probe_method", "\"laser\"", "not tap, load_cell"),
        ("probe_speed", "\"fast\"", "not a number"),
        ("self_locking_z", "\"yes\"", "not a boolean"),
        ("accel_chip", "3", "not a string"),
        ("noise_floor_rms", "\"loud\"", "not a number"),
        ("noise_floor_speed", "\"fast\"", "not a number"),
        ("probe_resolution", "false", "not a number"),
    ] {
        let snapshot =
            snapshot_of(&query_result(configfile_status(&[(key, text)]), plr_object()));
        let err = PlrSettings::parse(snapshot.plr_section().unwrap(), &defaults()).unwrap_err();
        assert!(err.contains(needle), "{key}: {err}");
    }
    let mut whole = query_result(configfile_status(&[]), plr_object());
    let section = whole["status"]["configfile"]["settings"]["plr"].as_object_mut().unwrap();
    section.remove("probe_method");
    assert!(PlrSettings::parse(&members(section), &defaults())
        .unwrap_err()
        .contains("probe_method is missing"));
}

#[test]
fn each_refusal_of_the_section_is_worded_exactly() {
    for (text, expected) in [
        (r#"{}"#, "[plr] probe_method is missing"),
        (r#"{"probe_method": 7}"#, "[plr] probe_method is not a string"),
        (
            r#"{"probe_method": "la\"ser"}"#,
            "[plr] probe_method \"la\\\"ser\" is not tap, load_cell, or adxl_drag",
        ),
        (
            r#"{"probe_method": "tap", "purge_enable": 1}"#,
            "[plr] purge_enable is not a boolean: 1",
        ),
        (r#"{"probe_method": "tap", "wal_dir": null}"#, "[plr] wal_dir is not a string: null"),
        (
            r#"{"probe_method": "tap", "resume_candidate_policy": "lastt"}"#,
            "[plr] resume_candidate_policy \"lastt\" is not first, mid, last, or ask",
        ),
        // The first fault in reading order wins.
        (
            r#"{"probe_method": "tap", "probe_speed": "x", "self_locking_z": 1}"#,
            "[plr] self_locking_z is not a boolean: 1",
        ),
    ] {
        let section = value(text);
        let err = PlrSettings::parse(&members(section.as_object().unwrap()), &defaults());
        assert_eq!(err.unwrap_err(), expected);
    }
}

#[test]
fn the_four_policies_are_read_and_nothing_else() {
    assert_eq!(resume_policy_from("first"), Ok(ResumePolicy::First));
    assert_eq!(resume_policy_from("mid"), Ok(ResumePolicy::Mid));
    assert_eq!(resume_policy_from("last"), Ok(ResumePolicy::Last));
    assert_eq!(resume_policy_from("ask"), Ok(ResumePolicy::Ask));
    assert!(resume_policy_from("Ask").is_err());
    let (_, plr) = parse_fixture(&[]);
    assert_eq!(plr.resume_candidate_policy, ResumePolicy::Ask);
    let (_, plr) = parse_fixture(&[("resume_candidate_policy", "\"mid\"")]);
    assert_eq!(plr.plan_config().resume_candidate_policy, ResumePolicy::Mid);
}

#[test]
fn touch_tunables_parse_and_carry_into_plan_config() {
    let (_, plr) = parse_fixture(&[
        ("touch_samples", "5.0"),
        ("touch_sample_range", "0.012"),
        ("touch_retract", "3.0"),
        ("touch_accel", "250.0"),
    ]);
    assert_eq!(plr.touch_samples, num(5.0));
    assert_eq!(plr.touch_sample_range, num(0.012));
    assert_eq!(plr.touch_retract, num(3.0));
    assert_eq!(plr.touch_accel, num(250.0));
    let config = plr.plan_config();
    assert_eq!(config.touch_samples, num(5.0));
    assert_eq!(config.touch_sample_range, num(0.012));
    assert!(!config.legacy_single_probe);
}

#[test]
fn touch_defaults_apply_when_keys_absent() {
    let (_, plr) = parse_fixture(&[]);
    let d = defaults();
    assert_eq!(plr.touch_samples, d.touch_samples);
    assert_eq!(plr.touch_sample_range, d.touch_sample_range);
    assert_eq!(plr.touch_retract, d.touch_retract);
    assert_eq!(plr.touch_accel, d.touch_accel);
}

#[test]
fn touch_sample_range_hard_cap_is_refused_at_plan_config() {
    // The section is read as it is: nothing is clamped on the way to the plan
    // builder, which is what refuses the value.
    let (_, plr) = parse_fixture(&[("touch_sample_range", "0.02")]);
    assert_eq!(plr.touch_sample_range, num(0.02));
    assert_eq!(plr.plan_config().touch_sample_range, num(0.02));
    let (_, ok) = parse_fixture(&[("touch_sample_range", "0.015")]);
    assert_eq!(ok.plan_config().touch_sample_range, num(0.015));
}

#[test]
fn axis_limits_come_from_the_stepper_sections() {
    let (snapshot, plr) = parse_fixture(&[]);
    let (machine, _) = assemble(&snapshot, &plr);
    assert_eq!(machine.axis_limits.z_max, Some(num(250.0)));
    assert_eq!(machine.axis_limits.x, None);
    assert_eq!(machine.axis_limits.y, None);

    let mut result = query_result(configfile_status(&[]), plr_object());
    let settings = &mut result["status"]["configfile"]["settings"];
    settings["stepper_x"] = value(r#"{"position_min": 0.0, "position_max": 235.0}"#);
    settings["stepper_y"] = value(r#"{"position_min": -1.0, "position_max": 235.0}"#);
    let snapshot = snapshot_of(&result);
    let (machine, _) = assemble(&snapshot, &settings_of(&snapshot));
    assert_eq!(machine.axis_limits.x, Some((num(0.0), num(235.0))));
    assert_eq!(machine.axis_limits.y, Some((num(-1.0), num(235.0))));
}

#[test]
fn missing_optional_keys_fall_back_to_plan_defaults() {
    let minimal = value(r#"{"probe_method": "tap"}"#);
    let plr = PlrSettings::parse(&members(minimal.as_object().unwrap()), &defaults()).unwrap();
    assert!(!plr.self_locking_z);
    assert_eq!(plr.probe_resolution, None);
    let d = defaults();
    assert_eq!(plr.probe_speed, d.probe_speed);
    assert_eq!(plr.drag_z_step, d.drag_z_step);
    assert_eq!(plr.exclusion_radius, num(5.0));
    assert_eq!(plr.accel_chip, "");
    assert_eq!(plr.wal_dir, "/var/lib/plrd/wal");
}

#[test]
fn snapshot_extraction_handles_absent_pieces() {
    assert!(KlippySnapshot::from_query_result(json(&value("{}"))).is_err());
    let err = KlippySnapshot::from_query_result(json(&value(r#"{"status": {"plr": {}}}"#)))
        .unwrap_err();
    assert!(err.contains("configfile.settings"), "{err}");
    let result = value(
        r#"{"status": {"configfile": {"settings": {"printer": {}}}, "plr": {}}}"#,
    );
    let snapshot = snapshot_of(&result);
    assert!(snapshot.plr_object.is_none());
    assert!(snapshot.plr_section().is_none());
    assert!(snapshot.config.is_empty());
}

#[test]
fn pin_mcu_strips_modifiers_and_prefixes() {
    assert_eq!(pin_mcu("PB0"), "mcu");
    assert_eq!(pin_mcu("!PB0"), "mcu");
    assert_eq!(pin_mcu("^!PB0"), "mcu");
    assert_eq!(pin_mcu("z_board:PA1"), "z_board");
    assert_eq!(pin_mcu("~*aux: PA1"), "aux");
}

const SHARED_ADXL_NOISE_FLOOR_HEX: &str = "d5bd905a";

#[test]
fn crc32_reproduces_zlib_reference_vectors() {
    assert_eq!(crc32_hex(b"123456789"), "cbf43926");
    assert_eq!(crc32_hex(b""), "00000000");
}

#[test]
fn crc32c_reproduces_the_castagnoli_reference_vector() {
    assert_eq!(crc32c(b"123456789"), 0xe306_9283);
    assert_eq!(
        klipper_config_hash(&ConfigFile::Content(b"123456789".to_vec())),
        "crc32c:e3069283"
    );
}

fn names(list: &[&str]) -> Vec<String> {
    list.iter().map(|s| (*s).to_owned()).collect()
}

fn print(sections: &str, section_names: &[&str], keys: &[&str]) -> String {
    let sections = value(sections);
    fingerprint(&members(sections.as_object().unwrap()), names(section_names), names(keys))
}

#[test]
fn fingerprint_matches_python_shared_fixtures() {
    let f1 = r#"{
        "stepper_z": {
            "step_pin": "PF11", "dir_pin": "!PH1", "position_min": "-2", "position_max": "250"
        },
        "probe": {"z_offset": "0.5", "pin": "^PA1"},
        "plr": {"probe_method": "tap", "accel_chip": "adxl345"}
    }"#;
    assert_eq!(print(f1, &["stepper_z", "probe"], &["probe_method"]), "ca910c12");

    let f3 = r#"{
        "stepper_z": {"step_pin": "PF11", "position_min": "-2"},
        "stepper_z1": {"step_pin": "PG0"},
        "adxl345": {"cs_pin": "PB1", "axes_map": "x,y,z"},
        "plr": {"probe_method": "adxl_drag", "accel_chip": "adxl345"}
    }"#;
    assert_eq!(
        print(f3, &["stepper_z", "stepper_z1", "adxl345"], &["accel_chip", "probe_method"]),
        "cecd3842"
    );

    let f4 = r#"{
        "stepper_z": {"position_min": "-2.0", "microsteps": "16"},
        "plr": {"probe_method": "tap"}
    }"#;
    assert_eq!(print(f4, &["stepper_z"], &["probe_method"]), "404202d1");
}

#[test]
fn fingerprint_normalizes_typed_numbers_like_python_strings() {
    let typed = r#"{"stepper_z": {"position_min": -2.0}, "plr": {"probe_method": "tap"}}"#;
    let text = r#"{"stepper_z": {"position_min": "-2"}, "plr": {"probe_method": "tap"}}"#;
    assert_eq!(
        print(typed, &["stepper_z"], &["probe_method"]),
        print(text, &["stepper_z"], &["probe_method"])
    );
}

#[test]
fn whitespace_between_words_does_not_matter() {
    assert_eq!(collapse_whitespace("  a \t b\n\nc "), "a b c");
    assert_eq!(collapse_whitespace(" \u{3000} "), "");
    assert_eq!(collapse_whitespace(&collapse_whitespace("  a \t b\n\nc ")), "a b c");
    assert_eq!(collapse_whitespace("a \t b"), collapse_whitespace("a b"));
    let loose = r#"{"probe": {"gcode": " G1   X1\n G1 Y1 "}, "plr": {}}"#;
    let tight = r#"{"probe": {"gcode": "G1 X1 G1 Y1"}, "plr": {}}"#;
    assert_eq!(print(loose, &["probe"], &[]), print(tight, &["probe"], &[]));
}

#[test]
fn the_order_of_the_file_does_not_matter() {
    let one = |key: &str, text: &str| Member { key: key.to_owned(), value: json(&value(text)) };
    let a = vec![
        one("stepper_z", r#"{"a": "1", "b": "2"}"#),
        one("plr", r#"{"probe_method": "tap"}"#),
    ];
    let mut z = json(&value(r#"{"a": "1", "b": "2"}"#));
    if let Kind::Object(options) = &mut z.kind {
        options.reverse();
    }
    let b = vec![
        one("plr", r#"{"probe_method": "tap"}"#),
        Member { key: "stepper_z".to_owned(), value: z },
    ];
    assert_eq!(
        fingerprint(&a, names(&["stepper_z"]), names(&["probe_method"])),
        fingerprint(&b, names(&["stepper_z"]), names(&["probe_method"]))
    );
}

#[test]
fn parse_tolerates_absent_and_wrongtyped_stamps() {
    let (_, plr) = parse_fixture(&[]);
    assert!(plr.cal_fingerprint_noise_floor.is_none());
    assert!(plr.cal_fingerprint_probe_resolution.is_none());
    assert!(plr.cal_plugin_version.is_none());
    assert!(plr.cal_klipper_version.is_none());
    let (_, plr) = parse_fixture(&[
        ("cal_fingerprint_noise_floor", "12345"),
        ("cal_plugin_version", "3.0"),
        ("cal_klipper_version", "false"),
    ]);
    assert!(plr.cal_fingerprint_noise_floor.is_none());
    assert!(plr.cal_plugin_version.is_none());
    assert!(plr.cal_klipper_version.is_none());
    let (_, plr) = parse_fixture(&[("cal_plugin_version", "\"0.3.0\"")]);
    assert_eq!(plr.cal_plugin_version.as_deref(), Some("0.3.0"));
}

const DRAG: [(&str, &str); 3] = [
    ("probe_method", "\"adxl_drag\""),
    ("accel_chip", "\"adxl345\""),
    ("noise_floor_rms", "118.0"),
];

fn stamped(stamp: &str) -> Vec<(String, String)> {
    let mut all: Vec<(String, String)> =
        DRAG.iter().map(|(k, v)| ((*k).to_owned(), (*v).to_owned())).collect();
    all.push(("cal_fingerprint_noise_floor".to_owned(), format!("\"{stamp}\"")));
    all
}

fn borrowed(list: &[(String, String)]) -> Vec<(&str, &str)> {
    list.iter().map(|(k, v)| (k.as_str(), v.as_str())).collect()
}

#[test]
fn noise_floor_fingerprint_mismatch_is_treated_as_missing() {
    let (snapshot, plr) = parse_fixture(&borrowed(&stamped("deadbeef")));
    let (machine, notes) = assemble(&snapshot, &plr);
    assert_eq!(machine.noise_floor, None);
    assert!(notes.iter().any(|n| n.contains("fingerprint mismatch")), "{notes:?}");
    let current = compute_fingerprint(&snapshot.config, &plr, CalGroup::NoiseFloor);
    assert_eq!(
        notes[0],
        format!(
            "noise-floor calibration fingerprint mismatch (staged deadbeef, recomputed \
             {current}) — treating the noise floor as uncalibrated; re-run PLR_NOISE_TEST"
        )
    );
}

#[test]
fn noise_floor_fingerprint_match_is_accepted() {
    let (snapshot, base) = parse_fixture(&DRAG);
    let fp = compute_fingerprint(&snapshot.config, &base, CalGroup::NoiseFloor);
    let (snapshot, plr) = parse_fixture(&borrowed(&stamped(&fp)));
    assert_eq!(validate_group(&snapshot.config, &plr, CalGroup::NoiseFloor).0, CalTier::Valid);
    let (machine, notes) = assemble(&snapshot, &plr);
    assert_eq!(machine.noise_floor, Some(num(118.0)));
    assert!(!notes.iter().any(|n| n.contains("mismatch")), "{notes:?}");
}

#[test]
fn legacy_noise_floor_without_stamp_is_accepted_with_note() {
    let (snapshot, plr) = parse_fixture(&DRAG);
    assert_eq!(validate_group(&snapshot.config, &plr, CalGroup::NoiseFloor).0, CalTier::Legacy);
    let (machine, notes) = assemble(&snapshot, &plr);
    assert_eq!(machine.noise_floor, Some(num(118.0)));
    assert!(notes.iter().any(|n| n.contains("legacy")), "{notes:?}");
}

#[test]
fn a_stale_probe_resolution_is_noted() {
    let (snapshot, plr) =
        parse_fixture(&[("cal_fingerprint_probe_resolution", "\"deadbeef\"")]);
    let (_, notes) = assemble(&snapshot, &plr);
    let current = compute_fingerprint(&snapshot.config, &plr, CalGroup::ProbeResolution);
    assert_eq!(
        notes,
        vec![format!(
            "probe_resolution calibration fingerprint mismatch (staged deadbeef, recomputed \
             {current}) — ignore the stored probe_resolution; re-run PLR_PROBE_TEST"
        )]
    );
}

#[test]
fn a_changed_z_stepper_pin_invalidates_a_stamped_floor() {
    let (snapshot, base) = parse_fixture(&DRAG);
    let fp = compute_fingerprint(&snapshot.config, &base, CalGroup::NoiseFloor);
    let mut result = query_result(configfile_status(&borrowed(&stamped(&fp))), plr_object());
    let snapshot = snapshot_of(&result);
    let plr = settings_of(&snapshot);
    assert_eq!(validate_group(&snapshot.config, &plr, CalGroup::NoiseFloor).0, CalTier::Valid);
    result["status"]["configfile"]["config"]["stepper_z"]["step_pin"] = value("\"PF99\"");
    let snapshot = snapshot_of(&result);
    assert_eq!(validate_group(&snapshot.config, &plr, CalGroup::NoiseFloor).0, CalTier::Invalid);
    let (machine, _) = assemble(&snapshot, &plr);
    assert_eq!(machine.noise_floor, None);
}

#[test]
fn irrelevant_section_change_does_not_move_the_fingerprint() {
    let (snapshot, plr) = parse_fixture(&DRAG);
    let before = compute_fingerprint(&snapshot.config, &plr, CalGroup::NoiseFloor);
    let mut config = snapshot.config;
    config.push(Member {
        key: "fan".to_owned(),
        value: json(&value(r#"{"pin": "PA8"}"#)),
    });
    config.push(Member {
        key: "display".to_owned(),
        value: json(&value(r#"{"lcd_type": "st7920"}"#)),
    });
    let after = compute_fingerprint(&config, &plr, CalGroup::NoiseFloor);
    assert_eq!(before, after);
}

#[test]
fn settings_default_keys_do_not_move_the_config_fingerprint() {
    let file_only = value(
        r#"{
            "stepper_z": {"step_pin": "PB0", "position_min": "-2"},
            "adxl345": {"cs_pin": "PB1"},
            "plr": {"probe_method": "adxl_drag", "accel_chip": "adxl345"}
        }"#,
    );
    let mut with_defaults = file_only.clone();
    with_defaults["adxl345"] =
        value(r#"{"cs_pin": "PB1", "axes_map": "x,y,z", "rate": 3200}"#);
    with_defaults["stepper_z"]["microsteps"] = value("16");
    let plr = PlrSettings::parse(
        &members(file_only["plr"].as_object().unwrap()),
        &defaults(),
    )
    .unwrap();
    let config_fp = compute_fingerprint(
        &members(file_only.as_object().unwrap()),
        &plr,
        CalGroup::NoiseFloor,
    );
    assert_eq!(config_fp, SHARED_ADXL_NOISE_FLOOR_HEX);
    let settings_fp = compute_fingerprint(
        &members(with_defaults.as_object().unwrap()),
        &plr,
        CalGroup::NoiseFloor,
    );
    assert_ne!(settings_fp, config_fp);
}

#[test]
fn fingerprint_uses_config_not_settings() {
    let (base_snapshot, base_plr) = parse_fixture(&DRAG);
    let config_fp = compute_fingerprint(&base_snapshot.config, &base_plr, CalGroup::NoiseFloor);
    let mut result =
        query_result(configfile_status(&borrowed(&stamped(&config_fp))), plr_object());
    let settings = &mut result["status"]["configfile"]["settings"];
    settings["stepper_z"]["microsteps"] = value("16");
    settings["adxl345"] = value(r#"{"axes_map": "x,y,z"}"#);
    let snapshot = snapshot_of(&result);
    let (machine, notes) = assemble(&snapshot, &settings_of(&snapshot));
    assert_eq!(machine.noise_floor, Some(num(118.0)));
    assert!(!notes.iter().any(|n| n.contains("mismatch")), "{notes:?}");
}

#[test]
fn confirm_point_and_accel_keys_default_off_and_parse_when_present() {
    let (_, plr) = parse_fixture(&[]);
    assert!(!plr.confirm_z_before_resume);
    assert!(!plr.debug_confirm_each_step);
    assert!(!plr.unsafe_allow_purge_z_below_bed);
    assert_eq!(plr.confirm_timeout_s, None);
    assert_eq!(plr.gcode_barrier_timeout_s, None);
    for accel in [
        plr.recovery_accel,
        plr.accel_home,
        plr.accel_travel,
        plr.accel_probe,
        plr.accel_entry,
    ] {
        assert_eq!(accel, None);
    }
    let config = plr.plan_config();
    assert!(!config.confirm_z_before_resume);
    assert!(!config.debug_confirm_each_step);
    assert_eq!(config.recovery_accel, None);

    let (_, plr) = parse_fixture(&[
        ("confirm_z_before_resume", "true"),
        ("debug_confirm_each_step", "true"),
        ("recovery_accel", "1500.0"),
        ("accel_home", "1000.0"),
        ("accel_travel", "3000.0"),
        ("accel_probe", "400.0"),
        ("accel_entry", "600.0"),
        ("confirm_timeout_s", "120.0"),
        ("gcode_barrier_timeout_s", "45.0"),
    ]);
    let config = plr.plan_config();
    assert!(config.confirm_z_before_resume);
    assert!(config.debug_confirm_each_step);
    assert_eq!(config.recovery_accel, Some(num(1500.0)));
    assert_eq!(config.accel_home, Some(num(1000.0)));
    assert_eq!(config.accel_travel, Some(num(3000.0)));
    assert_eq!(config.accel_probe, Some(num(400.0)));
    assert_eq!(config.accel_entry, Some(num(600.0)));
    assert_eq!(config.confirm_timeout_s, Some(num(120.0)));
    assert_eq!(config.gcode_barrier_timeout_s, Some(num(45.0)));

    // Out-of-band values are carried as they are, never clamped into range.
    let (_, plr) = parse_fixture(&[("recovery_accel", "2.0")]);
    assert_eq!(plr.plan_config().recovery_accel, Some(num(2.0)));
}

#[test]
fn unsafe_overrides_are_read_case_insensitively_and_fail_closed() {
    for key in [
        UNSAFE_PURGE_Z_BELOW_BED.to_owned(),
        UNSAFE_PURGE_Z_BELOW_BED.to_ascii_lowercase(),
    ] {
        let (_, plr) = parse_fixture(&[(key.as_str(), "true")]);
        assert!(plr.unsafe_allow_purge_z_below_bed, "{key}");
        assert!(plr.plan_config().unsafe_allow_purge_z_below_bed, "{key}");
    }
    for bad in ["false", "\"true\"", "1", "null"] {
        let (_, plr) = parse_fixture(&[(UNSAFE_PURGE_Z_BELOW_BED, bad)]);
        assert!(!plr.unsafe_allow_purge_z_below_bed, "{bad} must not enable the override");
    }
}

#[test]
fn only_the_answer_to_its_own_request_ends_a_query() {
    let result = query_result(configfile_status(&[]), plr_object());
    assert!(on_klippy_reply(KlippyReply::Other).is_none());
    assert!(on_klippy_reply(KlippyReply::Response { id: 2, result: json(&result) }).is_none());
    assert!(on_klippy_reply(KlippyReply::Error { id: 2, message: "x".to_owned() }).is_none());
    let snapshot = on_klippy_reply(KlippyReply::Response { id: 1, result: json(&result) });
    assert!(snapshot.unwrap().unwrap().plr_object.is_some());
    let refused = on_klippy_reply(KlippyReply::Error { id: 1, message: "no".to_owned() });
    assert_eq!(refused.unwrap().unwrap_err(), "klippy rejected objects/query: \"no\"");
}
