//! The `[plr]` section of the printer's configuration, read from Klipper's
//! `configfile` status object.
//!
//! `settings` is the typed, default-resolved view that the machine is assembled
//! from; `config` is the file as the operator wrote it, the only input of the
//! calibration fingerprint.

use vstd::prelude::*;

use crate::json::{
    bool_of, get, member, num_of, text_of, Json, Member,
};
use crate::number::Num;
use crate::order::{no_later, precedes, sort_distinct, strictly_ascending};
use crate::text::{
    begins, lowercased, quoted, quoted_text, same, starts_with, strip_prefix, texts,
    to_ascii_lowercase, to_ascii_uppercase, trim, trimmed, uppercased,
};

verus! {

/// What both configuration hashes hold when the machine is read from the
/// running configuration: there is no stale snapshot to detect.
pub const LIVE_CONFIG_HASH: &'static str = "live:[plr]";

/// The name of the primary MCU.
pub const PRIMARY_MCU: &'static str = "mcu";

/// The prefix of every noise-floor option.
pub const NOISE_FLOOR_PREFIX: &'static str = "noise_floor_";

/// The drag speed the noise floor was measured at.
pub const NOISE_FLOOR_SPEED: &'static str = "noise_floor_speed";

/// The temperature the noise floor was measured at.
pub const NOISE_FLOOR_TEMP: &'static str = "noise_floor_temp";

/// The name of the sensor that temperature is read from.
pub const NOISE_FLOOR_TEMP_SENSOR: &'static str = "noise_floor_temp_sensor";

/// The documented spelling of the override for a purge below the bed.
pub const UNSAFE_PURGE_Z_BELOW_BED: &'static str = "UNSAFE_allow_purge_z_below_bed";

/// The bit pattern of 5.0, the default exclusion radius in mm.
pub const EXCLUSION_RADIUS_BITS: u64 = 0x4014_0000_0000_0000;

/// Which stop of an ambiguous candidate set becomes the resume point.
#[derive(Debug, Clone, Copy, PartialEq, Eq, Structural)]
pub enum ResumePolicy {
    /// The first.
    First,
    /// The middle one.
    Mid,
    /// The last.
    Last,
    /// The operator's choice.
    Ask,
}

/// The tunables of the plan builder.
#[derive(Debug, PartialEq)]
pub struct PlanConfig {
    /// Probe speed, mm/s.
    pub probe_speed: Num,
    /// Envelope margin, mm.
    pub margin: Num,
    /// Sag allowance, mm.
    pub sag_allowance: Num,
    /// Entry-move feedrate, mm/min.
    pub entry_feed: Num,
    /// Drag pass XY speed, mm/s.
    pub drag_speed: Num,
    /// Drag staircase Z decrement, mm.
    pub drag_z_step: Num,
    /// Drag contact threshold, as a multiple of the noise floor.
    pub drag_sensitivity: Num,
    /// Number of agreeing touch samples.
    pub touch_samples: Num,
    /// Acceptable touch sample spread, mm.
    pub touch_sample_range: Num,
    /// Retract between touches, mm.
    pub touch_retract: Num,
    /// Acceleration clamp around the touch, mm/s^2.
    pub touch_accel: Num,
    /// Hard ceiling for contact operations, in degrees.
    pub max_probe_nozzle_temp: Num,
    /// Nozzle park X while reheating.
    pub reheat_park_x: Option<Num>,
    /// Nozzle park Y while reheating.
    pub reheat_park_y: Option<Num>,
    /// Lift for parking, mm.
    pub reheat_park_delta_z: Num,
    /// Lift before homing, mm.
    pub pre_home_z_lift: Num,
    /// Whether the recovery file purges.
    pub purge_enable: bool,
    /// Purge length, mm.
    pub purge_amount: Num,
    /// The macro that owns the purge.
    pub purge_macro: Option<String>,
    /// Purge X, mm.
    pub purge_x: Option<Num>,
    /// Purge Y, mm.
    pub purge_y: Option<Num>,
    /// Purge Z, mm.
    pub purge_z: Option<Num>,
    /// Purge feedrate, mm/min.
    pub purge_speed: Num,
    /// Retract after the purge, mm.
    pub purge_retract: Num,
    /// The clean-nozzle macro.
    pub clean_nozzle_macro: String,
    /// Nozzle temperature of the drag, in degrees.
    pub drag_nozzle_temp: Num,
    /// Acceleration for the whole recovery, mm/s^2.
    pub recovery_accel: Option<Num>,
    /// Acceleration for homing, mm/s^2.
    pub accel_home: Option<Num>,
    /// Acceleration for the approach, mm/s^2.
    pub accel_travel: Option<Num>,
    /// Acceleration for the contact step, mm/s^2.
    pub accel_probe: Option<Num>,
    /// Acceleration near printed geometry, mm/s^2.
    pub accel_entry: Option<Num>,
    /// Whether to confirm the Z before resuming.
    pub confirm_z_before_resume: bool,
    /// Whether to pause before every step.
    pub debug_confirm_each_step: bool,
    /// Whether a purge below the bed is permitted.
    pub unsafe_allow_purge_z_below_bed: bool,
    /// Deadline of a question, seconds.
    pub confirm_timeout_s: Option<Num>,
    /// Budget for the g-code mutex, seconds.
    pub gcode_barrier_timeout_s: Option<Num>,
    /// Which candidate becomes the resume point.
    pub resume_candidate_policy: ResumePolicy,
    /// Standoff of the preview, mm.
    pub preview_standoff: Option<Num>,
    /// Nozzle temperature of the preview, in degrees.
    pub preview_nozzle_temp: Option<Num>,
    /// Whether the printer has only the stock single probe.
    pub legacy_single_probe: bool,
}

impl Clone for PlanConfig {
    fn clone(&self) -> (r: PlanConfig)
        ensures
            r == *self,
    {
        PlanConfig {
            probe_speed: self.probe_speed,
            margin: self.margin,
            sag_allowance: self.sag_allowance,
            entry_feed: self.entry_feed,
            drag_speed: self.drag_speed,
            drag_z_step: self.drag_z_step,
            drag_sensitivity: self.drag_sensitivity,
            touch_samples: self.touch_samples,
            touch_sample_range: self.touch_sample_range,
            touch_retract: self.touch_retract,
            touch_accel: self.touch_accel,
            max_probe_nozzle_temp: self.max_probe_nozzle_temp,
            reheat_park_x: self.reheat_park_x,
            reheat_park_y: self.reheat_park_y,
            reheat_park_delta_z: self.reheat_park_delta_z,
            pre_home_z_lift: self.pre_home_z_lift,
            purge_enable: self.purge_enable,
            purge_amount: self.purge_amount,
            purge_macro: match &self.purge_macro {
                Some(s) => Some(s.clone()),
                None => None,
            },
            purge_x: self.purge_x,
            purge_y: self.purge_y,
            purge_z: self.purge_z,
            purge_speed: self.purge_speed,
            purge_retract: self.purge_retract,
            clean_nozzle_macro: self.clean_nozzle_macro.clone(),
            drag_nozzle_temp: self.drag_nozzle_temp,
            recovery_accel: self.recovery_accel,
            accel_home: self.accel_home,
            accel_travel: self.accel_travel,
            accel_probe: self.accel_probe,
            accel_entry: self.accel_entry,
            confirm_z_before_resume: self.confirm_z_before_resume,
            debug_confirm_each_step: self.debug_confirm_each_step,
            unsafe_allow_purge_z_below_bed: self.unsafe_allow_purge_z_below_bed,
            confirm_timeout_s: self.confirm_timeout_s,
            gcode_barrier_timeout_s: self.gcode_barrier_timeout_s,
            resume_candidate_policy: self.resume_candidate_policy,
            preview_standoff: self.preview_standoff,
            preview_nozzle_temp: self.preview_nozzle_temp,
            legacy_single_probe: self.legacy_single_probe,
        }
    }
}

/// One noise-floor measurement.
#[derive(Debug, Clone, PartialEq)]
pub struct Measurement {
    /// Its option.
    pub key: String,
    /// Its value.
    pub value: Num,
}

/// The typed `[plr]` section.
#[derive(Debug, Clone, PartialEq)]
pub struct PlrSettings {
    /// `tap`, `load_cell`, or `adxl_drag`.
    pub probe_method: String,
    /// Accelerometer chip; may be empty.
    pub accel_chip: String,
    /// The plugin's view of the WAL directory.
    pub wal_dir: String,
    /// The control socket the plugin connects to.
    pub control_socket: String,
    /// Probe speed, mm/s.
    pub probe_speed: Num,
    /// Envelope margin, mm.
    pub envelope_margin: Num,
    /// Sag allowance, mm.
    pub sag_allowance: Num,
    /// Drag pass XY speed, mm/s.
    pub drag_speed: Num,
    /// Drag staircase Z decrement, mm.
    pub drag_z_step: Num,
    /// Drag contact threshold, as a multiple of the noise floor.
    pub drag_sensitivity: Num,
    /// Number of agreeing touch samples.
    pub touch_samples: Num,
    /// Acceptable touch sample spread, mm.
    pub touch_sample_range: Num,
    /// Retract between touches, mm.
    pub touch_retract: Num,
    /// Acceleration clamp around the touch, mm/s^2.
    pub touch_accel: Num,
    /// Exclusion radius around the crash point, mm.
    pub exclusion_radius: Num,
    /// Entry-move feedrate, mm/min.
    pub entry_feedrate: Num,
    /// Hard ceiling for contact operations, in degrees.
    pub max_probe_nozzle_temp: Num,
    /// Nozzle park X while reheating.
    pub reheat_park_x: Option<Num>,
    /// Nozzle park Y while reheating.
    pub reheat_park_y: Option<Num>,
    /// Lift for parking, mm.
    pub reheat_park_delta_z: Num,
    /// Lift before homing, mm.
    pub pre_home_z_lift: Num,
    /// Whether the recovery file purges.
    pub purge_enable: bool,
    /// Purge length, mm.
    pub purge_amount: Num,
    /// The macro that owns the purge.
    pub purge_macro: Option<String>,
    /// Purge X, mm.
    pub purge_x: Option<Num>,
    /// Purge Y, mm.
    pub purge_y: Option<Num>,
    /// Purge Z, mm.
    pub purge_z: Option<Num>,
    /// Purge feedrate, mm/min.
    pub purge_speed: Num,
    /// Retract after the purge, mm.
    pub purge_retract: Num,
    /// The clean-nozzle macro.
    pub clean_nozzle_macro: String,
    /// Nozzle temperature of the drag, in degrees.
    pub drag_nozzle_temp: Num,
    /// Acceleration for the whole recovery, mm/s^2.
    pub recovery_accel: Option<Num>,
    /// Acceleration for homing, mm/s^2.
    pub accel_home: Option<Num>,
    /// Acceleration for the approach, mm/s^2.
    pub accel_travel: Option<Num>,
    /// Acceleration for the contact step, mm/s^2.
    pub accel_probe: Option<Num>,
    /// Acceleration near printed geometry, mm/s^2.
    pub accel_entry: Option<Num>,
    /// Whether to confirm the Z before resuming.
    pub confirm_z_before_resume: bool,
    /// Whether to pause before every step.
    pub debug_confirm_each_step: bool,
    /// Whether a purge below the bed is permitted.
    pub unsafe_allow_purge_z_below_bed: bool,
    /// Deadline of a question, seconds.
    pub confirm_timeout_s: Option<Num>,
    /// Budget for the g-code mutex, seconds.
    pub gcode_barrier_timeout_s: Option<Num>,
    /// Which candidate becomes the resume point.
    pub resume_candidate_policy: ResumePolicy,
    /// Standoff of the preview, mm.
    pub preview_standoff: Option<Num>,
    /// Nozzle temperature of the preview, in degrees.
    pub preview_nozzle_temp: Option<Num>,
    /// The operator's attestation that Z is self-locking.
    pub self_locking_z: bool,
    /// Calibrated probe resolution, mm.
    pub probe_resolution: Option<Num>,
    /// Every noise-floor measurement, in the order of the section. Metadata
    /// about the measurements is not among them.
    pub noise_floor: Vec<Measurement>,
    /// The drag speed the noise floor was measured at, mm/s.
    pub noise_floor_speed: Option<Num>,
    /// Fingerprint stamp of the noise-floor calibration.
    pub cal_fingerprint_noise_floor: Option<String>,
    /// Fingerprint stamp of the probe-resolution calibration.
    pub cal_fingerprint_probe_resolution: Option<String>,
    /// Plugin version of the calibration.
    pub cal_plugin_version: Option<String>,
    /// Klipper version of the calibration.
    pub cal_klipper_version: Option<String>,
}

/// The number under `key`, or `default` when there is nothing under it.
pub open spec fn num_or(plr: Seq<Member>, key: Seq<char>, default: Num) -> Num {
    match num_of(member(plr, key)) {
        Some(n) => n,
        None => default,
    }
}

/// The truth value under `key`, or `default` when there is nothing under it.
pub open spec fn bool_or(plr: Seq<Member>, key: Seq<char>, default: bool) -> bool {
    match bool_of(member(plr, key)) {
        Some(b) => b,
        None => default,
    }
}

/// The string under `key`, or `default` when there is nothing under it.
pub open spec fn text_or(plr: Seq<Member>, key: Seq<char>, default: Seq<char>) -> Seq<char> {
    match text_of(member(plr, key)) {
        Some(s) => s,
        None => default,
    }
}

/// The complaint about an option of the wrong type.
pub open spec fn mistyped(key: Seq<char>, wanted: Seq<char>, v: Json) -> Seq<char> {
    "[plr] "@ + key + " is not a "@ + wanted + ": "@ + v.spelling@
}

/// What is wrong with an option that must be a number if it is there.
pub open spec fn number_fault(plr: Seq<Member>, key: Seq<char>) -> Option<Seq<char>> {
    match member(plr, key) {
        Some(v) => if num_of(Some(v)) is None {
            Some(mistyped(key, "number"@, v))
        } else {
            None
        },
        None => None,
    }
}

/// What is wrong with an option that must be a boolean if it is there.
pub open spec fn boolean_fault(plr: Seq<Member>, key: Seq<char>) -> Option<Seq<char>> {
    match member(plr, key) {
        Some(v) => if bool_of(Some(v)) is None {
            Some(mistyped(key, "boolean"@, v))
        } else {
            None
        },
        None => None,
    }
}

/// What is wrong with an option that must be a string if it is there.
pub open spec fn string_fault(plr: Seq<Member>, key: Seq<char>) -> Option<Seq<char>> {
    match member(plr, key) {
        Some(v) => if text_of(Some(v)) is None {
            Some(mistyped(key, "string"@, v))
        } else {
            None
        },
        None => None,
    }
}

/// The first of two faults.
pub open spec fn first_fault(a: Option<Seq<char>>, b: Option<Seq<char>>) -> Option<Seq<char>> {
    if a is Some {
        a
    } else {
        b
    }
}

/// The known probe methods.
pub open spec fn known_method(method: Seq<char>) -> bool {
    method == "tap"@ || method == "load_cell"@ || method == "adxl_drag"@
}

/// What is wrong with the probe method.
pub open spec fn method_fault(plr: Seq<Member>) -> Option<Seq<char>> {
    match member(plr, "probe_method"@) {
        None => Some("[plr] probe_method is missing"@),
        Some(v) => match text_of(Some(v)) {
            None => Some("[plr] probe_method is not a string"@),
            Some(method) => if known_method(method) {
                None
            } else {
                Some(
                    "[plr] probe_method "@ + quoted_text(method)
                        + " is not tap, load_cell, or adxl_drag"@,
                )
            },
        },
    }
}

/// `key` is an option that describes a noise-floor calibration rather than
/// being one.
pub open spec fn is_metadata(key: Seq<char>) -> bool {
    key == NOISE_FLOOR_SPEED@ || key == NOISE_FLOOR_TEMP@ || key == NOISE_FLOOR_TEMP_SENSOR@
}

/// `key` is a noise-floor measurement: it has the prefix and is not metadata.
pub open spec fn is_measurement(key: Seq<char>) -> bool {
    begins(key, NOISE_FLOOR_PREFIX@) && !is_metadata(key)
}

/// What is wrong with the measurements from place `i` on: the first that is not
/// a number.
pub open spec fn sweep_fault(plr: Seq<Member>, i: int) -> Option<Seq<char>>
    decreases plr.len() - i,
{
    if i < 0 || i >= plr.len() {
        None
    } else if is_measurement(plr[i].key@) && num_of(Some(plr[i].value)) is None {
        Some(mistyped(plr[i].key@, "number"@, plr[i].value))
    } else {
        sweep_fault(plr, i + 1)
    }
}

/// The measurements among the first `n` options, in order.
pub open spec fn swept(plr: Seq<Member>, n: nat) -> Seq<(Seq<char>, Num)>
    decreases n,
{
    if n == 0 {
        Seq::empty()
    } else {
        let before = swept(plr, (n - 1) as nat);
        match (is_measurement(plr[n - 1].key@), num_of(Some(plr[n - 1].value))) {
            (true, Some(value)) => before.push((plr[n - 1].key@, value)),
            _ => before,
        }
    }
}

/// Measurements with their option as text.
pub open spec fn measured(list: Seq<Measurement>) -> Seq<(Seq<char>, Num)> {
    list.map_values(|m: Measurement| (m.key@, m.value))
}

/// The policy that a spelling names.
pub open spec fn policy_named(s: Seq<char>) -> Option<ResumePolicy> {
    if s == "first"@ {
        Some(ResumePolicy::First)
    } else if s == "mid"@ {
        Some(ResumePolicy::Mid)
    } else if s == "last"@ {
        Some(ResumePolicy::Last)
    } else if s == "ask"@ {
        Some(ResumePolicy::Ask)
    } else {
        None
    }
}

/// What is wrong with the resume policy.
pub open spec fn policy_fault(plr: Seq<Member>) -> Option<Seq<char>> {
    let s = text_or(plr, "resume_candidate_policy"@, "ask"@);
    if policy_named(s) is None {
        Some(
            "[plr] resume_candidate_policy "@ + quoted_text(s)
                + " is not first, mid, last, or ask"@,
        )
    } else {
        None
    }
}

/// An override is in force only when one of its spellings, the documented one
/// or the lower-case one, holds `true`.
pub open spec fn overridden(plr: Seq<Member>, key: Seq<char>) -> bool {
    bool_of(
        match member(plr, key) {
            Some(v) => Some(v),
            None => member(plr, lowercased(key)),
        },
    ) == Some(true)
}

/// The macro that owns the purge: the string under its option, trimmed, unless
/// nothing is left of it.
pub open spec fn purge_macro_of(plr: Seq<Member>) -> Option<Seq<char>> {
    match text_of(member(plr, "purge_macro"@)) {
        Some(s) => if trimmed(s).len() > 0 {
            Some(trimmed(s))
        } else {
            None
        },
        None => None,
    }
}

/// The text of an optional string.
pub open spec fn opt_text(s: Option<String>) -> Option<Seq<char>> {
    match s {
        Some(t) => Some(t@),
        None => None,
    }
}

/// What is wrong with the section: the first fault, in the order the options are
/// read.
pub open spec fn section_fault(plr: Seq<Member>) -> Option<Seq<char>> {
    let f = method_fault(plr);
    let f = first_fault(f, sweep_fault(plr, 0));
    let f = first_fault(f, number_fault(plr, NOISE_FLOOR_SPEED@));
    let f = first_fault(f, number_fault(plr, "probe_resolution"@));
    let f = first_fault(f, boolean_fault(plr, "self_locking_z"@));
    let f = first_fault(f, string_fault(plr, "accel_chip"@));
    let f = first_fault(f, string_fault(plr, "wal_dir"@));
    let f = first_fault(f, string_fault(plr, "control_socket"@));
    let f = first_fault(f, number_fault(plr, "probe_speed"@));
    let f = first_fault(f, number_fault(plr, "envelope_margin"@));
    let f = first_fault(f, number_fault(plr, "sag_allowance"@));
    let f = first_fault(f, number_fault(plr, "drag_speed"@));
    let f = first_fault(f, number_fault(plr, "drag_z_step"@));
    let f = first_fault(f, number_fault(plr, "drag_sensitivity"@));
    let f = first_fault(f, number_fault(plr, "touch_samples"@));
    let f = first_fault(f, number_fault(plr, "touch_sample_range"@));
    let f = first_fault(f, number_fault(plr, "touch_retract"@));
    let f = first_fault(f, number_fault(plr, "touch_accel"@));
    let f = first_fault(f, number_fault(plr, "exclusion_radius"@));
    let f = first_fault(f, number_fault(plr, "entry_feedrate"@));
    let f = first_fault(f, number_fault(plr, "max_probe_nozzle_temp"@));
    let f = first_fault(f, number_fault(plr, "reheat_park_delta_z"@));
    let f = first_fault(f, number_fault(plr, "pre_home_z_lift"@));
    let f = first_fault(f, boolean_fault(plr, "purge_enable"@));
    let f = first_fault(f, number_fault(plr, "purge_amount"@));
    let f = first_fault(f, number_fault(plr, "purge_speed"@));
    let f = first_fault(f, number_fault(plr, "purge_retract"@));
    let f = first_fault(f, string_fault(plr, "clean_nozzle_macro"@));
    let f = first_fault(f, number_fault(plr, "drag_nozzle_temp"@));
    let f = first_fault(f, boolean_fault(plr, "confirm_z_before_resume"@));
    let f = first_fault(f, boolean_fault(plr, "debug_confirm_each_step"@));
    let f = first_fault(f, string_fault(plr, "resume_candidate_policy"@));
    let f = first_fault(f, policy_fault(plr));
    f
}

/// `s` is what the section says: each option where it is there, else its
/// default.
pub open spec fn says_section(s: PlrSettings, plr: Seq<Member>, defaults: PlanConfig) -> bool {
    &&& s.probe_method@ == text_or(plr, "probe_method"@, ""@)
    &&& s.accel_chip@ == text_or(plr, "accel_chip"@, ""@)
    &&& s.wal_dir@ == text_or(plr, "wal_dir"@, "/var/lib/plrd/wal"@)
    &&& s.control_socket@ == text_or(plr, "control_socket"@, "/var/lib/plrd/plrd.sock"@)
    &&& s.probe_speed == num_or(plr, "probe_speed"@, defaults.probe_speed)
    &&& s.envelope_margin == num_or(plr, "envelope_margin"@, defaults.margin)
    &&& s.sag_allowance == num_or(plr, "sag_allowance"@, defaults.sag_allowance)
    &&& s.drag_speed == num_or(plr, "drag_speed"@, defaults.drag_speed)
    &&& s.drag_z_step == num_or(plr, "drag_z_step"@, defaults.drag_z_step)
    &&& s.drag_sensitivity == num_or(plr, "drag_sensitivity"@, defaults.drag_sensitivity)
    &&& s.touch_samples == num_or(plr, "touch_samples"@, defaults.touch_samples)
    &&& s.touch_sample_range == num_or(plr, "touch_sample_range"@, defaults.touch_sample_range)
    &&& s.touch_retract == num_or(plr, "touch_retract"@, defaults.touch_retract)
    &&& s.touch_accel == num_or(plr, "touch_accel"@, defaults.touch_accel)
    &&& s.exclusion_radius == num_or(plr, "exclusion_radius"@, Num { bits: EXCLUSION_RADIUS_BITS })
    &&& s.entry_feedrate == num_or(plr, "entry_feedrate"@, defaults.entry_feed)
    &&& s.max_probe_nozzle_temp == num_or(plr, "max_probe_nozzle_temp"@, defaults.max_probe_nozzle_temp)
    &&& s.reheat_park_x == num_of(member(plr, "reheat_park_x"@))
    &&& s.reheat_park_y == num_of(member(plr, "reheat_park_y"@))
    &&& s.reheat_park_delta_z == num_or(plr, "reheat_park_delta_z"@, defaults.reheat_park_delta_z)
    &&& s.pre_home_z_lift == num_or(plr, "pre_home_z_lift"@, defaults.pre_home_z_lift)
    &&& s.purge_enable == bool_or(plr, "purge_enable"@, defaults.purge_enable)
    &&& s.purge_amount == num_or(plr, "purge_amount"@, defaults.purge_amount)
    &&& opt_text(s.purge_macro) == purge_macro_of(plr)
    &&& s.purge_x == num_of(member(plr, "purge_x"@))
    &&& s.purge_y == num_of(member(plr, "purge_y"@))
    &&& s.purge_z == num_of(member(plr, "purge_z"@))
    &&& s.purge_speed == num_or(plr, "purge_speed"@, defaults.purge_speed)
    &&& s.purge_retract == num_or(plr, "purge_retract"@, defaults.purge_retract)
    &&& s.clean_nozzle_macro@ == text_or(plr, "clean_nozzle_macro"@, defaults.clean_nozzle_macro@)
    &&& s.drag_nozzle_temp == num_or(plr, "drag_nozzle_temp"@, defaults.drag_nozzle_temp)
    &&& s.recovery_accel == num_of(member(plr, "recovery_accel"@))
    &&& s.accel_home == num_of(member(plr, "accel_home"@))
    &&& s.accel_travel == num_of(member(plr, "accel_travel"@))
    &&& s.accel_probe == num_of(member(plr, "accel_probe"@))
    &&& s.accel_entry == num_of(member(plr, "accel_entry"@))
    &&& s.confirm_z_before_resume == bool_or(plr, "confirm_z_before_resume"@, false)
    &&& s.debug_confirm_each_step == bool_or(plr, "debug_confirm_each_step"@, false)
    &&& s.unsafe_allow_purge_z_below_bed == overridden(plr, UNSAFE_PURGE_Z_BELOW_BED@)
    &&& s.confirm_timeout_s == num_of(member(plr, "confirm_timeout_s"@))
    &&& s.gcode_barrier_timeout_s == num_of(member(plr, "gcode_barrier_timeout_s"@))
    &&& policy_named(text_or(plr, "resume_candidate_policy"@, "ask"@)) == Some(
        s.resume_candidate_policy,
    )
    &&& s.preview_standoff == num_of(member(plr, "preview_standoff"@))
    &&& s.preview_nozzle_temp == num_of(member(plr, "preview_nozzle_temp"@))
    &&& s.self_locking_z == bool_or(plr, "self_locking_z"@, false)
    &&& s.probe_resolution == num_of(member(plr, "probe_resolution"@))
    &&& measured(s.noise_floor@) == swept(plr, plr.len())
    &&& s.noise_floor_speed == num_of(member(plr, NOISE_FLOOR_SPEED@))
    &&& opt_text(s.cal_fingerprint_noise_floor) == text_of(member(plr, "cal_fingerprint_noise_floor"@))
    &&& opt_text(s.cal_fingerprint_probe_resolution) == text_of(member(plr, "cal_fingerprint_probe_resolution"@))
    &&& opt_text(s.cal_plugin_version) == text_of(member(plr, "cal_plugin_version"@))
    &&& opt_text(s.cal_klipper_version) == text_of(member(plr, "cal_klipper_version"@))
}

/// The number under `key`; nothing when there is none, or something else.
pub fn opt_number(section: &Vec<Member>, key: &str) -> (r: Option<Num>)
    ensures
        r == num_of(member(section@, key@)),
{
    match get(section, key) {
        Some(v) => v.as_num(),
        None => None,
    }
}

/// The string under `key`; nothing when there is none, or something else.
pub fn opt_stamp(section: &Vec<Member>, key: &str) -> (r: Option<String>)
    ensures
        opt_text(r) == text_of(member(section@, key@)),
{
    match get(section, key) {
        Some(v) => match v.as_str() {
            Some(s) => Some(s.to_owned()),
            None => None,
        },
        None => None,
    }
}

/// Whether an override is in force. A malformed one is not.
pub fn unsafe_flag(section: &Vec<Member>, key: &str) -> (r: bool)
    ensures
        r == overridden(section@, key@),
{
    let lower = to_ascii_lowercase(key);
    let found = match get(section, key) {
        Some(v) => Some(v),
        None => get(section, lower.as_str()),
    };
    match found {
        Some(v) => match v.as_bool() {
            Some(b) => b,
            None => false,
        },
        None => false,
    }
}

fn read_purge_macro(section: &Vec<Member>) -> (r: Option<String>)
    ensures
        opt_text(r) == purge_macro_of(section@),
{
    match get(section, "purge_macro") {
        Some(v) => match v.as_str() {
            Some(s) => {
                let t = trim(s);
                if t.as_str().is_empty() {
                    None
                } else {
                    Some(t)
                }
            },
            None => None,
        },
        None => None,
    }
}

/// The complaint about an option of the wrong type.
fn mistype(key: &str, wanted: &str, v: &Json) -> (r: String)
    ensures
        r@ == mistyped(key@, wanted@, *v),
{
    let mut out = "[plr] ".to_owned();
    out.append(key);
    out.append(" is not a ");
    out.append(wanted);
    out.append(": ");
    out.append(v.spelling.as_str());
    out
}

/// Reads the options of a section one after another and keeps the first fault.
struct Reader<'a> {
    section: &'a Vec<Member>,
    fault: Option<String>,
}

impl<'a> Reader<'a> {
    fn complain(&mut self, text: String)
        ensures
            final(self).section == old(self).section,
            opt_text(final(self).fault) == first_fault(opt_text(old(self).fault), Some(text@)),
    {
        if self.fault.is_none() {
            self.fault = Some(text);
        }
    }

    fn number(&mut self, key: &str, default: Num) -> (r: Num)
        ensures
            final(self).section == old(self).section,
            r == num_or(old(self).section@, key@, default),
            opt_text(final(self).fault) == first_fault(
                opt_text(old(self).fault),
                number_fault(old(self).section@, key@),
            ),
    {
        match get(self.section, key) {
            Some(v) => match v.as_num() {
                Some(n) => n,
                None => {
                    let text = mistype(key, "number", v);
                    self.complain(text);
                    default
                },
            },
            None => default,
        }
    }

    fn boolean(&mut self, key: &str, default: bool) -> (r: bool)
        ensures
            final(self).section == old(self).section,
            r == bool_or(old(self).section@, key@, default),
            opt_text(final(self).fault) == first_fault(
                opt_text(old(self).fault),
                boolean_fault(old(self).section@, key@),
            ),
    {
        match get(self.section, key) {
            Some(v) => match v.as_bool() {
                Some(b) => b,
                None => {
                    let text = mistype(key, "boolean", v);
                    self.complain(text);
                    default
                },
            },
            None => default,
        }
    }

    fn text(&mut self, key: &str, default: &str) -> (r: String)
        ensures
            final(self).section == old(self).section,
            r@ == text_or(old(self).section@, key@, default@),
            opt_text(final(self).fault) == first_fault(
                opt_text(old(self).fault),
                string_fault(old(self).section@, key@),
            ),
    {
        match get(self.section, key) {
            Some(v) => match v.as_str() {
                Some(s) => s.to_owned(),
                None => {
                    let text = mistype(key, "string", v);
                    self.complain(text);
                    default.to_owned()
                },
            },
            None => default.to_owned(),
        }
    }

    fn policy(&mut self, s: &str) -> (r: ResumePolicy)
        requires
            s@ == text_or(old(self).section@, "resume_candidate_policy"@, "ask"@),
        ensures
            final(self).section == old(self).section,
            policy_named(s@) matches Some(p) ==> r == p,
            opt_text(final(self).fault) == first_fault(
                opt_text(old(self).fault),
                policy_fault(old(self).section@),
            ),
    {
        match resume_policy_from(s) {
            Ok(p) => p,
            Err(text) => {
                self.complain(text);
                ResumePolicy::Ask
            },
        }
    }

    /// Sweeps the measurements.
    fn sweep(&mut self) -> (r: Vec<Measurement>)
        ensures
            final(self).section == old(self).section,
            measured(r@) == swept(old(self).section@, old(self).section@.len()),
            opt_text(final(self).fault) == first_fault(
                opt_text(old(self).fault),
                sweep_fault(old(self).section@, 0),
            ),
    {
        let mut out: Vec<Measurement> = Vec::new();
        let mut i: usize = 0;
        let section = self.section;
        let ghost plr = section@;
        assert(measured(out@) =~= swept(plr, 0));
        while i < section.len()
            invariant
                0 <= i <= section@.len(),
                section == old(self).section,
                self.section == old(self).section,
                plr == section@,
                measured(out@) == swept(plr, i as nat),
                first_fault(opt_text(self.fault), sweep_fault(plr, i as int)) == first_fault(
                    opt_text(old(self).fault),
                    sweep_fault(plr, 0),
                ),
            decreases section@.len() - i,
        {
            let key = section[i].key.as_str();
            if starts_with(key, NOISE_FLOOR_PREFIX) && !is_noise_floor_metadata(key) {
                match section[i].value.as_num() {
                    Some(value) => {
                        let ghost before = out@;
                        out.push(Measurement { key: section[i].key.clone(), value });
                        assert(measured(out@) =~= measured(before).push((key@, value)));
                    },
                    None => {
                        let text = mistype(key, "number", &section[i].value);
                        self.complain(text);
                    },
                }
            }
            i = i + 1;
        }
        out
    }
}

/// Whether `key` is metadata of a noise-floor calibration.
pub fn is_noise_floor_metadata(key: &str) -> (r: bool)
    ensures
        r == is_metadata(key@),
{
    same(key, NOISE_FLOOR_SPEED) || same(key, NOISE_FLOOR_TEMP) || same(
        key,
        NOISE_FLOOR_TEMP_SENSOR,
    )
}

/// The policy that a spelling names; any other spelling is refused.
pub fn resume_policy_from(s: &str) -> (r: Result<ResumePolicy, String>)
    ensures
        match policy_named(s@) {
            Some(p) => r == Ok::<ResumePolicy, String>(p),
            None => r matches Err(e) && e@ == "[plr] resume_candidate_policy "@ + quoted_text(s@)
                + " is not first, mid, last, or ask"@,
        },
{
    if same(s, "first") {
        Ok(ResumePolicy::First)
    } else if same(s, "mid") {
        Ok(ResumePolicy::Mid)
    } else if same(s, "last") {
        Ok(ResumePolicy::Last)
    } else if same(s, "ask") {
        Ok(ResumePolicy::Ask)
    } else {
        let mut out = "[plr] resume_candidate_policy ".to_owned();
        let q = quoted(s);
        out.append(q.as_str());
        out.append(" is not first, mid, last, or ask");
        Err(out)
    }
}

/// The probe method of a section, or what is wrong with it.
fn read_method(plr: &Vec<Member>) -> (r: Result<String, String>)
    ensures
        match method_fault(plr@) {
            Some(fault) => r matches Err(e) && e@ == fault,
            None => r matches Ok(method) && method@ == text_or(plr@, "probe_method"@, ""@),
        },
{
    match get(plr, "probe_method") {
        None => Err("[plr] probe_method is missing".to_owned()),
        Some(v) => match v.as_str() {
            None => Err("[plr] probe_method is not a string".to_owned()),
            Some(method) => if same(method, "tap") || same(method, "load_cell") || same(
                method,
                "adxl_drag",
            ) {
                Ok(method.to_owned())
            } else {
                let mut out = "[plr] probe_method ".to_owned();
                let q = quoted(method);
                out.append(q.as_str());
                out.append(" is not tap, load_cell, or adxl_drag");
                Err(out)
            },
        },
    }
}

impl PlrSettings {
    /// Reads the `[plr]` section. The probe method is required; every other
    /// option has a default. An option of the wrong type is an error, except
    /// for the optional numbers, overrides and stamps, which then count as
    /// absent.
    pub fn parse(plr: &Vec<Member>, defaults: &PlanConfig) -> (r: Result<Self, String>)
        ensures
            match section_fault(plr@) {
                Some(fault) => r matches Err(e) && e@ == fault,
                None => r matches Ok(s) && says_section(s, plr@, *defaults),
            },
    {
        let probe_method = match read_method(plr) {
            Ok(method) => method,
            Err(fault) => {
                return Err(fault);
            },
        };
        let mut reader = Reader { section: plr, fault: None };
        let noise_floor = reader.sweep();
        let noise_floor_speed = opt_number(plr, NOISE_FLOOR_SPEED);
        reader.number(NOISE_FLOOR_SPEED, Num { bits: 0 });
        let probe_resolution = opt_number(plr, "probe_resolution");
        reader.number("probe_resolution", Num { bits: 0 });
        let self_locking_z = reader.boolean("self_locking_z", false);
        let accel_chip = reader.text("accel_chip", "");
        let wal_dir = reader.text("wal_dir", "/var/lib/plrd/wal");
        let control_socket = reader.text("control_socket", "/var/lib/plrd/plrd.sock");
        let probe_speed = reader.number("probe_speed", defaults.probe_speed);
        let envelope_margin = reader.number("envelope_margin", defaults.margin);
        let sag_allowance = reader.number("sag_allowance", defaults.sag_allowance);
        let drag_speed = reader.number("drag_speed", defaults.drag_speed);
        let drag_z_step = reader.number("drag_z_step", defaults.drag_z_step);
        let drag_sensitivity = reader.number("drag_sensitivity", defaults.drag_sensitivity);
        let touch_samples = reader.number("touch_samples", defaults.touch_samples);
        let touch_sample_range = reader.number("touch_sample_range", defaults.touch_sample_range);
        let touch_retract = reader.number("touch_retract", defaults.touch_retract);
        let touch_accel = reader.number("touch_accel", defaults.touch_accel);
        let exclusion_radius = reader.number("exclusion_radius", Num { bits: EXCLUSION_RADIUS_BITS });
        let entry_feedrate = reader.number("entry_feedrate", defaults.entry_feed);
        let max_probe_nozzle_temp = reader.number("max_probe_nozzle_temp", defaults.max_probe_nozzle_temp);
        let reheat_park_x = opt_number(plr, "reheat_park_x");
        let reheat_park_y = opt_number(plr, "reheat_park_y");
        let reheat_park_delta_z = reader.number("reheat_park_delta_z", defaults.reheat_park_delta_z);
        let pre_home_z_lift = reader.number("pre_home_z_lift", defaults.pre_home_z_lift);
        let purge_enable = reader.boolean("purge_enable", defaults.purge_enable);
        let purge_amount = reader.number("purge_amount", defaults.purge_amount);
        let purge_macro = read_purge_macro(plr);
        let purge_x = opt_number(plr, "purge_x");
        let purge_y = opt_number(plr, "purge_y");
        let purge_z = opt_number(plr, "purge_z");
        let purge_speed = reader.number("purge_speed", defaults.purge_speed);
        let purge_retract = reader.number("purge_retract", defaults.purge_retract);
        let clean_nozzle_macro = reader.text("clean_nozzle_macro", defaults.clean_nozzle_macro.as_str());
        let drag_nozzle_temp = reader.number("drag_nozzle_temp", defaults.drag_nozzle_temp);
        let recovery_accel = opt_number(plr, "recovery_accel");
        let accel_home = opt_number(plr, "accel_home");
        let accel_travel = opt_number(plr, "accel_travel");
        let accel_probe = opt_number(plr, "accel_probe");
        let accel_entry = opt_number(plr, "accel_entry");
        let confirm_z_before_resume = reader.boolean("confirm_z_before_resume", false);
        let debug_confirm_each_step = reader.boolean("debug_confirm_each_step", false);
        let unsafe_allow_purge_z_below_bed = unsafe_flag(plr, UNSAFE_PURGE_Z_BELOW_BED);
        let confirm_timeout_s = opt_number(plr, "confirm_timeout_s");
        let gcode_barrier_timeout_s = opt_number(plr, "gcode_barrier_timeout_s");
        let policy = reader.text("resume_candidate_policy", "ask");
        let resume_candidate_policy = reader.policy(policy.as_str());
        let preview_standoff = opt_number(plr, "preview_standoff");
        let preview_nozzle_temp = opt_number(plr, "preview_nozzle_temp");
        if let Some(fault) = reader.fault {
            return Err(fault);
        }
        Ok(
            PlrSettings {
                probe_method,
                accel_chip,
                wal_dir,
                control_socket,
                probe_speed,
                envelope_margin,
                sag_allowance,
                drag_speed,
                drag_z_step,
                drag_sensitivity,
                touch_samples,
                touch_sample_range,
                touch_retract,
                touch_accel,
                exclusion_radius,
                entry_feedrate,
                max_probe_nozzle_temp,
                reheat_park_x,
                reheat_park_y,
                reheat_park_delta_z,
                pre_home_z_lift,
                purge_enable,
                purge_amount,
                purge_macro,
                purge_x,
                purge_y,
                purge_z,
                purge_speed,
                purge_retract,
                clean_nozzle_macro,
                drag_nozzle_temp,
                recovery_accel,
                accel_home,
                accel_travel,
                accel_probe,
                accel_entry,
                confirm_z_before_resume,
                debug_confirm_each_step,
                unsafe_allow_purge_z_below_bed,
                confirm_timeout_s,
                gcode_barrier_timeout_s,
                resume_candidate_policy,
                preview_standoff,
                preview_nozzle_temp,
                self_locking_z,
                probe_resolution,
                noise_floor,
                noise_floor_speed,
                cal_fingerprint_noise_floor: opt_stamp(plr, "cal_fingerprint_noise_floor"),
                cal_fingerprint_probe_resolution: opt_stamp(
                    plr,
                    "cal_fingerprint_probe_resolution",
                ),
                cal_plugin_version: opt_stamp(plr, "cal_plugin_version"),
                cal_klipper_version: opt_stamp(plr, "cal_klipper_version"),
            },
        )
    }
}

/// The value measured under `key`: that of the first measurement so named.
pub open spec fn measured_as(list: Seq<(Seq<char>, Num)>, key: Seq<char>) -> Option<Num>
    decreases list.len(),
{
    if list.len() == 0 {
        None
    } else if list[0].0 == key {
        Some(list[0].1)
    } else {
        measured_as(list.skip(1), key)
    }
}

/// The place, among the first `n` measurements, of the one whose option stands
/// first in the order of strings.
pub open spec fn least_place(list: Seq<(Seq<char>, Num)>, n: nat) -> int
    decreases n,
{
    if n <= 1 {
        0
    } else {
        let k = least_place(list, (n - 1) as nat);
        if no_later(list[k].0, list[n - 1].0) {
            k
        } else {
            n - 1
        }
    }
}

/// The measurement that stands for the noise floor: `noise_floor_rms` when it
/// is there, else the first in the order of the options.
pub open spec fn representative(list: Seq<(Seq<char>, Num)>) -> Option<Num> {
    match measured_as(list, "noise_floor_rms"@) {
        Some(value) => Some(value),
        None => if list.len() == 0 {
            None
        } else {
            Some(list[least_place(list, list.len())].1)
        },
    }
}

/// The place found is that of the first option in the order of strings.
pub proof fn the_least_place_is_least(list: Seq<(Seq<char>, Num)>, n: nat)
    requires
        0 < n <= list.len(),
    ensures
        0 <= least_place(list, n) < n,
        forall|j: int|
            0 <= j < n ==> no_later(list[least_place(list, n)].0, (#[trigger] list[j]).0),
    decreases n,
{
    let k = least_place(list, n);
    crate::order::no_later_is_total(list[0].0, list[0].0);
    if n > 1 {
        the_least_place_is_least(list, (n - 1) as nat);
        let b = least_place(list, (n - 1) as nat);
        crate::order::no_later_is_total(list[b].0, list[n - 1].0);
        crate::order::no_later_is_total(list[n - 1].0, list[n - 1].0);
        assert forall|j: int| 0 <= j < n implies no_later(list[k].0, (#[trigger] list[j]).0) by {
            if j < n - 1 && k == n - 1 {
                crate::order::no_later_is_transitive(list[k].0, list[b].0, list[j].0);
            }
        }
    }
}

/// The tunables that settings carry over to the plan builder, one for one. The
/// plugin's consensus touch is used: the stock single probe is not.
pub open spec fn planned(s: PlrSettings) -> PlanConfig {
    PlanConfig {
        probe_speed: s.probe_speed,
        margin: s.envelope_margin,
        sag_allowance: s.sag_allowance,
        entry_feed: s.entry_feedrate,
        drag_speed: s.drag_speed,
        drag_z_step: s.drag_z_step,
        drag_sensitivity: s.drag_sensitivity,
        touch_samples: s.touch_samples,
        touch_sample_range: s.touch_sample_range,
        touch_retract: s.touch_retract,
        touch_accel: s.touch_accel,
        max_probe_nozzle_temp: s.max_probe_nozzle_temp,
        reheat_park_x: s.reheat_park_x,
        reheat_park_y: s.reheat_park_y,
        reheat_park_delta_z: s.reheat_park_delta_z,
        pre_home_z_lift: s.pre_home_z_lift,
        purge_enable: s.purge_enable,
        purge_amount: s.purge_amount,
        purge_macro: s.purge_macro,
        purge_x: s.purge_x,
        purge_y: s.purge_y,
        purge_z: s.purge_z,
        purge_speed: s.purge_speed,
        purge_retract: s.purge_retract,
        clean_nozzle_macro: s.clean_nozzle_macro,
        drag_nozzle_temp: s.drag_nozzle_temp,
        recovery_accel: s.recovery_accel,
        accel_home: s.accel_home,
        accel_travel: s.accel_travel,
        accel_probe: s.accel_probe,
        accel_entry: s.accel_entry,
        confirm_z_before_resume: s.confirm_z_before_resume,
        debug_confirm_each_step: s.debug_confirm_each_step,
        unsafe_allow_purge_z_below_bed: s.unsafe_allow_purge_z_below_bed,
        confirm_timeout_s: s.confirm_timeout_s,
        gcode_barrier_timeout_s: s.gcode_barrier_timeout_s,
        resume_candidate_policy: s.resume_candidate_policy,
        preview_standoff: s.preview_standoff,
        preview_nozzle_temp: s.preview_nozzle_temp,
        legacy_single_probe: false,
    }
}

impl PlrSettings {
    /// The calibrated noise floor, if there is one.
    pub fn representative_noise_floor(&self) -> (r: Option<Num>)
        ensures
            r == representative(measured(self.noise_floor@)),
    {
        let ghost list = measured(self.noise_floor@);
        let mut i: usize = 0;
        assert(list.skip(0) =~= list);
        while i < self.noise_floor.len()
            invariant
                0 <= i <= self.noise_floor@.len(),
                list == measured(self.noise_floor@),
                measured_as(list.skip(i as int), "noise_floor_rms"@) == measured_as(
                    list,
                    "noise_floor_rms"@,
                ),
            decreases self.noise_floor@.len() - i,
        {
            if same(self.noise_floor[i].key.as_str(), "noise_floor_rms") {
                return Some(self.noise_floor[i].value);
            }
            assert(list.skip(i as int).skip(1) =~= list.skip(i + 1));
            i = i + 1;
        }
        if self.noise_floor.len() == 0 {
            return None;
        }
        let mut k: usize = 0;
        let mut n: usize = 1;
        while n < self.noise_floor.len()
            invariant
                1 <= n <= self.noise_floor@.len(),
                0 <= k < n,
                list == measured(self.noise_floor@),
                k == least_place(list, n as nat),
            decreases self.noise_floor@.len() - n,
        {
            if !precedes(self.noise_floor[k].key.as_str(), self.noise_floor[n].key.as_str()) {
                k = n;
            }
            n = n + 1;
        }
        Some(self.noise_floor[k].value)
    }

    /// The plan builder's tunables. Nothing is clamped here: the plan builder
    /// validates and refuses.
    pub fn plan_config(&self) -> (r: PlanConfig)
        ensures
            r == planned(*self),
    {
        PlanConfig {
            probe_speed: self.probe_speed,
            margin: self.envelope_margin,
            sag_allowance: self.sag_allowance,
            entry_feed: self.entry_feedrate,
            drag_speed: self.drag_speed,
            drag_z_step: self.drag_z_step,
            drag_sensitivity: self.drag_sensitivity,
            touch_samples: self.touch_samples,
            touch_sample_range: self.touch_sample_range,
            touch_retract: self.touch_retract,
            touch_accel: self.touch_accel,
            max_probe_nozzle_temp: self.max_probe_nozzle_temp,
            reheat_park_x: self.reheat_park_x,
            reheat_park_y: self.reheat_park_y,
            reheat_park_delta_z: self.reheat_park_delta_z,
            pre_home_z_lift: self.pre_home_z_lift,
            purge_enable: self.purge_enable,
            purge_amount: self.purge_amount,
            purge_macro: match &self.purge_macro {
                Some(name) => Some(name.clone()),
                None => None,
            },
            purge_x: self.purge_x,
            purge_y: self.purge_y,
            purge_z: self.purge_z,
            purge_speed: self.purge_speed,
            purge_retract: self.purge_retract,
            clean_nozzle_macro: self.clean_nozzle_macro.clone(),
            drag_nozzle_temp: self.drag_nozzle_temp,
            recovery_accel: self.recovery_accel,
            accel_home: self.accel_home,
            accel_travel: self.accel_travel,
            accel_probe: self.accel_probe,
            accel_entry: self.accel_entry,
            confirm_z_before_resume: self.confirm_z_before_resume,
            debug_confirm_each_step: self.debug_confirm_each_step,
            unsafe_allow_purge_z_below_bed: self.unsafe_allow_purge_z_below_bed,
            confirm_timeout_s: self.confirm_timeout_s,
            gcode_barrier_timeout_s: self.gcode_barrier_timeout_s,
            resume_candidate_policy: self.resume_candidate_policy,
            preview_standoff: self.preview_standoff,
            preview_nozzle_temp: self.preview_nozzle_temp,
            legacy_single_probe: false,
        }
    }
}

/// The macro names among the first `n` section names, in upper case.
pub open spec fn macro_names(sections: Seq<Member>, n: nat) -> Seq<Seq<char>>
    decreases n,
{
    if n == 0 {
        Seq::empty()
    } else {
        let before = macro_names(sections, (n - 1) as nat);
        let name = sections[n - 1].key@;
        if begins(name, "gcode_macro "@) {
            before.push(uppercased(trimmed(name.skip("gcode_macro "@.len() as int))))
        } else {
            before
        }
    }
}

/// The names of the macros of a configuration, in upper case, sorted, each
/// once.
pub fn gcode_macro_names(sections: &Vec<Member>) -> (r: Vec<String>)
    ensures
        strictly_ascending(texts(r@)),
        texts(r@).to_set() == macro_names(sections@, sections@.len()).to_set(),
{
    let mut out: Vec<String> = Vec::new();
    let mut i: usize = 0;
    assert(texts(out@) =~= macro_names(sections@, 0));
    while i < sections.len()
        invariant
            0 <= i <= sections@.len(),
            texts(out@) == macro_names(sections@, i as nat),
        decreases sections@.len() - i,
    {
        let ghost before = out@;
        match strip_prefix(sections[i].key.as_str(), "gcode_macro ") {
            Some(rest) => {
                let name = trim(rest.as_str());
                out.push(to_ascii_uppercase(name.as_str()));
                assert(texts(out@) =~= texts(before).push(uppercased(trimmed(rest@))));
            },
            None => {},
        }
        i = i + 1;
    }
    sort_distinct(out)
}

/// What describes a calibration is never a measurement: no metadata option is
/// among the measurements, whatever it holds.
pub proof fn metadata_is_never_a_measurement(plr: Seq<Member>, n: nat)
    requires
        n <= plr.len(),
    ensures
        forall|i: int|
            0 <= i < swept(plr, n).len() ==> !is_metadata((#[trigger] swept(plr, n)[i]).0)
                && begins(swept(plr, n)[i].0, NOISE_FLOOR_PREFIX@),
    decreases n,
{
    if n > 0 {
        metadata_is_never_a_measurement(plr, (n - 1) as nat);
        let before = swept(plr, (n - 1) as nat);
        assert forall|i: int| 0 <= i < swept(plr, n).len() implies !is_metadata(
            (#[trigger] swept(plr, n)[i]).0,
        ) && begins(swept(plr, n)[i].0, NOISE_FLOOR_PREFIX@) by {
            if i < before.len() {
                assert(swept(plr, n)[i] == before[i]);
            }
        }
    }
}

/// A section that measured nothing has no noise floor: metadata alone never
/// makes a machine look calibrated.
pub proof fn metadata_alone_is_no_calibration(plr: Seq<Member>)
    requires
        forall|i: int|
            0 <= i < plr.len() && begins((#[trigger] plr[i]).key@, NOISE_FLOOR_PREFIX@)
                ==> is_metadata(plr[i].key@),
    ensures
        representative(swept(plr, plr.len())) is None,
{
    lemma_nothing_swept(plr, plr.len());
}

proof fn lemma_nothing_swept(plr: Seq<Member>, n: nat)
    requires
        n <= plr.len(),
        forall|i: int|
            0 <= i < plr.len() && begins((#[trigger] plr[i]).key@, NOISE_FLOOR_PREFIX@)
                ==> is_metadata(plr[i].key@),
    ensures
        swept(plr, n).len() == 0,
    decreases n,
{
    if n > 0 {
        lemma_nothing_swept(plr, (n - 1) as nat);
        assert(!is_measurement(plr[n - 1].key@));
    }
}

/// Every option that is metadata has the prefix of the measurements: without it
/// there would be nothing to exempt it from.
pub proof fn every_metadata_option_has_the_prefix(key: Seq<char>)
    requires
        is_metadata(key),
    ensures
        begins(key, NOISE_FLOOR_PREFIX@),
{
    reveal_strlit("noise_floor_");
    reveal_strlit("noise_floor_speed");
    reveal_strlit("noise_floor_temp");
    reveal_strlit("noise_floor_temp_sensor");
    assert(key.subrange(0, 12) =~= NOISE_FLOOR_PREFIX@);
}

} // verus!
