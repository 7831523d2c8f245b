//! The machine snapshot that a plan is validated against: assembled from the
//! running Klipper configuration, or from the daemon's own `[machine]` section.
//!
//! Assembly is total: what is missing takes the shape that fails validation (no
//! probe, no travel limit), so that one report shows every problem.

use vstd::prelude::*;

use crate::calibration::{
    gated, gated_noise_floor, is_z_stepper, names_z_stepper, noise_notes,
    note_stale_probe_resolution, probe_notes,
};
use crate::checksum::{checksum, crc32c, CASTAGNOLI};
use crate::json::{
    bool_of, child, child_of, get, member, members_of, num_of, split, split_on, take, text_of,
    Json, Kind, Member,
};
use crate::number::{Num, NAN_BITS};
use crate::plrcfg::{opt_number, opt_text, PlrSettings, LIVE_CONFIG_HASH, PRIMARY_MCU};
use crate::text::{
    begins, chars, from_chars, hex, hex8, quoted, quoted_text, same, starts_with, texts, trim,
    trimmed,
};

verus! {

/// One Z motor.
#[derive(Debug, Clone, PartialEq)]
pub struct ZStepper {
    /// Its section.
    pub name: String,
    /// The MCU it steps from.
    pub mcu: String,
}

/// What touches the print.
#[derive(Debug, Clone, PartialEq)]
pub enum ProbeKind {
    /// A tap probe.
    Tap,
    /// A load-cell probe.
    LoadCell,
    /// The nozzle, dragged under an accelerometer.
    AdxlDrag {
        /// The accelerometer's section.
        chip: String,
    },
}

/// One probe of the machine.
#[derive(Debug, Clone, PartialEq)]
pub struct ProbeConfig {
    /// What it is.
    pub kind: ProbeKind,
    /// Its Z offset, mm; not a number when unknown.
    pub z_offset: Num,
    /// Whether its activation is known not to move anything.
    pub activate_gcode_no_move: bool,
    /// Whether its deactivation is known not to move anything.
    pub deactivate_gcode_no_move: bool,
}

/// The travel limits that are known.
#[derive(Debug, Clone, PartialEq)]
pub struct AxisLimits {
    /// The X range, mm.
    pub x: Option<(Num, Num)>,
    /// The Y range, mm.
    pub y: Option<(Num, Num)>,
    /// The top of Z, mm.
    pub z_max: Option<Num>,
}

/// The machine as a plan sees it.
#[derive(Debug, Clone, PartialEq)]
pub struct MachineConfig {
    /// Whether `[force_move]` is enabled.
    pub force_move_enabled: bool,
    /// Whether the operator attests that Z is self-locking.
    pub z_self_locking_attested: bool,
    /// The Z motors.
    pub z_steppers: Vec<ZStepper>,
    /// The name of the primary MCU.
    pub primary_mcu: String,
    /// Whether the print file carries type annotations.
    pub type_annotations_present: bool,
    /// The probes.
    pub probes: Vec<ProbeConfig>,
    /// The bottom of Z, mm.
    pub z_position_min: Option<Num>,
    /// The configuration's present hash.
    pub config_hash: String,
    /// The hash under which the prerequisites were blessed.
    pub validated_config_hash: Option<String>,
    /// The root of the virtual SD card.
    pub virtual_sdcard_root: Option<String>,
    /// The calibrated noise floor.
    pub noise_floor: Option<Num>,
    /// The drag speed it was measured at, mm/s.
    pub noise_floor_speed: Option<Num>,
    /// The travel limits.
    pub axis_limits: AxisLimits,
    /// The machine's acceleration limit, mm/s^2.
    pub max_accel: Option<Num>,
}

/// A probe's kind with its chip as text.
pub enum ProbeKindView {
    /// A tap probe.
    Tap,
    /// A load-cell probe.
    LoadCell,
    /// The dragged nozzle.
    AdxlDrag {
        /// The accelerometer's section.
        chip: Seq<char>,
    },
}

/// A probe with its texts as text.
pub struct ProbeView {
    /// What it is.
    pub kind: ProbeKindView,
    /// Its Z offset.
    pub z_offset: Num,
    /// Whether its activation is known not to move anything.
    pub activate_gcode_no_move: bool,
    /// Whether its deactivation is known not to move anything.
    pub deactivate_gcode_no_move: bool,
}

impl View for ProbeKind {
    type V = ProbeKindView;

    open spec fn view(&self) -> ProbeKindView {
        match *self {
            ProbeKind::Tap => ProbeKindView::Tap,
            ProbeKind::LoadCell => ProbeKindView::LoadCell,
            ProbeKind::AdxlDrag { chip } => ProbeKindView::AdxlDrag { chip: chip@ },
        }
    }
}

impl View for ProbeConfig {
    type V = ProbeView;

    open spec fn view(&self) -> ProbeView {
        ProbeView {
            kind: self.kind@,
            z_offset: self.z_offset,
            activate_gcode_no_move: self.activate_gcode_no_move,
            deactivate_gcode_no_move: self.deactivate_gcode_no_move,
        }
    }
}

/// Probes with their texts as text.
pub open spec fn probe_views(probes: Seq<ProbeConfig>) -> Seq<ProbeView> {
    probes.map_values(|p: ProbeConfig| p@)
}

/// Z motors as pairs of name and MCU.
pub open spec fn stepper_views(steppers: Seq<ZStepper>) -> Seq<(Seq<char>, Seq<char>)> {
    steppers.map_values(|s: ZStepper| (s.name@, s.mcu@))
}

/// The options of a section, when it is there.
pub open spec fn section_of(settings: Seq<Member>, name: Seq<char>) -> Option<Seq<Member>> {
    match member(settings, name) {
        Some(v) => if v.kind is Object {
            Some(members_of(v))
        } else {
            None
        },
        None => None,
    }
}

/// An option of a section, when both are there.
pub open spec fn option_of(settings: Seq<Member>, name: Seq<char>, key: Seq<char>) -> Option<Json> {
    child_of(member(settings, name), key)
}

/// The options of a section.
pub fn section<'a>(settings: &'a Vec<Member>, name: &str) -> (r: Option<&'a Vec<Member>>)
    ensures
        match r {
            Some(s) => section_of(settings@, name@) == Some(s@),
            None => section_of(settings@, name@) is None,
        },
{
    match get(settings, name) {
        Some(v) => v.as_object(),
        None => None,
    }
}

fn section_number(settings: &Vec<Member>, name: &str, key: &str) -> (r: Option<Num>)
    ensures
        r == num_of(option_of(settings@, name@, key@)),
{
    match get(settings, name) {
        Some(v) => match v.get(key) {
            Some(n) => n.as_num(),
            None => None,
        },
        None => None,
    }
}

/// `c` modifies a pin rather than naming it.
pub open spec fn is_modifier(c: char) -> bool {
    c == '!' || c == '^' || c == '~' || c == '*'
}

/// A pin without its leading modifiers.
pub open spec fn bare_pin(pin: Seq<char>) -> Seq<char>
    decreases pin.len(),
{
    if pin.len() > 0 && is_modifier(pin[0]) {
        bare_pin(pin.skip(1))
    } else {
        pin
    }
}

/// The MCU that a pin lives on: what stands before the first colon, else the
/// primary one.
pub open spec fn mcu_of_pin(pin: Seq<char>) -> Seq<char> {
    let parts = split_on(bare_pin(pin), ':');
    if parts.len() > 1 {
        trimmed(parts[0])
    } else {
        PRIMARY_MCU@
    }
}

/// The MCU that a pin lives on.
pub fn pin_mcu(pin: &str) -> (r: String)
    ensures
        r@ == mcu_of_pin(pin@),
{
    let h = chars(pin);
    let mut i: usize = 0;
    assert(h@.skip(0) =~= h@);
    while i < h.len() && (h[i] == '!' || h[i] == '^' || h[i] == '~' || h[i] == '*')
        invariant
            0 <= i <= h@.len(),
            bare_pin(h@.skip(i as int)) == bare_pin(h@),
        decreases h@.len() - i,
    {
        assert(h@.skip(i as int).skip(1) =~= h@.skip(i + 1));
        i = i + 1;
    }
    let bare = from_chars(&h, i, h.len());
    assert(bare@ =~= h@.skip(i as int));
    let parts = split(bare.as_str(), ':');
    assert(parts@.len() == texts(parts@).len());
    if parts.len() > 1 {
        assert(texts(parts@)[0] == parts@[0]@);
        trim(parts[0].as_str())
    } else {
        PRIMARY_MCU.to_owned()
    }
}

/// The pin that a motor steps from.
pub open spec fn step_pin(value: Json) -> Option<Seq<char>> {
    text_of(child(value, "step_pin"@))
}

/// The Z motors among the first `n` sections.
pub open spec fn z_motors(settings: Seq<Member>, n: nat) -> Seq<(Seq<char>, Seq<char>)>
    decreases n,
{
    if n == 0 {
        Seq::empty()
    } else {
        let before = z_motors(settings, (n - 1) as nat);
        let at = settings[n - 1];
        if names_z_stepper(at.key@) {
            before.push(
                (
                    at.key@,
                    match step_pin(at.value) {
                        Some(pin) => mcu_of_pin(pin),
                        None => PRIMARY_MCU@,
                    },
                ),
            )
        } else {
            before
        }
    }
}

/// A note for each Z motor without a pin among the first `n` sections.
pub open spec fn motor_notes(settings: Seq<Member>, n: nat) -> Seq<Seq<char>>
    decreases n,
{
    if n == 0 {
        Seq::empty()
    } else {
        let before = motor_notes(settings, (n - 1) as nat);
        let at = settings[n - 1];
        if names_z_stepper(at.key@) && step_pin(at.value) is None {
            before.push(
                "section ["@ + at.key@ + "] has no step_pin; assuming "@ + PRIMARY_MCU@,
            )
        } else {
            before
        }
    }
}

fn collect_motors(settings: &Vec<Member>, notes: &mut Vec<String>) -> (r: Vec<ZStepper>)
    requires
        old(notes)@.len() == 0,
    ensures
        stepper_views(r@) == z_motors(settings@, settings@.len()),
        texts(final(notes)@) == motor_notes(settings@, settings@.len()),
{
    let mut out: Vec<ZStepper> = Vec::new();
    let mut i: usize = 0;
    assert(stepper_views(out@) =~= z_motors(settings@, 0));
    assert(texts(notes@) =~= motor_notes(settings@, 0));
    while i < settings.len()
        invariant
            0 <= i <= settings@.len(),
            stepper_views(out@) == z_motors(settings@, i as nat),
            texts(notes@) == motor_notes(settings@, i as nat),
        decreases settings@.len() - i,
    {
        if is_z_stepper(settings[i].key.as_str()) {
            let ghost motors = stepper_views(out@);
            let ghost said = texts(notes@);
            let pin = match settings[i].value.get("step_pin") {
                Some(v) => v.as_str(),
                None => None,
            };
            let mcu = match pin {
                Some(pin) => pin_mcu(pin),
                None => {
                    let mut note = "section [".to_owned();
                    note.append(settings[i].key.as_str());
                    note.append("] has no step_pin; assuming ");
                    note.append(PRIMARY_MCU);
                    notes.push(note);
                    assert(texts(notes@) =~= said.push(note@));
                    PRIMARY_MCU.to_owned()
                },
            };
            let motor = ZStepper { name: settings[i].key.clone(), mcu };
            out.push(motor);
            assert(stepper_views(out@) =~= motors.push((motor.name@, motor.mcu@)));
        }
        i = i + 1;
    }
    out
}

/// A G-code option is known not to move only when there is nothing in it.
pub open spec fn gcode_is_empty(section: Seq<Member>, key: Seq<char>) -> bool {
    match text_of(member(section, key)) {
        Some(s) => trimmed(s).len() == 0,
        None => true,
    }
}

/// Whether a G-code option is empty or missing.
pub fn gcode_option_empty(section: &Vec<Member>, key: &str) -> (r: bool)
    ensures
        r == gcode_is_empty(section@, key@),
{
    match get(section, key) {
        Some(v) => match v.as_str() {
            Some(s) => {
                let t = trim(s);
                t.as_str().is_empty()
            },
            None => true,
        },
        None => true,
    }
}

/// The range of an axis, when both its ends are known.
pub open spec fn range_of(settings: Seq<Member>, name: Seq<char>) -> Option<(Num, Num)> {
    match (
        num_of(option_of(settings, name, "position_min"@)),
        num_of(option_of(settings, name, "position_max"@)),
    ) {
        (Some(lo), Some(hi)) => Some((lo, hi)),
        _ => None,
    }
}

/// The travel limits of the stepper sections.
pub open spec fn limits_of(settings: Seq<Member>) -> AxisLimits {
    AxisLimits {
        x: range_of(settings, "stepper_x"@),
        y: range_of(settings, "stepper_y"@),
        z_max: num_of(option_of(settings, "stepper_z"@, "position_max"@)),
    }
}

fn axis_range(settings: &Vec<Member>, name: &str) -> (r: Option<(Num, Num)>)
    ensures
        r == range_of(settings@, name@),
{
    match (
        section_number(settings, name, "position_min"),
        section_number(settings, name, "position_max"),
    ) {
        (Some(lo), Some(hi)) => Some((lo, hi)),
        _ => None,
    }
}

/// The travel limits of the stepper sections; an axis whose limits are missing
/// is unconstrained.
pub fn axis_limits_from(settings: &Vec<Member>) -> (r: AxisLimits)
    ensures
        r == limits_of(settings@),
{
    AxisLimits {
        x: axis_range(settings, "stepper_x"),
        y: axis_range(settings, "stepper_y"),
        z_max: section_number(settings, "stepper_z", "position_max"),
    }
}

/// The probe that a section describes. A missing offset is not a number, so
/// that validation reports it rather than taking zero.
pub open spec fn probe_of(section: Seq<Member>, kind: ProbeKindView) -> ProbeView {
    ProbeView {
        kind,
        z_offset: match num_of(member(section, "z_offset"@)) {
            Some(n) => n,
            None => Num { bits: NAN_BITS },
        },
        activate_gcode_no_move: gcode_is_empty(section, "activate_gcode"@),
        deactivate_gcode_no_move: gcode_is_empty(section, "deactivate_gcode"@),
    }
}

/// The probe that a section describes.
pub fn probe_from_section(section: &Vec<Member>, kind: ProbeKind) -> (r: ProbeConfig)
    ensures
        r@ == probe_of(section@, kind@),
{
    ProbeConfig {
        kind,
        z_offset: match opt_number(section, "z_offset") {
            Some(n) => n,
            None => Num { bits: NAN_BITS },
        },
        activate_gcode_no_move: gcode_option_empty(section, "activate_gcode"),
        deactivate_gcode_no_move: gcode_option_empty(section, "deactivate_gcode"),
    }
}

/// The tap probe, if it has a section.
pub open spec fn tap_probes(settings: Seq<Member>) -> Seq<ProbeView> {
    match section_of(settings, "probe"@) {
        Some(s) => seq![probe_of(s, ProbeKindView::Tap)],
        None => Seq::empty(),
    }
}

/// The load-cell probe, if it has a section.
pub open spec fn load_cell_probes(settings: Seq<Member>) -> Seq<ProbeView> {
    match section_of(settings, "load_cell_probe"@) {
        Some(s) => seq![probe_of(s, ProbeKindView::LoadCell)],
        None => Seq::empty(),
    }
}

/// The probes under a probe method: for the drag the nozzle alone, else the
/// method's own section first and the other one, if present, behind it.
pub open spec fn probes_of(settings: Seq<Member>, plr: PlrSettings) -> Seq<ProbeView> {
    if plr.probe_method@ == "adxl_drag"@ {
        seq![
            ProbeView {
                kind: ProbeKindView::AdxlDrag { chip: plr.accel_chip@ },
                z_offset: Num { bits: 0 },
                activate_gcode_no_move: true,
                deactivate_gcode_no_move: true,
            },
        ]
    } else if plr.probe_method@ == "load_cell"@ {
        load_cell_probes(settings) + tap_probes(settings)
    } else {
        tap_probes(settings) + load_cell_probes(settings)
    }
}

fn push_tap(settings: &Vec<Member>, out: &mut Vec<ProbeConfig>)
    ensures
        probe_views(final(out)@) == probe_views(old(out)@) + tap_probes(settings@),
{
    let ghost given = probe_views(out@);
    if let Some(s) = section(settings, "probe") {
        let probe = probe_from_section(s, ProbeKind::Tap);
        out.push(probe);
        assert(probe_views(out@) =~= given + seq![probe@]);
    }
    assert(probe_views(out@) =~= given + tap_probes(settings@));
}

fn push_load_cell(settings: &Vec<Member>, out: &mut Vec<ProbeConfig>)
    ensures
        probe_views(final(out)@) == probe_views(old(out)@) + load_cell_probes(settings@),
{
    let ghost given = probe_views(out@);
    if let Some(s) = section(settings, "load_cell_probe") {
        let probe = probe_from_section(s, ProbeKind::LoadCell);
        out.push(probe);
        assert(probe_views(out@) =~= given + seq![probe@]);
    }
    assert(probe_views(out@) =~= given + load_cell_probes(settings@));
}

fn collect_probes(settings: &Vec<Member>, plr: &PlrSettings) -> (r: Vec<ProbeConfig>)
    ensures
        probe_views(r@) == probes_of(settings@, *plr),
{
    let mut out: Vec<ProbeConfig> = Vec::new();
    assert(probe_views(out@) =~= Seq::<ProbeView>::empty());
    if same(plr.probe_method.as_str(), "adxl_drag") {
        out.push(
            ProbeConfig {
                kind: ProbeKind::AdxlDrag { chip: plr.accel_chip.clone() },
                z_offset: Num { bits: 0 },
                activate_gcode_no_move: true,
                deactivate_gcode_no_move: true,
            },
        );
    } else if same(plr.probe_method.as_str(), "load_cell") {
        push_load_cell(settings, &mut out);
        push_tap(settings, &mut out);
    } else {
        push_tap(settings, &mut out);
        push_load_cell(settings, &mut out);
    }
    assert(probe_views(out@) =~= probes_of(settings@, *plr));
    out
}

/// The bottom of Z: the Z rail's, else the printer's.
pub open spec fn z_bottom(settings: Seq<Member>) -> Option<Num> {
    match num_of(option_of(settings, "stepper_z"@, "position_min"@)) {
        Some(n) => Some(n),
        None => num_of(option_of(settings, "printer"@, "minimum_z_position"@)),
    }
}

/// The note on a root that another user's home would have to complete.
pub const HOME_NOTE: &'static str = "[virtual_sdcard] path uses `~`; plrd cannot expand another user's home — use an absolute path or recovery will refuse the file as non-top-level";

/// The root of the virtual SD card.
pub open spec fn sdcard_root(settings: Seq<Member>) -> Option<Seq<char>> {
    text_of(option_of(settings, "virtual_sdcard"@, "path"@))
}

/// The note on the root of the virtual SD card, if there is one to make.
pub open spec fn root_notes(settings: Seq<Member>) -> Seq<Seq<char>> {
    match sdcard_root(settings) {
        Some(root) => if begins(root, "~"@) {
            seq![HOME_NOTE@]
        } else {
            Seq::empty()
        },
        None => Seq::empty(),
    }
}

/// Everything there is to say about an assembly, in order.
pub open spec fn assembly_notes(
    settings: Seq<Member>,
    config: Seq<Member>,
    plr: PlrSettings,
) -> Seq<Seq<char>> {
    motor_notes(settings, settings.len()) + noise_notes(config, plr) + probe_notes(config, plr)
        + root_notes(settings)
}

/// `m` is the machine that the running configuration describes.
pub open spec fn describes(
    m: MachineConfig,
    settings: Seq<Member>,
    config: Seq<Member>,
    plr: PlrSettings,
    annotated: bool,
) -> bool {
    &&& m.force_move_enabled == (bool_of(
        option_of(settings, "force_move"@, "enable_force_move"@),
    ) == Some(true))
    &&& m.z_self_locking_attested == plr.self_locking_z
    &&& stepper_views(m.z_steppers@) == z_motors(settings, settings.len())
    &&& m.primary_mcu@ == PRIMARY_MCU@
    &&& m.type_annotations_present == annotated
    &&& probe_views(m.probes@) == probes_of(settings, plr)
    &&& m.z_position_min == z_bottom(settings)
    &&& m.config_hash@ == LIVE_CONFIG_HASH@
    &&& opt_text(m.validated_config_hash) == Some(LIVE_CONFIG_HASH@)
    &&& opt_text(m.virtual_sdcard_root) == sdcard_root(settings)
    &&& m.noise_floor == gated(config, plr)
    &&& m.noise_floor_speed == plr.noise_floor_speed
    &&& m.axis_limits == limits_of(settings)
    &&& m.max_accel == num_of(option_of(settings, "printer"@, "max_accel"@))
}

/// Assembles the machine from the running configuration, with what there is to
/// say about it. `settings` is the typed, default-resolved view; `config` is
/// the file as it is written, which only the calibration fingerprints read.
pub fn machine_from_settings(
    settings: &Vec<Member>,
    config: &Vec<Member>,
    plr: &PlrSettings,
    type_annotations_present: bool,
) -> (r: (MachineConfig, Vec<String>))
    ensures
        describes(r.0, settings@, config@, *plr, type_annotations_present),
        texts(r.1@) == assembly_notes(settings@, config@, *plr),
{
    let mut notes: Vec<String> = Vec::new();
    let z_steppers = collect_motors(settings, &mut notes);
    let z_position_min = match section_number(settings, "stepper_z", "position_min") {
        Some(n) => Some(n),
        None => section_number(settings, "printer", "minimum_z_position"),
    };
    let axis_limits = axis_limits_from(settings);
    let probes = collect_probes(settings, plr);
    let noise_floor = gated_noise_floor(config, plr, &mut notes);
    note_stale_probe_resolution(config, plr, &mut notes);
    let virtual_sdcard_root = match get(settings, "virtual_sdcard") {
        Some(v) => match v.get("path") {
            Some(path) => match path.as_str() {
                Some(s) => Some(s.to_owned()),
                None => None,
            },
            None => None,
        },
        None => None,
    };
    let ghost said = texts(notes@);
    if let Some(root) = &virtual_sdcard_root {
        if starts_with(root.as_str(), "~") {
            notes.push(HOME_NOTE.to_owned());
            assert(texts(notes@) =~= said + seq![HOME_NOTE@]);
        }
    }
    assert(texts(notes@) =~= assembly_notes(settings@, config@, *plr));
    let force_move_enabled = match get(settings, "force_move") {
        Some(v) => match v.get("enable_force_move") {
            Some(b) => match b.as_bool() {
                Some(b) => b,
                None => false,
            },
            None => false,
        },
        None => false,
    };
    let machine = MachineConfig {
        force_move_enabled,
        z_self_locking_attested: plr.self_locking_z,
        z_steppers,
        primary_mcu: PRIMARY_MCU.to_owned(),
        type_annotations_present,
        probes,
        z_position_min,
        config_hash: LIVE_CONFIG_HASH.to_owned(),
        validated_config_hash: Some(LIVE_CONFIG_HASH.to_owned()),
        virtual_sdcard_root,
        noise_floor,
        noise_floor_speed: plr.noise_floor_speed,
        axis_limits,
        max_accel: section_number(settings, "printer", "max_accel"),
    };
    (machine, notes)
}

/// The blessing of the prerequisites holds by construction: the machine of the
/// running configuration carries the same hash on both sides.
pub proof fn the_running_configuration_is_always_blessed(
    m: MachineConfig,
    settings: Seq<Member>,
    config: Seq<Member>,
    plr: PlrSettings,
    annotated: bool,
)
    requires
        describes(m, settings, config, plr, annotated),
    ensures
        opt_text(m.validated_config_hash) == Some(m.config_hash@),
{
}

/// The probe method decides: under the drag there is one probe, whatever other
/// probe sections the configuration has.
pub proof fn the_drag_is_the_only_probe(settings: Seq<Member>, plr: PlrSettings)
    requires
        plr.probe_method@ == "adxl_drag"@,
    ensures
        probes_of(settings, plr).len() == 1,
        probes_of(settings, plr)[0].kind == (ProbeKindView::AdxlDrag { chip: plr.accel_chip@ }),
{
}

/// A probe without an offset never passes for one at zero: its offset is not a
/// number.
pub proof fn a_missing_offset_is_not_a_number(section: Seq<Member>, kind: ProbeKindView)
    requires
        num_of(member(section, "z_offset"@)) is None,
    ensures
        probe_of(section, kind).z_offset.nan(),
{
    assert(Num { bits: NAN_BITS }.nan());
}

/// One Z motor of the `[machine]` section.
#[derive(Debug)]
pub struct MachineZStepper {
    /// Its name.
    pub name: String,
    /// Its MCU; the primary one when not given.
    pub mcu: Option<String>,
}

/// The `[machine]` section of the daemon's own configuration.
#[derive(Debug)]
pub struct MachineSection {
    /// Whether `[force_move]` is attested.
    pub force_move_enabled: bool,
    /// Whether Z is attested to be self-locking.
    pub z_self_locking_attested: bool,
    /// The Z motors.
    pub z_steppers: Vec<MachineZStepper>,
    /// The name of the primary MCU.
    pub primary_mcu: String,
    /// The probe's kind.
    pub probe_kind: Option<String>,
    /// The probe's Z offset, mm.
    pub probe_z_offset: Option<Num>,
    /// Whether the probe's activation is attested not to move anything.
    pub probe_activate_gcode_no_move: bool,
    /// Whether its deactivation is attested not to move anything.
    pub probe_deactivate_gcode_no_move: bool,
    /// The bottom of Z, mm.
    pub z_position_min: Option<Num>,
    /// The hash under which the prerequisites were blessed.
    pub validated_config_hash: Option<String>,
    /// The root of the virtual SD card.
    pub virtual_sdcard_root: Option<String>,
}

/// What reading the Klipper configuration file gave.
#[derive(Debug)]
pub enum ConfigFile {
    /// No path is configured.
    Unset,
    /// The file could not be read, for this reason.
    Unreadable(String),
    /// The file's bytes.
    Content(Vec<u8>),
}

/// The text that stands for the state of the configuration file.
pub open spec fn file_hash(file: ConfigFile) -> Seq<char> {
    match file {
        ConfigFile::Unset => "unavailable (machine.klipper_config_path not set)"@,
        ConfigFile::Unreadable(why) => "unreadable ("@ + why@ + ")"@,
        ConfigFile::Content(bytes) => "crc32c:"@ + hex(checksum(CASTAGNOLI, bytes@) as nat, 8),
    }
}

/// The change-detection checksum of the Klipper configuration file.
pub fn klipper_config_hash(file: &ConfigFile) -> (r: String)
    ensures
        r@ == file_hash(*file),
{
    match file {
        ConfigFile::Unset => "unavailable (machine.klipper_config_path not set)".to_owned(),
        ConfigFile::Unreadable(why) => {
            let mut out = "unreadable (".to_owned();
            out.append(why.as_str());
            out.append(")");
            out
        },
        ConfigFile::Content(bytes) => {
            let mut out = "crc32c:".to_owned();
            let digits = hex8(crc32c(bytes.as_slice()));
            out.append(digits.as_str());
            out
        },
    }
}

/// The motors of a `[machine]` section as pairs of name and MCU.
pub open spec fn section_motors(section: MachineSection) -> Seq<(Seq<char>, Seq<char>)> {
    section.z_steppers@.map_values(
        |s: MachineZStepper|
            (
                s.name@,
                match s.mcu {
                    Some(mcu) => mcu@,
                    None => section.primary_mcu@,
                },
            ),
    )
}

/// The probe of a `[machine]` section; none unless both its kind and its offset
/// are given.
pub open spec fn section_probes(section: MachineSection) -> Seq<ProbeView> {
    match (section.probe_kind, section.probe_z_offset) {
        (Some(kind), Some(z_offset)) => seq![
            ProbeView {
                kind: if kind@ == "load_cell"@ {
                    ProbeKindView::LoadCell
                } else {
                    ProbeKindView::Tap
                },
                z_offset,
                activate_gcode_no_move: section.probe_activate_gcode_no_move,
                deactivate_gcode_no_move: section.probe_deactivate_gcode_no_move,
            },
        ],
        _ => Seq::empty(),
    }
}

/// `m` is the machine that a `[machine]` section describes. It has no noise
/// floor, no known limits and no known acceleration: the section cannot carry
/// them.
pub open spec fn attests(
    m: MachineConfig,
    section: MachineSection,
    annotated: bool,
    file: ConfigFile,
) -> bool {
    &&& m.force_move_enabled == section.force_move_enabled
    &&& m.z_self_locking_attested == section.z_self_locking_attested
    &&& stepper_views(m.z_steppers@) == section_motors(section)
    &&& m.primary_mcu == section.primary_mcu
    &&& m.type_annotations_present == annotated
    &&& probe_views(m.probes@) == section_probes(section)
    &&& m.z_position_min == section.z_position_min
    &&& m.config_hash@ == file_hash(file)
    &&& m.validated_config_hash == section.validated_config_hash
    &&& m.virtual_sdcard_root == section.virtual_sdcard_root
    &&& m.noise_floor is None
    &&& m.noise_floor_speed is None
    &&& m.axis_limits == (AxisLimits { x: None, y: None, z_max: None })
    &&& m.max_accel is None
}

fn copied(s: &Option<String>) -> (r: Option<String>)
    ensures
        r == *s,
{
    match s {
        Some(t) => Some(t.clone()),
        None => None,
    }
}

/// Assembles the machine from the `[machine]` section and the state of the
/// configuration file.
pub fn machine_config(
    section: &MachineSection,
    type_annotations_present: bool,
    klipper_config: &ConfigFile,
) -> (r: MachineConfig)
    ensures
        attests(r, *section, type_annotations_present, *klipper_config),
{
    let mut probes: Vec<ProbeConfig> = Vec::new();
    if let (Some(kind), Some(z_offset)) = (&section.probe_kind, section.probe_z_offset) {
        let kind = if same(kind.as_str(), "load_cell") {
            ProbeKind::LoadCell
        } else {
            ProbeKind::Tap
        };
        probes.push(
            ProbeConfig {
                kind,
                z_offset,
                activate_gcode_no_move: section.probe_activate_gcode_no_move,
                deactivate_gcode_no_move: section.probe_deactivate_gcode_no_move,
            },
        );
    }
    assert(probe_views(probes@) =~= section_probes(*section));
    let mut z_steppers: Vec<ZStepper> = Vec::new();
    let mut i: usize = 0;
    assert(stepper_views(z_steppers@) =~= section_motors(*section).take(0));
    while i < section.z_steppers.len()
        invariant
            0 <= i <= section.z_steppers@.len(),
            stepper_views(z_steppers@) == section_motors(*section).take(i as int),
        decreases section.z_steppers@.len() - i,
    {
        let ghost before = stepper_views(z_steppers@);
        let mcu = match &section.z_steppers[i].mcu {
            Some(mcu) => mcu.clone(),
            None => section.primary_mcu.clone(),
        };
        let motor = ZStepper { name: section.z_steppers[i].name.clone(), mcu };
        z_steppers.push(motor);
        assert(stepper_views(z_steppers@) =~= before.push((motor.name@, motor.mcu@)));
        assert(stepper_views(z_steppers@) =~= section_motors(*section).take(i + 1));
        i = i + 1;
    }
    assert(section_motors(*section).take(i as int) =~= section_motors(*section));
    MachineConfig {
        force_move_enabled: section.force_move_enabled,
        z_self_locking_attested: section.z_self_locking_attested,
        z_steppers,
        primary_mcu: section.primary_mcu.clone(),
        type_annotations_present,
        probes,
        z_position_min: section.z_position_min,
        config_hash: klipper_config_hash(klipper_config),
        validated_config_hash: copied(&section.validated_config_hash),
        virtual_sdcard_root: copied(&section.virtual_sdcard_root),
        noise_floor: None,
        noise_floor_speed: None,
        axis_limits: AxisLimits { x: None, y: None, z_max: None },
        max_accel: None,
    }
}

/// What one query of the printer returned.
#[derive(Debug)]
pub struct KlippySnapshot {
    /// The typed, default-resolved configuration.
    pub settings: Vec<Member>,
    /// The configuration as the file has it; empty when the printer left it
    /// out.
    pub config: Vec<Member>,
    /// The plugin's status object, when the plugin is loaded.
    pub plr_object: Option<Vec<Member>>,
}

/// The members of what `v` holds, when that is an object.
pub open spec fn object_of(v: Option<Json>) -> Option<Seq<Member>> {
    match v {
        Some(v) => if v.kind is Object {
            Some(members_of(v))
        } else {
            None
        },
        None => None,
    }
}

/// The configuration object of a query's result.
pub open spec fn configfile_of(result: Json) -> Option<Json> {
    child_of(child(result, "status"@), "configfile"@)
}

/// The status object of the plugin in a query's result, unless it is empty.
pub open spec fn plugin_of(result: Json) -> Option<Seq<Member>> {
    match object_of(child_of(child(result, "status"@), "plr"@)) {
        Some(m) => if m.len() > 0 {
            Some(m)
        } else {
            None
        },
        None => None,
    }
}

/// What is wrong with a query's result.
pub open spec fn snapshot_fault(result: Json) -> Option<Seq<char>> {
    if object_of(child(result, "status"@)) is None {
        Some("objects/query result has no status map"@)
    } else if object_of(child_of(configfile_of(result), "settings"@)) is None {
        Some("configfile.settings absent from the query result (klippy still starting?)"@)
    } else {
        None
    }
}

/// `r` is what a query's result holds: its fault, or the snapshot.
pub open spec fn extracts(result: Json, r: Result<KlippySnapshot, String>) -> bool {
    match snapshot_fault(result) {
        Some(fault) => r matches Err(e) && e@ == fault,
        None => {
            &&& r matches Ok(s)
            &&& object_of(child_of(configfile_of(result), "settings"@)) == Some(s.settings@)
            &&& s.config@ == match object_of(child_of(configfile_of(result), "config"@)) {
                Some(m) => m,
                None => Seq::empty(),
            }
            &&& match s.plr_object {
                Some(m) => plugin_of(result) == Some(m@),
                None => plugin_of(result) is None,
            }
        },
    }
}

/// The members of a value, when it is an object.
fn into_object(v: Option<Json>) -> (r: Option<Vec<Member>>)
    ensures
        match r {
            Some(m) => object_of(v) == Some(m@),
            None => object_of(v) is None,
        },
{
    match v {
        Some(v) => match v.kind {
            Kind::Object(members) => Some(members),
            _ => None,
        },
        None => None,
    }
}

impl KlippySnapshot {
    /// Reads the snapshot out of a query's result.
    pub fn from_query_result(result: Json) -> (r: Result<Self, String>)
        ensures
            extracts(result, r),
    {
        proof {
            reveal_strlit("configfile");
            reveal_strlit("plr");
            reveal_strlit("settings");
            reveal_strlit("config");
            assert("plr"@.len() != "configfile"@.len());
            assert("config"@.len() != "settings"@.len());
        }
        let outer = match result.kind {
            Kind::Object(members) => members,
            _ => {
                return Err("objects/query result has no status map".to_owned());
            },
        };
        let mut outer = outer;
        let status = into_object(take(&mut outer, "status"));
        let mut status = match status {
            Some(members) => members,
            None => {
                return Err("objects/query result has no status map".to_owned());
            },
        };
        let configfile = into_object(take(&mut status, "configfile"));
        let plugin = into_object(take(&mut status, "plr"));
        let mut configfile = match configfile {
            Some(members) => members,
            None => {
                return Err(
                    "configfile.settings absent from the query result (klippy still starting?)".to_owned(),
                );
            },
        };
        let settings = match into_object(take(&mut configfile, "settings")) {
            Some(members) => members,
            None => {
                return Err(
                    "configfile.settings absent from the query result (klippy still starting?)".to_owned(),
                );
            },
        };
        let config = match into_object(take(&mut configfile, "config")) {
            Some(members) => members,
            None => Vec::new(),
        };
        let plr_object = match plugin {
            Some(members) => if members.len() == 0 {
                None
            } else {
                Some(members)
            },
            None => None,
        };
        Ok(KlippySnapshot { settings, config, plr_object })
    }

    /// The `[plr]` section of the settings, when there is one.
    pub fn plr_section(&self) -> (r: Option<&Vec<Member>>)
        ensures
            match r {
                Some(m) => section_of(self.settings@, "plr"@) == Some(m@),
                None => section_of(self.settings@, "plr"@) is None,
            },
    {
        section(&self.settings, "plr")
    }
}

/// A message on the printer's API socket.
#[derive(Debug)]
pub enum KlippyReply {
    /// The result of a request.
    Response {
        /// The request's number.
        id: u64,
        /// The result.
        result: Json,
    },
    /// The rejection of a request.
    Error {
        /// The request's number.
        id: u64,
        /// Why.
        message: String,
    },
    /// Anything else.
    Other,
}

/// The number of the one request that a query makes.
pub const QUERY_ID: u64 = 1;

/// What a message means for the query: its end, or nothing yet. Only an answer
/// to the query's own request ends it.
pub fn on_klippy_reply(reply: KlippyReply) -> (r: Option<Result<KlippySnapshot, String>>)
    ensures
        match reply {
            KlippyReply::Response { id, result } => if id == QUERY_ID {
                r matches Some(answer) && extracts(result, answer)
            } else {
                r is None
            },
            KlippyReply::Error { id, message } => if id == QUERY_ID {
                r matches Some(Err(e)) && e@ == "klippy rejected objects/query: "@ + quoted_text(
                    message@,
                )
            } else {
                r is None
            },
            KlippyReply::Other => r is None,
        },
{
    match reply {
        KlippyReply::Response { id, result } => if id == QUERY_ID {
            Some(KlippySnapshot::from_query_result(result))
        } else {
            None
        },
        KlippyReply::Error { id, message } => if id == QUERY_ID {
            let mut out = "klippy rejected objects/query: ".to_owned();
            let q = quoted(message.as_str());
            out.append(q.as_str());
            Some(Err(out))
        } else {
            None
        },
        KlippyReply::Other => None,
    }
}

} // verus!
