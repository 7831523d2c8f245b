//! What the machine of a plan is: each part of it stands in the configuration
//! where the printer keeps it, and a calibration counts only under its own stamp.

use vstd::prelude::*;

use crate::calibration::{
    fingerprint_of, names_z_stepper, relevant_sections, selected_keys, tier, z_sections, CalGroup,
    CalTier,
};
use crate::json::{child, child_of, is_digit, member, members_of, split_on, Json, Kind, Member};
use crate::machine::{
    attests, bare_pin, describes, extracts, mcu_of_pin, motor_notes, probe_views, root_notes,
    section_motors, step_pin, stepper_views, z_motors, ConfigFile, KlippySnapshot, MachineConfig,
    MachineSection, ProbeKindView, ProbeView,
};
use crate::number::Num;
use crate::order::no_later;
use crate::plrcfg::{
    macro_names, measured, planned, representative, says_section, section_fault, PlanConfig,
    PlrSettings, ResumePolicy,
};
use crate::settings::{defines_macro, the_macros_are_those_that_are_defined};
use crate::source::{provides, resolves, MachineInputs, MachineSource};
use crate::text::{texts, trimmed};
use crate::wording::text_without_a_separator_is_one_piece;

verus! {

/// What stands under `option` in the section `name`.
pub open spec fn entry(settings: Seq<Member>, name: Seq<char>, option: Seq<char>) -> Option<Json> {
    child_of(member(settings, name), option)
}

/// The entry is the number `n`.
pub open spec fn is_num(v: Option<Json>, n: Num) -> bool {
    v matches Some(v) && v.kind matches Kind::Number(number) && number.reading.num == n
}

/// The entry is a number.
pub open spec fn has_num(v: Option<Json>) -> bool {
    v matches Some(v) && v.kind is Number
}

/// The entry is the text `s`.
pub open spec fn is_text(v: Option<Json>, s: Seq<char>) -> bool {
    v matches Some(v) && v.kind matches Kind::Text(t) && t.value@ == s
}

/// The value is the number of the entry, or absent where the entry is none.
pub open spec fn shows(v: Option<Json>, n: Option<Num>) -> bool {
    match n {
        Some(n) => is_num(v, n),
        None => !has_num(v),
    }
}

/// The limits, the floor, the acceleration, the card's root and the attestations
/// of the machine are those that the running configuration states, each in its own
/// section.
pub proof fn the_machine_is_what_its_sections_say(
    m: MachineConfig,
    settings: Seq<Member>,
    config: Seq<Member>,
    plr: PlrSettings,
    annotated: bool,
)
    requires
        describes(m, settings, config, plr, annotated),
    ensures
        m.force_move_enabled <==> (entry(settings, "force_move"@, "enable_force_move"@) matches Some(
            v,
        ) && v.kind == Kind::Bool(true)),
        m.z_self_locking_attested == plr.self_locking_z,
        match m.axis_limits.x {
            Some((lo, hi)) => is_num(entry(settings, "stepper_x"@, "position_min"@), lo) && is_num(
                entry(settings, "stepper_x"@, "position_max"@),
                hi,
            ),
            None => !has_num(entry(settings, "stepper_x"@, "position_min"@)) || !has_num(
                entry(settings, "stepper_x"@, "position_max"@),
            ),
        },
        match m.axis_limits.y {
            Some((lo, hi)) => is_num(entry(settings, "stepper_y"@, "position_min"@), lo) && is_num(
                entry(settings, "stepper_y"@, "position_max"@),
                hi,
            ),
            None => !has_num(entry(settings, "stepper_y"@, "position_min"@)) || !has_num(
                entry(settings, "stepper_y"@, "position_max"@),
            ),
        },
        shows(entry(settings, "stepper_z"@, "position_max"@), m.axis_limits.z_max),
        has_num(entry(settings, "stepper_z"@, "position_min"@)) ==> shows(
            entry(settings, "stepper_z"@, "position_min"@),
            m.z_position_min,
        ),
        !has_num(entry(settings, "stepper_z"@, "position_min"@)) ==> shows(
            entry(settings, "printer"@, "minimum_z_position"@),
            m.z_position_min,
        ),
        shows(entry(settings, "printer"@, "max_accel"@), m.max_accel),
        match m.virtual_sdcard_root {
            Some(root) => is_text(entry(settings, "virtual_sdcard"@, "path"@), root@),
            None => !(entry(settings, "virtual_sdcard"@, "path"@) matches Some(v) && v.kind is Text),
        },
        m.type_annotations_present == annotated,
        m.primary_mcu@ == "mcu"@,
        m.noise_floor_speed == plr.noise_floor_speed,
        m.config_hash@ == "live:[plr]"@,
        m.validated_config_hash matches Some(h) && h@ == "live:[plr]"@,
{
}

/// The probe that the section `name` describes, of the kind `kind`: its offset is
/// the section's, and not a number where the section has none; and its activation
/// is known not to move only where the section gives no G-code for it.
pub open spec fn probe_as_written(
    settings: Seq<Member>,
    name: Seq<char>,
    kind: ProbeKindView,
    p: ProbeView,
) -> bool {
    &&& p.kind == kind
    &&& has_num(entry(settings, name, "z_offset"@)) ==> is_num(
        entry(settings, name, "z_offset"@),
        p.z_offset,
    )
    &&& !has_num(entry(settings, name, "z_offset"@)) ==> p.z_offset.nan()
    &&& p.activate_gcode_no_move <==> no_gcode(entry(settings, name, "activate_gcode"@))
    &&& p.deactivate_gcode_no_move <==> no_gcode(entry(settings, name, "deactivate_gcode"@))
}

/// No text, or none but whitespace.
pub open spec fn no_gcode(v: Option<Json>) -> bool {
    v matches Some(v) ==> (v.kind matches Kind::Text(t) ==> trimmed(t.value@).len() == 0)
}

/// There is such a section.
pub open spec fn has_section(settings: Seq<Member>, name: Seq<char>) -> bool {
    member(settings, name) matches Some(v) && v.kind is Object
}

/// The probes are those that the configuration has: the drag alone under the drag
/// method; otherwise a tap for `[probe]` and a load cell for `[load_cell_probe]`,
/// with the method's own first.
pub proof fn the_probes_are_those_that_are_configured(
    m: MachineConfig,
    settings: Seq<Member>,
    config: Seq<Member>,
    plr: PlrSettings,
    annotated: bool,
)
    requires
        describes(m, settings, config, plr, annotated),
    ensures
        ({
            let probes = probe_views(m.probes@);
            let tap = has_section(settings, "probe"@);
            let cell = has_section(settings, "load_cell_probe"@);
            let tap_first = plr.probe_method@ != "load_cell"@;
            let t: int = if tap_first || !cell {
                0
            } else {
                1
            };
            let c: int = if !tap_first || !tap {
                0
            } else {
                1
            };
            if plr.probe_method@ == "adxl_drag"@ {
                &&& probes.len() == 1
                &&& probes[0].kind == (ProbeKindView::AdxlDrag { chip: plr.accel_chip@ })
                &&& probes[0].z_offset.bits == 0
                &&& probes[0].activate_gcode_no_move
                &&& probes[0].deactivate_gcode_no_move
            } else {
                &&& probes.len() == (if tap {
                    1int
                } else {
                    0
                }) + (if cell {
                    1int
                } else {
                    0
                })
                &&& tap ==> probe_as_written(settings, "probe"@, ProbeKindView::Tap, probes[t])
                &&& cell ==> probe_as_written(
                    settings,
                    "load_cell_probe"@,
                    ProbeKindView::LoadCell,
                    probes[c],
                )
            }
        }),
{
}

/// The name of a Z motor's section: `stepper_z`, or that with a number behind.
pub open spec fn is_z_motor(name: Seq<char>) -> bool {
    exists|rest: Seq<char>|
        name == #[trigger] ("stepper_z"@ + rest) && forall|i: int|
            0 <= i < rest.len() ==> '0' <= #[trigger] rest[i] <= '9'
}

proof fn lemma_z_motor(name: Seq<char>)
    ensures
        names_z_stepper(name) <==> is_z_motor(name),
{
    let prefix = "stepper_z"@;
    let rest = name.skip(prefix.len() as int);
    if names_z_stepper(name) {
        assert(name =~= prefix + rest);
        assert forall|i: int| 0 <= i < rest.len() implies '0' <= #[trigger] rest[i] <= '9' by {
            assert(is_digit(rest[i]));
        }
    }
    if is_z_motor(name) {
        let r = choose|r: Seq<char>|
            name == #[trigger] (prefix + r) && forall|i: int|
                0 <= i < r.len() ==> '0' <= #[trigger] r[i] <= '9';
        assert(name.subrange(0, prefix.len() as int) =~= prefix);
        assert(rest =~= r);
    }
}

/// The motor of one section: its name, and the MCU that its step pin lives on.
pub open spec fn motor_of(at: Member, motor: (Seq<char>, Seq<char>)) -> bool {
    &&& motor.0 == at.key@
    &&& match child(at.value, "step_pin"@) {
        Some(v) => match v.kind {
            Kind::Text(t) => motor.1 == mcu_of_pin(t.value@),
            _ => motor.1 == "mcu"@,
        },
        None => motor.1 == "mcu"@,
    }
}

/// Some motor in the list is that of the section.
pub open spec fn motor_listed(list: Seq<(Seq<char>, Seq<char>)>, at: Member) -> bool {
    exists|k: int| 0 <= k < list.len() && motor_of(at, #[trigger] list[k])
}

/// The motor is that of some Z section among the first `n`.
pub open spec fn motor_stands(
    motor: (Seq<char>, Seq<char>),
    settings: Seq<Member>,
    n: nat,
) -> bool {
    exists|i: int| 0 <= i < n && is_z_motor((#[trigger] settings[i]).key@) && motor_of(
        settings[i],
        motor,
    )
}

/// The Z motors are those of the Z sections, each on the MCU of its step pin, and
/// no others.
pub proof fn the_z_motors_are_those_of_the_z_sections(settings: Seq<Member>, n: nat)
    requires
        n <= settings.len(),
    ensures
        forall|i: int|
            0 <= i < n && is_z_motor(settings[i].key@) ==> #[trigger] motor_listed(
                z_motors(settings, n),
                settings[i],
            ),
        forall|k: int|
            0 <= k < z_motors(settings, n).len() ==> #[trigger] motor_stands(
                z_motors(settings, n)[k],
                settings,
                n,
            ),
    decreases n,
{
    if n > 0 {
        let m = (n - 1) as nat;
        the_z_motors_are_those_of_the_z_sections(settings, m);
        let before = z_motors(settings, m);
        let now = z_motors(settings, n);
        lemma_z_motor(settings[n - 1].key@);
        assert forall|i: int| 0 <= i < n && is_z_motor(settings[i].key@) implies #[trigger] motor_listed(
            now,
            settings[i],
        ) by {
            if i < m {
                assert(motor_listed(before, settings[i]));
                let k = choose|k: int| 0 <= k < before.len() && motor_of(
                    settings[i],
                    #[trigger] before[k],
                );
                assert(now[k] == before[k]);
            } else {
                assert(motor_of(settings[i], now[now.len() - 1]));
            }
        }
        assert forall|k: int| 0 <= k < now.len() implies #[trigger] motor_stands(
            now[k],
            settings,
            n,
        ) by {
            if k < before.len() {
                assert(now[k] == before[k]);
                assert(motor_stands(before[k], settings, m));
                let i = choose|i: int|
                    0 <= i < m && is_z_motor((#[trigger] settings[i]).key@) && motor_of(
                        settings[i],
                        before[k],
                    );
                assert(is_z_motor(settings[i].key@));
            } else {
                assert(is_z_motor(settings[n - 1].key@));
            }
        }
    }
}

/// The machine's motors are the Z motors of the configuration.
pub proof fn the_machines_motors_are_the_z_motors(
    m: MachineConfig,
    settings: Seq<Member>,
    config: Seq<Member>,
    plr: PlrSettings,
    annotated: bool,
)
    requires
        describes(m, settings, config, plr, annotated),
    ensures
        forall|i: int|
            0 <= i < settings.len() && is_z_motor(settings[i].key@) ==> #[trigger] motor_listed(
                stepper_views(m.z_steppers@),
                settings[i],
            ),
        forall|k: int|
            0 <= k < m.z_steppers@.len() ==> motor_stands(
                (m.z_steppers@[k].name@, (#[trigger] m.z_steppers@[k]).mcu@),
                settings,
                settings.len(),
            ),
{
    the_z_motors_are_those_of_the_z_sections(settings, settings.len());
    assert forall|k: int| 0 <= k < m.z_steppers@.len() implies motor_stands(
        (m.z_steppers@[k].name@, (#[trigger] m.z_steppers@[k]).mcu@),
        settings,
        settings.len(),
    ) by {
        assert(stepper_views(m.z_steppers@)[k] == (m.z_steppers@[k].name@, m.z_steppers@[k].mcu@));
        assert(motor_stands(z_motors(settings, settings.len())[k], settings, settings.len()));
    }
}

/// A pin modifier: inverted, pulled up, pulled down, or forced.
pub open spec fn all_modifiers(s: Seq<char>) -> bool {
    forall|i: int|
        0 <= i < s.len() ==> (#[trigger] s[i] == '!' || s[i] == '^' || s[i] == '~' || s[i] == '*')
}

proof fn lemma_bare_pin(mods: Seq<char>, pin: Seq<char>)
    requires
        all_modifiers(mods),
        pin.len() > 0 ==> pin[0] != '!' && pin[0] != '^' && pin[0] != '~' && pin[0] != '*',
    ensures
        bare_pin(mods + pin) == pin,
    decreases mods.len(),
{
    let all = mods + pin;
    if mods.len() == 0 {
        assert(all =~= pin);
    } else {
        assert(all[0] == mods[0]);
        assert(all.skip(1) =~= mods.skip(1) + pin);
        assert(all_modifiers(mods.skip(1))) by {
            assert forall|i: int| 0 <= i < mods.skip(1).len() implies (#[trigger] mods.skip(1)[i]
                == '!' || mods.skip(1)[i] == '^' || mods.skip(1)[i] == '~' || mods.skip(1)[i]
                == '*') by {
                assert(mods.skip(1)[i] == mods[i + 1]);
            }
        }
        lemma_bare_pin(mods.skip(1), pin);
    }
}

/// A pin names its MCU before a colon, whatever modifiers stand before; a pin
/// without a colon lives on the primary one.
pub proof fn a_pin_names_its_mcu(mods: Seq<char>, name: Seq<char>, rest: Seq<char>)
    requires
        all_modifiers(mods),
        !name.contains(':'),
        name.len() > 0,
        name[0] != '!' && name[0] != '^' && name[0] != '~' && name[0] != '*',
    ensures
        mcu_of_pin(mods + (name + seq![':'] + rest)) == trimmed(name),
        mcu_of_pin(mods + name) == "mcu"@,
{
    let full = name + seq![':'] + rest;
    assert(full[0] == name[0]);
    lemma_bare_pin(mods, full);
    lemma_bare_pin(mods, name);
    lemma_split_at(name, rest, ':');
    text_without_a_separator_is_one_piece(name, ':');
}

proof fn lemma_split_at(name: Seq<char>, rest: Seq<char>, sep: char)
    requires
        !name.contains(sep),
    ensures
        split_on(name + seq![sep] + rest, sep).len() > 1,
        split_on(name + seq![sep] + rest, sep)[0] == name,
    decreases rest.len(),
{
    let all = name + seq![sep] + rest;
    if rest.len() == 0 {
        assert(all.drop_last() =~= name);
        text_without_a_separator_is_one_piece(name, sep);
    } else {
        assert(all.drop_last() =~= name + seq![sep] + rest.drop_last());
        lemma_split_at(name, rest.drop_last(), sep);
    }
}

/// A calibration counts under its own stamp alone: without one it is taken as it
/// is, with the present fingerprint it is valid, with any other it is not. Each
/// group has the stamp of its own option.
pub proof fn a_calibration_counts_under_its_own_stamp(config: Seq<Member>, plr: PlrSettings)
    ensures
        ({
            let noise = tier(config, plr, CalGroup::NoiseFloor);
            let probe = tier(config, plr, CalGroup::ProbeResolution);
            &&& noise == CalTier::Legacy <==> plr.cal_fingerprint_noise_floor is None
            &&& noise == CalTier::Valid <==> (plr.cal_fingerprint_noise_floor matches Some(s) && s@
                == fingerprint_of(config, plr, CalGroup::NoiseFloor))
            &&& probe == CalTier::Legacy <==> plr.cal_fingerprint_probe_resolution is None
            &&& probe == CalTier::Valid <==> (plr.cal_fingerprint_probe_resolution matches Some(s)
                && s@ == fingerprint_of(config, plr, CalGroup::ProbeResolution))
        }),
{
}

/// The noise floor of the machine is the measured one unless its stamp is stale.
pub proof fn the_machines_noise_floor_is_the_measured_one(
    m: MachineConfig,
    settings: Seq<Member>,
    config: Seq<Member>,
    plr: PlrSettings,
    annotated: bool,
)
    requires
        describes(m, settings, config, plr, annotated),
    ensures
        m.noise_floor == if plr.cal_fingerprint_noise_floor matches Some(s) && s@ != fingerprint_of(
            config,
            plr,
            CalGroup::NoiseFloor,
        ) {
            None
        } else {
            representative(measured(plr.noise_floor@))
        },
{
}

/// A section is among the ones that a calibration depends on exactly when it is a
/// Z motor's of this configuration, or, for the probe resolution, that of the
/// probe in use, or, for the noise floor, the accelerometer's.
pub proof fn a_calibration_depends_on_the_z_motors_and_its_sensor(
    config: Seq<Member>,
    plr: PlrSettings,
    name: Seq<char>,
)
    ensures
        relevant_sections(config, plr, CalGroup::NoiseFloor).contains(name) <==> is_z_section(
            config,
            name,
        ) || (plr.accel_chip@.len() > 0 && name == plr.accel_chip@),
        relevant_sections(config, plr, CalGroup::ProbeResolution).contains(name) <==> is_z_section(
            config,
            name,
        ) || (plr.probe_method@ == "tap"@ && name == "probe"@) || (plr.probe_method@
            == "load_cell"@ && name == "load_cell_probe"@),
        selected_keys(CalGroup::NoiseFloor) == seq!["accel_chip"@, "probe_method"@],
        selected_keys(CalGroup::ProbeResolution) == seq!["probe_method"@],
{
    lemma_z_sections(config, config.len(), name);
    reveal_strlit("tap");
    reveal_strlit("load_cell");
    assert("tap"@.len() != "load_cell"@.len());
    let z = z_sections(config, config.len());
    lemma_pushed(z, plr.accel_chip@, name);
    lemma_pushed(z, "probe"@, name);
    lemma_pushed(z, "load_cell_probe"@, name);
}

proof fn lemma_pushed(list: Seq<Seq<char>>, x: Seq<char>, name: Seq<char>)
    ensures
        list.push(x).contains(name) <==> list.contains(name) || name == x,
{
    let more = list.push(x);
    assert(more[list.len() as int] == x);
    if list.contains(name) {
        let i = choose|i: int| 0 <= i < list.len() && list[i] == name;
        assert(more[i] == name);
    }
    if more.contains(name) {
        let i = choose|i: int| 0 <= i < more.len() && more[i] == name;
        if i < list.len() {
            assert(list[i] == name);
        }
    }
}

/// A Z motor's section that the configuration has.
pub open spec fn is_z_section(config: Seq<Member>, name: Seq<char>) -> bool {
    is_z_motor(name) && exists|i: int| 0 <= i < config.len() && (#[trigger] config[i]).key@ == name
}

proof fn lemma_z_sections(config: Seq<Member>, n: nat, name: Seq<char>)
    requires
        n <= config.len(),
    ensures
        z_sections(config, n).contains(name) <==> is_z_motor(name) && exists|i: int|
            0 <= i < n && (#[trigger] config[i]).key@ == name,
    decreases n,
{
    if n > 0 {
        let m = (n - 1) as nat;
        lemma_z_sections(config, m, name);
        lemma_z_motor(config[n - 1].key@);
        let before = z_sections(config, m);
        lemma_pushed(before, config[n - 1].key@, name);
        if exists|i: int| 0 <= i < m && (#[trigger] config[i]).key@ == name {
            let i = choose|i: int| 0 <= i < m && (#[trigger] config[i]).key@ == name;
            assert(config[i].key@ == name);
        }
    }
}

/// Where the machine comes from: the section of the running configuration where
/// there is one and it reads, a refusal where it does not read, the daemon's own
/// section where there is none or the printer does not answer and the daemon's is
/// commissioned, and else a refusal.
pub proof fn the_running_configuration_decides(
    query: Result<KlippySnapshot, String>,
    commissioned: bool,
    defaults: PlanConfig,
    source: MachineSource,
)
    requires
        resolves(query, commissioned, defaults, source),
    ensures
        query matches Ok(s) ==> {
            let section = member(s.settings@, "plr"@);
            let there = section matches Some(v) && v.kind is Object;
            &&& source is Legacy <==> !there
            &&& source is Plr <==> there && section_fault(members_of(section->0)) is None
            &&& source matches MachineSource::Plr(found) ==> found.snapshot == s && says_section(
                found.plr,
                members_of(section->0),
                defaults,
            )
            &&& source matches MachineSource::Legacy { note } ==> note is None
        },
        query is Err && commissioned ==> (source matches MachineSource::Legacy { note } && note is Some),
        query is Err && !commissioned ==> source is Unavailable,
{
}

/// What the plan builder is handed follows the source: under a `[plr]` section its
/// tunables, its exclusion radius and the macros that the configuration defines;
/// under the daemon's own section the defaults with the stock probe and the last
/// candidate, no exclusion radius and no macros.
pub proof fn the_inputs_follow_the_source(
    source: MachineSource,
    section: MachineSection,
    file: ConfigFile,
    annotated: bool,
    defaults: PlanConfig,
    inputs: MachineInputs,
    name: Seq<char>,
)
    requires
        provides(source, section, file, annotated, defaults, inputs),
    ensures
        source matches MachineSource::Plr(s) ==> {
            &&& inputs.plan_config == planned(s.plr)
            &&& inputs.exclusion_radius == Some(s.plr.exclusion_radius)
            &&& !inputs.legacy
            &&& texts(inputs.macros@).contains(name) <==> exists|i: int|
                0 <= i < s.snapshot.settings@.len() && defines_macro(
                    (#[trigger] s.snapshot.settings@[i]).key@,
                    name,
                )
            &&& describes(
                inputs.machine,
                s.snapshot.settings@,
                s.snapshot.config@,
                s.plr,
                annotated,
            )
        },
        source is Legacy ==> {
            &&& inputs.plan_config == (PlanConfig {
                legacy_single_probe: true,
                resume_candidate_policy: ResumePolicy::Last,
                ..defaults
            })
            &&& inputs.exclusion_radius is None
            &&& inputs.legacy
            &&& inputs.macros@.len() == 0
            &&& attests(inputs.machine, section, annotated, file)
        },
        !(source is Unavailable),
{
    if let MachineSource::Plr(s) = source {
        let settings = s.snapshot.settings@;
        the_macros_are_those_that_are_defined(settings, settings.len(), name);
        assert(texts(inputs.macros@).to_set().contains(name) <==> macro_names(
            settings,
            settings.len(),
        ).to_set().contains(name));
    }
}

/// The daemon's own section is taken at its word: each attestation is carried over
/// as it stands, a motor without an MCU is on the primary one, and a probe is there
/// only with its offset. Nothing is known that the section does not say.
pub proof fn the_daemons_section_is_taken_at_its_word(
    m: MachineConfig,
    section: MachineSection,
    annotated: bool,
    file: ConfigFile,
)
    requires
        attests(m, section, annotated, file),
    ensures
        m.force_move_enabled == section.force_move_enabled,
        m.z_self_locking_attested == section.z_self_locking_attested,
        m.primary_mcu == section.primary_mcu,
        m.type_annotations_present == annotated,
        m.z_position_min == section.z_position_min,
        m.validated_config_hash == section.validated_config_hash,
        m.virtual_sdcard_root == section.virtual_sdcard_root,
        m.z_steppers@.len() == section.z_steppers@.len(),
        forall|i: int|
            0 <= i < section.z_steppers@.len() ==> {
                &&& (#[trigger] m.z_steppers@[i]).name@ == section.z_steppers@[i].name@
                &&& m.z_steppers@[i].mcu@ == match section.z_steppers@[i].mcu {
                    Some(mcu) => mcu@,
                    None => section.primary_mcu@,
                }
            },
        section.probe_kind is None || section.probe_z_offset is None ==> m.probes@.len() == 0,
        section.probe_kind is Some && section.probe_z_offset is Some ==> {
            &&& m.probes@.len() == 1
            &&& m.probes@[0].z_offset == section.probe_z_offset->0
            &&& m.probes@[0]@.kind == if section.probe_kind->0@ == "load_cell"@ {
                ProbeKindView::LoadCell
            } else {
                ProbeKindView::Tap
            }
            &&& m.probes@[0].activate_gcode_no_move == section.probe_activate_gcode_no_move
            &&& m.probes@[0].deactivate_gcode_no_move == section.probe_deactivate_gcode_no_move
        },
        m.noise_floor is None && m.noise_floor_speed is None && m.max_accel is None,
        m.axis_limits.x is None && m.axis_limits.y is None && m.axis_limits.z_max is None,
        file is Unset ==> m.config_hash@ == "unavailable (machine.klipper_config_path not set)"@,
{
    assert(stepper_views(m.z_steppers@).len() == m.z_steppers@.len());
    assert(section_motors(section).len() == section.z_steppers@.len());
    assert forall|i: int| 0 <= i < section.z_steppers@.len() implies {
        &&& (#[trigger] m.z_steppers@[i]).name@ == section.z_steppers@[i].name@
        &&& m.z_steppers@[i].mcu@ == match section.z_steppers@[i].mcu {
            Some(mcu) => mcu@,
            None => section.primary_mcu@,
        }
    } by {
        assert(stepper_views(m.z_steppers@)[i] == (m.z_steppers@[i].name@, m.z_steppers@[i].mcu@));
    }
    assert(probe_views(m.probes@).len() == m.probes@.len());
    if m.probes@.len() > 0 {
        assert(probe_views(m.probes@)[0] == m.probes@[0]@);
    }
}

/// A snapshot is taken out of an answer where the printer puts it: the settings
/// and the file's own view under `configfile`, the plugin's status under `plr`, all
/// in the answer's `status`; and there is one exactly when the settings are there.
pub proof fn a_snapshot_is_what_the_answer_holds(
    result: Json,
    r: Result<KlippySnapshot, String>,
)
    requires
        extracts(result, r),
    ensures
        ({
            let status = child(result, "status"@);
            let configfile = child_of(status, "configfile"@);
            let settings = child_of(configfile, "settings"@);
            let config = child_of(configfile, "config"@);
            let plugin = child_of(status, "plr"@);
            &&& r is Ok <==> (status matches Some(v) && v.kind is Object) && (
            settings matches Some(v) && v.kind is Object)
            &&& r matches Ok(s) ==> {
                &&& s.settings@ == members_of(settings->0)
                &&& (config matches Some(v) && v.kind is Object) ==> s.config@ == members_of(
                    config->0,
                )
                &&& !(config matches Some(v) && v.kind is Object) ==> s.config@.len() == 0
                &&& s.plr_object is Some <==> (plugin matches Some(v) && v.kind is Object
                    && members_of(v).len() > 0)
                &&& s.plr_object matches Some(m) ==> m@ == members_of(plugin->0)
            }
        }),
{
}

/// Strings are ordered as in a dictionary of code points: a string comes before
/// every longer one that begins with it, and where two differ first the smaller
/// character decides.
pub proof fn strings_are_ordered_as_in_a_dictionary(
    common: Seq<char>,
    x: char,
    y: char,
    a: Seq<char>,
    b: Seq<char>,
)
    ensures
        no_later(common, common + a),
        a.len() > 0 ==> !no_later(common + a, common),
        (x as int) < (y as int) ==> no_later(common + (seq![x] + a), common + (seq![y] + b))
            && !no_later(common + (seq![y] + b), common + (seq![x] + a)),
    decreases common.len(),
{
    let p = common + (seq![x] + a);
    let q = common + (seq![y] + b);
    if common.len() == 0 {
        assert(common + a =~= a);
        assert(p =~= seq![x] + a);
        assert(q =~= seq![y] + b);
        assert(p[0] == x && q[0] == y);
    } else {
        strings_are_ordered_as_in_a_dictionary(common.skip(1), x, y, a, b);
        assert((common + a).skip(1) =~= common.skip(1) + a);
        assert(p.skip(1) =~= common.skip(1) + (seq![x] + a));
        assert(q.skip(1) =~= common.skip(1) + (seq![y] + b));
        assert((common + a)[0] == common[0]);
        assert(p[0] == common[0] && q[0] == common[0]);
    }
}

/// A Z motor without a step pin is noted by its own name, and no other section is.
pub proof fn only_a_motor_without_a_pin_is_noted(settings: Seq<Member>, n: nat)
    requires
        n < settings.len(),
    ensures
        motor_notes(settings, 0).len() == 0,
        is_z_motor(settings[n as int].key@) && !is_text_there(
            child(settings[n as int].value, "step_pin"@),
        ) ==> motor_notes(settings, n + 1) == motor_notes(settings, n).push(
            "section ["@ + settings[n as int].key@ + "] has no step_pin; assuming "@ + "mcu"@,
        ),
        !(is_z_motor(settings[n as int].key@) && !is_text_there(
            child(settings[n as int].value, "step_pin"@),
        )) ==> motor_notes(settings, n + 1) == motor_notes(settings, n),
{
    lemma_z_motor(settings[n as int].key@);
}

/// The entry is a text.
pub open spec fn is_text_there(v: Option<Json>) -> bool {
    v matches Some(v) && v.kind is Text
}

/// A card whose path begins at the home directory is noted, and no other.
pub proof fn only_a_path_from_home_is_noted(settings: Seq<Member>)
    ensures
        root_notes(settings).len() > 0 <==> (entry(settings, "virtual_sdcard"@, "path"@) matches Some(
            v,
        ) && (v.kind matches Kind::Text(t) && t.value@.len() > 0 && t.value@[0] == '~')),
{
    reveal_strlit("~");
    if let Some(v) = entry(settings, "virtual_sdcard"@, "path"@) {
        if let Kind::Text(t) = v.kind {
            if t.value@.len() > 0 {
                assert(t.value@.subrange(0, 1)[0] == t.value@[0]);
                if t.value@[0] == '~' {
                    assert(t.value@.subrange(0, 1) =~= "~"@);
                }
            }
        }
    }
}

} // verus!
