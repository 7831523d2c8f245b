//! What a `[plr]` section means to the plan builder: each tunable stands under its
//! own option, and no other option moves it.

use vstd::prelude::*;

use crate::json::{bool_of, member, num_of, number_of, text_of, Json, Kind, Member};
use crate::number::Num;
use crate::order::no_later;
use crate::plrcfg::{
    boolean_fault, is_measurement, least_place, macro_names, measured_as, number_fault, opt_text,
    planned, policy_named, representative, says_section, section_fault, string_fault, sweep_fault,
    swept, the_least_place_is_least, PlanConfig, PlrSettings, ResumePolicy,
};
use crate::text::{begins, is_white, lowercased, trimmed, trimmed_end, trimmed_start, uppercased};

verus! {

/// A value is read as what it is and as nothing else.
pub proof fn a_value_is_read_as_what_it_is(v: Json)
    ensures
        match v.kind {
            Kind::Number(n) => number_of(Some(v)) == Some(n.reading) && num_of(Some(v)) == Some(
                n.reading.num,
            ) && text_of(Some(v)) is None && bool_of(Some(v)) is None,
            Kind::Text(t) => text_of(Some(v)) == Some(t.value@) && num_of(Some(v)) is None
                && bool_of(Some(v)) is None,
            Kind::Bool(b) => bool_of(Some(v)) == Some(b) && num_of(Some(v)) is None && text_of(
                Some(v),
            ) is None,
            _ => num_of(Some(v)) is None && text_of(Some(v)) is None && bool_of(Some(v)) is None,
        },
        num_of(None) is None,
        text_of(None) is None,
        bool_of(None) is None,
{
}

/// The number under an option is `n`.
pub open spec fn says_number(plr: Seq<Member>, option: Seq<char>, n: Num) -> bool {
    member(plr, option) matches Some(v) && v.kind matches Kind::Number(number)
        && number.reading.num == n
}

/// The truth value under an option is `b`.
pub open spec fn says_flag(plr: Seq<Member>, option: Seq<char>, b: bool) -> bool {
    member(plr, option) matches Some(v) && v.kind == Kind::Bool(b)
}

/// The string under an option is `s`.
pub open spec fn says_text(plr: Seq<Member>, option: Seq<char>, s: Seq<char>) -> bool {
    member(plr, option) matches Some(v) && v.kind matches Kind::Text(t) && t.value@ == s
}

/// Nothing stands under an option.
pub open spec fn silent(plr: Seq<Member>, option: Seq<char>) -> bool {
    member(plr, option) is None
}

/// A tunable with a default: what the option says where it says a number, the
/// default where it says nothing.
pub open spec fn follows(plr: Seq<Member>, option: Seq<char>, tunable: Num, default: Num) -> bool {
    &&& forall|n: Num| #[trigger] says_number(plr, option, n) ==> tunable == n
    &&& silent(plr, option) ==> tunable == default
}

/// A tunable without a default: what the option says where it says a number, and
/// nothing otherwise.
pub open spec fn mirrors(plr: Seq<Member>, option: Seq<char>, tunable: Option<Num>) -> bool {
    forall|n: Num| #[trigger] says_number(plr, option, n) <==> tunable == Some(n)
}

/// Each tunable of the plan builder is the number that stands under its own
/// option, and where nothing stands there it is its own default, or absent where
/// it has none.
pub proof fn each_tunable_is_what_its_own_option_says(
    s: PlrSettings,
    plr: Seq<Member>,
    defaults: PlanConfig,
)
    requires
        section_fault(plr) is None,
        says_section(s, plr, defaults),
    ensures
        ({
            let t = planned(s);
            &&& follows(plr, "probe_speed"@, t.probe_speed, defaults.probe_speed)
            &&& follows(plr, "envelope_margin"@, t.margin, defaults.margin)
            &&& follows(plr, "sag_allowance"@, t.sag_allowance, defaults.sag_allowance)
            &&& follows(plr, "drag_speed"@, t.drag_speed, defaults.drag_speed)
            &&& follows(plr, "drag_z_step"@, t.drag_z_step, defaults.drag_z_step)
            &&& follows(plr, "drag_sensitivity"@, t.drag_sensitivity, defaults.drag_sensitivity)
            &&& follows(plr, "touch_samples"@, t.touch_samples, defaults.touch_samples)
            &&& follows(plr, "touch_sample_range"@, t.touch_sample_range, defaults.touch_sample_range)
            &&& follows(plr, "touch_retract"@, t.touch_retract, defaults.touch_retract)
            &&& follows(plr, "touch_accel"@, t.touch_accel, defaults.touch_accel)
            &&& follows(plr, "entry_feedrate"@, t.entry_feed, defaults.entry_feed)
            &&& follows(plr, "max_probe_nozzle_temp"@, t.max_probe_nozzle_temp, defaults.max_probe_nozzle_temp)
            &&& follows(plr, "reheat_park_delta_z"@, t.reheat_park_delta_z, defaults.reheat_park_delta_z)
            &&& follows(plr, "pre_home_z_lift"@, t.pre_home_z_lift, defaults.pre_home_z_lift)
            &&& follows(plr, "purge_amount"@, t.purge_amount, defaults.purge_amount)
            &&& follows(plr, "purge_speed"@, t.purge_speed, defaults.purge_speed)
            &&& follows(plr, "purge_retract"@, t.purge_retract, defaults.purge_retract)
            &&& follows(plr, "drag_nozzle_temp"@, t.drag_nozzle_temp, defaults.drag_nozzle_temp)
            &&& mirrors(plr, "reheat_park_x"@, t.reheat_park_x)
            &&& mirrors(plr, "reheat_park_y"@, t.reheat_park_y)
            &&& mirrors(plr, "purge_x"@, t.purge_x)
            &&& mirrors(plr, "purge_y"@, t.purge_y)
            &&& mirrors(plr, "purge_z"@, t.purge_z)
            &&& mirrors(plr, "recovery_accel"@, t.recovery_accel)
            &&& mirrors(plr, "accel_home"@, t.accel_home)
            &&& mirrors(plr, "accel_travel"@, t.accel_travel)
            &&& mirrors(plr, "accel_probe"@, t.accel_probe)
            &&& mirrors(plr, "accel_entry"@, t.accel_entry)
            &&& mirrors(plr, "confirm_timeout_s"@, t.confirm_timeout_s)
            &&& mirrors(plr, "gcode_barrier_timeout_s"@, t.gcode_barrier_timeout_s)
            &&& mirrors(plr, "preview_standoff"@, t.preview_standoff)
            &&& mirrors(plr, "preview_nozzle_temp"@, t.preview_nozzle_temp)
            &&& follows(
                plr,
                "exclusion_radius"@,
                s.exclusion_radius,
                Num { bits: 0x4014_0000_0000_0000 },
            )
            &&& mirrors(plr, "probe_resolution"@, s.probe_resolution)
            &&& mirrors(plr, "noise_floor_speed"@, s.noise_floor_speed)
            &&& !t.legacy_single_probe
        }),
{
}

/// Each switch and each name is what its own option says, and its own default
/// where the option says nothing.
pub proof fn each_switch_and_name_is_what_its_own_option_says(
    s: PlrSettings,
    plr: Seq<Member>,
    defaults: PlanConfig,
)
    requires
        section_fault(plr) is None,
        says_section(s, plr, defaults),
    ensures
        ({
            let t = planned(s);
            &&& forall|b: bool| #[trigger] says_flag(plr, "purge_enable"@, b) ==> t.purge_enable == b
            &&& silent(plr, "purge_enable"@) ==> t.purge_enable == defaults.purge_enable
            &&& forall|b: bool| #[trigger] says_flag(plr, "confirm_z_before_resume"@, b) ==> t.confirm_z_before_resume == b
            &&& silent(plr, "confirm_z_before_resume"@) ==> t.confirm_z_before_resume == false
            &&& forall|b: bool| #[trigger] says_flag(plr, "debug_confirm_each_step"@, b) ==> t.debug_confirm_each_step == b
            &&& silent(plr, "debug_confirm_each_step"@) ==> t.debug_confirm_each_step == false
            &&& forall|b: bool| #[trigger] says_flag(plr, "self_locking_z"@, b) ==> s.self_locking_z == b
            &&& silent(plr, "self_locking_z"@) ==> s.self_locking_z == false
            &&& forall|x: Seq<char>| #[trigger] says_text(plr, "clean_nozzle_macro"@, x) ==> t.clean_nozzle_macro@ == x
            &&& silent(plr, "clean_nozzle_macro"@) ==> t.clean_nozzle_macro@ == defaults.clean_nozzle_macro@
            &&& forall|x: Seq<char>| #[trigger] says_text(plr, "accel_chip"@, x) ==> s.accel_chip@ == x
            &&& silent(plr, "accel_chip"@) ==> s.accel_chip@ == ""@
            &&& forall|x: Seq<char>| #[trigger] says_text(plr, "wal_dir"@, x) ==> s.wal_dir@ == x
            &&& silent(plr, "wal_dir"@) ==> s.wal_dir@ == "/var/lib/plrd/wal"@
            &&& forall|x: Seq<char>| #[trigger] says_text(plr, "control_socket"@, x) ==> s.control_socket@ == x
            &&& silent(plr, "control_socket"@) ==> s.control_socket@ == "/var/lib/plrd/plrd.sock"@
            &&& says_text(plr, "probe_method"@, s.probe_method@)
            &&& t.unsafe_allow_purge_z_below_bed == s.unsafe_allow_purge_z_below_bed
            &&& t.purge_macro == s.purge_macro
            &&& forall|x: Seq<char>|
                #[trigger] says_text(plr, "cal_fingerprint_noise_floor"@, x) <==> opt_text(s.cal_fingerprint_noise_floor) == Some(x)
            &&& forall|x: Seq<char>|
                #[trigger] says_text(plr, "cal_fingerprint_probe_resolution"@, x) <==> opt_text(s.cal_fingerprint_probe_resolution) == Some(x)
            &&& forall|x: Seq<char>|
                #[trigger] says_text(plr, "cal_plugin_version"@, x) <==> opt_text(s.cal_plugin_version) == Some(x)
            &&& forall|x: Seq<char>|
                #[trigger] says_text(plr, "cal_klipper_version"@, x) <==> opt_text(s.cal_klipper_version) == Some(x)
            &&& says_text(plr, "resume_candidate_policy"@, "first"@) ==> t.resume_candidate_policy
                == ResumePolicy::First
            &&& says_text(plr, "resume_candidate_policy"@, "mid"@) ==> t.resume_candidate_policy
                == ResumePolicy::Mid
            &&& says_text(plr, "resume_candidate_policy"@, "last"@) ==> t.resume_candidate_policy
                == ResumePolicy::Last
            &&& says_text(plr, "resume_candidate_policy"@, "ask"@) ==> t.resume_candidate_policy
                == ResumePolicy::Ask
            &&& silent(plr, "resume_candidate_policy"@) ==> t.resume_candidate_policy
                == ResumePolicy::Ask
        }),
{
    lemma_policy_names();
}

proof fn lemma_policy_names()
    ensures
        policy_named("first"@) == Some(ResumePolicy::First),
        policy_named("mid"@) == Some(ResumePolicy::Mid),
        policy_named("last"@) == Some(ResumePolicy::Last),
        policy_named("ask"@) == Some(ResumePolicy::Ask),
{
    reveal_strlit("first");
    reveal_strlit("mid");
    reveal_strlit("last");
    reveal_strlit("ask");
    assert("first"@.len() == 5 && "mid"@.len() == 3 && "last"@.len() == 4 && "ask"@.len() == 3);
    assert("mid"@[0] == 'm' && "ask"@[0] == 'a');
}

/// An option moves its own tunable and no other: two sections that agree on an
/// option give the tunable of that option alike, whatever else they say.
pub proof fn a_tunable_depends_on_its_own_option_alone(
    s: PlrSettings,
    plr: Seq<Member>,
    u: PlrSettings,
    other: Seq<Member>,
    defaults: PlanConfig,
)
    requires
        section_fault(plr) is None,
        says_section(s, plr, defaults),
        section_fault(other) is None,
        says_section(u, other, defaults),
    ensures
        ({
            let a = planned(s);
            let b = planned(u);
            &&& agree(plr, other, "probe_speed"@) ==> a.probe_speed == b.probe_speed
            &&& agree(plr, other, "envelope_margin"@) ==> a.margin == b.margin
            &&& agree(plr, other, "sag_allowance"@) ==> a.sag_allowance == b.sag_allowance
            &&& agree(plr, other, "drag_speed"@) ==> a.drag_speed == b.drag_speed
            &&& agree(plr, other, "drag_z_step"@) ==> a.drag_z_step == b.drag_z_step
            &&& agree(plr, other, "drag_sensitivity"@) ==> a.drag_sensitivity == b.drag_sensitivity
            &&& agree(plr, other, "touch_samples"@) ==> a.touch_samples == b.touch_samples
            &&& agree(plr, other, "touch_sample_range"@) ==> a.touch_sample_range == b.touch_sample_range
            &&& agree(plr, other, "touch_retract"@) ==> a.touch_retract == b.touch_retract
            &&& agree(plr, other, "touch_accel"@) ==> a.touch_accel == b.touch_accel
            &&& agree(plr, other, "entry_feedrate"@) ==> a.entry_feed == b.entry_feed
            &&& agree(plr, other, "max_probe_nozzle_temp"@) ==> a.max_probe_nozzle_temp == b.max_probe_nozzle_temp
            &&& agree(plr, other, "reheat_park_delta_z"@) ==> a.reheat_park_delta_z == b.reheat_park_delta_z
            &&& agree(plr, other, "pre_home_z_lift"@) ==> a.pre_home_z_lift == b.pre_home_z_lift
            &&& agree(plr, other, "purge_amount"@) ==> a.purge_amount == b.purge_amount
            &&& agree(plr, other, "purge_speed"@) ==> a.purge_speed == b.purge_speed
            &&& agree(plr, other, "purge_retract"@) ==> a.purge_retract == b.purge_retract
            &&& agree(plr, other, "drag_nozzle_temp"@) ==> a.drag_nozzle_temp == b.drag_nozzle_temp
            &&& agree(plr, other, "reheat_park_x"@) ==> a.reheat_park_x == b.reheat_park_x
            &&& agree(plr, other, "reheat_park_y"@) ==> a.reheat_park_y == b.reheat_park_y
            &&& agree(plr, other, "purge_x"@) ==> a.purge_x == b.purge_x
            &&& agree(plr, other, "purge_y"@) ==> a.purge_y == b.purge_y
            &&& agree(plr, other, "purge_z"@) ==> a.purge_z == b.purge_z
            &&& agree(plr, other, "recovery_accel"@) ==> a.recovery_accel == b.recovery_accel
            &&& agree(plr, other, "accel_home"@) ==> a.accel_home == b.accel_home
            &&& agree(plr, other, "accel_travel"@) ==> a.accel_travel == b.accel_travel
            &&& agree(plr, other, "accel_probe"@) ==> a.accel_probe == b.accel_probe
            &&& agree(plr, other, "accel_entry"@) ==> a.accel_entry == b.accel_entry
            &&& agree(plr, other, "confirm_timeout_s"@) ==> a.confirm_timeout_s == b.confirm_timeout_s
            &&& agree(plr, other, "gcode_barrier_timeout_s"@) ==> a.gcode_barrier_timeout_s == b.gcode_barrier_timeout_s
            &&& agree(plr, other, "preview_standoff"@) ==> a.preview_standoff == b.preview_standoff
            &&& agree(plr, other, "preview_nozzle_temp"@) ==> a.preview_nozzle_temp == b.preview_nozzle_temp
            &&& agree(plr, other, "purge_enable"@) ==> a.purge_enable == b.purge_enable
            &&& agree(plr, other, "confirm_z_before_resume"@) ==> a.confirm_z_before_resume == b.confirm_z_before_resume
            &&& agree(plr, other, "debug_confirm_each_step"@) ==> a.debug_confirm_each_step == b.debug_confirm_each_step
            &&& agree(plr, other, "resume_candidate_policy"@) ==> a.resume_candidate_policy == b.resume_candidate_policy
            &&& agree(plr, other, "clean_nozzle_macro"@) ==> a.clean_nozzle_macro@
                == b.clean_nozzle_macro@
            &&& agree(plr, other, "purge_macro"@) ==> opt_text(a.purge_macro) == opt_text(
                b.purge_macro,
            )
            &&& agree(plr, other, "exclusion_radius"@) ==> s.exclusion_radius == u.exclusion_radius
            &&& agree(plr, other, "probe_method"@) ==> s.probe_method@ == u.probe_method@
            &&& agree(plr, other, "self_locking_z"@) ==> s.self_locking_z == u.self_locking_z
            &&& agree(plr, other, "probe_resolution"@) ==> s.probe_resolution == u.probe_resolution
        }),
{
}

/// Two sections say the same under an option.
pub open spec fn agree(a: Seq<Member>, b: Seq<Member>, option: Seq<char>) -> bool {
    member(a, option) == member(b, option)
}

/// An option that is a number if it is there.
pub open spec fn is_number_if_there(plr: Seq<Member>, option: Seq<char>) -> bool {
    member(plr, option) matches Some(v) ==> v.kind is Number
}

/// An option that is a boolean if it is there.
pub open spec fn is_flag_if_there(plr: Seq<Member>, option: Seq<char>) -> bool {
    member(plr, option) matches Some(v) ==> v.kind is Bool
}

/// An option that is a string if it is there.
pub open spec fn is_text_if_there(plr: Seq<Member>, option: Seq<char>) -> bool {
    member(plr, option) matches Some(v) ==> v.kind is Text
}

/// A section is read exactly when its probe method is one of the three, its
/// measurements are numbers, and every option that it must understand is of its
/// type; anything else about it is forgiven.
pub proof fn a_section_is_read_exactly_when_its_options_are_of_their_types(plr: Seq<Member>)
    ensures
        section_fault(plr) is None <==> {
            &&& says_text(plr, "probe_method"@, "tap"@) || says_text(
                plr,
                "probe_method"@,
                "load_cell"@,
            ) || says_text(plr, "probe_method"@, "adxl_drag"@)
            &&& forall|i: int|
                0 <= i < plr.len() && is_measured((#[trigger] plr[i]).key@) ==> plr[i].value.kind is Number
            &&& is_number_if_there(plr, "probe_speed"@)
            &&& is_number_if_there(plr, "envelope_margin"@)
            &&& is_number_if_there(plr, "sag_allowance"@)
            &&& is_number_if_there(plr, "drag_speed"@)
            &&& is_number_if_there(plr, "drag_z_step"@)
            &&& is_number_if_there(plr, "drag_sensitivity"@)
            &&& is_number_if_there(plr, "touch_samples"@)
            &&& is_number_if_there(plr, "touch_sample_range"@)
            &&& is_number_if_there(plr, "touch_retract"@)
            &&& is_number_if_there(plr, "touch_accel"@)
            &&& is_number_if_there(plr, "entry_feedrate"@)
            &&& is_number_if_there(plr, "max_probe_nozzle_temp"@)
            &&& is_number_if_there(plr, "reheat_park_delta_z"@)
            &&& is_number_if_there(plr, "pre_home_z_lift"@)
            &&& is_number_if_there(plr, "purge_amount"@)
            &&& is_number_if_there(plr, "purge_speed"@)
            &&& is_number_if_there(plr, "purge_retract"@)
            &&& is_number_if_there(plr, "drag_nozzle_temp"@)
            &&& is_number_if_there(plr, "exclusion_radius"@)
            &&& is_number_if_there(plr, "noise_floor_speed"@)
            &&& is_number_if_there(plr, "probe_resolution"@)
            &&& is_flag_if_there(plr, "self_locking_z"@)
            &&& is_flag_if_there(plr, "purge_enable"@)
            &&& is_flag_if_there(plr, "confirm_z_before_resume"@)
            &&& is_flag_if_there(plr, "debug_confirm_each_step"@)
            &&& is_text_if_there(plr, "accel_chip"@)
            &&& is_text_if_there(plr, "wal_dir"@)
            &&& is_text_if_there(plr, "control_socket"@)
            &&& is_text_if_there(plr, "clean_nozzle_macro"@)
            &&& member(plr, "resume_candidate_policy"@) is Some ==> says_text(
                plr,
                "resume_candidate_policy"@,
                "first"@,
            ) || says_text(plr, "resume_candidate_policy"@, "mid"@) || says_text(
                plr,
                "resume_candidate_policy"@,
                "last"@,
            ) || says_text(plr, "resume_candidate_policy"@, "ask"@)
        },
{
    lemma_sweep_fault(plr, 0);
    lemma_policy_names();
}

/// An option that holds a measurement of the noise floor: one with the prefix that
/// is not about how the measurement was taken.
pub open spec fn is_measured(option: Seq<char>) -> bool {
    &&& begins(option, "noise_floor_"@)
    &&& option != "noise_floor_speed"@
    &&& option != "noise_floor_temp"@
    &&& option != "noise_floor_temp_sensor"@
}

proof fn lemma_sweep_fault(plr: Seq<Member>, i: int)
    requires
        0 <= i,
    ensures
        sweep_fault(plr, i) is None <==> forall|j: int|
            i <= j < plr.len() && is_measured((#[trigger] plr[j]).key@) ==> plr[j].value.kind is Number,
    decreases plr.len() - i,
{
    if i < plr.len() {
        lemma_sweep_fault(plr, i + 1);
        if sweep_fault(plr, i) is None {
            assert forall|j: int|
                i <= j < plr.len() && is_measured(
                    (#[trigger] plr[j]).key@,
                ) implies plr[j].value.kind is Number by {
                if j > i {
                }
            }
        } else if sweep_fault(plr, i + 1) is None {
            assert(is_measured(plr[i].key@) && !(plr[i].value.kind is Number));
        }
    }
}

/// A measurement is kept: its option and its number stand in the list.
pub open spec fn is_kept(list: Seq<(Seq<char>, Num)>, m: Member) -> bool {
    exists|k: int|
        0 <= k < list.len() && (#[trigger] list[k]).0 == m.key@ && Some(list[k].1) == num_of(
            Some(m.value),
        )
}

/// A kept measurement stands in the section, under an option that is one.
pub open spec fn stands_in(kept: (Seq<char>, Num), plr: Seq<Member>, n: nat) -> bool {
    exists|i: int|
        0 <= i < n && is_measured((#[trigger] plr[i]).key@) && kept.0 == plr[i].key@ && Some(kept.1)
            == num_of(Some(plr[i].value))
}

/// A measurement is kept exactly where its option is one, with the number that
/// stands there.
pub proof fn every_measurement_is_kept(plr: Seq<Member>, n: nat)
    requires
        n <= plr.len(),
        section_fault(plr) is None,
    ensures
        forall|i: int|
            0 <= i < n && is_measured(plr[i].key@) ==> #[trigger] is_kept(swept(plr, n), plr[i]),
        forall|k: int|
            0 <= k < swept(plr, n).len() ==> #[trigger] stands_in(swept(plr, n)[k], plr, n),
{
    a_section_is_read_exactly_when_its_options_are_of_their_types(plr);
    lemma_measurements_kept(plr, n);
}

proof fn lemma_measurements_kept(plr: Seq<Member>, n: nat)
    requires
        n <= plr.len(),
        forall|i: int|
            0 <= i < plr.len() && is_measured((#[trigger] plr[i]).key@) ==> plr[i].value.kind is Number,
    ensures
        forall|i: int|
            0 <= i < n && is_measured(plr[i].key@) ==> #[trigger] is_kept(swept(plr, n), plr[i]),
        forall|k: int|
            0 <= k < swept(plr, n).len() ==> #[trigger] stands_in(swept(plr, n)[k], plr, n),
    decreases n,
{
    if n > 0 {
        let m = (n - 1) as nat;
        lemma_measurements_kept(plr, m);
        let before = swept(plr, m);
        let now = swept(plr, n);
        let last = plr[n - 1];
        assert(is_measured(last.key@) ==> last.value.kind is Number);
        assert(is_measured(last.key@) == is_measurement(last.key@));
        assert forall|i: int| 0 <= i < n && is_measured(plr[i].key@) implies #[trigger] is_kept(
            now,
            plr[i],
        ) by {
            if i < m {
                assert(is_kept(before, plr[i]));
                let k = choose|k: int|
                    0 <= k < before.len() && (#[trigger] before[k]).0 == plr[i].key@ && Some(
                        before[k].1,
                    ) == num_of(Some(plr[i].value));
                assert(now[k] == before[k]);
            } else {
                assert(now[now.len() - 1].0 == plr[i].key@);
            }
        }
        assert forall|k: int| 0 <= k < now.len() implies #[trigger] stands_in(now[k], plr, n) by {
            if k < before.len() {
                assert(now[k] == before[k]);
                assert(stands_in(before[k], plr, m));
                let i = choose|i: int|
                    0 <= i < m && is_measured((#[trigger] plr[i]).key@) && before[k].0
                        == plr[i].key@ && Some(before[k].1) == num_of(Some(plr[i].value));
                assert(is_measured(plr[i].key@));
            } else {
                assert(is_measured(plr[n - 1].key@));
            }
        }
    }
}

/// The noise floor is the one measured as `noise_floor_rms`, the first so named;
/// without one it is the measurement whose option comes first; and with nothing
/// measured there is none.
pub proof fn the_noise_floor_is_the_rms_or_the_first(list: Seq<(Seq<char>, Num)>, k: int)
    ensures
        representative(list) is None <==> list.len() == 0,
        0 <= k < list.len() && list[k].0 == "noise_floor_rms"@ && (forall|j: int|
            0 <= j < k ==> (#[trigger] list[j]).0 != "noise_floor_rms"@) ==> representative(list)
            == Some(list[k].1),
        list.len() > 0 && (forall|j: int|
            0 <= j < list.len() ==> (#[trigger] list[j]).0 != "noise_floor_rms"@) ==> exists|i: int|
            0 <= i < list.len() && representative(list) == Some((#[trigger] list[i]).1) && forall|
                j: int,
            |
                0 <= j < list.len() ==> no_later(list[i].0, (#[trigger] list[j]).0),
    decreases list.len(),
{
    lemma_measured_as(list, "noise_floor_rms"@);
    if list.len() > 0 {
        the_least_place_is_least(list, list.len());
        let i = least_place(list, list.len());
        assert(list[i].1 == list[i].1);
    }
}

proof fn lemma_measured_as(list: Seq<(Seq<char>, Num)>, key: Seq<char>)
    ensures
        match measured_as(list, key) {
            Some(v) => exists|i: int|
                0 <= i < list.len() && (#[trigger] list[i]).0 == key && list[i].1 == v && forall|
                    j: int,
                |
                    0 <= j < i ==> (#[trigger] list[j]).0 != key,
            None => forall|i: int| 0 <= i < list.len() ==> (#[trigger] list[i]).0 != key,
        },
    decreases list.len(),
{
    if list.len() > 0 {
        let rest = list.skip(1);
        if list[0].0 == key {
            assert(list[0].1 == measured_as(list, key)->0);
        } else {
            lemma_measured_as(rest, key);
            match measured_as(rest, key) {
                Some(v) => {
                    let i = choose|i: int|
                        0 <= i < rest.len() && (#[trigger] rest[i]).0 == key && rest[i].1 == v
                            && forall|j: int| 0 <= j < i ==> (#[trigger] rest[j]).0 != key;
                    assert(list[i + 1] == rest[i]);
                    assert forall|j: int| 0 <= j < i + 1 implies (#[trigger] list[j]).0 != key by {
                        if j > 0 {
                            assert(list[j] == rest[j - 1]);
                        }
                    }
                },
                None => {
                    assert forall|i: int| 0 <= i < list.len() implies (#[trigger] list[i]).0
                        != key by {
                        if i > 0 {
                            assert(list[i] == rest[i - 1]);
                        }
                    }
                },
            }
        }
    }
}

/// A purge below the bed is permitted only by a plain `true`: under the documented
/// spelling, or under the lower-case one where the documented one is not there.
pub proof fn only_a_plain_yes_permits_a_purge_below_the_bed(
    s: PlrSettings,
    plr: Seq<Member>,
    defaults: PlanConfig,
)
    requires
        section_fault(plr) is None,
        says_section(s, plr, defaults),
    ensures
        planned(s).unsafe_allow_purge_z_below_bed <==> {
            ||| says_flag(plr, "UNSAFE_allow_purge_z_below_bed"@, true)
            ||| silent(plr, "UNSAFE_allow_purge_z_below_bed"@) && says_flag(
                plr,
                "unsafe_allow_purge_z_below_bed"@,
                true,
            )
        },
{
    reveal_strlit("UNSAFE_allow_purge_z_below_bed");
    reveal_strlit("unsafe_allow_purge_z_below_bed");
    assert(lowercased("UNSAFE_allow_purge_z_below_bed"@) =~= "unsafe_allow_purge_z_below_bed"@);
}

/// A text without whitespace around it.
pub open spec fn bare(s: Seq<char>) -> bool {
    s.len() > 0 ==> !is_white(s[0]) && !is_white(s.last())
}

/// Nothing but whitespace.
pub open spec fn all_white(s: Seq<char>) -> bool {
    forall|i: int| 0 <= i < s.len() ==> is_white(#[trigger] s[i])
}

proof fn lemma_trimmed_start(s: Seq<char>)
    ensures
        exists|u: Seq<char>| all_white(u) && s == #[trigger] (u + trimmed_start(s)),
        trimmed_start(s).len() > 0 ==> !is_white(trimmed_start(s)[0]),
    decreases s.len(),
{
    if s.len() > 0 && is_white(s[0]) {
        lemma_trimmed_start(s.skip(1));
        let t = trimmed_start(s);
        let u = choose|u: Seq<char>| all_white(u) && s.skip(1) == #[trigger] (u + t);
        let more = seq![s[0]] + u;
        assert(all_white(more));
        assert(s =~= more + t) by {
            assert(s =~= seq![s[0]] + s.skip(1));
        }
    } else {
        let u = Seq::<char>::empty();
        assert(s =~= u + trimmed_start(s));
        assert(all_white(u));
    }
}

proof fn lemma_trimmed_end(s: Seq<char>)
    ensures
        exists|u: Seq<char>| all_white(u) && s == #[trigger] (trimmed_end(s) + u),
        trimmed_end(s).len() > 0 ==> !is_white(trimmed_end(s).last()) && trimmed_end(s)[0] == s[0],
    decreases s.len(),
{
    if s.len() > 0 && is_white(s.last()) {
        lemma_trimmed_end(s.drop_last());
        let t = trimmed_end(s);
        let u = choose|u: Seq<char>| all_white(u) && s.drop_last() == #[trigger] (t + u);
        let more = u.push(s.last());
        assert(all_white(more));
        assert(s =~= t + more) by {
            assert(s =~= s.drop_last().push(s.last()));
        }
    } else {
        let u = Seq::<char>::empty();
        assert(s =~= trimmed_end(s) + u);
        assert(all_white(u));
    }
}

/// Trimming takes the whitespace around a text and nothing else.
pub proof fn trimming_takes_only_the_whitespace_around(s: Seq<char>)
    ensures
        bare(trimmed(s)),
        exists|u: Seq<char>, v: Seq<char>|
            all_white(u) && all_white(v) && s == #[trigger] (u + trimmed(s) + v),
{
    lemma_trimmed_start(s);
    let t = trimmed_start(s);
    lemma_trimmed_end(t);
    let u = choose|u: Seq<char>| all_white(u) && s == #[trigger] (u + t);
    let v = choose|v: Seq<char>| all_white(v) && t == #[trigger] (trimmed(s) + v);
    assert(s =~= u + trimmed(s) + v);
}

/// The purge macro is the name that stands under its option, without the
/// whitespace around it; a blank one, or anything but a string, names none.
pub proof fn the_purge_macro_is_the_name_under_its_option(
    s: PlrSettings,
    plr: Seq<Member>,
    defaults: PlanConfig,
    x: Seq<char>,
)
    requires
        section_fault(plr) is None,
        says_section(s, plr, defaults),
    ensures
        says_text(plr, "purge_macro"@, x) && trimmed(x).len() > 0 ==> opt_text(
            planned(s).purge_macro,
        ) == Some(trimmed(x)),
        says_text(plr, "purge_macro"@, x) && trimmed(x).len() == 0 ==> planned(s).purge_macro is None,
        silent(plr, "purge_macro"@) ==> planned(s).purge_macro is None,
{
}

/// A section of the configuration that defines the macro `name`.
pub open spec fn defines_macro(section: Seq<char>, name: Seq<char>) -> bool {
    exists|rest: Seq<char>|
        section == #[trigger] ("gcode_macro "@ + rest) && name == uppercased(trimmed(rest))
}

/// The macros of a configuration are exactly the ones that some section defines.
pub proof fn the_macros_are_those_that_are_defined(sections: Seq<Member>, n: nat, name: Seq<char>)
    requires
        n <= sections.len(),
    ensures
        macro_names(sections, n).contains(name) <==> exists|i: int|
            0 <= i < n && defines_macro((#[trigger] sections[i]).key@, name),
    decreases n,
{
    if n > 0 {
        let m = (n - 1) as nat;
        the_macros_are_those_that_are_defined(sections, m, name);
        let before = macro_names(sections, m);
        let now = macro_names(sections, n);
        let key = sections[n - 1].key@;
        let prefix = "gcode_macro "@;
        lemma_defines(key, name);
        if now.contains(name) {
            let k = choose|k: int| 0 <= k < now.len() && now[k] == name;
            if k < before.len() {
                assert(before[k] == name);
                assert(before.contains(name));
                let i = choose|i: int|
                    0 <= i < m && defines_macro((#[trigger] sections[i]).key@, name);
                assert(defines_macro(sections[i].key@, name));
            } else {
                assert(defines_macro(sections[n - 1].key@, name));
            }
        }
        if exists|i: int| 0 <= i < n && defines_macro((#[trigger] sections[i]).key@, name) {
            let i = choose|i: int| 0 <= i < n && defines_macro((#[trigger] sections[i]).key@, name);
            if i < m {
                assert(before.contains(name));
                let k = choose|k: int| 0 <= k < before.len() && before[k] == name;
                assert(now[k] == name);
            } else {
                assert(now[now.len() - 1] == name);
            }
        }
    }
}

proof fn lemma_defines(key: Seq<char>, name: Seq<char>)
    ensures
        defines_macro(key, name) <==> begins(key, "gcode_macro "@) && name == uppercased(
            trimmed(key.skip("gcode_macro "@.len() as int)),
        ),
{
    let prefix = "gcode_macro "@;
    let rest = key.skip(prefix.len() as int);
    if begins(key, prefix) {
        assert(key =~= prefix + rest);
    }
    if defines_macro(key, name) {
        let r = choose|r: Seq<char>|
            key == #[trigger] (prefix + r) && name == uppercased(trimmed(r));
        assert(key.subrange(0, prefix.len() as int) =~= prefix);
        assert(rest =~= r);
    }
}

/// Changing the case of a text changes its ASCII letters and nothing else: no
/// lower-case letter is left in upper case nor the other way round, and either is
/// undone by the other but for the case that was there.
pub proof fn case_changes_letters_alone(s: Seq<char>, i: int)
    requires
        0 <= i < s.len(),
    ensures
        uppercased(s).len() == s.len(),
        lowercased(s).len() == s.len(),
        !('a' <= uppercased(s)[i] <= 'z'),
        !('A' <= lowercased(s)[i] <= 'Z'),
        !('a' <= s[i] <= 'z') ==> uppercased(s)[i] == s[i],
        !('A' <= s[i] <= 'Z') ==> lowercased(s)[i] == s[i],
        'a' <= s[i] <= 'z' ==> uppercased(s)[i] as int == s[i] as int - 32,
        'A' <= s[i] <= 'Z' ==> lowercased(s)[i] as int == s[i] as int + 32,
{
}

/// An option of the wrong type is refused by its own name, with the type that is
/// wanted and the value that stands there; one of the right type, or none, is not.
pub proof fn a_fault_names_its_option(plr: Seq<Member>, key: Seq<char>)
    ensures
        member(plr, key) is None ==> number_fault(plr, key) is None && boolean_fault(plr, key)
            is None && string_fault(plr, key) is None,
        member(plr, key) matches Some(v) ==> {
            &&& v.kind is Number ==> number_fault(plr, key) is None
            &&& v.kind is Bool ==> boolean_fault(plr, key) is None
            &&& v.kind is Text ==> string_fault(plr, key) is None
            &&& !(v.kind is Number) ==> number_fault(plr, key) == Some(
                "[plr] "@ + key + " is not a "@ + "number"@ + ": "@ + v.spelling@,
            )
            &&& !(v.kind is Bool) ==> boolean_fault(plr, key) == Some(
                "[plr] "@ + key + " is not a "@ + "boolean"@ + ": "@ + v.spelling@,
            )
            &&& !(v.kind is Text) ==> string_fault(plr, key) == Some(
                "[plr] "@ + key + " is not a "@ + "string"@ + ": "@ + v.spelling@,
            )
        },
{
}

} // verus!
