//! Where the machine snapshot comes from: the `[plr]` section of the running
//! Klipper configuration, or the daemon's own `[machine]` section.

use vstd::prelude::*;

use crate::json::{get, member, text_of, Member};
use crate::machine::{
    attests, describes, assembly_notes, machine_config, machine_from_settings, section_of,
    ConfigFile, KlippySnapshot, MachineConfig, MachineSection,
};
use crate::number::Num;
use crate::order::strictly_ascending;
use crate::plrcfg::{
    gcode_macro_names, macro_names, planned, says_section, section_fault, PlanConfig, PlrSettings,
    ResumePolicy,
};
use crate::text::{quoted, quoted_text, same, texts};

verus! {

/// What the `[plr]` section and the plugin say.
#[derive(Debug)]
pub struct PlrSource {
    /// The printer's answer.
    pub snapshot: KlippySnapshot,
    /// The parsed section.
    pub plr: PlrSettings,
    /// What there is to say about it.
    pub notes: Vec<String>,
}

/// Where the machine snapshot of this run comes from.
#[derive(Debug)]
pub enum MachineSource {
    /// The running configuration has a `[plr]` section, which is authoritative.
    Plr(PlrSource),
    /// The `[machine]` section applies.
    Legacy {
        /// Why, when it applies as a fallback.
        note: Option<String>,
    },
    /// Neither can be used.
    Unavailable {
        /// Why.
        reason: String,
    },
}

/// The refusal when the `[plr]` section cannot be read faithfully.
pub open spec fn unreadable(e: Seq<char>) -> Seq<char> {
    "the [plr] section is present but unreadable: "@ + e
}

fn unreadable_text(e: &str) -> (r: String)
    ensures
        r@ == unreadable(e@),
{
    let mut out = "the [plr] section is present but unreadable: ".to_owned();
    out.append(e);
    out
}

/// The note when the printer cannot be asked but `[machine]` is commissioned.
pub open spec fn fallback(e: Seq<char>) -> Seq<char> {
    "klippy is unreachable ("@ + e + "); trusting the commissioned legacy [machine] snapshot — its config-hash blessing still detects a printer.cfg changed since blessing (including one that grew [plr])"@
}

fn fallback_text(e: &str) -> (r: String)
    ensures
        r@ == fallback(e@),
{
    let mut out = "klippy is unreachable (".to_owned();
    out.append(e);
    out.append("); trusting the commissioned legacy [machine] snapshot — its config-hash blessing still detects a printer.cfg changed since blessing (including one that grew [plr])");
    out
}

/// The refusal when the printer cannot be asked and nothing is commissioned.
pub open spec fn unavailable(e: Seq<char>) -> Seq<char> {
    "klippy is unreachable ("@ + e + ") and no legacy [machine] snapshot is commissioned. The [plr] settings live only in the running Klipper config (the WAL does not journal them), so even a dry run would be guesswork; start klippy and retry"@
}

fn unavailable_text(e: &str) -> (r: String)
    ensures
        r@ == unavailable(e@),
{
    let mut out = "klippy is unreachable (".to_owned();
    out.append(e);
    out.append(") and no legacy [machine] snapshot is commissioned. The [plr] settings live only in the running Klipper config (the WAL does not journal them), so even a dry run would be guesswork; start klippy and retry");
    out
}

/// The note when the plugin reports another probe method than the settings.
pub open spec fn disagreement(reported: Seq<char>, method: Seq<char>) -> Seq<char> {
    "plr status object reports method Some("@ + quoted_text(reported) + ") but configfile settings say "@ + quoted_text(method) + "; the settings win"@
}

fn disagreement_text(reported: &str, method: &str) -> (r: String)
    ensures
        r@ == disagreement(reported@, method@),
{
    let mut out = "plr status object reports method Some(".to_owned();
    let quoted1 = quoted(reported);
    out.append(quoted1.as_str());
    out.append(") but configfile settings say ");
    let quoted2 = quoted(method);
    out.append(quoted2.as_str());
    out.append("; the settings win");
    out
}

/// The note when the plugin's status object is empty.
pub const PLUGIN_MISSING: &'static str =
    "[plr] section exists but the plr status object is empty (plugin not loaded?)";

/// The probe method that the plugin reports, under its present or its former
/// key.
pub open spec fn reported_method(object: Seq<Member>) -> Option<Seq<char>> {
    text_of(
        match member(object, "probe_method"@) {
            Some(v) => Some(v),
            None => member(object, "method"@),
        },
    )
}

/// What there is to say about a snapshot whose section names `method`.
pub open spec fn source_notes(snapshot: KlippySnapshot, method: Seq<char>) -> Seq<Seq<char>> {
    match snapshot.plr_object {
        Some(object) => match reported_method(object@) {
            Some(reported) => if reported != method {
                seq![disagreement(reported, method)]
            } else {
                Seq::empty()
            },
            None => Seq::empty(),
        },
        None => seq![PLUGIN_MISSING@],
    }
}

fn notes_on(snapshot: &KlippySnapshot, method: &str) -> (r: Vec<String>)
    ensures
        texts(r@) == source_notes(*snapshot, method@),
{
    let mut notes: Vec<String> = Vec::new();
    match &snapshot.plr_object {
        Some(object) => {
            let found = match get(object, "probe_method") {
                Some(v) => Some(v),
                None => get(object, "method"),
            };
            let reported = match found {
                Some(v) => v.as_str(),
                None => None,
            };
            if let Some(reported) = reported {
                if !same(reported, method) {
                    notes.push(disagreement_text(reported, method));
                }
            }
        },
        None => {
            notes.push(PLUGIN_MISSING.to_owned());
        },
    }
    assert(texts(notes@) =~= source_notes(*snapshot, method@));
    notes
}

/// `source` is what the printer's answer and the daemon's own configuration lead
/// to. A `[plr]` section that cannot be read is a refusal, never a fallback.
pub open spec fn resolves(
    query: Result<KlippySnapshot, String>,
    commissioned: bool,
    defaults: PlanConfig,
    source: MachineSource,
) -> bool {
    match query {
        Ok(snapshot) => match section_of(snapshot.settings@, "plr"@) {
            Some(section) => match section_fault(section) {
                None => {
                    &&& source matches MachineSource::Plr(s)
                    &&& s.snapshot == snapshot
                    &&& says_section(s.plr, section, defaults)
                    &&& texts(s.notes@) == source_notes(snapshot, s.plr.probe_method@)
                },
                Some(fault) => {
                    &&& source matches MachineSource::Unavailable { reason }
                    &&& reason@ == unreadable(fault)
                },
            },
            None => source == (MachineSource::Legacy { note: None }),
        },
        Err(e) => if commissioned {
            &&& source matches MachineSource::Legacy { note: Some(note) }
            &&& note@ == fallback(e@)
        } else {
            &&& source matches MachineSource::Unavailable { reason }
            &&& reason@ == unavailable(e@)
        },
    }
}

/// Decides where the machine snapshot comes from. `query` is what asking the
/// printer gave; `commissioned` says whether the `[machine]` section names a
/// probe.
pub fn resolve_machine_source(
    query: Result<KlippySnapshot, String>,
    commissioned: bool,
    defaults: &PlanConfig,
) -> (r: MachineSource)
    ensures
        resolves(query, commissioned, *defaults, r),
{
    match query {
        Ok(snapshot) => {
            let parsed = match snapshot.plr_section() {
                Some(section) => Some(PlrSettings::parse(section, defaults)),
                None => None,
            };
            match parsed {
                Some(Ok(plr)) => {
                    let notes = notes_on(&snapshot, plr.probe_method.as_str());
                    MachineSource::Plr(PlrSource { snapshot, plr, notes })
                },
                Some(Err(e)) => MachineSource::Unavailable { reason: unreadable_text(e.as_str()) },
                None => MachineSource::Legacy { note: None },
            }
        },
        Err(e) => if commissioned {
            MachineSource::Legacy { note: Some(fallback_text(e.as_str())) }
        } else {
            MachineSource::Unavailable { reason: unavailable_text(e.as_str()) }
        },
    }
}

/// The first line of the report in `[plr]` mode.
pub const PLR_MODE: &'static str =
    "machine-config mode: [plr] (live Klipper config; /etc/plrd.conf [machine] ignored)";

/// The first line of the report in legacy mode.
pub const LEGACY_MODE: &'static str =
    "machine-config mode: legacy [machine] section of /etc/plrd.conf";

/// `prefix` before each of `notes`.
pub open spec fn prefixed(prefix: Seq<char>, notes: Seq<Seq<char>>) -> Seq<Seq<char>> {
    notes.map_values(|n: Seq<char>| prefix + n)
}

/// The report on the machine-configuration mode, a line each.
pub open spec fn mode_lines(source: MachineSource) -> Seq<Seq<char>> {
    match source {
        MachineSource::Plr(s) => seq![
            PLR_MODE@,
            "  probe_method = "@ + s.plr.probe_method@ + ", control_socket = "@ + s.plr.control_socket@,
        ] + prefixed("  note: "@, texts(s.notes@)),
        MachineSource::Legacy { note: Some(note) } => seq![LEGACY_MODE@, "  note: "@ + note@],
        MachineSource::Legacy { note: None } => seq![LEGACY_MODE@],
        MachineSource::Unavailable { reason } => seq![
            "machine-config mode: UNDETERMINED — "@ + reason@,
        ],
    }
}

/// Adds each of `notes` to `out` behind `prefix`.
pub(crate) fn push_prefixed(out: &mut Vec<String>, prefix: &str, notes: &Vec<String>)
    ensures
        texts(final(out)@) == texts(old(out)@) + prefixed(prefix@, texts(notes@)),
{
    let ghost given = texts(out@);
    let ghost all = prefixed(prefix@, texts(notes@));
    let mut i: usize = 0;
    assert(given + all.take(0) =~= given);
    while i < notes.len()
        invariant
            0 <= i <= notes@.len(),
            all == prefixed(prefix@, texts(notes@)),
            texts(out@) == given + all.take(i as int),
        decreases notes@.len() - i,
    {
        let ghost before = texts(out@);
        let mut line = prefix.to_owned();
        line.append(notes[i].as_str());
        out.push(line);
        assert(texts(out@) =~= before.push(line@));
        assert(all[i as int] == prefix@ + notes@[i as int]@);
        assert(texts(out@) =~= given + all.take(i + 1));
        i = i + 1;
    }
    assert(all.take(i as int) =~= all);
}

/// Reports the machine-configuration mode.
pub fn report_machine_mode(source: &MachineSource) -> (r: Vec<String>)
    ensures
        texts(r@) == mode_lines(*source),
{
    let mut lines: Vec<String> = Vec::new();
    match source {
        MachineSource::Plr(s) => {
            lines.push(PLR_MODE.to_owned());
            let mut out = "  probe_method = ".to_owned();
            out.append(s.plr.probe_method.as_str());
            out.append(", control_socket = ");
            out.append(s.plr.control_socket.as_str());
            lines.push(out);
            assert(texts(lines@) =~= seq![PLR_MODE@, out@]);
            push_prefixed(&mut lines, "  note: ", &s.notes);
        },
        MachineSource::Legacy { note } => {
            lines.push(LEGACY_MODE.to_owned());
            if let Some(note) = note {
                let mut line = "  note: ".to_owned();
                line.append(note.as_str());
                lines.push(line);
            }
        },
        MachineSource::Unavailable { reason } => {
            let mut line = "machine-config mode: UNDETERMINED — ".to_owned();
            line.append(reason.as_str());
            lines.push(line);
        },
    }
    assert(texts(lines@) =~= mode_lines(*source));
    lines
}

/// What planning needs to know of the machine.
#[derive(Debug)]
pub struct MachineInputs {
    /// The machine.
    pub machine: MachineConfig,
    /// The plan builder's tunables.
    pub plan_config: PlanConfig,
    /// The exclusion radius around the crash point, when the section sets it.
    pub exclusion_radius: Option<Num>,
    /// Whether the legacy section applies.
    pub legacy: bool,
    /// The names of the macros that are known to exist.
    pub macros: Vec<String>,
}

/// The tunables of a legacy run: the defaults, with the stock single probe and
/// the automatic resume policy. A legacy setup has nobody to answer a preview.
pub open spec fn legacy_plan(defaults: PlanConfig) -> PlanConfig {
    PlanConfig {
        legacy_single_probe: true,
        resume_candidate_policy: ResumePolicy::Last,
        ..defaults
    }
}

/// What is narrated of a source, a line each.
pub open spec fn source_narration(source: MachineSource) -> Seq<Seq<char>> {
    match source {
        MachineSource::Plr(s) => seq![PLR_NARRATION@, IGNORED_NARRATION@] + prefixed(
            "pipeline: note: "@,
            texts(s.notes@),
        ) + prefixed(
            "pipeline: note: "@,
            assembly_notes(s.snapshot.settings@, s.snapshot.config@, s.plr),
        ),
        MachineSource::Legacy { note: Some(note) } => seq![
            LEGACY_NARRATION@,
            "pipeline: note: "@ + note@,
        ],
        MachineSource::Legacy { note: None } => seq![LEGACY_NARRATION@],
        MachineSource::Unavailable { .. } => Seq::empty(),
    }
}

/// `inputs` is what a usable source leads to.
pub open spec fn provides(
    source: MachineSource,
    section: MachineSection,
    file: ConfigFile,
    annotated: bool,
    defaults: PlanConfig,
    inputs: MachineInputs,
) -> bool {
    match source {
        MachineSource::Plr(s) => {
            &&& describes(
                inputs.machine,
                s.snapshot.settings@,
                s.snapshot.config@,
                s.plr,
                annotated,
            )
            &&& inputs.plan_config == planned(s.plr)
            &&& inputs.exclusion_radius == Some(s.plr.exclusion_radius)
            &&& !inputs.legacy
            &&& strictly_ascending(texts(inputs.macros@))
            &&& texts(inputs.macros@).to_set() == macro_names(
                s.snapshot.settings@,
                s.snapshot.settings@.len(),
            ).to_set()
        },
        MachineSource::Legacy { .. } => {
            &&& attests(inputs.machine, section, annotated, file)
            &&& inputs.plan_config == legacy_plan(defaults)
            &&& inputs.exclusion_radius is None
            &&& inputs.legacy
            &&& inputs.macros@.len() == 0
        },
        MachineSource::Unavailable { .. } => false,
    }
}

/// The narration of `[plr]` mode.
pub const PLR_NARRATION: &'static str =
    "pipeline: machine config from the [plr] section of the live Klipper config";

/// The narration of what `[plr]` mode ignores.
pub const IGNORED_NARRATION: &'static str =
    "pipeline: note: /etc/plrd.conf [machine] is ignored while [plr] exists";

/// The narration of legacy mode.
pub const LEGACY_NARRATION: &'static str =
    "pipeline: machine config from /etc/plrd.conf [machine] (legacy mode)";

/// Assembles the planning inputs from a source, narrating the decision into
/// `lines`. An unusable source gives the refusal.
pub fn machine_inputs(
    source: &MachineSource,
    section: &MachineSection,
    file: &ConfigFile,
    annotated: bool,
    defaults: &PlanConfig,
    lines: &mut Vec<String>,
) -> (r: Result<MachineInputs, String>)
    ensures
        match *source {
            MachineSource::Unavailable { reason } => {
                &&& r matches Err(e)
                &&& e@ == "machine configuration unavailable: "@ + reason@
            },
            _ => {
                &&& r matches Ok(inputs)
                &&& provides(*source, *section, *file, annotated, *defaults, inputs)
            },
        },
        texts(final(lines)@) == texts(old(lines)@) + source_narration(*source),
{
    let ghost given = texts(lines@);
    assert(given + Seq::<Seq<char>>::empty() =~= given);
    match source {
        MachineSource::Unavailable { reason } => {
            let mut out = "machine configuration unavailable: ".to_owned();
            out.append(reason.as_str());
            Err(out)
        },
        MachineSource::Plr(s) => {
            lines.push(PLR_NARRATION.to_owned());
            lines.push(IGNORED_NARRATION.to_owned());
            assert(texts(lines@) =~= given + seq![PLR_NARRATION@, IGNORED_NARRATION@]);
            push_prefixed(lines, "pipeline: note: ", &s.notes);
            let (machine, notes) = machine_from_settings(
                &s.snapshot.settings,
                &s.snapshot.config,
                &s.plr,
                annotated,
            );
            push_prefixed(lines, "pipeline: note: ", &notes);
            let inputs = MachineInputs {
                machine,
                plan_config: s.plr.plan_config(),
                exclusion_radius: Some(s.plr.exclusion_radius),
                legacy: false,
                macros: gcode_macro_names(&s.snapshot.settings),
            };
            assert(texts(lines@) =~= given + source_narration(*source));
            Ok(inputs)
        },
        MachineSource::Legacy { note } => {
            lines.push(LEGACY_NARRATION.to_owned());
            if let Some(note) = note {
                let mut line = "pipeline: note: ".to_owned();
                line.append(note.as_str());
                lines.push(line);
            }
            let inputs = MachineInputs {
                machine: machine_config(section, annotated, file),
                plan_config: PlanConfig {
                    legacy_single_probe: true,
                    resume_candidate_policy: ResumePolicy::Last,
                    ..defaults.clone()
                },
                exclusion_radius: None,
                legacy: true,
                macros: Vec::new(),
            };
            assert(texts(lines@) =~= given + source_narration(*source));
            Ok(inputs)
        },
    }
}

/// A `[plr]` section that the running configuration has is never passed over:
/// it is used, or the run is refused. And what cannot be asked for is never made
/// up: without an answer and without a commissioned `[machine]` section there is
/// no machine.
pub proof fn a_visible_section_is_never_passed_over(
    query: Result<KlippySnapshot, String>,
    commissioned: bool,
    defaults: PlanConfig,
    source: MachineSource,
)
    requires
        resolves(query, commissioned, defaults, source),
    ensures
        (query matches Ok(s) && section_of(s.settings@, "plr"@) is Some) ==> !(source is Legacy),
        query is Err && !commissioned ==> source is Unavailable,
        query is Err ==> !(source is Plr),
{
}

/// A legacy run resumes automatically: nobody is asked where.
pub proof fn a_legacy_run_never_asks(
    source: MachineSource,
    section: MachineSection,
    file: ConfigFile,
    annotated: bool,
    defaults: PlanConfig,
    inputs: MachineInputs,
)
    requires
        provides(source, section, file, annotated, defaults, inputs),
        source is Legacy,
    ensures
        inputs.plan_config.resume_candidate_policy == ResumePolicy::Last,
        inputs.plan_config.legacy_single_probe,
{
}

} // verus!
