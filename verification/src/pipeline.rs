//! The recovery pipeline: from the write-ahead log to a validated plan.
//!
//! The pipeline reads local files and produces data; nothing here talks to the
//! printer. It is a machine: each stage names one piece of outside work (read
//! the log, reconstruct, model the print file, match, plan, ...), and the result
//! of that work takes it to the next stage or to an outcome. The prerequisites
//! of the printer are validated before anything is planned.

use vstd::prelude::*;

use crate::machine::{ConfigFile, MachineSection};
use crate::narration::{
    absolute_line, absolute_text, anchor_line, anchor_text, beyond_line, beyond_text,
    completed_lines, declined_line, declined_text, epochs_line, epochs_text, file_line, file_text,
    inconclusive_line, inconclusive_text, layer_list, list_layers, mark_lines, matched_line,
    matched_text, model_line, model_text, narrate_completion, narrate_layer_mark, probes_line,
    probes_text, records_line, records_text, relative_line, relative_text, window_line,
    window_text, CompletionReport, RemainingWork, NO_WINDOW,
};
use crate::number::Num;
use crate::plan::RecoveryPlan;
use crate::plrcfg::PlanConfig;
use crate::recovery_file::{
    join_path, path_in, plan_pointed, point_plan, trim_separators, without_separators, PlanBundle,
};
use crate::source::{machine_inputs, provides, source_narration, MachineInputs, MachineSource};
use crate::text::{same, texts, to_ascii_uppercase, uppercased};

verus! {

/// Every outcome the pipeline can reach. Only a plan can be executed.
#[derive(Debug, Clone, PartialEq)]
pub enum PipelineOutcome {
    /// The log ends with a deliberate end of the print.
    CleanShutdown,
    /// The log ends uncleanly, but the print had finished.
    Complete(CompletionReport),
    /// The printer's prerequisites failed; all failures.
    MachineRejected(Vec<String>),
    /// Automation declines; the operator must recover by hand.
    ManualFallback(String),
    /// No answer could be produced.
    NotPossible(String),
    /// A validated plan.
    Plan(PlanBundle),
}

/// What the log says.
#[derive(Debug)]
pub struct WalFacts {
    /// How many records it holds.
    pub records: u64,
    /// How it ends.
    pub tail: String,
    /// The sessions it spans, when more than one: all of them, the older ones
    /// left out, the newer ones left out.
    pub epochs: Option<(u64, u64, u64)>,
    /// The print file it names last.
    pub file: Option<String>,
}

/// The bytes of the print file that the stop lies in, both ends included.
#[derive(Debug, Clone, Copy, PartialEq, Eq, Structural)]
pub struct OffsetWindow {
    /// The first.
    pub start: u64,
    /// The last.
    pub end: u64,
}

/// What the reconstruction found.
#[derive(Debug)]
pub struct StopFacts {
    /// The start of the stop window, in seconds, as text.
    pub t_a: String,
    /// Its end.
    pub t_b: String,
    /// Its class.
    pub class: String,
    /// The bytes that the stop lies in, when they are known.
    pub window: Option<OffsetWindow>,
    /// Whether an XY region is known.
    pub has_xy: bool,
}

/// The result of the reconstruction.
#[derive(Debug)]
pub enum Reconstructed {
    /// The print was ended deliberately.
    CleanShutdown,
    /// There is something to recover.
    Recovery(StopFacts),
}

/// The context that the replay starts from.
#[derive(Debug, Clone, Copy)]
pub struct Anchor {
    /// Its place in the print file.
    pub file_position: Option<u64>,
    /// The slicer's layer mark.
    pub current_layer: Option<u32>,
    /// The slicer's layer count.
    pub total_layer: Option<u32>,
}

/// What the replay found.
#[derive(Debug)]
pub struct ModelFacts {
    /// How many layers.
    pub layers: u64,
    /// The layers of the offset window, in words.
    pub described: String,
    /// How many layers the offset window touches.
    pub window_layers: u64,
    /// Whether it begins before the first layer.
    pub before_first: bool,
    /// Whether the slicer's mark is consistent with those layers.
    pub consistent: bool,
}

/// The completion gate's verdict.
#[derive(Debug)]
pub enum GateVerdict {
    /// The print had finished.
    Complete(RemainingWork),
    /// The recovery must not be suppressed.
    MustNotSuppress {
        /// Why, when that is worth saying.
        reason: Option<String>,
        /// Whether the offsets in the log no longer address the file.
        invalidates_offsets: bool,
    },
}

/// A stop-point match.
#[derive(Debug)]
pub struct MatchFacts {
    /// How confident it is.
    pub confidence: String,
    /// How many candidates it has.
    pub candidates: u64,
    /// Whether it names one line.
    pub unique: bool,
}

/// A stop-point match that failed.
#[derive(Debug)]
pub enum MatchFailure {
    /// Many lines fit.
    Inconclusive {
        /// How many.
        lines: u64,
        /// On which layers.
        layers: Vec<u32>,
    },
    /// Anything else.
    Other(String),
}

/// How the match enters the plan.
#[derive(Debug, Clone, Copy, PartialEq, Eq, Structural)]
pub enum MatchKind {
    /// As it was found.
    Found,
    /// As a bare layer, in place of a match without a verdict.
    LayerOnly {
        /// The layer.
        layer: u32,
    },
}

/// The candidate resume points.
#[derive(Debug)]
pub enum PreviewResult {
    /// There are some.
    Stops,
    /// There are none.
    NoStops,
    /// They cannot be offered, for this reason.
    Declined(String),
}

/// The candidate resume points that go into the plan.
#[derive(Debug, Clone, Copy, PartialEq, Eq, Structural)]
pub enum PreviewUse {
    /// None.
    Without,
    /// The set that was built, with the layer mark its stops may be held
    /// against.
    With {
        /// The mark; withheld when the model does not number layers as the mark
        /// does.
        mark: Option<u32>,
    },
}

/// The probe sites.
#[derive(Debug)]
pub enum ContactFacts {
    /// Sites were found.
    Candidates {
        /// How many.
        count: u64,
        /// The X of the best one, as text.
        x: String,
        /// The Y of the best one, as text.
        y: String,
    },
    /// None can be chosen.
    Declined,
}

/// The plan builder's answer.
#[derive(Debug)]
pub enum Planned {
    /// There is nothing to recover.
    NoRecoveryNeeded,
    /// It declines, for this reason.
    ManualFallback(String),
    /// A plan.
    Plan(RecoveryPlan),
}

/// What the planning stages work on.
#[derive(Debug)]
pub struct Work {
    /// The path of the print file.
    pub path: String,
    /// Its bytes.
    pub bytes: Vec<u8>,
    /// What the reconstruction found.
    pub facts: StopFacts,
    /// What planning needs to know of the machine.
    pub inputs: MachineInputs,
}

/// Where the pipeline stands, and what it waits for.
#[derive(Debug)]
pub enum Pipeline {
    /// The log is to be read.
    Scan,
    /// The heartbeat is to be read.
    Heartbeat {
        /// The print file that the log names.
        file: Option<String>,
    },
    /// The print file is to be read.
    ReadFile {
        /// Its path.
        path: String,
    },
    /// The stop is to be reconstructed.
    Reconstruct {
        /// The print file that the log names, and what reading it gave.
        read: Option<(String, Result<Vec<u8>, String>)>,
    },
    /// The machine's configuration is to be found.
    Source {
        /// The path of the print file.
        path: String,
        /// Its bytes.
        bytes: Vec<u8>,
        /// What the reconstruction found.
        facts: StopFacts,
    },
    /// The machine is to be validated.
    Validate(Work),
    /// The context that the replay starts from is to be chosen.
    FindAnchor(Work),
    /// The print file is to be replayed.
    Model {
        /// What there is to work on.
        work: Work,
        /// The context.
        anchor: Anchor,
        /// Where the replay starts.
        base: u64,
    },
    /// The completion gate is to be asked.
    Gate {
        /// What there is to work on.
        work: Work,
        /// The context.
        anchor: Anchor,
        /// Where the replay starts.
        base: u64,
        /// The offset to test at.
        tested: u64,
    },
    /// The stop point is to be matched.
    Match {
        /// What there is to work on.
        work: Work,
        /// The context.
        anchor: Anchor,
        /// Where the replay starts.
        base: u64,
    },
    /// The candidate resume points are to be built.
    BuildPreview {
        /// What there is to work on.
        work: Work,
        /// The context.
        anchor: Anchor,
        /// Where the replay starts.
        base: u64,
        /// How the match enters the plan.
        kind: MatchKind,
    },
    /// The resume point is to be chosen.
    Resume {
        /// What there is to work on.
        work: Work,
        /// Where the replay starts.
        base: u64,
        /// How the match enters the plan.
        kind: MatchKind,
        /// The candidates that enter the plan.
        preview: PreviewUse,
    },
    /// A probe site is to be chosen.
    Contact {
        /// What there is to work on.
        work: Work,
        /// Where the replay starts.
        base: u64,
        /// How the match enters the plan.
        kind: MatchKind,
        /// The candidates that enter the plan.
        preview: PreviewUse,
        /// The layer that the print resumes on.
        layer: u32,
    },
    /// The plan is to be built.
    BuildPlan {
        /// What there is to work on.
        work: Work,
        /// Where the replay starts.
        base: u64,
        /// How the match enters the plan.
        kind: MatchKind,
        /// The candidates that enter the plan.
        preview: PreviewUse,
        /// Whether the clean-nozzle macro exists.
        clean_nozzle: bool,
        /// Whether the purge macro exists.
        purge: bool,
    },
    /// A free name for the recovery file is to be found.
    Name {
        /// What there is to work on.
        work: Work,
        /// The plan.
        plan: RecoveryPlan,
        /// The directory.
        root: String,
    },
    /// The recovery file is to be generated and checked.
    Generate {
        /// What there is to work on.
        work: Work,
        /// The plan.
        plan: RecoveryPlan,
        /// The directory.
        root: String,
    },
    /// The pipeline has its outcome.
    Done(PipelineOutcome),
    /// The log itself could not be read.
    Failed(String),
}

/// The result of one piece of outside work.
#[derive(Debug)]
pub enum PipelineEvent {
    /// The log was read, or not.
    Scanned(Result<WalFacts, String>),
    /// The heartbeat was read, or not.
    HeartbeatRead(Result<(), String>),
    /// The print file was read, or not.
    FileRead(Result<Vec<u8>, String>),
    /// The stop was reconstructed, or not.
    Reconstructed(Result<Reconstructed, String>),
    /// The machine's configuration was found.
    Sourced {
        /// Where it comes from.
        source: MachineSource,
        /// The state of the Klipper configuration file.
        file: ConfigFile,
    },
    /// The machine was validated, or these failures were found.
    Validated(Result<(), Vec<String>>),
    /// The context was chosen, if there is one.
    Anchored(Option<Anchor>),
    /// The print file was replayed, or not.
    Modeled(Result<ModelFacts, String>),
    /// The completion gate answered.
    Gated(GateVerdict),
    /// The stop point was matched, or not.
    Matched(Result<MatchFacts, MatchFailure>),
    /// The candidate resume points were built.
    Previewed(PreviewResult),
    /// The resume point was chosen, with its layer if it has one.
    Resumed(Result<Option<u32>, String>),
    /// A probe site was chosen, or not.
    Contacted(Result<ContactFacts, String>),
    /// The plan was built, or not.
    Planned(Result<Planned, String>),
    /// A name that is free.
    Named(String),
    /// The recovery file was generated and checked.
    Generated {
        /// Its content.
        content: Vec<u8>,
        /// Whether it heats only where it may.
        gate: Result<(), String>,
        /// Whether its coordinates are within the machine's limits.
        preflight: Result<(), String>,
    },
}

/// What the pipeline is set up with.
#[derive(Debug)]
pub struct Setup {
    /// The daemon's own `[machine]` section.
    pub section: MachineSection,
    /// The plan builder's defaults.
    pub defaults: PlanConfig,
}

/// The bytes of a type annotation stand at `i`.
pub open spec fn annotation_at(bytes: Seq<u8>, i: int) -> bool {
    &&& 0 <= i
    &&& i + 6 <= bytes.len()
    &&& bytes[i] == 0x3b
    &&& bytes[i + 1] == 0x54
    &&& bytes[i + 2] == 0x59
    &&& bytes[i + 3] == 0x50
    &&& bytes[i + 4] == 0x45
    &&& bytes[i + 5] == 0x3a
}

/// A type annotation (`;TYPE:`) stands somewhere in `bytes`.
pub open spec fn annotated(bytes: Seq<u8>) -> bool {
    exists|i: int| annotation_at(bytes, i)
}

/// Whether a print file carries type annotations.
pub fn contains_type_annotations(bytes: &[u8]) -> (r: bool)
    ensures
        r == annotated(bytes@),
{
    let n: usize = bytes.len();
    if n < 6 {
        assert forall|i: int| !annotation_at(bytes@, i) by {}
        return false;
    }
    let mut i: usize = 0;
    while i <= n - 6
        invariant
            n == bytes@.len(),
            6 <= n,
            0 <= i <= n - 5,
            forall|j: int| 0 <= j < i ==> !annotation_at(bytes@, j),
        decreases n - i,
    {
        if bytes[i] == 0x3b && bytes[i + 1] == 0x54 && bytes[i + 2] == 0x59 && bytes[i + 3] == 0x50
            && bytes[i + 4] == 0x45 && bytes[i + 5] == 0x3a {
            assert(annotation_at(bytes@, i as int));
            return true;
        }
        i = i + 1;
    }
    assert forall|j: int| !annotation_at(bytes@, j) by {
        if annotation_at(bytes@, j) {
            assert(j < i);
        }
    }
    false
}

/// `after` is the refusal `why`.
pub open spec fn impossible(after: Pipeline, why: Seq<char>) -> bool {
    after matches Pipeline::Done(PipelineOutcome::NotPossible(reason)) && reason@ == why
}

/// `after` hands over to the operator for the reason `why`.
pub open spec fn by_hand(after: Pipeline, why: Seq<char>) -> bool {
    after matches Pipeline::Done(PipelineOutcome::ManualFallback(reason)) && reason@ == why
}

/// Said when the stop cannot be matched at all.
pub const NO_REGION: &'static str = "the reconstruction has no XY region; stop-point matching is impossible (probe placement cannot be chosen automatically)";

/// Said when a resume point belongs to no layer.
pub const NO_LAYER: &'static str =
    "resume point has no layer attribution; contact selection impossible";

/// Said when the recovery file has nowhere to go.
pub const NO_ROOT: &'static str = "virtual_sdcard root unknown; cannot place the recovery file";

/// Said when the log names no print file.
pub const NO_FILE: &'static str = "no WAL context names a print file; nothing to resume";

/// Said when the file changed and nobody said how.
pub const FILE_CHANGED: &'static str = "the print file changed";

/// Where the replay from a context starts.
pub open spec fn base_of(anchor: Anchor) -> u64 {
    match anchor.file_position {
        Some(p) => p,
        None => 0,
    }
}

/// The pipeline once nothing suppresses the recovery: on to the match, if there
/// is anything to match.
pub open spec fn carries_on(work: Work, anchor: Anchor, base: u64, after: Pipeline) -> bool {
    if work.facts.has_xy {
        after == (Pipeline::Match { work, anchor, base })
    } else {
        by_hand(after, NO_REGION@)
    }
}

/// The macro `name` is among the known ones.
pub open spec fn known(macros: Seq<String>, name: Seq<char>) -> bool {
    texts(macros).contains(uppercased(name))
}

/// The layer that stands for a match without a verdict.
pub open spec fn first_layer(layers: Seq<u32>) -> u32 {
    if layers.len() > 0 {
        layers[0]
    } else {
        0
    }
}

/// The layer mark that a preview may be held against: only a model from the
/// start of the file numbers its layers as the mark does.
pub open spec fn usable_mark(anchor: Anchor, base: u64) -> Option<u32> {
    if base == 0 {
        anchor.current_layer
    } else {
        None
    }
}

/// `after` is the finished plan.
pub open spec fn bundled(
    work: Work,
    plan: RecoveryPlan,
    root: Seq<char>,
    content: Vec<u8>,
    after: Pipeline,
) -> bool {
    &&& after matches Pipeline::Done(PipelineOutcome::Plan(bundle))
    &&& bundle.plan == plan
    &&& bundle.file_path == work.path
    &&& bundle.machine == work.inputs.machine
    &&& bundle.recovery_file_content == content
    &&& bundle.recovery_file_path@ == path_in(root, plan.recovery_file.name@)
    &&& bundle.sdcard_root@ == root
    &&& bundle.recovery_source_name == plan.recovery_file.source_name
    &&& bundle.original_file_bytes == if plan.preview is Some {
        Some(work.bytes)
    } else {
        None
    }
}

/// `after` is where the pipeline stands once the log was read, or not.
pub open spec fn after_scan(result: Result<WalFacts, String>, after: Pipeline) -> bool {
    match result {
        Ok(facts) => after == (Pipeline::Heartbeat { file: facts.file }),
        Err(e) => after == Pipeline::Failed(e),
    }
}

/// `after` is where the pipeline stands once the stop was reconstructed, or not.
/// A deliberate end needs no print file; a recovery does.
pub open spec fn after_reconstruction(
    file: Option<(String, Result<Vec<u8>, String>)>,
    result: Result<Reconstructed, String>,
    after: Pipeline,
) -> bool {
    match result {
        Err(e) => impossible(after, "reconstruction failed: "@ + e@),
        Ok(Reconstructed::CleanShutdown) => after == Pipeline::Done(PipelineOutcome::CleanShutdown),
        Ok(Reconstructed::Recovery(facts)) => match file {
            None => impossible(after, NO_FILE@),
            Some((path, Err(e))) => impossible(
                after,
                "print file "@ + path@ + " unreadable: "@ + e@,
            ),
            Some((path, Ok(bytes))) => after == (Pipeline::Source { path, bytes, facts }),
        },
    }
}

/// `after` is where the pipeline stands once the machine's configuration was
/// found, or not.
pub open spec fn after_source(
    setup: Setup,
    path: String,
    bytes: Vec<u8>,
    facts: StopFacts,
    source: MachineSource,
    file: ConfigFile,
    after: Pipeline,
) -> bool {
    match source {
        MachineSource::Unavailable { reason } => impossible(
            after,
            "machine configuration unavailable: "@ + reason@,
        ),
        _ => {
            &&& after matches Pipeline::Validate(work)
            &&& work.path == path
            &&& work.bytes == bytes
            &&& work.facts == facts
            &&& provides(
                source,
                setup.section,
                file,
                annotated(bytes@),
                setup.defaults,
                work.inputs,
            )
        },
    }
}

/// `after` is where the pipeline stands once the context was chosen, or not.
pub open spec fn after_anchor(work: Work, chosen: Option<Anchor>, after: Pipeline) -> bool {
    match chosen {
        None => impossible(after, anchor_line(work.path@)),
        Some(anchor) => {
            let base = base_of(anchor);
            if base > usize::MAX {
                impossible(after, "context offset overflow"@)
            } else if base > work.bytes@.len() {
                impossible(after, beyond_line(base as nat, work.bytes@.len()))
            } else {
                after == (Pipeline::Model { work, anchor, base })
            }
        },
    }
}

/// `after` is where the pipeline stands once the file was replayed, or not.
pub open spec fn after_model(
    work: Work,
    anchor: Anchor,
    base: u64,
    result: Result<ModelFacts, String>,
    after: Pipeline,
) -> bool {
    match result {
        Err(e) => impossible(after, "WAL context state invalid: "@ + e@),
        Ok(_) => match work.facts.window {
            Some(window) => after == (Pipeline::Gate { work, anchor, base, tested: window.start }),
            None => carries_on(work, anchor, base, after),
        },
    }
}

/// `after` is where the pipeline stands once the completion gate answered.
pub open spec fn after_gate(
    work: Work,
    anchor: Anchor,
    base: u64,
    tested: u64,
    verdict: GateVerdict,
    after: Pipeline,
) -> bool {
    match verdict {
        GateVerdict::Complete(rest) => {
            &&& after matches Pipeline::Done(PipelineOutcome::Complete(report))
            &&& report.file == work.path
            &&& report.tested_offset == tested
            &&& report.file_size == work.bytes@.len()
            &&& report.work == rest
        },
        GateVerdict::MustNotSuppress { reason, invalidates_offsets } => if invalidates_offsets {
            impossible(
                after,
                match reason {
                    Some(r) => r@,
                    None => FILE_CHANGED@,
                },
            )
        } else {
            carries_on(work, anchor, base, after)
        },
    }
}

/// `after` is where the pipeline stands once the stop point was matched, or not.
/// One line leaves nothing to choose; anything coarser goes through the
/// candidates.
pub open spec fn after_match(
    work: Work,
    anchor: Anchor,
    base: u64,
    result: Result<MatchFacts, MatchFailure>,
    after: Pipeline,
) -> bool {
    match result {
        Ok(facts) => if facts.unique {
            after == (Pipeline::Resume {
                work,
                base,
                kind: MatchKind::Found,
                preview: PreviewUse::Without,
            })
        } else {
            after == (Pipeline::BuildPreview { work, anchor, base, kind: MatchKind::Found })
        },
        Err(MatchFailure::Inconclusive { lines, layers }) => after == (Pipeline::BuildPreview {
            work,
            anchor,
            base,
            kind: MatchKind::LayerOnly { layer: first_layer(layers@) },
        }),
        Err(MatchFailure::Other(e)) => by_hand(after, "stop-point match failed: "@ + e@),
    }
}

/// `after` is where the pipeline stands once the candidates were built.
pub open spec fn after_preview(
    work: Work,
    anchor: Anchor,
    base: u64,
    kind: MatchKind,
    result: PreviewResult,
    after: Pipeline,
) -> bool {
    match result {
        PreviewResult::Stops => after == (Pipeline::Resume {
            work,
            base,
            kind,
            preview: PreviewUse::With { mark: usable_mark(anchor, base) },
        }),
        PreviewResult::NoStops => after == (Pipeline::Resume {
            work,
            base,
            kind,
            preview: PreviewUse::Without,
        }),
        PreviewResult::Declined(why) => by_hand(after, declined_line(why@)),
    }
}

/// `after` is where the pipeline stands once the resume point was chosen, or not.
pub open spec fn after_resume(
    work: Work,
    base: u64,
    kind: MatchKind,
    preview: PreviewUse,
    result: Result<Option<u32>, String>,
    after: Pipeline,
) -> bool {
    match result {
        Err(e) => by_hand(after, "no safe resume point: "@ + e@),
        Ok(None) => by_hand(after, NO_LAYER@),
        Ok(Some(layer)) => after == (Pipeline::Contact { work, base, kind, preview, layer }),
    }
}

/// `after` is where the pipeline stands once a probe site was chosen, or not.
pub open spec fn after_contact(
    work: Work,
    base: u64,
    kind: MatchKind,
    preview: PreviewUse,
    result: Result<ContactFacts, String>,
    after: Pipeline,
) -> bool {
    match result {
        Err(e) => by_hand(after, "contact selection failed: "@ + e@),
        Ok(_) => after == (Pipeline::BuildPlan {
            work,
            base,
            kind,
            preview,
            clean_nozzle: known(
                work.inputs.macros@,
                work.inputs.plan_config.clean_nozzle_macro@,
            ),
            purge: match work.inputs.plan_config.purge_macro {
                Some(name) => known(work.inputs.macros@, name@),
                None => false,
            },
        }),
    }
}

/// `after` is where the pipeline stands once the plan was built, or not.
pub open spec fn after_plan(work: Work, result: Result<Planned, String>, after: Pipeline) -> bool {
    match result {
        Err(e) => impossible(after, "planning failed: "@ + e@),
        Ok(Planned::NoRecoveryNeeded) => after == Pipeline::Done(PipelineOutcome::CleanShutdown),
        Ok(Planned::ManualFallback(why)) => by_hand(after, "planner declined: "@ + why@),
        Ok(Planned::Plan(plan)) => match work.inputs.machine.virtual_sdcard_root {
            None => impossible(after, NO_ROOT@),
            Some(root) => {
                &&& after matches Pipeline::Name { work: w, plan: p, root: r }
                &&& w == work
                &&& p == plan
                &&& r@ == without_separators(root@)
            },
        },
    }
}

/// `after` is where the pipeline stands once a free name was found: when it is
/// another than the planned one, the plan is pointed at it.
pub open spec fn after_name(
    work: Work,
    plan: RecoveryPlan,
    root: String,
    name: String,
    after: Pipeline,
) -> bool {
    &&& after matches Pipeline::Generate { work: w, plan: p, root: r }
    &&& w == work
    &&& r == root
    &&& if name@ == plan.recovery_file.name@ {
        p == plan
    } else {
        plan_pointed(plan, p, Some(plan.recovery_file.name@), name@)
    }
}

/// `after` is where the pipeline stands once the file was generated.
pub open spec fn after_generation(
    work: Work,
    plan: RecoveryPlan,
    root: String,
    content: Vec<u8>,
    gate: Result<(), String>,
    preflight: Result<(), String>,
    after: Pipeline,
) -> bool {
    match (gate, preflight) {
        (Err(e), _) => impossible(
            after,
            "generated recovery file violates the heating gate: "@ + e@,
        ),
        (Ok(_), Err(e)) => impossible(
            after,
            "generated recovery file failed pre-flight: "@ + e@,
        ),
        (Ok(_), Ok(_)) => bundled(work, plan, root@, content, after),
    }
}

/// `after` is where the pipeline stands after `event`. A result that nobody
/// waited for changes nothing.
pub open spec fn follows(
    setup: Setup,
    before: Pipeline,
    event: PipelineEvent,
    after: Pipeline,
) -> bool {
    match (before, event) {
        (Pipeline::Scan, PipelineEvent::Scanned(result)) => after_scan(result, after),
        (Pipeline::Heartbeat { file }, PipelineEvent::HeartbeatRead(_)) => match file {
            Some(path) => after == (Pipeline::ReadFile { path }),
            None => after == (Pipeline::Reconstruct { read: None }),
        },
        (Pipeline::ReadFile { path }, PipelineEvent::FileRead(result)) => after
            == (Pipeline::Reconstruct { read: Some((path, result)) }),
        (Pipeline::Reconstruct { read }, PipelineEvent::Reconstructed(result)) => {
            after_reconstruction(read, result, after)
        },
        (
            Pipeline::Source { path, bytes, facts },
            PipelineEvent::Sourced { source, file },
        ) => after_source(setup, path, bytes, facts, source, file, after),
        (Pipeline::Validate(work), PipelineEvent::Validated(result)) => match result {
            Ok(_) => after == Pipeline::FindAnchor(work),
            Err(failures) => after == Pipeline::Done(PipelineOutcome::MachineRejected(failures)),
        },
        (Pipeline::FindAnchor(work), PipelineEvent::Anchored(chosen)) => after_anchor(
            work,
            chosen,
            after,
        ),
        (Pipeline::Model { work, anchor, base }, PipelineEvent::Modeled(result)) => after_model(
            work,
            anchor,
            base,
            result,
            after,
        ),
        (
            Pipeline::Gate { work, anchor, base, tested },
            PipelineEvent::Gated(verdict),
        ) => after_gate(work, anchor, base, tested, verdict, after),
        (Pipeline::Match { work, anchor, base }, PipelineEvent::Matched(result)) => after_match(
            work,
            anchor,
            base,
            result,
            after,
        ),
        (
            Pipeline::BuildPreview { work, anchor, base, kind },
            PipelineEvent::Previewed(result),
        ) => after_preview(work, anchor, base, kind, result, after),
        (
            Pipeline::Resume { work, base, kind, preview },
            PipelineEvent::Resumed(result),
        ) => after_resume(work, base, kind, preview, result, after),
        (
            Pipeline::Contact { work, base, kind, preview, layer },
            PipelineEvent::Contacted(result),
        ) => after_contact(work, base, kind, preview, result, after),
        (Pipeline::BuildPlan { work, .. }, PipelineEvent::Planned(result)) => after_plan(
            work,
            result,
            after,
        ),
        (Pipeline::Name { work, plan, root }, PipelineEvent::Named(name)) => after_name(
            work,
            plan,
            root,
            name,
            after,
        ),
        (
            Pipeline::Generate { work, plan, root },
            PipelineEvent::Generated { content, gate, preflight },
        ) => after_generation(work, plan, root, content, gate, preflight, after),
        _ => after == before,
    }
}

/// What is said of the layers of the stop.
pub open spec fn attribution(
    facts: StopFacts,
    anchor: Anchor,
    base: u64,
    model: ModelFacts,
) -> Seq<Seq<char>> {
    match facts.window {
        None => seq![NO_WINDOW@],
        Some(w) => seq![
            if base == 0 {
                absolute_line(model.described@, w.start as nat, w.end as nat)
            } else {
                relative_line(
                    model.window_layers as nat,
                    if model.before_first {
                        " plus the pre-first-layer preamble"@
                    } else {
                        ""@
                    },
                    w.start as nat,
                    w.end as nat,
                    base as nat,
                )
            },
            mark_lines(anchor.current_layer, anchor.total_layer, base == 0, model.consistent),
        ],
    }
}

/// What the pipeline says when `event` reaches it, a line each.
pub open spec fn says(before: Pipeline, event: PipelineEvent) -> Seq<Seq<char>> {
    match (before, event) {
        (Pipeline::Scan, PipelineEvent::Scanned(Ok(facts))) => {
            let read = records_line(facts.records as nat, facts.tail@);
            match facts.epochs {
                Some((all, older, newer)) => seq![
                    read,
                    epochs_line(all as nat, older as nat, newer as nat),
                ],
                None => seq![read],
            }
        },
        (Pipeline::Heartbeat { .. }, PipelineEvent::HeartbeatRead(Err(why))) => seq![
            "pipeline: "@ + why@,
        ],
        (Pipeline::ReadFile { path }, PipelineEvent::FileRead(Ok(bytes))) => seq![
            file_line(path@, bytes@.len()),
        ],
        (
            Pipeline::Reconstruct { read: Some((_, Ok(_))) },
            PipelineEvent::Reconstructed(Ok(Reconstructed::Recovery(facts))),
        ) => seq![window_line(facts.t_a@, facts.t_b@, facts.class@)],
        (Pipeline::Source { .. }, PipelineEvent::Sourced { source, .. }) => source_narration(
            source,
        ),
        (Pipeline::Validate(work), PipelineEvent::Validated(result)) => match result {
            Ok(_) => seq!["pipeline: machine prerequisites validated"@],
            Err(_) => if work.inputs.legacy {
                seq!["pipeline: machine hash computed: "@ + work.inputs.machine.config_hash@]
            } else {
                Seq::empty()
            },
        },
        (Pipeline::Model { work, anchor, base }, PipelineEvent::Modeled(Ok(model))) => seq![
            model_line(base as nat, model.layers as nat),
        ] + attribution(work.facts, anchor, base, model),
        (Pipeline::Gate { work, tested, .. }, PipelineEvent::Gated(verdict)) => match verdict {
            GateVerdict::Complete(rest) => completed_lines(
                CompletionReport {
                    file: work.path,
                    tested_offset: tested,
                    file_size: work.bytes@.len() as u64,
                    work: rest,
                },
            ),
            GateVerdict::MustNotSuppress { reason, invalidates_offsets } => match reason {
                Some(why) => if invalidates_offsets {
                    seq!["pipeline: "@ + why@]
                } else {
                    seq!["pipeline: completion gate cannot suppress: "@ + why@]
                },
                None => if invalidates_offsets {
                    seq!["pipeline: "@ + FILE_CHANGED@]
                } else {
                    Seq::empty()
                },
            },
        },
        (Pipeline::Match { .. }, PipelineEvent::Matched(Ok(facts))) => seq![
            matched_line(facts.confidence@, facts.candidates as nat),
        ],
        (
            Pipeline::Match { .. },
            PipelineEvent::Matched(Err(MatchFailure::Inconclusive { lines, layers })),
        ) => seq![inconclusive_line(lines as nat, layer_list(layers@))],
        (
            Pipeline::Contact { .. },
            PipelineEvent::Contacted(Ok(ContactFacts::Candidates { count, x, y })),
        ) => seq![probes_line(count as nat, x@, y@)],
        (Pipeline::Name { plan, .. }, PipelineEvent::Named(name)) => if name@
            == plan.recovery_file.name@ {
            Seq::empty()
        } else {
            seq!["pipeline: recovery file name collided; using "@ + name@]
        },
        _ => Seq::empty(),
    }
}

fn refuse(before: &str, why: &str) -> (r: Pipeline)
    ensures
        impossible(r, before@ + why@),
{
    let mut out = before.to_owned();
    out.append(why);
    Pipeline::Done(PipelineOutcome::NotPossible(out))
}

fn hand_over(before: &str, why: &str) -> (r: Pipeline)
    ensures
        by_hand(r, before@ + why@),
{
    let mut out = before.to_owned();
    out.append(why);
    Pipeline::Done(PipelineOutcome::ManualFallback(out))
}

pub(crate) fn say(lines: &mut Vec<String>, line: String)
    ensures
        texts(final(lines)@) == texts(old(lines)@) + seq![line@],
{
    let ghost given = texts(lines@);
    lines.push(line);
    assert(texts(lines@) =~= given + seq![line@]);
}

pub(crate) fn say_two(lines: &mut Vec<String>, before: &str, text: &str)
    ensures
        texts(final(lines)@) == texts(old(lines)@) + seq![before@ + text@],
{
    let mut out = before.to_owned();
    out.append(text);
    say(lines, out);
}

fn carry_on(work: Work, anchor: Anchor, base: u64) -> (r: Pipeline)
    ensures
        carries_on(work, anchor, base, r),
{
    if work.facts.has_xy {
        Pipeline::Match { work, anchor, base }
    } else {
        Pipeline::Done(PipelineOutcome::ManualFallback(NO_REGION.to_owned()))
    }
}

fn is_known(macros: &Vec<String>, name: &str) -> (r: bool)
    ensures
        r == known(macros@, name@),
{
    let upper = to_ascii_uppercase(name);
    let mut i: usize = 0;
    while i < macros.len()
        invariant
            0 <= i <= macros@.len(),
            upper@ == uppercased(name@),
            forall|j: int| 0 <= j < i ==> (#[trigger] macros@[j])@ != upper@,
        decreases macros@.len() - i,
    {
        if same(macros[i].as_str(), upper.as_str()) {
            assert(texts(macros@)[i as int] == upper@);
            return true;
        }
        i = i + 1;
    }
    assert(!texts(macros@).contains(upper@));
    false
}

/// Narrates the layers of the stop.
fn narrate_layer_attribution(
    facts: &StopFacts,
    anchor: Anchor,
    base: u64,
    model: &ModelFacts,
    lines: &mut Vec<String>,
)
    ensures
        texts(final(lines)@) == texts(old(lines)@) + attribution(*facts, anchor, base, *model),
{
    let ghost given = texts(lines@);
    match facts.window {
        None => {
            say(lines, NO_WINDOW.to_owned());
        },
        Some(w) => {
            if base == 0 {
                say(lines, absolute_text(model.described.as_str(), w.start, w.end));
            } else {
                let preamble = if model.before_first {
                    " plus the pre-first-layer preamble"
                } else {
                    ""
                };
                say(lines, relative_text(model.window_layers, preamble, w.start, w.end, base));
            }
            say(
                lines,
                narrate_layer_mark(
                    anchor.current_layer,
                    anchor.total_layer,
                    base == 0,
                    model.consistent,
                ),
            );
        },
    }
    assert(texts(lines@) =~= given + attribution(*facts, anchor, base, *model));
}

impl Pipeline {
    /// The pipeline as it starts.
    pub fn start() -> (r: Self)
        ensures
            r == Pipeline::Scan,
    {
        Pipeline::Scan
    }

    /// Takes the result of one piece of outside work.
    pub fn on_event(self, setup: &Setup, event: PipelineEvent, lines: &mut Vec<String>) -> (r: Self)
        ensures
            follows(*setup, self, event, r),
            texts(final(lines)@) == texts(old(lines)@) + says(self, event),
    {
        let ghost given = texts(lines@);
        assert(given + Seq::<Seq<char>>::empty() =~= given);
        match (self, event) {
            (Pipeline::Scan, PipelineEvent::Scanned(result)) => on_scan(result, lines),
            (Pipeline::Heartbeat { file }, PipelineEvent::HeartbeatRead(result)) => {
                if let Err(why) = result {
                    say_two(lines, "pipeline: ", why.as_str());
                }
                match file {
                    Some(path) => Pipeline::ReadFile { path },
                    None => Pipeline::Reconstruct { read: None },
                }
            },
            (Pipeline::ReadFile { path }, PipelineEvent::FileRead(result)) => {
                if let Ok(bytes) = &result {
                    assert(bytes@.len() == bytes.len());
                    say(lines, file_text(path.as_str(), bytes.len() as u64));
                }
                Pipeline::Reconstruct { read: Some((path, result)) }
            },
            (Pipeline::Reconstruct { read }, PipelineEvent::Reconstructed(result)) => {
                on_reconstruction(read, result, lines)
            },
            (
                Pipeline::Source { path, bytes, facts },
                PipelineEvent::Sourced { source, file },
            ) => on_source(setup, path, bytes, facts, source, file, lines),
            (Pipeline::Validate(work), PipelineEvent::Validated(result)) => match result {
                Ok(_) => {
                    say(lines, "pipeline: machine prerequisites validated".to_owned());
                    Pipeline::FindAnchor(work)
                },
                Err(failures) => {
                    if work.inputs.legacy {
                        say_two(
                            lines,
                            "pipeline: machine hash computed: ",
                            work.inputs.machine.config_hash.as_str(),
                        );
                    }
                    Pipeline::Done(PipelineOutcome::MachineRejected(failures))
                },
            },
            (Pipeline::FindAnchor(work), PipelineEvent::Anchored(chosen)) => on_anchor(
                work,
                chosen,
            ),
            (Pipeline::Model { work, anchor, base }, PipelineEvent::Modeled(result)) => on_model(
                work,
                anchor,
                base,
                result,
                lines,
            ),
            (
                Pipeline::Gate { work, anchor, base, tested },
                PipelineEvent::Gated(verdict),
            ) => on_gate(work, anchor, base, tested, verdict, lines),
            (Pipeline::Match { work, anchor, base }, PipelineEvent::Matched(result)) => on_match(
                work,
                anchor,
                base,
                result,
                lines,
            ),
            (
                Pipeline::BuildPreview { work, anchor, base, kind },
                PipelineEvent::Previewed(result),
            ) => match result {
                PreviewResult::Stops => {
                    let mark = if base == 0 {
                        anchor.current_layer
                    } else {
                        None
                    };
                    Pipeline::Resume { work, base, kind, preview: PreviewUse::With { mark } }
                },
                PreviewResult::NoStops => Pipeline::Resume {
                    work,
                    base,
                    kind,
                    preview: PreviewUse::Without,
                },
                PreviewResult::Declined(why) => Pipeline::Done(
                    PipelineOutcome::ManualFallback(declined_text(why.as_str())),
                ),
            },
            (
                Pipeline::Resume { work, base, kind, preview },
                PipelineEvent::Resumed(result),
            ) => match result {
                Err(e) => hand_over("no safe resume point: ", e.as_str()),
                Ok(None) => Pipeline::Done(PipelineOutcome::ManualFallback(NO_LAYER.to_owned())),
                Ok(Some(layer)) => Pipeline::Contact { work, base, kind, preview, layer },
            },
            (
                Pipeline::Contact { work, base, kind, preview, layer },
                PipelineEvent::Contacted(result),
            ) => on_contact(work, base, kind, preview, result, lines),
            (Pipeline::BuildPlan { work, .. }, PipelineEvent::Planned(result)) => on_plan(
                work,
                result,
            ),
            (Pipeline::Name { work, plan, root }, PipelineEvent::Named(name)) => on_name(
                work,
                plan,
                root,
                name,
                lines,
            ),
            (
                Pipeline::Generate { work, plan, root },
                PipelineEvent::Generated { content, gate, preflight },
            ) => on_generation(work, plan, root, content, gate, preflight),
            (stage, _) => stage,
        }
    }
}

fn on_scan(result: Result<WalFacts, String>, lines: &mut Vec<String>) -> (r: Pipeline)
    ensures
        after_scan(result, r),
        texts(final(lines)@) == texts(old(lines)@) + says(
            Pipeline::Scan,
            PipelineEvent::Scanned(result),
        ),
{
    let ghost given = texts(lines@);
    match result {
        Ok(facts) => {
            say(lines, records_text(facts.records, facts.tail.as_str()));
            if let Some((all, older, newer)) = facts.epochs {
                say(lines, epochs_text(all, older, newer));
            }
            assert(texts(lines@) =~= given + says(
                Pipeline::Scan,
                PipelineEvent::Scanned(result),
            ));
            Pipeline::Heartbeat { file: facts.file }
        },
        Err(e) => {
            assert(given + Seq::<Seq<char>>::empty() =~= given);
            Pipeline::Failed(e)
        },
    }
}

fn on_reconstruction(
    file: Option<(String, Result<Vec<u8>, String>)>,
    result: Result<Reconstructed, String>,
    lines: &mut Vec<String>,
) -> (r: Pipeline)
    ensures
        after_reconstruction(file, result, r),
        texts(final(lines)@) == texts(old(lines)@) + says(
            Pipeline::Reconstruct { read: file },
            PipelineEvent::Reconstructed(result),
        ),
{
    let ghost given = texts(lines@);
    assert(given + Seq::<Seq<char>>::empty() =~= given);
    match result {
        Err(e) => refuse("reconstruction failed: ", e.as_str()),
        Ok(Reconstructed::CleanShutdown) => Pipeline::Done(PipelineOutcome::CleanShutdown),
        Ok(Reconstructed::Recovery(facts)) => match file {
            None => Pipeline::Done(PipelineOutcome::NotPossible(NO_FILE.to_owned())),
            Some((path, Err(e))) => {
                let mut out = "print file ".to_owned();
                out.append(path.as_str());
                out.append(" unreadable: ");
                out.append(e.as_str());
                Pipeline::Done(PipelineOutcome::NotPossible(out))
            },
            Some((path, Ok(bytes))) => {
                say(
                    lines,
                    window_text(facts.t_a.as_str(), facts.t_b.as_str(), facts.class.as_str()),
                );
                Pipeline::Source { path, bytes, facts }
            },
        },
    }
}

fn on_source(
    setup: &Setup,
    path: String,
    bytes: Vec<u8>,
    facts: StopFacts,
    source: MachineSource,
    file: ConfigFile,
    lines: &mut Vec<String>,
) -> (r: Pipeline)
    ensures
        after_source(*setup, path, bytes, facts, source, file, r),
        texts(final(lines)@) == texts(old(lines)@) + source_narration(source),
{
    let annotated = contains_type_annotations(bytes.as_slice());
    match machine_inputs(&source, &setup.section, &file, annotated, &setup.defaults, lines) {
        Ok(inputs) => Pipeline::Validate(Work { path, bytes, facts, inputs }),
        Err(reason) => Pipeline::Done(PipelineOutcome::NotPossible(reason)),
    }
}

fn on_anchor(work: Work, chosen: Option<Anchor>) -> (r: Pipeline)
    ensures
        after_anchor(work, chosen, r),
{
    match chosen {
        None => Pipeline::Done(PipelineOutcome::NotPossible(anchor_text(work.path.as_str()))),
        Some(anchor) => {
            let base = match anchor.file_position {
                Some(p) => p,
                None => 0,
            };
            assert(work.bytes@.len() == work.bytes.len());
            if base > usize::MAX as u64 {
                Pipeline::Done(PipelineOutcome::NotPossible("context offset overflow".to_owned()))
            } else if base > work.bytes.len() as u64 {
                Pipeline::Done(
                    PipelineOutcome::NotPossible(beyond_text(base, work.bytes.len() as u64)),
                )
            } else {
                Pipeline::Model { work, anchor, base }
            }
        },
    }
}

fn on_model(
    work: Work,
    anchor: Anchor,
    base: u64,
    result: Result<ModelFacts, String>,
    lines: &mut Vec<String>,
) -> (r: Pipeline)
    ensures
        after_model(work, anchor, base, result, r),
        texts(final(lines)@) == texts(old(lines)@) + says(
            Pipeline::Model { work, anchor, base },
            PipelineEvent::Modeled(result),
        ),
{
    let ghost given = texts(lines@);
    assert(given + Seq::<Seq<char>>::empty() =~= given);
    match result {
        Err(e) => refuse("WAL context state invalid: ", e.as_str()),
        Ok(model) => {
            say(lines, model_text(base, model.layers));
            narrate_layer_attribution(&work.facts, anchor, base, &model, lines);
            assert(texts(lines@) =~= given + says(
                Pipeline::Model { work, anchor, base },
                PipelineEvent::Modeled(result),
            ));
            match work.facts.window {
                Some(window) => Pipeline::Gate { work, anchor, base, tested: window.start },
                None => carry_on(work, anchor, base),
            }
        },
    }
}

fn on_gate(
    work: Work,
    anchor: Anchor,
    base: u64,
    tested: u64,
    verdict: GateVerdict,
    lines: &mut Vec<String>,
) -> (r: Pipeline)
    ensures
        after_gate(work, anchor, base, tested, verdict, r),
        texts(final(lines)@) == texts(old(lines)@) + says(
            Pipeline::Gate { work, anchor, base, tested },
            PipelineEvent::Gated(verdict),
        ),
{
    let ghost given = texts(lines@);
    assert(given + Seq::<Seq<char>>::empty() =~= given);
    match verdict {
        GateVerdict::Complete(rest) => {
            assert(work.bytes@.len() == work.bytes.len());
            let report = CompletionReport {
                file: work.path,
                tested_offset: tested,
                file_size: work.bytes.len() as u64,
                work: rest,
            };
            narrate_completion(&report, lines);
            Pipeline::Done(PipelineOutcome::Complete(report))
        },
        GateVerdict::MustNotSuppress { reason, invalidates_offsets } => {
            if invalidates_offsets {
                let why = match reason {
                    Some(why) => why,
                    None => FILE_CHANGED.to_owned(),
                };
                say_two(lines, "pipeline: ", why.as_str());
                Pipeline::Done(PipelineOutcome::NotPossible(why))
            } else {
                if let Some(why) = reason {
                    say_two(lines, "pipeline: completion gate cannot suppress: ", why.as_str());
                }
                carry_on(work, anchor, base)
            }
        },
    }
}

fn on_match(
    work: Work,
    anchor: Anchor,
    base: u64,
    result: Result<MatchFacts, MatchFailure>,
    lines: &mut Vec<String>,
) -> (r: Pipeline)
    ensures
        after_match(work, anchor, base, result, r),
        texts(final(lines)@) == texts(old(lines)@) + says(
            Pipeline::Match { work, anchor, base },
            PipelineEvent::Matched(result),
        ),
{
    let ghost given = texts(lines@);
    assert(given + Seq::<Seq<char>>::empty() =~= given);
    match result {
        Ok(facts) => {
            say(lines, matched_text(facts.confidence.as_str(), facts.candidates));
            if facts.unique {
                Pipeline::Resume {
                    work,
                    base,
                    kind: MatchKind::Found,
                    preview: PreviewUse::Without,
                }
            } else {
                Pipeline::BuildPreview { work, anchor, base, kind: MatchKind::Found }
            }
        },
        Err(MatchFailure::Inconclusive { lines: count, layers }) => {
            let list = list_layers(&layers);
            say(lines, inconclusive_text(count, list.as_str()));
            let layer: u32 = if layers.len() > 0 {
                layers[0]
            } else {
                0
            };
            Pipeline::BuildPreview { work, anchor, base, kind: MatchKind::LayerOnly { layer } }
        },
        Err(MatchFailure::Other(e)) => hand_over("stop-point match failed: ", e.as_str()),
    }
}

fn on_contact(
    work: Work,
    base: u64,
    kind: MatchKind,
    preview: PreviewUse,
    result: Result<ContactFacts, String>,
    lines: &mut Vec<String>,
) -> (r: Pipeline)
    ensures
        after_contact(work, base, kind, preview, result, r),
        texts(final(lines)@) == texts(old(lines)@) + (match result {
            Ok(ContactFacts::Candidates { count, x, y }) => seq![
                probes_line(count as nat, x@, y@),
            ],
            _ => Seq::empty(),
        }),
{
    let ghost given = texts(lines@);
    assert(given + Seq::<Seq<char>>::empty() =~= given);
    match result {
        Err(e) => hand_over("contact selection failed: ", e.as_str()),
        Ok(contact) => {
            match contact {
                ContactFacts::Candidates { count, x, y } => {
                    say(lines, probes_text(count, x.as_str(), y.as_str()));
                },
                ContactFacts::Declined => {},
            }
            let clean_nozzle = is_known(
                &work.inputs.macros,
                work.inputs.plan_config.clean_nozzle_macro.as_str(),
            );
            let purge = match &work.inputs.plan_config.purge_macro {
                Some(name) => is_known(&work.inputs.macros, name.as_str()),
                None => false,
            };
            Pipeline::BuildPlan { work, base, kind, preview, clean_nozzle, purge }
        },
    }
}

fn on_plan(work: Work, result: Result<Planned, String>) -> (r: Pipeline)
    ensures
        after_plan(work, result, r),
{
    match result {
        Err(e) => refuse("planning failed: ", e.as_str()),
        Ok(Planned::NoRecoveryNeeded) => Pipeline::Done(PipelineOutcome::CleanShutdown),
        Ok(Planned::ManualFallback(why)) => hand_over("planner declined: ", why.as_str()),
        Ok(Planned::Plan(plan)) => {
            let root = match &work.inputs.machine.virtual_sdcard_root {
                None => {
                    return Pipeline::Done(PipelineOutcome::NotPossible(NO_ROOT.to_owned()));
                },
                Some(root) => trim_separators(root.as_str()),
            };
            Pipeline::Name { work, plan, root }
        },
    }
}

fn on_name(
    work: Work,
    plan: RecoveryPlan,
    root: String,
    name: String,
    lines: &mut Vec<String>,
) -> (r: Pipeline)
    ensures
        after_name(work, plan, root, name, r),
        texts(final(lines)@) == texts(old(lines)@) + says(
            Pipeline::Name { work, plan, root },
            PipelineEvent::Named(name),
        ),
{
    let ghost given = texts(lines@);
    assert(given + Seq::<Seq<char>>::empty() =~= given);
    let mut plan = plan;
    if !same(name.as_str(), plan.recovery_file.name.as_str()) {
        say_two(lines, "pipeline: recovery file name collided; using ", name.as_str());
        let planned = plan.recovery_file.name.clone();
        point_plan(&mut plan, Some(planned.as_str()), name.as_str());
    }
    Pipeline::Generate { work, plan, root }
}

fn on_generation(
    work: Work,
    plan: RecoveryPlan,
    root: String,
    content: Vec<u8>,
    gate: Result<(), String>,
    preflight: Result<(), String>,
) -> (r: Pipeline)
    ensures
        after_generation(work, plan, root, content, gate, preflight, r),
{
    if let Err(e) = gate {
        return refuse("generated recovery file violates the heating gate: ", e.as_str());
    }
    if let Err(e) = preflight {
        return refuse("generated recovery file failed pre-flight: ", e.as_str());
    }
    let recovery_file_path = join_path(root.as_str(), plan.recovery_file.name.as_str());
    let recovery_source_name = plan.recovery_file.source_name.clone();
    let original_file_bytes = if plan.preview.is_some() {
        Some(work.bytes)
    } else {
        None
    };
    Pipeline::Done(
        PipelineOutcome::Plan(
            PlanBundle {
                plan,
                file_path: work.path,
                machine: work.inputs.machine,
                recovery_file_content: content,
                recovery_file_path,
                sdcard_root: root,
                recovery_source_name,
                original_file_bytes,
            },
        ),
    )
}

/// Where to look for the stop: from the start of its window up to just behind
/// its end, or, when no window is known, from the start of the replay on.
pub open spec fn searched(window: Option<OffsetWindow>, base: u64) -> (u64, Option<u64>) {
    match window {
        Some(w) => (
            w.start,
            Some(
                if w.end < u64::MAX {
                    (w.end + 1) as u64
                } else {
                    u64::MAX
                },
            ),
        ),
        None => (base, None),
    }
}

/// Where to look for the stop: the first byte, and the first one behind, if there
/// is an end.
pub fn search_window(window: Option<OffsetWindow>, base: u64) -> (r: (u64, Option<u64>))
    ensures
        r == searched(window, base),
{
    match window {
        Some(w) => (w.start, Some(w.end.saturating_add(1))),
        None => (base, None),
    }
}

/// A range of numbers.
#[derive(Debug, Clone, Copy, PartialEq, Eq, Structural)]
pub struct Interval {
    /// Its lower end.
    pub lo: Num,
    /// Its upper end.
    pub hi: Num,
}

/// A height at which the print can have stopped.
#[derive(Debug, Clone, Copy, PartialEq, Eq, Structural)]
pub struct ZCandidate {
    /// The range.
    pub z: Interval,
    /// Its middle.
    pub mid: Num,
    /// Whether its ends are apart, beyond rounding.
    pub wide: bool,
}

/// Where the print can have stopped.
#[derive(Debug)]
pub struct PossibleStops {
    /// The region, X and Y, when it is known.
    pub xy: Option<(Interval, Interval)>,
    /// The heights.
    pub z_candidates: Vec<ZCandidate>,
    /// The extruder's range.
    pub e: Option<Interval>,
    /// The bytes of the print file.
    pub window: Option<OffsetWindow>,
}

/// What the stop point is matched against.
#[derive(Debug)]
pub struct StopEvidence {
    /// The X range.
    pub x: Interval,
    /// The Y range.
    pub y: Interval,
    /// The extruder's range.
    pub e: Option<Interval>,
    /// The heights.
    pub z_candidates: Vec<Num>,
    /// Where to look: the first byte, and the first one behind.
    pub window: (u64, Option<u64>),
}

/// The heights of the first `n` candidates: one of a point, both ends and the
/// middle of a range.
pub open spec fn heights(candidates: Seq<ZCandidate>, n: nat) -> Seq<Num>
    decreases n,
{
    if n == 0 {
        Seq::empty()
    } else {
        let c = candidates[n - 1];
        heights(candidates, (n - 1) as nat) + if c.wide {
            seq![c.z.lo, c.z.hi, c.mid]
        } else {
            seq![c.z.lo]
        }
    }
}

/// What the stop point is matched against; nothing without an XY region, where
/// matching would be meaningless.
pub fn stop_evidence(stops: &PossibleStops, base: u64) -> (r: Option<StopEvidence>)
    ensures
        match stops.xy {
            None => r is None,
            Some((x, y)) => {
                &&& r matches Some(evidence)
                &&& evidence.x == x
                &&& evidence.y == y
                &&& evidence.e == stops.e
                &&& evidence.z_candidates@ == heights(
                    stops.z_candidates@,
                    stops.z_candidates@.len(),
                )
                &&& evidence.window == searched(stops.window, base)
            },
        },
{
    let (x, y) = match stops.xy {
        Some(pair) => pair,
        None => {
            return None;
        },
    };
    let mut out: Vec<Num> = Vec::new();
    let mut i: usize = 0;
    assert(out@ =~= heights(stops.z_candidates@, 0));
    while i < stops.z_candidates.len()
        invariant
            0 <= i <= stops.z_candidates@.len(),
            out@ == heights(stops.z_candidates@, i as nat),
        decreases stops.z_candidates@.len() - i,
    {
        let c = stops.z_candidates[i];
        let ghost before = out@;
        out.push(c.z.lo);
        if c.wide {
            out.push(c.z.hi);
            out.push(c.mid);
            assert(out@ =~= before + seq![c.z.lo, c.z.hi, c.mid]);
        } else {
            assert(out@ =~= before + seq![c.z.lo]);
        }
        i = i + 1;
    }
    Some(
        StopEvidence {
            x,
            y,
            e: stops.e,
            z_candidates: out,
            window: search_window(stops.window, base),
        },
    )
}

} // verus!
