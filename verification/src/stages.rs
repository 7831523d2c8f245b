//! What each stage of the pipeline may do with the result it waits for.

use vstd::prelude::*;

use crate::number::Num;
use crate::passage::ran;
use crate::pipeline::{
    annotated, annotation_at, follows, heights, searched, Anchor, GateVerdict, MatchFailure,
    MatchKind, OffsetWindow, Pipeline, PipelineEvent, PipelineOutcome, Planned, PreviewResult,
    PreviewUse, Reconstructed, Setup, Work, ZCandidate,
};
use crate::recovery_file::{path_in, pointed, selects, step_pointed, without_separators};
use crate::source::{provides, MachineSource};
use crate::text::{texts, uppercased};

verus! {

/// The macro `name`, written in upper case, is in the list.
pub open spec fn lists(macros: Seq<String>, name: Seq<char>) -> bool {
    exists|i: int| 0 <= i < macros.len() && (#[trigger] macros[i])@ == uppercased(name)
}

proof fn lemma_lists(macros: Seq<String>, name: Seq<char>)
    ensures
        texts(macros).contains(uppercased(name)) <==> lists(macros, name),
{
    let all = texts(macros);
    if all.contains(uppercased(name)) {
        let i = choose|i: int| 0 <= i < all.len() && all[i] == uppercased(name);
        assert(macros[i]@ == uppercased(name));
    }
    if lists(macros, name) {
        let i = choose|i: int| 0 <= i < macros.len() && (#[trigger] macros[i])@ == uppercased(name);
        assert(all[i] == uppercased(name));
    }
}

/// A plan is built with a purge exactly when a purge macro is configured and that
/// macro, by its own name in upper case, is among the known ones; and with a
/// cleaning of the nozzle exactly when the clean-nozzle macro is.
pub proof fn each_macro_is_looked_for_by_its_own_name(
    setup: Setup,
    before: Pipeline,
    event: PipelineEvent,
    after: Pipeline,
)
    requires
        follows(setup, before, event, after),
        before is Contact,
        event matches PipelineEvent::Contacted(Ok(_)),
    ensures
        before matches Pipeline::Contact { work, base, kind, preview, layer } && {
            &&& after matches Pipeline::BuildPlan {
                work: w,
                base: b,
                kind: k,
                preview: p,
                clean_nozzle,
                purge,
            }
            &&& w == work && b == base && k == kind && p == preview
            &&& purge <==> (work.inputs.plan_config.purge_macro matches Some(name) && lists(
                work.inputs.macros@,
                name@,
            ))
            &&& clean_nozzle <==> lists(
                work.inputs.macros@,
                work.inputs.plan_config.clean_nozzle_macro@,
            )
        },
{
    if let Pipeline::Contact { work, .. } = before {
        lemma_lists(work.inputs.macros@, work.inputs.plan_config.clean_nozzle_macro@);
        if let Some(name) = work.inputs.plan_config.purge_macro {
            lemma_lists(work.inputs.macros@, name@);
        }
    }
}

/// No other macro makes a difference: two printers that both know the purge macro,
/// or both do not, get the same purge, whatever else they know.
pub proof fn no_other_macro_counts_for_the_purge(
    setup: Setup,
    one: Pipeline,
    other: Pipeline,
    told: PipelineEvent,
    also_told: PipelineEvent,
    after_one: Pipeline,
    after_other: Pipeline,
)
    requires
        one is Contact && other is Contact,
        told matches PipelineEvent::Contacted(Ok(_)),
        also_told matches PipelineEvent::Contacted(Ok(_)),
        follows(setup, one, told, after_one),
        follows(setup, other, also_told, after_other),
        ({
            let a = one->Contact_work.inputs;
            let b = other->Contact_work.inputs;
            &&& a.plan_config.purge_macro is Some
            &&& b.plan_config.purge_macro is Some
            &&& a.plan_config.purge_macro->0@ == b.plan_config.purge_macro->0@
            &&& lists(a.macros@, a.plan_config.purge_macro->0@) == lists(
                b.macros@,
                b.plan_config.purge_macro->0@,
            )
        }),
    ensures
        after_one is BuildPlan && after_other is BuildPlan,
        after_one->purge == after_other->purge,
{
    each_macro_is_looked_for_by_its_own_name(setup, one, told, after_one);
    each_macro_is_looked_for_by_its_own_name(setup, other, also_told, after_other);
}

/// What a planning stage works on.
pub open spec fn work_of(stage: Pipeline) -> Option<Work> {
    match stage {
        Pipeline::Validate(work) => Some(work),
        Pipeline::FindAnchor(work) => Some(work),
        Pipeline::Model { work, .. } => Some(work),
        Pipeline::Gate { work, .. } => Some(work),
        Pipeline::Match { work, .. } => Some(work),
        Pipeline::BuildPreview { work, .. } => Some(work),
        Pipeline::Resume { work, .. } => Some(work),
        Pipeline::Contact { work, .. } => Some(work),
        Pipeline::BuildPlan { work, .. } => Some(work),
        Pipeline::Name { work, .. } => Some(work),
        Pipeline::Generate { work, .. } => Some(work),
        _ => None,
    }
}

/// Where the replay of a stage starts.
pub open spec fn start_of(stage: Pipeline) -> Option<u64> {
    match stage {
        Pipeline::Model { base, .. } => Some(base),
        Pipeline::Gate { base, .. } => Some(base),
        Pipeline::Match { base, .. } => Some(base),
        Pipeline::BuildPreview { base, .. } => Some(base),
        Pipeline::Resume { base, .. } => Some(base),
        Pipeline::Contact { base, .. } => Some(base),
        Pipeline::BuildPlan { base, .. } => Some(base),
        _ => None,
    }
}

/// The context of a stage.
pub open spec fn anchor_of(stage: Pipeline) -> Option<Anchor> {
    match stage {
        Pipeline::Model { anchor, .. } => Some(anchor),
        Pipeline::Gate { anchor, .. } => Some(anchor),
        Pipeline::Match { anchor, .. } => Some(anchor),
        Pipeline::BuildPreview { anchor, .. } => Some(anchor),
        _ => None,
    }
}

/// How the match enters the plan, once that is known.
pub open spec fn kind_of(stage: Pipeline) -> Option<MatchKind> {
    match stage {
        Pipeline::BuildPreview { kind, .. } => Some(kind),
        Pipeline::Resume { kind, .. } => Some(kind),
        Pipeline::Contact { kind, .. } => Some(kind),
        Pipeline::BuildPlan { kind, .. } => Some(kind),
        _ => None,
    }
}

/// The candidates that enter the plan, once they are known.
pub open spec fn preview_of(stage: Pipeline) -> Option<PreviewUse> {
    match stage {
        Pipeline::Resume { preview, .. } => Some(preview),
        Pipeline::Contact { preview, .. } => Some(preview),
        Pipeline::BuildPlan { preview, .. } => Some(preview),
        _ => None,
    }
}

/// A stage hands on what it has: no stage changes what is worked on, where the
/// replay starts, the context, the match or the candidates.
pub proof fn what_is_known_is_handed_on_unchanged(
    setup: Setup,
    before: Pipeline,
    event: PipelineEvent,
    after: Pipeline,
)
    requires
        follows(setup, before, event, after),
    ensures
        work_of(before) is Some && work_of(after) is Some ==> work_of(after) == work_of(before),
        start_of(before) is Some && start_of(after) is Some ==> start_of(after) == start_of(before),
        anchor_of(before) is Some && anchor_of(after) is Some ==> anchor_of(after) == anchor_of(
            before,
        ),
        kind_of(before) is Some && kind_of(after) is Some ==> kind_of(after) == kind_of(before),
        preview_of(before) is Some && preview_of(after) is Some ==> preview_of(after)
            == preview_of(before),
        work_of(before) is Some ==> work_of(after) is Some || after is Done,
        before matches Pipeline::Name { plan, root, .. } ==> (
        after matches Pipeline::Generate { root: r, .. } ==> r == root),
{
}

/// The replay starts at the context's own place in the file, or at its beginning
/// where the context has none; never behind its end.
pub open spec fn starts_right(stage: Pipeline) -> bool {
    &&& start_of(stage) matches Some(base) ==> (work_of(stage) matches Some(work) && base
        <= work.bytes@.len())
    &&& anchor_of(stage) matches Some(anchor) ==> (start_of(stage) matches Some(base) && base == (
    if anchor.file_position is Some {
        anchor.file_position->0
    } else {
        0
    }))
}

/// In every run of the pipeline the replay starts inside the print file, at the
/// place that the log gives.
pub proof fn the_replay_starts_where_the_log_says(
    setup: Setup,
    stages: Seq<Pipeline>,
    events: Seq<PipelineEvent>,
    i: int,
)
    requires
        ran(setup, stages, events),
        0 <= i < stages.len(),
    ensures
        starts_right(stages[i]),
    decreases i,
{
    if i > 0 {
        the_replay_starts_where_the_log_says(setup, stages, events, i - 1);
        assert(follows(setup, stages[i - 1], events[i - 1], stages[i]));
    }
}

/// The stage lies behind the question whether there is anything to match.
pub open spec fn is_matching(stage: Pipeline) -> bool {
    match stage {
        Pipeline::Match { .. } => true,
        Pipeline::BuildPreview { .. } => true,
        Pipeline::Resume { .. } => true,
        Pipeline::Contact { .. } => true,
        Pipeline::BuildPlan { .. } => true,
        Pipeline::Name { .. } => true,
        Pipeline::Generate { .. } => true,
        _ => false,
    }
}

/// Nothing is matched or planned without a known XY region.
pub proof fn nothing_is_planned_without_a_region(
    setup: Setup,
    stages: Seq<Pipeline>,
    events: Seq<PipelineEvent>,
    i: int,
)
    requires
        ran(setup, stages, events),
        0 <= i < stages.len(),
        is_matching(stages[i]),
    ensures
        work_of(stages[i]) matches Some(work) && work.facts.has_xy,
    decreases i,
{
    if i > 0 {
        assert(follows(setup, stages[i - 1], events[i - 1], stages[i]));
        if is_matching(stages[i - 1]) {
            nothing_is_planned_without_a_region(setup, stages, events, i - 1);
        }
    }
}

/// Where the bytes of the stop are known, completion is asked for before anything
/// is matched, and it is asked at the first of them.
pub proof fn completion_is_tested_at_the_start_of_the_stop(
    setup: Setup,
    stages: Seq<Pipeline>,
    events: Seq<PipelineEvent>,
    i: int,
)
    requires
        ran(setup, stages, events),
        0 <= i < stages.len(),
        is_matching(stages[i]) || stages[i] is Gate,
    ensures
        work_of(stages[i]) matches Some(work) && (work.facts.window matches Some(window)
            ==> exists|j: int|
            0 <= j <= i && (#[trigger] stages[j] matches Pipeline::Gate { tested, work: w, .. }
                && tested == window.start && w == work)),
        stages[i] is Gate ==> work_of(stages[i])->0.facts.window is Some,
    decreases i,
{
    if i > 0 {
        assert(follows(setup, stages[i - 1], events[i - 1], stages[i]));
        if is_matching(stages[i - 1]) || stages[i - 1] is Gate {
            completion_is_tested_at_the_start_of_the_stop(setup, stages, events, i - 1);
            what_is_known_is_handed_on_unchanged(
                setup,
                stages[i - 1],
                events[i - 1],
                stages[i],
            );
        } else {
            assert(stages[i - 1] is Model);
        }
    }
}

/// A print is called complete only on the verdict of the completion test, and the
/// report gives the file, its size, the offset that was tested and the work that
/// was left.
pub proof fn a_completion_reports_what_was_tested(
    setup: Setup,
    before: Pipeline,
    event: PipelineEvent,
    after: Pipeline,
)
    requires
        follows(setup, before, event, after),
        !(before is Done),
        after matches Pipeline::Done(PipelineOutcome::Complete(_)),
    ensures
        after matches Pipeline::Done(PipelineOutcome::Complete(report)) && {
            &&& before matches Pipeline::Gate { work, tested, .. }
            &&& event == PipelineEvent::Gated(GateVerdict::Complete(report.work))
            &&& report.file@ == work.path@
            &&& report.tested_offset == tested
            &&& report.file_size as int == work.bytes@.len()
        },
{
}

/// A deliberate end is reported only where the reconstruction or the planner says
/// that there is nothing to recover.
pub proof fn a_clean_end_is_never_made_up(
    setup: Setup,
    before: Pipeline,
    event: PipelineEvent,
    after: Pipeline,
)
    requires
        follows(setup, before, event, after),
        !(before is Done),
        after == Pipeline::Done(PipelineOutcome::CleanShutdown),
    ensures
        event == PipelineEvent::Reconstructed(Ok(Reconstructed::CleanShutdown)) || event
            == PipelineEvent::Planned(Ok(Planned::NoRecoveryNeeded)),
{
}

/// The result that a stage waits for.
pub open spec fn awaited(stage: Pipeline, event: PipelineEvent) -> bool {
    match stage {
        Pipeline::Scan => event is Scanned,
        Pipeline::Heartbeat { .. } => event is HeartbeatRead,
        Pipeline::ReadFile { .. } => event is FileRead,
        Pipeline::Reconstruct { .. } => event is Reconstructed,
        Pipeline::Source { .. } => event is Sourced,
        Pipeline::Validate(_) => event is Validated,
        Pipeline::FindAnchor(_) => event is Anchored,
        Pipeline::Model { .. } => event is Modeled,
        Pipeline::Gate { .. } => event is Gated,
        Pipeline::Match { .. } => event is Matched,
        Pipeline::BuildPreview { .. } => event is Previewed,
        Pipeline::Resume { .. } => event is Resumed,
        Pipeline::Contact { .. } => event is Contacted,
        Pipeline::BuildPlan { .. } => event is Planned,
        Pipeline::Name { .. } => event is Named,
        Pipeline::Generate { .. } => event is Generated,
        Pipeline::Done(_) => false,
        Pipeline::Failed(_) => false,
    }
}

/// How far a stage is from the outcome.
pub open spec fn remaining(stage: Pipeline) -> nat {
    match stage {
        Pipeline::Scan => 17,
        Pipeline::Heartbeat { .. } => 16,
        Pipeline::ReadFile { .. } => 15,
        Pipeline::Reconstruct { .. } => 14,
        Pipeline::Source { .. } => 13,
        Pipeline::Validate(_) => 12,
        Pipeline::FindAnchor(_) => 11,
        Pipeline::Model { .. } => 10,
        Pipeline::Gate { .. } => 9,
        Pipeline::Match { .. } => 8,
        Pipeline::BuildPreview { .. } => 7,
        Pipeline::Resume { .. } => 6,
        Pipeline::Contact { .. } => 5,
        Pipeline::BuildPlan { .. } => 4,
        Pipeline::Name { .. } => 3,
        Pipeline::Generate { .. } => 2,
        Pipeline::Done(_) => 0,
        Pipeline::Failed(_) => 0,
    }
}

/// The result that is waited for takes the pipeline nearer to its outcome, and any
/// other leaves it where it stands: a pipeline that gets its results ends.
pub proof fn every_awaited_result_makes_progress(
    setup: Setup,
    before: Pipeline,
    event: PipelineEvent,
    after: Pipeline,
)
    requires
        follows(setup, before, event, after),
    ensures
        awaited(before, event) ==> remaining(after) < remaining(before),
        !awaited(before, event) ==> after == before,
{
}

/// The reason that the pipeline ends with, when it gives up.
pub open spec fn reason_of(stage: Pipeline) -> Seq<char> {
    match stage {
        Pipeline::Done(PipelineOutcome::NotPossible(reason)) => reason@,
        Pipeline::Done(PipelineOutcome::ManualFallback(reason)) => reason@,
        _ => Seq::empty(),
    }
}

/// The pipeline gave up: there is no answer.
pub open spec fn gave_up(stage: Pipeline) -> bool {
    stage matches Pipeline::Done(PipelineOutcome::NotPossible(_))
}

/// The pipeline hands over to the operator.
pub open spec fn handed_over(stage: Pipeline) -> bool {
    stage matches Pipeline::Done(PipelineOutcome::ManualFallback(_))
}

/// The text ends with `why`.
pub open spec fn ends_with(text: Seq<char>, why: Seq<char>) -> bool {
    exists|before: Seq<char>| text == #[trigger] (before + why)
}

/// A failure on the way is never passed over: it ends the pipeline, with its own
/// words in the reason. What only the operator can do is handed to them, anything
/// else has no answer.
pub proof fn a_failure_ends_the_pipeline_with_its_words(
    setup: Setup,
    before: Pipeline,
    event: PipelineEvent,
    after: Pipeline,
)
    requires
        follows(setup, before, event, after),
        awaited(before, event),
    ensures
        event matches PipelineEvent::Scanned(Err(e)) ==> after == Pipeline::Failed(e),
        event matches PipelineEvent::Reconstructed(Err(e)) ==> gave_up(after) && ends_with(
            reason_of(after),
            e@,
        ),
        event matches PipelineEvent::Sourced { source: MachineSource::Unavailable { reason }, .. }
            ==> gave_up(after) && ends_with(reason_of(after), reason@),
        event matches PipelineEvent::Validated(Err(failures)) ==> after == Pipeline::Done(
            PipelineOutcome::MachineRejected(failures),
        ),
        event matches PipelineEvent::Anchored(None) ==> gave_up(after),
        event matches PipelineEvent::Modeled(Err(e)) ==> gave_up(after) && ends_with(
            reason_of(after),
            e@,
        ),
        event matches PipelineEvent::Gated(
            GateVerdict::MustNotSuppress { reason, invalidates_offsets: true },
        ) ==> gave_up(after) && (reason matches Some(why) ==> reason_of(after) == why@),
        event matches PipelineEvent::Matched(Err(MatchFailure::Other(e))) ==> handed_over(after)
            && ends_with(reason_of(after), e@),
        event matches PipelineEvent::Previewed(PreviewResult::Declined(_)) ==> handed_over(after),
        event matches PipelineEvent::Resumed(Err(e)) ==> handed_over(after) && ends_with(
            reason_of(after),
            e@,
        ),
        event matches PipelineEvent::Resumed(Ok(None)) ==> handed_over(after),
        event matches PipelineEvent::Contacted(Err(e)) ==> handed_over(after) && ends_with(
            reason_of(after),
            e@,
        ),
        event matches PipelineEvent::Planned(Err(e)) ==> gave_up(after) && ends_with(
            reason_of(after),
            e@,
        ),
        event matches PipelineEvent::Planned(Ok(Planned::ManualFallback(why))) ==> handed_over(
            after,
        ) && ends_with(reason_of(after), why@),
        event matches PipelineEvent::Generated { gate: Err(e), .. } ==> gave_up(after)
            && ends_with(reason_of(after), e@),
        event matches PipelineEvent::Generated { gate: Ok(_), preflight: Err(e), .. } ==> gave_up(
            after,
        ) && ends_with(reason_of(after), e@),
{
}

/// A result without a fault is used as it is: each stage that gets one goes on to
/// the next with exactly what the result says.
pub proof fn a_result_is_used_as_it_is(
    setup: Setup,
    before: Pipeline,
    event: PipelineEvent,
    after: Pipeline,
)
    requires
        follows(setup, before, event, after),
        awaited(before, event),
    ensures
        event matches PipelineEvent::Scanned(Ok(facts)) ==> after == (Pipeline::Heartbeat {
            file: facts.file,
        }),
        event is HeartbeatRead ==> (before matches Pipeline::Heartbeat { file } && match file {
            Some(path) => after == (Pipeline::ReadFile { path }),
            None => after == (Pipeline::Reconstruct { read: None }),
        }),
        event matches PipelineEvent::FileRead(result) ==> (before matches Pipeline::ReadFile {
            path,
        } && after == (Pipeline::Reconstruct { read: Some((path, result)) })),
        event matches PipelineEvent::Validated(Ok(_)) ==> after is FindAnchor,
        event matches PipelineEvent::Anchored(Some(anchor)) ==> gave_up(after) || (
        after matches Pipeline::Model { anchor: a, .. } && a == anchor),
        event matches PipelineEvent::Modeled(Ok(_)) && before->Model_work.facts.window is None
            && before->Model_work.facts.has_xy ==> after is Match,
        event matches PipelineEvent::Gated(
            GateVerdict::MustNotSuppress { invalidates_offsets: false, .. },
        ) ==> if before->Gate_work.facts.has_xy {
            after is Match
        } else {
            handed_over(after)
        },
        event matches PipelineEvent::Matched(Ok(facts)) ==> (if facts.unique {
            after is Resume && preview_of(after) == Some(PreviewUse::Without)
        } else {
            after is BuildPreview
        }) && kind_of(after) == Some(MatchKind::Found),
        event matches PipelineEvent::Matched(Err(MatchFailure::Inconclusive { layers, .. }))
            ==> after is BuildPreview && (kind_of(after) matches Some(
            MatchKind::LayerOnly { layer },
        ) && (layers@.len() > 0 ==> layer == layers@[0]) && (layers@.len() == 0 ==> layer == 0)),
        event == PipelineEvent::Previewed(PreviewResult::NoStops) ==> after is Resume
            && preview_of(after) == Some(PreviewUse::Without),
        event == PipelineEvent::Previewed(PreviewResult::Stops) ==> after is Resume && (preview_of(
            after,
        ) matches Some(PreviewUse::With { mark }) && (mark matches Some(m)
            ==> before->BuildPreview_base == 0 && before->BuildPreview_anchor.current_layer == Some(
            m,
        )) && (before->BuildPreview_base == 0 ==> mark
            == before->BuildPreview_anchor.current_layer)),
        event matches PipelineEvent::Resumed(Ok(Some(layer))) ==> (after matches Pipeline::Contact {
            layer: l,
            ..
        } && l == layer),
        event matches PipelineEvent::Planned(Ok(Planned::Plan(plan))) ==> (match work_of(
            before,
        )->0.inputs.machine.virtual_sdcard_root {
            Some(_) => after matches Pipeline::Name { plan: p, .. } && p == plan,
            None => gave_up(after),
        }),
        event matches PipelineEvent::Named(name) ==> (after matches Pipeline::Generate { plan, .. }
            && plan.recovery_file.name@ == name@),
{
}

/// A recovery needs the print file: it goes on with the file that was read, and
/// with what the reconstruction found; without one it has no answer.
pub proof fn a_recovery_needs_the_print_file(
    setup: Setup,
    before: Pipeline,
    event: PipelineEvent,
    after: Pipeline,
)
    requires
        follows(setup, before, event, after),
        before is Reconstruct,
        event matches PipelineEvent::Reconstructed(Ok(Reconstructed::Recovery(_))),
    ensures
        match before->read {
            Some((path, Ok(bytes))) => after matches Pipeline::Source {
                path: p,
                bytes: b,
                facts,
            } && p == path && b == bytes && event == PipelineEvent::Reconstructed(
                Ok(Reconstructed::Recovery(facts)),
            ),
            Some((path, Err(e))) => gave_up(after) && ends_with(reason_of(after), e@),
            None => gave_up(after),
        },
{
}

/// The machine is described from the source that was found, on the file that is
/// recovered: its type annotations are looked for in that file's bytes.
pub proof fn the_machine_is_described_for_the_file_at_hand(
    setup: Setup,
    before: Pipeline,
    event: PipelineEvent,
    after: Pipeline,
)
    requires
        follows(setup, before, event, after),
        before is Source,
        event matches PipelineEvent::Sourced { source, .. } && !(source is Unavailable),
    ensures
        before matches Pipeline::Source { path, bytes, facts } && {
            &&& event matches PipelineEvent::Sourced { source, file }
            &&& after matches Pipeline::Validate(work)
            &&& work.path == path && work.bytes == bytes && work.facts == facts
            &&& provides(
                source,
                setup.section,
                file,
                annotated(bytes@),
                setup.defaults,
                work.inputs,
            )
        },
{
}

/// The bytes are those of `before`, `;TYPE:` and `behind`, one after the other.
pub open spec fn has_type_comment(bytes: Seq<u8>, before: Seq<u8>, behind: Seq<u8>) -> bool {
    bytes == before + seq![0x3bu8, 0x54, 0x59, 0x50, 0x45, 0x3a] + behind
}

/// A file is annotated exactly when `;TYPE:` stands somewhere in it.
pub proof fn an_annotation_is_the_slicers_type_comment(bytes: Seq<u8>)
    ensures
        annotated(bytes) <==> exists|before: Seq<u8>, behind: Seq<u8>| #[trigger]
            has_type_comment(bytes, before, behind),
        ';' as int == 0x3b && 'T' as int == 0x54 && 'Y' as int == 0x59 && 'P' as int == 0x50
            && 'E' as int == 0x45 && ':' as int == 0x3a,
{
    let mark = seq![0x3bu8, 0x54, 0x59, 0x50, 0x45, 0x3a];
    if annotated(bytes) {
        let i = choose|i: int| annotation_at(bytes, i);
        let before = bytes.take(i);
        let behind = bytes.skip(i + 6);
        assert(bytes =~= before + mark + behind);
        assert(has_type_comment(bytes, before, behind));
    }
    if exists|before: Seq<u8>, behind: Seq<u8>| #[trigger] has_type_comment(bytes, before, behind) {
        let (before, behind) = choose|before: Seq<u8>, behind: Seq<u8>| #[trigger]
            has_type_comment(bytes, before, behind);
        let i = before.len() as int;
        assert(bytes[i] == mark[0] && bytes[i + 1] == mark[1] && bytes[i + 2] == mark[2]);
        assert(bytes[i + 3] == mark[3] && bytes[i + 4] == mark[4] && bytes[i + 5] == mark[5]);
        assert(annotation_at(bytes, i));
    }
}

/// A finished plan holds what was worked on: the machine, the file, the plan and
/// the content that was generated; and the original bytes exactly when the resume
/// point is still to be chosen.
pub proof fn a_bundle_holds_what_was_worked_on(
    setup: Setup,
    before: Pipeline,
    event: PipelineEvent,
    after: Pipeline,
)
    requires
        follows(setup, before, event, after),
        !(before is Done),
        after matches Pipeline::Done(PipelineOutcome::Plan(_)),
    ensures
        after matches Pipeline::Done(PipelineOutcome::Plan(bundle)) && {
            &&& before matches Pipeline::Generate { work, plan, root }
            &&& event matches PipelineEvent::Generated { content, gate, preflight }
            &&& gate is Ok && preflight is Ok
            &&& bundle.plan == plan
            &&& bundle.machine == work.inputs.machine
            &&& bundle.file_path == work.path
            &&& bundle.recovery_file_content == content
            &&& bundle.sdcard_root@ == root@
            &&& bundle.recovery_source_name@ == plan.recovery_file.source_name@
            &&& bundle.recovery_file_path@ == path_in(root@, plan.recovery_file.name@)
            &&& plan.preview is Some ==> bundle.original_file_bytes == Some(work.bytes)
            &&& plan.preview is None ==> bundle.original_file_bytes is None
        },
{
}

/// The stop is searched for in the bytes of its window and in no others, the last
/// one included; without a window, from where the replay starts on.
pub proof fn the_search_covers_the_window(window: OffsetWindow, base: u64, at: u64)
    requires
        at < u64::MAX,
    ensures
        ({
            let (lo, hi) = searched(Some(window), base);
            lo <= at && (hi matches Some(h) && at < h) <==> window.start <= at <= window.end
        }),
        ({
            let (lo, hi) = searched(None, base);
            lo <= at && hi is None <==> base <= at
        }),
{
}

/// The heights hold `z`.
pub open spec fn is_height(candidates: Seq<ZCandidate>, n: nat, z: Num) -> bool {
    exists|i: int|
        0 <= i < n && (z == (#[trigger] candidates[i]).z.lo || (candidates[i].wide && (z
            == candidates[i].z.hi || z == candidates[i].mid)))
}

/// The stop is looked for at every height at which the print can have stopped, and
/// at no other: the one of a point, and both ends and the middle of a range.
pub proof fn every_possible_height_is_tried(candidates: Seq<ZCandidate>, n: nat, z: Num)
    requires
        n <= candidates.len(),
    ensures
        heights(candidates, n).contains(z) <==> is_height(candidates, n, z),
    decreases n,
{
    if n > 0 {
        let m = (n - 1) as nat;
        every_possible_height_is_tried(candidates, m, z);
        let before = heights(candidates, m);
        let c = candidates[n - 1];
        let last = if c.wide {
            seq![c.z.lo, c.z.hi, c.mid]
        } else {
            seq![c.z.lo]
        };
        let all = before + last;
        assert(all.contains(z) <==> before.contains(z) || last.contains(z)) by {
            if before.contains(z) {
                let k = choose|k: int| 0 <= k < before.len() && before[k] == z;
                assert(all[k] == z);
            }
            if last.contains(z) {
                let k = choose|k: int| 0 <= k < last.len() && last[k] == z;
                assert(all[before.len() + k] == z);
            }
            if all.contains(z) {
                let k = choose|k: int| 0 <= k < all.len() && all[k] == z;
                if k < before.len() {
                    assert(before[k] == z);
                } else {
                    assert(last[k - before.len()] == z);
                }
            }
        }
        assert(last.contains(z) <==> z == c.z.lo || (c.wide && (z == c.z.hi || z == c.mid))) by {
            assert(last[0] == c.z.lo);
            if c.wide {
                assert(last[1] == c.z.hi && last[2] == c.mid);
            }
        }
        if is_height(candidates, m, z) {
            let i = choose|i: int|
                0 <= i < m && (z == (#[trigger] candidates[i]).z.lo || (candidates[i].wide && (z
                    == candidates[i].z.hi || z == candidates[i].mid)));
            assert(candidates[i].z.lo == candidates[i].z.lo);
        }
    }
}

/// The recovery file goes into the card's own directory, without the separators
/// that it ends in.
pub proof fn the_recovery_file_goes_onto_the_card(
    setup: Setup,
    before: Pipeline,
    event: PipelineEvent,
    after: Pipeline,
)
    requires
        follows(setup, before, event, after),
        before is BuildPlan,
        after is Name,
    ensures
        before matches Pipeline::BuildPlan { work, .. } && (
        work.inputs.machine.virtual_sdcard_root matches Some(card) && (
        after matches Pipeline::Name { root, plan, .. } && root@ == without_separators(card@)
            && event == PipelineEvent::Planned(Ok(Planned::Plan(plan))))),
{
}

/// A name that is another than the planned one repoints the command that selects
/// the planned file, and no other.
pub proof fn a_new_name_repoints_the_planned_selection_alone(
    setup: Setup,
    before: Pipeline,
    event: PipelineEvent,
    after: Pipeline,
    i: int,
    k: int,
)
    requires
        follows(setup, before, event, after),
        before is Name,
        event is Named,
        0 <= i < before->Name_plan.steps@.len(),
        0 <= k < before->Name_plan.steps@[i].commands@.len(),
    ensures
        before matches Pipeline::Name { plan, .. } && (event matches PipelineEvent::Named(name) && (
        after matches Pipeline::Generate { plan: p, .. } && {
            let was = plan.steps@[i].commands@[k]@;
            let is = p.steps@[i].commands@[k]@;
            &&& p.steps@.len() == plan.steps@.len()
            &&& p.steps@[i].commands@.len() == plan.steps@[i].commands@.len()
            &&& was == "M23 "@ + plan.recovery_file.name@ ==> is == "M23 "@ + name@
            &&& was != "M23 "@ + plan.recovery_file.name@ ==> is == was
            &&& name@ == plan.recovery_file.name@ ==> p == plan
        })),
{
    if let Pipeline::Name { plan, .. } = before {
        if let PipelineEvent::Named(name) = event {
            if let Pipeline::Generate { plan: p, .. } = after {
                if name@ != plan.recovery_file.name@ {
                    let file = plan.recovery_file.name@;
                    let a = texts(p.steps@[i].commands@);
                    let b = texts(plan.steps@[i].commands@);
                    assert(step_pointed(plan.steps@[i], p.steps@[i], Some(file), name@));
                    assert(a.len() == b.len());
                    assert(a[k] == p.steps@[i].commands@[k]@);
                    assert(b[k] == plan.steps@[i].commands@[k]@);
                    assert(a[k] == pointed(b[k], Some(file), name@));
                    let m = "M23 "@;
                    let n = m.len() as int;
                    if b[k] == m + file {
                        assert(b[k].subrange(0, n) =~= m);
                        assert(b[k].skip(n) =~= file);
                    }
                    if selects(b[k], Some(file)) {
                        assert(b[k] =~= b[k].subrange(0, n) + b[k].skip(n));
                    }
                }
            }
        }
    }
}

} // verus!
