//! What holds of every run of the pipeline.

use vstd::prelude::*;

use crate::pipeline::{follows, Pipeline, PipelineEvent, PipelineOutcome, PreviewUse, Setup};

verus! {

/// A run of the pipeline: the stages it passes, and the result that takes it
/// from each one to the next.
pub open spec fn ran(setup: Setup, stages: Seq<Pipeline>, events: Seq<PipelineEvent>) -> bool {
    &&& stages.len() == events.len() + 1
    &&& stages[0] == Pipeline::Scan
    &&& forall|i: int|
        0 <= i < events.len() ==> follows(
            setup,
            stages[i],
            #[trigger] events[i],
            stages[i + 1],
        )
}

proof fn lemma_shorter(setup: Setup, stages: Seq<Pipeline>, events: Seq<PipelineEvent>)
    requires
        ran(setup, stages, events),
        events.len() > 0,
    ensures
        ran(setup, stages.drop_last(), events.drop_last()),
        follows(
            setup,
            stages.drop_last().last(),
            events.last(),
            stages.last(),
        ),
{
    let s = stages.drop_last();
    let e = events.drop_last();
    assert forall|i: int| 0 <= i < e.len() implies follows(
        setup,
        s[i],
        #[trigger] e[i],
        s[i + 1],
    ) by {
        assert(events[i] == e[i]);
    }
    let n = events.len() - 1;
    assert(follows(setup, stages[n], events[n], stages[n + 1]));
}

/// A pipeline that has its outcome keeps it, whatever result comes late.
pub proof fn an_outcome_is_final(
    setup: Setup,
    before: Pipeline,
    event: PipelineEvent,
    after: Pipeline,
)
    requires
        before is Done || before is Failed,
        follows(setup, before, event, after),
    ensures
        after == before,
{
}

/// The pipeline is past the validation of the machine.
pub open spec fn planning(stage: Pipeline) -> bool {
    match stage {
        Pipeline::FindAnchor(_) => true,
        Pipeline::Model { .. } => true,
        Pipeline::Gate { .. } => true,
        Pipeline::Match { .. } => true,
        Pipeline::BuildPreview { .. } => true,
        Pipeline::Resume { .. } => true,
        Pipeline::Contact { .. } => true,
        Pipeline::BuildPlan { .. } => true,
        Pipeline::Name { .. } => true,
        Pipeline::Generate { .. } => true,
        Pipeline::Done(PipelineOutcome::Plan(_)) => true,
        Pipeline::Done(PipelineOutcome::Complete(_)) => true,
        Pipeline::Done(PipelineOutcome::ManualFallback(_)) => true,
        _ => false,
    }
}

/// The machine's prerequisites come first: nothing is planned, matched or even
/// replayed unless the machine was validated before.
pub proof fn the_machine_is_validated_first(
    setup: Setup,
    stages: Seq<Pipeline>,
    events: Seq<PipelineEvent>,
)
    requires
        ran(setup, stages, events),
        planning(stages.last()),
    ensures
        exists|i: int|
            0 <= i < events.len() && stages[i] is Validate && (
            #[trigger] events[i] matches PipelineEvent::Validated(Ok(_))),
    decreases events.len(),
{
    if events.len() > 0 {
        lemma_shorter(setup, stages, events);
        let s = stages.drop_last();
        let e = events.drop_last();
        let n = events.len() - 1;
        if planning(s.last()) {
            the_machine_is_validated_first(setup, s, e);
            let i = choose|i: int|
                0 <= i < e.len() && s[i] is Validate && (
                #[trigger] e[i] matches PipelineEvent::Validated(Ok(_)));
            assert(events[i] == e[i]);
        } else {
            assert(events[n] == events.last());
            assert(stages[n] is Validate);
        }
    }
}

/// The print file that a stage works on.
pub open spec fn file_of(stage: Pipeline) -> Option<String> {
    match stage {
        Pipeline::Heartbeat { file } => file,
        Pipeline::ReadFile { path } => Some(path),
        Pipeline::Reconstruct { read: Some((path, _)) } => Some(path),
        Pipeline::Source { path, .. } => Some(path),
        Pipeline::Validate(work) => Some(work.path),
        Pipeline::FindAnchor(work) => Some(work.path),
        Pipeline::Model { work, .. } => Some(work.path),
        Pipeline::Gate { work, .. } => Some(work.path),
        Pipeline::Match { work, .. } => Some(work.path),
        Pipeline::BuildPreview { work, .. } => Some(work.path),
        Pipeline::Resume { work, .. } => Some(work.path),
        Pipeline::Contact { work, .. } => Some(work.path),
        Pipeline::BuildPlan { work, .. } => Some(work.path),
        Pipeline::Name { work, .. } => Some(work.path),
        Pipeline::Generate { work, .. } => Some(work.path),
        Pipeline::Done(PipelineOutcome::Plan(bundle)) => Some(bundle.file_path),
        Pipeline::Done(PipelineOutcome::Complete(report)) => Some(report.file),
        _ => None,
    }
}

/// `event` is the log naming `file`.
pub open spec fn names(event: PipelineEvent, file: String) -> bool {
    event matches PipelineEvent::Scanned(Ok(facts)) && facts.file == Some(file)
}

/// A plan resumes the file that the log names, and no other; and a print is
/// called complete only of that file.
pub proof fn the_log_names_the_file(
    setup: Setup,
    stages: Seq<Pipeline>,
    events: Seq<PipelineEvent>,
    file: String,
)
    requires
        ran(setup, stages, events),
        file_of(stages.last()) == Some(file),
    ensures
        exists|i: int| 0 <= i < events.len() && names(#[trigger] events[i], file),
    decreases events.len(),
{
    if events.len() > 0 {
        lemma_shorter(setup, stages, events);
        let s = stages.drop_last();
        let e = events.drop_last();
        let n = events.len() - 1;
        if file_of(s.last()) == Some(file) {
            the_log_names_the_file(setup, s, e, file);
            let i = choose|i: int| 0 <= i < e.len() && names(#[trigger] e[i], file);
            assert(events[i] == e[i]);
        } else {
            assert(events[n] == events.last());
            assert(names(events[n], file));
        }
    }
}

/// `event` is a generated file that passed both its checks.
pub open spec fn checked(event: PipelineEvent, content: Vec<u8>) -> bool {
    &&& event matches PipelineEvent::Generated { content: c, gate, preflight }
    &&& c == content
    &&& gate is Ok
    &&& preflight is Ok
}

/// No recovery file gets into a plan unchecked: the content of every plan was
/// generated, held to the heating gate, and held to the machine's limits.
pub proof fn every_recovery_file_was_checked(
    setup: Setup,
    stages: Seq<Pipeline>,
    events: Seq<PipelineEvent>,
)
    requires
        ran(setup, stages, events),
        stages.last() matches Pipeline::Done(PipelineOutcome::Plan(_)),
    ensures
        stages.last() matches Pipeline::Done(PipelineOutcome::Plan(bundle)) && exists|i: int|
            0 <= i < events.len() && checked(#[trigger] events[i], bundle.recovery_file_content),
    decreases events.len(),
{
    if let Pipeline::Done(PipelineOutcome::Plan(bundle)) = stages.last() {
        if events.len() > 0 {
            lemma_shorter(setup, stages, events);
            let s = stages.drop_last();
            let e = events.drop_last();
            let n = events.len() - 1;
            if s.last() matches Pipeline::Done(PipelineOutcome::Plan(_)) {
                every_recovery_file_was_checked(setup, s, e);
                let i = choose|i: int|
                    0 <= i < e.len() && checked(#[trigger] e[i], bundle.recovery_file_content);
                assert(events[i] == e[i]);
            } else {
                assert(events[n] == events.last());
                assert(checked(events[n], bundle.recovery_file_content));
            }
        }
    }
}

/// A layer mark is kept with the candidates only where the model numbers its
/// layers as the mark does: from the start of the file.
pub open spec fn mark_is_sound(stage: Pipeline) -> bool {
    match stage {
        Pipeline::Resume { base, preview: PreviewUse::With { mark: Some(_) }, .. } => base == 0,
        Pipeline::Contact { base, preview: PreviewUse::With { mark: Some(_) }, .. } => base == 0,
        Pipeline::BuildPlan { base, preview: PreviewUse::With { mark: Some(_) }, .. } => base == 0,
        _ => true,
    }
}

/// No provenance is made up: on a model from the middle of the file the slicer's
/// layer mark is withheld from the candidates.
pub proof fn a_mark_is_withheld_from_a_partial_model(
    setup: Setup,
    stages: Seq<Pipeline>,
    events: Seq<PipelineEvent>,
)
    requires
        ran(setup, stages, events),
    ensures
        mark_is_sound(stages.last()),
    decreases events.len(),
{
    if events.len() > 0 {
        lemma_shorter(setup, stages, events);
        a_mark_is_withheld_from_a_partial_model(setup, stages.drop_last(), events.drop_last());
    }
}

} // verus!
