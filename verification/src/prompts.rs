//! What an execution puts into words: the questions it asks, the commands it
//! sends, and how it reports why it stopped.

use vstd::prelude::*;

use crate::execution::{
    check_of, command_of, current, field_path, names_places, well_formed, Cause, Check, Executor,
    Field, Pause, Stage,
};
use crate::executor::{
    failure_class, ConfirmAnswer, ConfirmKind, ExecOptions, ExecOutcome, PreviewAnswer, StepFailure,
    StopCause,
};
use crate::number::{Num, Reading, Span};
use crate::plan::{
    cleanup_text, duration_or, first_index_from, plan_duration_or, resolve_cleanup, resolve_command,
    shifted_id, spelled, trigger_field, Diagnosis, Expected, Measured, Phase, Predicate,
    PreviewSpec, RecoveryPlan, RecoveryStep, RuntimeComputation, Tier, TriggerSource, TrueZFormula,
    Unresolved, Verification,
};
use crate::preview::index_usize;
use crate::text::{decimal, decimal_of, quoted, quoted_text, texts};

verus! {

/// The evidence that goes with a question.
#[derive(Debug, Clone)]
pub enum Detail {
    /// Where a diagnosis was raised.
    RaisedBy(&'static str),
    /// The step about to run.
    Step {
        /// What it does.
        summary: String,
        /// What it sends.
        commands: Vec<String>,
        /// What must hold before, in words.
        pre_verify: Vec<String>,
        /// What must hold after, in words.
        verify: Vec<String>,
        /// What undoes it.
        cleanup_commands: Vec<String>,
    },
    /// The believed Z and how it came about.
    Height {
        /// The height the standoff aimed for.
        standoff_target_z: Option<Num>,
        /// The height read back.
        live_toolhead_z: Option<Num>,
        /// How the true Z was derived.
        derivation: String,
    },
    /// The stop the preview hovers over.
    Stop {
        /// Byte offset of its deposition line.
        offset: u64,
        /// Byte offset at which a resume starts.
        resume_offset: u64,
        /// Hover X.
        x: Num,
        /// Hover Y.
        y: Num,
        /// Its Z.
        z: Num,
        /// Its layer.
        layer: Option<u32>,
        /// Its feature class.
        feature: String,
        /// Whether it lies on infill.
        on_infill: bool,
        /// Whether it matched the evidence.
        is_candidate: bool,
        /// Its place among the stops, counted from one.
        position: usize,
        /// How many stops there are.
        count: usize,
        /// Whether accepting it re-prints existing geometry.
        before_skip_forward: bool,
    },
}

/// Everything needed to put a question to a human.
#[derive(Debug, Clone)]
pub struct ConfirmPoint {
    /// Which feature raised it.
    pub kind: ConfirmKind,
    /// The step it is anchored to.
    pub step_id: u32,
    /// That step's phase name.
    pub phase: String,
    /// The explanation.
    pub diagnosis: Diagnosis,
    /// The evidence.
    pub detail: Detail,
    /// The deadline the question is held to.
    pub deadline: Span,
}

/// How execution asks a human whether to proceed.
pub trait Confirmer {
    /// Puts `point` to the operator.
    fn confirm(&mut self, point: &ConfirmPoint) -> ConfirmAnswer;

    /// Puts a resume-preview `point` to the operator. Unless it is overridden
    /// nobody is asked, and nobody commits a resume point.
    fn confirm_preview(&mut self, point: &ConfirmPoint) -> (r: PreviewAnswer)
        default_ensures
            r == PreviewAnswer::Abort,
    {
        PreviewAnswer::Abort
    }
}

/// The confirmer that nobody stands behind: every question aborts.
pub struct AbortConfirmer;

impl Confirmer for AbortConfirmer {
    fn confirm(&mut self, point: &ConfirmPoint) -> (r: ConfirmAnswer)
        ensures
            r == ConfirmAnswer::Abort,
    {
        ConfirmAnswer::Abort
    }
}

/// The diagnosis code of the preview.
pub const PREVIEW_CODE: &'static str = "resume_preview";

/// The diagnosis code of the pause before a step.
pub const STEP_DEBUG_CODE: &'static str = "step_debug_pause";

/// The diagnosis code of the Z-height confirmation.
pub const Z_CONFIRM_CODE: &'static str = "z_confirm_before_resume";

/// Why the pause before a step exists.
pub const STEP_DEBUG_WHY: &'static str = "debug_confirm_each_step is set, so execution stops before every step. Nothing is wrong — this pause exists so the exact commands below can be read before they are sent.";

/// How to answer the pause before a step.
pub const STEP_DEBUG_FIX: &'static str = "Answer `continue` to send this step, or `abort` to stop here. Unset `debug_confirm_each_step` in printer.cfg's [plr] section to run without these pauses.";

/// What the Z-height question asks when no Z could be read back.
pub const Z_UNREAD_WHAT: &'static str = "the toolhead is standing off above the resume point; confirm this matches what you see";

/// How the Z-height question explains itself, up to the derivation.
pub const Z_WHY_BEFORE: &'static str = "confirm_z_before_resume is set. Z was established by touching the part once and doing arithmetic on the result (";

/// How the Z-height question explains itself, after the derivation.
pub const Z_WHY_AFTER: &'static str = "); everything the resume does from here trusts that number. This is the last moment at which a human can compare it against the actual nozzle before the print continues. The toolhead was lifted to this standoff and never lowered — nothing here can descend.";

/// How to answer the Z-height question.
pub const Z_FIX: &'static str = "Answer `continue` if the standoff looks right. If it does not, answer `abort`: the recovery stops and the Z frame is invalidated, so a fresh dry run is required before any resume. Unset `confirm_z_before_resume` in printer.cfg's [plr] section to skip this pause.";

/// The derivation of a plan that declares no true Z.
pub const NO_DERIVATION: &'static str = "unavailable (no true-Z step in this plan)";

/// What accepting a stop before the default means.
pub const PREVIEW_WHY_BEFORE: &'static str = "this point is BEFORE the safe skip-forward line; accepting re-prints existing geometry (the nozzle plows the printed wall)";

/// What accepting any other stop means.
pub const PREVIEW_WHY: &'static str = "accepting resumes at the next deposition line after this point (skip-forward)";

/// How to answer the preview.
pub const PREVIEW_FIX: &'static str = "Answer accept to resume here, next/prev to step between representative points, nudge +/-1 (fine) or +/-10 (coarse) to move along the toolpath, or abort to stop.";

/// Which feature raised a pause.
pub open spec fn pause_kind(pause: Pause) -> ConfirmKind {
    match pause {
        Pause::Warning(_) => ConfirmKind::Diagnosis,
        Pause::StepDebug => ConfirmKind::StepDebug,
        Pause::ZHeight => ConfirmKind::ZHeight,
        Pause::Preview => ConfirmKind::Preview,
    }
}

/// The diagnosis code a pause puts to the operator.
pub open spec fn pause_code(plan: RecoveryPlan, pause: Pause) -> Seq<char> {
    match pause {
        Pause::Warning(w) => plan.warnings@[w as int].code@,
        Pause::StepDebug => STEP_DEBUG_CODE@,
        Pause::ZHeight => Z_CONFIRM_CODE@,
        Pause::Preview => PREVIEW_CODE@,
    }
}

/// Which feature raised a pause, and the code it puts to the operator.
pub fn pause_tag(plan: &RecoveryPlan, pause: Pause) -> (r: (ConfirmKind, &'static str))
    requires
        pause matches Pause::Warning(w) ==> w < plan.warnings@.len(),
    ensures
        r.0 == pause_kind(pause),
        r.1@ == pause_code(*plan, pause),
{
    match pause {
        Pause::Warning(w) => (ConfirmKind::Diagnosis, plan.warnings[w].code),
        Pause::StepDebug => (ConfirmKind::StepDebug, STEP_DEBUG_CODE),
        Pause::ZHeight => (ConfirmKind::ZHeight, Z_CONFIRM_CODE),
        Pause::Preview => (ConfirmKind::Preview, PREVIEW_CODE),
    }
}

/// `r` is the question about a warning of the plan.
pub open spec fn warning_asked(r: ConfirmPoint, plan: RecoveryPlan, warning: int, deadline: Span) -> bool {
    &&& r.kind == ConfirmKind::Diagnosis
    &&& r.step_id == plan.steps@[0].id
    &&& r.phase@ == plan.steps@[0].phase_name@
    &&& r.diagnosis == plan.warnings@[warning]
    &&& r.detail matches Detail::RaisedBy(who) && who@ == "pre-flight"@
    &&& r.deadline == deadline
}

/// The question about a warning of the plan, anchored to the first step.
pub fn preflight_point(plan: &RecoveryPlan, warning: usize, deadline: Span) -> (r: ConfirmPoint)
    requires
        plan.steps@.len() > 0,
        warning < plan.warnings@.len(),
    ensures
        warning_asked(r, *plan, warning as int, deadline),
{
    ConfirmPoint {
        kind: ConfirmKind::Diagnosis,
        step_id: plan.steps[0].id,
        phase: plan.steps[0].phase_name.clone(),
        diagnosis: plan.warnings[warning].clone(),
        detail: Detail::RaisedBy("pre-flight"),
        deadline,
    }
}

/// A verification in words.
pub open spec fn described(v: Verification) -> Seq<char> {
    v.object@ + "."@ + v.field@ + " "@ + v.description@
}

/// Puts a verification in words.
pub fn describe_verification(v: &Verification) -> (r: String)
    ensures
        r@ == described(*v),
{
    let mut out = v.object.clone();
    out.append(".");
    out.append(v.field.as_str());
    out.append(" ");
    out.append(v.description.as_str());
    out
}

/// Verifications in words.
pub open spec fn all_described(vs: Seq<Verification>) -> Seq<Seq<char>> {
    vs.map_values(|v: Verification| described(v))
}

fn describe_all(vs: &Vec<Verification>) -> (r: Vec<String>)
    ensures
        texts(r@) == all_described(vs@),
{
    let mut out: Vec<String> = Vec::new();
    let mut i: usize = 0;
    while i < vs.len()
        invariant
            0 <= i <= vs@.len(),
            out@.len() == i,
            forall|j: int| 0 <= j < i ==> (#[trigger] out@[j])@ == described(vs@[j]),
        decreases vs@.len() - i,
    {
        out.push(describe_verification(&vs[i]));
        i = i + 1;
    }
    assert(texts(out@) =~= all_described(vs@));
    out
}

fn copy_all(list: &Vec<String>) -> (r: Vec<String>)
    ensures
        texts(r@) == texts(list@),
{
    let mut out: Vec<String> = Vec::new();
    let mut i: usize = 0;
    while i < list.len()
        invariant
            0 <= i <= list@.len(),
            out@.len() == i,
            forall|j: int| 0 <= j < i ==> (#[trigger] out@[j])@ == list@[j]@,
        decreases list@.len() - i,
    {
        out.push(list[i].clone());
        i = i + 1;
    }
    assert(texts(out@) =~= texts(list@));
    out
}

/// `r` is the question before a step.
pub open spec fn step_asked(r: ConfirmPoint, step: RecoveryStep, deadline: Span) -> bool {
    &&& r.kind == ConfirmKind::StepDebug
    &&& r.step_id == step.id
    &&& r.phase@ == step.phase_name@
    &&& r.diagnosis.says(
        STEP_DEBUG_CODE@,
        Tier::Confirmable,
        "about to run step "@ + decimal(step.id as nat) + " ["@ + step.phase_name@ + "]: "@
            + step.summary@,
        STEP_DEBUG_WHY@,
        STEP_DEBUG_FIX@,
    )
    &&& r.diagnosis.measured is None
    &&& r.diagnosis.expected is None
    &&& match r.detail {
        Detail::Step { summary, commands, pre_verify, verify, cleanup_commands } => {
            &&& summary@ == step.summary@
            &&& texts(commands@) == texts(step.commands@)
            &&& texts(pre_verify@) == all_described(step.pre_verify@)
            &&& texts(verify@) == all_described(step.verify@)
            &&& texts(cleanup_commands@) == texts(step.cleanup_commands@)
        },
        _ => false,
    }
    &&& r.deadline == deadline
}

/// The question before a step: its commands, and what is verified around them.
pub fn step_debug_point(step: &RecoveryStep, deadline: Span) -> (r: ConfirmPoint)
    ensures
        step_asked(r, *step, deadline),
{
    let mut what = "about to run step ".to_owned();
    let id = decimal_of(step.id as u64);
    what.append(id.as_str());
    what.append(" [");
    what.append(step.phase_name.as_str());
    what.append("]: ");
    what.append(step.summary.as_str());
    ConfirmPoint {
        kind: ConfirmKind::StepDebug,
        step_id: step.id,
        phase: step.phase_name.clone(),
        diagnosis: Diagnosis::new(
            STEP_DEBUG_CODE,
            Tier::Confirmable,
            what,
            STEP_DEBUG_WHY.to_owned(),
            STEP_DEBUG_FIX.to_owned(),
        ),
        detail: Detail::Step {
            summary: step.summary.clone(),
            commands: copy_all(&step.commands),
            pre_verify: describe_all(&step.pre_verify),
            verify: describe_all(&step.verify),
            cleanup_commands: copy_all(&step.cleanup_commands),
        },
        deadline,
    }
}

/// Where a trigger height is read, in words.
pub open spec fn source_name(source: TriggerSource) -> Seq<char> {
    match source {
        TriggerSource::RawLastZResult => "probe.last_z_result (raw trigger Z)"@,
        TriggerSource::BedZPlusOffset => "probe.last_probe_position[2] + z_offset"@,
        TriggerSource::DragResult => "plr.last_drag_result.trigger_z (ADXL drag)"@,
        TriggerSource::TouchResult => "plr.last_touch_result.median_z + z_offset (consensus touch)"@,
    }
}

/// Names where a trigger height is read.
pub fn trigger_source_name(source: TriggerSource) -> (r: &'static str)
    ensures
        r@ == source_name(source),
{
    match source {
        TriggerSource::RawLastZResult => "probe.last_z_result (raw trigger Z)",
        TriggerSource::BedZPlusOffset => "probe.last_probe_position[2] + z_offset",
        TriggerSource::DragResult => "plr.last_drag_result.trigger_z (ADXL drag)",
        TriggerSource::TouchResult => "plr.last_touch_result.median_z + z_offset (consensus touch)",
    }
}

/// The formula of the plan's first true-Z step.
pub open spec fn true_z_formula(plan: RecoveryPlan) -> Option<TrueZFormula> {
    match first_index_from(plan, Phase::TrueZDeclare, 0) {
        Some(i) => match plan.steps@[i].compute {
            Some(RuntimeComputation::TrueZ(formula)) => Some(formula),
            _ => None,
        },
        None => None,
    }
}

/// How the true Z of the plan is derived, in words.
pub open spec fn derived(plan: RecoveryPlan) -> Seq<char> {
    match true_z_formula(plan) {
        Some(f) => "true_Z = z_prev_top "@ + f.z_prev_top.spelling@
            + " + (halt_Z - trigger_Z), trigger read from "@ + source_name(f.trigger_source),
        None => NO_DERIVATION@,
    }
}

/// Puts the derivation of the true Z in words.
pub fn derivation(plan: &RecoveryPlan) -> (r: String)
    ensures
        r@ == derived(*plan),
{
    if let Some(i) = plan.first_index(Phase::TrueZDeclare) {
        if let Some(RuntimeComputation::TrueZ(f)) = &plan.steps[i].compute {
            let mut out = "true_Z = z_prev_top ".to_owned();
            out.append(f.z_prev_top.spelling.as_str());
            out.append(" + (halt_Z - trigger_Z), trigger read from ");
            out.append(trigger_source_name(f.trigger_source));
            return out;
        }
    }
    NO_DERIVATION.to_owned()
}

/// The double of a reading, if there is one.
pub open spec fn num_in(reading: Option<Reading>) -> Option<Num> {
    match reading {
        Some(r) => Some(r.num),
        None => None,
    }
}

fn num_in_ref(reading: &Option<Reading>) -> (r: Option<Num>)
    ensures
        r == num_in(*reading),
{
    match reading {
        Some(r) => Some(r.num),
        None => None,
    }
}

/// What the Z-height question asks.
pub open spec fn height_what(live: Option<Reading>) -> Seq<char> {
    match live {
        Some(z) => "the toolhead is standing off at Z "@ + z.spelling@
            + " mm; confirm this matches what you see"@,
        None => Z_UNREAD_WHAT@,
    }
}

/// `r` is the Z-height question.
pub open spec fn height_asked(
    r: ConfirmPoint,
    plan: RecoveryPlan,
    step: RecoveryStep,
    computed: Option<Reading>,
    live: Option<Reading>,
    deadline: Span,
) -> bool {
    &&& r.kind == ConfirmKind::ZHeight
    &&& r.step_id == step.id
    &&& r.phase@ == step.phase_name@
    &&& r.diagnosis.says(
        Z_CONFIRM_CODE@,
        Tier::Confirmable,
        height_what(live),
        Z_WHY_BEFORE@ + derived(plan) + Z_WHY_AFTER@,
        Z_FIX@,
    )
    &&& match (live, r.diagnosis.measured) {
        (Some(z), Some(m)) => m.name@ == "toolhead.position.2"@ && m.value == z.num && m.unit@
            == "mm"@,
        (None, None) => true,
        _ => false,
    }
    &&& match (computed, r.diagnosis.expected) {
        (Some(z), Some(e)) => e.name@ == "standoff target"@ && e.min == Some(z.num) && e.max
            == Some(z.num) && e.unit@ == "mm"@,
        (None, None) => true,
        _ => false,
    }
    &&& match r.detail {
        Detail::Height { standoff_target_z, live_toolhead_z, derivation } => {
            &&& standoff_target_z == num_in(computed)
            &&& live_toolhead_z == num_in(live)
            &&& derivation@ == derived(plan)
        },
        _ => false,
    }
    &&& r.deadline == deadline
}

/// The Z-height question: what Z is believed, how it was derived, and where the
/// toolhead is now. `live` is the Z read back, when there was one.
pub fn z_confirm_point(
    plan: &RecoveryPlan,
    step: &RecoveryStep,
    computed: &Option<Reading>,
    live: &Option<Reading>,
    deadline: Span,
) -> (r: ConfirmPoint)
    ensures
        height_asked(r, *plan, *step, *computed, *live, deadline),
{
    let how = derivation(plan);
    let what = match live {
        Some(z) => {
            let mut out = "the toolhead is standing off at Z ".to_owned();
            out.append(z.spelling.as_str());
            out.append(" mm; confirm this matches what you see");
            out
        },
        None => Z_UNREAD_WHAT.to_owned(),
    };
    let mut why = Z_WHY_BEFORE.to_owned();
    why.append(how.as_str());
    why.append(Z_WHY_AFTER);
    let mut diagnosis = Diagnosis::new(
        Z_CONFIRM_CODE,
        Tier::Confirmable,
        what,
        why,
        Z_FIX.to_owned(),
    );
    if let Some(z) = live {
        diagnosis.measured = Some(
            Measured {
                name: "toolhead.position.2".to_owned(),
                value: z.num,
                unit: "mm".to_owned(),
            },
        );
    }
    if let Some(z) = computed {
        diagnosis.expected = Some(
            Expected {
                name: "standoff target".to_owned(),
                min: Some(z.num),
                max: Some(z.num),
                unit: "mm".to_owned(),
            },
        );
    }
    ConfirmPoint {
        kind: ConfirmKind::ZHeight,
        step_id: step.id,
        phase: step.phase_name.clone(),
        diagnosis,
        detail: Detail::Height {
            standoff_target_z: num_in_ref(computed),
            live_toolhead_z: num_in_ref(live),
            derivation: how,
        },
        deadline,
    }
}

/// What the preview asks at a stop.
pub open spec fn preview_what(spec: PreviewSpec, stop: int) -> Seq<char> {
    let cur = spec.stops@[stop];
    "hovering over stop "@ + decimal((stop + 1) as nat) + " of "@ + decimal(spec.stops@.len())
        + " at X"@ + cur.x.spelling@ + " Y"@ + cur.y.spelling@ + " (byte "@ + decimal(
        cur.offset as nat,
    ) + "); move to the ragged edge on the part, then accept"@
}

/// What the preview shows of a stop.
pub open spec fn shows_stop(detail: Detail, spec: PreviewSpec, stop: int) -> bool {
    let cur = spec.stops@[stop];
    match detail {
        Detail::Stop {
            offset,
            resume_offset,
            x,
            y,
            z,
            layer,
            feature,
            on_infill,
            is_candidate,
            position,
            count,
            before_skip_forward,
        } => {
            &&& offset == cur.offset
            &&& resume_offset == cur.resume_offset
            &&& x == cur.x.num
            &&& y == cur.y.num
            &&& z == cur.z
            &&& layer == cur.layer
            &&& feature@ == cur.feature@
            &&& on_infill == cur.on_infill
            &&& is_candidate == cur.is_candidate
            &&& position == stop + 1
            &&& count == spec.stops@.len()
            &&& before_skip_forward == (stop < spec.default_index)
        },
        _ => false,
    }
}

/// What the preview shows of a stop.
pub fn preview_detail(spec: &PreviewSpec, stop: usize) -> (r: Detail)
    requires
        stop < spec.stops@.len(),
    ensures
        shows_stop(r, *spec, stop as int),
{
    let cur = &spec.stops[stop];
    let count: usize = spec.stops.len();
    Detail::Stop {
        offset: cur.offset,
        resume_offset: cur.resume_offset,
        x: cur.x.num,
        y: cur.y.num,
        z: cur.z,
        layer: cur.layer,
        feature: cur.feature.clone(),
        on_infill: cur.on_infill,
        is_candidate: cur.is_candidate,
        position: stop + 1,
        count,
        before_skip_forward: stop < index_usize(spec.default_index),
    }
}

/// `r` is the preview's question at a stop.
pub open spec fn stop_asked(
    r: ConfirmPoint,
    spec: PreviewSpec,
    stop: int,
    step: RecoveryStep,
    deadline: Span,
) -> bool {
    &&& r.kind == ConfirmKind::Preview
    &&& r.step_id == step.id
    &&& r.phase@ == step.phase_name@
    &&& r.diagnosis.says(
        PREVIEW_CODE@,
        Tier::Advisory,
        preview_what(spec, stop),
        (if stop < spec.default_index {
            PREVIEW_WHY_BEFORE@
        } else {
            PREVIEW_WHY@
        }),
        PREVIEW_FIX@,
    )
    &&& r.diagnosis.measured is None
    &&& r.diagnosis.expected is None
    &&& shows_stop(r.detail, spec, stop)
    &&& r.deadline == deadline
}

/// The preview's question at a stop. A stop before the default carries a
/// warning: accepting it re-prints geometry that may exist.
pub fn preview_point(
    spec: &PreviewSpec,
    stop: usize,
    step: &RecoveryStep,
    deadline: Span,
) -> (r: ConfirmPoint)
    requires
        stop < spec.stops@.len(),
    ensures
        stop_asked(r, *spec, stop as int, *step, deadline),
{
    let cur = &spec.stops[stop];
    let count: usize = spec.stops.len();
    let place = decimal_of((stop + 1) as u64);
    let total = decimal_of(count as u64);
    let offset = decimal_of(cur.offset);
    let mut what = "hovering over stop ".to_owned();
    what.append(place.as_str());
    what.append(" of ");
    what.append(total.as_str());
    what.append(" at X");
    what.append(cur.x.spelling.as_str());
    what.append(" Y");
    what.append(cur.y.spelling.as_str());
    what.append(" (byte ");
    what.append(offset.as_str());
    what.append("); move to the ragged edge on the part, then accept");
    let why = if stop < index_usize(spec.default_index) {
        PREVIEW_WHY_BEFORE.to_owned()
    } else {
        PREVIEW_WHY.to_owned()
    };
    ConfirmPoint {
        kind: ConfirmKind::Preview,
        step_id: step.id,
        phase: step.phase_name.clone(),
        diagnosis: Diagnosis::new(PREVIEW_CODE, Tier::Advisory, what, why, PREVIEW_FIX.to_owned()),
        detail: preview_detail(spec, stop),
        deadline,
    }
}

/// The move that hovers over a stop: X and Y only, at the feedrate of the
/// preview.
pub open spec fn hover_text(spec: PreviewSpec, stop: int) -> Seq<char> {
    let cur = spec.stops@[stop];
    "G1 X"@ + cur.x.spelling@ + " Y"@ + cur.y.spelling@ + " F"@ + spec.travel_feed.spelling@
}

/// The move that hovers over a stop.
pub fn hover_command(spec: &PreviewSpec, stop: usize) -> (r: String)
    requires
        stop < spec.stops@.len(),
    ensures
        r@ == hover_text(*spec, stop as int),
{
    let cur = &spec.stops[stop];
    let mut out = "G1 X".to_owned();
    out.append(cur.x.spelling.as_str());
    out.append(" Y");
    out.append(cur.y.spelling.as_str());
    out.append(" F");
    out.append(spec.travel_feed.spelling.as_str());
    out
}

/// What an execution sends where it stands: a command of the current step with
/// its placeholders resolved, a preview move, or a cleanup command.
pub open spec fn script_text(plan: RecoveryPlan, s: Executor) -> Seq<char> {
    match s.stage {
        Stage::Send(command) => command_of(plan, s, command as int)->Text_0,
        Stage::PreviewMove(c) => hover_text(plan.preview->0, c.stop as int),
        Stage::Cleanup { step, command } => cleanup_text(
            plan.steps@[step as int].cleanup_commands@[command as int]@,
            spelled(s.phase_accel),
            spelled(s.machine_accel),
        )->0,
        _ => Seq::empty(),
    }
}

impl Executor {
    /// The command to send at a stage that sends one.
    pub fn script(&self, plan: &RecoveryPlan) -> (r: Option<String>)
        requires
            well_formed(*plan, *self),
        ensures
            r is Some <==> self.stage is Send || self.stage is PreviewMove || self.stage is Cleanup,
            r matches Some(text) ==> text@ == script_text(*plan, *self),
    {
        match self.stage {
            Stage::Send(command) => {
                match resolve_command(
                    plan.steps[self.step].commands[command].as_str(),
                    self.computed.as_ref(),
                    self.machine_accel.as_ref(),
                ) {
                    Ok(text) => Some(text),
                    Err(_) => None,
                }
            },
            Stage::PreviewMove(c) => match &plan.preview {
                Some(spec) => Some(hover_command(spec, c.stop)),
                None => None,
            },
            Stage::Cleanup { step, command } => resolve_cleanup(
                plan.steps[step].cleanup_commands[command].as_str(),
                self.phase_accel.as_ref(),
                self.machine_accel.as_ref(),
            ),
            _ => None,
        }
    }
}

/// The question that an execution waits to have answered.
pub open spec fn asked(plan: RecoveryPlan, s: Executor) -> Option<Pause> {
    match s.stage {
        Stage::Warning(w) => Some(Pause::Warning(w)),
        Stage::StepDebug => Some(Pause::StepDebug),
        Stage::ZHeight => Some(Pause::ZHeight),
        Stage::PreviewAsk(_) => Some(Pause::Preview),
        _ => None,
    }
}

impl Executor {
    /// The question to put at a stage that asks one, held to the operator's
    /// deadline or else to the daemon's.
    pub fn question(&self, plan: &RecoveryPlan, options: &ExecOptions) -> (r: Option<ConfirmPoint>)
        requires
            well_formed(*plan, *self),
        ensures
            r is Some <==> asked(*plan, *self) is Some,
            r matches Some(point) ==> {
                let deadline = duration_or(plan.confirm_timeout_s, options.confirm_timeout);
                match self.stage {
                    Stage::Warning(w) => warning_asked(point, *plan, w as int, deadline),
                    Stage::StepDebug => step_asked(point, current(*plan, *self), deadline),
                    Stage::ZHeight => height_asked(
                        point,
                        *plan,
                        current(*plan, *self),
                        self.computed,
                        self.height,
                        deadline,
                    ),
                    Stage::PreviewAsk(c) => stop_asked(
                        point,
                        plan.preview->0,
                        c.stop as int,
                        current(*plan, *self),
                        deadline,
                    ),
                    _ => true,
                }
            },
    {
        let deadline = plan_duration_or(plan.confirm_timeout_s, options.confirm_timeout);
        match self.stage {
            Stage::Warning(w) => Some(preflight_point(plan, w, deadline)),
            Stage::StepDebug => Some(step_debug_point(&plan.steps[self.step], deadline)),
            Stage::ZHeight => Some(
                z_confirm_point(
                    plan,
                    &plan.steps[self.step],
                    &self.computed,
                    &self.height,
                    deadline,
                ),
            ),
            Stage::PreviewAsk(c) => match &plan.preview {
                Some(spec) => Some(
                    preview_point(spec, c.stop, &plan.steps[self.step], deadline),
                ),
                None => None,
            },
            _ => None,
        }
    }

    /// The printer object to query at a stage that waits for a status.
    pub fn object(&self, plan: &RecoveryPlan) -> (r: Option<String>)
        requires
            well_formed(*plan, *self),
        ensures
            match self.stage {
                Stage::Verify { check, again } => r matches Some(name) && name@ == check_of(
                    current(*plan, *self),
                    check,
                ).object@,
                Stage::Read(field) => r matches Some(name) && name@ == field_path(field).0,
                Stage::ReadLiveZ => r matches Some(name) && name@ == "toolhead"@,
                _ => r is None,
            },
    {
        match self.stage {
            Stage::Verify { check, .. } => match check {
                Check::Pre(i) => Some(plan.steps[self.step].pre_verify[i].object.clone()),
                Check::Post(i) => Some(plan.steps[self.step].verify[i].object.clone()),
            },
            Stage::Read(Field::Trigger(source)) => Some(trigger_field(source).0.to_owned()),
            Stage::Read(Field::Height) => Some("toolhead".to_owned()),
            Stage::Read(Field::Accel) => Some("toolhead".to_owned()),
            Stage::ReadLiveZ => Some("toolhead".to_owned()),
            _ => None,
        }
    }
}

/// How long a verification is polled.
pub open spec fn poll_limit(predicate: Predicate, options: ExecOptions) -> Span {
    match predicate {
        Predicate::TempWithin { .. } => options.temp_timeout,
        _ => options.verify_timeout,
    }
}

/// How long a verification is polled: temperatures for longer.
pub fn poll_timeout(predicate: &Predicate, options: &ExecOptions) -> (r: Span)
    ensures
        r == (if *predicate is TempWithin {
            options.temp_timeout
        } else {
            options.verify_timeout
        }),
        r == poll_limit(*predicate, *options),
{
    match predicate {
        Predicate::TempWithin { .. } => options.temp_timeout,
        _ => options.verify_timeout,
    }
}

/// A field's name.
pub open spec fn field_name(field: Field) -> Seq<char> {
    field_path(field).0 + "."@ + field_path(field).1
}

fn name_field(field: Field) -> (r: String)
    ensures
        r@ == field_name(field),
{
    let (object, path) = match field {
        Field::Trigger(source) => trigger_field(source),
        Field::Height => ("toolhead", "position.2"),
        Field::Accel => ("toolhead", "max_accel"),
    };
    let mut out = object.to_owned();
    out.append(".");
    out.append(path);
    out
}

/// What a command without a computed value reports.
pub const NO_COMPUTED_TEXT: &'static str = "command carries a runtime placeholder but the step has no computed value";

/// What a command without a recorded acceleration reports.
pub const NO_MACHINE_ACCEL_TEXT: &'static str = "command carries {machine_accel} but no machine accel was recorded";

/// What an accepted stop without a binding reports.
pub const NO_BINDING_TEXT: &'static str = "accepted preview stop has no recovery binding";

/// The observed value in words.
pub open spec fn observed_text(observed: Option<String>) -> Seq<char> {
    match observed {
        Some(s) => s@,
        None => "absent"@,
    }
}

/// `stop` reports `cause` at `step`.
pub open spec fn reports(plan: RecoveryPlan, step: RecoveryStep, cause: Cause, stop: StopCause) -> bool {
    match cause {
        Cause::Verification { check, observed } => match stop {
            StopCause::VerificationFailed { verification, observed: seen } => {
                &&& verification@ == described(check_of(step, check))
                &&& seen@ == observed_text(observed)
            },
            _ => false,
        },
        Cause::Transport(error) => stop == StopCause::Transport(error),
        Cause::Command(error) => stop == (StopCause::CommandFailed {
            failure: failure_class(error@),
            message: error,
        }),
        Cause::Absent(field) => stop matches StopCause::ComputeFailed(t) && t@ == field_name(field)
            + " absent from status"@,
        Cause::NotFinite(field) => stop matches StopCause::ComputeFailed(t) && t@ == field_name(
            field,
        ) + " is not a finite number"@,
        Cause::Compute(error) => stop == StopCause::ComputeFailed(error),
        Cause::Placeholder(Unresolved::NoComputed) => stop matches StopCause::ComputeFailed(t) && t@
            == NO_COMPUTED_TEXT@,
        Cause::Placeholder(Unresolved::NoMachineAccel) => stop matches StopCause::ComputeFailed(t)
            && t@ == NO_MACHINE_ACCEL_TEXT@,
        Cause::NoBinding => stop matches StopCause::ComputeFailed(t) && t@ == NO_BINDING_TEXT@,
        Cause::Write(reason) => stop matches StopCause::ComputeFailed(t) && t@
            == "recovery file write failed on accept: "@ + reason@,
        Cause::Gate => stop == StopCause::OperatorDeclined,
        Cause::Arm(reason) => stop == StopCause::FrameGuardUnwritable(reason),
        Cause::Refusal(w) => stop matches StopCause::HardDiagnosis { code } && code@
            == plan.warnings@[w as int].code@,
        Cause::Declined(pause) => stop matches StopCause::ConfirmationDeclined { kind, code }
            && kind == pause_kind(pause) && code@ == pause_code(plan, pause),
        Cause::TimedOut(pause) => stop matches StopCause::ConfirmationTimedOut { kind, code }
            && kind == pause_kind(pause) && code@ == pause_code(plan, pause),
        Cause::Exclusivity(reason) => stop == StopCause::ExclusivityLost(reason),
    }
}

/// Reports a cause.
pub fn stop_cause(plan: &RecoveryPlan, step: &RecoveryStep, cause: &Cause) -> (r: StopCause)
    requires
        names_places(*plan, *step, *cause),
    ensures
        reports(*plan, *step, *cause, r),
{
    match cause {
        Cause::Verification { check, observed } => {
            let verification = match check {
                Check::Pre(i) => describe_verification(&step.pre_verify[*i]),
                Check::Post(i) => describe_verification(&step.verify[*i]),
            };
            let observed = match observed {
                Some(s) => s.clone(),
                None => "absent".to_owned(),
            };
            StopCause::VerificationFailed { verification, observed }
        },
        Cause::Transport(error) => StopCause::Transport(error.clone()),
        Cause::Command(error) => StopCause::CommandFailed {
            failure: StepFailure::classify(error.as_str()),
            message: error.clone(),
        },
        Cause::Absent(field) => {
            let mut text = name_field(*field);
            text.append(" absent from status");
            StopCause::ComputeFailed(text)
        },
        Cause::NotFinite(field) => {
            let mut text = name_field(*field);
            text.append(" is not a finite number");
            StopCause::ComputeFailed(text)
        },
        Cause::Compute(error) => StopCause::ComputeFailed(error.clone()),
        Cause::Placeholder(missing) => match missing {
            Unresolved::NoComputed => StopCause::ComputeFailed(NO_COMPUTED_TEXT.to_owned()),
            Unresolved::NoMachineAccel => StopCause::ComputeFailed(
                NO_MACHINE_ACCEL_TEXT.to_owned(),
            ),
        },
        Cause::NoBinding => StopCause::ComputeFailed(NO_BINDING_TEXT.to_owned()),
        Cause::Write(reason) => {
            let mut text = "recovery file write failed on accept: ".to_owned();
            text.append(reason.as_str());
            StopCause::ComputeFailed(text)
        },
        Cause::Gate => StopCause::OperatorDeclined,
        Cause::Arm(reason) => StopCause::FrameGuardUnwritable(reason.clone()),
        Cause::Refusal(w) => StopCause::HardDiagnosis { code: plan.warnings[*w].code },
        Cause::Declined(pause) => {
            let (kind, code) = pause_tag(plan, *pause);
            StopCause::ConfirmationDeclined { kind, code }
        },
        Cause::TimedOut(pause) => {
            let (kind, code) = pause_tag(plan, *pause);
            StopCause::ConfirmationTimedOut { kind, code }
        },
        Cause::Exclusivity(reason) => StopCause::ExclusivityLost(reason.clone()),
    }
}

/// The reason code of an abort: what really stopped it where the step's own
/// code would name a failure that never happened, else the step's own code.
pub open spec fn reason_code(plan: RecoveryPlan, step: RecoveryStep, cause: Cause) -> Seq<char> {
    match cause {
        Cause::Declined(_) => "confirmation-declined"@,
        Cause::TimedOut(_) => "confirmation-timeout"@,
        Cause::Arm(_) => "frame-interlock-unwritable"@,
        Cause::Exclusivity(_) => "exclusive-gcode-access-lost"@,
        Cause::Refusal(w) => plan.warnings@[w as int].code@,
        _ => step.abort_code@,
    }
}

/// Whether an abort at `step` leaves Klipper's Z frame unknown: at or after the
/// step that declares the shifted frame, unless that declaration was refused.
pub open spec fn invalidates_frame(plan: RecoveryPlan, step: RecoveryStep, cause: Cause) -> bool {
    !(cause is Arm) && match shifted_id(plan) {
        Some(sid) => step.id >= sid,
        None => false,
    }
}

/// What an execution that is over came to.
pub open spec fn concludes(plan: RecoveryPlan, s: Executor, outcome: ExecOutcome) -> bool {
    match (s.stage, outcome) {
        (Stage::Completed, ExecOutcome::Completed { steps }) => steps == plan.steps@.len(),
        (
            Stage::Aborted,
            ExecOutcome::Aborted { step_id, phase, reason, cause, frame_invalid },
        ) => {
            let step = current(plan, s);
            &&& step_id == step.id
            &&& phase@ == step.phase_name@
            &&& reason@ == reason_code(plan, step, s.cause->0)
            &&& reports(plan, step, s.cause->0, cause)
            &&& frame_invalid == invalidates_frame(plan, step, s.cause->0)
        },
        _ => false,
    }
}

impl Executor {
    /// What the execution came to, once it is over.
    pub fn outcome(&self, plan: &RecoveryPlan) -> (r: Option<ExecOutcome>)
        requires
            well_formed(*plan, *self),
        ensures
            r is Some <==> self.stage is Completed || self.stage is Aborted,
            r matches Some(outcome) ==> concludes(*plan, *self, outcome),
    {
        match self.stage {
            Stage::Completed => Some(ExecOutcome::Completed { steps: plan.steps.len() }),
            Stage::Aborted => {
                let step = &plan.steps[self.step];
                match &self.cause {
                    Some(cause) => {
                        let reason = match cause {
                            Cause::Declined(_) => "confirmation-declined".to_owned(),
                            Cause::TimedOut(_) => "confirmation-timeout".to_owned(),
                            Cause::Arm(_) => "frame-interlock-unwritable".to_owned(),
                            Cause::Exclusivity(_) => "exclusive-gcode-access-lost".to_owned(),
                            Cause::Refusal(w) => plan.warnings[*w].code.to_owned(),
                            _ => step.abort_code.clone(),
                        };
                        let armed_out = match cause {
                            Cause::Arm(_) => true,
                            _ => false,
                        };
                        let frame_invalid = !armed_out && match plan.shifted() {
                            Some(sid) => step.id >= sid,
                            None => false,
                        };
                        Some(
                            ExecOutcome::Aborted {
                                step_id: step.id,
                                phase: step.phase_name.clone(),
                                reason,
                                cause: stop_cause(plan, step, cause),
                                frame_invalid,
                            },
                        )
                    },
                    None => None,
                }
            },
            _ => None,
        }
    }
}

/// A stop cause as it is written for diagnosis.
pub open spec fn cause_text(cause: StopCause) -> Seq<char> {
    match cause {
        StopCause::VerificationFailed { verification, observed } => {
            "VerificationFailed { verification: "@ + quoted_text(verification@) + ", observed: "@
                + quoted_text(observed@) + " }"@
        },
        StopCause::Transport(e) => "Transport("@ + quoted_text(e@) + ")"@,
        StopCause::CommandFailed { failure, message } => "CommandFailed { failure: "@
            + failure_name(failure) + ", message: "@ + quoted_text(message@) + " }"@,
        StopCause::ComputeFailed(e) => "ComputeFailed("@ + quoted_text(e@) + ")"@,
        StopCause::OperatorDeclined => "OperatorDeclined"@,
        StopCause::FrameGuardUnwritable(e) => "FrameGuardUnwritable("@ + quoted_text(e@) + ")"@,
        StopCause::HardDiagnosis { code } => "HardDiagnosis { code: "@ + quoted_text(code@) + " }"@,
        StopCause::ConfirmationDeclined { kind, code } => "ConfirmationDeclined { kind: "@
            + kind_name(kind) + ", code: "@ + quoted_text(code@) + " }"@,
        StopCause::ConfirmationTimedOut { kind, code } => "ConfirmationTimedOut { kind: "@
            + kind_name(kind) + ", code: "@ + quoted_text(code@) + " }"@,
        StopCause::ExclusivityLost(e) => "ExclusivityLost("@ + quoted_text(e@) + ")"@,
    }
}

/// The name of a failure class.
pub open spec fn failure_name(failure: StepFailure) -> Seq<char> {
    match failure {
        StepFailure::ProbeTriggeredEarly => "ProbeTriggeredEarly"@,
        StepFailure::NoTrigger => "NoTrigger"@,
        StepFailure::MoveOutOfRange => "MoveOutOfRange"@,
        StepFailure::Unknown => "Unknown"@,
    }
}

/// The name of a kind of pause.
pub open spec fn kind_name(kind: ConfirmKind) -> Seq<char> {
    match kind {
        ConfirmKind::Diagnosis => "Diagnosis"@,
        ConfirmKind::ZHeight => "ZHeight"@,
        ConfirmKind::StepDebug => "StepDebug"@,
        ConfirmKind::Preview => "Preview"@,
    }
}

fn name_kind(kind: ConfirmKind) -> (r: &'static str)
    ensures
        r@ == kind_name(kind),
{
    match kind {
        ConfirmKind::Diagnosis => "Diagnosis",
        ConfirmKind::ZHeight => "ZHeight",
        ConfirmKind::StepDebug => "StepDebug",
        ConfirmKind::Preview => "Preview",
    }
}

/// `before`, then `text` in quotes, then `after`.
fn around(before: &str, text: &str, after: &str) -> (r: String)
    ensures
        r@ == before@ + quoted_text(text@) + after@,
{
    let mut out = before.to_owned();
    let q = quoted(text);
    out.append(q.as_str());
    out.append(after);
    out
}

impl StopCause {
    /// The cause as it is written for diagnosis.
    pub fn describe(&self) -> (r: String)
        ensures
            r@ == cause_text(*self),
    {
        match self {
            StopCause::VerificationFailed { verification, observed } => {
                let mut out = around(
                    "VerificationFailed { verification: ",
                    verification.as_str(),
                    ", observed: ",
                );
                let seen = around("", observed.as_str(), " }");
                out.append(seen.as_str());
                proof {
                    reveal_strlit("");
                    assert(""@ =~= Seq::<char>::empty());
                    let head = "VerificationFailed { verification: "@ + quoted_text(verification@)
                        + ", observed: "@;
                    assert(""@ + quoted_text(observed@) + " }"@ =~= quoted_text(observed@) + " }"@);
                    assert(head + (quoted_text(observed@) + " }"@) =~= head + quoted_text(observed@)
                        + " }"@);
                }
                out
            },
            StopCause::Transport(e) => around("Transport(", e.as_str(), ")"),
            StopCause::CommandFailed { failure, message } => {
                let name = match failure {
                    StepFailure::ProbeTriggeredEarly => "ProbeTriggeredEarly",
                    StepFailure::NoTrigger => "NoTrigger",
                    StepFailure::MoveOutOfRange => "MoveOutOfRange",
                    StepFailure::Unknown => "Unknown",
                };
                let mut out = "CommandFailed { failure: ".to_owned();
                out.append(name);
                out.append(", message: ");
                around(out.as_str(), message.as_str(), " }")
            },
            StopCause::ComputeFailed(e) => around("ComputeFailed(", e.as_str(), ")"),
            StopCause::OperatorDeclined => "OperatorDeclined".to_owned(),
            StopCause::FrameGuardUnwritable(e) => around("FrameGuardUnwritable(", e.as_str(), ")"),
            StopCause::HardDiagnosis { code } => around("HardDiagnosis { code: ", code, " }"),
            StopCause::ConfirmationDeclined { kind, code } => {
                let mut out = "ConfirmationDeclined { kind: ".to_owned();
                out.append(name_kind(*kind));
                out.append(", code: ");
                around(out.as_str(), code, " }")
            },
            StopCause::ConfirmationTimedOut { kind, code } => {
                let mut out = "ConfirmationTimedOut { kind: ".to_owned();
                out.append(name_kind(*kind));
                out.append(", code: ");
                around(out.as_str(), code, " }")
            },
            StopCause::ExclusivityLost(e) => around("ExclusivityLost(", e.as_str(), ")"),
        }
    }
}

} // verus!
