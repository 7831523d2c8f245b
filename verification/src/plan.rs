//! The recovery plan, as the executor reads it: ordered steps, what each one
//! sends, computes and verifies, and the questions the plan puts to the
//! operator.

use vstd::prelude::*;

use crate::json::{bool_of, finite_of, here, text_of, Json, Kind};
use crate::number::{Num, Reading, Seconds, Span};
use crate::text::{contains, occurs, replace, replaced, same};

verus! {

/// Placeholder for the true Z that a live probe establishes.
pub const TRUE_Z_PLACEHOLDER: &'static str = "{true_z}";

/// Placeholder for the acceleration in force before the touch clamp.
pub const RESTORE_ACCEL_PLACEHOLDER: &'static str = "{restore_accel}";

/// Placeholder for the printer's own acceleration, recorded before the plan
/// changes anything.
pub const MACHINE_ACCEL_PLACEHOLDER: &'static str = "{machine_accel}";

/// Placeholder for a park or hover height.
pub const PARK_Z_PLACEHOLDER: &'static str = "{park_z}";

/// How strongly a diagnosis binds.
#[derive(Debug, Clone, Copy, PartialEq, Eq, Structural)]
pub enum Tier {
    /// Proceeds by default, loudly.
    Advisory,
    /// Pauses for an explicit answer.
    Confirmable,
    /// A refusal; only a deliberate configuration change permits it.
    Hard,
}

/// A value a diagnosis was measured from.
#[derive(Debug, PartialEq)]
pub struct Measured {
    /// What was measured.
    pub name: String,
    /// The measured value.
    pub value: Num,
    /// Its unit.
    pub unit: String,
}

/// A range a diagnosis expected.
#[derive(Debug, PartialEq)]
pub struct Expected {
    /// What the range is of.
    pub name: String,
    /// The lower end, if any.
    pub min: Option<Num>,
    /// The upper end, if any.
    pub max: Option<Num>,
    /// The unit.
    pub unit: String,
}

/// An explanation, in the one shape every diagnosis takes.
#[derive(Debug, PartialEq)]
pub struct Diagnosis {
    /// Stable code.
    pub code: &'static str,
    /// How strongly it binds.
    pub tier: Tier,
    /// What was observed.
    pub what: String,
    /// Why it matters.
    pub why: String,
    /// What to do about it.
    pub suggested_fix: String,
    /// The setting that would permit it, if there is one.
    pub override_key: Option<&'static str>,
    /// The measured value, if there is one.
    pub measured: Option<Measured>,
    /// The expected range, if there is one.
    pub expected: Option<Expected>,
}

impl Clone for Measured {
    fn clone(&self) -> (r: Measured)
        ensures
            r == *self,
    {
        Measured { name: self.name.clone(), value: self.value, unit: self.unit.clone() }
    }
}

impl Clone for Expected {
    fn clone(&self) -> (r: Expected)
        ensures
            r == *self,
    {
        Expected {
            name: self.name.clone(),
            min: self.min,
            max: self.max,
            unit: self.unit.clone(),
        }
    }
}

impl Clone for Diagnosis {
    fn clone(&self) -> (r: Diagnosis)
        ensures
            r == *self,
    {
        Diagnosis {
            code: self.code,
            tier: self.tier,
            what: self.what.clone(),
            why: self.why.clone(),
            suggested_fix: self.suggested_fix.clone(),
            override_key: self.override_key,
            measured: match &self.measured {
                Some(m) => Some(m.clone()),
                None => None,
            },
            expected: match &self.expected {
                Some(e) => Some(e.clone()),
                None => None,
            },
        }
    }
}

impl Diagnosis {
    /// The five parts that every diagnosis has, and nothing else.
    pub open spec fn says(
        self,
        code: Seq<char>,
        tier: Tier,
        what: Seq<char>,
        why: Seq<char>,
        fix: Seq<char>,
    ) -> bool {
        &&& self.code@ == code
        &&& self.tier == tier
        &&& self.what@ == what
        &&& self.why@ == why
        &&& self.suggested_fix@ == fix
        &&& self.override_key is None
    }

    /// A diagnosis without measurements.
    pub fn new(code: &'static str, tier: Tier, what: String, why: String, fix: String) -> (r: Self)
        ensures
            r.says(code@, tier, what@, why@, fix@),
            r.measured is None,
            r.expected is None,
    {
        Diagnosis {
            code,
            tier,
            what,
            why,
            suggested_fix: fix,
            override_key: None,
            measured: None,
            expected: None,
        }
    }
}

/// The phases whose place in the plan the executor acts on.
#[derive(Debug, Clone, Copy, PartialEq, Eq, Structural)]
pub enum Phase {
    /// Declares the shifted probing frame; from here on Klipper's Z is only as
    /// good as the plan's completion.
    ShiftedFrame,
    /// Declares the true Z.
    TrueZDeclare,
    /// Stands off so the operator can compare the believed Z with the nozzle.
    ZConfirmStandoff,
    /// Hovers so the operator can choose the resume point.
    ResumePreview,
    /// Any other phase.
    Other,
}

/// Where the trigger height of a probe is read.
#[derive(Debug, Clone, Copy, PartialEq, Eq, Structural)]
pub enum TriggerSource {
    /// The raw trigger Z.
    RawLastZResult,
    /// The bed Z, to which the probe offset is added.
    BedZPlusOffset,
    /// The drag result of the plugin.
    DragResult,
    /// The consensus touch of the plugin.
    TouchResult,
}

/// How the true Z follows from a probe.
#[derive(Debug, Clone, PartialEq)]
pub struct TrueZFormula {
    /// Top of the layer that was probed.
    pub z_prev_top: Reading,
    /// Where the trigger height is read.
    pub trigger_source: TriggerSource,
}

/// A value a step resolves while it runs.
#[derive(Debug, Clone, PartialEq)]
pub enum RuntimeComputation {
    /// The true Z at the halt position.
    TrueZ(TrueZFormula),
    /// An absolute height above the current Z.
    ParkZ {
        /// The lift.
        delta_z: Num,
        /// The rail limit.
        z_max: Option<Num>,
    },
    /// An absolute height that is never below the current Z.
    HoverPlane {
        /// The height aimed for.
        target_z: Num,
        /// The rail limit.
        z_max: Option<Num>,
    },
    /// The acceleration in force before the touch clamp.
    RecordMaxAccel,
    /// The printer's own acceleration.
    RecordMachineAccel,
}

/// What a verification demands of the value it reads.
#[derive(Debug, Clone, PartialEq)]
pub enum Predicate {
    /// A number within `epsilon` of `expected`.
    NumWithin {
        /// The expected number.
        expected: Num,
        /// The tolerance.
        epsilon: Num,
    },
    /// A number no less than `min`.
    NumAtLeast {
        /// The bound.
        min: Num,
    },
    /// A number no more than `max`.
    NumAtMost {
        /// The bound.
        max: Num,
    },
    /// A temperature between two bounds.
    TempWithin {
        /// The lower bound.
        min: Num,
        /// The upper bound.
        max: Num,
    },
    /// A string that holds `needle`.
    Contains {
        /// The text to find.
        needle: String,
    },
    /// A string that is `value`.
    Equals {
        /// The expected text.
        value: String,
    },
    /// The boolean `true`.
    BoolTrue,
    /// The boolean `false`.
    BoolFalse,
    /// Something present, and finite if it is a number.
    FinitePresent,
    /// An array with at least one non-empty row.
    NonEmptyMatrix,
    /// A number within `epsilon` of the value the step computed.
    NumWithinComputed {
        /// The tolerance.
        epsilon: Num,
    },
}

/// A demand on one field of one printer object.
#[derive(Debug, Clone, PartialEq)]
pub struct Verification {
    /// The printer object.
    pub object: String,
    /// The dotted path of the field; numeric segments index arrays.
    pub field: String,
    /// What the field must satisfy.
    pub predicate: Predicate,
    /// The predicate in words.
    pub description: String,
}

/// One step of a plan.
#[derive(Debug, Clone, PartialEq)]
pub struct RecoveryStep {
    /// The step's number in the plan.
    pub id: u32,
    /// Its phase.
    pub phase: Phase,
    /// The name of its phase.
    pub phase_name: String,
    /// What it does, in words.
    pub summary: String,
    /// The commands it sends, in order.
    pub commands: Vec<String>,
    /// What must hold before anything is sent.
    pub pre_verify: Vec<Verification>,
    /// What must hold once everything is sent.
    pub verify: Vec<Verification>,
    /// The value it resolves before sending.
    pub compute: Option<RuntimeComputation>,
    /// The commands that undo its side effects on an abort.
    pub cleanup_commands: Vec<String>,
    /// The code reported when it aborts.
    pub abort_code: String,
}

/// One candidate resume point.
#[derive(Debug, Clone, PartialEq)]
pub struct PreviewStop {
    /// Byte offset of its deposition line.
    pub offset: u64,
    /// Byte offset at which a resume starts.
    pub resume_offset: u64,
    /// Hover X.
    pub x: Reading,
    /// Hover Y.
    pub y: Reading,
    /// Its Z.
    pub z: Num,
    /// Its layer, if attributed.
    pub layer: Option<u32>,
    /// The name of its feature class.
    pub feature: String,
    /// Whether it lies on infill.
    pub on_infill: bool,
    /// Whether it matched the evidence.
    pub is_candidate: bool,
}

/// What a resume at one stop needs in the recovery file.
#[derive(Debug, Clone, PartialEq)]
pub struct PreviewBinding {
    /// Where the tail of the print file is taken from.
    pub tail_offset: u64,
    /// The moves that enter the print.
    pub entry_commands: Vec<String>,
}

/// The candidate resume points put to the operator.
#[derive(Debug, Clone, PartialEq)]
pub struct PreviewSpec {
    /// The stops along the toolpath.
    pub stops: Vec<PreviewStop>,
    /// Stop indices worth jumping between.
    pub representatives: Vec<u32>,
    /// The stop the preview opens on.
    pub default_index: u32,
    /// One binding per stop.
    pub bindings: Vec<PreviewBinding>,
    /// Feedrate of the hover moves.
    pub travel_feed: Reading,
}

/// The recovery file a plan selects.
#[derive(Debug, Clone, PartialEq)]
pub struct RecoveryFileSpec {
    /// Its name in the sdcard root.
    pub name: String,
    /// The name of the print file it was derived from.
    pub source_name: String,
}

/// A validated, ordered plan.
#[derive(Debug, Clone, PartialEq)]
pub struct RecoveryPlan {
    /// The steps, in order.
    pub steps: Vec<RecoveryStep>,
    /// The file the print resumes from.
    pub resume_file: String,
    /// The byte offset at which it resumes.
    pub resume_offset: u64,
    /// The recovery file it selects.
    pub recovery_file: RecoveryFileSpec,
    /// Whether to pause before every step.
    pub debug_confirm_each_step: bool,
    /// How long a pause waits for its answer, when the operator set it.
    pub confirm_timeout_s: Option<Seconds>,
    /// How long to wait for the g-code mutex, when the operator set it.
    pub gcode_barrier_timeout_s: Option<Seconds>,
    /// The resume points to choose from, when the operator is asked.
    pub preview: Option<PreviewSpec>,
    /// What the plan wants the operator to know.
    pub warnings: Vec<Diagnosis>,
    /// The plan as it is shown to the operator.
    pub rendered: String,
}

/// The index of the first step of `phase`, from `from` on.
pub open spec fn first_index_from(plan: RecoveryPlan, phase: Phase, from: int) -> Option<int>
    decreases plan.steps@.len() - from,
{
    if from < 0 || from >= plan.steps@.len() {
        None
    } else if plan.steps@[from].phase == phase {
        Some(from)
    } else {
        first_index_from(plan, phase, from + 1)
    }
}

/// The id of the first step that declares the shifted frame.
pub open spec fn shifted_id(plan: RecoveryPlan) -> Option<u32> {
    match first_index_from(plan, Phase::ShiftedFrame, 0) {
        Some(i) => Some(plan.steps@[i].id),
        None => None,
    }
}

impl RecoveryPlan {
    /// The index of the first step of `phase`.
    pub fn first_index(&self, phase: Phase) -> (r: Option<usize>)
        ensures
            r is Some <==> first_index_from(*self, phase, 0) is Some,
            r matches Some(i) ==> first_index_from(*self, phase, 0) == Some(i as int)
                && i < self.steps@.len(),
    {
        let mut i: usize = 0;
        while i < self.steps.len()
            invariant
                0 <= i <= self.steps@.len(),
                first_index_from(*self, phase, i as int) == first_index_from(*self, phase, 0),
            decreases self.steps@.len() - i,
        {
            if self.steps[i].phase == phase {
                return Some(i);
            }
            i = i + 1;
        }
        None
    }

    /// The id of the first step that declares the shifted frame.
    pub fn shifted(&self) -> (r: Option<u32>)
        ensures
            r == shifted_id(*self),
    {
        match self.first_index(Phase::ShiftedFrame) {
            Some(i) => Some(self.steps[i].id),
            None => None,
        }
    }
}

impl PreviewSpec {
    /// The binding of the stop at `index`.
    pub fn binding(&self, index: usize) -> (r: Option<&PreviewBinding>)
        ensures
            r is Some <==> index < self.bindings@.len(),
            r matches Some(b) ==> *b == self.bindings@[index as int],
    {
        if index < self.bindings.len() {
            Some(&self.bindings[index])
        } else {
            None
        }
    }
}

/// The duration in force for a `[plr]` setting: the operator's when it is
/// usable, that is finite and positive, else the daemon's own.
pub open spec fn duration_or(plan_value: Option<Seconds>, fallback: Span) -> Span {
    match plan_value {
        Some(s) => if s.value.finite() && s.value.positive() {
            s.span
        } else {
            fallback
        },
        None => fallback,
    }
}

/// Resolves one configurable duration.
pub fn plan_duration_or(plan_value: Option<Seconds>, fallback: Span) -> (r: Span)
    ensures
        r == duration_or(plan_value, fallback),
{
    match plan_value {
        Some(s) => if s.value.is_finite() && s.value.is_positive() {
            s.span
        } else {
            fallback
        },
        None => fallback,
    }
}

/// The number that a predicate measures its value's distance from.
pub open spec fn reference_of(predicate: Predicate, computed: Option<Num>) -> Option<Num> {
    match predicate {
        Predicate::NumWithin { expected, epsilon } => Some(expected),
        Predicate::NumWithinComputed { epsilon } => computed,
        _ => None,
    }
}

/// The number that a predicate measures its value's distance from: the caller
/// works out the distance and hands it to [`evaluate`].
pub fn reference(predicate: &Predicate, computed: Option<Num>) -> (r: Option<Num>)
    ensures
        r == reference_of(*predicate, computed),
{
    match predicate {
        Predicate::NumWithin { expected, .. } => Some(*expected),
        Predicate::NumWithinComputed { .. } => computed,
        _ => None,
    }
}

/// `distance` is known and no more than `epsilon`.
pub open spec fn near(distance: Option<Num>, epsilon: Num) -> bool {
    match distance {
        Some(d) => d.at_most(epsilon),
        None => false,
    }
}

/// A row with something in it.
pub open spec fn is_filled_row(v: Json) -> bool {
    match v.kind {
        Kind::Array(cells) => cells@.len() > 0,
        _ => false,
    }
}

/// Whether `value` satisfies `predicate`. An absent or mistyped value
/// satisfies nothing. `distance` is the absolute difference between the value
/// and the predicate's reference, when both exist.
pub open spec fn satisfied(
    predicate: Predicate,
    value: Option<Json>,
    computed: Option<Num>,
    distance: Option<Num>,
) -> bool {
    match (predicate, value) {
        (_, None) => false,
        (Predicate::NumWithin { expected, epsilon }, _) => finite_of(value) is Some && near(
            distance,
            epsilon,
        ),
        (Predicate::NumAtLeast { min }, _) => finite_of(value) matches Some(v) && min.at_most(v.num),
        (Predicate::NumAtMost { max }, _) => finite_of(value) matches Some(v) && v.num.at_most(max),
        (Predicate::TempWithin { min, max }, _) => finite_of(value) matches Some(v) && min.at_most(
            v.num,
        ) && v.num.at_most(max),
        (Predicate::Contains { needle }, _) => text_of(value) matches Some(s) && occurs(s, needle@),
        (Predicate::Equals { value: expected }, _) => text_of(value) == Some(expected@),
        (Predicate::BoolTrue, _) => bool_of(value) == Some(true),
        (Predicate::BoolFalse, _) => bool_of(value) == Some(false),
        (Predicate::FinitePresent, Some(v)) => match v.kind {
            Kind::Number(n) => n.reading.num.finite(),
            Kind::Null => false,
            _ => true,
        },
        (Predicate::NonEmptyMatrix, Some(v)) => match v.kind {
            Kind::Array(rows) => exists|i: int|
                0 <= i < rows@.len() && is_filled_row(#[trigger] rows@[i]),
            _ => false,
        },
        (Predicate::NumWithinComputed { epsilon }, _) => finite_of(value) is Some
            && computed is Some && near(distance, epsilon),
    }
}

/// Whether any row of an array holds something.
fn any_filled_row(rows: &Vec<Json>) -> (r: bool)
    ensures
        r == (exists|i: int| 0 <= i < rows@.len() && is_filled_row(#[trigger] rows@[i])),
{
    let mut i: usize = 0;
    while i < rows.len()
        invariant
            0 <= i <= rows@.len(),
            forall|j: int| 0 <= j < i ==> !is_filled_row(#[trigger] rows@[j]),
        decreases rows@.len() - i,
    {
        if let Kind::Array(cells) = &rows[i].kind {
            if cells.len() > 0 {
                assert(is_filled_row(rows@[i as int]));
                return true;
            }
        }
        i = i + 1;
    }
    false
}

/// Evaluates one predicate against an observed value. Total: absent or
/// mistyped values simply do not satisfy it.
pub fn evaluate(
    predicate: &Predicate,
    value: Option<&Json>,
    computed: Option<Num>,
    distance: Option<Num>,
) -> (r: bool)
    ensures
        r == satisfied(*predicate, here(value), computed, distance),
{
    let value = match value {
        Some(v) => v,
        None => {
            return false;
        },
    };
    let num: Option<Num> = match value.as_num() {
        Some(n) => if n.is_finite() {
            Some(n)
        } else {
            None
        },
        None => None,
    };
    match predicate {
        Predicate::NumWithin { epsilon, .. } => match (num, distance) {
            (Some(_), Some(d)) => d.le(*epsilon),
            _ => false,
        },
        Predicate::NumAtLeast { min } => match num {
            Some(v) => min.le(v),
            None => false,
        },
        Predicate::NumAtMost { max } => match num {
            Some(v) => v.le(*max),
            None => false,
        },
        Predicate::TempWithin { min, max } => match num {
            Some(v) => min.le(v) && v.le(*max),
            None => false,
        },
        Predicate::Contains { needle } => match value.as_str() {
            Some(s) => contains(s, needle.as_str()),
            None => false,
        },
        Predicate::Equals { value: expected } => match value.as_str() {
            Some(s) => same(s, expected.as_str()),
            None => false,
        },
        Predicate::BoolTrue => match value.as_bool() {
            Some(b) => b,
            None => false,
        },
        Predicate::BoolFalse => match value.as_bool() {
            Some(b) => !b,
            None => false,
        },
        Predicate::FinitePresent => match &value.kind {
            Kind::Number(n) => n.reading.num.is_finite(),
            Kind::Null => false,
            _ => true,
        },
        Predicate::NonEmptyMatrix => match &value.kind {
            Kind::Array(rows) => any_filled_row(rows),
            _ => false,
        },
        Predicate::NumWithinComputed { epsilon } => match (num, computed, distance) {
            (Some(_), Some(_), Some(d)) => d.le(*epsilon),
            _ => false,
        },
    }
}

/// The printer object and field that hold the trigger height.
pub open spec fn trigger_field_of(source: TriggerSource) -> (Seq<char>, Seq<char>) {
    match source {
        TriggerSource::RawLastZResult => ("probe"@, "last_z_result"@),
        TriggerSource::BedZPlusOffset => ("probe"@, "last_probe_position.2"@),
        TriggerSource::DragResult => ("plr"@, "last_drag_result.trigger_z"@),
        TriggerSource::TouchResult => ("plr"@, "last_touch_result.median_z"@),
    }
}

/// The printer object and field that hold the trigger height.
pub fn trigger_field(source: TriggerSource) -> (r: (&'static str, &'static str))
    ensures
        (r.0@, r.1@) == trigger_field_of(source),
{
    match source {
        TriggerSource::RawLastZResult => ("probe", "last_z_result"),
        TriggerSource::BedZPlusOffset => ("probe", "last_probe_position.2"),
        TriggerSource::DragResult => ("plr", "last_drag_result.trigger_z"),
        TriggerSource::TouchResult => ("plr", "last_touch_result.median_z"),
    }
}

/// A command that wants the value its step computed.
pub open spec fn wants_computed(command: Seq<char>) -> bool {
    ||| occurs(command, TRUE_Z_PLACEHOLDER@)
    ||| occurs(command, RESTORE_ACCEL_PLACEHOLDER@)
    ||| occurs(command, PARK_Z_PLACEHOLDER@)
}

/// `command` with `value` written for each placeholder of a computed value.
pub open spec fn with_computed(command: Seq<char>, value: Seq<char>) -> Seq<char> {
    replaced(
        replaced(replaced(command, TRUE_Z_PLACEHOLDER@, value), RESTORE_ACCEL_PLACEHOLDER@, value),
        PARK_Z_PLACEHOLDER@,
        value,
    )
}

/// What a step's command resolves to.
pub enum Resolved {
    /// The text to send.
    Text(Seq<char>),
    /// It wants a computed value and there is none.
    NoComputed,
    /// It wants the machine's acceleration and none was recorded.
    NoMachineAccel,
}

/// The spelling of a reading, if there is one.
pub open spec fn spelled(reading: Option<Reading>) -> Option<Seq<char>> {
    match reading {
        Some(r) => Some(r.spelling@),
        None => None,
    }
}

/// `command` with the machine's acceleration written in, where it wants it.
pub open spec fn with_machine(command: Seq<char>, machine: Option<Seq<char>>) -> Resolved {
    if occurs(command, MACHINE_ACCEL_PLACEHOLDER@) {
        match machine {
            Some(value) => Resolved::Text(replaced(command, MACHINE_ACCEL_PLACEHOLDER@, value)),
            None => Resolved::NoMachineAccel,
        }
    } else {
        Resolved::Text(command)
    }
}

/// What a step's command resolves to: the step's computed value is written
/// first, then the machine's acceleration.
pub open spec fn resolved(
    command: Seq<char>,
    computed: Option<Seq<char>>,
    machine: Option<Seq<char>>,
) -> Resolved {
    if wants_computed(command) {
        match computed {
            Some(value) => with_machine(with_computed(command, value), machine),
            None => Resolved::NoComputed,
        }
    } else {
        with_machine(command, machine)
    }
}

/// Why a command could not be resolved.
#[derive(Debug, Clone, Copy, PartialEq, Eq, Structural)]
pub enum Unresolved {
    /// It wants a computed value and there is none.
    NoComputed,
    /// It wants the machine's acceleration and none was recorded.
    NoMachineAccel,
}

/// Resolves the placeholders of one command.
pub fn resolve_command(
    command: &str,
    computed: Option<&Reading>,
    machine: Option<&Reading>,
) -> (r: Result<String, Unresolved>)
    ensures
        match resolved(
            command@,
            (if computed is Some { Some(computed->0.spelling@) } else { None }),
            (if machine is Some { Some(machine->0.spelling@) } else { None }),
        ) {
            Resolved::Text(t) => r matches Ok(s) && s@ == t,
            Resolved::NoComputed => r == Err::<String, Unresolved>(Unresolved::NoComputed),
            Resolved::NoMachineAccel => r == Err::<String, Unresolved>(Unresolved::NoMachineAccel),
        },
{
    proof {
        reveal_strlit("{true_z}");
        reveal_strlit("{restore_accel}");
        reveal_strlit("{park_z}");
        reveal_strlit("{machine_accel}");
    }
    let wants = contains(command, TRUE_Z_PLACEHOLDER) || contains(
        command,
        RESTORE_ACCEL_PLACEHOLDER,
    ) || contains(command, PARK_Z_PLACEHOLDER);
    let text: String = if wants {
        match computed {
            Some(value) => {
                let a = replace(command, TRUE_Z_PLACEHOLDER, value.spelling.as_str());
                let b = replace(
                    a.as_str(),
                    RESTORE_ACCEL_PLACEHOLDER,
                    value.spelling.as_str(),
                );
                replace(b.as_str(), PARK_Z_PLACEHOLDER, value.spelling.as_str())
            },
            None => {
                return Err(Unresolved::NoComputed);
            },
        }
    } else {
        command.to_owned()
    };
    if contains(text.as_str(), MACHINE_ACCEL_PLACEHOLDER) {
        match machine {
            Some(value) => Ok(
                replace(text.as_str(), MACHINE_ACCEL_PLACEHOLDER, value.spelling.as_str()),
            ),
            None => Err(Unresolved::NoMachineAccel),
        }
    } else {
        Ok(text)
    }
}

/// What a cleanup command resolves to: at most one recorded acceleration is
/// written in. Absent when the one it wants was never recorded.
pub open spec fn cleanup_text(
    command: Seq<char>,
    phase: Option<Seq<char>>,
    machine: Option<Seq<char>>,
) -> Option<Seq<char>> {
    if occurs(command, RESTORE_ACCEL_PLACEHOLDER@) {
        match phase {
            Some(value) => Some(replaced(command, RESTORE_ACCEL_PLACEHOLDER@, value)),
            None => None,
        }
    } else if occurs(command, MACHINE_ACCEL_PLACEHOLDER@) {
        match machine {
            Some(value) => Some(replaced(command, MACHINE_ACCEL_PLACEHOLDER@, value)),
            None => None,
        }
    } else {
        Some(command)
    }
}

/// Resolves the placeholder of one cleanup command.
pub fn resolve_cleanup(
    command: &str,
    phase: Option<&Reading>,
    machine: Option<&Reading>,
) -> (r: Option<String>)
    ensures
        match cleanup_text(
            command@,
            (if phase is Some { Some(phase->0.spelling@) } else { None }),
            (if machine is Some { Some(machine->0.spelling@) } else { None }),
        ) {
            Some(t) => r matches Some(s) && s@ == t,
            None => r is None,
        },
{
    proof {
        reveal_strlit("{restore_accel}");
        reveal_strlit("{machine_accel}");
    }
    if contains(command, RESTORE_ACCEL_PLACEHOLDER) {
        match phase {
            Some(value) => Some(
                replace(command, RESTORE_ACCEL_PLACEHOLDER, value.spelling.as_str()),
            ),
            None => None,
        }
    } else if contains(command, MACHINE_ACCEL_PLACEHOLDER) {
        match machine {
            Some(value) => Some(
                replace(command, MACHINE_ACCEL_PLACEHOLDER, value.spelling.as_str()),
            ),
            None => None,
        }
    } else {
        Some(command.to_owned())
    }
}

} // verus!
