//! What the pipeline tells the operator while it works, line by line.

use vstd::prelude::*;

use crate::text::{decimal, decimal_of, join, joined, texts};

verus! {

/// What was left of the print behind the place it was tested at.
#[derive(Debug, Clone, PartialEq)]
pub enum RemainingWork {
    /// Printing.
    Extrusion,
    /// Nothing but commands of the end sequence.
    EndSequenceOnly {
        /// Those commands.
        commands: Vec<String>,
    },
    /// Nothing.
    Nothing,
}

/// Why a print needed no recovery although its log ended uncleanly.
#[derive(Debug, Clone, PartialEq)]
pub struct CompletionReport {
    /// Absolute path of the print file.
    pub file: String,
    /// The offset that was tested.
    pub tested_offset: u64,
    /// Size of the print file, bytes.
    pub file_size: u64,
    /// What was found behind the offset.
    pub work: RemainingWork,
}

/// The commands of the end sequence that did not run.
pub open spec fn unrun(work: RemainingWork) -> Seq<Seq<char>> {
    match work {
        RemainingWork::EndSequenceOnly { commands } => texts(commands@),
        _ => Seq::empty(),
    }
}

/// The bytes behind the tested offset.
pub open spec fn trailing(report: CompletionReport) -> nat {
    if report.tested_offset <= report.file_size {
        (report.file_size - report.tested_offset) as nat
    } else {
        0
    }
}

impl CompletionReport {
    /// Bytes of the file behind the tested offset.
    pub fn trailing_bytes(&self) -> (r: u64)
        ensures
            r == trailing(*self),
    {
        self.file_size.saturating_sub(self.tested_offset)
    }

    /// The commands of the end sequence that did not run. They are named, never
    /// run: an end macro homes and moves Z.
    pub fn unrun_commands(&self) -> (r: &[String])
        ensures
            texts(r@) == unrun(self.work),
    {
        match &self.work {
            RemainingWork::EndSequenceOnly { commands } => commands.as_slice(),
            RemainingWork::Extrusion | RemainingWork::Nothing => {
                let none: &[String] = &[];
                assert(texts(none@) =~= Seq::<Seq<char>>::empty());
                none
            },
        }
    }
}

/// The size of the log and how it ends.
pub open spec fn records_line(records: nat, tail: Seq<char>) -> Seq<char> {
    "pipeline: "@ + decimal(records) + " WAL records, tail: "@ + tail
}

pub(crate) fn records_text(records: u64, tail: &str) -> (r: String)
    ensures
        r@ == records_line(records as nat, tail@),
{
    let mut out = "pipeline: ".to_owned();
    let digits1 = decimal_of(records);
    out.append(digits1.as_str());
    out.append(" WAL records, tail: ");
    out.append(tail);
    out
}

/// That the log spans more than one session, and which of them is recovered.
pub open spec fn epochs_line(epochs: nat, older: nat, newer: nat) -> Seq<char> {
    "pipeline: WAL spans "@ + decimal(epochs) + " epochs; recovering the newest printing epoch ("@ + decimal(older) + " older, "@ + decimal(newer) + " newer discarded)"@
}

pub(crate) fn epochs_text(epochs: u64, older: u64, newer: u64) -> (r: String)
    ensures
        r@ == epochs_line(epochs as nat, older as nat, newer as nat),
{
    let mut out = "pipeline: WAL spans ".to_owned();
    let digits1 = decimal_of(epochs);
    out.append(digits1.as_str());
    out.append(" epochs; recovering the newest printing epoch (");
    let digits2 = decimal_of(older);
    out.append(digits2.as_str());
    out.append(" older, ");
    let digits3 = decimal_of(newer);
    out.append(digits3.as_str());
    out.append(" newer discarded)");
    out
}

/// The print file and its size.
pub open spec fn file_line(path: Seq<char>, size: nat) -> Seq<char> {
    "pipeline: print file "@ + path + " ("@ + decimal(size) + " bytes)"@
}

pub(crate) fn file_text(path: &str, size: u64) -> (r: String)
    ensures
        r@ == file_line(path@, size as nat),
{
    let mut out = "pipeline: print file ".to_owned();
    out.append(path);
    out.append(" (");
    let digits1 = decimal_of(size);
    out.append(digits1.as_str());
    out.append(" bytes)");
    out
}

/// The stop window.
pub open spec fn window_line(t_a: Seq<char>, t_b: Seq<char>, class: Seq<char>) -> Seq<char> {
    "pipeline: stop window t_a "@ + t_a + "s .. t_b "@ + t_b + "s, class "@ + class
}

pub(crate) fn window_text(t_a: &str, t_b: &str, class: &str) -> (r: String)
    ensures
        r@ == window_line(t_a@, t_b@, class@),
{
    let mut out = "pipeline: stop window t_a ".to_owned();
    out.append(t_a);
    out.append("s .. t_b ");
    out.append(t_b);
    out.append("s, class ");
    out.append(class);
    out
}

/// The layer model that was replayed.
pub open spec fn model_line(base: nat, layers: nat) -> Seq<char> {
    "pipeline: layer model from byte "@ + decimal(base) + ": "@ + decimal(layers) + " layers"@
}

pub(crate) fn model_text(base: u64, layers: u64) -> (r: String)
    ensures
        r@ == model_line(base as nat, layers as nat),
{
    let mut out = "pipeline: layer model from byte ".to_owned();
    let digits1 = decimal_of(base);
    out.append(digits1.as_str());
    out.append(": ");
    let digits2 = decimal_of(layers);
    out.append(digits2.as_str());
    out.append(" layers");
    out
}

/// The refusal when no context names the print file.
pub open spec fn anchor_line(path: Seq<char>) -> Seq<char> {
    "no WAL context names "@ + path
}

pub(crate) fn anchor_text(path: &str) -> (r: String)
    ensures
        r@ == anchor_line(path@),
{
    let mut out = "no WAL context names ".to_owned();
    out.append(path);
    out
}

/// The refusal when a context points behind the end of the file.
pub open spec fn beyond_line(base: nat, size: nat) -> Seq<char> {
    "context file offset "@ + decimal(base) + " exceeds the file ("@ + decimal(size) + " bytes); wrong file?"@
}

pub(crate) fn beyond_text(base: u64, size: u64) -> (r: String)
    ensures
        r@ == beyond_line(base as nat, size as nat),
{
    let mut out = "context file offset ".to_owned();
    let digits1 = decimal_of(base);
    out.append(digits1.as_str());
    out.append(" exceeds the file (");
    let digits2 = decimal_of(size);
    out.append(digits2.as_str());
    out.append(" bytes); wrong file?");
    out
}

/// The result of the stop-point match.
pub open spec fn matched_line(confidence: Seq<char>, candidates: nat) -> Seq<char> {
    "pipeline: match confidence "@ + confidence + " ("@ + decimal(candidates) + " candidates)"@
}

pub(crate) fn matched_text(confidence: &str, candidates: u64) -> (r: String)
    ensures
        r@ == matched_line(confidence@, candidates as nat),
{
    let mut out = "pipeline: match confidence ".to_owned();
    out.append(confidence);
    out.append(" (");
    let digits1 = decimal_of(candidates);
    out.append(digits1.as_str());
    out.append(" candidates)");
    out
}

/// A match without a verdict.
pub open spec fn inconclusive_line(lines: nat, layers: Seq<char>) -> Seq<char> {
    "pipeline: match inconclusive: "@ + decimal(lines) + " candidate lines across layers "@ + layers + "; routing the raw evidence through the resume-point preview"@
}

pub(crate) fn inconclusive_text(lines: u64, layers: &str) -> (r: String)
    ensures
        r@ == inconclusive_line(lines as nat, layers@),
{
    let mut out = "pipeline: match inconclusive: ".to_owned();
    let digits1 = decimal_of(lines);
    out.append(digits1.as_str());
    out.append(" candidate lines across layers ");
    out.append(layers);
    out.append("; routing the raw evidence through the resume-point preview");
    out
}

/// A preview that was declined.
pub open spec fn declined_line(why: Seq<char>) -> Seq<char> {
    "resume preview declined ("@ + why + "); manual recovery required"@
}

pub(crate) fn declined_text(why: &str) -> (r: String)
    ensures
        r@ == declined_line(why@),
{
    let mut out = "resume preview declined (".to_owned();
    out.append(why);
    out.append("); manual recovery required");
    out
}

/// The probe sites that were found.
pub open spec fn probes_line(count: nat, x: Seq<char>, y: Seq<char>) -> Seq<char> {
    "pipeline: "@ + decimal(count) + " probe candidate(s); best at ("@ + x + ", "@ + y + ")"@
}

pub(crate) fn probes_text(count: u64, x: &str, y: &str) -> (r: String)
    ensures
        r@ == probes_line(count as nat, x@, y@),
{
    let mut out = "pipeline: ".to_owned();
    let digits1 = decimal_of(count);
    out.append(digits1.as_str());
    out.append(" probe candidate(s); best at (");
    out.append(x);
    out.append(", ");
    out.append(y);
    out.append(")");
    out
}

/// Said when there is no offset window to map.
pub const NO_WINDOW: &'static str = "pipeline: layer attribution: no offset window (nothing to map)";

/// Said when the slicer marked no layer.
pub const NO_MARK: &'static str = "pipeline: layer marks unavailable (slicer emitted no SET_PRINT_STATS_INFO); geometric attribution above carries the answer";

/// The layers of the stop, when the model begins at the start of the file.
pub open spec fn absolute_line(described: Seq<char>, start: nat, end: nat) -> Seq<char> {
    "pipeline: layer attribution: "@ + described + " (offset window bytes "@ + decimal(start) + "..="@ + decimal(end) + ")"@
}

pub(crate) fn absolute_text(described: &str, start: u64, end: u64) -> (r: String)
    ensures
        r@ == absolute_line(described@, start as nat, end as nat),
{
    let mut out = "pipeline: layer attribution: ".to_owned();
    out.append(described);
    out.append(" (offset window bytes ");
    let digits1 = decimal_of(start);
    out.append(digits1.as_str());
    out.append("..=");
    let digits2 = decimal_of(end);
    out.append(digits2.as_str());
    out.append(")");
    out
}

/// The layers of the stop, when the model begins in the middle of the file.
pub open spec fn relative_line(layers: nat, preamble: Seq<char>, start: nat, end: nat, base: nat) -> Seq<char> {
    "pipeline: layer attribution: stop spans "@ + decimal(layers) + " geometric layer(s)"@ + preamble + " within the offset window bytes "@ + decimal(start) + "..="@ + decimal(end) + ", window-relative to the resume anchor at byte "@ + decimal(base) + " (absolute layer numbers would require modeling from file start)"@
}

pub(crate) fn relative_text(layers: u64, preamble: &str, start: u64, end: u64, base: u64) -> (r: String)
    ensures
        r@ == relative_line(layers as nat, preamble@, start as nat, end as nat, base as nat),
{
    let mut out = "pipeline: layer attribution: stop spans ".to_owned();
    let digits1 = decimal_of(layers);
    out.append(digits1.as_str());
    out.append(" geometric layer(s)");
    out.append(preamble);
    out.append(" within the offset window bytes ");
    let digits2 = decimal_of(start);
    out.append(digits2.as_str());
    out.append("..=");
    let digits3 = decimal_of(end);
    out.append(digits3.as_str());
    out.append(", window-relative to the resume anchor at byte ");
    let digits4 = decimal_of(base);
    out.append(digits4.as_str());
    out.append(" (absolute layer numbers would require modeling from file start)");
    out
}

/// A layer mark that nothing can be held against.
pub open spec fn verbatim_line(mark: nat, of: Seq<char>) -> Seq<char> {
    "pipeline: slicer reported current_layer="@ + decimal(mark) + of + " (absolute) — no consistency check: the geometric attribution above is window-relative to a mid-file anchor, not an absolute layer number"@
}

fn verbatim_text(mark: u32, of: &str) -> (r: String)
    ensures
        r@ == verbatim_line(mark as nat, of@),
{
    let mut out = "pipeline: slicer reported current_layer=".to_owned();
    let digits1 = decimal_of(mark as u64);
    out.append(digits1.as_str());
    out.append(of);
    out.append(" (absolute) — no consistency check: the geometric attribution above is window-relative to a mid-file anchor, not an absolute layer number");
    out
}

/// A layer mark that agrees with the geometry.
pub open spec fn agreeing_line(mark: nat, of: Seq<char>) -> Seq<char> {
    "pipeline: slicer layer mark current_layer="@ + decimal(mark) + of + " (upper bound on the physical layer; parse leads execution) — consistent with the geometric attribution above (cross-check, not a narrowing)"@
}

fn agreeing_text(mark: u32, of: &str) -> (r: String)
    ensures
        r@ == agreeing_line(mark as nat, of@),
{
    let mut out = "pipeline: slicer layer mark current_layer=".to_owned();
    let digits1 = decimal_of(mark as u64);
    out.append(digits1.as_str());
    out.append(of);
    out.append(" (upper bound on the physical layer; parse leads execution) — consistent with the geometric attribution above (cross-check, not a narrowing)");
    out
}

/// A layer mark below the geometry.
pub open spec fn below_line(mark: nat, of: Seq<char>) -> Seq<char> {
    "pipeline: NOTE slicer layer mark current_layer="@ + decimal(mark) + of + " is BELOW every geometrically attributed layer — the mark is an upper bound on the physical layer, so geometry above it is unexpected; trusting geometry, flagging the discrepancy for evidence review"@
}

fn below_text(mark: u32, of: &str) -> (r: String)
    ensures
        r@ == below_line(mark as nat, of@),
{
    let mut out = "pipeline: NOTE slicer layer mark current_layer=".to_owned();
    let digits1 = decimal_of(mark as u64);
    out.append(digits1.as_str());
    out.append(of);
    out.append(" is BELOW every geometrically attributed layer — the mark is an upper bound on the physical layer, so geometry above it is unexpected; trusting geometry, flagging the discrepancy for evidence review");
    out
}

/// A finished print.
pub open spec fn complete_line(tested: nat, size: nat, rest: nat) -> Seq<char> {
    "pipeline: the print is COMPLETE — no extrusion remains after byte "@ + decimal(tested) + " of "@ + decimal(size) + " ("@ + decimal(rest) + " trailing bytes are the slicer footer); nothing to resume"@
}

fn complete_text(tested: u64, size: u64, rest: u64) -> (r: String)
    ensures
        r@ == complete_line(tested as nat, size as nat, rest as nat),
{
    let mut out = "pipeline: the print is COMPLETE — no extrusion remains after byte ".to_owned();
    let digits1 = decimal_of(tested);
    out.append(digits1.as_str());
    out.append(" of ");
    let digits2 = decimal_of(size);
    out.append(digits2.as_str());
    out.append(" (");
    let digits3 = decimal_of(rest);
    out.append(digits3.as_str());
    out.append(" trailing bytes are the slicer footer); nothing to resume");
    out
}

/// The commands of the end sequence that did not run.
pub open spec fn unrun_line(commands: Seq<char>) -> Seq<char> {
    "pipeline: these end-sequence commands did not run: "@ + commands + " (NOT offered — an end macro homes and moves Z, and none of the envelope or pre-flight analysis applies to it)"@
}

fn unrun_text(commands: &str) -> (r: String)
    ensures
        r@ == unrun_line(commands@),
{
    let mut out = "pipeline: these end-sequence commands did not run: ".to_owned();
    out.append(commands);
    out.append(" (NOT offered — an end macro homes and moves Z, and none of the envelope or pre-flight analysis applies to it)");
    out
}

/// The total behind a layer mark, when it is known.
pub open spec fn of_total(total: Option<u32>) -> Seq<char> {
    match total {
        Some(t) => " of "@ + decimal(t as nat),
        None => ""@,
    }
}

/// What is said of the slicer's layer mark. Only a model from the start of the
/// file numbers its layers as the mark does; on any other there is no verdict.
pub open spec fn mark_lines(
    mark: Option<u32>,
    total: Option<u32>,
    absolute: bool,
    consistent: bool,
) -> Seq<char> {
    match mark {
        None => NO_MARK@,
        Some(m) => if !absolute {
            verbatim_line(m as nat, of_total(total))
        } else if consistent {
            agreeing_line(m as nat, of_total(total))
        } else {
            below_line(m as nat, of_total(total))
        },
    }
}

/// What is said of the slicer's layer mark.
pub fn narrate_layer_mark(
    mark: Option<u32>,
    total: Option<u32>,
    absolute: bool,
    consistent: bool,
) -> (r: String)
    ensures
        r@ == mark_lines(mark, total, absolute, consistent),
{
    let of = match total {
        Some(t) => {
            let mut s = " of ".to_owned();
            let digits = decimal_of(t as u64);
            s.append(digits.as_str());
            s
        },
        None => "".to_owned(),
    };
    match mark {
        None => NO_MARK.to_owned(),
        Some(m) => if !absolute {
            verbatim_text(m, of.as_str())
        } else if consistent {
            agreeing_text(m, of.as_str())
        } else {
            below_text(m, of.as_str())
        },
    }
}

/// What is said of a finished print.
pub open spec fn completed_lines(report: CompletionReport) -> Seq<Seq<char>> {
    let done = complete_line(
        report.tested_offset as nat,
        report.file_size as nat,
        trailing(report),
    );
    if unrun(report.work).len() > 0 {
        seq![done, unrun_line(joined(unrun(report.work), " "@))]
    } else {
        seq![done]
    }
}

/// The commands of the end sequence that did not run, in one line.
pub(crate) fn unrun_joined(report: &CompletionReport) -> (r: Option<String>)
    ensures
        match r {
            Some(s) => unrun(report.work).len() > 0 && s@ == joined(unrun(report.work), " "@),
            None => unrun(report.work).len() == 0,
        },
{
    match &report.work {
        RemainingWork::EndSequenceOnly { commands } => {
            assert(texts(commands@).len() == commands@.len());
            if commands.len() > 0 {
                Some(join(commands, " "))
            } else {
                None
            }
        },
        RemainingWork::Extrusion | RemainingWork::Nothing => None,
    }
}

/// Narrates a finished print into `lines`.
pub fn narrate_completion(report: &CompletionReport, lines: &mut Vec<String>)
    ensures
        texts(final(lines)@) == texts(old(lines)@) + completed_lines(*report),
{
    let ghost given = texts(lines@);
    lines.push(
        complete_text(report.tested_offset, report.file_size, report.trailing_bytes()),
    );
    if let Some(commands) = unrun_joined(report) {
        lines.push(unrun_text(commands.as_str()));
    }
    assert(texts(lines@) =~= given + completed_lines(*report));
}

/// Numbers in a list's notation.
pub open spec fn layer_list(layers: Seq<u32>) -> Seq<char> {
    "["@ + joined(layers.map_values(|l: u32| decimal(l as nat)), ", "@) + "]"@
}

/// Numbers in a list's notation.
pub fn list_layers(layers: &Vec<u32>) -> (r: String)
    ensures
        r@ == layer_list(layers@),
{
    let mut parts: Vec<String> = Vec::new();
    let ghost all = layers@.map_values(|l: u32| decimal(l as nat));
    let mut i: usize = 0;
    assert(texts(parts@) =~= all.take(0));
    while i < layers.len()
        invariant
            0 <= i <= layers@.len(),
            all == layers@.map_values(|l: u32| decimal(l as nat)),
            texts(parts@) == all.take(i as int),
        decreases layers@.len() - i,
    {
        let ghost before = texts(parts@);
        let part = decimal_of(layers[i] as u64);
        parts.push(part);
        assert(texts(parts@) =~= before.push(part@));
        assert(texts(parts@) =~= all.take(i + 1));
        i = i + 1;
    }
    assert(all.take(i as int) =~= all);
    let mut out = "[".to_owned();
    let inner = join(&parts, ", ");
    out.append(inner.as_str());
    out.append("]");
    out
}

} // verus!
