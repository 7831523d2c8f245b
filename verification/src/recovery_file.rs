//! The recovery file: where it goes, how the plan is pointed at it, and how its
//! name is claimed without ever overwriting a file that is already there.

use vstd::prelude::*;

use crate::json::{split, split_on};
use crate::machine::MachineConfig;
use crate::plan::{RecoveryPlan, RecoveryStep};
use crate::text::{begins, decimal, decimal_of, strip_prefix, same, starts_with, texts};

verus! {

/// How often a fresh name is tried when the chosen one has been taken.
pub const RECOVERY_NAME_RETRIES: u32 = 16;

/// How many lines of the file a dry run shows.
pub const PREVIEW_LINES: usize = 40;

/// A plan with what the executor and the operator need around it.
#[derive(Debug, Clone, PartialEq)]
pub struct PlanBundle {
    /// The validated, ordered plan.
    pub plan: RecoveryPlan,
    /// Absolute path of the print file being resumed.
    pub file_path: String,
    /// The machine that the plan was validated against.
    pub machine: MachineConfig,
    /// The content of the recovery file.
    pub recovery_file_content: Vec<u8>,
    /// Where the content goes.
    pub recovery_file_path: String,
    /// The directory it goes into.
    pub sdcard_root: String,
    /// The name of the print file that it is derived from.
    pub recovery_source_name: String,
    /// The bytes of the print file, kept only for a plan that asks where to
    /// resume.
    pub original_file_bytes: Option<Vec<u8>>,
}

/// `root` without the separators it ends in.
pub open spec fn without_separators(root: Seq<char>) -> Seq<char>
    decreases root.len(),
{
    if root.len() > 0 && (root.last() == '/' || root.last() == '\\') {
        without_separators(root.drop_last())
    } else {
        root
    }
}

/// `root` without the separators it ends in.
pub fn trim_separators(root: &str) -> (r: String)
    ensures
        r@ == without_separators(root@),
{
    let h = crate::text::chars(root);
    let mut n: usize = h.len();
    assert(h@.take(n as int) =~= h@);
    while n > 0 && (h[n - 1] == '/' || h[n - 1] == '\\')
        invariant
            0 <= n <= h@.len(),
            without_separators(h@.take(n as int)) == without_separators(h@),
        decreases n,
    {
        assert(h@.take(n as int).drop_last() =~= h@.take(n - 1));
        n = n - 1;
    }
    let r = crate::text::from_chars(&h, 0, n);
    assert(r@ =~= h@.take(n as int));
    r
}

/// The path of `name` in the directory `root`.
pub open spec fn path_in(root: Seq<char>, name: Seq<char>) -> Seq<char> {
    if root.len() == 0 || begins(name, "/"@) {
        name
    } else if root.last() == '/' {
        root + name
    } else {
        root + "/"@ + name
    }
}

/// The path of `name` in the directory `root`.
pub fn join_path(root: &str, name: &str) -> (r: String)
    ensures
        r@ == path_in(root@, name@),
{
    if root.is_empty() || starts_with(name, "/") {
        return name.to_owned();
    }
    let h = crate::text::chars(root);
    let mut out = root.to_owned();
    if h[h.len() - 1] != '/' {
        out.append("/");
    }
    out.append(name);
    out
}

/// A command pointed at `name`: one that selects a file, or, when `only` is
/// given, one that selects that file. Any other command is left as it is.
pub open spec fn pointed(c: Seq<char>, only: Option<Seq<char>>, name: Seq<char>) -> Seq<char> {
    if selects(c, only) {
        "M23 "@ + name
    } else {
        c
    }
}

/// `c` selects a file; that one, when `only` is given.
pub open spec fn selects(c: Seq<char>, only: Option<Seq<char>>) -> bool {
    begins(c, "M23 "@) && match only {
        Some(file) => c.skip("M23 "@.len() as int) == file,
        None => true,
    }
}

/// How many of the first `n` commands select a file.
pub open spec fn selections(commands: Seq<Seq<char>>, only: Option<Seq<char>>, n: nat) -> nat
    decreases n,
{
    if n == 0 {
        0
    } else {
        selections(commands, only, (n - 1) as nat) + if selects(commands[n - 1], only) {
            1nat
        } else {
            0nat
        }
    }
}

/// How many commands of the first `n` steps select a file.
pub open spec fn plan_selections(
    steps: Seq<RecoveryStep>,
    only: Option<Seq<char>>,
    n: nat,
) -> nat
    decreases n,
{
    if n == 0 {
        0
    } else {
        plan_selections(steps, only, (n - 1) as nat) + selections(
            texts(steps[n - 1].commands@),
            only,
            steps[n - 1].commands@.len(),
        )
    }
}

/// `after` is `before` with its commands pointed at `name`, and nothing else
/// changed.
pub open spec fn step_pointed(
    before: RecoveryStep,
    after: RecoveryStep,
    only: Option<Seq<char>>,
    name: Seq<char>,
) -> bool {
    &&& after == (RecoveryStep { commands: after.commands, ..before })
    &&& texts(after.commands@) == texts(before.commands@).map_values(
        |c: Seq<char>| pointed(c, only, name),
    )
}

/// `after` is `before` pointed at `name`: its commands, its recovery file and
/// its resume file, and nothing else.
pub open spec fn plan_pointed(
    before: RecoveryPlan,
    after: RecoveryPlan,
    only: Option<Seq<char>>,
    name: Seq<char>,
) -> bool {
    &&& after.steps@.len() == before.steps@.len()
    &&& forall|i: int|
        0 <= i < before.steps@.len() ==> step_pointed(
            before.steps@[i],
            #[trigger] after.steps@[i],
            only,
            name,
        )
    &&& after.recovery_file.name@ == name
    &&& after.recovery_file.source_name == before.recovery_file.source_name
    &&& after.resume_file@ == name
    &&& after == (RecoveryPlan {
        steps: after.steps,
        recovery_file: after.recovery_file,
        resume_file: after.resume_file,
        ..before
    })
}

/// The text behind an optional reference.
pub open spec fn opt_str(s: Option<&str>) -> Option<Seq<char>> {
    match s {
        Some(s) => Some(s@),
        None => None,
    }
}

fn is_selection(command: &str, only: Option<&str>) -> (r: bool)
    ensures
        r == selects(command@, opt_str(only)),
{
    match strip_prefix(command, "M23 ") {
        Some(rest) => match only {
            Some(file) => same(rest.as_str(), file),
            None => true,
        },
        None => false,
    }
}

proof fn lemma_selections_bound(commands: Seq<Seq<char>>, only: Option<Seq<char>>, n: nat)
    ensures
        selections(commands, only, n) <= n,
    decreases n,
{
    if n > 0 {
        lemma_selections_bound(commands, only, (n - 1) as nat);
    }
}

fn point_commands(commands: &mut Vec<String>, only: Option<&str>, name: &str) -> (r: usize)
    ensures
        texts(final(commands)@) == texts(old(commands)@).map_values(
            |c: Seq<char>| pointed(c, opt_str(only), name@),
        ),
        r == selections(texts(old(commands)@), opt_str(only), old(commands)@.len()),
{
    let ghost given = texts(commands@);
    let ghost rule = |c: Seq<char>| pointed(c, opt_str(only), name@);
    let mut patched: usize = 0;
    let mut i: usize = 0;
    while i < commands.len()
        invariant
            0 <= i <= commands@.len(),
            given == texts(old(commands)@),
            commands@.len() == given.len(),
            rule == (|c: Seq<char>| pointed(c, opt_str(only), name@)),
            forall|j: int| 0 <= j < i ==> (#[trigger] commands@[j])@ == rule(given[j]),
            forall|j: int| i <= j < given.len() ==> (#[trigger] commands@[j])@ == given[j],
            patched == selections(given, opt_str(only), i as nat),
            patched <= i,
        decreases commands@.len() - i,
    {
        if is_selection(commands[i].as_str(), only) {
            let mut command = "M23 ".to_owned();
            command.append(name);
            commands.set(i, command);
            patched = patched + 1;
        }
        i = i + 1;
    }
    assert(texts(commands@) =~= given.map_values(rule));
    patched
}

/// A count that stops at the largest machine integer.
pub open spec fn capped(n: nat) -> u64 {
    if n <= u64::MAX {
        n as u64
    } else {
        u64::MAX
    }
}

/// Points a plan at the recovery file `name`, and says how many commands were
/// repointed. Every selection is repointed, whatever it named, unless `only`
/// restricts it to those of one file.
pub fn point_plan(plan: &mut RecoveryPlan, only: Option<&str>, name: &str) -> (r: u64)
    ensures
        plan_pointed(*old(plan), *final(plan), opt_str(only), name@),
        r == capped(plan_selections(old(plan).steps@, opt_str(only), old(plan).steps@.len())),
{
    let ghost given = *plan;
    let mut patched: u64 = 0;
    let mut i: usize = 0;
    while i < plan.steps.len()
        invariant
            0 <= i <= plan.steps@.len(),
            given == *old(plan),
            plan.steps@.len() == given.steps@.len(),
            *plan == (RecoveryPlan { steps: plan.steps, ..given }),
            forall|j: int|
                0 <= j < i ==> step_pointed(
                    given.steps@[j],
                    #[trigger] plan.steps@[j],
                    opt_str(only),
                    name@,
                ),
            forall|j: int| i <= j < given.steps@.len() ==> plan.steps@[j] == given.steps@[j],
            patched == capped(plan_selections(given.steps@, opt_str(only), i as nat)),
        decreases plan.steps@.len() - i,
    {
        let n = point_commands(&mut plan.steps[i].commands, only, name);
        patched = patched.saturating_add(n as u64);
        i = i + 1;
    }
    plan.recovery_file.name = name.to_owned();
    plan.resume_file = name.to_owned();
    patched
}

/// No selection is left behind: once a plan is pointed at a name without
/// restriction, every command of it that selects a file selects that one.
pub proof fn every_selection_names_the_file(
    before: RecoveryPlan,
    after: RecoveryPlan,
    name: Seq<char>,
)
    requires
        plan_pointed(before, after, None, name),
    ensures
        forall|i: int, j: int|
            0 <= i < after.steps@.len() && 0 <= j < (
            #[trigger] after.steps@[i]).commands@.len() && begins(
                (#[trigger] after.steps@[i].commands@[j])@,
                "M23 "@,
            ) ==> after.steps@[i].commands@[j]@ == "M23 "@ + name,
{
    assert forall|i: int, j: int|
        0 <= i < after.steps@.len() && 0 <= j < (#[trigger] after.steps@[i]).commands@.len()
            && begins((#[trigger] after.steps@[i].commands@[j])@, "M23 "@) implies after.steps@[i].commands@[j]@
        == "M23 "@ + name by {
        let old = before.steps@[i];
        let now = after.steps@[i];
        assert(step_pointed(old, now, None, name));
        let rule = |c: Seq<char>| pointed(c, None, name);
        assert(texts(now.commands@).len() == texts(old.commands@).len());
        assert(texts(now.commands@)[j] == texts(old.commands@).map_values(rule)[j]);
        assert(texts(now.commands@)[j] == rule(texts(old.commands@)[j]));
    }
}

/// The line about a name that was taken since planning.
pub open spec fn renamed_line(name: Seq<char>, patched: nat) -> Seq<char> {
    "recover: recovery file name was taken since planning; wrote "@ + name + " ("@ + decimal(patched) + " M23 command(s) repointed)"@
}

fn renamed_text(name: &str, patched: u64) -> (r: String)
    ensures
        r@ == renamed_line(name@, patched as nat),
{
    let mut out = "recover: recovery file name was taken since planning; wrote ".to_owned();
    out.append(name);
    out.append(" (");
    let digits1 = decimal_of(patched);
    out.append(digits1.as_str());
    out.append(" M23 command(s) repointed)");
    out
}

/// The line about the written file.
pub open spec fn written_line(path: Seq<char>, bytes: nat) -> Seq<char> {
    "recover: wrote recovery file "@ + path + " ("@ + decimal(bytes) + " bytes)"@
}

fn written_text(path: &str, bytes: u64) -> (r: String)
    ensures
        r@ == written_line(path@, bytes as nat),
{
    let mut out = "recover: wrote recovery file ".to_owned();
    out.append(path);
    out.append(" (");
    let digits1 = decimal_of(bytes);
    out.append(digits1.as_str());
    out.append(" bytes)");
    out
}

/// The refusal when the file cannot be written.
pub open spec fn unwritable_line(path: Seq<char>, e: Seq<char>) -> Seq<char> {
    "recover: REFUSED — cannot write recovery file "@ + path + ": "@ + e + "; nothing was sent."@
}

fn unwritable_text(path: &str, e: &str) -> (r: String)
    ensures
        r@ == unwritable_line(path@, e@),
{
    let mut out = "recover: REFUSED — cannot write recovery file ".to_owned();
    out.append(path);
    out.append(": ");
    out.append(e);
    out.append("; nothing was sent.");
    out
}

/// The refusal when no free name could be claimed.
pub open spec fn exhausted_line(root: Seq<char>) -> Seq<char> {
    "recover: REFUSED — could not claim a free recovery file name in "@ + decimal(RECOVERY_NAME_RETRIES as nat) + " under "@ + root + "; nothing was sent."@
}

fn exhausted_text(root: &str) -> (r: String)
    ensures
        r@ == exhausted_line(root@),
{
    let mut out = "recover: REFUSED — could not claim a free recovery file name in ".to_owned();
    let digits1 = decimal_of(RECOVERY_NAME_RETRIES as u64);
    out.append(digits1.as_str());
    out.append(" under ");
    out.append(root);
    out.append("; nothing was sent.");
    out
}

/// What claiming a name gave.
#[derive(Debug)]
pub enum Claim {
    /// The file was created and written.
    Written,
    /// A file of that name exists; this is a name that was free just now.
    Taken(String),
    /// The file could not be created or written, for this reason.
    Failed(String),
}

/// One entry that the gates leave in the transcript.
#[derive(Debug)]
pub enum GateEntry {
    /// The file went under another name than planned.
    Renamed {
        /// That name.
        name: String,
        /// How many commands were repointed.
        m23_repointed: u64,
    },
    /// The file was written.
    Written {
        /// Where.
        path: String,
        /// How many bytes.
        bytes: u64,
        /// After how many names that were taken.
        attempt: u32,
    },
    /// A printer gate refused.
    Refused {
        /// Why.
        reason: String,
    },
}

/// A transcript entry with its texts as text.
pub enum GateEntryView {
    /// The file went under another name than planned.
    Renamed {
        /// That name.
        name: Seq<char>,
        /// How many commands were repointed.
        m23_repointed: u64,
    },
    /// The file was written.
    Written {
        /// Where.
        path: Seq<char>,
        /// How many bytes.
        bytes: nat,
        /// After how many names that were taken.
        attempt: nat,
    },
    /// A printer gate refused.
    Refused {
        /// Why.
        reason: Seq<char>,
    },
}

impl View for GateEntry {
    type V = GateEntryView;

    open spec fn view(&self) -> GateEntryView {
        match *self {
            GateEntry::Renamed { name, m23_repointed } => GateEntryView::Renamed {
                name: name@,
                m23_repointed,
            },
            GateEntry::Written { path, bytes, attempt } => GateEntryView::Written {
                path: path@,
                bytes: bytes as nat,
                attempt: attempt as nat,
            },
            GateEntry::Refused { reason } => GateEntryView::Refused { reason: reason@ },
        }
    }
}

/// The event name of an entry.
pub open spec fn entry_event(entry: GateEntry) -> Seq<char> {
    match entry {
        GateEntry::Renamed { .. } => "recovery-file-renamed"@,
        GateEntry::Written { .. } => "recovery-file-written"@,
        GateEntry::Refused { .. } => "refused"@,
    }
}

impl GateEntry {
    /// The event name of the entry.
    pub fn event(&self) -> (r: &'static str)
        ensures
            r@ == entry_event(*self),
    {
        match self {
            GateEntry::Renamed { .. } => "recovery-file-renamed",
            GateEntry::Written { .. } => "recovery-file-written",
            GateEntry::Refused { .. } => "refused",
        }
    }
}

/// Entries with their texts as text.
pub open spec fn entry_views(entries: Seq<GateEntry>) -> Seq<GateEntryView> {
    entries.map_values(|e: GateEntry| e@)
}

/// The claim of a name for the recovery file.
#[derive(Debug)]
pub struct FileClaim {
    /// The name tried next, when it is not the planned one.
    pub renamed: Option<String>,
    /// The path tried next.
    pub path: String,
    /// How many names were taken so far.
    pub attempt: u32,
}

/// How a claim goes on.
#[derive(Debug, Clone, Copy, PartialEq, Eq, Structural)]
pub enum ClaimState {
    /// Another name is to be tried.
    Trying,
    /// The file is written.
    Done,
    /// The recovery is refused.
    Refused,
}

impl FileClaim {
    /// The claim as it starts: the planned path, at the first attempt.
    pub open spec fn started(self, bundle: PlanBundle) -> bool {
        &&& self.renamed is None
        &&& self.path@ == bundle.recovery_file_path@
        &&& self.attempt == 0
    }

    /// The claim goes by the plan, or by a fresh name in the same directory.
    pub open spec fn well_formed(self, bundle: PlanBundle) -> bool {
        &&& self.attempt < RECOVERY_NAME_RETRIES
        &&& match self.renamed {
            Some(name) => self.attempt > 0 && self.path@ == path_in(bundle.sdcard_root@, name@),
            None => self.path@ == bundle.recovery_file_path@,
        }
    }

    /// Whether the path tried is another than the planned one.
    pub open spec fn moved(self, bundle: PlanBundle) -> bool {
        self.path@ != bundle.recovery_file_path@
    }

    /// Starts a claim.
    pub fn start(bundle: &PlanBundle) -> (r: Self)
        ensures
            r.started(*bundle),
            r.well_formed(*bundle),
    {
        FileClaim { renamed: None, path: bundle.recovery_file_path.clone(), attempt: 0 }
    }
}

/// The name that a claim would write under.
pub open spec fn claimed_name(claim: FileClaim) -> Seq<char> {
    match claim.renamed {
        Some(name) => name@,
        None => Seq::empty(),
    }
}

/// `after` is the bundle once the file is written: as it was when the name is
/// the planned one, else with the plan and the path pointed at the new name.
pub open spec fn settled(claim: FileClaim, before: PlanBundle, after: PlanBundle) -> bool {
    if claim.moved(before) {
        &&& plan_pointed(before.plan, after.plan, None, claimed_name(claim))
        &&& after.recovery_file_path@ == claim.path@
        &&& after == (PlanBundle {
            plan: after.plan,
            recovery_file_path: after.recovery_file_path,
            ..before
        })
    } else {
        after == before
    }
}

/// How many commands a settled claim repointed.
pub open spec fn repointed(bundle: PlanBundle) -> u64 {
    capped(plan_selections(bundle.plan.steps@, None, bundle.plan.steps@.len()))
}

/// The lines shown for one outcome of a claim.
pub open spec fn claim_lines(claim: FileClaim, bundle: PlanBundle, event: Claim) -> Seq<Seq<char>> {
    match event {
        Claim::Written => {
            let wrote = written_line(claim.path@, bundle.recovery_file_content@.len());
            if claim.moved(bundle) {
                seq![renamed_line(claimed_name(claim), repointed(bundle) as nat), wrote]
            } else {
                seq![wrote]
            }
        },
        Claim::Taken(_) => if claim.attempt + 1 < RECOVERY_NAME_RETRIES {
            Seq::empty()
        } else {
            seq![exhausted_line(bundle.sdcard_root@)]
        },
        Claim::Failed(e) => seq![unwritable_line(claim.path@, e@)],
    }
}

/// The transcript entries of one outcome of a claim.
pub open spec fn claim_entries(claim: FileClaim, bundle: PlanBundle, event: Claim) -> Seq<
    GateEntryView,
> {
    if event is Written {
        let wrote = GateEntryView::Written {
            path: claim.path@,
            bytes: bundle.recovery_file_content@.len(),
            attempt: claim.attempt as nat,
        };
        if claim.moved(bundle) {
            seq![
                GateEntryView::Renamed {
                    name: claimed_name(claim),
                    m23_repointed: repointed(bundle),
                },
                wrote,
            ]
        } else {
            seq![wrote]
        }
    } else {
        Seq::empty()
    }
}

impl FileClaim {
    /// Takes what the attempt gave: settles the bundle, tries the next name, or
    /// refuses.
    pub fn on_claim(
        &mut self,
        bundle: &mut PlanBundle,
        event: Claim,
        lines: &mut Vec<String>,
        entries: &mut Vec<GateEntry>,
    ) -> (r: ClaimState)
        requires
            old(self).well_formed(*old(bundle)),
        ensures
            match event {
                Claim::Written => {
                    &&& r == ClaimState::Done
                    &&& settled(*old(self), *old(bundle), *final(bundle))
                    &&& *final(self) == *old(self)
                },
                Claim::Taken(name) => {
                    &&& *final(bundle) == *old(bundle)
                    &&& if old(self).attempt + 1 < RECOVERY_NAME_RETRIES {
                        &&& r == ClaimState::Trying
                        &&& final(self).renamed == Some(name)
                        &&& final(self).path@ == path_in(old(bundle).sdcard_root@, name@)
                        &&& final(self).attempt == old(self).attempt + 1
                        &&& final(self).well_formed(*final(bundle))
                    } else {
                        &&& r == ClaimState::Refused
                        &&& *final(self) == *old(self)
                    }
                },
                Claim::Failed(_) => {
                    &&& r == ClaimState::Refused
                    &&& *final(bundle) == *old(bundle)
                    &&& *final(self) == *old(self)
                },
            },
            texts(final(lines)@) == texts(old(lines)@) + claim_lines(
                *old(self),
                *old(bundle),
                event,
            ),
            entry_views(final(entries)@) == entry_views(old(entries)@) + claim_entries(
                *old(self),
                *old(bundle),
                event,
            ),
    {
        let ghost said = texts(lines@);
        let ghost noted = entry_views(entries@);
        let ghost was = *bundle;
        assert(said + Seq::<Seq<char>>::empty() =~= said);
        assert(noted + Seq::<GateEntryView>::empty() =~= noted);
        match event {
            Claim::Written => {
                let bytes: u64 = bundle.recovery_file_content.len() as u64;
                if !same(self.path.as_str(), bundle.recovery_file_path.as_str()) {
                    let name = match &self.renamed {
                        Some(name) => name.clone(),
                        None => String::new(),
                    };
                    let patched = point_plan(&mut bundle.plan, None, name.as_str());
                    lines.push(renamed_text(name.as_str(), patched));
                    assert(texts(lines@) =~= said + seq![renamed_line(name@, patched as nat)]);
                    let entry = GateEntry::Renamed { name, m23_repointed: patched };
                    entries.push(entry);
                    assert(entry_views(entries@) =~= noted + seq![entry@]);
                    bundle.recovery_file_path = self.path.clone();
                }
                let ghost said2 = texts(lines@);
                let ghost noted2 = entry_views(entries@);
                let entry = GateEntry::Written {
                    path: self.path.clone(),
                    bytes,
                    attempt: self.attempt,
                };
                entries.push(entry);
                assert(entry_views(entries@) =~= noted2 + seq![entry@]);
                assert(entry_views(entries@) =~= noted + claim_entries(*self, was, event));
                lines.push(written_text(self.path.as_str(), bytes));
                assert(texts(lines@) =~= said2.push(written_line(self.path@, bytes as nat)));
                assert(texts(lines@) =~= said + claim_lines(*self, was, event));
                ClaimState::Done
            },
            Claim::Taken(name) => {
                if self.attempt + 1 < RECOVERY_NAME_RETRIES {
                    self.path = join_path(bundle.sdcard_root.as_str(), name.as_str());
                    self.renamed = Some(name);
                    self.attempt = self.attempt + 1;
                    ClaimState::Trying
                } else {
                    lines.push(exhausted_text(bundle.sdcard_root.as_str()));
                    assert(texts(lines@) =~= said + claim_lines(*self, was, event));
                    ClaimState::Refused
                }
            },
            Claim::Failed(e) => {
                lines.push(unwritable_text(self.path.as_str(), e.as_str()));
                assert(texts(lines@) =~= said + claim_lines(*self, was, event));
                ClaimState::Refused
            },
        }
    }
}

/// What is written is what is selected: once a claim is settled, every command
/// of the plan that selects a file selects the one that was written, or, when
/// the planned name was free, the plan is untouched.
pub proof fn a_settled_plan_selects_the_written_file(
    claim: FileClaim,
    before: PlanBundle,
    after: PlanBundle,
)
    requires
        claim.well_formed(before),
        settled(claim, before, after),
    ensures
        after.recovery_file_path@ == claim.path@,
        !claim.moved(before) ==> after == before,
        claim.moved(before) ==> forall|i: int, j: int|
            0 <= i < after.plan.steps@.len() && 0 <= j < (
            #[trigger] after.plan.steps@[i]).commands@.len() && begins(
                (#[trigger] after.plan.steps@[i].commands@[j])@,
                "M23 "@,
            ) ==> after.plan.steps@[i].commands@[j]@ == "M23 "@ + claimed_name(claim),
        claim.moved(before) ==> after.recovery_file_path@ == path_in(
            after.sdcard_root@,
            claimed_name(claim),
        ) && after.plan.resume_file@ == claimed_name(claim),
{
    if claim.moved(before) {
        every_selection_names_the_file(before.plan, after.plan, claimed_name(claim));
    }
}

/// The characters that a run of bytes reads as, with every invalid sequence
/// replaced.
pub uninterp spec fn lossy_text(bytes: Seq<u8>) -> Seq<char>;

/// `String::from_utf8_lossy`. Claims that the text is determined by the bytes,
/// and that valid UTF-8 reads as what it encodes.
#[verifier::external_body]
pub(crate) fn decode_lossy(bytes: &[u8]) -> (r: String)
    ensures
        r@ == lossy_text(bytes@),
        vstd::utf8::valid_utf8(bytes@) ==> r@ == vstd::utf8::decode_utf8(bytes@),
{
    String::from_utf8_lossy(bytes).into_owned()
}

/// `s` without one carriage return at its end.
pub open spec fn without_return(s: Seq<char>) -> Seq<char> {
    if s.len() > 0 && s.last() == '\r' {
        s.drop_last()
    } else {
        s
    }
}

/// The first `n` of the pieces between line feeds as lines.
pub open spec fn ended_lines(pieces: Seq<Seq<char>>, n: nat) -> Seq<Seq<char>>
    decreases n,
{
    if n == 0 {
        Seq::empty()
    } else {
        ended_lines(pieces, (n - 1) as nat).push(without_return(pieces[n - 1]))
    }
}

/// The lines of `s`: what each line feed ends, with or without a carriage return
/// before it, and what stands behind the last one if that is anything.
pub open spec fn lines_of(s: Seq<char>) -> Seq<Seq<char>> {
    let pieces = split_on(s, '\n');
    let ended = ended_lines(pieces, (pieces.len() - 1) as nat);
    if pieces.last().len() == 0 {
        ended
    } else {
        ended.push(pieces.last())
    }
}

fn strip_return(s: &str) -> (r: String)
    ensures
        r@ == without_return(s@),
{
    let h = crate::text::chars(s);
    let n: usize = h.len();
    if n > 0 && h[n - 1] == '\r' {
        let r = crate::text::from_chars(&h, 0, n - 1);
        assert(r@ =~= s@.drop_last());
        r
    } else {
        s.to_owned()
    }
}

proof fn lemma_ended_lines(pieces: Seq<Seq<char>>, n: nat)
    ensures
        ended_lines(pieces, n).len() == n,
    decreases n,
{
    if n > 0 {
        lemma_ended_lines(pieces, (n - 1) as nat);
    }
}

/// The lines of `s`.
pub fn lines(s: &str) -> (r: Vec<String>)
    ensures
        texts(r@) == lines_of(s@),
{
    let pieces = split(s, '\n');
    let ghost all = split_on(s@, '\n');
    let n: usize = pieces.len() - 1;
    let mut out: Vec<String> = Vec::new();
    let mut i: usize = 0;
    assert(texts(out@) =~= ended_lines(all, 0));
    while i < n
        invariant
            0 <= i <= n,
            n == pieces@.len() - 1,
            pieces@.len() == all.len(),
            forall|j: int| 0 <= j < all.len() ==> (#[trigger] pieces@[j])@ == all[j],
            texts(out@) == ended_lines(all, i as nat),
        decreases n - i,
    {
        let ghost before = texts(out@);
        let line = strip_return(pieces[i].as_str());
        out.push(line);
        assert(texts(out@) =~= before.push(line@));
        i = i + 1;
    }
    assert(pieces@[n as int]@ == all.last());
    if !pieces[n].as_str().is_empty() {
        let ghost before = texts(out@);
        out.push(pieces[n].clone());
        assert(texts(out@) =~= before.push(all.last()));
    }
    out
}

/// The line that says the file was not written.
pub open spec fn unwritten_line(path: Seq<char>, bytes: nat) -> Seq<char> {
    "recover: recovery file (NOT written in dry run): "@ + path + " ("@ + decimal(bytes) + " bytes)"@
}

fn unwritten_text(path: &str, bytes: u64) -> (r: String)
    ensures
        r@ == unwritten_line(path@, bytes as nat),
{
    let mut out = "recover: recovery file (NOT written in dry run): ".to_owned();
    out.append(path);
    out.append(" (");
    let digits1 = decimal_of(bytes);
    out.append(digits1.as_str());
    out.append(" bytes)");
    out
}

/// The preview of a recovery file whose text is `text`: where it would go, its
/// first lines, and how many more there are.
pub open spec fn preview_lines(path: Seq<char>, bytes: nat, text: Seq<char>) -> Seq<Seq<char>> {
    let all = lines_of(text);
    let shown = if all.len() < PREVIEW_LINES {
        all
    } else {
        all.take(PREVIEW_LINES as int)
    };
    seq![
        unwritten_line(path, bytes),
        "recover: --- recovery file preview (first 40 lines) ---"@,
    ] + shown.map_values(|l: Seq<char>| "  "@ + l) + (if all.len() > PREVIEW_LINES {
        seq!["  ... ("@ + decimal((all.len() - PREVIEW_LINES) as nat) + " more lines)"@]
    } else {
        Seq::empty()
    }) + seq!["recover: --- end preview ---"@]
}

/// Renders the preview of a recovery file from its text.
pub fn render_preview(path: &str, bytes: u64, text: &str) -> (r: Vec<String>)
    ensures
        texts(r@) == preview_lines(path@, bytes as nat, text@),
{
    let mut out: Vec<String> = Vec::new();
    out.push(unwritten_text(path, bytes));
    out.push("recover: --- recovery file preview (first 40 lines) ---".to_owned());
    let all = lines(text);
    let ghost every = lines_of(text@);
    assert(all@.len() == texts(all@).len());
    let ghost head = seq![
        unwritten_line(path@, bytes as nat),
        "recover: --- recovery file preview (first 40 lines) ---"@,
    ];
    let ghost rule = |l: Seq<char>| "  "@ + l;
    assert(texts(out@) =~= head);
    let shown: usize = if all.len() < PREVIEW_LINES {
        all.len()
    } else {
        PREVIEW_LINES
    };
    let mut i: usize = 0;
    assert(head + every.take(0).map_values(rule) =~= head);
    while i < shown
        invariant
            0 <= i <= shown <= all@.len(),
            every == texts(all@),
            rule == (|l: Seq<char>| "  "@ + l),
            texts(out@) == head + every.take(i as int).map_values(rule),
        decreases shown - i,
    {
        let ghost before = texts(out@);
        let mut line = "  ".to_owned();
        line.append(all[i].as_str());
        out.push(line);
        assert(texts(out@) =~= before.push(line@));
        assert(texts(out@) =~= head + every.take(i + 1).map_values(rule));
        i = i + 1;
    }
    let ghost body = texts(out@);
    assert(every.take(every.len() as int) =~= every);
    let ghost more: Seq<Seq<char>> = if every.len() > PREVIEW_LINES {
        seq!["  ... ("@ + decimal((every.len() - PREVIEW_LINES) as nat) + " more lines)"@]
    } else {
        Seq::empty()
    };
    if all.len() > PREVIEW_LINES {
        let mut line = "  ... (".to_owned();
        let digits = decimal_of((all.len() - PREVIEW_LINES) as u64);
        line.append(digits.as_str());
        line.append(" more lines)");
        out.push(line);
        assert(texts(out@) =~= body + more);
    } else {
        assert(body + more =~= body);
    }
    let ghost middle = texts(out@);
    out.push("recover: --- end preview ---".to_owned());
    assert(texts(out@) =~= middle + seq!["recover: --- end preview ---"@]);
    out
}

/// Previews the recovery file of a bundle. Nothing is written.
pub fn preview_recovery_file(bundle: &PlanBundle) -> (r: Vec<String>)
    ensures
        texts(r@) == preview_lines(
            bundle.recovery_file_path@,
            bundle.recovery_file_content@.len(),
            lossy_text(bundle.recovery_file_content@),
        ),
{
    let text = decode_lossy(bundle.recovery_file_content.as_slice());
    assert(bundle.recovery_file_content@.len() == bundle.recovery_file_content.len());
    render_preview(
        bundle.recovery_file_path.as_str(),
        bundle.recovery_file_content.len() as u64,
        text.as_str(),
    )
}

} // verus!
