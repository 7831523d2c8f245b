//! WAL retention: which old sessions may be pruned so that the directory stays
//! within a byte cap, and what the operator is told when it cannot.
//!
//! Segments are grouped into sessions, one per boot of the host, and pruned by
//! whole sessions, oldest first. The newest session, anything pinned by a
//! pending recovery and anything newer than that, and a session that cannot be
//! read are never deleted: evidence is kept and the overage is reported.

use vstd::prelude::*;

use crate::hostclock::{clamp, clamped};
use crate::text::{chars, decimal, decimal_of, same, texts};

verus! {

/// One WAL segment file, reduced to what retention decides on.
#[derive(Debug, Clone, Copy, PartialEq, Eq, Structural)]
pub struct SegmentMeta {
    /// Segment index.
    pub index: u64,
    /// File size in bytes.
    pub size_bytes: u64,
    /// Host-monotonic creation time from the segment header; absent when the
    /// header cannot be read.
    pub created_mono_ns: Option<u64>,
}

/// One session: a run of consecutive segments of one boot, oldest first.
#[derive(Debug, Clone, PartialEq, Eq)]
pub struct Session {
    /// Segment indices in the session.
    pub segments: Vec<u64>,
    /// Sum of the segments' file sizes, up to the largest machine integer.
    pub total_bytes: u64,
    /// Whether every header in the session could be read.
    pub deletable: bool,
}

/// A session as it is reasoned about.
pub struct SessionView {
    /// Segment indices in the session.
    pub segments: Seq<u64>,
    /// Sum of the segments' file sizes, up to the largest machine integer.
    pub total_bytes: int,
    /// Whether every header in the session could be read.
    pub deletable: bool,
}

impl View for Session {
    type V = SessionView;

    open spec fn view(&self) -> SessionView {
        SessionView {
            segments: self.segments@,
            total_bytes: self.total_bytes as int,
            deletable: self.deletable,
        }
    }
}

/// The views of a sequence of sessions.
pub open spec fn views(sessions: Seq<Session>) -> Seq<SessionView> {
    sessions.map_values(|s: Session| s@)
}

/// What retention must keep regardless of the cap.
#[derive(Debug, Clone, PartialEq, Eq)]
pub struct Pins {
    /// The oldest session that must be kept; everything newer is kept too.
    pub keep_from: Option<usize>,
    /// What is pinned, in words.
    pub pinned: Option<String>,
}

impl Default for Pins {
    fn default() -> (r: Pins)
        ensures
            r.keep_from is None,
            r.pinned is None,
    {
        Pins { keep_from: None, pinned: None }
    }
}

/// What is left above the cap after everything safe was deleted.
#[derive(Debug, Clone, PartialEq, Eq)]
pub struct Overage {
    /// Bytes over the cap, up to the largest machine integer.
    pub over_by: u64,
    /// Bytes retained, up to the largest machine integer.
    pub kept_bytes: u64,
    /// The cap.
    pub cap: u64,
    /// The pin responsible, if there is one.
    pub pinned: Option<String>,
}

/// The pruning decision.
#[derive(Debug, Clone, PartialEq, Eq)]
pub struct PruningPlan {
    /// Segment indices to unlink, oldest first. Whole sessions only.
    pub delete: Vec<u64>,
    /// Bytes retained afterwards, up to the largest machine integer.
    pub kept_bytes: u64,
    /// The cap.
    pub cap: u64,
    /// Set when more than the cap is retained.
    pub overage: Option<Overage>,
}

/// Sum of the sizes of `segments`.
pub open spec fn sizes(segments: Seq<SegmentMeta>) -> int
    decreases segments.len(),
{
    if segments.len() == 0 {
        0
    } else {
        sizes(segments.drop_last()) + segments.last().size_bytes
    }
}

/// A session begins at segment `i`: it is the first, or its header or the one
/// before cannot be read, or the clock fell back by at least `floor`.
pub open spec fn begins_session(segments: Seq<SegmentMeta>, i: int, floor: u64) -> bool {
    i == 0 || match (segments[i - 1].created_mono_ns, segments[i].created_mono_ns) {
        (Some(before), Some(now)) => floor == 0 || before - now >= floor,
        _ => true,
    }
}

/// The session of one segment.
pub open spec fn alone(segment: SegmentMeta) -> SessionView {
    SessionView {
        segments: seq![segment.index],
        total_bytes: segment.size_bytes as int,
        deletable: segment.created_mono_ns is Some,
    }
}

/// A session grown by one segment.
pub open spec fn grown(session: SessionView, segment: SegmentMeta) -> SessionView {
    SessionView {
        segments: session.segments.push(segment.index),
        total_bytes: clamped(session.total_bytes + segment.size_bytes) as int,
        deletable: session.deletable && segment.created_mono_ns is Some,
    }
}

/// The sessions of `segments`, oldest first: each segment either begins one or
/// joins the one before.
pub open spec fn grouped(segments: Seq<SegmentMeta>, floor: u64) -> Seq<SessionView>
    decreases segments.len(),
{
    if segments.len() == 0 {
        Seq::empty()
    } else {
        let before = grouped(segments.drop_last(), floor);
        if begins_session(segments, segments.len() - 1, floor) {
            before.push(alone(segments.last()))
        } else {
            before.drop_last().push(grown(before.last(), segments.last()))
        }
    }
}

/// The total of the sessions' bytes.
pub open spec fn total_bytes(sessions: Seq<SessionView>) -> int
    decreases sessions.len(),
{
    if sessions.len() == 0 {
        0
    } else {
        total_bytes(sessions.drop_last()) + sessions.last().total_bytes
    }
}

/// The segment indices of the sessions, one session after another.
pub open spec fn all_segments(sessions: Seq<SessionView>) -> Seq<u64>
    decreases sessions.len(),
{
    if sessions.len() == 0 {
        Seq::empty()
    } else {
        all_segments(sessions.drop_last()) + sessions.last().segments
    }
}

proof fn lemma_prefix_sizes(segments: Seq<SegmentMeta>, i: int)
    requires
        0 <= i <= segments.len(),
    ensures
        0 <= sizes(segments.take(i)) <= sizes(segments),
    decreases segments.len(),
{
    if i == segments.len() {
        assert(segments.take(i) =~= segments);
        if i > 0 {
            lemma_prefix_sizes(segments.drop_last(), i - 1);
            assert(segments.drop_last().take(i - 1) =~= segments.drop_last());
        }
    } else {
        lemma_prefix_sizes(segments.drop_last(), i);
        assert(segments.drop_last().take(i) =~= segments.take(i));
    }
}

proof fn lemma_grouped_shape(segments: Seq<SegmentMeta>, floor: u64)
    ensures
        segments.len() > 0 ==> grouped(segments, floor).len() > 0,
        0 <= total_bytes(grouped(segments, floor)) <= sizes(segments),
        sizes(segments) <= u64::MAX ==> total_bytes(grouped(segments, floor)) == sizes(segments),
        all_segments(grouped(segments, floor)) == segments.map_values(|s: SegmentMeta| s.index),
        forall|k: int|
            0 <= k < grouped(segments, floor).len() ==> {
                &&& 0 <= (#[trigger] grouped(segments, floor)[k]).total_bytes <= u64::MAX
                &&& grouped(segments, floor)[k].total_bytes <= sizes(segments)
                &&& grouped(segments, floor)[k].segments.len() > 0
            },
    decreases segments.len(),
{
    if segments.len() > 0 {
        let less = segments.drop_last();
        lemma_grouped_shape(less, floor);
        lemma_prefix_sizes(less, 0);
        assert(less.take(0) =~= Seq::<SegmentMeta>::empty());
        let before = grouped(less, floor);
        let now = grouped(segments, floor);
        let indices = segments.map_values(|s: SegmentMeta| s.index);
        assert(indices =~= less.map_values(|s: SegmentMeta| s.index).push(segments.last().index));
        if begins_session(segments, segments.len() - 1, floor) {
            assert(now.drop_last() =~= before);
            assert(all_segments(now) =~= indices);
        } else {
            assert(now.drop_last() =~= before.drop_last());
            assert(all_segments(now) =~= indices);
        }
        assert forall|k: int| 0 <= k < now.len() implies {
            &&& 0 <= (#[trigger] now[k]).total_bytes <= u64::MAX
            &&& now[k].total_bytes <= sizes(segments)
            &&& now[k].segments.len() > 0
        } by {
            if k < before.len() {
                assert(0 <= before[k].total_bytes <= sizes(less));
            }
        }
    } else {
        assert(all_segments(grouped(segments, floor)) =~= segments.map_values(
            |s: SegmentMeta| s.index,
        ));
    }
}

/// Grouping loses, invents and reorders nothing: the sessions' segments one
/// after another are the segments that went in, and their bytes add up where
/// the sum is a machine integer.
pub proof fn grouping_is_a_partition(segments: Seq<SegmentMeta>, floor: u64)
    ensures
        all_segments(grouped(segments, floor)) == segments.map_values(|s: SegmentMeta| s.index),
        sizes(segments) <= u64::MAX ==> total_bytes(grouped(segments, floor)) == sizes(segments),
        forall|k: int|
            0 <= k < grouped(segments, floor).len() ==> (#[trigger] grouped(
                segments,
                floor,
            )[k]).segments.len() > 0,
{
    lemma_grouped_shape(segments, floor);
}

/// The place at which the last session of `segments` begins.
pub open spec fn last_start(segments: Seq<SegmentMeta>, floor: u64) -> int
    decreases segments.len(),
{
    if segments.len() == 0 || begins_session(segments, segments.len() - 1, floor) {
        segments.len() - 1
    } else {
        last_start(segments.drop_last(), floor)
    }
}

/// The session holds the segments of `run` and weighs what they weigh, up to the
/// largest machine integer.
pub open spec fn holds_run(session: SessionView, run: Seq<SegmentMeta>) -> bool {
    &&& session.segments == run.map_values(|s: SegmentMeta| s.index)
    &&& session.total_bytes == clamped(sizes(run))
}

/// Some stretch of `segments` is what the session holds.
pub open spec fn is_a_run(session: SessionView, segments: Seq<SegmentMeta>) -> bool {
    exists|i: int, j: int|
        0 <= i < j <= segments.len() && holds_run(session, #[trigger] segments.subrange(i, j))
}

proof fn lemma_last_run(segments: Seq<SegmentMeta>, floor: u64)
    requires
        segments.len() > 0,
    ensures
        0 <= last_start(segments, floor) < segments.len(),
        grouped(segments, floor).len() > 0,
        holds_run(
            grouped(segments, floor).last(),
            segments.subrange(last_start(segments, floor), segments.len() as int),
        ),
    decreases segments.len(),
{
    let n = segments.len() as int;
    let i = last_start(segments, floor);
    let run = segments.subrange(i, n);
    if begins_session(segments, n - 1, floor) {
        assert(run =~= seq![segments.last()]);
        assert(run.drop_last() =~= Seq::<SegmentMeta>::empty());
        assert(sizes(run.drop_last()) == 0);
        assert(alone(segments.last()).segments =~= run.map_values(|s: SegmentMeta| s.index));
    } else {
        let less = segments.drop_last();
        lemma_last_run(less, floor);
        let before = less.subrange(i, n - 1);
        assert(run.drop_last() =~= before);
        assert(run.last() == segments.last());
        lemma_prefix_sizes(before, 0);
        assert(grown(grouped(less, floor).last(), segments.last()).segments =~= run.map_values(
            |s: SegmentMeta| s.index,
        ));
    }
}

/// A session is a stretch of the segments that went in, and its bytes are theirs,
/// up to the largest machine integer.
pub proof fn a_session_weighs_what_its_segments_weigh(segments: Seq<SegmentMeta>, floor: u64)
    ensures
        forall|k: int|
            0 <= k < grouped(segments, floor).len() ==> is_a_run(
                #[trigger] grouped(segments, floor)[k],
                segments,
            ),
    decreases segments.len(),
{
    if segments.len() > 0 {
        let less = segments.drop_last();
        let before = grouped(less, floor);
        let now = grouped(segments, floor);
        a_session_weighs_what_its_segments_weigh(less, floor);
        lemma_last_run(segments, floor);
        assert forall|k: int| 0 <= k < now.len() implies is_a_run(#[trigger] now[k], segments) by {
            if k < now.len() - 1 {
                assert(now[k] == before[k]);
                assert(is_a_run(before[k], less));
                let (i, j) = choose|i: int, j: int|
                    0 <= i < j <= less.len() && holds_run(
                        before[k],
                        #[trigger] less.subrange(i, j),
                    );
                assert(segments.subrange(i, j) =~= less.subrange(i, j));
            } else {
                assert(holds_run(
                    now[k],
                    segments.subrange(last_start(segments, floor), segments.len() as int),
                ));
            }
        }
    }
}

/// A session that may not be deleted holds one segment alone: one whose header
/// cannot be read never taints a neighbour.
pub proof fn an_unreadable_segment_is_a_session_of_its_own(segments: Seq<SegmentMeta>, floor: u64)
    ensures
        forall|k: int|
            0 <= k < grouped(segments, floor).len() && !(#[trigger] grouped(
                segments,
                floor,
            )[k]).deletable ==> grouped(segments, floor)[k].segments.len() == 1,
    decreases segments.len(),
{
    lemma_last_session(segments, floor);
    if segments.len() > 0 {
        let less = segments.drop_last();
        an_unreadable_segment_is_a_session_of_its_own(less, floor);
        lemma_last_session(less, floor);
        let before = grouped(less, floor);
        let now = grouped(segments, floor);
        assert forall|k: int| 0 <= k < now.len() && !(#[trigger] now[k]).deletable implies now[k].segments.len()
            == 1 by {
            if k < now.len() - 1 {
                assert(now[k] == before[k]);
            }
        }
    }
}

/// The last session may be deleted exactly when the last header can be read.
proof fn lemma_last_session(segments: Seq<SegmentMeta>, floor: u64)
    requires
        true,
    ensures
        segments.len() > 0 ==> grouped(segments, floor).len() > 0 && (grouped(
            segments,
            floor,
        ).last().deletable <==> segments.last().created_mono_ns is Some),
    decreases segments.len(),
{
    if segments.len() > 0 {
        lemma_last_session(segments.drop_last(), floor);
        if segments.len() > 1 {
            assert(segments.drop_last().last() == segments[segments.len() - 2]);
        }
    }
}

impl Session {
    /// A session without segments.
    pub fn new() -> (r: Self)
        ensures
            r.segments@ == Seq::<u64>::empty(),
            r.total_bytes == 0,
            r.deletable,
    {
        Session { segments: Vec::new(), total_bytes: 0, deletable: true }
    }

    /// Adds one segment at the end.
    pub fn push(&mut self, seg: &SegmentMeta)
        ensures
            final(self)@ == grown(old(self)@, *seg),
    {
        self.segments.push(seg.index);
        self.total_bytes = self.total_bytes.saturating_add(seg.size_bytes);
        self.deletable = self.deletable && seg.created_mono_ns.is_some();
    }
}

/// Groups segments, which are sorted by index, into sessions, oldest first.
/// `floor` is the least fall of the clock that shows a reboot.
pub fn group_into_sessions(segments: &[SegmentMeta], floor: u64) -> (r: Vec<Session>)
    ensures
        views(r@) == grouped(segments@, floor),
{
    let mut sessions: Vec<Session> = Vec::new();
    assert(views(sessions@) =~= grouped(segments@.take(0), floor));
    let mut i: usize = 0;
    while i < segments.len()
        invariant
            0 <= i <= segments@.len(),
            views(sessions@) == grouped(segments@.take(i as int), floor),
        decreases segments@.len() - i,
    {
        let seg = &segments[i];
        let ghost upto = segments@.take(i + 1);
        let ghost done = segments@.take(i as int);
        proof {
            assert(upto.drop_last() =~= done);
            assert(upto.last() == *seg);
            lemma_grouped_shape(done, floor);
            if i > 0 {
                assert(upto[i - 1] == segments@[i - 1]);
            }
            assert(begins_session(upto, i as int, floor) == begins_session(
                segments@,
                i as int,
                floor,
            ));
        }
        let boundary: bool = if i == 0 {
            true
        } else {
            match (segments[i - 1].created_mono_ns, seg.created_mono_ns) {
                (Some(before), Some(now)) => before.saturating_sub(now) >= floor,
                _ => true,
            }
        };
        assert(boundary == begins_session(segments@, i as int, floor));
        let ghost before = sessions@;
        if boundary {
            let mut session = Session::new();
            session.push(seg);
            assert(session@.segments =~= seq![seg.index]);
            sessions.push(session);
            assert(views(sessions@) =~= views(before).push(alone(*seg)));
        } else {
            assert(views(before).len() > 0);
            let ghost tail = before.last();
            assert(views(before).last() == tail@);
            match sessions.pop() {
                Some(mut session) => {
                    session.push(seg);
                    sessions.push(session);
                },
                None => {},
            }
            assert(views(sessions@) =~= views(before).drop_last().push(grown(tail@, *seg)));
        }
        i = i + 1;
    }
    assert(segments@.take(i as int) =~= segments@);
    sessions
}

/// The first session that is kept whatever the cap: the newest, or the oldest
/// pinned one.
pub open spec fn keep_floor(count: nat, keep_from: Option<usize>) -> int {
    match keep_from {
        Some(k) => if k < count {
            k as int
        } else {
            count - 1
        },
        None => count - 1,
    }
}

/// What is deleted of the first `k` sessions, oldest first, and what is then
/// retained of `total`: a session goes, whole, when it may and more than the
/// cap is still retained.
pub open spec fn pruned(
    sessions: Seq<SessionView>,
    total: int,
    cap: int,
    k: nat,
) -> (Seq<u64>, int)
    decreases k,
{
    if k == 0 {
        (Seq::empty(), total)
    } else {
        let (deleted, kept) = pruned(sessions, total, cap, (k - 1) as nat);
        if kept <= cap || !sessions[k - 1].deletable {
            (deleted, kept)
        } else {
            (deleted + sessions[k - 1].segments, kept - sessions[k - 1].total_bytes)
        }
    }
}

/// The decision on `sessions`.
pub open spec fn decided(sessions: Seq<SessionView>, keep_from: Option<usize>, cap: u64) -> (
    Seq<u64>,
    int,
) {
    if sessions.len() == 0 {
        (Seq::empty(), 0)
    } else {
        pruned(
            sessions,
            total_bytes(sessions),
            cap as int,
            keep_floor(sessions.len(), keep_from) as nat,
        )
    }
}

/// The text of an optional string.
pub open spec fn text_in(s: Option<String>) -> Option<Seq<char>> {
    match s {
        Some(t) => Some(t@),
        None => None,
    }
}

proof fn lemma_total_split(sessions: Seq<SessionView>, k: int)
    requires
        0 <= k <= sessions.len(),
        forall|i: int| 0 <= i < sessions.len() ==> 0 <= (#[trigger] sessions[i]).total_bytes,
    ensures
        0 <= total_bytes(sessions.take(k)) <= total_bytes(sessions),
    decreases sessions.len(),
{
    if k == sessions.len() {
        assert(sessions.take(k) =~= sessions);
        if k > 0 {
            lemma_total_split(sessions.drop_last(), k - 1);
            assert(sessions.drop_last().take(k - 1) =~= sessions.drop_last());
        }
    } else {
        lemma_total_split(sessions.drop_last(), k);
        assert(sessions.drop_last().take(k) =~= sessions.take(k));
    }
}

proof fn lemma_pruned_bounds(sessions: Seq<SessionView>, total: int, cap: int, k: nat)
    requires
        k <= sessions.len(),
        forall|i: int| 0 <= i < sessions.len() ==> 0 <= (#[trigger] sessions[i]).total_bytes,
    ensures
        total - total_bytes(sessions.take(k as int)) <= pruned(sessions, total, cap, k).1 <= total,
    decreases k,
{
    if k > 0 {
        lemma_pruned_bounds(sessions, total, cap, (k - 1) as nat);
        assert(sessions.take(k as int).drop_last() =~= sessions.take(k - 1));
    } else {
        assert(sessions.take(0) =~= Seq::<SessionView>::empty());
    }
}

/// `plan` is the decision on `sessions`. What is retained is added up exactly and
/// told up to the largest machine integer.
pub open spec fn planned(
    sessions: Seq<SessionView>,
    keep_from: Option<usize>,
    pinned: Option<Seq<char>>,
    cap: u64,
    plan: PruningPlan,
) -> bool {
    let (deleted, kept) = decided(sessions, keep_from, cap);
    &&& plan.delete@ == deleted
    &&& plan.kept_bytes == clamped(kept)
    &&& plan.cap == cap
    &&& plan.overage is Some <==> kept > cap
    &&& plan.overage matches Some(over) ==> {
        &&& over.over_by == clamped(kept - cap)
        &&& over.kept_bytes == clamped(kept)
        &&& over.cap == cap
        &&& text_in(over.pinned) == pinned
    }
}

/// Decides which segments to delete.
pub fn plan_pruning(sessions: &[Session], pins: &Pins, cap: u64) -> (r: PruningPlan)
    ensures
        planned(views(sessions@), pins.keep_from, text_in(pins.pinned), cap, r),
{
    let ghost all = views(sessions@);
    if sessions.len() == 0 {
        return PruningPlan { delete: Vec::new(), kept_bytes: 0, cap, overage: None };
    }
    let mut total: u128 = 0;
    let mut i: usize = 0;
    assert(all.take(0) =~= Seq::<SessionView>::empty());
    while i < sessions.len()
        invariant
            0 <= i <= sessions@.len(),
            all == views(sessions@),
            total == total_bytes(all.take(i as int)),
            total <= i * 0xffff_ffff_ffff_ffff,
        decreases sessions@.len() - i,
    {
        proof {
            assert(all.take(i + 1).drop_last() =~= all.take(i as int));
            assert(all.take(i + 1).last() == sessions@[i as int]@);
        }
        total = total + sessions[i].total_bytes as u128;
        i = i + 1;
    }
    assert(all.take(i as int) =~= all);
    let newest: usize = sessions.len() - 1;
    let floor: usize = match pins.keep_from {
        Some(k) => if k <= newest {
            k
        } else {
            newest
        },
        None => newest,
    };
    let mut running: u128 = total;
    let mut delete: Vec<u64> = Vec::new();
    let mut k: usize = 0;
    while k < floor
        invariant
            0 <= k <= floor < sessions@.len(),
            all == views(sessions@),
            total == total_bytes(all),
            (delete@, running as int) == pruned(all, total as int, cap as int, k as nat),
        decreases floor - k,
    {
        assert(all[k as int] == sessions@[k as int]@);
        if running > cap as u128 && sessions[k].deletable {
            proof {
                lemma_pruned_bounds(all, total as int, cap as int, (k + 1) as nat);
                lemma_total_split(all, k + 1);
            }
            let ghost before = delete@;
            append_all(&mut delete, &sessions[k].segments);
            running = running - sessions[k].total_bytes as u128;
        }
        k = k + 1;
    }
    let overage: Option<Overage> = if running > cap as u128 {
        Some(
            Overage {
                over_by: clamp(running - cap as u128),
                kept_bytes: clamp(running),
                cap,
                pinned: match &pins.pinned {
                    Some(s) => Some(s.clone()),
                    None => None,
                },
            },
        )
    } else {
        None
    };
    PruningPlan { delete, kept_bytes: clamp(running), cap, overage }
}

/// Appends all of `more`.
fn append_all(to: &mut Vec<u64>, more: &Vec<u64>)
    ensures
        final(to)@ == old(to)@ + more@,
{
    let mut i: usize = 0;
    assert(to@ =~= to@ + more@.take(0));
    while i < more.len()
        invariant
            0 <= i <= more@.len(),
            to@ == old(to)@ + more@.take(i as int),
        decreases more@.len() - i,
    {
        to.push(more[i]);
        i = i + 1;
        assert(to@ =~= old(to)@ + more@.take(i as int));
    }
    assert(more@.take(i as int) =~= more@);
}

/// An interrupted print that awaits recovery.
#[derive(Debug)]
pub struct Pending {
    /// The print file.
    pub file: String,
    /// Whether its Z frame was recorded as unknown.
    pub frame_invalid: bool,
}

/// A WAL context that names a print file.
#[derive(Debug)]
pub struct NamedFile {
    /// The segment the context stands in.
    pub segment: u64,
    /// The file it names.
    pub file: String,
}

/// Some context of the session names `file`. A context without a file name is
/// not of a print, so the empty name is never named.
pub open spec fn names_file(
    session: SessionView,
    contexts: Seq<NamedFile>,
    file: Seq<char>,
) -> bool {
    file.len() > 0 && exists|i: int|
        0 <= i < contexts.len() && (#[trigger] contexts[i]).file@ == file
            && session.segments.contains(contexts[i].segment)
}

/// The newest of the first `n` sessions with a context that names `file`.
pub open spec fn newest_naming(
    sessions: Seq<SessionView>,
    contexts: Seq<NamedFile>,
    file: Seq<char>,
    n: nat,
) -> Option<usize>
    decreases n,
{
    if n == 0 {
        None
    } else if names_file(sessions[n - 1], contexts, file) {
        Some((n - 1) as usize)
    } else {
        newest_naming(sessions, contexts, file, (n - 1) as nat)
    }
}

/// Whether `list` holds `x`.
fn holds_segment(list: &Vec<u64>, x: u64) -> (r: bool)
    ensures
        r == list@.contains(x),
{
    let mut i: usize = 0;
    while i < list.len()
        invariant
            0 <= i <= list@.len(),
            forall|j: int| 0 <= j < i ==> list@[j] != x,
        decreases list@.len() - i,
    {
        if list[i] == x {
            return true;
        }
        i = i + 1;
    }
    false
}

/// Whether some context of the session names `file`.
pub fn session_names_file(session: &Session, contexts: &[NamedFile], file: &str) -> (r: bool)
    ensures
        r == names_file(session@, contexts@, file@),
{
    proof {
        reveal_strlit("");
    }
    if same(file, "") {
        return false;
    }
    assert(file@.len() > 0) by {
        if file@.len() == 0 {
            assert(file@ =~= ""@);
        }
    }
    let mut i: usize = 0;
    while i < contexts.len()
        invariant
            0 <= i <= contexts@.len(),
            file@.len() > 0,
            forall|j: int|
                0 <= j < i ==> !((#[trigger] contexts@[j]).file@ == file@
                    && session@.segments.contains(contexts@[j].segment)),
        decreases contexts@.len() - i,
    {
        if same(contexts[i].file.as_str(), file) && holds_segment(
            &session.segments,
            contexts[i].segment,
        ) {
            assert(contexts@[i as int].file@ == file@);
            return true;
        }
        i = i + 1;
    }
    false
}

/// The newest session with a context that names `file`.
pub fn newest_session_naming(
    sessions: &[Session],
    contexts: &[NamedFile],
    file: &str,
) -> (r: Option<usize>)
    ensures
        r == newest_naming(views(sessions@), contexts@, file@, sessions@.len()),
        r matches Some(k) ==> k < sessions@.len(),
{
    let mut n: usize = sessions.len();
    while n > 0
        invariant
            0 <= n <= sessions@.len(),
            newest_naming(views(sessions@), contexts@, file@, n as nat) == newest_naming(
                views(sessions@),
                contexts@,
                file@,
                sessions@.len(),
            ),
        decreases n,
    {
        assert(views(sessions@)[n - 1] == sessions@[n - 1]@);
        if session_names_file(&sessions[n - 1], contexts, file) {
            return Some(n - 1);
        }
        n = n - 1;
    }
    None
}

/// The session a pin resolves to: everything, when what is pinned cannot be
/// placed.
pub open spec fn pinned_from(
    pending: Option<Pending>,
    frame_invalid: bool,
    sessions: Seq<SessionView>,
    contexts: Seq<NamedFile>,
) -> Option<usize> {
    match pending {
        None => if frame_invalid {
            Some(0)
        } else {
            None
        },
        Some(p) => match newest_naming(sessions, contexts, p.file@, sessions.len()) {
            Some(k) => Some(k),
            None => Some(0),
        },
    }
}

/// What is pinned, in words.
pub open spec fn pinned_text(
    pending: Option<Pending>,
    frame_invalid: bool,
    sessions: Seq<SessionView>,
    contexts: Seq<NamedFile>,
) -> Option<Seq<char>> {
    match pending {
        None => if frame_invalid {
            Some("frame-invalid interlock (no pending file to localize; keeping all WAL)"@)
        } else {
            None
        },
        Some(p) => {
            let start = "pending recovery for '"@ + p.file@ + "'"@;
            match newest_naming(sessions, contexts, p.file@, sessions.len()) {
                Some(_) => if frame_invalid || p.frame_invalid {
                    Some(start + " [Z frame UNKNOWN — fresh dry run required]"@)
                } else {
                    Some(start)
                },
                None => Some(start + " (session not found; keeping all WAL)"@),
            }
        },
    }
}

/// Resolves what is pinned from the pending recovery and the frame interlock.
pub fn resolve_pins(
    pending: &Option<Pending>,
    frame_invalid: bool,
    sessions: &[Session],
    contexts: &[NamedFile],
) -> (r: Pins)
    ensures
        r.keep_from == pinned_from(*pending, frame_invalid, views(sessions@), contexts@),
        text_in(r.pinned) == pinned_text(*pending, frame_invalid, views(sessions@), contexts@),
{
    let pending = match pending {
        None => {
            if frame_invalid {
                return Pins {
                    keep_from: Some(0),
                    pinned: Some(
                        "frame-invalid interlock (no pending file to localize; keeping all WAL)".to_owned(),
                    ),
                };
            }
            return Pins::default();
        },
        Some(p) => p,
    };
    let mut text = "pending recovery for '".to_owned();
    text.append(pending.file.as_str());
    text.append("'");
    match newest_session_naming(sessions, contexts, pending.file.as_str()) {
        Some(ordinal) => {
            if frame_invalid || pending.frame_invalid {
                text.append(" [Z frame UNKNOWN — fresh dry run required]");
            }
            Pins { keep_from: Some(ordinal), pinned: Some(text) }
        },
        None => {
            text.append(" (session not found; keeping all WAL)");
            Pins { keep_from: Some(0), pinned: Some(text) }
        },
    }
}

/// The whole retention decision over what was found on disk: nothing when there
/// are no segments.
pub fn run_pruning(
    metas: &[SegmentMeta],
    contexts: &[NamedFile],
    pending: &Option<Pending>,
    frame_invalid: bool,
    cap: u64,
    floor: u64,
) -> (r: Option<PruningPlan>)
    ensures
        r is None <==> metas@.len() == 0,
        r matches Some(plan) ==> {
            let sessions = grouped(metas@, floor);
            planned(
                sessions,
                pinned_from(*pending, frame_invalid, sessions, contexts@),
                pinned_text(*pending, frame_invalid, sessions, contexts@),
                cap,
                plan,
            )
        },
{
    if metas.len() == 0 {
        return None;
    }
    let sessions = group_into_sessions(metas, floor);
    let pins = resolve_pins(pending, frame_invalid, sessions.as_slice(), contexts);
    Some(plan_pruning(sessions.as_slice(), &pins, cap))
}

/// `s` without quote characters.
pub open spec fn unquoted(s: Seq<char>) -> Seq<char> {
    s.filter(|c: char| c != '"' && c != '\'')
}

/// Drops the quote characters of `s`.
fn strip_quotes(s: &str) -> (r: String)
    ensures
        r@ == unquoted(s@),
{
    let cs = chars(s);
    let mut out = String::new();
    let mut i: usize = 0;
    let ghost keep = |c: char| c != '"' && c != '\'';
    assert(cs@.take(0).filter(keep) =~= Seq::<char>::empty()) by {
        reveal(Seq::filter);
    }
    while i < cs.len()
        invariant
            0 <= i <= cs@.len(),
            keep == (|c: char| c != '"' && c != '\''),
            out@ == cs@.take(i as int).filter(keep),
        decreases cs@.len() - i,
    {
        let c = cs[i];
        assert(cs@.take(i + 1).drop_last() =~= cs@.take(i as int));
        assert(cs@.take(i + 1).filter(keep) == (if keep(c) {
            cs@.take(i as int).filter(keep).push(c)
        } else {
            cs@.take(i as int).filter(keep)
        })) by {
            reveal(Seq::filter);
        }
        if c != '"' && c != '\'' {
            out.push(c);
        }
        i = i + 1;
    }
    assert(cs@.take(i as int) =~= s@);
    out
}

/// The message about a cap that a pin keeps from being met.
pub open spec fn overage_message(cap: u64, over_by: u64, pinned: Seq<char>) -> Seq<char> {
    "dead-reckoning: WAL retention cannot meet its "@ + decimal(cap as nat) + " B cap — "@
        + decimal(over_by as nat) + " B over, held by "@ + unquoted(pinned)
        + ". Evidence is being KEPT, not deleted; free space or clear the pin."@
}

/// The primary and fallback commands of a console-visible overage notice, for
/// an overage that a pin is responsible for.
pub fn overage_commands(overage: &Overage) -> (r: Option<(String, String)>)
    ensures
        match overage.pinned {
            None => r is None,
            Some(pinned) => r matches Some(commands) && {
                let message = overage_message(overage.cap, overage.over_by, pinned@);
                &&& commands.0@ == "RESPOND PREFIX=dead-reckoning MSG=\""@ + message + "\""@
                &&& commands.1@ == "M117 "@ + message
            },
        },
{
    match &overage.pinned {
        None => None,
        Some(pinned) => {
            let safe = strip_quotes(pinned.as_str());
            let cap = decimal_of(overage.cap);
            let over = decimal_of(overage.over_by);
            let mut message = "dead-reckoning: WAL retention cannot meet its ".to_owned();
            message.append(cap.as_str());
            message.append(" B cap — ");
            message.append(over.as_str());
            message.append(" B over, held by ");
            message.append(safe.as_str());
            message.append(". Evidence is being KEPT, not deleted; free space or clear the pin.");
            let mut respond = "RESPOND PREFIX=dead-reckoning MSG=\"".to_owned();
            respond.append(message.as_str());
            respond.append("\"");
            let mut notice = "M117 ".to_owned();
            notice.append(message.as_str());
            Some((respond, notice))
        },
    }
}

/// The fate of one unlink.
#[derive(Debug)]
pub enum Unlink {
    /// The file is gone.
    Removed,
    /// There was no such file.
    Missing,
    /// It could not be removed.
    Failed(String),
}

/// How many of the first `n` files were removed.
pub open spec fn removed_count(fates: Seq<Unlink>, n: nat) -> nat
    decreases n,
{
    if n == 0 {
        0
    } else {
        removed_count(fates, (n - 1) as nat) + (if fates[n - 1] is Removed {
            1nat
        } else {
            0nat
        })
    }
}

/// The first failure from `i` on.
pub open spec fn first_failure(fates: Seq<Unlink>, i: int) -> Option<Seq<char>>
    decreases fates.len() - i,
{
    if i < 0 || i >= fates.len() {
        None
    } else {
        match fates[i] {
            Unlink::Failed(error) => Some(error@),
            _ => first_failure(fates, i + 1),
        }
    }
}

/// What applying the deletions came to: a directory that could not be synced
/// outweighs everything, then the first failed unlink; a file already gone is
/// no failure.
pub fn apply_pruning(fates: &[Unlink], synced: Result<(), String>) -> (r: Result<usize, String>)
    ensures
        match (synced, first_failure(fates@, 0)) {
            (Err(error), _) => r matches Err(e) && e@ == error@,
            (Ok(_), Some(error)) => r matches Err(e) && e@ == error,
            (Ok(_), None) => r == Ok::<usize, String>(removed_count(fates@, fates@.len()) as usize)
                && removed_count(fates@, fates@.len()) <= fates@.len(),
        },
{
    let mut removed: usize = 0;
    let mut i: usize = 0;
    let mut failure: Option<String> = None;
    while i < fates.len()
        invariant
            0 <= i <= fates@.len(),
            removed == removed_count(fates@, i as nat),
            removed <= i,
            match failure {
                Some(error) => first_failure(fates@, 0) == Some(error@),
                None => first_failure(fates@, i as int) == first_failure(fates@, 0),
            },
        decreases fates@.len() - i,
    {
        match &fates[i] {
            Unlink::Removed => {
                removed = removed + 1;
            },
            Unlink::Missing => {},
            Unlink::Failed(error) => {
                if failure.is_none() {
                    failure = Some(error.clone());
                }
            },
        }
        i = i + 1;
    }
    match synced {
        Err(error) => Err(error),
        Ok(_) => match failure {
            Some(error) => Err(error),
            None => Ok(removed),
        },
    }
}

/// The sessions among the first `k` that are deleted, oldest first.
pub open spec fn victims(sessions: Seq<SessionView>, total: int, cap: int, k: nat) -> Seq<int>
    decreases k,
{
    if k == 0 {
        Seq::empty()
    } else {
        let before = victims(sessions, total, cap, (k - 1) as nat);
        if pruned(sessions, total, cap, (k - 1) as nat).1 <= cap || !sessions[k - 1].deletable {
            before
        } else {
            before.push(k - 1)
        }
    }
}

/// The sessions at the places `chosen`, in that order.
pub open spec fn selected(sessions: Seq<SessionView>, chosen: Seq<int>) -> Seq<SessionView> {
    chosen.map_values(|k: int| sessions[k])
}

proof fn lemma_victims(sessions: Seq<SessionView>, total: int, cap: int, k: nat)
    requires
        k <= sessions.len(),
    ensures
        ({
            let v = victims(sessions, total, cap, k);
            &&& pruned(sessions, total, cap, k).0 == all_segments(selected(sessions, v))
            &&& pruned(sessions, total, cap, k).1 == total - total_bytes(selected(sessions, v))
            &&& forall|i: int|
                0 <= i < v.len() ==> 0 <= #[trigger] v[i] < k && sessions[v[i]].deletable
                    && pruned(sessions, total, cap, v[i] as nat).1 > cap
            &&& forall|i: int, j: int| 0 <= i < j < v.len() ==> v[i] < v[j]
            &&& forall|m: int|
                0 <= m < k && (#[trigger] sessions[m]).deletable && pruned(
                    sessions,
                    total,
                    cap,
                    k,
                ).1 > cap ==> v.contains(m)
        }),
    decreases k,
{
    let v = victims(sessions, total, cap, k);
    if k == 0 {
        assert(selected(sessions, v) =~= Seq::<SessionView>::empty());
    } else {
        lemma_victims(sessions, total, cap, (k - 1) as nat);
        let before = victims(sessions, total, cap, (k - 1) as nat);
        if pruned(sessions, total, cap, (k - 1) as nat).1 <= cap || !sessions[k - 1].deletable {
        } else {
            assert(v == before.push(k - 1));
            assert(selected(sessions, v).drop_last() =~= selected(sessions, before));
            assert(selected(sessions, v).last() == sessions[k - 1]);
            assert forall|m: int|
                0 <= m < k && (#[trigger] sessions[m]).deletable && pruned(
                    sessions,
                    total,
                    cap,
                    k,
                ).1 > cap implies v.contains(m) by {
                if m == k - 1 {
                    assert(v[v.len() - 1] == m);
                } else {
                    assert(pruned(sessions, total, cap, (k - 1) as nat).1 > cap);
                    assert(before.contains(m));
                    let i = choose|i: int| 0 <= i < before.len() && before[i] == m;
                    assert(v[i] == m);
                }
            }
        }
    }
}

/// Deletion is by whole sessions, oldest first, and spares what must be kept:
/// what is deleted is exactly the segments of certain sessions, each readable
/// and older than the newest session and than every pinned one; the bytes
/// retained are what the others hold.
pub proof fn deletions_are_whole_old_sessions(
    sessions: Seq<SessionView>,
    keep_from: Option<usize>,
    cap: u64,
)
    requires
        sessions.len() > 0,
    ensures
        ({
            let floor = keep_floor(sessions.len(), keep_from);
            let v = victims(sessions, total_bytes(sessions), cap as int, floor as nat);
            &&& 0 <= floor < sessions.len()
            &&& keep_from matches Some(k) ==> floor <= k
            &&& forall|i: int|
                0 <= i < v.len() ==> 0 <= #[trigger] v[i] < floor && sessions[v[i]].deletable
            &&& forall|i: int, j: int| 0 <= i < j < v.len() ==> v[i] < v[j]
            &&& decided(sessions, keep_from, cap).0 == all_segments(selected(sessions, v))
            &&& decided(sessions, keep_from, cap).1 == total_bytes(sessions) - total_bytes(
                selected(sessions, v),
            )
        }),
{
    lemma_victims(
        sessions,
        total_bytes(sessions),
        cap as int,
        keep_floor(sessions.len(), keep_from) as nat,
    );
}

/// Pruning does no more than it must and no less than it may: a session goes
/// only while more than the cap is retained, and when more than the cap is
/// retained in the end, every session that could go has gone.
pub proof fn pruning_stops_at_the_cap(
    sessions: Seq<SessionView>,
    keep_from: Option<usize>,
    cap: u64,
)
    requires
        sessions.len() > 0,
    ensures
        ({
            let floor = keep_floor(sessions.len(), keep_from);
            let total = total_bytes(sessions);
            let v = victims(sessions, total, cap as int, floor as nat);
            &&& forall|i: int|
                0 <= i < v.len() ==> pruned(sessions, total, cap as int, #[trigger] v[i] as nat).1
                    > cap
            &&& total <= cap ==> v.len() == 0
            &&& decided(sessions, keep_from, cap).1 > cap ==> forall|k: int|
                0 <= k < floor && (#[trigger] sessions[k]).deletable ==> v.contains(k)
        }),
{
    let floor = keep_floor(sessions.len(), keep_from);
    let total = total_bytes(sessions);
    lemma_victims(sessions, total, cap as int, floor as nat);
    if total <= cap {
        lemma_fits(sessions, total, cap as int, floor as nat);
    }
}

proof fn lemma_fits(sessions: Seq<SessionView>, total: int, cap: int, k: nat)
    requires
        total <= cap,
    ensures
        victims(sessions, total, cap, k).len() == 0,
        pruned(sessions, total, cap, k).1 == total,
    decreases k,
{
    if k > 0 {
        lemma_fits(sessions, total, cap, (k - 1) as nat);
    }
}

/// No two sessions share a segment.
pub open spec fn disjoint(sessions: Seq<SessionView>) -> bool {
    forall|i: int, j: int, x: u64|
        0 <= i < sessions.len() && 0 <= j < sessions.len() && i != j
            && #[trigger] sessions[i].segments.contains(x)
            ==> !#[trigger] sessions[j].segments.contains(x)
}

proof fn lemma_all_segments_contains(sessions: Seq<SessionView>, x: u64)
    requires
        all_segments(sessions).contains(x),
    ensures
        exists|k: int| 0 <= k < sessions.len() && #[trigger] sessions[k].segments.contains(x),
    decreases sessions.len(),
{
    if sessions.len() > 0 {
        let less = all_segments(sessions.drop_last());
        let i = choose|i: int|
            0 <= i < all_segments(sessions).len() && all_segments(sessions)[i] == x;
        if i < less.len() {
            assert(less[i] == x);
            lemma_all_segments_contains(sessions.drop_last(), x);
            let k = choose|k: int|
                0 <= k < sessions.drop_last().len()
                    && #[trigger] sessions.drop_last()[k].segments.contains(x);
            assert(sessions[k].segments.contains(x));
        } else {
            assert(sessions.last().segments[i - less.len()] == x);
            assert(sessions[sessions.len() - 1].segments.contains(x));
        }
    }
}

/// No segment of the newest session, of a pinned session, or of anything newer
/// than a pinned session is ever deleted, nor one of a session that cannot be
/// read.
pub proof fn kept_segments_are_never_deleted(
    sessions: Seq<SessionView>,
    keep_from: Option<usize>,
    cap: u64,
    k: int,
    x: u64,
)
    requires
        disjoint(sessions),
        0 <= k < sessions.len(),
        k >= keep_floor(sessions.len(), keep_from) || !sessions[k].deletable,
        sessions[k].segments.contains(x),
    ensures
        !decided(sessions, keep_from, cap).0.contains(x),
{
    deletions_are_whole_old_sessions(sessions, keep_from, cap);
    let floor = keep_floor(sessions.len(), keep_from);
    let v = victims(sessions, total_bytes(sessions), cap as int, floor as nat);
    let gone = selected(sessions, v);
    if all_segments(gone).contains(x) {
        lemma_all_segments_contains(gone, x);
        let i = choose|i: int| 0 <= i < gone.len() && #[trigger] gone[i].segments.contains(x);
        assert(gone[i] == sessions[v[i]]);
        assert(v[i] != k);
        assert(sessions[v[i]].segments.contains(x));
    }
}

/// Segment indices grow along the list.
pub open spec fn ascending(segments: Seq<SegmentMeta>) -> bool {
    forall|i: int, j: int| 0 <= i < j < segments.len() ==> segments[i].index < segments[j].index
}

/// Every index of a session stands in the list it was grouped from, and later
/// sessions hold later indices.
proof fn lemma_grouped_ordered(segments: Seq<SegmentMeta>, floor: u64)
    requires
        ascending(segments),
    ensures
        forall|i: int, x: u64|
            0 <= i < grouped(segments, floor).len() && #[trigger] grouped(
                segments,
                floor,
            )[i].segments.contains(x) ==> x <= segments.last().index,
        forall|i: int, j: int, x: u64, y: u64|
            0 <= i < j < grouped(segments, floor).len() && #[trigger] grouped(
                segments,
                floor,
            )[i].segments.contains(x) && #[trigger] grouped(segments, floor)[j].segments.contains(y)
                ==> x < y,
    decreases segments.len(),
{
    if segments.len() > 0 {
        let less = segments.drop_last();
        assert(ascending(less));
        lemma_grouped_ordered(less, floor);
        lemma_grouped_shape(less, floor);
        let before = grouped(less, floor);
        let now = grouped(segments, floor);
        let last = segments.last();
        if less.len() > 0 {
            assert(less.last().index < last.index);
        }
        let m = now.len() - 1;
        assert forall|i: int, x: u64|
            0 <= i < now.len() && #[trigger] now[i].segments.contains(x) implies x <= last.index
            && (x == last.index ==> i == m) && (x != last.index ==> i < before.len()
            && before[i].segments.contains(x)) by {
            let p = choose|p: int| 0 <= p < now[i].segments.len() && now[i].segments[p] == x;
            if i < m {
                assert(now[i] == before[i]);
            } else if begins_session(segments, segments.len() - 1, floor) {
                assert(now[m] == alone(last));
            } else {
                assert(now[m] == grown(before.last(), last));
                if p < before.last().segments.len() {
                    assert(before[m].segments[p] == x);
                    assert(before[m].segments.contains(x));
                }
            }
        }
        assert forall|i: int, j: int, x: u64, y: u64|
            0 <= i < j < now.len() && #[trigger] now[i].segments.contains(x)
                && #[trigger] now[j].segments.contains(y) implies x < y by {
            assert(i < before.len() && before[i].segments.contains(x));
        }
    }
}

/// Grouped sessions share no segment.
pub proof fn grouped_sessions_are_disjoint(segments: Seq<SegmentMeta>, floor: u64)
    requires
        ascending(segments),
    ensures
        disjoint(grouped(segments, floor)),
{
    lemma_grouped_ordered(segments, floor);
    let g = grouped(segments, floor);
    assert forall|i: int, j: int, x: u64|
        0 <= i < g.len() && 0 <= j < g.len() && i != j && #[trigger] g[i].segments.contains(
            x,
        ) implies !#[trigger] g[j].segments.contains(x) by {
        if g[j].segments.contains(x) {
            if i < j {
                assert(x < x);
            } else {
                assert(x < x);
            }
        }
    }
}

/// The highest-numbered segment is never deleted, whatever is pinned and
/// however small the cap.
pub proof fn the_highest_segment_is_never_deleted(
    segments: Seq<SegmentMeta>,
    floor: u64,
    keep_from: Option<usize>,
    cap: u64,
)
    requires
        segments.len() > 0,
        ascending(segments),
    ensures
        !decided(grouped(segments, floor), keep_from, cap).0.contains(segments.last().index),
{
    let g = grouped(segments, floor);
    lemma_grouped_shape(segments, floor);
    lemma_grouped_shape(segments.drop_last(), floor);
    grouped_sessions_are_disjoint(segments, floor);
    let m = g.len() - 1;
    assert(g[m].segments[g[m].segments.len() - 1] == segments.last().index);
    assert(g[m].segments.contains(segments.last().index));
    kept_segments_are_never_deleted(g, keep_from, cap, m, segments.last().index);
}

/// Evidence that cannot be placed is kept whole: with a pending recovery that no
/// session names, or with an unknown frame and nothing to place it by, nothing is
/// deleted, whatever the cap.
pub proof fn an_unplaceable_pin_keeps_everything(
    pending: Option<Pending>,
    frame_invalid: bool,
    sessions: Seq<SessionView>,
    contexts: Seq<NamedFile>,
    cap: u64,
)
    requires
        match pending {
            Some(p) => newest_naming(sessions, contexts, p.file@, sessions.len()) is None,
            None => frame_invalid,
        },
    ensures
        ({
            let keep_from = pinned_from(pending, frame_invalid, sessions, contexts);
            &&& decided(sessions, keep_from, cap).0.len() == 0
            &&& decided(sessions, keep_from, cap).1 == total_bytes(sessions)
        }),
{
}

proof fn lemma_no_name_is_named(sessions: Seq<SessionView>, contexts: Seq<NamedFile>, n: nat)
    ensures
        newest_naming(sessions, contexts, Seq::empty(), n) is None,
    decreases n,
{
    if n > 0 {
        lemma_no_name_is_named(sessions, contexts, (n - 1) as nat);
    }
}

/// A pending recovery that names no file pins everything, whatever the contexts
/// of the log hold.
pub proof fn a_nameless_recovery_keeps_everything(
    pending: Pending,
    frame_invalid: bool,
    sessions: Seq<SessionView>,
    contexts: Seq<NamedFile>,
    cap: u64,
)
    requires
        pending.file@.len() == 0,
    ensures
        pinned_from(Some(pending), frame_invalid, sessions, contexts) == Some(0usize),
        decided(sessions, Some(0usize), cap).0.len() == 0,
{
    assert(pending.file@ =~= Seq::<char>::empty());
    lemma_no_name_is_named(sessions, contexts, sessions.len());
}

/// Bytes of the segments among the first `n` that are deleted.
pub open spec fn reclaimed(metas: Seq<SegmentMeta>, deleted: Seq<u64>, n: nat) -> int
    decreases n,
{
    if n == 0 {
        0
    } else {
        reclaimed(metas, deleted, (n - 1) as nat) + if deleted.contains(metas[n - 1].index) {
            metas[n - 1].size_bytes as int
        } else {
            0
        }
    }
}

proof fn lemma_reclaimed_grows(metas: Seq<SegmentMeta>, deleted: Seq<u64>, n: nat)
    ensures
        0 <= reclaimed(metas, deleted, n),
    decreases n,
{
    if n > 0 {
        lemma_reclaimed_grows(metas, deleted, (n - 1) as nat);
    }
}

fn is_listed(list: &Vec<u64>, index: u64) -> (r: bool)
    ensures
        r == list@.contains(index),
{
    let mut i: usize = 0;
    while i < list.len()
        invariant
            0 <= i <= list@.len(),
            forall|j: int| 0 <= j < i ==> list@[j] != index,
        decreases list@.len() - i,
    {
        if list[i] == index {
            return true;
        }
        i = i + 1;
    }
    false
}

/// Bytes that a deletion reclaims, up to the largest machine integer.
pub fn reclaimed_bytes(metas: &[SegmentMeta], deleted: &Vec<u64>) -> (r: u64)
    ensures
        r == clamped(reclaimed(metas@, deleted@, metas@.len())),
{
    let mut sum: u64 = 0;
    let mut i: usize = 0;
    while i < metas.len()
        invariant
            0 <= i <= metas@.len(),
            sum == clamped(reclaimed(metas@, deleted@, i as nat)),
        decreases metas@.len() - i,
    {
        proof {
            lemma_reclaimed_grows(metas@, deleted@, i as nat);
        }
        if is_listed(deleted, metas[i].index) {
            sum = sum.saturating_add(metas[i].size_bytes);
        }
        i = i + 1;
    }
    sum
}

/// What was pruned.
pub open spec fn pruned_line(removed: nat, reclaimed: nat, kept: nat, cap: nat) -> Seq<char> {
    "plrd: WAL retention pruned "@ + decimal(removed) + " old segment(s) ("@ + decimal(reclaimed) + " B reclaimed); "@ + decimal(kept) + " B retained against the "@ + decimal(cap) + " B cap"@
}

fn pruned_text(removed: u64, reclaimed: u64, kept: u64, cap: u64) -> (r: String)
    ensures
        r@ == pruned_line(removed as nat, reclaimed as nat, kept as nat, cap as nat),
{
    let mut out = "plrd: WAL retention pruned ".to_owned();
    let digits1 = decimal_of(removed);
    out.append(digits1.as_str());
    out.append(" old segment(s) (");
    let digits2 = decimal_of(reclaimed);
    out.append(digits2.as_str());
    out.append(" B reclaimed); ");
    let digits3 = decimal_of(kept);
    out.append(digits3.as_str());
    out.append(" B retained against the ");
    let digits4 = decimal_of(cap);
    out.append(digits4.as_str());
    out.append(" B cap");
    out
}

/// That more is retained than the cap allows.
pub open spec fn over_line(kept: nat, cap: nat, over: nat, held: Seq<char>) -> Seq<char> {
    "plrd: WAL retention: "@ + decimal(kept) + " B retained exceeds the "@ + decimal(cap) + " B cap by "@ + decimal(over) + " B"@ + held + "; keeping all evidence (a pin or the current print beats the cap)"@
}

fn over_text(kept: u64, cap: u64, over: u64, held: &str) -> (r: String)
    ensures
        r@ == over_line(kept as nat, cap as nat, over as nat, held@),
{
    let mut out = "plrd: WAL retention: ".to_owned();
    let digits1 = decimal_of(kept);
    out.append(digits1.as_str());
    out.append(" B retained exceeds the ");
    let digits2 = decimal_of(cap);
    out.append(digits2.as_str());
    out.append(" B cap by ");
    let digits3 = decimal_of(over);
    out.append(digits3.as_str());
    out.append(" B");
    out.append(held);
    out.append("; keeping all evidence (a pin or the current print beats the cap)");
    out
}

/// What holds an overage, in words.
pub open spec fn held_by(pinned: Option<String>) -> Seq<char> {
    match pinned {
        Some(p) => ", held by "@ + p@,
        None => ""@,
    }
}

/// What is logged of a pruning, a line each. `applied` is what the deletion gave;
/// nothing is said of it when nothing was to be deleted.
pub open spec fn pruning_lines(
    plan: PruningPlan,
    metas: Seq<SegmentMeta>,
    applied: Result<usize, String>,
) -> Seq<Seq<char>> {
    (if plan.delete@.len() == 0 {
        Seq::empty()
    } else {
        match applied {
            Ok(removed) => seq![
                pruned_line(
                    removed as nat,
                    clamped(reclaimed(metas, plan.delete@, metas.len())) as nat,
                    plan.kept_bytes as nat,
                    plan.cap as nat,
                ),
            ],
            Err(e) => seq!["plrd: WAL retention: some deletions failed: "@ + e@],
        }
    }) + (match plan.overage {
        Some(over) => seq![
            over_line(
                over.kept_bytes as nat,
                over.cap as nat,
                over.over_by as nat,
                held_by(over.pinned),
            ),
        ],
        None => Seq::empty(),
    })
}

/// Reports a pruning for the log.
pub fn report_pruning(
    plan: &PruningPlan,
    metas: &[SegmentMeta],
    applied: &Result<usize, String>,
) -> (r: Vec<String>)
    ensures
        texts(r@) == pruning_lines(*plan, metas@, *applied),
{
    let mut lines: Vec<String> = Vec::new();
    if plan.delete.len() > 0 {
        match applied {
            Ok(removed) => {
                let bytes = reclaimed_bytes(metas, &plan.delete);
                lines.push(pruned_text(*removed as u64, bytes, plan.kept_bytes, plan.cap));
            },
            Err(e) => {
                let mut line = "plrd: WAL retention: some deletions failed: ".to_owned();
                line.append(e.as_str());
                lines.push(line);
            },
        }
    }
    if let Some(over) = &plan.overage {
        let held = match &over.pinned {
            Some(p) => {
                let mut out = ", held by ".to_owned();
                out.append(p.as_str());
                out
            },
            None => "".to_owned(),
        };
        lines.push(over_text(over.kept_bytes, over.cap, over.over_by, held.as_str()));
    }
    assert(texts(lines@) =~= pruning_lines(*plan, metas@, *applied));
    lines
}

} // verus!
