//! What retention may delete and what it must keep, and what the clocks give.

use vstd::prelude::*;

use crate::hostclock::{clamped, mono_value, wall_value};
use crate::retention::{
    decided, disjoint, first_failure, grouped, keep_floor, kept_segments_are_never_deleted,
    names_file, newest_naming, pinned_from, pinned_text, planned, pruned, reclaimed, removed_count,
    total_bytes, unquoted, NamedFile, Pending, PruningPlan, SegmentMeta, SessionView, Unlink,
};

verus! {

/// The clock of `now` went back behind that of `before`, by `floor` or more: the
/// host was started anew between the two.
pub open spec fn restarted(before: SegmentMeta, now: SegmentMeta, floor: u64) -> bool {
    &&& before.created_mono_ns matches Some(b)
    &&& now.created_mono_ns matches Some(n)
    &&& b as int >= n as int + floor as int
}

/// A segment joins the session of the one before it exactly when both can be read
/// and the clock did not go back far enough for a restart; otherwise it begins one
/// of its own. What joins a session is appended to it, with its size.
pub proof fn a_segment_joins_the_session_of_its_clock(
    segments: Seq<SegmentMeta>,
    now: SegmentMeta,
    floor: u64,
)
    requires
        segments.len() > 0,
        floor > 0,
    ensures
        ({
            let before = grouped(segments, floor);
            let after = grouped(segments.push(now), floor);
            let joins = segments.last().created_mono_ns is Some && now.created_mono_ns is Some
                && !restarted(segments.last(), now, floor);
            &&& before.len() > 0
            &&& joins ==> {
                &&& after.len() == before.len()
                &&& after.last().segments == before.last().segments.push(now.index)
                &&& before.last().total_bytes + now.size_bytes <= u64::MAX
                    ==> after.last().total_bytes == before.last().total_bytes + now.size_bytes
                &&& after.last().deletable == before.last().deletable
            }
            &&& !joins ==> {
                &&& after.len() == before.len() + 1
                &&& after.last().segments == seq![now.index]
                &&& after.last().total_bytes == now.size_bytes
                &&& after.last().deletable <==> now.created_mono_ns is Some
            }
            &&& forall|k: int|
                0 <= k < after.len() - 1 ==> after[k] == #[trigger] before[k]
        }),
{
    let all = segments.push(now);
    assert(all.drop_last() =~= segments);
    assert(all[all.len() - 2] == segments.last());
    lemma_some_session(segments, floor);
}

proof fn lemma_some_session(segments: Seq<SegmentMeta>, floor: u64)
    requires
        segments.len() > 0,
    ensures
        grouped(segments, floor).len() > 0,
    decreases segments.len(),
{
    if segments.len() > 1 {
        lemma_some_session(segments.drop_last(), floor);
    }
}

/// The first segment begins the first session, alone.
pub proof fn the_first_segment_begins_a_session(segment: SegmentMeta, floor: u64)
    ensures
        grouped(seq![segment], floor).len() == 1,
        grouped(seq![segment], floor)[0].segments == seq![segment.index],
        grouped(seq![segment], floor)[0].total_bytes == segment.size_bytes,
        grouped(Seq::empty(), floor).len() == 0,
{
    let one = seq![segment];
    assert(one.drop_last() =~= Seq::<SegmentMeta>::empty());
    assert(grouped(one.drop_last(), floor) =~= Seq::<SessionView>::empty());
}

/// A session from the pinned one on is never deleted, and without a pin the newest
/// one is not.
pub proof fn the_pinned_and_the_newest_are_never_deleted(
    sessions: Seq<SessionView>,
    keep_from: Option<usize>,
    cap: u64,
    k: int,
    x: u64,
)
    requires
        disjoint(sessions),
        0 <= k < sessions.len(),
        k == sessions.len() - 1 || (keep_from matches Some(p) && k >= p),
        sessions[k].segments.contains(x),
    ensures
        !decided(sessions, keep_from, cap).0.contains(x),
{
    kept_segments_are_never_deleted(sessions, keep_from, cap, k, x);
}

/// Nothing is deleted while the whole log is within its cap.
pub proof fn nothing_is_deleted_within_the_cap(
    sessions: Seq<SessionView>,
    keep_from: Option<usize>,
    cap: u64,
)
    requires
        total_bytes(sessions) <= cap,
    ensures
        decided(sessions, keep_from, cap).0.len() == 0,
        decided(sessions, keep_from, cap).1 == total_bytes(sessions),
{
    if sessions.len() > 0 {
        lemma_none_pruned(
            sessions,
            total_bytes(sessions),
            cap as int,
            keep_floor(sessions.len(), keep_from) as nat,
        );
    }
}

proof fn lemma_none_pruned(sessions: Seq<SessionView>, total: int, cap: int, k: nat)
    requires
        total <= cap,
    ensures
        pruned(sessions, total, cap, k).0.len() == 0,
        pruned(sessions, total, cap, k).1 == total,
    decreases k,
{
    if k > 0 {
        lemma_none_pruned(sessions, total, cap, (k - 1) as nat);
    }
}

/// A session may go: it can be read, it is older than the pinned one, and it is not
/// the newest.
pub open spec fn may_go(sessions: Seq<SessionView>, keep_from: Option<usize>, k: int) -> bool {
    &&& 0 <= k < sessions.len() - 1
    &&& keep_from matches Some(p) ==> k < p
    &&& sessions[k].deletable
}

/// The bytes of the first `n` sessions that may go.
pub open spec fn may_free(sessions: Seq<SessionView>, keep_from: Option<usize>, n: nat) -> int
    decreases n,
{
    if n == 0 {
        0
    } else {
        may_free(sessions, keep_from, (n - 1) as nat) + if may_go(sessions, keep_from, n - 1) {
            sessions[n - 1].total_bytes
        } else {
            0
        }
    }
}

/// Every session that may go and is needed goes: where the log stays above its cap,
/// all that may go is gone; and where it gets within it, no more is.
pub proof fn the_oldest_go_until_the_cap_is_met(
    sessions: Seq<SessionView>,
    keep_from: Option<usize>,
    cap: u64,
)
    requires
        sessions.len() > 0,
    ensures
        ({
            let kept = decided(sessions, keep_from, cap).1;
            &&& kept > cap ==> kept == total_bytes(sessions) - may_free(
                sessions,
                keep_from,
                sessions.len(),
            )
            &&& kept <= cap && total_bytes(sessions) > cap ==> exists|n: int|
                0 < n < sessions.len() && #[trigger] may_go(sessions, keep_from, n - 1) && kept
                    == total_bytes(sessions) - may_free(sessions, keep_from, n as nat)
                    && total_bytes(sessions) - may_free(sessions, keep_from, (n - 1) as nat) > cap
        }),
{
    let floor = keep_floor(sessions.len(), keep_from) as nat;
    let total = total_bytes(sessions);
    lemma_pruned_frees(sessions, keep_from, total, cap as int, floor);
    lemma_rest_stays(sessions, keep_from, floor, sessions.len());
}

proof fn lemma_rest_stays(sessions: Seq<SessionView>, keep_from: Option<usize>, floor: nat, n: nat)
    requires
        sessions.len() > 0,
        floor == keep_floor(sessions.len(), keep_from),
        floor <= n <= sessions.len(),
    ensures
        may_free(sessions, keep_from, n) == may_free(sessions, keep_from, floor),
    decreases n,
{
    if n > floor {
        lemma_rest_stays(sessions, keep_from, floor, (n - 1) as nat);
    }
}

proof fn lemma_pruned_frees(
    sessions: Seq<SessionView>,
    keep_from: Option<usize>,
    total: int,
    cap: int,
    k: nat,
)
    requires
        sessions.len() > 0,
        k <= keep_floor(sessions.len(), keep_from),
    ensures
        ({
            let kept = pruned(sessions, total, cap, k).1;
            &&& kept > cap ==> kept == total - may_free(sessions, keep_from, k)
            &&& kept <= cap && total > cap ==> exists|n: int|
                0 < n <= k && #[trigger] may_go(sessions, keep_from, n - 1) && kept == total
                    - may_free(sessions, keep_from, n as nat) && total - may_free(
                    sessions,
                    keep_from,
                    (n - 1) as nat,
                ) > cap
        }),
    decreases k,
{
    if k > 0 {
        let less = (k - 1) as nat;
        lemma_pruned_frees(sessions, keep_from, total, cap, less);
        let kept = pruned(sessions, total, cap, less).1;
        if kept <= cap {
            if total > cap {
                let n = choose|n: int|
                    0 < n <= less && #[trigger] may_go(sessions, keep_from, n - 1) && kept == total
                        - may_free(sessions, keep_from, n as nat) && total - may_free(
                        sessions,
                        keep_from,
                        (n - 1) as nat,
                    ) > cap;
                assert(may_go(sessions, keep_from, n - 1));
            }
        } else if sessions[k - 1].deletable {
            assert(may_go(sessions, keep_from, k - 1));
        }
    }
}

/// The newest session that names a file names it, and no later one does; where
/// there is none, no session does.
pub proof fn the_newest_session_that_names_a_file(
    sessions: Seq<SessionView>,
    contexts: Seq<NamedFile>,
    file: Seq<char>,
    n: nat,
)
    requires
        n <= sessions.len() <= usize::MAX,
    ensures
        match newest_naming(sessions, contexts, file, n) {
            Some(k) => {
                &&& k < n
                &&& names_file(sessions[k as int], contexts, file)
                &&& forall|j: int|
                    k < j < n ==> !names_file(#[trigger] sessions[j], contexts, file)
            },
            None => forall|j: int|
                0 <= j < n ==> !names_file(#[trigger] sessions[j], contexts, file),
        },
    decreases n,
{
    if n > 0 && !names_file(sessions[n - 1], contexts, file) {
        the_newest_session_that_names_a_file(sessions, contexts, file, (n - 1) as nat);
    }
}

/// A session names a file exactly when one of its own segments holds a context that
/// does; no session names the empty file.
pub proof fn a_session_names_what_its_segments_name(
    session: SessionView,
    contexts: Seq<NamedFile>,
    file: Seq<char>,
    i: int,
)
    requires
        0 <= i < contexts.len(),
    ensures
        session.segments.contains(contexts[i].segment) && contexts[i].file@ == file && file.len()
            > 0 ==> names_file(session, contexts, file),
        names_file(session, contexts, file) ==> exists|j: int|
            0 <= j < contexts.len() && (#[trigger] contexts[j]).file@ == file
                && session.segments.contains(contexts[j].segment),
        !names_file(session, contexts, Seq::empty()),
{
}

/// The log is pinned exactly while a recovery is pending or the frame is unknown;
/// a pending one pins its own session and all behind it, and everything where that
/// session cannot be told.
pub proof fn a_pending_recovery_pins_its_evidence(
    pending: Pending,
    frame_invalid: bool,
    sessions: Seq<SessionView>,
    contexts: Seq<NamedFile>,
)
    requires
        sessions.len() <= usize::MAX,
    ensures
        pinned_from(None, false, sessions, contexts) is None,
        pinned_text(None, false, sessions, contexts) is None,
        pinned_from(None, true, sessions, contexts) == Some(0usize),
        pinned_from(Some(pending), frame_invalid, sessions, contexts) matches Some(k) && {
            &&& forall|j: int|
                k < j < sessions.len() ==> !names_file(
                    #[trigger] sessions[j],
                    contexts,
                    pending.file@,
                )
            &&& k == 0 || names_file(sessions[k as int], contexts, pending.file@)
        },
        pinned_text(Some(pending), frame_invalid, sessions, contexts) is Some,
{
    the_newest_session_that_names_a_file(sessions, contexts, pending.file@, sessions.len());
}

/// A plan reports what it keeps: the bytes that are left, the cap, and how far it
/// stays above, exactly when it does.
pub proof fn a_pruning_plan_adds_up(
    sessions: Seq<SessionView>,
    keep_from: Option<usize>,
    pinned: Option<Seq<char>>,
    cap: u64,
    plan: PruningPlan,
)
    requires
        planned(sessions, keep_from, pinned, cap, plan),
        0 <= decided(sessions, keep_from, cap).1 <= u64::MAX,
    ensures
        plan.cap == cap,
        plan.kept_bytes == decided(sessions, keep_from, cap).1,
        plan.overage is Some <==> plan.kept_bytes > cap,
        plan.overage matches Some(over) ==> {
            &&& over.over_by + cap == plan.kept_bytes
            &&& over.kept_bytes == plan.kept_bytes
            &&& over.cap == cap
            &&& pinned is Some <==> over.pinned is Some
        },
        plan.overage is None ==> plan.kept_bytes <= cap,
{
}

/// A file that was already gone does not count as removed, one that was removed
/// does; and the first failure is the one that is reported.
pub proof fn each_removal_counts_once(fates: Seq<Unlink>, fate: Unlink)
    ensures
        removed_count(fates, 0) == 0,
        removed_count(fates.push(fate), fates.len() + 1) == removed_count(fates, fates.len()) + (
        if fate is Removed {
            1int
        } else {
            0
        }),
{
    lemma_removed_same(fates, fate, fates.len());
}

proof fn lemma_removed_same(fates: Seq<Unlink>, fate: Unlink, n: nat)
    requires
        n <= fates.len(),
    ensures
        removed_count(fates.push(fate), n) == removed_count(fates, n),
    decreases n,
{
    if n > 0 {
        lemma_removed_same(fates, fate, (n - 1) as nat);
    }
}

/// The failure that is reported is the first one; where none failed, none is.
pub proof fn the_first_failure_is_reported(fates: Seq<Unlink>, i: int)
    requires
        0 <= i,
    ensures
        match first_failure(fates, i) {
            Some(error) => exists|j: int|
                i <= j < fates.len() && (#[trigger] fates[j] matches Unlink::Failed(e) && e@
                    == error) && forall|k: int| i <= k < j ==> !(#[trigger] fates[k] is Failed),
            None => forall|k: int| i <= k < fates.len() ==> !(#[trigger] fates[k] is Failed),
        },
    decreases fates.len() - i,
{
    if i < fates.len() {
        if let Unlink::Failed(e) = fates[i] {
            assert(fates[i] is Failed);
        } else {
            the_first_failure_is_reported(fates, i + 1);
            if let Some(error) = first_failure(fates, i + 1) {
                let j = choose|j: int|
                    i + 1 <= j < fates.len() && (#[trigger] fates[j] matches Unlink::Failed(e)
                        && e@ == error) && forall|k: int|
                        i + 1 <= k < j ==> !(#[trigger] fates[k] is Failed);
                assert(fates[j] is Failed);
                assert forall|k: int| i <= k < j implies !(#[trigger] fates[k] is Failed) by {}
            }
        }
    }
}

/// What is reclaimed is the size of the segments that were deleted, and of no
/// others.
pub proof fn the_deleted_bytes_are_reclaimed(metas: Seq<SegmentMeta>, deleted: Seq<u64>, n: nat)
    requires
        n < metas.len(),
    ensures
        reclaimed(metas, deleted, 0) == 0,
        deleted.contains(metas[n as int].index) ==> reclaimed(metas, deleted, n + 1) == reclaimed(
            metas,
            deleted,
            n,
        ) + metas[n as int].size_bytes,
        !deleted.contains(metas[n as int].index) ==> reclaimed(metas, deleted, n + 1) == reclaimed(
            metas,
            deleted,
            n,
        ),
{
}

/// The quotes go out of a message, and nothing else does.
pub proof fn only_quotes_are_left_out(s: Seq<char>, c: char)
    ensures
        unquoted(Seq::empty()) == Seq::<char>::empty(),
        c == '"' || c == '\'' ==> unquoted(s.push(c)) == unquoted(s),
        c != '"' && c != '\'' ==> unquoted(s.push(c)) == unquoted(s).push(c),
{
    let keep = |c: char| c != '"' && c != '\'';
    reveal(Seq::filter);
    assert(s.push(c).drop_last() =~= s);
    assert(s.push(c).last() == c);
    assert(unquoted(s) == s.filter(keep));
    assert(unquoted(s.push(c)) == s.push(c).filter(keep));
}

/// The monotonic clock gives nanoseconds: a second is a thousand million of them,
/// and a later reading is never less.
pub proof fn the_clock_counts_nanoseconds(sec: i64, nsec: i64, later: i64)
    requires
        0 <= sec <= later,
        0 <= nsec < 1_000_000_000,
    ensures
        sec * 1_000_000_000 + nsec <= u64::MAX ==> mono_value(sec, nsec) == sec * 1_000_000_000
            + nsec,
        sec * 1_000_000_000 + nsec > u64::MAX ==> mono_value(sec, nsec) == u64::MAX,
        mono_value(sec, nsec) <= mono_value(later, nsec),
        wall_value(None) == 0,
        wall_value(Some(nsec as u128)) == nsec,
{
    assert(sec as u64 == sec) by (bit_vector)
        requires
            sec >= 0,
    ;
    assert(nsec as u64 == nsec) by (bit_vector)
        requires
            nsec >= 0,
    ;
    assert(later as u64 == later) by (bit_vector)
        requires
            later >= 0,
    ;
}

/// A number that fits is kept, any other becomes the greatest that does.
pub proof fn clamping_keeps_what_fits(n: int)
    requires
        n >= 0,
    ensures
        n <= u64::MAX ==> clamped(n) == n,
        n > u64::MAX ==> clamped(n) == u64::MAX,
{
}

} // verus!
