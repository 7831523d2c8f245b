//! The cursor of the resume-point preview: where it opens and how each answer
//! moves it along the candidate stops.

use vstd::math::abs;
use vstd::prelude::*;

use crate::executor::PreviewAnswer;
use crate::plan::PreviewSpec;

verus! {

/// A stop index as a position in the stop list.
pub fn index_usize(index: u32) -> (r: usize)
    ensures
        r == index,
{
    index as usize
}

/// How many stops apart two positions are.
pub open spec fn apart(a: int, b: int) -> int {
    if a >= b {
        a - b
    } else {
        b - a
    }
}

/// The first of the first `n` representatives that is nearest to `cursor`.
pub open spec fn nearest_of(reps: Seq<u32>, cursor: int, n: nat) -> int
    decreases n,
{
    if n <= 1 {
        0
    } else {
        let best = nearest_of(reps, cursor, (n - 1) as nat);
        if apart(reps[n - 1] as int, cursor) < apart(reps[best] as int, cursor) {
            n - 1
        } else {
            best
        }
    }
}

/// The first representative that is nearest to `cursor`; zero when there are
/// none.
pub open spec fn nearest(reps: Seq<u32>, cursor: int) -> int {
    nearest_of(reps, cursor, reps.len())
}

/// The nearest representative is one of them, no other is nearer, and none
/// before it is as near.
pub proof fn nearest_is_the_first_minimum(reps: Seq<u32>, cursor: int)
    requires
        reps.len() > 0,
    ensures
        0 <= nearest(reps, cursor) < reps.len(),
        forall|j: int|
            0 <= j < reps.len() ==> apart(reps[nearest(reps, cursor)] as int, cursor) <= apart(
                #[trigger] reps[j] as int,
                cursor,
            ),
        forall|j: int|
            0 <= j < nearest(reps, cursor) ==> apart(reps[nearest(reps, cursor)] as int, cursor)
                < apart(#[trigger] reps[j] as int, cursor),
{
    lemma_nearest_of(reps, cursor, reps.len());
}

proof fn lemma_nearest_of(reps: Seq<u32>, cursor: int, n: nat)
    requires
        0 < n <= reps.len(),
    ensures
        0 <= nearest_of(reps, cursor, n) < n,
        forall|j: int|
            0 <= j < n ==> apart(reps[nearest_of(reps, cursor, n)] as int, cursor) <= apart(
                #[trigger] reps[j] as int,
                cursor,
            ),
        forall|j: int|
            0 <= j < nearest_of(reps, cursor, n) ==> apart(
                reps[nearest_of(reps, cursor, n)] as int,
                cursor,
            ) < apart(#[trigger] reps[j] as int, cursor),
    decreases n,
{
    if n > 1 {
        lemma_nearest_of(reps, cursor, (n - 1) as nat);
    }
}

/// The first representative that is nearest to `cursor`.
pub fn nearest_rep_ptr(reps: &Vec<u32>, cursor: usize) -> (r: usize)
    ensures
        r == nearest(reps@, cursor as int),
        reps@.len() > 0 ==> r < reps@.len(),
        reps@.len() == 0 ==> r == 0,
{
    if reps.len() == 0 {
        return 0;
    }
    let mut best: usize = 0;
    let mut n: usize = 1;
    while n < reps.len()
        invariant
            1 <= n,
            n <= reps@.len(),
            best == nearest_of(reps@, cursor as int, n as nat),
            best < n,
        decreases reps@.len() - n,
    {
        let here: usize = index_usize(reps[n]);
        let there: usize = index_usize(reps[best]);
        let here_gap: usize = if here >= cursor {
            here - cursor
        } else {
            cursor - here
        };
        let there_gap: usize = if there >= cursor {
            there - cursor
        } else {
            cursor - there
        };
        if here_gap < there_gap {
            best = n;
        }
        n = n + 1;
    }
    best
}

/// Where the preview stands.
#[derive(Debug, Clone, Copy, PartialEq, Eq, Structural)]
pub struct Cursor {
    /// The current stop.
    pub stop: usize,
    /// The current representative.
    pub rep: usize,
}

impl Cursor {
    /// The stop is one of the stops, and the representative one of the
    /// representatives when there are any.
    pub open spec fn in_bounds(self, spec: PreviewSpec) -> bool {
        &&& self.stop < spec.stops@.len()
        &&& (spec.representatives@.len() > 0 ==> self.rep < spec.representatives@.len())
    }
}

/// The smaller of two numbers.
pub open spec fn least(a: int, b: int) -> int {
    if a <= b {
        a
    } else {
        b
    }
}

/// The cursor on `stop`, with the representative nearest to it.
pub open spec fn cursor_on(spec: PreviewSpec, stop: int) -> Cursor {
    Cursor { stop: stop as usize, rep: nearest(spec.representatives@, stop) as usize }
}

/// Where the preview opens: on the default stop, or on the last one when the
/// default lies past the end.
pub open spec fn opening(spec: PreviewSpec) -> Cursor {
    cursor_on(spec, least(spec.default_index as int, spec.stops@.len() - 1))
}

/// The cursor on representative `rep`.
pub open spec fn cursor_on_rep(spec: PreviewSpec, rep: int) -> Cursor {
    Cursor {
        stop: least(spec.representatives@[rep] as int, spec.stops@.len() - 1) as usize,
        rep: rep as usize,
    }
}

/// Where an answer moves the cursor: to a neighbouring representative, or along
/// the toolpath, and never past either end.
pub open spec fn moved(spec: PreviewSpec, c: Cursor, answer: PreviewAnswer) -> Cursor {
    let reps = spec.representatives@;
    match answer {
        PreviewAnswer::NextRep => if reps.len() == 0 {
            c
        } else {
            cursor_on_rep(spec, least(c.rep + 1, reps.len() - 1))
        },
        PreviewAnswer::PrevRep => if reps.len() == 0 {
            c
        } else {
            cursor_on_rep(
                spec,
                if c.rep == 0 {
                    0
                } else {
                    c.rep - 1
                },
            )
        },
        PreviewAnswer::Nudge(delta) => cursor_on(
            spec,
            if c.stop + delta < 0 {
                0
            } else {
                least(c.stop + delta, spec.stops@.len() - 1)
            },
        ),
        _ => c,
    }
}

/// Where the preview opens.
pub fn open_cursor(spec: &PreviewSpec) -> (r: Cursor)
    requires
        spec.stops@.len() > 0,
    ensures
        r == opening(*spec),
        r.in_bounds(*spec),
{
    let last: usize = spec.stops.len() - 1;
    let wanted: usize = index_usize(spec.default_index);
    let stop: usize = if wanted <= last {
        wanted
    } else {
        last
    };
    Cursor { stop, rep: nearest_rep_ptr(&spec.representatives, stop) }
}

/// Moves the cursor as an answer asks.
pub fn move_cursor(spec: &PreviewSpec, c: Cursor, answer: PreviewAnswer) -> (r: Cursor)
    requires
        c.in_bounds(*spec),
    ensures
        r == moved(*spec, c, answer),
        r.in_bounds(*spec),
{
    let last: usize = spec.stops.len() - 1;
    match answer {
        PreviewAnswer::NextRep => {
            if spec.representatives.len() == 0 {
                return c;
            }
            let rep: usize = if c.rep + 1 <= spec.representatives.len() - 1 {
                c.rep + 1
            } else {
                spec.representatives.len() - 1
            };
            let wanted: usize = index_usize(spec.representatives[rep]);
            let stop: usize = if wanted <= last {
                wanted
            } else {
                last
            };
            Cursor { stop, rep }
        },
        PreviewAnswer::PrevRep => {
            if spec.representatives.len() == 0 {
                return c;
            }
            let rep: usize = if c.rep == 0 {
                0
            } else {
                c.rep - 1
            };
            let wanted: usize = index_usize(spec.representatives[rep]);
            let stop: usize = if wanted <= last {
                wanted
            } else {
                last
            };
            Cursor { stop, rep }
        },
        PreviewAnswer::Nudge(delta) => {
            let stop: usize = if delta < 0 {
                let by: usize = (-(delta as i64)) as usize;
                if c.stop >= by {
                    c.stop - by
                } else {
                    0
                }
            } else {
                let by: usize = delta as usize;
                if last - c.stop >= by {
                    c.stop + by
                } else {
                    last
                }
            };
            Cursor { stop, rep: nearest_rep_ptr(&spec.representatives, stop) }
        },
        _ => c,
    }
}

/// No answer takes the cursor out of the stop list.
pub proof fn the_cursor_never_leaves_the_stops(spec: PreviewSpec, c: Cursor, answer: PreviewAnswer)
    requires
        c.in_bounds(spec),
    ensures
        moved(spec, c, answer).in_bounds(spec),
        opening(spec).in_bounds(spec),
{
    let reps = spec.representatives@;
    if reps.len() > 0 {
        nearest_is_the_first_minimum(reps, moved(spec, c, answer).stop as int);
        nearest_is_the_first_minimum(reps, opening(spec).stop as int);
    }
    assert(spec.stops@.len() <= usize::MAX) by {
        assert(spec.stops@.len() == spec.stops.len());
    }
    assert(reps.len() <= usize::MAX) by {
        assert(reps.len() == spec.representatives.len());
    }
}

/// The representative under the cursor is the nearest to its stop: none is fewer
/// stops away, and of those as near it is the first.
pub open spec fn on_the_nearest(spec: PreviewSpec, c: Cursor) -> bool {
    let reps = spec.representatives@;
    reps.len() > 0 ==> {
        &&& c.rep < reps.len()
        &&& forall|j: int|
            0 <= j < reps.len() ==> abs(reps[c.rep as int] - c.stop) <= abs(
                #[trigger] reps[j] - c.stop,
            )
        &&& forall|j: int|
            0 <= j < c.rep ==> abs(reps[c.rep as int] - c.stop) < abs(#[trigger] reps[j] - c.stop)
    }
}

proof fn lemma_on_the_nearest(spec: PreviewSpec, c: Cursor)
    requires
        c.rep == nearest(spec.representatives@, c.stop as int) as usize,
    ensures
        on_the_nearest(spec, c),
{
    let reps = spec.representatives@;
    if reps.len() > 0 {
        assert(reps.len() == spec.representatives.len());
        nearest_is_the_first_minimum(reps, c.stop as int);
        assert forall|j: int| 0 <= j < reps.len() implies abs(#[trigger] reps[j] - c.stop) == apart(
            reps[j] as int,
            c.stop as int,
        ) by {}
    }
}

/// A nudge moves the cursor by as many stops as it says, back or forth: from stop
/// `s` by `d` to stop `s + d` where there is one, else to the first or the last.
pub proof fn a_nudge_moves_by_what_it_says(spec: PreviewSpec, c: Cursor, d: i32)
    requires
        c.in_bounds(spec),
    ensures
        ({
            let to = moved(spec, c, PreviewAnswer::Nudge(d));
            let n = spec.stops@.len();
            &&& 0 <= c.stop + d < n ==> to.stop == c.stop + d
            &&& c.stop + d < 0 ==> to.stop == 0
            &&& c.stop + d >= n ==> to.stop == n - 1
            &&& on_the_nearest(spec, to)
        }),
{
    assert(spec.stops@.len() == spec.stops.len());
    lemma_on_the_nearest(spec, moved(spec, c, PreviewAnswer::Nudge(d)));
}

/// Two nudges that stay on the toolpath add up, so that one back undoes one forth.
pub proof fn nudges_add_up(spec: PreviewSpec, c: Cursor, d: i32, e: i32)
    requires
        c.in_bounds(spec),
        0 <= c.stop + d < spec.stops@.len(),
        0 <= c.stop + d + e < spec.stops@.len(),
    ensures
        moved(spec, moved(spec, c, PreviewAnswer::Nudge(d)), PreviewAnswer::Nudge(e)).stop == c.stop
            + d + e,
{
    the_cursor_never_leaves_the_stops(spec, c, PreviewAnswer::Nudge(d));
    a_nudge_moves_by_what_it_says(spec, c, d);
    a_nudge_moves_by_what_it_says(spec, moved(spec, c, PreviewAnswer::Nudge(d)), e);
}

/// The next and the previous representative are one further and one back, and stay
/// at the ends; the cursor goes to the stop that the representative names, or to
/// the last one where it names none. Without representatives nothing moves.
pub proof fn representatives_are_stepped_one_by_one(spec: PreviewSpec, c: Cursor)
    requires
        c.in_bounds(spec),
    ensures
        ({
            let reps = spec.representatives@;
            let n = spec.stops@.len();
            let next = moved(spec, c, PreviewAnswer::NextRep);
            let prev = moved(spec, c, PreviewAnswer::PrevRep);
            &&& reps.len() == 0 ==> next == c && prev == c
            &&& reps.len() > 0 ==> {
                &&& c.rep + 1 < reps.len() ==> next.rep == c.rep + 1
                &&& c.rep + 1 >= reps.len() ==> next.rep == c.rep
                &&& c.rep > 0 ==> prev.rep == c.rep - 1
                &&& c.rep == 0 ==> prev.rep == 0
                &&& reps[next.rep as int] < n ==> next.stop == reps[next.rep as int]
                &&& reps[next.rep as int] >= n ==> next.stop == n - 1
                &&& reps[prev.rep as int] < n ==> prev.stop == reps[prev.rep as int]
                &&& reps[prev.rep as int] >= n ==> prev.stop == n - 1
            }
        }),
{
    assert(spec.stops@.len() == spec.stops.len());
    assert(spec.representatives@.len() == spec.representatives.len());
}

/// The preview opens on the stop that the plan chose, or on the last one where the
/// plan's lies past the end; and an answer that is no move leaves the cursor.
pub proof fn the_preview_opens_on_the_default(spec: PreviewSpec, c: Cursor)
    requires
        spec.stops@.len() > 0,
    ensures
        spec.default_index < spec.stops@.len() ==> opening(spec).stop == spec.default_index,
        spec.default_index >= spec.stops@.len() ==> opening(spec).stop == spec.stops@.len() - 1,
        on_the_nearest(spec, opening(spec)),
        moved(spec, c, PreviewAnswer::Accept) == c,
        moved(spec, c, PreviewAnswer::Abort) == c,
        moved(spec, c, PreviewAnswer::TimedOut) == c,
{
    assert(spec.stops@.len() == spec.stops.len());
    lemma_on_the_nearest(spec, opening(spec));
}

} // verus!
