//! The order of strings, and sorting by it.

use vstd::prelude::*;

use crate::text::{chars, texts};

verus! {

/// `a` stands no later than `b` in the order of strings: at the first
/// difference its character is the smaller, or it is how `b` begins.
pub open spec fn no_later(a: Seq<char>, b: Seq<char>) -> bool
    decreases a.len(),
{
    if a.len() == 0 {
        true
    } else if b.len() == 0 {
        false
    } else if a[0] != b[0] {
        (a[0] as int) < (b[0] as int)
    } else {
        no_later(a.skip(1), b.skip(1))
    }
}

/// The order is total.
pub proof fn no_later_is_total(a: Seq<char>, b: Seq<char>)
    ensures
        no_later(a, b) || no_later(b, a),
    decreases a.len(),
{
    if a.len() > 0 && b.len() > 0 {
        if a[0] == b[0] {
            no_later_is_total(a.skip(1), b.skip(1));
        } else {
            assert(a[0] as int != b[0] as int);
        }
    }
}

/// Strings that stand no later than each other are the same.
pub proof fn no_later_is_antisymmetric(a: Seq<char>, b: Seq<char>)
    requires
        no_later(a, b),
        no_later(b, a),
    ensures
        a == b,
    decreases a.len(),
{
    if a.len() > 0 {
        no_later_is_antisymmetric(a.skip(1), b.skip(1));
        assert(a =~= seq![a[0]] + a.skip(1));
        assert(b =~= seq![b[0]] + b.skip(1));
    } else {
        assert(a =~= b);
    }
}

/// The order is transitive.
pub proof fn no_later_is_transitive(a: Seq<char>, b: Seq<char>, c: Seq<char>)
    requires
        no_later(a, b),
        no_later(b, c),
    ensures
        no_later(a, c),
    decreases a.len(),
{
    if a.len() > 0 && a[0] == b[0] && b[0] == c[0] {
        no_later_is_transitive(a.skip(1), b.skip(1), c.skip(1));
    }
}

/// Whether `a` stands no later than `b`.
pub fn precedes(a: &str, b: &str) -> (r: bool)
    ensures
        r == no_later(a@, b@),
{
    let x = chars(a);
    let y = chars(b);
    let mut i: usize = 0;
    assert(x@.skip(0) =~= x@);
    assert(y@.skip(0) =~= y@);
    while i < x.len()
        invariant
            0 <= i <= x@.len(),
            i <= y@.len(),
            no_later(x@.skip(i as int), y@.skip(i as int)) == no_later(a@, b@),
        decreases x@.len() - i,
    {
        if i >= y.len() {
            return false;
        }
        if x[i] != y[i] {
            return x[i] < y[i];
        }
        assert(x@.skip(i as int).skip(1) =~= x@.skip(i + 1));
        assert(y@.skip(i as int).skip(1) =~= y@.skip(i + 1));
        i = i + 1;
    }
    true
}

/// `sorted` with `x` put in behind everything that stands no later.
pub open spec fn inserted(sorted: Seq<Seq<char>>, x: Seq<char>) -> Seq<Seq<char>>
    decreases sorted.len(),
{
    if sorted.len() == 0 || no_later(sorted.last(), x) {
        sorted.push(x)
    } else {
        inserted(sorted.drop_last(), x).push(sorted.last())
    }
}

/// `s` in order.
pub open spec fn in_order(s: Seq<Seq<char>>) -> Seq<Seq<char>>
    decreases s.len(),
{
    if s.len() == 0 {
        s
    } else {
        inserted(in_order(s.drop_last()), s.last())
    }
}

/// Each string stands no later than those after it.
pub open spec fn ascending(s: Seq<Seq<char>>) -> bool {
    forall|i: int, j: int| 0 <= i <= j < s.len() ==> no_later(#[trigger] s[i], #[trigger] s[j])
}

proof fn lemma_inserted(sorted: Seq<Seq<char>>, x: Seq<char>)
    requires
        ascending(sorted),
    ensures
        ascending(inserted(sorted, x)),
        inserted(sorted, x).to_multiset() == sorted.push(x).to_multiset(),
        inserted(sorted, x).len() == sorted.len() + 1,
        forall|i: int|
            0 <= i < inserted(sorted, x).len() ==> (#[trigger] inserted(sorted, x)[i]) == x
                || sorted.contains(inserted(sorted, x)[i]),
    decreases sorted.len(),
{
    broadcast use vstd::seq_lib::group_to_multiset_ensures;

    let r = inserted(sorted, x);
    no_later_is_total(x, x);
    if sorted.len() == 0 {
    } else if no_later(sorted.last(), x) {
        assert forall|i: int, j: int| 0 <= i <= j < r.len() implies no_later(
            #[trigger] r[i],
            #[trigger] r[j],
        ) by {
            if i < sorted.len() && j == sorted.len() {
                assert(no_later(sorted[i], sorted[sorted.len() - 1]));
                no_later_is_transitive(sorted[i], sorted.last(), x);
            }
        }
        assert forall|i: int| 0 <= i < r.len() implies (#[trigger] r[i]) == x || sorted.contains(
            r[i],
        ) by {
            if i < sorted.len() {
                assert(r[i] == sorted[i]);
            }
        }
    } else {
        let less = sorted.drop_last();
        let last = sorted.last();
        assert(ascending(less));
        lemma_inserted(less, x);
        let q = inserted(less, x);
        no_later_is_total(sorted.last(), x);
        assert forall|i: int| 0 <= i < q.len() implies no_later(#[trigger] q[i], last) by {
            if q[i] != x {
                assert(less.contains(q[i]));
                let k = choose|k: int| 0 <= k < less.len() && less[k] == q[i];
                assert(no_later(sorted[k], sorted[sorted.len() - 1]));
            }
        }
        no_later_is_total(last, last);
        assert forall|i: int, j: int| 0 <= i <= j < r.len() implies no_later(
            #[trigger] r[i],
            #[trigger] r[j],
        ) by {
            if j < q.len() {
                assert(no_later(q[i], q[j]));
            } else if i < q.len() {
                assert(no_later(q[i], last));
            }
        }
        assert(sorted =~= less.push(last));
        assert(r.to_multiset() =~= sorted.push(x).to_multiset());
        assert forall|i: int| 0 <= i < r.len() implies (#[trigger] r[i]) == x || sorted.contains(
            r[i],
        ) by {
            if i < q.len() {
                assert(r[i] == q[i]);
                if q[i] != x {
                    let k = choose|k: int| 0 <= k < less.len() && less[k] == q[i];
                    assert(sorted[k] == q[i]);
                }
            } else {
                assert(sorted[sorted.len() - 1] == r[i]);
            }
        }
    }
}

/// Sorting orders the strings and neither loses nor invents one.
pub proof fn sorting_orders_and_keeps(s: Seq<Seq<char>>)
    ensures
        ascending(in_order(s)),
        in_order(s).to_multiset() == s.to_multiset(),
        in_order(s).len() == s.len(),
    decreases s.len(),
{
    broadcast use vstd::seq_lib::group_to_multiset_ensures;

    if s.len() > 0 {
        sorting_orders_and_keeps(s.drop_last());
        lemma_inserted(in_order(s.drop_last()), s.last());
        assert(s =~= s.drop_last().push(s.last()));
        assert(in_order(s).to_multiset() =~= s.to_multiset());
    }
}

proof fn lemma_ascending_unique(a: Seq<Seq<char>>, b: Seq<Seq<char>>)
    requires
        ascending(a),
        ascending(b),
        a.to_multiset() == b.to_multiset(),
    ensures
        a == b,
    decreases a.len(),
{
    broadcast use vstd::seq_lib::group_to_multiset_ensures;

    a.to_multiset_ensures();
    b.to_multiset_ensures();
    assert(a.len() == b.len());
    if a.len() > 0 {
        let x = a.last();
        let y = b.last();
        assert(b.contains(x)) by {
            assert(a[a.len() - 1] == x);
            assert(a.contains(x));
            assert(a.to_multiset().count(x) > 0);
            assert(a.to_multiset().count(x) == b.to_multiset().count(x));
        }
        assert(a.contains(y)) by {
            assert(b[b.len() - 1] == y);
            assert(b.contains(y));
            assert(b.to_multiset().count(y) > 0);
            assert(a.to_multiset().count(y) == b.to_multiset().count(y));
        }
        let i = choose|i: int| 0 <= i < b.len() && b[i] == x;
        let j = choose|j: int| 0 <= j < a.len() && a[j] == y;
        assert(no_later(b[i], b[b.len() - 1]));
        assert(no_later(a[j], a[a.len() - 1]));
        no_later_is_antisymmetric(x, y);
        assert(a =~= a.drop_last().push(x));
        assert(b =~= b.drop_last().push(x));
        assert(a.drop_last().to_multiset() =~= b.drop_last().to_multiset()) by {
            assert(a.drop_last().to_multiset().insert(x) == b.drop_last().to_multiset().insert(x));
            assert(a.drop_last().to_multiset().insert(x).remove(x)
                =~= a.drop_last().to_multiset());
            assert(b.drop_last().to_multiset().insert(x).remove(x)
                =~= b.drop_last().to_multiset());
        }
        lemma_ascending_unique(a.drop_last(), b.drop_last());
    } else {
        assert(a =~= b);
    }
}

/// Sorting does not depend on the order in which the strings come.
pub proof fn sorting_forgets_the_order(a: Seq<Seq<char>>, b: Seq<Seq<char>>)
    requires
        a.to_multiset() == b.to_multiset(),
    ensures
        in_order(a) == in_order(b),
{
    sorting_orders_and_keeps(a);
    sorting_orders_and_keeps(b);
    lemma_ascending_unique(in_order(a), in_order(b));
}

/// Puts `x` into sorted strings.
fn insert(sorted: &mut Vec<String>, x: String)
    ensures
        texts(final(sorted)@) == inserted(texts(old(sorted)@), x@),
    decreases old(sorted)@.len(),
{
    let n: usize = sorted.len();
    let ghost was = texts(sorted@);
    let late: bool = n > 0 && !precedes(sorted[n - 1].as_str(), x.as_str());
    if !late {
        let ghost before = sorted@;
        sorted.push(x);
        assert(texts(sorted@) =~= texts(before).push(x@));
        return;
    }
    match sorted.pop() {
        Some(last) => {
            assert(texts(sorted@) =~= was.drop_last());
            insert(sorted, x);
            let ghost before = sorted@;
            sorted.push(last);
            assert(texts(sorted@) =~= texts(before).push(last@));
        },
        None => {},
    }
}

/// Sorts strings.
pub fn sort(list: Vec<String>) -> (r: Vec<String>)
    ensures
        texts(r@) == in_order(texts(list@)),
{
    let mut out: Vec<String> = Vec::new();
    let mut i: usize = 0;
    assert(texts(list@).take(0) =~= Seq::<Seq<char>>::empty());
    assert(texts(out@) =~= in_order(texts(list@).take(0)));
    while i < list.len()
        invariant
            0 <= i <= list@.len(),
            texts(out@) == in_order(texts(list@).take(i as int)),
        decreases list@.len() - i,
    {
        assert(texts(list@).take(i + 1).drop_last() =~= texts(list@).take(i as int));
        assert(texts(list@).take(i + 1).last() == list@[i as int]@);
        insert(&mut out, list[i].clone());
        i = i + 1;
    }
    assert(texts(list@).take(i as int) =~= texts(list@));
    out
}

/// Each string stands before those after it.
pub open spec fn strictly_ascending(s: Seq<Seq<char>>) -> bool {
    forall|i: int, j: int|
        0 <= i < j < s.len() ==> no_later(#[trigger] s[i], #[trigger] s[j]) && s[i] != s[j]
}

/// Sorts strings and keeps each once.
pub fn sort_distinct(list: Vec<String>) -> (r: Vec<String>)
    ensures
        strictly_ascending(texts(r@)),
        texts(r@).to_set() == texts(list@).to_set(),
{
    broadcast use vstd::seq_lib::group_to_multiset_ensures;

    let ghost given = texts(list@);
    let sorted = sort(list);
    let ghost all = texts(sorted@);
    proof {
        sorting_orders_and_keeps(given);
        assert(all.to_set() =~= given.to_set()) by {
            assert forall|x: Seq<char>| all.contains(x) <==> given.contains(x) by {
                assert(all.to_multiset().count(x) == given.to_multiset().count(x));
            }
        }
    }
    let mut out: Vec<String> = Vec::new();
    let mut i: usize = 0;
    assert(texts(out@) =~= Seq::<Seq<char>>::empty());
    assert(all.take(0) =~= Seq::<Seq<char>>::empty());
    while i < sorted.len()
        invariant
            0 <= i <= sorted@.len(),
            all == texts(sorted@),
            ascending(all),
            strictly_ascending(texts(out@)),
            (out@.len() == 0) == (i == 0),
            i > 0 ==> texts(out@).last() == all[i - 1],
            forall|x: Seq<char>| texts(out@).contains(x) <==> all.take(i as int).contains(x),
        decreases sorted@.len() - i,
    {
        let n: usize = out.len();
        let ghost before = texts(out@);
        assert(all.take(i + 1) =~= all.take(i as int).push(all[i as int]));
        if n == 0 || !crate::text::same(out[n - 1].as_str(), sorted[i].as_str()) {
            out.push(sorted[i].clone());
            let ghost after = texts(out@);
            proof {
                assert(after =~= before.push(all[i as int]));
                assert forall|a: int, b: int| 0 <= a < b < after.len() implies no_later(
                    #[trigger] after[a],
                    #[trigger] after[b],
                ) && after[a] != after[b] by {
                    if b == before.len() {
                        assert(before.contains(before[a]));
                        let k = choose|k: int|
                            0 <= k < all.take(i as int).len() && all.take(i as int)[k]
                                == before[a];
                        assert(no_later(all[k], all[i as int]));
                        if before[a] == all[i as int] {
                            assert(no_later(all[k], all[i - 1]));
                            assert(no_later(all[i - 1], all[i as int]));
                            no_later_is_antisymmetric(all[i - 1], all[i as int]);
                        }
                    }
                }
                assert forall|x: Seq<char>|
                    after.contains(x) <==> all.take(i + 1).contains(x) by {
                    lemma_push_contains(before, all[i as int], x);
                    lemma_push_contains(all.take(i as int), all[i as int], x);
                }
            }
        } else {
            proof {
                assert(all[i as int] == all[i - 1]);
                assert forall|x: Seq<char>|
                    before.contains(x) <==> all.take(i + 1).contains(x) by {
                    lemma_push_contains(all.take(i as int), all[i as int], x);
                    assert(all.take(i as int)[i - 1] == all[i as int]);
                }
            }
        }
        i = i + 1;
    }
    assert(all.take(i as int) =~= all);
    assert(texts(out@).to_set() =~= all.to_set());
    out
}

proof fn lemma_push_contains(s: Seq<Seq<char>>, x: Seq<char>, y: Seq<char>)
    ensures
        s.push(x).contains(y) <==> s.contains(y) || x == y,
{
    if s.contains(y) {
        let k = choose|k: int| 0 <= k < s.len() && s[k] == y;
        assert(s.push(x)[k] == y);
    }
    assert(s.push(x)[s.len() as int] == x);
}

} // verus!
