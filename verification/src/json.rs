//! JSON values as the daemon reads them: the parsed shape, with the spellings
//! of each value that messages, commands and fingerprints are built from.

use vstd::prelude::*;

use crate::number::{Num, Reading};
use crate::text::{chars, same};

verus! {

/// A JSON number.
#[derive(Debug)]
pub struct Number {
    /// The value as a double, with its spelling in G-code.
    pub reading: Reading,
    /// The exact value, when the number is written as an integer.
    pub integer: Option<i128>,
    /// The canonical decimal spelling; absent for a value that has none.
    pub canonical: Option<String>,
}

/// A JSON string.
#[derive(Debug)]
pub struct Text {
    /// The characters.
    pub value: String,
    /// The canonical decimal spelling of the number that the characters read
    /// as, with runs of whitespace collapsed; absent when they read as none.
    pub canonical: Option<String>,
}

/// The shape of a JSON value.
#[derive(Debug)]
pub enum Kind {
    /// `null`.
    Null,
    /// `true` or `false`.
    Bool(bool),
    /// A number.
    Number(Number),
    /// A string.
    Text(Text),
    /// An array.
    Array(Vec<Json>),
    /// An object, as its members in order.
    Object(Vec<Member>),
}

/// A JSON value.
#[derive(Debug)]
pub struct Json {
    /// What the value is.
    pub kind: Kind,
    /// The value in compact JSON.
    pub spelling: String,
}

/// One member of a JSON object.
#[derive(Debug)]
pub struct Member {
    /// The key.
    pub key: String,
    /// The value under it.
    pub value: Json,
}

/// The value under `key`: that of the first member so named.
pub open spec fn member(members: Seq<Member>, key: Seq<char>) -> Option<Json>
    decreases members.len(),
{
    if members.len() == 0 {
        None
    } else if members[0].key@ == key {
        Some(members[0].value)
    } else {
        member(members.skip(1), key)
    }
}

/// The members of `v`; none for anything but an object.
pub open spec fn members_of(v: Json) -> Seq<Member> {
    match v.kind {
        Kind::Object(members) => members@,
        _ => Seq::empty(),
    }
}

/// The value under `key` in `v`; absent for anything but an object.
pub open spec fn child(v: Json, key: Seq<char>) -> Option<Json> {
    member(members_of(v), key)
}

/// The value under `key` in what `v` holds, if it holds anything.
pub open spec fn child_of(v: Option<Json>, key: Seq<char>) -> Option<Json> {
    match v {
        Some(v) => child(v, key),
        None => None,
    }
}

/// The element at `index` of `v`; absent for anything but an array.
pub open spec fn element(v: Json, index: nat) -> Option<Json> {
    match v.kind {
        Kind::Array(items) => if index < items@.len() {
            Some(items@[index as int])
        } else {
            None
        },
        _ => None,
    }
}

/// The number that `v` is, if it is one.
pub open spec fn number_of(v: Option<Json>) -> Option<Reading> {
    match v {
        Some(v) => match v.kind {
            Kind::Number(n) => Some(n.reading),
            _ => None,
        },
        None => None,
    }
}

/// The double that `v` is, if it is a number.
pub open spec fn num_of(v: Option<Json>) -> Option<Num> {
    match number_of(v) {
        Some(reading) => Some(reading.num),
        None => None,
    }
}

/// The double that `v` is, if it is a finite number.
pub open spec fn finite_of(v: Option<Json>) -> Option<Reading> {
    match number_of(v) {
        Some(reading) => if reading.num.finite() {
            Some(reading)
        } else {
            None
        },
        None => None,
    }
}

/// The characters of `v`, if it is a string.
pub open spec fn text_of(v: Option<Json>) -> Option<Seq<char>> {
    match v {
        Some(v) => match v.kind {
            Kind::Text(t) => Some(t.value@),
            _ => None,
        },
        None => None,
    }
}

/// The truth value of `v`, if it is a boolean.
pub open spec fn bool_of(v: Option<Json>) -> Option<bool> {
    match v {
        Some(v) => match v.kind {
            Kind::Bool(b) => Some(b),
            _ => None,
        },
        None => None,
    }
}

/// The value behind an optional reference.
pub open spec fn here(v: Option<&Json>) -> Option<Json> {
    match v {
        Some(v) => Some(*v),
        None => None,
    }
}

/// `s` cut at every `sep`.
pub open spec fn split_on(s: Seq<char>, sep: char) -> Seq<Seq<char>>
    decreases s.len(),
{
    if s.len() == 0 {
        seq![Seq::empty()]
    } else {
        let before = split_on(s.drop_last(), sep);
        if s.last() == sep {
            before.push(Seq::empty())
        } else {
            before.drop_last().push(before.last().push(s.last()))
        }
    }
}

/// `c` is a decimal digit.
pub open spec fn is_digit(c: char) -> bool {
    '0' <= c <= '9'
}

/// The number that a run of decimal digits denotes.
pub open spec fn digits_value(s: Seq<char>) -> nat
    decreases s.len(),
{
    if s.len() == 0 {
        0
    } else {
        digits_value(s.drop_last()) * 10 + (s.last() as u32 - '0' as u32) as nat
    }
}

/// Every character of `s` is a decimal digit.
pub open spec fn all_digits(s: Seq<char>) -> bool {
    forall|i: int| 0 <= i < s.len() ==> is_digit(#[trigger] s[i])
}

/// `s` without one leading plus sign.
pub open spec fn unsigned_part(s: Seq<char>) -> Seq<char> {
    if s.len() > 0 && s[0] == '+' {
        s.skip(1)
    } else {
        s
    }
}

/// The number that one or more decimal digits denote, within the machine's
/// range.
pub open spec fn digits_index(s: Seq<char>) -> Option<nat> {
    if s.len() > 0 && all_digits(s) && digits_value(s) <= usize::MAX {
        Some(digits_value(s))
    } else {
        None
    }
}

/// The array index that a path segment denotes: decimal digits after at most
/// one plus sign.
pub open spec fn index_value(s: Seq<char>) -> Option<nat> {
    digits_index(unsigned_part(s))
}

/// One step along a path: into an array by index when the segment denotes one,
/// else into an object by key.
pub open spec fn descend(v: Json, segment: Seq<char>) -> Option<Json> {
    match index_value(segment) {
        Some(index) => element(v, index),
        None => child(v, segment),
    }
}

/// The value that a path leads to from `v`.
pub open spec fn walk(v: Json, path: Seq<Seq<char>>) -> Option<Json>
    decreases path.len(),
{
    if path.len() == 0 {
        Some(v)
    } else {
        match descend(v, path[0]) {
            Some(next) => walk(next, path.skip(1)),
            None => None,
        }
    }
}

/// The value of `object` along the dotted path `field` in a status map.
pub open spec fn looked_up(status: Json, object: Seq<char>, field: Seq<char>) -> Option<Json> {
    match child(status, object) {
        Some(v) => walk(v, split_on(field, '.')),
        None => None,
    }
}

/// The value under `key`.
pub fn get<'a>(members: &'a Vec<Member>, key: &str) -> (r: Option<&'a Json>)
    ensures
        here(r) == member(members@, key@),
{
    let mut i: usize = 0;
    assert(members@.skip(0) =~= members@);
    while i < members.len()
        invariant
            0 <= i <= members.len(),
            member(members@.skip(i as int), key@) == member(members@, key@),
        decreases members.len() - i,
    {
        if same(members[i].key.as_str(), key) {
            return Some(&members[i].value);
        }
        assert(members@.skip(i as int).skip(1) =~= members@.skip(i + 1));
        i = i + 1;
    }
    None
}

impl Json {
    /// The members, when the value is an object.
    pub fn as_object(&self) -> (r: Option<&Vec<Member>>)
        ensures
            r is Some <==> self.kind is Object,
            r matches Some(members) ==> members@ == members_of(*self),
    {
        match &self.kind {
            Kind::Object(members) => Some(members),
            _ => None,
        }
    }

    /// The value under `key`, when the value is an object that has it.
    pub fn get(&self, key: &str) -> (r: Option<&Json>)
        ensures
            here(r) == child(*self, key@),
    {
        match &self.kind {
            Kind::Object(members) => get(members, key),
            _ => None,
        }
    }

    /// The element at `index`, when the value is an array that has it.
    pub fn at(&self, index: usize) -> (r: Option<&Json>)
        ensures
            here(r) == element(*self, index as nat),
    {
        match &self.kind {
            Kind::Array(items) => if index < items.len() {
                Some(&items[index])
            } else {
                None
            },
            _ => None,
        }
    }

    /// The number, when the value is one.
    pub fn as_number(&self) -> (r: Option<&Reading>)
        ensures
            r is Some <==> number_of(Some(*self)) is Some,
            r matches Some(reading) ==> number_of(Some(*self)) == Some(*reading),
    {
        match &self.kind {
            Kind::Number(n) => Some(&n.reading),
            _ => None,
        }
    }

    /// The double, when the value is a number.
    pub fn as_num(&self) -> (r: Option<Num>)
        ensures
            r == num_of(Some(*self)),
    {
        match &self.kind {
            Kind::Number(n) => Some(n.reading.num),
            _ => None,
        }
    }

    /// The characters, when the value is a string.
    pub fn as_str(&self) -> (r: Option<&str>)
        ensures
            r is Some <==> text_of(Some(*self)) is Some,
            r matches Some(s) ==> text_of(Some(*self)) == Some(s@),
    {
        match &self.kind {
            Kind::Text(t) => Some(t.value.as_str()),
            _ => None,
        }
    }

    /// The truth value, when the value is a boolean.
    pub fn as_bool(&self) -> (r: Option<bool>)
        ensures
            r == bool_of(Some(*self)),
    {
        match &self.kind {
            Kind::Bool(b) => Some(*b),
            _ => None,
        }
    }
}

/// `s` cut at every `sep`.
pub fn split(s: &str, sep: char) -> (r: Vec<String>)
    ensures
        r@.len() == split_on(s@, sep).len(),
        r@.len() > 0,
        forall|i: int| 0 <= i < r@.len() ==> (#[trigger] r@[i])@ == split_on(s@, sep)[i],
{
    let cs = chars(s);
    let mut done: Vec<String> = Vec::new();
    let mut open = String::new();
    let mut i: usize = 0;
    assert(cs@.take(0) =~= Seq::<char>::empty());
    while i < cs.len()
        invariant
            0 <= i <= cs.len(),
            done@.len() + 1 == split_on(cs@.take(i as int), sep).len(),
            forall|j: int|
                0 <= j < done@.len() ==> (#[trigger] done@[j])@ == split_on(cs@.take(i as int), sep)[j],
            open@ == split_on(cs@.take(i as int), sep).last(),
        decreases cs.len() - i,
    {
        assert(cs@.take(i + 1).drop_last() =~= cs@.take(i as int));
        assert(cs@.take(i + 1).last() == cs@[i as int]);
        let ghost before = split_on(cs@.take(i as int), sep);
        let ghost after = split_on(cs@.take(i + 1), sep);
        let ghost shut = done@;
        if cs[i] == sep {
            done.push(open);
            open = String::new();
            assert(after == before.push(Seq::empty()));
            assert forall|j: int| 0 <= j < done@.len() implies (#[trigger] done@[j])@ == after[j] by {
                if j < shut.len() {
                    assert(done@[j] == shut[j]);
                }
            }
        } else {
            open.push(cs[i]);
            assert forall|j: int| 0 <= j < done@.len() implies (#[trigger] done@[j])@ == after[j] by {
                assert(after[j] == before[j]);
            }
        }
        i = i + 1;
    }
    assert(cs@.take(i as int) =~= s@);
    done.push(open);
    done
}

proof fn lemma_digits_grow(s: Seq<char>, n: int)
    requires
        0 <= n <= s.len(),
        all_digits(s),
    ensures
        digits_value(s.take(n)) <= digits_value(s),
    decreases s.len() - n,
{
    if n < s.len() {
        lemma_digits_grow(s, n + 1);
        assert(s.take(n + 1).drop_last() =~= s.take(n));
    } else {
        assert(s.take(n) =~= s);
    }
}

/// The array index that a path segment denotes.
pub fn parse_index(s: &str) -> (r: Option<usize>)
    ensures
        r is Some <==> index_value(s@) is Some,
        r matches Some(index) ==> index_value(s@) == Some(index as nat),
{
    let cs = chars(s);
    let from: usize = if cs.len() > 0 && cs[0] == '+' {
        1
    } else {
        0
    };
    let ghost digits = cs@.skip(from as int);
    assert(from == 0 ==> digits =~= cs@);
    if from == cs.len() {
        return None;
    }
    let mut value: usize = 0;
    let mut i: usize = from;
    while i < cs.len()
        invariant
            from <= i <= cs.len(),
            digits == cs@.skip(from as int),
            cs@ == s@,
            digits.len() > 0,
            digits == unsigned_part(s@),
            forall|k: int| 0 <= k < i - from ==> is_digit(#[trigger] digits[k]),
            value == digits_value(digits.take(i - from)),
        decreases cs.len() - i,
    {
        let c = cs[i];
        assert(digits[i - from] == c);
        if !('0' <= c && c <= '9') {
            assert(!is_digit(digits[i - from]));
            return None;
        }
        let d: usize = (c as u8 - 48) as usize;
        assert(digits.take(i - from + 1).drop_last() =~= digits.take(i - from));
        assert(digits_value(digits.take(i - from + 1)) == value * 10 + d);
        let next: Option<usize> = match value.checked_mul(10) {
            Some(tens) => tens.checked_add(d),
            None => None,
        };
        match next {
            Some(v) => {
                value = v;
            },
            None => {
                proof {
                    if all_digits(digits) {
                        lemma_digits_grow(digits, i - from + 1);
                    }
                }
                return None;
            },
        }
        i = i + 1;
    }
    assert(digits.take(i - from) =~= digits);
    Some(value)
}

/// The value of `object` along the dotted path `field` in a status map.
pub fn lookup<'a>(status: &'a Json, object: &str, field: &str) -> (r: Option<&'a Json>)
    ensures
        here(r) == looked_up(*status, object@, field@),
{
    let mut current = match status.get(object) {
        Some(v) => v,
        None => {
            return None;
        },
    };
    let segments = split(field, '.');
    let ghost path = split_on(field@, '.');
    let mut i: usize = 0;
    assert(path.skip(0) =~= path);
    while i < segments.len()
        invariant
            0 <= i <= segments.len(),
            segments@.len() == path.len(),
            forall|j: int| 0 <= j < segments@.len() ==> (#[trigger] segments@[j])@ == path[j],
            walk(*current, path.skip(i as int)) == looked_up(*status, object@, field@),
        decreases segments.len() - i,
    {
        let segment = segments[i].as_str();
        assert(segments@[i as int]@ == path[i as int]);
        assert(path.skip(i as int).skip(1) =~= path.skip(i + 1));
        let next = match parse_index(segment) {
            Some(index) => current.at(index),
            None => current.get(segment),
        };
        match next {
            Some(v) => {
                current = v;
            },
            None => {
                return None;
            },
        }
        i = i + 1;
    }
    Some(current)
}

proof fn lemma_member_removed(members: Seq<Member>, i: int, other: Seq<char>)
    requires
        0 <= i < members.len(),
        members[i].key@ != other,
    ensures
        member(members.remove(i), other) == member(members, other),
    decreases members.len(),
{
    if i == 0 {
        assert(members.remove(0) =~= members.skip(1));
    } else {
        assert(members.remove(i)[0] == members[0]);
        assert(members.remove(i).skip(1) =~= members.skip(1).remove(i - 1));
        if members[0].key@ != other {
            lemma_member_removed(members.skip(1), i - 1, other);
        }
    }
}

/// Takes the value under `key` out of an object.
pub fn take(members: &mut Vec<Member>, key: &str) -> (r: Option<Json>)
    ensures
        r == member(old(members)@, key@),
        forall|other: Seq<char>|
            other != key@ ==> #[trigger] member(final(members)@, other) == member(
                old(members)@,
                other,
            ),
{
    let ghost given = members@;
    let mut i: usize = 0;
    assert(members@.skip(0) =~= members@);
    while i < members.len()
        invariant
            0 <= i <= members@.len(),
            members@ == given,
            given == old(members)@,
            member(members@.skip(i as int), key@) == member(given, key@),
        decreases members@.len() - i,
    {
        if same(members[i].key.as_str(), key) {
            proof {
                assert forall|other: Seq<char>| other != key@ implies #[trigger] member(
                    given.remove(i as int),
                    other,
                ) == member(given, other) by {
                    lemma_member_removed(given, i as int, other);
                }
            }
            let found = members.remove(i);
            return Some(found.value);
        }
        assert(members@.skip(i as int).skip(1) =~= members@.skip(i + 1));
        i = i + 1;
    }
    None
}

} // verus!
