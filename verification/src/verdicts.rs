//! What the numbers, the predicates and the paths of a plan mean: when a
//! verification holds of what a printer reports, and which field of the status
//! it is held against.

use vstd::arithmetic::power2::{lemma_pow2_strictly_increases, lemma_pow2_unfold, pow2};
use vstd::prelude::*;

use crate::execution::{field_in, read_number, Cause, Field};
use crate::json::{
    all_digits, child, child_of, descend, digits_value, index_value, is_digit, member, split_on,
    walk, Json, Kind, Member,
};
use crate::number::{Num, Reading, Seconds, Span};
use crate::plan::{duration_or, reference_of, satisfied, trigger_field_of, Predicate, TriggerSource};
use crate::text::{decimal, digit};

verus! {

/// The size of a double, in units of the least one that is not zero.
pub open spec fn size_of_double(n: Num) -> int {
    let exponent = (n.bits as int % 0x8000_0000_0000_0000) / 0x10_0000_0000_0000;
    let fraction = n.bits as int % 0x10_0000_0000_0000;
    if exponent == 0 {
        fraction
    } else {
        (0x10_0000_0000_0000 + fraction) * pow2((exponent - 1) as nat)
    }
}

/// The number that a finite double is, in units of the least positive one.
pub open spec fn worth(n: Num) -> int {
    if n.bits < 0x8000_0000_0000_0000 {
        size_of_double(n)
    } else {
        -size_of_double(n)
    }
}

/// Neither an infinity nor a NaN, by the bits.
pub open spec fn is_a_number(n: Num) -> bool {
    n.bits as int % 0x8000_0000_0000_0000 < 0x7ff0_0000_0000_0000
}

spec fn scaled(m: int) -> int {
    let exponent = m / 0x10_0000_0000_0000;
    let fraction = m % 0x10_0000_0000_0000;
    if exponent == 0 {
        fraction
    } else {
        (0x10_0000_0000_0000 + fraction) * pow2((exponent - 1) as nat)
    }
}

proof fn lemma_scaled_positive(m: int)
    requires
        0 <= m,
    ensures
        0 <= scaled(m),
        m > 0 ==> 0 < scaled(m),
{
    let exponent = m / 0x10_0000_0000_0000;
    let fraction = m % 0x10_0000_0000_0000;
    if exponent > 0 {
        lemma_pow2_positive((exponent - 1) as nat);
        let p = pow2((exponent - 1) as nat) as int;
        assert((0x10_0000_0000_0000 + fraction) * p > 0) by (nonlinear_arith)
            requires
                p > 0,
                fraction >= 0,
        ;
    }
}

proof fn lemma_pow2_positive(n: nat)
    ensures
        pow2(n) > 0,
{
    vstd::arithmetic::power2::lemma_pow2_pos(n);
}

proof fn lemma_scaled_grows(a: int, b: int)
    requires
        0 <= a < b,
    ensures
        scaled(a) < scaled(b),
{
    let ea = a / 0x10_0000_0000_0000;
    let eb = b / 0x10_0000_0000_0000;
    let fa = a % 0x10_0000_0000_0000;
    let fb = b % 0x10_0000_0000_0000;
    assert(ea <= eb);
    if ea == eb {
        assert(fa < fb);
        if ea > 0 {
            lemma_pow2_positive((ea - 1) as nat);
            let p = pow2((ea - 1) as nat) as int;
            assert((0x10_0000_0000_0000 + fa) * p < (0x10_0000_0000_0000 + fb) * p) by (nonlinear_arith)
                requires
                    p > 0,
                    fa < fb,
            ;
        }
    } else {
        lemma_pow2_positive((eb - 1) as nat);
        let q = pow2((eb - 1) as nat) as int;
        assert((0x10_0000_0000_0000 + fb) * q >= 0x10_0000_0000_0000 * q) by (nonlinear_arith)
            requires
                q > 0,
                fb >= 0,
        ;
        if ea == 0 {
            assert(0x10_0000_0000_0000 * q >= 0x10_0000_0000_0000) by (nonlinear_arith)
                requires
                    q > 0,
            ;
        } else {
            lemma_pow2_positive((ea - 1) as nat);
            let p = pow2((ea - 1) as nat) as int;
            lemma_pow2_unfold(ea as nat);
            assert(pow2(ea as nat) == 2 * p);
            if ea < eb - 1 {
                lemma_pow2_strictly_increases(ea as nat, (eb - 1) as nat);
            }
            assert(2 * p <= q);
            assert((0x10_0000_0000_0000 + fa) * p < 0x10_0000_0000_0000 * q) by (nonlinear_arith)
                requires
                    p > 0,
                    fa < 0x10_0000_0000_0000,
                    2 * p <= q,
            ;
        }
    }
}

/// Doubles compare as the numbers that they are: of two finite ones, the first is
/// at most the second exactly when the number it stands for is. Both zeros are
/// zero. An infinity lies beyond every finite double on its side, and nothing
/// compares with a NaN.
pub proof fn doubles_compare_as_the_numbers_they_are(a: Num, b: Num)
    ensures
        is_a_number(a) && is_a_number(b) ==> (a.at_most(b) <==> worth(a) <= worth(b)),
        a.bits as int % 0x8000_0000_0000_0000 > 0x7ff0_0000_0000_0000 ==> !a.at_most(b)
            && !b.at_most(a),
        is_a_number(a) && b.bits == 0x7ff0_0000_0000_0000 ==> a.at_most(b) && !b.at_most(a),
        is_a_number(a) && b.bits == 0xfff0_0000_0000_0000 ==> b.at_most(a) && !a.at_most(b),
        a.finite() <==> is_a_number(a),
        is_a_number(a) ==> (a.positive() <==> worth(a) > 0),
        a.bits as int % 0x8000_0000_0000_0000 > 0x7ff0_0000_0000_0000 ==> !a.positive(),
{
    let ma = a.bits as int % 0x8000_0000_0000_0000;
    let mb = b.bits as int % 0x8000_0000_0000_0000;
    lemma_fields(a);
    lemma_fields(b);
    assert(size_of_double(a) == scaled(ma));
    assert(size_of_double(b) == scaled(mb));
    lemma_scaled_positive(ma);
    lemma_scaled_positive(mb);
    if ma < mb {
        lemma_scaled_grows(ma, mb);
    }
    if mb < ma {
        lemma_scaled_grows(mb, ma);
    }
}

proof fn lemma_fields(a: Num)
    ensures
        ({
            let m = a.bits as int % 0x8000_0000_0000_0000;
            &&& a.exponent() == m / 0x10_0000_0000_0000
            &&& a.fraction() == m % 0x10_0000_0000_0000
            &&& a.bits < 0x8000_0000_0000_0000 ==> m == a.bits
            &&& a.bits >= 0x8000_0000_0000_0000 ==> m == a.bits - 0x8000_0000_0000_0000
        }),
{
}

/// A number in a status.
pub open spec fn reports(v: Json, reading: Reading) -> bool {
    v.kind matches Kind::Number(n) && n.reading == reading
}

/// A temperature is within bounds exactly when it is no lower than the lower and
/// no higher than the upper, as numbers: a reading above the upper bound never
/// passes, nor one below the lower, nor anything that is not a number.
pub proof fn a_temperature_passes_exactly_within_its_bounds(
    min: Num,
    max: Num,
    v: Json,
    reading: Reading,
    computed: Option<Num>,
    distance: Option<Num>,
)
    requires
        reports(v, reading),
    ensures
        ({
            let holds = satisfied(
                Predicate::TempWithin { min, max },
                Some(v),
                computed,
                distance,
            );
            &&& holds ==> is_a_number(reading.num)
            &&& is_a_number(reading.num) && is_a_number(min) && is_a_number(max) ==> (holds <==> worth(
                min,
            ) <= worth(reading.num) <= worth(max))
        }),
{
    doubles_compare_as_the_numbers_they_are(min, reading.num);
    doubles_compare_as_the_numbers_they_are(reading.num, max);
}

/// A lower bound admits exactly the finite numbers that are no less, an upper
/// bound exactly those that are no more.
pub proof fn a_bound_admits_exactly_its_side(
    bound: Num,
    v: Json,
    reading: Reading,
    computed: Option<Num>,
    distance: Option<Num>,
)
    requires
        reports(v, reading),
    ensures
        ({
            let least = satisfied(
                Predicate::NumAtLeast { min: bound },
                Some(v),
                computed,
                distance,
            );
            let most = satisfied(Predicate::NumAtMost { max: bound }, Some(v), computed, distance);
            &&& least ==> is_a_number(reading.num)
            &&& most ==> is_a_number(reading.num)
            &&& is_a_number(reading.num) && is_a_number(bound) ==> {
                &&& least <==> worth(bound) <= worth(reading.num)
                &&& most <==> worth(reading.num) <= worth(bound)
            }
        }),
{
    doubles_compare_as_the_numbers_they_are(bound, reading.num);
    doubles_compare_as_the_numbers_they_are(reading.num, bound);
}

/// A tolerance is met exactly when the distance that was worked out is no more
/// than it. Without a distance it is not met, nor by a value that is no finite
/// number, nor, where the value is held against what the step computed, without
/// something computed. The distance is from the expected number in the one case
/// and from the computed one in the other.
pub proof fn a_tolerance_is_met_exactly_within_it(
    expected: Num,
    epsilon: Num,
    v: Json,
    reading: Reading,
    computed: Option<Num>,
    d: Num,
)
    requires
        reports(v, reading),
    ensures
        ({
            let fixed = Predicate::NumWithin { expected, epsilon };
            let live = Predicate::NumWithinComputed { epsilon };
            &&& reference_of(fixed, computed) == Some(expected)
            &&& reference_of(live, computed) == computed
            &&& !satisfied(fixed, Some(v), computed, None)
            &&& !satisfied(live, Some(v), computed, None)
            &&& !satisfied(live, Some(v), None, Some(d))
            &&& satisfied(fixed, Some(v), computed, Some(d)) ==> is_a_number(reading.num)
            &&& satisfied(live, Some(v), computed, Some(d)) ==> is_a_number(reading.num)
            &&& is_a_number(reading.num) && is_a_number(d) && is_a_number(epsilon) ==> {
                &&& satisfied(fixed, Some(v), computed, Some(d)) <==> worth(d) <= worth(epsilon)
                &&& computed is Some ==> (satisfied(live, Some(v), computed, Some(d)) <==> worth(d)
                    <= worth(epsilon))
            }
        }),
{
    doubles_compare_as_the_numbers_they_are(d, epsilon);
    doubles_compare_as_the_numbers_they_are(reading.num, reading.num);
}

/// A string passes by what it holds: whether the wanted text stands somewhere in
/// it, or whether it is the wanted text; and a boolean passes as it is.
pub proof fn texts_and_flags_pass_by_what_they_are(
    needle: String,
    v: Json,
    computed: Option<Num>,
    distance: Option<Num>,
)
    ensures
        v.kind matches Kind::Text(t) ==> {
            &&& satisfied(
                Predicate::Equals { value: needle },
                Some(v),
                computed,
                distance,
            ) <==> t.value@ == needle@
            &&& satisfied(Predicate::Contains { needle }, Some(v), computed, distance) <==> exists|
                before: Seq<char>,
                after: Seq<char>,
            |
                t.value@ == #[trigger] (before + needle@ + after)
        },
        !(v.kind is Text) ==> !satisfied(
            Predicate::Equals { value: needle },
            Some(v),
            computed,
            distance,
        ) && !satisfied(Predicate::Contains { needle }, Some(v), computed, distance),
        satisfied(Predicate::BoolTrue, Some(v), computed, distance) <==> v.kind == Kind::Bool(true),
        satisfied(Predicate::BoolFalse, Some(v), computed, distance) <==> v.kind == Kind::Bool(
            false,
        ),
{
    if let Kind::Text(t) = v.kind {
        let s = t.value@;
        let n = needle@;
        if satisfied(Predicate::Contains { needle }, Some(v), computed, distance) {
            let i = choose|i: int| crate::text::occurs_at(s, n, i);
            let before = s.take(i);
            let after = s.skip(i + n.len());
            assert(s =~= before + n + after);
        }
        if exists|before: Seq<char>, after: Seq<char>| s == #[trigger] (before + n + after) {
            let (before, after) = choose|before: Seq<char>, after: Seq<char>|
                s == #[trigger] (before + n + after);
            let i = before.len() as int;
            assert(s.subrange(i, i + n.len()) =~= n);
            assert(crate::text::occurs_at(s, n, i));
        }
    }
}

/// A value is present when it is there and not null, and finite if it is a number;
/// a matrix is filled when one of its rows is an array with something in it.
pub proof fn presence_is_of_something(v: Json, computed: Option<Num>, distance: Option<Num>)
    ensures
        satisfied(Predicate::FinitePresent, Some(v), computed, distance) <==> !(v.kind is Null)
            && (v.kind matches Kind::Number(n) ==> is_a_number(n.reading.num)),
        satisfied(Predicate::NonEmptyMatrix, Some(v), computed, distance) <==> (
        v.kind matches Kind::Array(rows) && exists|i: int|
            0 <= i < rows@.len() && (#[trigger] rows@[i].kind matches Kind::Array(cells)
                && cells@.len() >= 1)),
{
    if let Kind::Number(n) = v.kind {
        doubles_compare_as_the_numbers_they_are(n.reading.num, n.reading.num);
    }
    if let Kind::Array(rows) = v.kind {
        if exists|i: int|
            0 <= i < rows@.len() && (#[trigger] rows@[i].kind matches Kind::Array(cells)
                && cells@.len() >= 1) {
            let i = choose|i: int|
                0 <= i < rows@.len() && (#[trigger] rows@[i].kind matches Kind::Array(cells)
                    && cells@.len() >= 1);
            assert(crate::plan::is_filled_row(rows@[i]));
        }
        if exists|i: int| 0 <= i < rows@.len() && crate::plan::is_filled_row(#[trigger] rows@[i]) {
            let i = choose|i: int|
                0 <= i < rows@.len() && crate::plan::is_filled_row(#[trigger] rows@[i]);
            assert(rows@[i].kind is Array);
        }
    }
}

/// What is absent satisfies nothing, and what is no number satisfies nothing that
/// is said of numbers.
pub proof fn the_absent_and_the_mistyped_satisfy_nothing(
    predicate: Predicate,
    v: Json,
    computed: Option<Num>,
    distance: Option<Num>,
)
    ensures
        !satisfied(predicate, None, computed, distance),
        !(v.kind is Number) && (predicate is NumWithin || predicate is NumAtLeast
            || predicate is NumAtMost || predicate is TempWithin || predicate is NumWithinComputed)
            ==> !satisfied(predicate, Some(v), computed, distance),
{
}

/// The operator's duration is in force exactly when it is a positive finite
/// number; else the daemon's own is.
pub proof fn a_usable_duration_wins(s: Seconds, fallback: Span)
    ensures
        is_a_number(s.value) && worth(s.value) > 0 ==> duration_or(Some(s), fallback) == s.span,
        !(is_a_number(s.value) && worth(s.value) > 0) ==> duration_or(Some(s), fallback) == fallback,
        duration_or(None, fallback) == fallback,
{
    doubles_compare_as_the_numbers_they_are(s.value, s.value);
}

/// A key is looked up by its own name: what is found stands under that key, in
/// the first member so named, and nothing is found exactly when no member is.
pub proof fn a_key_finds_its_own_member(members: Seq<Member>, key: Seq<char>)
    ensures
        match member(members, key) {
            Some(v) => exists|i: int|
                0 <= i < members.len() && (#[trigger] members[i]).key@ == key && members[i].value == v
                    && forall|j: int| 0 <= j < i ==> (#[trigger] members[j]).key@ != key,
            None => forall|i: int| 0 <= i < members.len() ==> (#[trigger] members[i]).key@ != key,
        },
    decreases members.len(),
{
    if members.len() > 0 {
        let rest = members.skip(1);
        if members[0].key@ == key {
            assert(members[0].value == member(members, key)->0);
        } else {
            a_key_finds_its_own_member(rest, key);
            match member(rest, key) {
                Some(v) => {
                    let i = choose|i: int|
                        0 <= i < rest.len() && (#[trigger] rest[i]).key@ == key && rest[i].value == v
                            && forall|j: int| 0 <= j < i ==> (#[trigger] rest[j]).key@ != key;
                    assert(members[i + 1] == rest[i]);
                    assert forall|j: int| 0 <= j < i + 1 implies (#[trigger] members[j]).key@
                        != key by {
                        if j > 0 {
                            assert(members[j] == rest[j - 1]);
                        }
                    }
                },
                None => {
                    assert forall|i: int| 0 <= i < members.len() implies (#[trigger] members[i]).key@
                        != key by {
                        if i > 0 {
                            assert(members[i] == rest[i - 1]);
                        }
                    }
                },
            }
        }
    }
}

proof fn lemma_split_nonempty(s: Seq<char>, sep: char)
    ensures
        split_on(s, sep).len() > 0,
    decreases s.len(),
{
    if s.len() > 0 {
        lemma_split_nonempty(s.drop_last(), sep);
    }
}

proof fn lemma_split_whole(s: Seq<char>, sep: char)
    requires
        !s.contains(sep),
    ensures
        split_on(s, sep) == seq![s],
    decreases s.len(),
{
    if s.len() > 0 {
        let less = s.drop_last();
        assert(!less.contains(sep)) by {
            if less.contains(sep) {
                let i = choose|i: int| 0 <= i < less.len() && less[i] == sep;
                assert(s[i] == sep);
            }
        }
        lemma_split_whole(less, sep);
        assert(s[s.len() - 1] != sep);
        assert(less.push(s.last()) =~= s);
        assert(split_on(s, sep) =~= seq![s]);
    } else {
        assert(s =~= Seq::<char>::empty());
        assert(split_on(s, sep) =~= seq![s]);
    }
}

proof fn lemma_split_joins(a: Seq<char>, b: Seq<char>, sep: char)
    ensures
        split_on(a + seq![sep] + b, sep) == split_on(a, sep) + split_on(b, sep),
    decreases b.len(),
{
    let all = a + seq![sep] + b;
    if b.len() == 0 {
        assert(all.drop_last() =~= a);
        assert(all.last() == sep);
        assert(split_on(all, sep) =~= split_on(a, sep) + split_on(b, sep));
    } else {
        let less = b.drop_last();
        assert(all.drop_last() =~= a + seq![sep] + less);
        assert(all.last() == b.last());
        lemma_split_joins(a, less, sep);
        lemma_split_nonempty(less, sep);
        let before = split_on(a, sep) + split_on(less, sep);
        assert(before.last() == split_on(less, sep).last());
        assert(split_on(all, sep) =~= split_on(a, sep) + split_on(b, sep));
    }
}

/// A path is followed segment by segment: where the first segment leads, the rest
/// is followed from. A path without a dot is one segment.
pub proof fn a_path_is_followed_segment_by_segment(v: Json, first: Seq<char>, rest: Seq<char>)
    requires
        !first.contains('.'),
    ensures
        walk(v, split_on(first, '.')) == descend(v, first),
        walk(v, split_on(first + seq!['.'] + rest, '.')) == match descend(v, first) {
            Some(next) => walk(next, split_on(rest, '.')),
            None => None,
        },
{
    lemma_split_whole(first, '.');
    lemma_split_joins(first, rest, '.');
    let one = split_on(first, '.');
    assert(one.skip(1) =~= Seq::<Seq<char>>::empty());
    if let Some(next) = descend(v, first) {
        assert(walk(next, one.skip(1)) == Some(next));
    }
    let all = split_on(first + seq!['.'] + rest, '.');
    assert(all[0] == first);
    assert(all.skip(1) =~= split_on(rest, '.'));
}

proof fn lemma_digit_is(d: int)
    requires
        0 <= d < 10,
    ensures
        is_digit(digit(d)),
        digit(d) as u32 - '0' as u32 == d,
{
}

proof fn lemma_decimal_reads_back(n: nat)
    ensures
        decimal(n).len() > 0,
        all_digits(decimal(n)),
        digits_value(decimal(n)) == n,
    decreases n,
{
    lemma_digit_is((n % 10) as int);
    if n < 10 {
        let s = decimal(n);
        assert(s.drop_last() =~= Seq::<char>::empty());
        assert(digits_value(s.drop_last()) == 0);
    } else {
        lemma_decimal_reads_back(n / 10);
        let s = decimal(n);
        assert(s.drop_last() =~= decimal(n / 10));
        assert(s.last() == digit((n % 10) as int));
        assert forall|i: int| 0 <= i < s.len() implies is_digit(#[trigger] s[i]) by {
            if i < s.len() - 1 {
                assert(s[i] == decimal(n / 10)[i]);
            }
        }
    }
}

/// A number, written in decimal, is read back as itself: two numbers are never
/// written alike.
pub proof fn a_decimal_reads_back(a: nat, b: nat)
    ensures
        digits_value(decimal(a)) == a,
        all_digits(decimal(a)),
        decimal(a) == decimal(b) <==> a == b,
{
    lemma_decimal_reads_back(a);
    lemma_decimal_reads_back(b);
}

/// A segment that is a number takes that element of an array, counted from zero,
/// and any other segment takes the member of an object so named.
pub proof fn a_segment_takes_an_element_or_a_member(v: Json, n: nat, name: Seq<char>)
    requires
        n <= usize::MAX,
    ensures
        v.kind matches Kind::Array(items) ==> descend(v, decimal(n)) == if n < items@.len() {
            Some(items@[n as int])
        } else {
            None
        },
        name.len() > 0 && !is_digit(name[0]) && name[0] != '+' ==> descend(v, name) == child(
            v,
            name,
        ),
        v.kind matches Kind::Object(members) ==> child(v, name) == member(members@, name),
        !(v.kind is Object) ==> child(v, name) is None,
{
    lemma_decimal_reads_back(n);
    assert(is_digit(decimal(n)[0]));
    if name.len() > 0 && !is_digit(name[0]) && name[0] != '+' {
        assert(!all_digits(name));
    }
}

proof fn lemma_named(v: Json, name: Seq<char>)
    requires
        name.len() > 0,
        'a' <= name[0] <= 'z',
    ensures
        descend(v, name) == child(v, name),
{
    a_segment_takes_an_element_or_a_member(v, 0, name);
}

/// The heights and the accelerations are read where the printer keeps them: the
/// raw trigger under `last_z_result` of `probe`, the bed height as the third
/// element of its `last_probe_position`, the drag and the touch in the plugin's
/// own results, the current Z as the third element of the toolhead's position, and
/// the acceleration limit beside it.
pub proof fn each_number_is_read_from_its_own_field(status: Json)
    ensures
        ({
            let probe = child(status, "probe"@);
            let plr = child(status, "plr"@);
            let toolhead = child(status, "toolhead"@);
            &&& field_in(Field::Trigger(TriggerSource::RawLastZResult), status) == child_of(
                probe,
                "last_z_result"@,
            )
            &&& field_in(Field::Trigger(TriggerSource::BedZPlusOffset), status) == third(
                child_of(probe, "last_probe_position"@),
            )
            &&& field_in(Field::Trigger(TriggerSource::DragResult), status) == child_of(
                child_of(plr, "last_drag_result"@),
                "trigger_z"@,
            )
            &&& field_in(Field::Trigger(TriggerSource::TouchResult), status) == child_of(
                child_of(plr, "last_touch_result"@),
                "median_z"@,
            )
            &&& field_in(Field::Height, status) == third(child_of(toolhead, "position"@))
            &&& field_in(Field::Accel, status) == child_of(toolhead, "max_accel"@)
        }),
{
    lemma_literals();
    let probe = child(status, "probe"@);
    let plr = child(status, "plr"@);
    let toolhead = child(status, "toolhead"@);
    if let Some(v) = probe {
        lemma_plain_path(v, "last_z_result"@);
        lemma_third_path(v, "last_probe_position"@, "last_probe_position.2"@);
    }
    if let Some(v) = plr {
        lemma_deep_path(v, "last_drag_result"@, "trigger_z"@, "last_drag_result.trigger_z"@);
        lemma_deep_path(v, "last_touch_result"@, "median_z"@, "last_touch_result.median_z"@);
    }
    if let Some(v) = toolhead {
        lemma_third_path(v, "position"@, "position.2"@);
        lemma_plain_path(v, "max_accel"@);
    }
}

/// The third element of an array.
pub open spec fn third(v: Option<Json>) -> Option<Json> {
    match v {
        Some(v) => match v.kind {
            Kind::Array(items) => if items@.len() > 2 {
                Some(items@[2])
            } else {
                None
            },
            _ => None,
        },
        None => None,
    }
}

/// A name that a path can hold as one segment.
spec fn plain_name(s: Seq<char>) -> bool {
    s.len() > 0 && 'a' <= s[0] <= 'z' && !s.contains('.')
}

proof fn lemma_plain_path(v: Json, name: Seq<char>)
    requires
        plain_name(name),
    ensures
        walk(v, split_on(name, '.')) == child(v, name),
{
    a_path_is_followed_segment_by_segment(v, name, name);
    lemma_named(v, name);
}

proof fn lemma_deep_path(v: Json, a: Seq<char>, b: Seq<char>, path: Seq<char>)
    requires
        plain_name(a),
        plain_name(b),
        path == a + seq!['.'] + b,
    ensures
        walk(v, split_on(path, '.')) == child_of(child(v, a), b),
{
    a_path_is_followed_segment_by_segment(v, a, b);
    lemma_named(v, a);
    if let Some(next) = child(v, a) {
        lemma_plain_path(next, b);
    }
}

proof fn lemma_third_path(v: Json, a: Seq<char>, path: Seq<char>)
    requires
        plain_name(a),
        path == a + seq!['.'] + seq!['2'],
    ensures
        walk(v, split_on(path, '.')) == third(child(v, a)),
{
    let two = seq!['2'];
    assert(decimal(2) =~= two);
    a_path_is_followed_segment_by_segment(v, a, two);
    lemma_named(v, a);
    if let Some(next) = child(v, a) {
        a_path_is_followed_segment_by_segment(next, two, two);
        a_segment_takes_an_element_or_a_member(next, 2, a);
        assert(index_value(two) == Some(2nat)) by {
            lemma_decimal_reads_back(2);
        }
    }
}

proof fn lemma_literals()
    ensures
        plain_name("last_z_result"@),
        plain_name("last_probe_position"@),
        plain_name("last_drag_result"@),
        plain_name("trigger_z"@),
        plain_name("last_touch_result"@),
        plain_name("median_z"@),
        plain_name("position"@),
        plain_name("max_accel"@),
        "last_probe_position.2"@ == "last_probe_position"@ + seq!['.'] + seq!['2'],
        "position.2"@ == "position"@ + seq!['.'] + seq!['2'],
        "last_drag_result.trigger_z"@ == "last_drag_result"@ + seq!['.'] + "trigger_z"@,
        "last_touch_result.median_z"@ == "last_touch_result"@ + seq!['.'] + "median_z"@,
{
    reveal_strlit("last_z_result");
    reveal_strlit("last_probe_position");
    reveal_strlit("last_drag_result");
    reveal_strlit("trigger_z");
    reveal_strlit("last_touch_result");
    reveal_strlit("median_z");
    reveal_strlit("position");
    reveal_strlit("max_accel");
    reveal_strlit("last_probe_position.2");
    reveal_strlit("position.2");
    reveal_strlit("last_drag_result.trigger_z");
    reveal_strlit("last_touch_result.median_z");
    assert("last_probe_position.2"@ =~= "last_probe_position"@ + seq!['.'] + seq!['2']);
    assert("position.2"@ =~= "position"@ + seq!['.'] + seq!['2']);
    assert("last_drag_result.trigger_z"@ =~= "last_drag_result"@ + seq!['.'] + "trigger_z"@);
    assert("last_touch_result.median_z"@ =~= "last_touch_result"@ + seq!['.'] + "median_z"@);
}

/// The four sources of a trigger height are four fields; the printer's own probe
/// holds two of them and the plugin two.
pub proof fn the_trigger_sources_are_told_apart(a: TriggerSource, b: TriggerSource)
    ensures
        trigger_field_of(a) == trigger_field_of(b) <==> a == b,
        trigger_field_of(a).0 == (match a {
            TriggerSource::RawLastZResult | TriggerSource::BedZPlusOffset => "probe"@,
            TriggerSource::DragResult | TriggerSource::TouchResult => "plr"@,
        }),
        trigger_field_of(TriggerSource::RawLastZResult).1 == "last_z_result"@,
        trigger_field_of(TriggerSource::BedZPlusOffset).1 == "last_probe_position.2"@,
        trigger_field_of(TriggerSource::DragResult).1 == "last_drag_result.trigger_z"@,
        trigger_field_of(TriggerSource::TouchResult).1 == "last_touch_result.median_z"@,
{
    reveal_strlit("probe");
    reveal_strlit("plr");
    reveal_strlit("last_z_result");
    reveal_strlit("last_probe_position.2");
    reveal_strlit("last_drag_result.trigger_z");
    reveal_strlit("last_touch_result.median_z");
    assert("probe"@.len() == 5 && "plr"@.len() == 3);
    assert("last_z_result"@.len() == 13 && "last_probe_position.2"@.len() == 21);
    assert("last_drag_result.trigger_z"@[5] == 'd');
    assert("last_touch_result.median_z"@[5] == 't');
}

/// A number is read exactly when its field is there and holds a finite number, and
/// it is that number; a query that failed, a field that is absent and one that
/// holds anything else each stop the reading in their own way.
pub proof fn a_number_is_read_only_where_one_stands(field: Field, status: Json, error: String)
    ensures
        read_number(field, Err(error)) == Err::<Reading, Cause>(Cause::Transport(error)),
        match field_in(field, status) {
            None => read_number(field, Ok(status)) == Err::<Reading, Cause>(Cause::Absent(field)),
            Some(v) => match v.kind {
                Kind::Number(n) => if is_a_number(n.reading.num) {
                    read_number(field, Ok(status)) == Ok::<Reading, Cause>(n.reading)
                } else {
                    read_number(field, Ok(status)) == Err::<Reading, Cause>(Cause::NotFinite(field))
                },
                _ => read_number(field, Ok(status)) == Err::<Reading, Cause>(
                    Cause::NotFinite(field),
                ),
            },
        },
{
    if let Some(v) = field_in(field, status) {
        if let Kind::Number(n) = v.kind {
            doubles_compare_as_the_numbers_they_are(n.reading.num, n.reading.num);
        }
    }
}

} // verus!
