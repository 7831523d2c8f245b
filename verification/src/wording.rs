//! What is written where: placeholders, file names, paths and lines.

use vstd::arithmetic::power::{lemma_pow0, pow};
use vstd::prelude::*;

use crate::json::split_on;
use crate::plan::{
    cleanup_text, first_index_from, resolved, shifted_id, Phase, RecoveryPlan, Resolved,
};
use crate::recovery_file::{
    ended_lines, lines_of, path_in, plan_pointed, pointed, preview_lines, selections, selects,
    settled, without_return, without_separators, FileClaim, PlanBundle,
};
use crate::text::{
    begins, decimal, decimal_int, hex, hex_digit, joined, occurs, occurs_at, replaced, texts,
};

verus! {

/// No opening brace in the text.
pub open spec fn plain(s: Seq<char>) -> bool {
    forall|i: int| 0 <= i < s.len() ==> #[trigger] s[i] != '{'
}

/// A placeholder: an opening brace, and none behind it.
pub open spec fn placeholder(p: Seq<char>) -> bool {
    p.len() > 0 && p[0] == '{' && forall|i: int| 0 < i < p.len() ==> #[trigger] p[i] != '{'
}

/// Replacing keeps the text before the first place at which the wanted one stands,
/// writes the new text there, and goes on behind it.
pub proof fn replacing_writes_over_each_place(
    a: Seq<char>,
    from: Seq<char>,
    b: Seq<char>,
    to: Seq<char>,
)
    requires
        from.len() > 0,
        forall|i: int| 0 <= i < a.len() ==> !#[trigger] occurs_at(a + from + b, from, i),
    ensures
        replaced(a + from + b, from, to) == a + to + replaced(b, from, to),
    decreases a.len(),
{
    let s = a + from + b;
    if a.len() == 0 {
        assert(s.subrange(0, from.len() as int) =~= from);
        assert(s.skip(from.len() as int) =~= b);
        assert(a + to + replaced(b, from, to) =~= to + replaced(b, from, to));
    } else {
        assert(!occurs_at(s, from, 0));
        assert(!begins(s, from));
        let less = a.skip(1);
        assert(s.skip(1) =~= less + from + b);
        assert forall|i: int| 0 <= i < less.len() implies !#[trigger] occurs_at(
            less + from + b,
            from,
            i,
        ) by {
            if occurs_at(less + from + b, from, i) {
                assert(s.subrange(i + 1, i + 1 + from.len()) =~= (less + from + b).subrange(
                    i,
                    i + from.len(),
                ));
                assert(occurs_at(s, from, i + 1));
            }
        }
        replacing_writes_over_each_place(less, from, b, to);
        assert(seq![s[0]] + (less + to + replaced(b, from, to)) =~= a + to + replaced(b, from, to));
    }
}

/// Where the wanted text does not stand, replacing changes nothing.
pub proof fn replacing_leaves_the_rest(s: Seq<char>, from: Seq<char>, to: Seq<char>)
    requires
        !occurs(s, from),
    ensures
        replaced(s, from, to) == s,
    decreases s.len(),
{
    if from.len() > 0 && s.len() > 0 {
        if begins(s, from) {
            assert(occurs_at(s, from, 0));
        }
        let less = s.skip(1);
        if occurs(less, from) {
            let i = choose|i: int| occurs_at(less, from, i);
            assert(s.subrange(i + 1, i + 1 + from.len()) =~= less.subrange(i, i + from.len()));
            assert(occurs_at(s, from, i + 1));
        }
        replacing_leaves_the_rest(less, from, to);
        assert(seq![s[0]] + less =~= s);
    }
}

proof fn lemma_only_there(a: Seq<char>, p: Seq<char>, b: Seq<char>, other: Seq<char>, d: int)
    requires
        plain(a),
        plain(b),
        placeholder(p),
        placeholder(other),
        0 <= d < p.len(),
        d < other.len(),
        p[d] != other[d],
    ensures
        !occurs(a + p + b, other),
{
    let s = a + p + b;
    assert forall|i: int| !occurs_at(s, other, i) by {
        if occurs_at(s, other, i) {
            let there = s.subrange(i, i + other.len());
            assert(s[i] == there[0]);
            assert(i == a.len());
            assert(s[i + d] == there[d]);
            assert(s[a.len() + d] == p[d]);
        }
    }
}

proof fn lemma_there(a: Seq<char>, p: Seq<char>, b: Seq<char>, to: Seq<char>)
    requires
        plain(a),
        plain(b),
        placeholder(p),
    ensures
        occurs(a + p + b, p),
        replaced(a + p + b, p, to) == a + to + b,
{
    let s = a + p + b;
    assert(s.subrange(a.len() as int, (a.len() + p.len()) as int) =~= p);
    assert(occurs_at(s, p, a.len() as int));
    assert forall|i: int| 0 <= i < a.len() implies !#[trigger] occurs_at(s, p, i) by {
        if occurs_at(s, p, i) {
            let there = s.subrange(i, i + p.len());
            assert(s[i] == there[0]);
            assert(a[i] == s[i]);
        }
    }
    replacing_writes_over_each_place(a, p, b, to);
    lemma_plain_has_none(b, p);
    replacing_leaves_the_rest(b, p, to);
}

proof fn lemma_plain_has_none(s: Seq<char>, p: Seq<char>)
    requires
        plain(s),
        placeholder(p),
    ensures
        !occurs(s, p),
{
    assert forall|i: int| !occurs_at(s, p, i) by {
        if occurs_at(s, p, i) {
            let there = s.subrange(i, i + p.len());
            assert(s[i] == there[0]);
        }
    }
}

proof fn lemma_placeholders()
    ensures
        placeholder("{true_z}"@),
        placeholder("{restore_accel}"@),
        placeholder("{park_z}"@),
        placeholder("{machine_accel}"@),
        "{true_z}"@[1] == 't' && "{true_z}"@.len() == 8,
        "{restore_accel}"@[1] == 'r' && "{restore_accel}"@.len() == 15,
        "{park_z}"@[1] == 'p' && "{park_z}"@.len() == 8,
        "{machine_accel}"@[1] == 'm' && "{machine_accel}"@.len() == 15,
{
    reveal_strlit("{true_z}");
    reveal_strlit("{restore_accel}");
    reveal_strlit("{park_z}");
    reveal_strlit("{machine_accel}");
}

proof fn lemma_joins_plain(a: Seq<char>, v: Seq<char>, b: Seq<char>)
    requires
        plain(a),
        plain(v),
        plain(b),
    ensures
        plain(a + v + b),
{
    let s = a + v + b;
    assert forall|i: int| 0 <= i < s.len() implies #[trigger] s[i] != '{' by {
        if i < a.len() {
            assert(s[i] == a[i]);
        } else if i < a.len() + v.len() {
            assert(s[i] == v[i - a.len()]);
        } else {
            assert(s[i] == b[i - a.len() - v.len()]);
        }
    }
}

/// A command gets its value where its placeholder stands, and nothing else of it
/// changes: the step's own value for the true Z, the park height and the
/// acceleration to restore, the printer's for the machine's acceleration. Without
/// the value that it wants it is not sent, and one that wants none goes out as it
/// is.
pub proof fn a_command_gets_the_value_it_wants(
    a: Seq<char>,
    b: Seq<char>,
    value: Seq<char>,
    computed: Option<Seq<char>>,
    machine: Option<Seq<char>>,
)
    requires
        plain(a),
        plain(b),
        plain(value),
    ensures
        resolved(a + "{true_z}"@ + b, Some(value), machine) == Resolved::Text(a + value + b),
        resolved(a + "{park_z}"@ + b, Some(value), machine) == Resolved::Text(a + value + b),
        resolved(a + "{restore_accel}"@ + b, Some(value), machine) == Resolved::Text(a + value + b),
        resolved(a + "{machine_accel}"@ + b, computed, Some(value)) == Resolved::Text(
            a + value + b,
        ),
        resolved(a + "{true_z}"@ + b, None, machine) is NoComputed,
        resolved(a + "{park_z}"@ + b, None, machine) is NoComputed,
        resolved(a + "{restore_accel}"@ + b, None, machine) is NoComputed,
        resolved(a + "{machine_accel}"@ + b, computed, None) is NoMachineAccel,
        resolved(a, computed, machine) == Resolved::Text(a),
{
    lemma_placeholders();
    let t = "{true_z}"@;
    let r = "{restore_accel}"@;
    let p = "{park_z}"@;
    let m = "{machine_accel}"@;
    let out = a + value + b;
    lemma_joins_plain(a, value, b);
    lemma_there(a, t, b, value);
    lemma_there(a, r, b, value);
    lemma_there(a, p, b, value);
    lemma_there(a, m, b, value);
    lemma_only_there(a, t, b, r, 1);
    lemma_only_there(a, t, b, p, 1);
    lemma_only_there(a, r, b, t, 1);
    lemma_only_there(a, r, b, p, 1);
    lemma_only_there(a, p, b, t, 1);
    lemma_only_there(a, p, b, r, 1);
    lemma_only_there(a, m, b, t, 1);
    lemma_only_there(a, m, b, r, 1);
    lemma_only_there(a, m, b, p, 1);
    lemma_plain_has_none(out, t);
    lemma_plain_has_none(out, r);
    lemma_plain_has_none(out, p);
    lemma_plain_has_none(out, m);
    lemma_plain_has_none(a, t);
    lemma_plain_has_none(a, r);
    lemma_plain_has_none(a, p);
    lemma_plain_has_none(a, m);
    replacing_leaves_the_rest(a + p + b, t, value);
    replacing_leaves_the_rest(a + p + b, r, value);
    replacing_leaves_the_rest(a + r + b, t, value);
    replacing_leaves_the_rest(out, r, value);
    replacing_leaves_the_rest(out, p, value);
}

/// A cleanup gets the acceleration that it wants, each of the two from its own
/// record; without that record it is left out, and one that wants none is sent as
/// it is.
pub proof fn a_cleanup_gets_the_acceleration_it_wants(
    a: Seq<char>,
    b: Seq<char>,
    value: Seq<char>,
    phase: Option<Seq<char>>,
    machine: Option<Seq<char>>,
)
    requires
        plain(a),
        plain(b),
    ensures
        cleanup_text(a + "{restore_accel}"@ + b, Some(value), machine) == Some(a + value + b),
        cleanup_text(a + "{machine_accel}"@ + b, phase, Some(value)) == Some(a + value + b),
        cleanup_text(a + "{restore_accel}"@ + b, None, machine) is None,
        cleanup_text(a + "{machine_accel}"@ + b, phase, None) is None,
        cleanup_text(a, phase, machine) == Some(a),
{
    lemma_placeholders();
    let r = "{restore_accel}"@;
    let m = "{machine_accel}"@;
    lemma_there(a, r, b, value);
    lemma_there(a, m, b, value);
    lemma_only_there(a, m, b, r, 1);
    lemma_plain_has_none(a, r);
    lemma_plain_has_none(a, m);
}

/// The first step of a phase is of that phase, and none before it is; where there
/// is none, no step is.
pub proof fn the_first_step_of_a_phase_is_the_first(plan: RecoveryPlan, phase: Phase, from: int)
    requires
        0 <= from,
    ensures
        match first_index_from(plan, phase, from) {
            Some(i) => {
                &&& from <= i < plan.steps@.len()
                &&& plan.steps@[i].phase == phase
                &&& forall|j: int| from <= j < i ==> (#[trigger] plan.steps@[j]).phase != phase
            },
            None => forall|j: int|
                from <= j < plan.steps@.len() ==> (#[trigger] plan.steps@[j]).phase != phase,
        },
    decreases plan.steps@.len() - from,
{
    if from < plan.steps@.len() && plan.steps@[from].phase != phase {
        the_first_step_of_a_phase_is_the_first(plan, phase, from + 1);
    }
}

/// The step that declares the shifted frame is the first of that phase.
pub proof fn the_frame_is_declared_by_its_first_step(plan: RecoveryPlan, i: int)
    requires
        0 <= i < plan.steps@.len(),
        plan.steps@[i].phase == Phase::ShiftedFrame,
        forall|j: int| 0 <= j < i ==> (#[trigger] plan.steps@[j]).phase != Phase::ShiftedFrame,
    ensures
        shifted_id(plan) == Some(plan.steps@[i].id),
{
    the_first_step_of_a_phase_is_the_first(plan, Phase::ShiftedFrame, 0);
}

/// The value of a lower-case hexadecimal digit.
pub open spec fn nibble(c: char) -> int {
    if '0' <= c <= '9' {
        c as int - '0' as int
    } else {
        c as int - 'a' as int + 10
    }
}

/// The number that hexadecimal digits stand for.
pub open spec fn hex_value(s: Seq<char>) -> int
    decreases s.len(),
{
    if s.len() == 0 {
        0
    } else {
        16 * hex_value(s.drop_last()) + nibble(s.last())
    }
}

/// Hexadecimal digits stand for the number that they were written for, as far as
/// they reach.
pub proof fn hexadecimal_reads_back(n: nat, width: nat)
    ensures
        hex(n, width).len() == width,
        forall|i: int|
            0 <= i < width ==> ('0' <= #[trigger] hex(n, width)[i] <= '9' || 'a' <= hex(
                n,
                width,
            )[i] <= 'f'),
        n < pow(16, width) ==> hex_value(hex(n, width)) == n,
    decreases width,
{
    if width == 0 {
        lemma_pow0(16);
    } else {
        let less = (width - 1) as nat;
        hexadecimal_reads_back(n / 16, less);
        reveal_with_fuel(pow, 2);
        assert(pow(16, width) == 16 * pow(16, less));
        let all = hex(n, width);
        let d = (n % 16) as int;
        assert(all.drop_last() =~= hex(n / 16, less));
        assert(all.last() == hex_digit(d));
        assert(nibble(hex_digit(d)) == d);
        assert forall|i: int| 0 <= i < width implies ('0' <= #[trigger] all[i] <= '9' || 'a'
            <= all[i] <= 'f') by {
            if i < less {
                assert(all[i] == hex(n / 16, less)[i]);
            }
        }
    }
}

/// A negative number is written as its size behind a minus sign, any other as it
/// is.
pub proof fn a_sign_is_written_only_below_zero(n: nat)
    ensures
        decimal_int(n as int) == decimal(n),
        n > 0 ==> decimal_int(-(n as int)) == seq!['-'] + decimal(n),
{
}

/// Joined texts stand in their order with the separator between, and nowhere else.
pub proof fn joining_puts_the_separator_between(
    parts: Seq<Seq<char>>,
    last: Seq<char>,
    sep: Seq<char>,
)
    ensures
        joined(seq![last], sep) == last,
        joined(Seq::empty(), sep) == Seq::<char>::empty(),
        parts.len() > 0 ==> joined(parts.push(last), sep) == joined(parts, sep) + sep + last,
{
    assert(parts.push(last).drop_last() =~= parts);
}

/// Only the separators at the end of a directory are taken off, and all of them.
pub proof fn only_separators_at_the_end_are_taken_off(root: Seq<char>)
    ensures
        ({
            let r = without_separators(root);
            &&& r.len() <= root.len()
            &&& r == root.take(r.len() as int)
            &&& r.len() > 0 ==> r.last() != '/' && r.last() != '\\'
            &&& forall|i: int|
                r.len() <= i < root.len() ==> #[trigger] root[i] == '/' || root[i] == '\\'
        }),
    decreases root.len(),
{
    if root.len() > 0 && (root.last() == '/' || root.last() == '\\') {
        let less = root.drop_last();
        only_separators_at_the_end_are_taken_off(less);
        let r = without_separators(less);
        assert(r =~= root.take(r.len() as int));
        assert forall|i: int| r.len() <= i < root.len() implies #[trigger] root[i] == '/' || root[i]
            == '\\' by {
            if i < less.len() {
                assert(less[i] == root[i]);
            }
        }
    } else {
        assert(root =~= root.take(root.len() as int));
    }
}

/// A file lies in its directory: one slash stands between the two, whether the
/// directory ends in one or not.
pub proof fn one_slash_stands_between_directory_and_file(dir: Seq<char>, name: Seq<char>)
    requires
        dir.len() > 0 && dir.last() != '/',
        name.len() == 0 || name[0] != '/',
    ensures
        path_in(dir, name) == dir + seq!['/'] + name,
        path_in(dir + seq!['/'], name) == dir + seq!['/'] + name,
        path_in(Seq::empty(), name) == name,
{
    reveal_strlit("/");
    assert("/"@ =~= seq!['/']);
    if begins(name, "/"@) {
        assert(name.subrange(0, 1)[0] == '/');
    }
    assert((dir + seq!['/']).last() == '/');
}

/// A command that selects a file selects the new one; any other is left alone.
pub proof fn only_a_selection_is_pointed_elsewhere(
    command: Seq<char>,
    file: Seq<char>,
    other: Seq<char>,
    name: Seq<char>,
)
    ensures
        pointed(seq!['M', '2', '3', ' '] + file, None, name) == seq!['M', '2', '3', ' '] + name,
        pointed(seq!['M', '2', '3', ' '] + file, Some(file), name) == seq!['M', '2', '3', ' ']
            + name,
        other != file ==> pointed(seq!['M', '2', '3', ' '] + file, Some(other), name) == seq![
            'M',
            '2',
            '3',
            ' ',
        ] + file,
        command.len() < 4 || command[0] != 'M' || command[1] != '2' || command[2] != '3'
            || command[3] != ' ' ==> pointed(command, None, name) == command && pointed(
            command,
            Some(file),
            name,
        ) == command,
{
    reveal_strlit("M23 ");
    let m = seq!['M', '2', '3', ' '];
    assert("M23 "@ =~= m);
    let c = m + file;
    assert(c.subrange(0, 4) =~= m);
    assert(c.skip(4) =~= file);
    if begins(command, "M23 "@) {
        let head = command.subrange(0, 4);
        assert(head[0] == 'M' && head[1] == '2' && head[2] == '3' && head[3] == ' ');
        assert(command[0] == head[0] && command[1] == head[1] && command[2] == head[2]
            && command[3] == head[3]);
    }
}

/// A plan that is pointed at another file keeps every step, every other command and
/// the file that it was cut from; its selections, its recovery file and its resume
/// file name the new one.
pub proof fn pointing_a_plan_changes_its_file_alone(
    before: RecoveryPlan,
    after: RecoveryPlan,
    name: Seq<char>,
    i: int,
    k: int,
)
    requires
        plan_pointed(before, after, None, name),
        0 <= i < before.steps@.len(),
        0 <= k < before.steps@[i].commands@.len(),
    ensures
        after.steps@.len() == before.steps@.len(),
        after.steps@[i].id == before.steps@[i].id,
        after.steps@[i].phase == before.steps@[i].phase,
        after.steps@[i].pre_verify == before.steps@[i].pre_verify,
        after.steps@[i].verify == before.steps@[i].verify,
        after.steps@[i].cleanup_commands == before.steps@[i].cleanup_commands,
        after.steps@[i].compute == before.steps@[i].compute,
        after.steps@[i].commands@.len() == before.steps@[i].commands@.len(),
        selects(before.steps@[i].commands@[k]@, None) ==> after.steps@[i].commands@[k]@ == "M23 "@
            + name,
        !selects(before.steps@[i].commands@[k]@, None) ==> after.steps@[i].commands@[k]@
            == before.steps@[i].commands@[k]@,
        after.recovery_file.name@ == name,
        after.resume_file@ == name,
        after.recovery_file.source_name == before.recovery_file.source_name,
        after.warnings == before.warnings,
        after.preview == before.preview,
{
    let a = texts(after.steps@[i].commands@);
    let b = texts(before.steps@[i].commands@);
    assert(a.len() == b.len());
    assert(a[k] == after.steps@[i].commands@[k]@);
    assert(b[k] == before.steps@[i].commands@[k]@);
    assert(a[k] == pointed(b[k], None, name));
}

/// As many commands are counted as are repointed: none where none selects a file,
/// one more for each that does.
pub proof fn every_selection_counts_once(
    commands: Seq<Seq<char>>,
    only: Option<Seq<char>>,
    n: nat,
)
    requires
        n < commands.len(),
    ensures
        selections(commands, only, 0) == 0,
        selects(commands[n as int], only) ==> selections(commands, only, n + 1) == selections(
            commands,
            only,
            n,
        ) + 1,
        !selects(commands[n as int], only) ==> selections(commands, only, n + 1) == selections(
            commands,
            only,
            n,
        ),
{
}

/// A file that went under the planned name changes nothing; one that went under
/// another has the plan and the path name that one, and the machine, the content,
/// the directory and the source as they were.
pub proof fn a_settled_claim_changes_the_name_alone(
    claim: FileClaim,
    before: PlanBundle,
    after: PlanBundle,
)
    requires
        settled(claim, before, after),
        claim.well_formed(before),
    ensures
        claim.path@ == before.recovery_file_path@ ==> after == before,
        after.recovery_file_path@ == claim.path@,
        claim.path@ != before.recovery_file_path@ ==> (claim.renamed matches Some(name)
            && after.plan.recovery_file.name@ == name@ && after.plan.resume_file@ == name@
            && after.recovery_file_path@ == path_in(before.sdcard_root@, name@)),
        after.recovery_file_content == before.recovery_file_content,
        after.machine == before.machine,
        after.sdcard_root == before.sdcard_root,
        after.file_path == before.file_path,
        after.recovery_source_name == before.recovery_source_name,
        after.original_file_bytes == before.original_file_bytes,
{
}

/// One carriage return at the end of a line is no part of it.
pub proof fn a_line_ends_before_its_return(s: Seq<char>)
    ensures
        without_return(s + seq!['\r']) == s,
        s.len() > 0 && s.last() != '\r' ==> without_return(s) == s,
        without_return(Seq::empty()) == Seq::<char>::empty(),
{
    assert((s + seq!['\r']).drop_last() =~= s);
}

/// A text without a separator is one piece.
pub proof fn text_without_a_separator_is_one_piece(s: Seq<char>, sep: char)
    requires
        !s.contains(sep),
    ensures
        split_on(s, sep) == seq![s],
    decreases s.len(),
{
    if s.len() > 0 {
        let less = s.drop_last();
        if less.contains(sep) {
            let i = choose|i: int| 0 <= i < less.len() && less[i] == sep;
            assert(s[i] == sep);
        }
        text_without_a_separator_is_one_piece(less, sep);
        assert(s[s.len() - 1] != sep);
        assert(less.push(s.last()) =~= s);
        assert(split_on(s, sep) =~= seq![s]);
    } else {
        assert(s =~= Seq::<char>::empty());
        assert(split_on(s, sep) =~= seq![s]);
    }
}

proof fn lemma_split_more(a: Seq<char>, b: Seq<char>, sep: char)
    requires
        !b.contains(sep),
    ensures
        split_on(a + seq![sep] + b, sep) == split_on(a, sep).push(b),
    decreases b.len(),
{
    let s = a + seq![sep] + b;
    if b.len() == 0 {
        assert(s.drop_last() =~= a);
        assert(b =~= Seq::<char>::empty());
        assert(split_on(s, sep) =~= split_on(a, sep).push(b));
    } else {
        let less = b.drop_last();
        if less.contains(sep) {
            let i = choose|i: int| 0 <= i < less.len() && less[i] == sep;
            assert(b[i] == sep);
        }
        lemma_split_more(a, less, sep);
        assert(s.drop_last() =~= a + seq![sep] + less);
        assert(b[b.len() - 1] != sep);
        assert(less.push(b.last()) =~= b);
        assert(split_on(s, sep) =~= split_on(a, sep).push(b));
    }
}

proof fn lemma_ended_same(p: Seq<Seq<char>>, q: Seq<Seq<char>>, n: nat)
    requires
        n <= p.len(),
        n <= q.len(),
        forall|i: int| 0 <= i < n ==> p[i] == q[i],
    ensures
        ended_lines(p, n) == ended_lines(q, n),
    decreases n,
{
    if n > 0 {
        lemma_ended_same(p, q, (n - 1) as nat);
    }
}

/// Each line feed ends a line, and what stands behind the last one is a line only
/// if it is anything.
pub proof fn each_line_feed_ends_a_line(a: Seq<char>, line: Seq<char>)
    requires
        !line.contains('\n'),
        line.len() > 0,
    ensures
        lines_of(Seq::empty()) == Seq::<Seq<char>>::empty(),
        lines_of(line) == seq![line],
        lines_of(line + seq!['\n']) == seq![without_return(line)],
        lines_of(a + seq!['\n'] + line) == lines_of(a + seq!['\n']).push(line),
        lines_of(a + seq!['\n'] + line + seq!['\n']) == lines_of(a + seq!['\n']).push(
            without_return(line),
        ),
{
    let none = Seq::<char>::empty();
    text_without_a_separator_is_one_piece(none, '\n');
    text_without_a_separator_is_one_piece(line, '\n');
    lemma_split_more(line, none, '\n');
    assert(line + seq!['\n'] + none =~= line + seq!['\n']);
    lemma_split_more(a, line, '\n');
    lemma_split_more(a, none, '\n');
    assert(a + seq!['\n'] + none =~= a + seq!['\n']);
    let whole = a + seq!['\n'] + line;
    lemma_split_more(whole, none, '\n');
    assert(whole + seq!['\n'] + none =~= whole + seq!['\n']);
    let pa = split_on(a, '\n');
    let pw = split_on(whole, '\n');
    let pn = split_on(a + seq!['\n'], '\n');
    let pe = split_on(whole + seq!['\n'], '\n');
    let n = pa.len();
    lemma_split_some(a, '\n');
    assert(pw == pa.push(line));
    assert(pn == pa.push(none));
    assert(pe == pw.push(none));
    lemma_ended_same(pw, pn, n);
    lemma_ended_same(pe, pn, n);
    assert(ended_lines(pe, n + 1) == ended_lines(pe, n).push(without_return(line)));
    let one = split_on(line + seq!['\n'], '\n');
    assert(one == seq![line].push(none));
    assert(ended_lines(one, 1) == ended_lines(one, 0).push(without_return(line)));
    assert(lines_of(line + seq!['\n']) =~= seq![without_return(line)]);
    assert(lines_of(line) =~= seq![line]);
    assert(lines_of(none) =~= Seq::<Seq<char>>::empty());
}

proof fn lemma_split_some(s: Seq<char>, sep: char)
    ensures
        split_on(s, sep).len() > 0,
    decreases s.len(),
{
    if s.len() > 0 {
        lemma_split_some(s.drop_last(), sep);
    }
}

/// A preview shows the first lines of the file, each as it is behind an indent, up
/// to forty, and says of how many more it does not show; and it says that nothing
/// was written.
pub proof fn a_preview_shows_the_first_lines(path: Seq<char>, bytes: nat, text: Seq<char>, i: int)
    ensures
        ({
            let all = lines_of(text);
            let shown = preview_lines(path, bytes, text);
            let k: int = if all.len() < 40 {
                all.len() as int
            } else {
                40
            };
            &&& shown.len() == k + 3 + if all.len() > 40 {
                1int
            } else {
                0
            }
            &&& 0 <= i < k ==> shown[2 + i] == "  "@ + all[i]
            &&& all.len() > 40 ==> shown[42] == "  ... ("@ + decimal((all.len() - 40) as nat)
                + " more lines)"@
            &&& shown[0] == "recover: recovery file (NOT written in dry run): "@ + path + " ("@
                + decimal(bytes) + " bytes)"@
        }),
{
}

} // verus!
