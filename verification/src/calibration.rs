//! Calibration fingerprints: a CRC-32 of the slice of the configuration that a
//! calibration depends on. A calibration carries the fingerprint it was taken
//! under; when the slice has changed since, the calibration counts as absent.

use vstd::prelude::*;

use crate::checksum::{crc32, crc32_hex};
use crate::json::{all_digits, get, is_digit, member, members_of, Json, Kind, Member, Text};
use crate::number::Num;
use crate::order::{in_order, sort, sorting_forgets_the_order, sorting_orders_and_keeps};
use crate::plrcfg::{measured, representative, PlrSettings};
use crate::text::{
    begins, chars, hex, is_white, is_whitespace, join, joined, same,
    strip_prefix, texts,
};

verus! {

/// A group of calibrated values with a fingerprint of its own.
#[derive(Debug, Clone, Copy, PartialEq, Eq, Structural)]
pub enum CalGroup {
    /// The noise-floor measurements, which depend on the Z kinematics and the
    /// accelerometer.
    NoiseFloor,
    /// The probe resolution, which depends on the Z kinematics and the touch
    /// probe.
    ProbeResolution,
}

/// What the stamp of a group says about it.
#[derive(Debug, Clone, Copy, PartialEq, Eq, Structural)]
pub enum CalTier {
    /// The stamp is the fingerprint of the present configuration.
    Valid,
    /// There is no stamp; the calibration is accepted.
    Legacy,
    /// The stamp differs; the calibration counts as absent.
    Invalid,
}

/// The words of `s`: its longest runs of characters that are not whitespace.
pub open spec fn words(s: Seq<char>) -> Seq<Seq<char>>
    decreases s.len(),
{
    if s.len() == 0 {
        Seq::empty()
    } else {
        let before = words(s.drop_last());
        if is_white(s.last()) {
            before
        } else if s.len() >= 2 && !is_white(s[s.len() - 2]) {
            before.drop_last().push(before.last().push(s.last()))
        } else {
            before.push(seq![s.last()])
        }
    }
}

/// `s` with single blanks between its words and none around them.
pub open spec fn collapsed(s: Seq<char>) -> Seq<char> {
    joined(words(s), " "@)
}

proof fn lemma_words_open(s: Seq<char>)
    requires
        s.len() > 0,
        !is_white(s.last()),
    ensures
        words(s).len() > 0,
        words(s).last().len() > 0,
{
}

/// `s` with its whitespace collapsed.
pub fn collapse_whitespace(s: &str) -> (r: String)
    ensures
        r@ == collapsed(s@),
{
    let h = chars(s);
    let mut out: Vec<String> = Vec::new();
    let mut i: usize = 0;
    let mut open: bool = false;
    assert(h@.take(0) =~= Seq::<char>::empty());
    assert(texts(out@) =~= words(h@.take(0)));
    while i < h.len()
        invariant
            0 <= i <= h@.len(),
            open == (i > 0 && !is_white(h@[i - 1])),
            texts(out@) == words(h@.take(i as int)),
        decreases h@.len() - i,
    {
        let ghost now = h@.take(i + 1);
        let ghost before = texts(out@);
        assert(now.drop_last() =~= h@.take(i as int));
        assert(now.last() == h@[i as int]);
        if is_whitespace(h[i]) {
            open = false;
        } else if open {
            assert(now[now.len() - 2] == h@[i - 1]);
            proof {
                lemma_words_open(h@.take(i as int));
            }
            match out.pop() {
                Some(word) => {
                    let mut word = word;
                    assert(before.last() == word@);
                    word.push(h[i]);
                    out.push(word);
                    assert(texts(out@) =~= before.drop_last().push(word@));
                },
                None => {},
            }
        } else {
            let mut word = String::new();
            word.push(h[i]);
            assert(word@ =~= seq![h@[i as int]]);
            if i > 0 {
                assert(now[now.len() - 2] == h@[i - 1]);
            }
            out.push(word);
            assert(texts(out@) =~= before.push(word@));
            open = true;
        }
        i = i + 1;
    }
    assert(h@.take(i as int) =~= h@);
    join(&out, " ")
}

/// The text that stands for an option's value in a fingerprint: numbers in
/// their canonical spelling, other strings with their whitespace collapsed.
pub open spec fn normalized(v: Json) -> Seq<char> {
    match v.kind {
        Kind::Text(t) => match t.canonical {
            Some(c) => c@,
            None => collapsed(t.value@),
        },
        Kind::Number(n) => match n.canonical {
            Some(c) => c@,
            None => v.spelling@,
        },
        Kind::Bool(b) => if b {
            "true"@
        } else {
            "false"@
        },
        Kind::Null => ""@,
        _ => v.spelling@,
    }
}

/// The text that stands for `v` in a fingerprint.
pub fn normalize_value(v: &Json) -> (r: String)
    ensures
        r@ == normalized(*v),
{
    match &v.kind {
        Kind::Text(t) => match &t.canonical {
            Some(c) => c.clone(),
            None => collapse_whitespace(t.value.as_str()),
        },
        Kind::Number(n) => match &n.canonical {
            Some(c) => c.clone(),
            None => v.spelling.clone(),
        },
        Kind::Bool(b) => if *b {
            "true".to_owned()
        } else {
            "false".to_owned()
        },
        Kind::Null => "".to_owned(),
        _ => v.spelling.clone(),
    }
}

/// Nothing but whitespace.
pub open spec fn blank(s: Seq<char>) -> bool {
    forall|i: int| 0 <= i < s.len() ==> is_white(#[trigger] s[i])
}

/// A word: something, and no whitespace in it.
pub open spec fn is_word(s: Seq<char>) -> bool {
    s.len() > 0 && forall|i: int| 0 <= i < s.len() ==> !is_white(#[trigger] s[i])
}

/// No whitespace around it, and no two characters of whitespace in a row.
pub open spec fn tidy(s: Seq<char>) -> bool {
    &&& s.len() > 0 ==> !is_white(s[0]) && !is_white(s.last())
    &&& forall|i: int| 0 < i < s.len() ==> !(is_white(s[i - 1]) && is_white(#[trigger] s[i]))
}

proof fn lemma_words_are_words(s: Seq<char>)
    ensures
        forall|k: int| 0 <= k < words(s).len() ==> is_word(#[trigger] words(s)[k]),
    decreases s.len(),
{
    if s.len() > 0 {
        lemma_words_are_words(s.drop_last());
        if s.len() >= 2 && !is_white(s[s.len() - 2]) {
            assert(s.drop_last().last() == s[s.len() - 2]);
            lemma_words_open(s.drop_last());
            let before = words(s.drop_last());
            assert(is_word(before[before.len() - 1]));
        }
    }
}

/// Whitespace at the end adds no word.
proof fn lemma_blank_tail(s: Seq<char>, u: Seq<char>)
    requires
        blank(u),
    ensures
        words(s + u) == words(s),
    decreases u.len(),
{
    if u.len() == 0 {
        assert(s + u =~= s);
    } else {
        assert((s + u).drop_last() =~= s + u.drop_last());
        assert(is_white(u[u.len() - 1]));
        assert((s + u).last() == u.last());
        lemma_blank_tail(s, u.drop_last());
    }
}

/// Behind whitespace, or at the start, words are counted afresh.
proof fn lemma_words_split(s: Seq<char>, t: Seq<char>)
    requires
        s.len() == 0 || is_white(s.last()),
    ensures
        words(s + t) == words(s) + words(t),
    decreases t.len(),
{
    let all = s + t;
    if t.len() == 0 {
        assert(all =~= s);
        assert(words(s) + words(t) =~= words(s));
    } else {
        let less = t.drop_last();
        assert(all.drop_last() =~= s + less);
        assert(all.last() == t.last());
        lemma_words_split(s, less);
        let before = words(s) + words(less);
        if is_white(t.last()) {
        } else if t.len() >= 2 && !is_white(t[t.len() - 2]) {
            assert(all[all.len() - 2] == t[t.len() - 2]);
            assert(less.last() == t[t.len() - 2]);
            lemma_words_open(less);
            assert(before.last() == words(less).last());
            assert(before.drop_last().push(before.last().push(t.last())) =~= words(s) + words(t));
        } else {
            if t.len() >= 2 {
                assert(all[all.len() - 2] == t[t.len() - 2]);
            } else if s.len() > 0 {
                assert(all[all.len() - 2] == s.last());
            }
            assert(before.push(seq![t.last()]) =~= words(s) + words(t));
        }
    }
}

proof fn lemma_one_word(w: Seq<char>)
    requires
        is_word(w),
    ensures
        words(w) == seq![w],
    decreases w.len(),
{
    let less = w.drop_last();
    assert(!is_white(w[w.len() - 1]));
    if w.len() == 1 {
        assert(words(less) =~= Seq::<Seq<char>>::empty());
        assert(seq![w.last()] =~= w);
        assert(words(w) =~= seq![w]);
    } else {
        assert(is_word(less)) by {
            assert forall|i: int| 0 <= i < less.len() implies !is_white(#[trigger] less[i]) by {
                assert(less[i] == w[i]);
            }
        }
        lemma_one_word(less);
        assert(!is_white(w[w.len() - 2]));
        assert(less.push(w.last()) =~= w);
        assert(words(w) =~= seq![w]);
    }
}

/// Words that are joined by blanks are read back, and the text is tidy.
proof fn lemma_joined_words(ws: Seq<Seq<char>>)
    requires
        forall|k: int| 0 <= k < ws.len() ==> is_word(#[trigger] ws[k]),
    ensures
        words(joined(ws, " "@)) == ws,
        tidy(joined(ws, " "@)),
        ws.len() > 0 ==> joined(ws, " "@).len() > 0,
    decreases ws.len(),
{
    reveal_strlit(" ");
    let blanks = " "@;
    let all = joined(ws, blanks);
    if ws.len() == 0 {
        assert(words(all) =~= ws);
    } else if ws.len() == 1 {
        lemma_one_word(ws[0]);
        assert(words(all) =~= ws);
        assert(!is_white(all[0]) && !is_white(all[all.len() - 1]));
    } else {
        let front = joined(ws.drop_last(), blanks);
        let w = ws.last();
        assert(is_word(ws[ws.len() - 1]));
        assert forall|k: int| 0 <= k < ws.drop_last().len() implies is_word(
            #[trigger] ws.drop_last()[k],
        ) by {
            assert(ws.drop_last()[k] == ws[k]);
        }
        lemma_joined_words(ws.drop_last());
        assert(blank(blanks));
        lemma_blank_tail(front, blanks);
        assert((front + blanks).last() == ' ');
        lemma_words_split(front + blanks, w);
        lemma_one_word(w);
        assert(words(all) =~= ws);
        let n = front.len();
        assert(all[0] == front[0]);
        assert(all.last() == w[w.len() - 1]);
        assert forall|i: int| 0 < i < all.len() implies !(is_white(all[i - 1]) && is_white(
            #[trigger] all[i],
        )) by {
            if i < n {
                assert(all[i - 1] == front[i - 1] && all[i] == front[i]);
            } else if i == n {
                assert(all[i - 1] == front.last());
            } else {
                assert(all[i] == w[i - n - 1]);
            }
        }
    }
}

/// Collapsing twice changes nothing, and what is collapsed has no whitespace
/// around it and no two characters of whitespace in a row.
pub proof fn collapsing_twice_changes_nothing(s: Seq<char>)
    ensures
        collapsed(collapsed(s)) == collapsed(s),
        tidy(collapsed(s)),
{
    lemma_words_are_words(s);
    lemma_joined_words(words(s));
}

/// How long a run of whitespace is, and of what, makes no difference; and
/// whitespace around a text makes none either.
pub proof fn runs_of_whitespace_are_alike(
    a: Seq<char>,
    u: Seq<char>,
    v: Seq<char>,
    b: Seq<char>,
)
    requires
        blank(u),
        blank(v),
    ensures
        u.len() > 0 && v.len() > 0 ==> collapsed(a + u + b) == collapsed(a + v + b),
        collapsed(u + b) == collapsed(b),
        collapsed(a + u) == collapsed(a),
{
    lemma_blank_tail(a, u);
    lemma_blank_tail(a, v);
    if u.len() > 0 && v.len() > 0 {
        assert((a + u).last() == u[u.len() - 1]);
        assert((a + v).last() == v[v.len() - 1]);
        lemma_words_split(a + u, b);
        lemma_words_split(a + v, b);
    }
    lemma_blank_tail(Seq::empty(), u);
    assert(Seq::<char>::empty() + u =~= u);
    if u.len() > 0 {
        assert(is_white(u[u.len() - 1]));
    }
    lemma_words_split(u, b);
    assert(words(u) + words(b) =~= words(b));
}

/// The canonical spelling of the number that a text reads as.
pub open spec fn numeral(t: Text) -> Option<Seq<char>> {
    match t.canonical {
        Some(c) => Some(c@),
        None => None,
    }
}

/// Normalizing twice changes nothing: a text that holds what `t` normalizes to,
/// and that reads as the same number or as none, as `t` does, normalizes to
/// that again. Texts that read as the same number normalize alike, and so do
/// texts that read as none and differ in whitespace alone; one that reads as none
/// normalizes to a text without needless whitespace. What number a text reads as
/// is decided by floating point, before a text gets here.
pub proof fn normalizing_twice_changes_nothing(v: Json, again: Json, t: Text, u: Text)
    requires
        v.kind == Kind::Text(t),
        again.kind == Kind::Text(u),
        numeral(u) == numeral(t),
    ensures
        u.value@ == normalized(v) ==> normalized(again) == normalized(v),
        numeral(t) is Some ==> normalized(again) == normalized(v),
        words(u.value@) == words(t.value@) ==> normalized(again) == normalized(v),
        numeral(t) is None ==> tidy(normalized(v)),
{
    collapsing_twice_changes_nothing(t.value@);
}

/// The keys of an object, in its order.
pub open spec fn keys_of(members: Seq<Member>) -> Seq<Seq<char>> {
    members.map_values(|m: Member| m.key@)
}

/// One line for each of the first `n` keys that the object has.
pub open spec fn option_lines(members: Seq<Member>, keys: Seq<Seq<char>>, n: nat) -> Seq<Seq<char>>
    decreases n,
{
    if n == 0 {
        Seq::empty()
    } else {
        let before = option_lines(members, keys, (n - 1) as nat);
        match member(members, keys[n - 1]) {
            Some(v) => before.push(keys[n - 1] + "="@ + normalized(v)),
            None => before,
        }
    }
}

/// The lines of one section: its header, then its options in the order of their
/// keys. None for a section that is not there.
pub open spec fn section_lines(sections: Seq<Member>, name: Seq<char>) -> Seq<Seq<char>> {
    match member(sections, name) {
        Some(v) => if v.kind is Object {
            let keys = in_order(keys_of(members_of(v)));
            seq!["["@ + name + "]"@] + option_lines(members_of(v), keys, keys.len())
        } else {
            Seq::empty()
        },
        None => Seq::empty(),
    }
}

/// The lines of the first `n` of the named sections.
pub open spec fn slice_lines(sections: Seq<Member>, names: Seq<Seq<char>>, n: nat) -> Seq<Seq<char>>
    decreases n,
{
    if n == 0 {
        Seq::empty()
    } else {
        slice_lines(sections, names, (n - 1) as nat) + section_lines(sections, names[n - 1])
    }
}

/// The lines of the `[plr]` block: its header, then the selected options that
/// are there.
pub open spec fn selection_lines(sections: Seq<Member>, selected: Seq<Seq<char>>) -> Seq<Seq<char>> {
    let keys = in_order(selected);
    seq!["[plr]"@] + match member(sections, "plr"@) {
        Some(v) => option_lines(members_of(v), keys, keys.len()),
        None => Seq::empty(),
    }
}

/// The canonical form of a slice of the configuration: the named sections in
/// the order of their names, then the selected options of `[plr]`, a line each.
pub open spec fn canonical(
    sections: Seq<Member>,
    names: Seq<Seq<char>>,
    selected: Seq<Seq<char>>,
) -> Seq<char> {
    let ordered = in_order(names);
    joined(
        slice_lines(sections, ordered, ordered.len()) + selection_lines(sections, selected),
        "\n"@,
    )
}

fn push_options(parts: &mut Vec<String>, members: &Vec<Member>, keys: &Vec<String>)
    ensures
        texts(final(parts)@) == texts(old(parts)@) + option_lines(
            members@,
            texts(keys@),
            keys@.len(),
        ),
{
    let ghost given = texts(parts@);
    let ghost names = texts(keys@);
    let mut i: usize = 0;
    assert(given + option_lines(members@, names, 0) =~= given);
    while i < keys.len()
        invariant
            0 <= i <= keys@.len(),
            names == texts(keys@),
            texts(parts@) == given + option_lines(members@, names, i as nat),
        decreases keys@.len() - i,
    {
        let ghost before = texts(parts@);
        match get(members, keys[i].as_str()) {
            Some(v) => {
                let mut line = keys[i].clone();
                line.append("=");
                let text = normalize_value(v);
                line.append(text.as_str());
                parts.push(line);
                assert(texts(parts@) =~= before.push(line@));
            },
            None => {},
        }
        assert(texts(parts@) =~= given + option_lines(members@, names, (i + 1) as nat));
        i = i + 1;
    }
}

fn key_list(members: &Vec<Member>) -> (r: Vec<String>)
    ensures
        texts(r@) == keys_of(members@),
{
    let mut out: Vec<String> = Vec::new();
    let mut i: usize = 0;
    assert(texts(out@) =~= keys_of(members@).take(0));
    while i < members.len()
        invariant
            0 <= i <= members@.len(),
            texts(out@) == keys_of(members@).take(i as int),
        decreases members@.len() - i,
    {
        let ghost before = texts(out@);
        out.push(members[i].key.clone());
        assert(texts(out@) =~= before.push(members@[i as int].key@));
        assert(texts(out@) =~= keys_of(members@).take(i + 1));
        i = i + 1;
    }
    assert(keys_of(members@).take(i as int) =~= keys_of(members@));
    out
}

fn push_section(parts: &mut Vec<String>, sections: &Vec<Member>, name: &String)
    ensures
        texts(final(parts)@) == texts(old(parts)@) + section_lines(sections@, name@),
{
    let ghost given = texts(parts@);
    assert(given + Seq::<Seq<char>>::empty() =~= given);
    if let Some(v) = get(sections, name.as_str()) {
        if let Some(body) = v.as_object() {
            let mut header = "[".to_owned();
            header.append(name.as_str());
            header.append("]");
            parts.push(header);
            assert(texts(parts@) =~= given + seq![header@]);
            let keys = sort(key_list(body));
            assert(keys@.len() == texts(keys@).len());
            push_options(parts, body, &keys);
            assert(texts(parts@) =~= given + section_lines(sections@, name@));
        }
    }
}

/// The canonical form of a slice of the configuration.
pub fn canonical_string(
    sections: &Vec<Member>,
    names: Vec<String>,
    selected: Vec<String>,
) -> (r: String)
    ensures
        r@ == canonical(sections@, texts(names@), texts(selected@)),
{
    let ghost ordered = in_order(texts(names@));
    let ghost picks = texts(selected@);
    let names = sort(names);
    let mut parts: Vec<String> = Vec::new();
    let mut i: usize = 0;
    assert(texts(parts@) =~= slice_lines(sections@, ordered, 0));
    while i < names.len()
        invariant
            0 <= i <= names@.len(),
            ordered == texts(names@),
            texts(parts@) == slice_lines(sections@, ordered, i as nat),
        decreases names@.len() - i,
    {
        push_section(&mut parts, sections, &names[i]);
        i = i + 1;
    }
    let ghost slice = texts(parts@);
    assert(names@.len() == ordered.len());
    parts.push("[plr]".to_owned());
    assert(texts(parts@) =~= slice + seq!["[plr]"@]);
    if let Some(v) = get(sections, "plr") {
        if let Some(plr) = v.as_object() {
            let keys = sort(selected);
            assert(keys@.len() == texts(keys@).len());
            push_options(&mut parts, plr, &keys);
        } else {
            proof {
                lemma_no_options(in_order(picks), in_order(picks).len());
            }
        }
    }
    assert(texts(parts@) =~= slice + selection_lines(sections@, picks));
    join(&parts, "\n")
}

proof fn lemma_no_options(keys: Seq<Seq<char>>, n: nat)
    ensures
        option_lines(Seq::<Member>::empty(), keys, n) == Seq::<Seq<char>>::empty(),
    decreases n,
{
    if n > 0 {
        lemma_no_options(keys, (n - 1) as nat);
    }
}

/// The fingerprint of a slice of the configuration.
pub open spec fn print_of(
    sections: Seq<Member>,
    names: Seq<Seq<char>>,
    selected: Seq<Seq<char>>,
) -> Seq<char> {
    hex(crc32(vstd::utf8::encode_utf8(canonical(sections, names, selected))) as nat, 8)
}

/// The fingerprint over an explicit selection of sections and `[plr]` options.
pub fn fingerprint(sections: &Vec<Member>, names: Vec<String>, selected: Vec<String>) -> (r: String)
    ensures
        r@ == print_of(sections@, texts(names@), texts(selected@)),
{
    let text = canonical_string(sections, names, selected);
    crc32_hex(text.as_str().as_bytes())
}

/// `name` is a Z stepper's section: `stepper_z` with nothing but digits behind.
pub open spec fn names_z_stepper(name: Seq<char>) -> bool {
    begins(name, "stepper_z"@) && all_digits(name.skip("stepper_z"@.len() as int))
}

/// Whether a section is a Z stepper's.
pub fn is_z_stepper(section: &str) -> (r: bool)
    ensures
        r == names_z_stepper(section@),
{
    match strip_prefix(section, "stepper_z") {
        Some(rest) => {
            let h = chars(rest.as_str());
            let mut i: usize = 0;
            while i < h.len()
                invariant
                    0 <= i <= h@.len(),
                    h@ == section@.skip("stepper_z"@.len() as int),
                    forall|j: int| 0 <= j < i ==> is_digit(#[trigger] h@[j]),
                decreases h@.len() - i,
            {
                if !('0' <= h[i] && h[i] <= '9') {
                    assert(!is_digit(h@[i as int]));
                    return false;
                }
                i = i + 1;
            }
            true
        },
        None => false,
    }
}

/// The section of the touch probe behind a probe method; the drag has none.
pub open spec fn probe_section(method: Seq<char>) -> Option<Seq<char>> {
    if method == "tap"@ {
        Some("probe"@)
    } else if method == "load_cell"@ {
        Some("load_cell_probe"@)
    } else {
        None
    }
}

/// The section of the touch probe behind a probe method.
pub fn probe_section_for(method: &str) -> (r: Option<&'static str>)
    ensures
        match r {
            Some(s) => probe_section(method@) == Some(s@),
            None => probe_section(method@) is None,
        },
{
    if same(method, "tap") {
        Some("probe")
    } else if same(method, "load_cell") {
        Some("load_cell_probe")
    } else {
        None
    }
}

/// The Z stepper sections among the first `n`.
pub open spec fn z_sections(config: Seq<Member>, n: nat) -> Seq<Seq<char>>
    decreases n,
{
    if n == 0 {
        Seq::empty()
    } else {
        let before = z_sections(config, (n - 1) as nat);
        if names_z_stepper(config[n - 1].key@) {
            before.push(config[n - 1].key@)
        } else {
            before
        }
    }
}

/// The sections that a group depends on.
pub open spec fn relevant_sections(
    config: Seq<Member>,
    plr: PlrSettings,
    group: CalGroup,
) -> Seq<Seq<char>> {
    let names = z_sections(config, config.len());
    match group {
        CalGroup::ProbeResolution => match probe_section(plr.probe_method@) {
            Some(section) => names.push(section),
            None => names,
        },
        CalGroup::NoiseFloor => if plr.accel_chip@.len() > 0 {
            names.push(plr.accel_chip@)
        } else {
            names
        },
    }
}

/// The names of the sections that a group depends on.
pub fn relevant_section_names(config: &Vec<Member>, plr: &PlrSettings, group: CalGroup) -> (r: Vec<
    String,
>)
    ensures
        texts(r@) == relevant_sections(config@, *plr, group),
{
    let mut names: Vec<String> = Vec::new();
    let mut i: usize = 0;
    assert(texts(names@) =~= z_sections(config@, 0));
    while i < config.len()
        invariant
            0 <= i <= config@.len(),
            texts(names@) == z_sections(config@, i as nat),
        decreases config@.len() - i,
    {
        let ghost before = texts(names@);
        if is_z_stepper(config[i].key.as_str()) {
            names.push(config[i].key.clone());
            assert(texts(names@) =~= before.push(config@[i as int].key@));
        }
        i = i + 1;
    }
    let ghost before = texts(names@);
    match group {
        CalGroup::ProbeResolution => {
            if let Some(section) = probe_section_for(plr.probe_method.as_str()) {
                names.push(section.to_owned());
                assert(texts(names@) =~= before.push(section@));
            }
        },
        CalGroup::NoiseFloor => {
            if !plr.accel_chip.as_str().is_empty() {
                names.push(plr.accel_chip.clone());
                assert(texts(names@) =~= before.push(plr.accel_chip@));
            }
        },
    }
    names
}

/// The `[plr]` options that a group depends on.
pub open spec fn selected_keys(group: CalGroup) -> Seq<Seq<char>> {
    match group {
        CalGroup::ProbeResolution => seq!["probe_method"@],
        CalGroup::NoiseFloor => seq!["accel_chip"@, "probe_method"@],
    }
}

/// The `[plr]` options that a group depends on.
pub fn plr_keys(group: CalGroup) -> (r: Vec<String>)
    ensures
        texts(r@) == selected_keys(group),
{
    let mut keys: Vec<String> = Vec::new();
    match group {
        CalGroup::ProbeResolution => {},
        CalGroup::NoiseFloor => {
            keys.push("accel_chip".to_owned());
        },
    }
    keys.push("probe_method".to_owned());
    assert(texts(keys@) =~= selected_keys(group));
    keys
}

/// The fingerprint of what a group depends on. `config` is the configuration as
/// it is written in the file, without injected defaults.
pub open spec fn fingerprint_of(config: Seq<Member>, plr: PlrSettings, group: CalGroup) -> Seq<
    char,
> {
    print_of(config, relevant_sections(config, plr, group), selected_keys(group))
}

/// The fingerprint of what a group depends on.
pub fn compute_fingerprint(config: &Vec<Member>, plr: &PlrSettings, group: CalGroup) -> (r: String)
    ensures
        r@ == fingerprint_of(config@, *plr, group),
{
    let names = relevant_section_names(config, plr, group);
    fingerprint(config, names, plr_keys(group))
}

/// The stamp of a group.
pub open spec fn stamp(plr: PlrSettings, group: CalGroup) -> Option<String> {
    match group {
        CalGroup::NoiseFloor => plr.cal_fingerprint_noise_floor,
        CalGroup::ProbeResolution => plr.cal_fingerprint_probe_resolution,
    }
}

/// What the stamp of a group says about it.
pub open spec fn tier(config: Seq<Member>, plr: PlrSettings, group: CalGroup) -> CalTier {
    match stamp(plr, group) {
        None => CalTier::Legacy,
        Some(s) => if s@ == fingerprint_of(config, plr, group) {
            CalTier::Valid
        } else {
            CalTier::Invalid
        },
    }
}

/// Classifies a group: its tier, its stamp, and the present fingerprint.
pub fn validate_group(config: &Vec<Member>, plr: &PlrSettings, group: CalGroup) -> (r: (
    CalTier,
    Option<String>,
    String,
))
    ensures
        r.0 == tier(config@, *plr, group),
        r.1 == stamp(*plr, group),
        r.2@ == fingerprint_of(config@, *plr, group),
{
    let current = compute_fingerprint(config, plr, group);
    let stored = match group {
        CalGroup::NoiseFloor => &plr.cal_fingerprint_noise_floor,
        CalGroup::ProbeResolution => &plr.cal_fingerprint_probe_resolution,
    };
    match stored {
        None => (CalTier::Legacy, None, current),
        Some(s) => {
            let verdict = if same(s.as_str(), current.as_str()) {
                CalTier::Valid
            } else {
                CalTier::Invalid
            };
            (verdict, Some(s.clone()), current)
        },
    }
}

/// The complaint about a stamp that differs from the present fingerprint.
pub open spec fn mismatch(
    config: Seq<Member>,
    plr: PlrSettings,
    group: CalGroup,
    what: Seq<char>,
    advice: Seq<char>,
) -> Seq<char> {
    what + " calibration fingerprint mismatch (staged "@ + (match stamp(plr, group) {
        Some(s) => s@,
        None => "<none>"@,
    }) + ", recomputed "@ + fingerprint_of(config, plr, group) + ") — "@ + advice
}

fn mismatch_text(what: &str, stored: &Option<String>, current: &str, advice: &str) -> (r: String)
    ensures
        r@ == what@ + " calibration fingerprint mismatch (staged "@ + (match *stored {
            Some(s) => s@,
            None => "<none>"@,
        }) + ", recomputed "@ + current@ + ") — "@ + advice@,
{
    let mut out = what.to_owned();
    out.append(" calibration fingerprint mismatch (staged ");
    match stored {
        Some(s) => out.append(s.as_str()),
        None => out.append("<none>"),
    }
    out.append(", recomputed ");
    out.append(current);
    out.append(") — ");
    out.append(advice);
    out
}

/// The advice after a noise-floor mismatch.
pub const RECALIBRATE_NOISE: &'static str =
    "treating the noise floor as uncalibrated; re-run PLR_NOISE_TEST";

/// The advice after a probe-resolution mismatch.
pub const RECALIBRATE_PROBE: &'static str =
    "ignore the stored probe_resolution; re-run PLR_PROBE_TEST";

/// The note on a noise floor without a stamp.
pub const LEGACY_NOISE: &'static str = "noise-floor calibration predates fingerprint stamping (legacy) — accepted without a fingerprint cross-check; re-run PLR_NOISE_TEST to stamp it";

/// The noise floor that counts: none when its stamp differs.
pub open spec fn gated(config: Seq<Member>, plr: PlrSettings) -> Option<Num> {
    if tier(config, plr, CalGroup::NoiseFloor) == CalTier::Invalid {
        None
    } else {
        representative(measured(plr.noise_floor@))
    }
}

/// What there is to say about the noise floor's calibration.
pub open spec fn noise_notes(config: Seq<Member>, plr: PlrSettings) -> Seq<Seq<char>> {
    if representative(measured(plr.noise_floor@)) is None {
        Seq::empty()
    } else {
        match tier(config, plr, CalGroup::NoiseFloor) {
            CalTier::Invalid => seq![
                mismatch(
                    config,
                    plr,
                    CalGroup::NoiseFloor,
                    "noise-floor"@,
                    RECALIBRATE_NOISE@,
                ),
            ],
            CalTier::Legacy => seq![LEGACY_NOISE@],
            CalTier::Valid => Seq::empty(),
        }
    }
}

/// What there is to say about the probe resolution's calibration.
pub open spec fn probe_notes(config: Seq<Member>, plr: PlrSettings) -> Seq<Seq<char>> {
    if plr.probe_resolution is Some && tier(config, plr, CalGroup::ProbeResolution)
        == CalTier::Invalid {
        seq![
            mismatch(
                config,
                plr,
                CalGroup::ProbeResolution,
                "probe_resolution"@,
                RECALIBRATE_PROBE@,
            ),
        ]
    } else {
        Seq::empty()
    }
}

/// The noise floor that counts, with a note when there is something to say.
pub fn gated_noise_floor(config: &Vec<Member>, plr: &PlrSettings, notes: &mut Vec<String>) -> (r:
    Option<Num>)
    ensures
        r == gated(config@, *plr),
        texts(final(notes)@) == texts(old(notes)@) + noise_notes(config@, *plr),
{
    let ghost given = texts(notes@);
    assert(given + Seq::<Seq<char>>::empty() =~= given);
    let floor = plr.representative_noise_floor();
    if floor.is_none() {
        return floor;
    }
    let (verdict, stored, current) = validate_group(config, plr, CalGroup::NoiseFloor);
    match verdict {
        CalTier::Invalid => {
            notes.push(mismatch_text("noise-floor", &stored, current.as_str(), RECALIBRATE_NOISE));
            assert(texts(notes@) =~= given + noise_notes(config@, *plr));
            None
        },
        CalTier::Legacy => {
            notes.push(LEGACY_NOISE.to_owned());
            assert(texts(notes@) =~= given + noise_notes(config@, *plr));
            floor
        },
        CalTier::Valid => floor,
    }
}

/// Notes a probe resolution whose calibration is stale.
pub fn note_stale_probe_resolution(
    config: &Vec<Member>,
    plr: &PlrSettings,
    notes: &mut Vec<String>,
)
    ensures
        texts(final(notes)@) == texts(old(notes)@) + probe_notes(config@, *plr),
{
    let ghost given = texts(notes@);
    assert(given + Seq::<Seq<char>>::empty() =~= given);
    if plr.probe_resolution.is_none() {
        return;
    }
    let (verdict, stored, current) = validate_group(config, plr, CalGroup::ProbeResolution);
    if verdict == CalTier::Invalid {
        notes.push(
            mismatch_text("probe_resolution", &stored, current.as_str(), RECALIBRATE_PROBE),
        );
        assert(texts(notes@) =~= given + probe_notes(config@, *plr));
    }
}

proof fn lemma_same_options(a: Seq<Member>, b: Seq<Member>, keys: Seq<Seq<char>>, n: nat)
    requires
        n <= keys.len(),
        forall|i: int|
            0 <= i < keys.len() ==> member(a, #[trigger] keys[i]) == member(b, keys[i]),
    ensures
        option_lines(a, keys, n) == option_lines(b, keys, n),
    decreases n,
{
    if n > 0 {
        lemma_same_options(a, b, keys, (n - 1) as nat);
    }
}

proof fn lemma_same_slice(a: Seq<Member>, b: Seq<Member>, names: Seq<Seq<char>>, n: nat)
    requires
        n <= names.len(),
        forall|i: int|
            0 <= i < names.len() ==> member(a, #[trigger] names[i]) == member(b, names[i]),
    ensures
        slice_lines(a, names, n) == slice_lines(b, names, n),
    decreases n,
{
    if n > 0 {
        lemma_same_slice(a, b, names, (n - 1) as nat);
    }
}

proof fn lemma_each_sorted(s: Seq<Seq<char>>, i: int)
    requires
        0 <= i < in_order(s).len(),
    ensures
        s.contains(in_order(s)[i]),
{
    broadcast use vstd::seq_lib::group_to_multiset_ensures;

    sorting_orders_and_keeps(s);
    let x = in_order(s)[i];
    assert(in_order(s).contains(x));
    assert(in_order(s).to_multiset().count(x) == s.to_multiset().count(x));
}

/// The `[plr]` options of a configuration.
pub open spec fn plr_options(config: Seq<Member>) -> Seq<Member> {
    match member(config, "plr"@) {
        Some(v) => members_of(v),
        None => Seq::empty(),
    }
}

/// A fingerprint depends on nothing but its slice: two configurations in which
/// the group's sections and its selected `[plr]` options are the same have the
/// same fingerprint, whatever else they hold.
pub proof fn a_fingerprint_depends_on_its_slice_alone(
    a: Seq<Member>,
    b: Seq<Member>,
    plr: PlrSettings,
    group: CalGroup,
)
    requires
        relevant_sections(a, plr, group) == relevant_sections(b, plr, group),
        forall|name: Seq<char>|
            relevant_sections(a, plr, group).contains(name) ==> #[trigger] member(a, name)
                == member(b, name),
        forall|key: Seq<char>|
            selected_keys(group).contains(key) ==> #[trigger] member(plr_options(a), key)
                == member(plr_options(b), key),
    ensures
        fingerprint_of(a, plr, group) == fingerprint_of(b, plr, group),
{
    let names = relevant_sections(a, plr, group);
    let ordered = in_order(names);
    assert forall|i: int| 0 <= i < ordered.len() implies member(a, #[trigger] ordered[i])
        == member(b, ordered[i]) by {
        lemma_each_sorted(names, i);
    }
    lemma_same_slice(a, b, ordered, ordered.len());
    let keys = in_order(selected_keys(group));
    assert forall|i: int| 0 <= i < keys.len() implies member(plr_options(a), #[trigger] keys[i])
        == member(plr_options(b), keys[i]) by {
        lemma_each_sorted(selected_keys(group), i);
    }
    lemma_same_options(plr_options(a), plr_options(b), keys, keys.len());
    lemma_no_options(keys, keys.len());
}

proof fn lemma_same_sections(a: Seq<Member>, b: Seq<Member>, name: Seq<char>)
    requires
        same_section(member(a, name), member(b, name)),
    ensures
        section_lines(a, name) == section_lines(b, name),
{
    if let (Some(x), Some(y)) = (member(a, name), member(b, name)) {
        if x.kind is Object && y.kind is Object {
            let p = members_of(x);
            let q = members_of(y);
            sorting_forgets_the_order(keys_of(p), keys_of(q));
            let keys = in_order(keys_of(p));
            lemma_same_options(p, q, keys, keys.len());
        }
    }
}

/// Two sections hold the same options with the same values, in whatever order.
pub open spec fn same_section(a: Option<Json>, b: Option<Json>) -> bool {
    match (a, b) {
        (Some(x), Some(y)) => {
            &&& x.kind is Object <==> y.kind is Object
            &&& keys_of(members_of(x)).to_multiset() == keys_of(members_of(y)).to_multiset()
            &&& forall|key: Seq<char>| #[trigger]
                member(members_of(x), key) == member(members_of(y), key)
        },
        (None, None) => true,
        _ => false,
    }
}

proof fn lemma_reordered_slice(a: Seq<Member>, b: Seq<Member>, names: Seq<Seq<char>>, n: nat)
    requires
        n <= names.len(),
        forall|name: Seq<char>| #[trigger] same_section(member(a, name), member(b, name)),
    ensures
        slice_lines(a, names, n) == slice_lines(b, names, n),
    decreases n,
{
    if n > 0 {
        lemma_reordered_slice(a, b, names, (n - 1) as nat);
        assert(same_section(member(a, names[n - 1]), member(b, names[n - 1])));
        lemma_same_sections(a, b, names[n - 1]);
    }
}

/// The order of sections and options in the file does not matter: a
/// configuration with the same sections and options in another order has the
/// same fingerprint.
pub proof fn a_fingerprint_forgets_the_order_of_the_file(
    a: Seq<Member>,
    b: Seq<Member>,
    names: Seq<Seq<char>>,
    others: Seq<Seq<char>>,
    selected: Seq<Seq<char>>,
)
    requires
        names.to_multiset() == others.to_multiset(),
        forall|name: Seq<char>| #[trigger] same_section(member(a, name), member(b, name)),
    ensures
        print_of(a, names, selected) == print_of(b, others, selected),
{
    sorting_forgets_the_order(names, others);
    let ordered = in_order(names);
    lemma_reordered_slice(a, b, ordered, ordered.len());
    let keys = in_order(selected);
    assert(same_section(member(a, "plr"@), member(b, "plr"@)));
    lemma_same_options(plr_options(a), plr_options(b), keys, keys.len());
    lemma_no_options(keys, keys.len());
}

/// A stale calibration is never accepted: where there is a noise floor, its
/// stamp is missing or is the fingerprint of the present configuration.
pub proof fn a_stale_noise_floor_counts_as_absent(config: Seq<Member>, plr: PlrSettings)
    ensures
        gated(config, plr) is Some ==> match plr.cal_fingerprint_noise_floor {
            Some(s) => s@ == fingerprint_of(config, plr, CalGroup::NoiseFloor),
            None => true,
        },
        (plr.cal_fingerprint_noise_floor matches Some(s) && s@ != fingerprint_of(
            config,
            plr,
            CalGroup::NoiseFloor,
        )) ==> gated(config, plr) is None,
        plr.cal_fingerprint_noise_floor is None ==> gated(config, plr) == representative(
            measured(plr.noise_floor@),
        ),
{
}

/// Collapsing keeps every word, in its order, with one blank between each two: a
/// word is kept as it is, and one behind whitespace is added to those before it.
pub proof fn collapsing_keeps_every_word(a: Seq<char>, u: Seq<char>, w: Seq<char>)
    requires
        blank(u),
        u.len() > 0,
        is_word(w),
    ensures
        words(w) == seq![w],
        collapsed(w) == w,
        words(a + u + w) == words(a).push(w),
        words(a).len() > 0 ==> collapsed(a + u + w) == collapsed(a) + " "@ + w,
        words(u) == Seq::<Seq<char>>::empty(),
{
    lemma_one_word(w);
    lemma_words_split(a + u, w);
    lemma_blank_tail(a, u);
    assert(words(a) + seq![w] =~= words(a).push(w));
    assert(words(a).push(w).drop_last() =~= words(a));
    let none = Seq::<char>::empty();
    lemma_blank_tail(none, u);
    assert(none + u =~= u);
}

/// A value is normalized by what it is: a numeral by its canonical form, any other
/// text by its words, a boolean by its name, and nothing by nothing.
pub proof fn a_value_is_normalized_by_what_it_is(v: Json)
    ensures
        v.kind matches Kind::Text(t) ==> match t.canonical {
            Some(c) => normalized(v) == c@,
            None => normalized(v) == collapsed(t.value@),
        },
        v.kind matches Kind::Number(n) ==> (n.canonical matches Some(c) ==> normalized(v) == c@),
        v.kind == Kind::Bool(true) ==> normalized(v) == "true"@,
        v.kind == Kind::Bool(false) ==> normalized(v) == "false"@,
        v.kind is Null ==> normalized(v).len() == 0,
{
    reveal_strlit("");
}

proof fn lemma_option_stands(members: Seq<Member>, keys: Seq<Seq<char>>, n: nat, i: int, v: Json)
    requires
        0 <= i < n <= keys.len(),
        member(members, keys[i]) == Some(v),
    ensures
        option_lines(members, keys, n).contains(keys[i] + "="@ + normalized(v)),
    decreases n,
{
    let line = keys[i] + "="@ + normalized(v);
    let all = option_lines(members, keys, n);
    if i == n - 1 {
        assert(all.last() == line);
        assert(all[all.len() - 1] == line);
    } else {
        lemma_option_stands(members, keys, (n - 1) as nat, i, v);
        let before = option_lines(members, keys, (n - 1) as nat);
        let k = choose|k: int| 0 <= k < before.len() && before[k] == line;
        assert(all[k] == line);
    }
}

proof fn lemma_sorted_holds(s: Seq<Seq<char>>, x: Seq<char>)
    requires
        s.contains(x),
    ensures
        in_order(s).contains(x),
{
    broadcast use vstd::seq_lib::group_to_multiset_ensures;

    sorting_orders_and_keeps(s);
    assert(s.to_multiset().count(x) > 0);
    assert(in_order(s).to_multiset().count(x) == s.to_multiset().count(x));
}

proof fn lemma_slice_holds(
    sections: Seq<Member>,
    names: Seq<Seq<char>>,
    n: nat,
    i: int,
    line: Seq<char>,
)
    requires
        0 <= i < n <= names.len(),
        section_lines(sections, names[i]).contains(line),
    ensures
        slice_lines(sections, names, n).contains(line),
    decreases n,
{
    let before = slice_lines(sections, names, (n - 1) as nat);
    let last = section_lines(sections, names[n - 1]);
    let all = before + last;
    if i == n - 1 {
        let k = choose|k: int| 0 <= k < last.len() && last[k] == line;
        assert(all[before.len() + k] == line);
    } else {
        lemma_slice_holds(sections, names, (n - 1) as nat, i, line);
        let k = choose|k: int| 0 <= k < before.len() && before[k] == line;
        assert(all[k] == line);
    }
}

/// Every option of a section that a calibration depends on stands in the text that
/// is fingerprinted, by its key and its normalized value, behind the section's name.
pub proof fn every_option_of_the_slice_is_fingerprinted(
    sections: Seq<Member>,
    names: Seq<Seq<char>>,
    name: Seq<char>,
    section: Json,
    key: Seq<char>,
    v: Json,
)
    requires
        names.contains(name),
        member(sections, name) == Some(section),
        section.kind is Object,
        member(members_of(section), key) == Some(v),
        keys_of(members_of(section)).contains(key),
    ensures
        slice_lines(sections, in_order(names), in_order(names).len()).contains(
            key + "="@ + normalized(v),
        ),
        slice_lines(sections, in_order(names), in_order(names).len()).contains("["@ + name + "]"@),
{
    lemma_sorted_holds(names, name);
    let ordered = in_order(names);
    let i = choose|i: int| 0 <= i < ordered.len() && ordered[i] == name;
    let keys = in_order(keys_of(members_of(section)));
    lemma_sorted_holds(keys_of(members_of(section)), key);
    let j = choose|j: int| 0 <= j < keys.len() && keys[j] == key;
    lemma_option_stands(members_of(section), keys, keys.len(), j, v);
    let options = option_lines(members_of(section), keys, keys.len());
    let lines = section_lines(sections, name);
    let line = key + "="@ + normalized(v);
    let k = choose|k: int| 0 <= k < options.len() && options[k] == line;
    assert(lines[k + 1] == line);
    assert(lines[0] == "["@ + name + "]"@);
    lemma_slice_holds(sections, ordered, ordered.len(), i, line);
    lemma_slice_holds(sections, ordered, ordered.len(), i, "["@ + name + "]"@);
}

/// Every selected option of the `[plr]` section stands in the text too, and the
/// text ends with that section.
pub proof fn every_selected_option_is_fingerprinted(
    sections: Seq<Member>,
    selected: Seq<Seq<char>>,
    key: Seq<char>,
    v: Json,
)
    requires
        selected.contains(key),
        member(plr_options(sections), key) == Some(v),
    ensures
        selection_lines(sections, selected).contains(key + "="@ + normalized(v)),
        selection_lines(sections, selected)[0] == "[plr]"@,
{
    lemma_sorted_holds(selected, key);
    let keys = in_order(selected);
    let j = choose|j: int| 0 <= j < keys.len() && keys[j] == key;
    let options = option_lines(plr_options(sections), keys, keys.len());
    lemma_option_stands(plr_options(sections), keys, keys.len(), j, v);
    let line = key + "="@ + normalized(v);
    let k = choose|k: int| 0 <= k < options.len() && options[k] == line;
    let lines = selection_lines(sections, selected);
    if member(sections, "plr"@) is None {
        assert(plr_options(sections) =~= Seq::<Member>::empty());
    }
    assert(lines[k + 1] == line);
}

} // verus!
