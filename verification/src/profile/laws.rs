//! What holds of the values in a profile.
use vstd::prelude::*;

use crate::profile::deltat::{at, clock_spec, components_spec, days_spec, decimal, deltat_spec, digits_end, num2_spec, num_spec, total_spec, unit_spec};
use crate::profile::parse::{close_line, equals_line, first_blank, relation_line, std_line, header_line, quoted_spec, star_split, subsection_line, unescaped, NodeV, ParseV};
use crate::profile::{boolean_spec, digits_value, first_spec, integer_spec, lookup_spec, valid_name_spec, values_spec, ProfileErrorV};
use crate::text::{find_char, lower, trim_end};
use vstd::utf8::encode_utf8;

verus! {

/// The words for true and for false, in either case, and no others.
pub proof fn law_truth_values(s: Seq<char>)
    ensures
        boolean_spec(s) == Some(true) ==> lower(s) == "y"@ || lower(s) == "yes"@ || lower(s) == "true"@ || lower(s) == "t"@ || lower(s)
            == "1"@ || lower(s) == "on"@,
        boolean_spec(s) == Some(false) ==> lower(s) == "n"@ || lower(s) == "no"@ || lower(s) == "false"@ || lower(s) == "nil"@ || lower(
            s,
        ) == "0"@ || lower(s) == "off"@,
        lower(s) == "y"@ || lower(s) == "yes"@ || lower(s) == "true"@ || lower(s) == "t"@ || lower(s) == "1"@ || lower(s) == "on"@
            ==> boolean_spec(s) == Some(true),
        lower(s) == "n"@ || lower(s) == "no"@ || lower(s) == "false"@ || lower(s) == "nil"@ || lower(s) == "0"@ || lower(s) == "off"@
            ==> boolean_spec(s) == Some(false),
{
    reveal_strlit("y");
    reveal_strlit("yes");
    reveal_strlit("true");
    reveal_strlit("t");
    reveal_strlit("1");
    reveal_strlit("on");
    reveal_strlit("n");
    reveal_strlit("no");
    reveal_strlit("false");
    reveal_strlit("nil");
    reveal_strlit("0");
    reveal_strlit("off");
    if boolean_spec(s) is Some {
        let w = lower(s);
        assert(w.len() == 1 || w.len() == 2 || w.len() == 3 || w.len() == 4 || w.len() == 5);
    }
    let w = lower(s);
    assert("y"@[0] != "n"@[0] && "t"@[0] != "n"@[0] && "1"@[0] != "n"@[0] && "y"@[0] != "0"@[0] && "t"@[0] != "0"@[0] && "1"@[0]
        != "0"@[0]);
    assert("on"@[0] != "no"@[0] && "yes"@[0] != "nil"@[0] && "yes"@[0] != "off"@[0]);
}

/// A number in decimal: each digit behind another one makes it ten times as
/// much and the digit more; a minus before it makes it negative.
pub proof fn law_decimal(s: Seq<char>, c: char)
    requires
        '0' <= c && c <= '9',
    ensures
        digits_value(s.push(c)) == digits_value(s) * 10 + (c as int - '0' as int),
        digits_value(Seq::empty()) == 0,
        s.len() > 0 && s[0] == '-' && integer_spec(s) is Some ==> integer_spec(s)->0 == -digits_value(s.drop_first()),
        s.len() > 0 && s[0] == '+' && integer_spec(s) is Some ==> integer_spec(s)->0 == digits_value(s.drop_first()),
        s.len() > 0 && s[0] != '-' && s[0] != '+' && integer_spec(s) is Some ==> integer_spec(s)->0 == digits_value(s),
        integer_spec(Seq::empty()) is None,
{
    assert(s.push(c).drop_last() =~= s);
}

/// The units of a span: a day has 86400 seconds, an hour 3600, a minute 60; in
/// a span of several they come in this order, each once.
pub proof fn law_units(b: u8)
    ensures
        unit_spec(0x64) == Some((3nat, 86_400int)),
        unit_spec(0x68) == Some((2nat, 3_600int)),
        unit_spec(0x6d) == Some((1nat, 60int)),
        unit_spec(0x73) == Some((0nat, 1int)),
        b != 0x64 && b != 0x68 && b != 0x6d && b != 0x73 ==> unit_spec(b) is None,
{
}

/// A span in the form of a clock is of hours and minutes, and of seconds where
/// they are given; one with days before a dash is of days, hours, minutes and
/// seconds; one of a number alone is of seconds.
pub proof fn law_clock_spans(b: Seq<u8>, n: int, i: int)
    ensures
        clock_spec(b, n, i) matches Some(t) ==> ({
            let (m, j) = num2_spec(b, i)->0;
            let (s, k) = num2_spec(b, j + 1)->0;
            &&& num2_spec(b, i) is Some
            &&& at(b, j, 0x3a) ==> num2_spec(b, j + 1) is Some && t == 3_600 * n + 60 * m + s
            &&& !at(b, j, 0x3a) ==> t == 3_600 * n + 60 * m
        }),
        days_spec(b, n, i) matches Some(t) ==> ({
            let (h, j) = num2_spec(b, i)->0;
            let (m, k) = num2_spec(b, j + 1)->0;
            let (s, l) = num2_spec(b, k + 1)->0;
            &&& num2_spec(b, i) is Some && num2_spec(b, j + 1) is Some && num2_spec(b, k + 1) is Some
            &&& at(b, j, 0x3a) && at(b, k, 0x3a)
            &&& t == 86_400 * n + 3_600 * h + 60 * m + s
        }),
        total_spec(b) matches Some(t) ==> ({
            let (v, e) = num_spec(b, 0)->0;
            &&& num_spec(b, 0) is Some
            &&& at(b, e, 0x3a) ==> clock_spec(b, v, e + 1) == Some(t)
            &&& !at(b, e, 0x3a) && at(b, e, 0x2d) ==> days_spec(b, v, e + 1) == Some(t)
            &&& e == b.len() ==> t == v
        }),
{
}

/// A span in units is the sum of its parts: each number times its unit.
pub proof fn law_unit_spans(b: Seq<u8>, i: int, rank: nat, total: int)
    requires
        components_spec(b, i, rank, total) is Some,
    ensures
        ({
            let k = crate::profile::deltat::skip_spaces(b, i);
            let (v, e) = num_spec(b, k)->0;
            let (r, m) = unit_spec(b[e])->0;
            &&& k >= b.len() ==> components_spec(b, i, rank, total) == Some(total)
            &&& k < b.len() ==> num_spec(b, k) is Some && e < b.len() && unit_spec(b[e]) is Some && r < rank && components_spec(
                b,
                i,
                rank,
                total,
            ) == components_spec(b, e + 1, r, total + v * m)
        }),
{
}

/// A span is refused where it does not read or 32 bits do not hold it, and is
/// what it reads as otherwise.
pub proof fn law_span_bounds(s: Seq<char>)
    ensures
        ({
            let t = total_spec(encode_utf8(s));
            &&& t is Some && -0x8000_0000 <= t->0 <= 0x7fff_ffff ==> deltat_spec(s) == Ok::<i32, ProfileErrorV>(t->0 as i32)
            &&& t is None || t->0 < -0x8000_0000 || t->0 > 0x7fff_ffff ==> deltat_spec(s) == Err::<i32, ProfileErrorV>(
                ProfileErrorV::BadDeltat(s),
            )
        }),
{
}

/// The values of a name are those of the relations with that name in that
/// section, in the order they stand in; the first of them is the value.
pub proof fn law_values(nodes: Seq<NodeV>, n: NodeV, path: Seq<Seq<char>>, key: Seq<char>)
    ensures
        values_spec(nodes.push(n), path, key) == (if n.path == path && n.name == key && n.value is Some {
            values_spec(nodes, path, key).push(n.value->0)
        } else {
            values_spec(nodes, path, key)
        }),
        lookup_spec(nodes, path.push(key)) == values_spec(nodes, path, key),
        values_spec(nodes, path, key).len() > 0 ==> first_spec(nodes, path.push(key)) == Some(values_spec(nodes, path, key)[0]),
        values_spec(nodes, path, key).len() == 0 ==> first_spec(nodes, path.push(key)) is None,
{
    assert(nodes.push(n).drop_last() =~= nodes);
    assert(path.push(key).drop_last() =~= path);
}

/// In a quoted value a backslash makes a line end of an n, a tab of a t, a
/// backspace of a b and keeps any other character; a quote ends it.
pub proof fn law_quoted_value(s: Seq<char>, c: char)
    ensures
        unescaped('n') == '\n',
        unescaped('t') == '\t',
        unescaped('b') == '\u{8}',
        c != 'n' && c != 't' && c != 'b' ==> unescaped(c) == c,
        quoted_spec(seq!['"'] + s).len() == 0,
        quoted_spec(seq!['\\', c] + s) == seq![unescaped(c)] + quoted_spec(s),
        c != '"' && c != '\\' ==> quoted_spec(seq![c] + s) == seq![c] + quoted_spec(s),
{
    assert((seq!['\\', c] + s).skip(2) =~= s);
    assert((seq![c] + s).drop_first() =~= s);
}

/// A star behind a name makes it final, and is no part of it.
pub proof fn law_final_mark(tag: Seq<char>)
    requires
        find_char(tag, '*') is None,
    ensures
        star_split(tag) == (tag, false),
        star_split(tag.push('*')) == (tag, true),
{
    lemma_find_pushed(tag);
    assert(tag.push('*').take(tag.len() as int) =~= tag);
}

proof fn lemma_find_pushed(tag: Seq<char>)
    requires
        find_char(tag, '*') is None,
    ensures
        find_char(tag.push('*'), '*') == Some(tag.len() as int),
    decreases tag.len(),
{
    if tag.len() > 0 {
        assert(tag.push('*').drop_first() =~= tag.drop_first().push('*'));
        lemma_find_pushed(tag.drop_first());
    }
}

/// A section header opens the section it names at the top; a relation's node
/// stands in the section that is open; a brace opens one below it and its
/// partner closes that.
pub proof fn law_sections(p: ParseV, cp: Seq<char>, tag: Seq<char>)
    ensures
        header_line(p, cp) matches Ok(q) ==> q.st.level == 1 && q.st.path.len() == 1 && (find_char(cp.drop_first(), ']') matches Some(
            i,
        ) && q.st.path[0] == cp.drop_first().take(i)),
        p.st.level > 1 ==> header_line(p, cp) is Err,
        p.st.discard == 0 ==> subsection_line(p, tag, false).st.path == p.st.path.push(star_split(tag).0) && subsection_line(
            p,
            tag,
            false,
        ).st.level == p.st.level + 1,
        p.st.level < 2 ==> close_line(p, cp) is Err,
        p.st.level >= 2 && p.st.discard == 0 && p.st.path.len() > 0 ==> (close_line(p, cp) matches Ok(q) && q.st.level == p.st.level - 1
            && q.st.path == p.st.path.drop_last()),
{
}

/// Files of a directory are read whose names end in `.conf` or are made of
/// letters, digits, dashes and underscores alone; none that begins with a dot.
pub proof fn law_names_read(name: Seq<char>, i: int)
    ensures
        name.len() > 0 && name[0] == '.' ==> !valid_name_spec(name),
        name.len() > 5 && name[0] != '.' && name.skip(name.len() - 5) == seq!['.', 'c', 'o', 'n', 'f'] ==> valid_name_spec(name),
        0 <= i < name.len() && name[i] == '~' && !(name.len() >= 5 && name.skip(name.len() - 5) == seq!['.', 'c', 'o', 'n', 'f'])
            ==> !valid_name_spec(name),
{
}

/// A line that is blank, or whose first mark is a semicolon or a number sign,
/// does nothing.
pub proof fn law_comments(p: ParseV, rest: Seq<char>)
    ensures
        std_line(p, Seq::empty()) == Ok::<ParseV, ProfileErrorV>(p),
        std_line(p, seq!['#'] + rest) == Ok::<ParseV, ProfileErrorV>(p),
        std_line(p, seq![';'] + rest) == Ok::<ParseV, ProfileErrorV>(p),
{
    assert((seq!['#'] + rest)[0] == '#');
    assert((seq![';'] + rest)[0] == ';');
}

/// A name, an equals sign and a value that is neither quoted nor a brace set
/// the name to the value, without blanks at its end; a quoted value to what it
/// quotes.
pub proof fn law_relation_read(p: ParseV, tag: Seq<char>, value: Seq<char>, q: Seq<char>)
    requires
        tag.len() > 0,
        forall|i: int| 0 <= i < tag.len() ==> (#[trigger] tag[i]) != '=' && tag[i] != ' ' && tag[i] != '\t',
        value.len() > 0,
        value[0] != ' ' && value[0] != '\t' && value[0] != '"' && value[0] != '{',
    ensures
        equals_line(p, tag + seq!['='] + value) == Ok::<ParseV, ProfileErrorV>(relation_line(p, tag, trim_end(value))),
        equals_line(p, tag + seq!['=', '"'] + q) == Ok::<ParseV, ProfileErrorV>(relation_line(p, tag, quoted_spec(q))),
{
    lemma_equals(tag, value);
    let s = tag + seq!['='] + value;
    assert(s =~= tag + (seq!['='] + value));
    assert(s.take(tag.len() as int) =~= tag);
    assert(s.skip(tag.len() as int + 1) =~= value);
    lemma_no_blank(tag);
    let qv = seq!['"'] + q;
    let t = tag + seq!['=', '"'] + q;
    lemma_equals(tag, qv);
    assert(t =~= tag + (seq!['='] + qv));
    assert(t.take(tag.len() as int) =~= tag);
    assert(t.skip(tag.len() as int + 1) =~= qv);
    assert(qv.drop_first() =~= q);
    assert(qv[0] == '"');
}

proof fn lemma_equals(tag: Seq<char>, value: Seq<char>)
    requires
        forall|i: int| 0 <= i < tag.len() ==> (#[trigger] tag[i]) != '=',
    ensures
        find_char(tag + (seq!['='] + value), '=') == Some(tag.len() as int),
    decreases tag.len(),
{
    let s = tag + (seq!['='] + value);
    if tag.len() == 0 {
        assert(s[0] == '=');
    } else {
        assert(s[0] == tag[0]);
        assert(s.drop_first() =~= tag.drop_first() + (seq!['='] + value));
        lemma_equals(tag.drop_first(), value);
    }
}

proof fn lemma_no_blank(tag: Seq<char>)
    requires
        forall|i: int| 0 <= i < tag.len() ==> (#[trigger] tag[i]) != ' ' && tag[i] != '\t',
    ensures
        first_blank(tag) is None,
    decreases tag.len(),
{
    if tag.len() > 0 {
        assert(tag[0] != ' ');
        assert forall|i: int| 0 <= i < tag.drop_first().len() implies (#[trigger] tag.drop_first()[i]) != ' ' && tag.drop_first()[i]
            != '\t' by {
            assert(tag.drop_first()[i] == tag[i + 1]);
        }
        lemma_no_blank(tag.drop_first());
    }
}

/// A field of hours, minutes or seconds is one digit or two, and its number is
/// theirs.
pub proof fn law_two_digits(b: Seq<u8>, i: int)
    requires
        0 <= i,
    ensures
        num2_spec(b, i) matches Some((v, e)) ==> {
            &&& e == i + 1 || e == i + 2
            &&& e <= b.len()
            &&& 0x30 <= b[i] <= 0x39
            &&& e == i + 1 ==> v == b[i] - 0x30 && (e < b.len() ==> !(0x30 <= b[e] <= 0x39))
            &&& e == i + 2 ==> v == 10 * (b[i] - 0x30) + (b[i + 1] - 0x30) && 0x30 <= b[i + 1] <= 0x39 && (e < b.len() ==> !(0x30
                <= b[e] <= 0x39))
        },
        i < b.len() && 0x30 <= b[i] <= 0x39 && (i + 1 == b.len() || !(0x30 <= b[i + 1] <= 0x39)) ==> num2_spec(b, i) == Some(
            (b[i] - 0x30, i + 1),
        ),
        i + 2 < b.len() && 0x30 <= b[i] <= 0x39 && 0x30 <= b[i + 1] <= 0x39 && 0x30 <= b[i + 2] <= 0x39 ==> num2_spec(b, i) is None,
{
    lemma_digits_end(b, i);
    reveal_with_fuel(digits_end, 4);
    reveal_with_fuel(decimal, 4);
    if i + 3 <= b.len() {
        lemma_digits_end(b, i + 3);
    }
}

proof fn lemma_digits_end(b: Seq<u8>, i: int)
    ensures
        i <= digits_end(b, i),
    decreases b.len() - i,
{
    if 0 <= i < b.len() {
        lemma_digits_end(b, i + 1);
    }
}

} // verus!
