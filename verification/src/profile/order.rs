//! What every line of a profile keeps: the nodes of a section are sorted by
//! name, a subsection stands there once, and values come out in file order.
use vstd::prelude::*;

use crate::profile::parse::{line_spec, mark, open_section, place_spec, relation_line, section_at, star_split, std_line, text_spec, bare_line, FileParserV, NodeV, ParseV, Placed, State};
use crate::profile::{names_spec, values_spec};
use crate::text::{find_char, text_less};

verus! {

/// The nodes of each section are in the order of their names.
pub open spec fn sorted(nodes: Seq<NodeV>) -> bool {
    forall|i: int, j: int|
        #![trigger nodes[i], nodes[j]]
        0 <= i < j < nodes.len() && nodes[i].path == nodes[j].path ==> !text_less(nodes[j].name, nodes[i].name)
}

/// No section has two subsections of one name.
pub open spec fn sections_once(nodes: Seq<NodeV>) -> bool {
    forall|i: int, j: int|
        #![trigger nodes[i], nodes[j]]
        0 <= i < j < nodes.len() && nodes[i].value is None && nodes[j].value is None && nodes[i].path
            == nodes[j].path ==> nodes[i].name != nodes[j].name
}

proof fn lemma_less_trans(a: Seq<char>, b: Seq<char>, c: Seq<char>)
    requires
        text_less(a, b),
        text_less(b, c),
    ensures
        text_less(a, c),
    decreases c.len(),
{
    if a.len() > 0 && b.len() > 0 && c.len() > 0 && a[0] == b[0] && b[0] == c[0] {
        lemma_less_trans(a.drop_first(), b.drop_first(), c.drop_first());
    }
}

proof fn lemma_not_less_self(a: Seq<char>)
    ensures
        !text_less(a, a),
    decreases a.len(),
{
    if a.len() > 0 {
        lemma_not_less_self(a.drop_first());
    }
}

/// What the place of a node says of the nodes around it.
proof fn lemma_place(nodes: Seq<NodeV>, j: int, path: Seq<Seq<char>>, name: Seq<char>, section: bool, check_final: bool)
    requires
        0 <= j <= nodes.len() <= usize::MAX,
    ensures
        match place_spec(nodes, j, path, name, section, check_final) {
            Placed::At(i) => {
                &&& j <= i <= nodes.len()
                &&& forall|k: int|
                    j <= k < i && (#[trigger] nodes[k]).path == path ==> !text_less(name, nodes[k].name)
                        && !(nodes[k].name == name && section && nodes[k].value is None) && !(nodes[k].name == name
                        && check_final && nodes[k].is_final)
                &&& i < nodes.len() ==> nodes[i as int].path == path && text_less(name, nodes[i as int].name)
            },
            Placed::Merge(i) => j <= i < nodes.len() && section && nodes[i as int].path == path
                && nodes[i as int].name == name && nodes[i as int].value is None,
            Placed::Suppressed => check_final,
        },
    decreases nodes.len() - j,
{
    if j < nodes.len() {
        lemma_place(nodes, j + 1, path, name, section, check_final);
    }
}

/// Behind the place of a node only greater names of its section stand.
proof fn lemma_behind(nodes: Seq<NodeV>, path: Seq<Seq<char>>, name: Seq<char>, section: bool, check_final: bool, k: int)
    requires
        nodes.len() <= usize::MAX,
        sorted(nodes),
        place_spec(nodes, 0, path, name, section, check_final) matches Placed::At(i) && i <= k < nodes.len(),
        nodes[k].path == path,
    ensures
        !text_less(nodes[k].name, name),
        nodes[k].name != name,
{
    lemma_place(nodes, 0, path, name, section, check_final);
    let i = place_spec(nodes, 0, path, name, section, check_final)->At_0 as int;
    lemma_not_less_self(name);
    if text_less(nodes[k].name, name) {
        lemma_less_trans(nodes[k].name, name, nodes[i].name);
        if k == i {
            lemma_not_less_self(name);
            lemma_less_trans(name, nodes[i].name, name);
        }
    }
}

/// A node put in its place leaves the sections sorted, and each subsection
/// there once.
pub proof fn law_insert_keeps_order(nodes: Seq<NodeV>, n: NodeV, check_final: bool)
    requires
        nodes.len() <= usize::MAX,
        sorted(nodes),
        sections_once(nodes),
        place_spec(nodes, 0, n.path, n.name, n.value is None, check_final) is At,
    ensures
        ({
            let i = place_spec(nodes, 0, n.path, n.name, n.value is None, check_final)->At_0 as int;
            sorted(nodes.insert(i, n)) && sections_once(nodes.insert(i, n))
        }),
{
    let i = place_spec(nodes, 0, n.path, n.name, n.value is None, check_final)->At_0 as int;
    let out = nodes.insert(i, n);
    lemma_place(nodes, 0, n.path, n.name, n.value is None, check_final);
    assert forall|a: int, b: int|
        #![trigger out[a], out[b]]
        0 <= a < b < out.len() && out[a].path == out[b].path implies !text_less(out[b].name, out[a].name) && !(
    out[a].value is None && out[b].value is None && out[a].name == out[b].name) by {
        let x = if a < i { a } else { a - 1 };
        let y = if b < i { b } else { b - 1 };
        if a == i {
            assert(out[b] == nodes[y]);
            lemma_behind(nodes, n.path, n.name, n.value is None, check_final, y);
        } else if b == i {
            assert(out[a] == nodes[a]);
        } else {
            assert(out[a] == nodes[x]);
            assert(out[b] == nodes[y]);
        }
    }
}

/// A final node keeps later relations of its name out of its section.
pub proof fn law_final_suppresses(p: ParseV, tag: Seq<char>, value: Seq<char>, k: int)
    requires
        p.nodes.len() <= usize::MAX,
        sorted(p.nodes),
        0 <= k < p.nodes.len(),
        p.nodes[k].path == p.st.path,
        p.nodes[k].name == star_split(tag).0,
        p.nodes[k].is_final,
    ensures
        relation_line(p, tag, value) == p,
{
    let name = star_split(tag).0;
    lemma_place(p.nodes, 0, p.st.path, name, false, true);
    if let Placed::At(i) = place_spec(p.nodes, 0, p.st.path, name, false, true) {
        if k >= i {
            lemma_behind(p.nodes, p.st.path, name, false, true, k);
        }
    }
}

proof fn lemma_values_split(a: Seq<NodeV>, b: Seq<NodeV>, path: Seq<Seq<char>>, key: Seq<char>)
    ensures
        values_spec(a + b, path, key) == values_spec(a, path, key) + values_spec(b, path, key),
    decreases b.len(),
{
    if b.len() == 0 {
        assert(a + b =~= a);
        assert(values_spec(a, path, key) + Seq::empty() =~= values_spec(a, path, key));
    } else {
        lemma_values_split(a, b.drop_last(), path, key);
        assert((a + b).drop_last() =~= a + b.drop_last());
        let n = b.last();
        assert((a + b).last() == n);
        let va = values_spec(a, path, key);
        let vb = values_spec(b.drop_last(), path, key);
        if n.path == path && n.name == key && n.value is Some {
            assert((va + vb).push(n.value->0) =~= va + vb.push(n.value->0));
        }
    }
}

proof fn lemma_values_none(b: Seq<NodeV>, path: Seq<Seq<char>>, key: Seq<char>)
    requires
        forall|i: int| 0 <= i < b.len() && (#[trigger] b[i]).path == path ==> b[i].name != key,
    ensures
        values_spec(b, path, key) == Seq::<Seq<char>>::empty(),
    decreases b.len(),
{
    if b.len() > 0 {
        lemma_values_none(b.drop_last(), path, key);
    }
}

/// Values come out in file order: a relation that is added comes last among
/// those of its name, and the values of all other relations stay as they
/// are.
pub proof fn law_relation_appended(p: ParseV, tag: Seq<char>, value: Seq<char>, path: Seq<Seq<char>>, key: Seq<char>)
    requires
        p.nodes.len() <= usize::MAX,
        sorted(p.nodes),
        p.st.discard == 0,
        place_spec(p.nodes, 0, p.st.path, star_split(tag).0, false, true) is At,
    ensures
        ({
            let before = values_spec(p.nodes, path, key);
            let after = values_spec(relation_line(p, tag, value).nodes, path, key);
            if path == p.st.path && key == star_split(tag).0 {
                after == before.push(value)
            } else {
                after == before
            }
        }),
{
    let (name, star) = star_split(tag);
    let i = place_spec(p.nodes, 0, p.st.path, name, false, true)->At_0 as int;
    lemma_place(p.nodes, 0, p.st.path, name, false, true);
    let a = p.nodes.take(i);
    let b = p.nodes.skip(i);
    let n = NodeV { path: p.st.path, name, value: Some(value), is_final: star };
    assert(p.nodes =~= a + b);
    assert(p.nodes.insert(i, n) =~= a.push(n) + b);
    lemma_values_split(a, b, path, key);
    lemma_values_split(a.push(n), b, path, key);
    assert(a.push(n).drop_last() =~= a);
    if path == p.st.path && key == name {
        assert forall|k: int| 0 <= k < b.len() && (#[trigger] b[k]).path == path implies b[k].name != key by {
            lemma_behind(p.nodes, path, name, false, true, i + k);
        }
        lemma_values_none(b, path, key);
        let va = values_spec(a, path, key);
        assert(va.push(value) + Seq::empty() =~= va.push(value));
        assert(va + Seq::empty() =~= va);
    }
}

/// Sorted sections, each subsection once, and no more nodes than lines.
pub open spec fn orderly(p: ParseV) -> bool {
    sorted(p.nodes) && sections_once(p.nodes) && p.nodes.len() <= p.st.line
}

proof fn lemma_mark(nodes: Seq<NodeV>, i: int)
    requires
        sorted(nodes),
        sections_once(nodes),
        0 <= i < nodes.len(),
    ensures
        sorted(mark(nodes, i)),
        sections_once(mark(nodes, i)),
        mark(nodes, i).len() == nodes.len(),
{
    let out = mark(nodes, i);
    assert forall|k: int| 0 <= k < nodes.len() implies (#[trigger] out[k]).path == nodes[k].path && out[k].name
        == nodes[k].name && out[k].value == nodes[k].value by {}
}

proof fn lemma_open(nodes: Seq<NodeV>, path: Seq<Seq<char>>, name: Seq<char>, star: bool)
    requires
        nodes.len() <= usize::MAX,
        sorted(nodes),
        sections_once(nodes),
    ensures
        sorted(open_section(nodes, path, name, star).0),
        sections_once(open_section(nodes, path, name, star).0),
        open_section(nodes, path, name, star).0.len() <= nodes.len() + 1,
{
    lemma_place(nodes, 0, path, name, true, false);
    let n = NodeV { path, name, value: None, is_final: star };
    match place_spec(nodes, 0, path, name, true, false) {
        Placed::At(i) => {
            law_insert_keeps_order(nodes, n, false);
        },
        Placed::Merge(i) => {
            lemma_mark(nodes, i as int);
        },
        Placed::Suppressed => {},
    }
}

proof fn lemma_section_at(nodes: Seq<NodeV>, i: int, path: Seq<Seq<char>>)
    requires
        0 <= i <= nodes.len(),
    ensures
        section_at(nodes, i, path) matches Some(k) ==> i <= k < nodes.len(),
    decreases nodes.len() - i,
{
    if i < nodes.len() {
        lemma_section_at(nodes, i + 1, path);
    }
}

proof fn lemma_relation(p: ParseV, tag: Seq<char>, value: Seq<char>)
    requires
        p.nodes.len() <= usize::MAX,
        sorted(p.nodes),
        sections_once(p.nodes),
    ensures
        sorted(relation_line(p, tag, value).nodes),
        sections_once(relation_line(p, tag, value).nodes),
        relation_line(p, tag, value).nodes.len() <= p.nodes.len() + 1,
        relation_line(p, tag, value).st == p.st,
{
    let (name, star) = star_split(tag);
    lemma_place(p.nodes, 0, p.st.path, name, false, true);
    if place_spec(p.nodes, 0, p.st.path, name, false, true) is At {
        law_insert_keeps_order(
            p.nodes,
            NodeV { path: p.st.path, name, value: Some(value), is_final: star },
            true,
        );
    }
}

proof fn lemma_std(p: ParseV, line: Seq<char>)
    requires
        p.nodes.len() < p.st.line <= usize::MAX,
        sorted(p.nodes),
        sections_once(p.nodes),
    ensures
        std_line(p, line) matches Ok(after) ==> orderly(after) && after.st.line == p.st.line,
{
    let cp = crate::profile::parse::skip_blanks_spec(line);
    if cp.len() > 0 && cp[0] == '[' {
        let after = cp.drop_first();
        if let Some(close) = find_char(after, ']') {
            let name = after.take(close);
            lemma_open(p.nodes, Seq::empty(), name, true);
            lemma_open(p.nodes, Seq::empty(), name, false);
        }
    } else if cp.len() > 0 && cp[0] == '}' {
        lemma_section_at(p.nodes, 0, p.st.path);
        if let Some(i) = section_at(p.nodes, 0, p.st.path) {
            lemma_mark(p.nodes, i);
        }
    } else if let Some(eq) = find_char(cp, '=') {
        if let Some(tag) = crate::profile::parse::tag_spec(cp.take(eq)) {
            let value = crate::profile::parse::skip_blanks_spec(cp.skip(eq + 1));
            lemma_relation(p, tag, crate::profile::parse::quoted_spec(value.drop_first()));
            lemma_relation(p, tag, crate::text::trim_end(value));
            let (name, star) = star_split(tag);
            lemma_open(p.nodes, p.st.path, name, star);
        }
    }
}

/// Every line of a profile keeps it orderly.
pub proof fn law_line_keeps_order(p: ParseV, line: Seq<char>)
    requires
        orderly(p),
        p.st.line < usize::MAX,
    ensures
        line_spec(p, line) matches Ok((after, _)) ==> orderly(after) && after.st.line == p.st.line + 1,
{
    let p1 = ParseV { st: FileParserV { line: p.st.line + 1, ..p.st }, ..p };
    lemma_std(ParseV { st: FileParserV { state: State::Std, ..p1.st }, ..p1 }, line);
    lemma_std(p1, line);
}

/// A parsed text is an orderly profile.
pub proof fn law_parsed_is_orderly(p: ParseV, text: Seq<char>)
    requires
        orderly(p),
        p.st.line + text.len() < usize::MAX,
    ensures
        text_spec(p, text) matches Ok(after) ==> orderly(after),
    decreases text.len(),
{
    let end = find_char(text, '\n');
    let raw = match end {
        Some(i) => text.take(i),
        None => text,
    };
    law_line_keeps_order(p, bare_line(raw));
    match line_spec(p, bare_line(raw)) {
        Ok((p1, d)) => {
            if let Some(i) = end {
                if 0 <= i < text.len() {
                    law_parsed_is_orderly(p1, text.skip(i + 1));
                }
            }
        },
        Err(_) => {},
    }
}

proof fn lemma_codes_differ(a: char, b: char)
    requires
        a != b,
    ensures
        a as u32 != b as u32,
{
}

/// Of two different texts one comes before the other.
proof fn lemma_one_less(a: Seq<char>, b: Seq<char>)
    requires
        a != b,
        !text_less(b, a),
    ensures
        text_less(a, b),
    decreases b.len(),
{
    if a.len() == 0 && b.len() == 0 {
        assert(a =~= b);
    } else if a.len() > 0 && b.len() > 0 && a[0] == b[0] {
        if a.drop_first() == b.drop_first() {
            assert(a =~= seq![a[0]] + a.drop_first());
            assert(b =~= seq![b[0]] + b.drop_first());
        }
        lemma_one_less(a.drop_first(), b.drop_first());
    } else if a.len() > 0 && b.len() > 0 {
        lemma_codes_differ(a[0], b[0]);
    }
}

/// Each name of a subsection is that of one of the nodes.
proof fn lemma_named(nodes: Seq<NodeV>, path: Seq<Seq<char>>, i: int) -> (k: int)
    requires
        0 <= i < names_spec(nodes, path).len(),
    ensures
        0 <= k < nodes.len(),
        nodes[k].path == path,
        nodes[k].value is None,
        nodes[k].name == names_spec(nodes, path)[i],
    decreases nodes.len(),
{
    let rest = names_spec(nodes.drop_last(), path);
    if i < rest.len() {
        lemma_named(nodes.drop_last(), path, i)
    } else {
        nodes.len() - 1
    }
}

/// The subsections of a section are listed in the order of their names, none
/// of them twice.
pub proof fn law_subsections_listed(nodes: Seq<NodeV>, path: Seq<Seq<char>>)
    requires
        sorted(nodes),
        sections_once(nodes),
    ensures
        forall|i: int, j: int|
            0 <= i < j < names_spec(nodes, path).len() ==> text_less(
                #[trigger] names_spec(nodes, path)[i],
                #[trigger] names_spec(nodes, path)[j],
            ),
        names_spec(nodes, path).no_duplicates(),
    decreases nodes.len(),
{
    let names = names_spec(nodes, path);
    if nodes.len() > 0 {
        let front = nodes.drop_last();
        let rest = names_spec(front, path);
        law_subsections_listed(front, path);
        assert forall|i: int, j: int| 0 <= i < j < names.len() implies text_less(#[trigger] names[i], #[trigger] names[j]) by {
            assert(names[i] == rest[i]);
            if j < rest.len() {
                assert(names[j] == rest[j]);
            } else {
                let k = lemma_named(front, path, i);
                assert(front[k] == nodes[k]);
                lemma_one_less(names[i], names[j]);
            }
        }
    }
    assert forall|i: int, j: int| 0 <= i < names.len() && 0 <= j < names.len() && i != j implies names[i] != names[j] by {
        lemma_not_less_self(names[i]);
        if i < j {
            assert(text_less(names[i], names[j]));
        } else {
            assert(text_less(names[j], names[i]));
        }
    }
}

} // verus!
