//! The profile grammar: sections, relations, subsections, final markers,
//! quoted strings and directives that name other files.
//!
//! A profile is a list of nodes, each with the path of the section it stands
//! in. The nodes of one section are sorted by name, those of one name in the
//! order in which they came.
use vstd::prelude::*;

use crate::der::{list_view, opt_view};
use crate::profile::{ProfileError, ProfileErrorV};
use crate::text::{chars_from, chars_of, comes_before, cut_chars, find_char, find_in, same_chars, text_less, text_of, trim_end, trim_start, trimmed_end, trimmed_start};

verus! {

/// A profile node. `value` is none for a subsection.
#[derive(Debug)]
pub struct Node {
    /// The section the node stands in; empty for a section.
    pub path: Vec<Vec<char>>,
    /// Its name.
    pub name: Vec<char>,
    /// The value of a relation.
    pub value: Option<Vec<char>>,
    /// Marked final.
    pub is_final: bool,
}

/// Model of [`Node`].
pub struct NodeV {
    pub path: Seq<Seq<char>>,
    pub name: Seq<char>,
    pub value: Option<Seq<char>>,
    pub is_final: bool,
}

impl View for Node {
    type V = NodeV;

    open spec fn view(&self) -> NodeV {
        NodeV {
            path: list_view(self.path@),
            name: self.name@,
            value: opt_view(self.value),
            is_final: self.is_final,
        }
    }
}

/// Where in a file the parser is.
#[derive(Debug, Clone, Copy, PartialEq, Eq, Structural)]
pub enum State {
    /// Before the first section header.
    Init,
    /// In a section.
    Std,
    /// Behind `name =`, with the brace still to come.
    GetObrace,
}

/// The state of parsing one file.
#[derive(Debug)]
pub struct FileParser {
    /// The section that is open.
    pub path: Vec<Vec<char>>,
    /// Where the parser is.
    pub state: State,
    /// How many sections and subsections are open.
    pub level: usize,
    /// The level of a final section whose repetition is discarded, else 0.
    pub discard: usize,
    /// How many lines were read.
    pub line: usize,
}

/// Model of [`FileParser`].
pub struct FileParserV {
    pub path: Seq<Seq<char>>,
    pub state: State,
    pub level: nat,
    pub discard: nat,
    pub line: nat,
}

impl View for FileParser {
    type V = FileParserV;

    open spec fn view(&self) -> FileParserV {
        FileParserV {
            path: list_view(self.path@),
            state: self.state,
            level: self.level as nat,
            discard: self.discard as nat,
            line: self.line as nat,
        }
    }
}

/// The state before the first line of a file.
pub open spec fn fresh_parser() -> FileParserV {
    FileParserV { path: Seq::empty(), state: State::Init, level: 0, discard: 0, line: 0 }
}

/// What a line asks for beyond the nodes it makes.
#[derive(Debug)]
pub enum Directive {
    /// Nothing.
    Nothing,
    /// The file of this name is to be parsed.
    File(String),
    /// The files of this directory are to be parsed.
    Dir(String),
}

/// Model of [`Directive`].
pub enum DirectiveV {
    Nothing,
    File(Seq<char>),
    Dir(Seq<char>),
}

impl View for Directive {
    type V = DirectiveV;

    open spec fn view(&self) -> DirectiveV {
        match self {
            Directive::Nothing => DirectiveV::Nothing,
            Directive::File(s) => DirectiveV::File(s@),
            Directive::Dir(s) => DirectiveV::Dir(s@),
        }
    }
}

/// A profile and the parser of a file that goes into it.
pub struct ParseV {
    pub nodes: Seq<NodeV>,
    pub st: FileParserV,
}

/// Where a new node goes.
#[derive(Debug, Clone, Copy, PartialEq, Eq, Structural)]
pub enum Placed {
    /// In front of the node at this index.
    At(usize),
    /// Into the subsection at this index.
    Merge(usize),
    /// Nowhere: a final node of the same name is there.
    Suppressed,
}

/// Where a new node goes, from index `i` on: behind the nodes of its section
/// whose names are not greater, unless it is a subsection that is there
/// already, or `check_final` and a final node of its name is.
pub open spec fn place_spec(nodes: Seq<NodeV>, i: int, path: Seq<Seq<char>>, name: Seq<char>, section: bool, check_final: bool) -> Placed
    decreases nodes.len() - i,
{
    if i >= nodes.len() {
        Placed::At(nodes.len() as usize)
    } else {
        let n = nodes[i];
        if n.path != path {
            place_spec(nodes, i + 1, path, name, section, check_final)
        } else if text_less(name, n.name) {
            Placed::At(i as usize)
        } else if n.name == name && section && n.value is None {
            Placed::Merge(i as usize)
        } else if n.name == name && check_final && n.is_final {
            Placed::Suppressed
        } else {
            place_spec(nodes, i + 1, path, name, section, check_final)
        }
    }
}

/// A node marked final.
pub open spec fn mark(nodes: Seq<NodeV>, i: int) -> Seq<NodeV> {
    nodes.update(i, NodeV { is_final: true, ..nodes[i] })
}

/// Index of the subsection at `path`, from index `i` on.
pub open spec fn section_at(nodes: Seq<NodeV>, i: int, path: Seq<Seq<char>>) -> Option<int>
    decreases nodes.len() - i,
{
    if i >= nodes.len() || path.len() == 0 {
        None
    } else if nodes[i].path == path.drop_last() && nodes[i].name == path.last() && nodes[i].value is None {
        Some(i)
    } else {
        section_at(nodes, i + 1, path)
    }
}

/// Opens the subsection `name` of the section at `path`: the nodes, and
/// whether it was final before.
pub open spec fn open_section(nodes: Seq<NodeV>, path: Seq<Seq<char>>, name: Seq<char>, mark_final: bool) -> (Seq<NodeV>, bool) {
    match place_spec(nodes, 0, path, name, true, false) {
        Placed::At(i) => (
            nodes.insert(i as int, NodeV { path, name, value: None, is_final: mark_final }),
            false,
        ),
        Placed::Merge(i) => (
            if mark_final { mark(nodes, i as int) } else { nodes },
            nodes[i as int].is_final,
        ),
        Placed::Suppressed => (nodes, false),
    }
}

/// `s` without the blanks at its start.
pub open spec fn skip_blanks_spec(s: Seq<char>) -> Seq<char>
    decreases s.len(),
{
    if s.len() > 0 && (s[0] == ' ' || s[0] == '\t') {
        skip_blanks_spec(s.drop_first())
    } else {
        s
    }
}

/// A character behind a backslash.
pub open spec fn unescaped(c: char) -> char {
    if c == 'n' {
        '\n'
    } else if c == 't' {
        '\t'
    } else if c == 'b' {
        '\u{8}'
    } else {
        c
    }
}

/// The text of a quoted string, up to the first bare quote.
pub open spec fn quoted_spec(s: Seq<char>) -> Seq<char>
    decreases s.len(),
{
    if s.len() == 0 || s[0] == '"' {
        Seq::empty()
    } else if s[0] == '\\' {
        if s.len() < 2 {
            Seq::empty()
        } else {
            seq![unescaped(s[1])] + quoted_spec(s.skip(2))
        }
    } else {
        seq![s[0]] + quoted_spec(s.drop_first())
    }
}

/// A syntax error on the line being read.
pub open spec fn syntax_err(line: nat, msg: Seq<char>) -> ProfileErrorV {
    ProfileErrorV::Syntax { line: line as usize, msg }
}

/// A tag split at its star: the name, and whether it is marked final.
pub open spec fn star_split(tag: Seq<char>) -> (Seq<char>, bool) {
    match find_char(tag, '*') {
        Some(i) => (tag.take(i), true),
        None => (tag, false),
    }
}

/// A section header: `cp` starts with the bracket.
pub open spec fn header_line(p: ParseV, cp: Seq<char>) -> Result<ParseV, ProfileErrorV> {
    let bad = Err(syntax_err(p.st.line, "syntax error in section header"@));
    let after = cp.drop_first();
    if p.st.level > 1 {
        Err(syntax_err(p.st.line, "section header must be at top level"@))
    } else {
        match find_char(after, ']') {
            None => bad,
            Some(close) => {
                let name = after.take(close);
                let rest = after.skip(close + 1);
                let star = rest.len() > 0 && rest[0] == '*';
                let tail = if star { rest.drop_first() } else { rest };
                let (nodes, was_final) = open_section(p.nodes, Seq::empty(), name, star);
                if skip_blanks_spec(tail).len() > 0 {
                    bad
                } else {
                    Ok(
                        ParseV {
                            nodes,
                            st: FileParserV {
                                path: seq![name],
                                level: 1,
                                discard: if was_final { 1 } else { 0 },
                                ..p.st
                            },
                        },
                    )
                }
            },
        }
    }
}

/// A closing brace: `cp` starts with it.
pub open spec fn close_line(p: ParseV, cp: Seq<char>) -> Result<ParseV, ProfileErrorV> {
    if p.st.level < 2 {
        Err(syntax_err(p.st.line, "extraneous close brace"@))
    } else {
        let level = (p.st.level - 1) as nat;
        let discard = if level < p.st.discard { 0 } else { p.st.discard };
        Ok(
            ParseV {
                nodes: if cp.len() > 1 && cp[1] == '*' {
                    match section_at(p.nodes, 0, p.st.path) {
                        Some(i) => mark(p.nodes, i),
                        None => p.nodes,
                    }
                } else {
                    p.nodes
                },
                st: FileParserV {
                    level,
                    discard,
                    path: if discard == 0 && p.st.path.len() > 0 { p.st.path.drop_last() } else { p.st.path },
                    ..p.st
                },
            },
        )
    }
}

/// A relation of the open section.
pub open spec fn relation_line(p: ParseV, tag: Seq<char>, value: Seq<char>) -> ParseV {
    let (name, star) = star_split(tag);
    if p.st.discard != 0 {
        p
    } else {
        match place_spec(p.nodes, 0, p.st.path, name, false, true) {
            Placed::At(i) => ParseV {
                nodes: p.nodes.insert(
                    i as int,
                    NodeV { path: p.st.path, name, value: Some(value), is_final: star },
                ),
                ..p
            },
            _ => p,
        }
    }
}

/// A subsection of the open section; `pending` when its brace is still to
/// come.
pub open spec fn subsection_line(p: ParseV, tag: Seq<char>, pending: bool) -> ParseV {
    let (name, star) = star_split(tag);
    let level = p.st.level + 1;
    let st = FileParserV { level, state: if pending { State::GetObrace } else { p.st.state }, ..p.st };
    if p.st.discard != 0 {
        ParseV { st, ..p }
    } else {
        let (nodes, was_final) = open_section(p.nodes, p.st.path, name, star);
        ParseV {
            nodes,
            st: FileParserV {
                path: p.st.path.push(name),
                discard: if was_final { level } else { 0 },
                ..st
            },
        }
    }
}

/// The tag in front of an equals sign: up to the first blank, behind which
/// only white space may stand.
pub open spec fn tag_spec(s: Seq<char>) -> Option<Seq<char>> {
    match first_blank(s) {
        None => Some(s),
        Some(w) => if trim_start(s.skip(w)).len() == 0 {
            Some(s.take(w))
        } else {
            None
        },
    }
}

/// Index of the first blank.
pub open spec fn first_blank(s: Seq<char>) -> Option<int>
    decreases s.len(),
{
    if s.len() == 0 {
        None
    } else if s[0] == ' ' || s[0] == '\t' {
        Some(0)
    } else {
        match first_blank(s.drop_first()) {
            Some(i) => Some(i + 1),
            None => None,
        }
    }
}

/// A relation or subsection line.
pub open spec fn equals_line(p: ParseV, cp: Seq<char>) -> Result<ParseV, ProfileErrorV> {
    let bad = Err(syntax_err(p.st.line, "syntax error in relations line"@));
    match find_char(cp, '=') {
        None => bad,
        Some(eq) => if eq == 0 {
            bad
        } else {
            match tag_spec(cp.take(eq)) {
                None => bad,
                Some(tag) => {
                    let value = skip_blanks_spec(cp.skip(eq + 1));
                    if value.len() > 0 && value[0] == '"' {
                        Ok(relation_line(p, tag, quoted_spec(value.drop_first())))
                    } else if value.len() > 0 && !(value[0] == '{' && skip_blanks_spec(value.drop_first()).len()
                        == 0) {
                        Ok(relation_line(p, tag, trim_end(value)))
                    } else {
                        Ok(subsection_line(p, tag, value.len() == 0))
                    }
                },
            }
        },
    }
}

/// A line inside a section.
pub open spec fn std_line(p: ParseV, line: Seq<char>) -> Result<ParseV, ProfileErrorV> {
    let cp = skip_blanks_spec(line);
    if cp.len() == 0 || cp[0] == '\0' || cp[0] == ';' || cp[0] == '#' {
        Ok(p)
    } else if cp[0] == '[' {
        header_line(p, cp)
    } else if cp[0] == '}' {
        close_line(p, cp)
    } else {
        equals_line(p, cp)
    }
}

/// The word of a directive that names a file.
pub open spec fn file_word() -> Seq<char> {
    seq!['i', 'n', 'c', 'l', 'u', 'd', 'e']
}

/// The word of a directive that names a directory.
pub open spec fn dir_word() -> Seq<char> {
    file_word() + seq!['d', 'i', 'r']
}

/// The operand of a directive in the first column: what stands behind its
/// word and at least one blank.
pub open spec fn operand(line: Seq<char>, word: Seq<char>) -> Option<Seq<char>> {
    let n = word.len() as int;
    if line.len() > n && line.take(n) == word && (line[n] == ' ' || line[n] == '\t') {
        Some(trim_end(skip_blanks_spec(line.skip(n))))
    } else {
        None
    }
}

/// What the next line of a file does: directives count in any state; before
/// the first section header all else is passed over.
pub open spec fn line_spec(p: ParseV, line: Seq<char>) -> Result<(ParseV, DirectiveV), ProfileErrorV> {
    let p1 = ParseV { st: FileParserV { line: p.st.line + 1, ..p.st }, ..p };
    match (operand(line, file_word()), operand(line, dir_word())) {
        (Some(name), _) => Ok((p1, DirectiveV::File(name))),
        (None, Some(name)) => Ok((p1, DirectiveV::Dir(name))),
        (None, None) => match p.st.state {
            State::Init => if line.len() == 0 || line[0] != '[' {
                Ok((p1, DirectiveV::Nothing))
            } else {
                with_nothing(std_line(ParseV { st: FileParserV { state: State::Std, ..p1.st }, ..p1 }, line))
            },
            State::Std => with_nothing(std_line(p1, line)),
            State::GetObrace => {
                let cp = skip_blanks_spec(line);
                if cp.len() == 0 || cp[0] != '{' {
                    Err(syntax_err(p1.st.line, "profile_parse(): missing '{'"@))
                } else {
                    Ok((ParseV { st: FileParserV { state: State::Std, ..p1.st }, ..p1 }, DirectiveV::Nothing))
                }
            },
        },
    }
}

/// A line that asks for nothing more.
pub open spec fn with_nothing(r: Result<ParseV, ProfileErrorV>) -> Result<(ParseV, DirectiveV), ProfileErrorV> {
    match r {
        Ok(p) => Ok((p, DirectiveV::Nothing)),
        Err(e) => Err(e),
    }
}

/// A line without a carriage return at its end.
pub open spec fn bare_line(raw: Seq<char>) -> Seq<char> {
    if raw.len() > 0 && raw.last() == '\r' {
        raw.drop_last()
    } else {
        raw
    }
}

/// What a text does, from the first line on: its lines are fed one by one; a
/// directive cannot be followed.
pub open spec fn text_spec(p: ParseV, text: Seq<char>) -> Result<ParseV, ProfileErrorV>
    decreases text.len(),
{
    let end = find_char(text, '\n');
    let raw = match end {
        Some(i) => text.take(i),
        None => text,
    };
    match line_spec(p, bare_line(raw)) {
        Err(e) => Err(e),
        Ok((p1, d)) => if !(d is Nothing) {
            Err(ProfileErrorV::Directive { line: p1.st.line as usize })
        } else {
            match end {
                None => Ok(p1),
                Some(i) => if 0 <= i < text.len() {
                    text_spec(p1, text.skip(i + 1))
                } else {
                    Ok(p1)
                },
            }
        },
    }
}

/// What an operation of the parser returned, with the state it left.
pub open spec fn step_ok(want: Result<ParseV, ProfileErrorV>, after: ParseV, r: Result<(), ProfileError>) -> bool {
    match want {
        Ok(p) => r is Ok && after == p,
        Err(e) => r is Err && r->Err_0@ == e,
    }
}

pub(crate) fn same_path(a: &Vec<Vec<char>>, b: &Vec<Vec<char>>) -> (r: bool)
    ensures
        r == (list_view(a@) == list_view(b@)),
{
    if a.len() != b.len() {
        assert(list_view(a@).len() != list_view(b@).len());
        return false;
    }
    let mut i: usize = 0;
    while i < a.len()
        invariant
            a@.len() == b@.len(),
            i <= a@.len(),
            forall|j: int| 0 <= j < i ==> (#[trigger] a@[j])@ == b@[j]@,
        decreases a@.len() - i,
    {
        if !same_chars(&a[i], &b[i]) {
            assert(list_view(a@)[i as int] != list_view(b@)[i as int]);
            return false;
        }
        i = i + 1;
    }
    assert(list_view(a@) =~= list_view(b@));
    true
}

fn dup_chars(s: &Vec<char>) -> (r: Vec<char>)
    ensures
        r@ == s@,
{
    let r = cut_chars(s, 0, s.len());
    assert(r@ =~= s@);
    r
}

fn dup_path(a: &Vec<Vec<char>>) -> (r: Vec<Vec<char>>)
    ensures
        list_view(r@) == list_view(a@),
{
    let mut r: Vec<Vec<char>> = Vec::new();
    let mut i: usize = 0;
    while i < a.len()
        invariant
            i <= a@.len(),
            r@.len() == i,
            forall|j: int| 0 <= j < i ==> (#[trigger] r@[j])@ == a@[j]@,
        decreases a@.len() - i,
    {
        r.push(dup_chars(&a[i]));
        i = i + 1;
    }
    assert(list_view(r@) =~= list_view(a@));
    r
}

fn skip_blanks(s: &[char]) -> (r: &[char])
    ensures
        r@ == skip_blanks_spec(s@),
        r@.len() <= s@.len(),
{
    let mut i: usize = 0;
    assert(s@.skip(0) =~= s@);
    while i < s.len() && (s[i] == ' ' || s[i] == '\t')
        invariant
            i <= s@.len(),
            skip_blanks_spec(s@) == skip_blanks_spec(s@.skip(i as int)),
        decreases s@.len() - i,
    {
        assert(s@.skip(i as int).drop_first() =~= s@.skip(i + 1));
        i = i + 1;
    }
    assert(i < s@.len() ==> s@.skip(i as int)[0] == s@[i as int]);
    chars_from(s, i)
}

fn parse_quoted_string(s: &[char]) -> (r: Vec<char>)
    ensures
        r@ == quoted_spec(s@),
{
    let mut out: Vec<char> = Vec::new();
    let mut i: usize = 0;
    assert(s@.skip(0) =~= s@);
    assert(out@ + quoted_spec(s@) =~= quoted_spec(s@));
    while i < s.len()
        invariant
            i <= s@.len(),
            out@ + quoted_spec(s@.skip(i as int)) == quoted_spec(s@),
        decreases s@.len() - i,
    {
        let ghost rest = s@.skip(i as int);
        let ghost before = out@;
        let c = s[i];
        assert(rest[0] == c);
        if c == '"' {
            assert(before + Seq::empty() =~= before);
            return out;
        }
        if c == '\\' {
            if i + 1 >= s.len() {
                assert(before + Seq::empty() =~= before);
                return out;
            }
            let d = s[i + 1];
            assert(rest[1] == d);
            assert(rest.skip(2) =~= s@.skip(i + 2));
            let u = if d == 'n' {
                '\n'
            } else if d == 't' {
                '\t'
            } else if d == 'b' {
                '\u{8}'
            } else {
                d
            };
            out.push(u);
            assert(before + (seq![u] + quoted_spec(s@.skip(i + 2))) =~= out@ + quoted_spec(s@.skip(i + 2)));
            i = i + 2;
        } else {
            out.push(c);
            assert(rest.drop_first() =~= s@.skip(i + 1));
            assert(before + (seq![c] + quoted_spec(s@.skip(i + 1))) =~= out@ + quoted_spec(s@.skip(i + 1)));
            i = i + 1;
        }
    }
    assert(s@.skip(i as int).len() == 0);
    assert(out@ + Seq::empty() =~= out@);
    out
}

fn place(nodes: &Vec<Node>, path: &Vec<Vec<char>>, name: &[char], section: bool, check_final: bool) -> (r: Placed)
    ensures
        r == place_spec(list_view(nodes@), 0, list_view(path@), name@, section, check_final),
        r matches Placed::At(i) ==> i <= nodes@.len(),
        r matches Placed::Merge(i) ==> i < nodes@.len(),
{
    let ghost all = list_view(nodes@);
    let mut i: usize = 0;
    while i < nodes.len()
        invariant
            i <= nodes@.len(),
            all == list_view(nodes@),
            place_spec(all, 0, list_view(path@), name@, section, check_final) == place_spec(
                all,
                i as int,
                list_view(path@),
                name@,
                section,
                check_final,
            ),
        decreases nodes@.len() - i,
    {
        let n = &nodes[i];
        assert(all[i as int] == n@);
        if same_path(&n.path, path) {
            if comes_before(name, &n.name) {
                return Placed::At(i);
            }
            if same_chars(&n.name, name) {
                if section && n.value.is_none() {
                    return Placed::Merge(i);
                }
                if check_final && n.is_final {
                    return Placed::Suppressed;
                }
            }
        }
        i = i + 1;
    }
    Placed::At(nodes.len())
}

fn mark_final(nodes: &mut Vec<Node>, i: usize)
    requires
        i < old(nodes)@.len(),
    ensures
        list_view(final(nodes)@) == mark(list_view(old(nodes)@), i as int),
{
    let ghost before = list_view(nodes@);
    let n = nodes.remove(i);
    nodes.insert(i, Node { path: n.path, name: n.name, value: n.value, is_final: true });
    assert(list_view(nodes@) =~= mark(before, i as int));
}

fn insert_node(nodes: &mut Vec<Node>, i: usize, n: Node)
    requires
        i <= old(nodes)@.len(),
    ensures
        list_view(final(nodes)@) == list_view(old(nodes)@).insert(i as int, n@),
{
    let ghost before = list_view(nodes@);
    nodes.insert(i, n);
    assert(list_view(nodes@) =~= before.insert(i as int, n@));
}

fn enter(nodes: &mut Vec<Node>, path: &Vec<Vec<char>>, name: &[char], mark_it: bool) -> (r: bool)
    ensures
        (list_view(final(nodes)@), r) == open_section(list_view(old(nodes)@), list_view(path@), name@, mark_it),
{
    match place(nodes, path, name, true, false) {
        Placed::At(i) => {
            let copy = cut_chars(name, 0, name.len());
            assert(copy@ =~= name@);
            insert_node(nodes, i, Node { path: dup_path(path), name: copy, value: None, is_final: mark_it });
            false
        },
        Placed::Merge(i) => {
            let was = nodes[i].is_final;
            assert(list_view(nodes@)[i as int].is_final == was);
            if mark_it {
                mark_final(nodes, i);
            }
            was
        },
        Placed::Suppressed => false,
    }
}

fn find_section(nodes: &Vec<Node>, path: &Vec<Vec<char>>) -> (r: Option<usize>)
    ensures
        match r {
            Some(i) => section_at(list_view(nodes@), 0, list_view(path@)) == Some(i as int) && i < nodes@.len(),
            None => section_at(list_view(nodes@), 0, list_view(path@)) is None,
        },
{
    if path.len() == 0 {
        return None;
    }
    let mut parent = dup_path(path);
    let last = match parent.pop() {
        Some(l) => l,
        None => return None,
    };
    let ghost all = list_view(nodes@);
    let ghost p = list_view(path@);
    proof {
        assert(list_view(parent@) =~= p.drop_last());
        assert(last@ == p.last());
    }
    let mut i: usize = 0;
    while i < nodes.len()
        invariant
            i <= nodes@.len(),
            all == list_view(nodes@),
            p == list_view(path@),
            p.len() > 0,
            list_view(parent@) == p.drop_last(),
            last@ == p.last(),
            section_at(all, 0, p) == section_at(all, i as int, p),
        decreases nodes@.len() - i,
    {
        let n = &nodes[i];
        assert(all[i as int] == n@);
        if same_path(&n.path, &parent) && same_chars(&n.name, &last) && n.value.is_none() {
            return Some(i);
        }
        i = i + 1;
    }
    None
}

fn bad_line(line: usize, msg: &str) -> (r: ProfileError)
    ensures
        r@ == syntax_err(line as nat, msg@),
{
    ProfileError::Syntax { line, msg: text_of(&chars_of(msg)) }
}

fn split_star<'a>(tag: &'a [char]) -> (r: (&'a [char], bool))
    ensures
        (r.0@, r.1) == star_split(tag@),
{
    match find_in(tag, '*') {
        Some(i) => {
            let t = vstd::slice::slice_subrange(tag, 0, i);
            assert(t@ =~= tag@.take(i as int));
            (t, true)
        },
        None => (tag, false),
    }
}

fn find_blank(s: &[char]) -> (r: Option<usize>)
    ensures
        match r {
            Some(i) => first_blank(s@) == Some(i as int) && i < s.len(),
            None => first_blank(s@) is None,
        },
{
    let mut i: usize = 0;
    assert(s@.skip(0) =~= s@);
    while i < s.len()
        invariant
            i <= s@.len(),
            match first_blank(s@.skip(i as int)) {
                Some(k) => first_blank(s@) == Some(k + i),
                None => first_blank(s@) is None,
            },
        decreases s@.len() - i,
    {
        assert(s@.skip(i as int).drop_first() =~= s@.skip(i + 1));
        assert(s@.skip(i as int)[0] == s@[i as int]);
        if s[i] == ' ' || s[i] == '\t' {
            return Some(i);
        }
        i = i + 1;
    }
    assert(s@.skip(i as int).len() == 0);
    None
}

fn take_tag<'a>(s: &'a [char]) -> (r: Option<&'a [char]>)
    ensures
        match r {
            Some(t) => tag_spec(s@) == Some(t@),
            None => tag_spec(s@) is None,
        },
{
    match find_blank(s) {
        None => Some(s),
        Some(w) => {
            if trimmed_start(chars_from(s, w)).len() == 0 {
                let t = vstd::slice::slice_subrange(s, 0, w);
                assert(t@ =~= s@.take(w as int));
                Some(t)
            } else {
                None
            }
        },
    }
}

fn take_operand(line: &[char], word: &[char]) -> (r: Option<String>)
    ensures
        opt_view(r) == operand(line@, word@),
{
    let n: usize = word.len();
    if line.len() <= n {
        return None;
    }
    let start = vstd::slice::slice_subrange(line, 0, n);
    assert(start@ =~= line@.take(n as int));
    if !same_chars(start, word) || (line[n] != ' ' && line[n] != '\t') {
        return None;
    }
    Some(text_of(trimmed_end(skip_blanks(chars_from(line, n)))))
}

fn word_of_file() -> (r: Vec<char>)
    ensures
        r@ == file_word(),
{
    let mut w: Vec<char> = Vec::new();
    w.push('i');
    w.push('n');
    w.push('c');
    w.push('l');
    w.push('u');
    w.push('d');
    w.push('e');
    assert(w@ =~= file_word());
    w
}

fn word_of_dir() -> (r: Vec<char>)
    ensures
        r@ == dir_word(),
{
    let mut w = word_of_file();
    w.push('d');
    w.push('i');
    w.push('r');
    assert(w@ =~= dir_word());
    w
}

impl FileParser {
    /// The state before the first line of a file.
    pub fn new() -> (r: Self)
        ensures
            r@ == fresh_parser(),
    {
        let path: Vec<Vec<char>> = Vec::new();
        assert(list_view(path@) =~= Seq::empty());
        FileParser { path, state: State::Init, level: 0, discard: 0, line: 0 }
    }

    fn header(&mut self, nodes: &mut Vec<Node>, cp: &[char]) -> (r: Result<(), ProfileError>)
        requires
            cp@.len() > 0,
        ensures
            step_ok(
                header_line((ParseV { nodes: list_view(old(nodes)@), st: old(self)@ }), cp@),
                (ParseV { nodes: list_view(final(nodes)@), st: final(self)@ }),
                r,
            ),
            final(self).level <= 1 || r is Err,
            final(self).line == old(self).line,
    {
        let after = chars_from(cp, 1);
        assert(after@ =~= cp@.drop_first());
        if self.level > 1 {
            return Err(bad_line(self.line, "section header must be at top level"));
        }
        let close: usize = match find_in(after, ']') {
            Some(c) => c,
            None => return Err(bad_line(self.line, "syntax error in section header")),
        };
        let name = cut_chars(after, 0, close);
        assert(name@ =~= after@.take(close as int));
        let rest = chars_from(after, close + 1);
        let star = rest.len() > 0 && rest[0] == '*';
        let tail = if star { chars_from(rest, 1) } else { rest };
        assert(star ==> tail@ =~= rest@.drop_first());
        if skip_blanks(tail).len() > 0 {
            return Err(bad_line(self.line, "syntax error in section header"));
        }
        let root: Vec<Vec<char>> = Vec::new();
        assert(list_view(root@) =~= Seq::empty());
        let was_final = enter(nodes, &root, &name, star);
        let mut path: Vec<Vec<char>> = Vec::new();
        path.push(name);
        assert(list_view(path@) =~= seq![name@]);
        self.path = path;
        self.level = 1;
        self.discard = if was_final { 1 } else { 0 };
        Ok(())
    }

    fn close(&mut self, nodes: &mut Vec<Node>, cp: &[char]) -> (r: Result<(), ProfileError>)
        requires
            cp@.len() > 0,
        ensures
            step_ok(
                close_line((ParseV { nodes: list_view(old(nodes)@), st: old(self)@ }), cp@),
                (ParseV { nodes: list_view(final(nodes)@), st: final(self)@ }),
                r,
            ),
            final(self).level <= old(self).level,
            final(self).line == old(self).line,
    {
        if self.level < 2 {
            return Err(bad_line(self.line, "extraneous close brace"));
        }
        if cp.len() > 1 && cp[1] == '*' {
            match find_section(nodes, &self.path) {
                Some(i) => mark_final(nodes, i),
                None => {},
            }
        }
        self.level = self.level - 1;
        if self.level < self.discard {
            self.discard = 0;
        }
        if self.discard == 0 && self.path.len() > 0 {
            let ghost before = list_view(self.path@);
            let _last = self.path.pop();
            assert(list_view(self.path@) =~= before.drop_last());
        }
        Ok(())
    }

    fn relation(&self, nodes: &mut Vec<Node>, tag: &[char], value: Vec<char>)
        ensures
            (ParseV { nodes: list_view(final(nodes)@), st: self@ }) == relation_line(
                (ParseV { nodes: list_view(old(nodes)@), st: self@ }),
                tag@,
                value@,
            ),
    {
        if self.discard != 0 {
            return;
        }
        let (name, star) = split_star(tag);
        match place(nodes, &self.path, name, false, true) {
            Placed::At(i) => {
                let copy = cut_chars(name, 0, name.len());
                assert(copy@ =~= name@);
                insert_node(
                    nodes,
                    i,
                    Node { path: dup_path(&self.path), name: copy, value: Some(value), is_final: star },
                );
            },
            _ => {},
        }
    }

    fn subsection(&mut self, nodes: &mut Vec<Node>, tag: &[char], pending: bool)
        requires
            old(self).level < usize::MAX,
        ensures
            (ParseV { nodes: list_view(final(nodes)@), st: final(self)@ }) == subsection_line(
                (ParseV { nodes: list_view(old(nodes)@), st: old(self)@ }),
                tag@,
                pending,
            ),
            final(self).level == old(self).level + 1,
            final(self).line == old(self).line,
    {
        let (name, star) = split_star(tag);
        if pending {
            self.state = State::GetObrace;
        }
        self.level = self.level + 1;
        if self.discard != 0 {
            return;
        }
        let was_final = enter(nodes, &self.path, name, star);
        let copy = cut_chars(name, 0, name.len());
        assert(copy@ =~= name@);
        let ghost before = list_view(self.path@);
        self.path.push(copy);
        assert(list_view(self.path@) =~= before.push(name@));
        if was_final {
            self.discard = self.level;
        }
    }

    fn equals(&mut self, nodes: &mut Vec<Node>, cp: &[char]) -> (r: Result<(), ProfileError>)
        requires
            old(self).level < usize::MAX,
        ensures
            step_ok(
                equals_line((ParseV { nodes: list_view(old(nodes)@), st: old(self)@ }), cp@),
                (ParseV { nodes: list_view(final(nodes)@), st: final(self)@ }),
                r,
            ),
            final(self).level <= old(self).level + 1,
            final(self).line == old(self).line,
    {
        let eq: usize = match find_in(cp, '=') {
            Some(e) => e,
            None => return Err(bad_line(self.line, "syntax error in relations line")),
        };
        if eq == 0 {
            return Err(bad_line(self.line, "syntax error in relations line"));
        }
        let front = vstd::slice::slice_subrange(cp, 0, eq);
        assert(front@ =~= cp@.take(eq as int));
        let tag = match take_tag(front) {
            Some(t) => t,
            None => return Err(bad_line(self.line, "syntax error in relations line")),
        };
        let value = skip_blanks(chars_from(cp, eq + 1));
        if value.len() > 0 && value[0] == '"' {
            let inner = chars_from(value, 1);
            assert(inner@ =~= value@.drop_first());
            let text = parse_quoted_string(inner);
            self.relation(nodes, tag, text);
            return Ok(());
        }
        if value.len() > 0 {
            let inner = chars_from(value, 1);
            assert(inner@ =~= value@.drop_first());
            if !(value[0] == '{' && skip_blanks(inner).len() == 0) {
                let t = trimmed_end(value);
                let text = cut_chars(t, 0, t.len());
                assert(text@ =~= t@);
                self.relation(nodes, tag, text);
                return Ok(());
            }
        }
        self.subsection(nodes, tag, value.len() == 0);
        Ok(())
    }

    fn inside(&mut self, nodes: &mut Vec<Node>, line: &[char]) -> (r: Result<(), ProfileError>)
        requires
            old(self).level < usize::MAX,
        ensures
            step_ok(
                std_line((ParseV { nodes: list_view(old(nodes)@), st: old(self)@ }), line@),
                (ParseV { nodes: list_view(final(nodes)@), st: final(self)@ }),
                r,
            ),
            r is Ok ==> final(self).level <= old(self).level + 1,
            final(self).line == old(self).line,
    {
        let cp = skip_blanks(line);
        if cp.len() == 0 || cp[0] == '\0' || cp[0] == ';' || cp[0] == '#' {
            return Ok(());
        }
        if cp[0] == '[' {
            return self.header(nodes, cp);
        }
        if cp[0] == '}' {
            return self.close(nodes, cp);
        }
        self.equals(nodes, cp)
    }

    /// Reads the next line of a file into `nodes`. After an error the parse
    /// is over.
    pub fn line(&mut self, nodes: &mut Vec<Node>, line: &[char]) -> (r: Result<Directive, ProfileError>)
        requires
            old(self).level <= old(self).line < usize::MAX,
        ensures
            match line_spec((ParseV { nodes: list_view(old(nodes)@), st: old(self)@ }), line@) {
                Ok((p, d)) => r is Ok && r->Ok_0@ == d && (ParseV {
                    nodes: list_view(final(nodes)@),
                    st: final(self)@,
                }) == p,
                Err(e) => r is Err && r->Err_0@ == e,
            },
            r is Ok ==> final(self).level <= final(self).line == old(self).line + 1,
    {
        self.line = self.line + 1;
        match take_operand(line, &word_of_file()) {
            Some(name) => return Ok(Directive::File(name)),
            None => {},
        }
        match take_operand(line, &word_of_dir()) {
            Some(name) => return Ok(Directive::Dir(name)),
            None => {},
        }
        match self.state {
            State::Init => {
                if line.len() == 0 || line[0] != '[' {
                    return Ok(Directive::Nothing);
                }
                self.state = State::Std;
                match self.inside(nodes, line) {
                    Ok(()) => Ok(Directive::Nothing),
                    Err(e) => Err(e),
                }
            },
            State::Std => match self.inside(nodes, line) {
                Ok(()) => Ok(Directive::Nothing),
                Err(e) => Err(e),
            },
            State::GetObrace => {
                let cp = skip_blanks(line);
                if cp.len() == 0 || cp[0] != '{' {
                    return Err(bad_line(self.line, "profile_parse(): missing '{'"));
                }
                self.state = State::Std;
                Ok(Directive::Nothing)
            },
        }
    }
}

} // verus!
