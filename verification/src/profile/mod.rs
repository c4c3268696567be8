//! krb5.conf-style profiles.
use vstd::prelude::*;

use crate::der::{list_view, opt_view};
use crate::text::{chars_from, chars_of, decimal, digits_of, find_in, joined, lower, lowered, owned, quote, quoted, same_chars, same_text, text_of, trim_start, trimmed_start};

pub mod deltat;
pub mod laws;
pub mod order;
pub mod parse;

pub use deltat::string_to_deltat;
pub use parse::{Directive, DirectiveV, FileParser, FileParserV};

use deltat::deltat_spec;
use parse::{bare_line, fresh_parser, line_spec, text_spec, Node, NodeV, ParseV};

verus! {

/// Errors from profile parsing and typed lookups.
#[derive(Debug)]
pub enum ProfileError {
    /// Parse error.
    Syntax {
        /// 1-based source line of the error.
        line: usize,
        /// Error description.
        msg: String,
    },
    /// A value that is no boolean.
    BadBoolean(String),
    /// A value that is no integer.
    BadInteger(String),
    /// A value that is no delta time.
    BadDeltat(String),
    /// A directive that names other files, which a text on its own cannot
    /// follow.
    Directive {
        /// 1-based source line of the directive.
        line: usize,
    },
    /// Filesystem error.
    Io,
}

/// Model of [`ProfileError`].
pub enum ProfileErrorV {
    Syntax { line: usize, msg: Seq<char> },
    BadBoolean(Seq<char>),
    BadInteger(Seq<char>),
    BadDeltat(Seq<char>),
    Directive { line: usize },
    Io,
}

impl View for ProfileError {
    type V = ProfileErrorV;

    open spec fn view(&self) -> ProfileErrorV {
        match self {
            ProfileError::Syntax { line, msg } => ProfileErrorV::Syntax { line: *line, msg: msg@ },
            ProfileError::BadBoolean(s) => ProfileErrorV::BadBoolean(s@),
            ProfileError::BadInteger(s) => ProfileErrorV::BadInteger(s@),
            ProfileError::BadDeltat(s) => ProfileErrorV::BadDeltat(s@),
            ProfileError::Directive { line } => ProfileErrorV::Directive { line: *line },
            ProfileError::Io => ProfileErrorV::Io,
        }
    }
}

impl ProfileErrorV {
    /// The message text of this error.
    pub open spec fn text(self) -> Seq<char> {
        match self {
            ProfileErrorV::Syntax { line, msg } => "profile syntax error line "@ + digits_of(line as nat) + ": "@ + msg,
            ProfileErrorV::BadBoolean(s) => "bad boolean value "@ + quoted(s),
            ProfileErrorV::BadInteger(s) => "bad integer value "@ + quoted(s),
            ProfileErrorV::BadDeltat(s) => "bad delta-time value "@ + quoted(s),
            ProfileErrorV::Directive { line } => "profile directive line "@ + digits_of(line as nat),
            ProfileErrorV::Io => "profile I/O error"@,
        }
    }
}

impl ProfileError {
    /// The message text of this error.
    pub fn message(&self) -> (r: String)
        ensures
            r@ == self@.text(),
    {
        match self {
            ProfileError::Syntax { line, msg } => joined("profile syntax error line ", decimal(*line as u64).as_str()).concat(
                ": ",
            ).concat(msg.as_str()),
            ProfileError::BadBoolean(s) => joined("bad boolean value ", quote(s.as_str()).as_str()),
            ProfileError::BadInteger(s) => joined("bad integer value ", quote(s.as_str()).as_str()),
            ProfileError::BadDeltat(s) => joined("bad delta-time value ", quote(s.as_str()).as_str()),
            ProfileError::Directive { line } => joined("profile directive line ", decimal(*line as u64).as_str()),
            ProfileError::Io => owned("profile I/O error"),
        }
    }
}

/// What a profile operation returned, by its views.
pub open spec fn profile_outcome<T: View>(r: Result<T, ProfileError>) -> Result<T::V, ProfileErrorV> {
    match r {
        Ok(x) => Ok(x@),
        Err(e) => Err(e@),
    }
}

/// A parsed profile (krb5.conf).
#[derive(Debug)]
pub struct Profile {
    /// Its nodes.
    pub nodes: Vec<Node>,
}

impl View for Profile {
    type V = Seq<NodeV>;

    open spec fn view(&self) -> Seq<NodeV> {
        list_view(self.nodes@)
    }
}

/// The values of the relation `key` in the section at `path`, in order.
pub open spec fn values_spec(nodes: Seq<NodeV>, path: Seq<Seq<char>>, key: Seq<char>) -> Seq<Seq<char>>
    decreases nodes.len(),
{
    if nodes.len() == 0 {
        Seq::empty()
    } else {
        let rest = values_spec(nodes.drop_last(), path, key);
        let n = nodes.last();
        if n.path == path && n.name == key && n.value is Some {
            rest.push(n.value->0)
        } else {
            rest
        }
    }
}

/// The names of the subsections of the section at `path`, in order.
pub open spec fn names_spec(nodes: Seq<NodeV>, path: Seq<Seq<char>>) -> Seq<Seq<char>>
    decreases nodes.len(),
{
    if nodes.len() == 0 {
        Seq::empty()
    } else {
        let rest = names_spec(nodes.drop_last(), path);
        let n = nodes.last();
        if n.path == path && n.value is None {
            rest.push(n.name)
        } else {
            rest
        }
    }
}

/// The values of the relation that a path of names ends with.
pub open spec fn lookup_spec(nodes: Seq<NodeV>, names: Seq<Seq<char>>) -> Seq<Seq<char>> {
    if names.len() == 0 {
        Seq::empty()
    } else {
        values_spec(nodes, names.drop_last(), names.last())
    }
}

/// The first value of a relation.
pub open spec fn first_spec(nodes: Seq<NodeV>, names: Seq<Seq<char>>) -> Option<Seq<char>> {
    let vs = lookup_spec(nodes, names);
    if vs.len() == 0 {
        None
    } else {
        Some(vs[0])
    }
}

/// Whether a character is a decimal digit.
pub open spec fn digit_char(c: char) -> bool {
    '0' <= c && c <= '9'
}

/// Whether all characters are decimal digits.
pub open spec fn all_digits(s: Seq<char>) -> bool {
    forall|i: int| 0 <= i < s.len() ==> digit_char(#[trigger] s[i])
}

/// The number of decimal digits.
pub open spec fn digits_value(s: Seq<char>) -> nat
    decreases s.len(),
{
    if s.len() == 0 {
        0
    } else {
        digits_value(s.drop_last()) * 10 + (s.last() as u32 - '0' as u32) as nat
    }
}

/// The integer a text stands for: an optional sign and at least one digit,
/// nothing else, and a value of 64 bits.
pub open spec fn integer_spec(t: Seq<char>) -> Option<i64> {
    let neg = t.len() > 0 && t[0] == '-';
    let signed = neg || (t.len() > 0 && t[0] == '+');
    let ds = if signed { t.drop_first() } else { t };
    let v = if neg { -(digits_value(ds) as int) } else { digits_value(ds) as int };
    if ds.len() > 0 && all_digits(ds) && i64::MIN <= v <= i64::MAX {
        Some(v as i64)
    } else {
        None
    }
}

/// The truth value of a word, in any case.
pub open spec fn boolean_spec(s: Seq<char>) -> Option<bool> {
    let w = lower(s);
    if w == "y"@ || w == "yes"@ || w == "true"@ || w == "t"@ || w == "1"@ || w == "on"@ {
        Some(true)
    } else if w == "n"@ || w == "no"@ || w == "false"@ || w == "nil"@ || w == "0"@ || w == "off"@ {
        Some(false)
    } else {
        None
    }
}

/// What a list of texts returned, by its views.
pub open spec fn texts(v: Seq<String>) -> Seq<Seq<char>> {
    list_view(v)
}

/// The truth value of a word: y, yes, true, t, 1, on; n, no, false, nil, 0,
/// off; in any case. None for other words.
pub fn conf_boolean(s: &str) -> (r: Option<bool>)
    ensures
        r == boolean_spec(s@),
{
    let w = lowered(s);
    let t = w.as_str();
    if same_text(t, "y") || same_text(t, "yes") || same_text(t, "true") || same_text(t, "t") || same_text(t, "1")
        || same_text(t, "on") {
        Some(true)
    } else if same_text(t, "n") || same_text(t, "no") || same_text(t, "false") || same_text(t, "nil") || same_text(
        t,
        "0",
    ) || same_text(t, "off") {
        Some(false)
    } else {
        None
    }
}

fn parse_integer(t: &[char]) -> (r: Option<i64>)
    ensures
        r == integer_spec(t@),
{
    let neg = t.len() > 0 && t[0] == '-';
    let signed = neg || (t.len() > 0 && t[0] == '+');
    let ds = if signed { chars_from(t, 1) } else { t };
    assert(signed ==> ds@ =~= t@.drop_first());
    if ds.len() == 0 {
        return None;
    }
    let mut v: i128 = 0;
    let mut i: usize = 0;
    assert(ds@.take(0) =~= Seq::empty());
    while i < ds.len()
        invariant
            i <= ds@.len(),
            v == digits_value(ds@.take(i as int)),
            0 <= v <= 0x8000_0000_0000_0000,
            forall|j: int| 0 <= j < i ==> digit_char(#[trigger] ds@[j]),
            ds@ == (if signed { t@.drop_first() } else { t@ }),
            ds@.len() > 0,
            neg == (t@.len() > 0 && t@[0] == '-'),
            signed == (neg || (t@.len() > 0 && t@[0] == '+')),
        decreases ds@.len() - i,
    {
        let c = ds[i];
        if c < '0' || c > '9' {
            assert(!digit_char(ds@[i as int]));
            assert(!all_digits(ds@));
            return None;
        }
        proof {
            assert(ds@.take(i + 1).drop_last() =~= ds@.take(i as int));
            assert(ds@.take(i + 1).last() == c);
            lemma_digits_grow(ds@, i + 1);
        }
        v = v * 10 + (c as u32 - '0' as u32) as i128;
        if v > 0x8000_0000_0000_0000 {
            return None;
        }
        i = i + 1;
    }
    assert(ds@.take(i as int) =~= ds@);
    if neg {
        Some((-v) as i64)
    } else if v <= 0x7fff_ffff_ffff_ffff {
        Some(v as i64)
    } else {
        None
    }
}

proof fn lemma_digits_grow(s: Seq<char>, k: int)
    requires
        0 <= k <= s.len(),
    ensures
        digits_value(s.take(k)) <= digits_value(s),
    decreases s.len() - k,
{
    if k == s.len() {
        assert(s.take(k) =~= s);
    } else {
        lemma_digits_grow(s, k + 1);
        assert(s.take(k + 1).drop_last() =~= s.take(k));
    }
}

fn path_of(names: &[&str], n: usize) -> (r: Vec<Vec<char>>)
    requires
        n <= names@.len(),
    ensures
        list_view(r@) == list_view(names@).take(n as int),
{
    let mut r: Vec<Vec<char>> = Vec::new();
    let mut i: usize = 0;
    while i < n
        invariant
            i <= n <= names@.len(),
            r@.len() == i,
            forall|j: int| 0 <= j < i ==> (#[trigger] r@[j])@ == names@[j]@,
        decreases n - i,
    {
        r.push(chars_of(names[i]));
        i = i + 1;
    }
    assert(list_view(r@) =~= list_view(names@).take(n as int));
    r
}

impl Profile {
    /// A profile without any node.
    pub fn empty() -> (r: Profile)
        ensures
            r@ == Seq::<NodeV>::empty(),
    {
        let nodes: Vec<Node> = Vec::new();
        assert(list_view(nodes@) =~= Seq::empty());
        Profile { nodes }
    }

    /// Reads the next line of a file into the profile; what it asks for
    /// beyond that comes back. Files that are named by a directive are read
    /// into the same profile, each with a parser of its own. After an error
    /// the parse is over.
    pub fn feed(&mut self, st: &mut FileParser, line: &str) -> (r: Result<Directive, ProfileError>)
        requires
            old(st).level <= old(st).line < usize::MAX,
        ensures
            match line_spec((ParseV { nodes: old(self)@, st: old(st)@ }), line@) {
                Ok((p, d)) => r is Ok && r->Ok_0@ == d && (ParseV { nodes: final(self)@, st: final(st)@ }) == p,
                Err(e) => r is Err && r->Err_0@ == e,
            },
            r is Ok ==> final(st).level <= final(st).line == old(st).line + 1,
    {
        let cs = chars_of(line);
        st.line(&mut self.nodes, &cs)
    }

    /// Parse in-memory text. A directive that names other files is an error
    /// here: a loader that can read them feeds the lines one by one.
    pub fn parse(text: &str) -> (r: Result<Profile, ProfileError>)
        requires
            text@.len() < usize::MAX,
        ensures
            match text_spec((ParseV { nodes: Seq::empty(), st: fresh_parser() }), text@) {
                Ok(p) => r is Ok && r->Ok_0@ == p.nodes,
                Err(e) => r is Err && r->Err_0@ == e,
            },
    {
        let cs = chars_of(text);
        let mut profile = Profile::empty();
        let mut st = FileParser::new();
        let mut rest: &[char] = &cs;
        let ghost start = ParseV { nodes: Seq::empty(), st: fresh_parser() };
        loop
            invariant
                start == (ParseV { nodes: Seq::empty(), st: fresh_parser() }),
                text_spec(start, text@) == text_spec((ParseV { nodes: profile@, st: st@ }), rest@),
                st.level <= st.line,
                st.line + rest@.len() <= text@.len() < usize::MAX,
            decreases rest@.len(),
        {
            let end = find_in(rest, '\n');
            let raw = match end {
                Some(i) => vstd::slice::slice_subrange(rest, 0, i),
                None => rest,
            };
            assert(end matches Some(i) ==> raw@ =~= rest@.take(i as int));
            let n: usize = raw.len();
            let bare = if n > 0 && raw[n - 1] == '\r' {
                vstd::slice::slice_subrange(raw, 0, n - 1)
            } else {
                raw
            };
            assert(bare@ =~= bare_line(raw@));
            match st.line(&mut profile.nodes, bare) {
                Err(e) => return Err(e),
                Ok(Directive::Nothing) => {},
                Ok(_) => return Err(ProfileError::Directive { line: st.line }),
            }
            match end {
                None => return Ok(profile),
                Some(i) => {
                    rest = chars_from(rest, i + 1);
                },
            }
        }
    }

    /// All values of the relation `names.last()` under the section path
    /// `names[..len-1]`, in file order across merged sections.
    pub fn get_values(&self, names: &[&str]) -> (r: Vec<String>)
        ensures
            texts(r@) == lookup_spec(self@, list_view(names@)),
    {
        let mut out: Vec<String> = Vec::new();
        assert(texts(out@) =~= Seq::empty());
        if names.len() == 0 {
            return out;
        }
        let path = path_of(names, names.len() - 1);
        let key = chars_of(names[names.len() - 1]);
        let ghost p = list_view(names@).drop_last();
        assert(list_view(path@) =~= p);
        assert(key@ == list_view(names@).last());
        let mut i: usize = 0;
        assert(self@.take(0) =~= Seq::empty());
        while i < self.nodes.len()
            invariant
                i <= self.nodes@.len(),
                list_view(path@) == p,
                texts(out@) == values_spec(self@.take(i as int), p, key@),
            decreases self.nodes@.len() - i,
        {
            let n = &self.nodes[i];
            proof {
                assert(self@.take(i + 1).drop_last() =~= self@.take(i as int));
                assert(self@.take(i + 1).last() == n@);
            }
            if parse::same_path(&n.path, &path) && same_chars(&n.name, &key) {
                match &n.value {
                    Some(v) => {
                        let ghost before = texts(out@);
                        out.push(text_of(v));
                        assert(texts(out@) =~= before.push(v@));
                    },
                    None => {},
                }
            }
            i = i + 1;
        }
        assert(self@.take(i as int) =~= self@);
        out
    }

    /// First value of the relation.
    pub fn get_string(&self, names: &[&str]) -> (r: Option<String>)
        ensures
            opt_view(r) == first_spec(self@, list_view(names@)),
    {
        let vs = self.get_values(names);
        if vs.len() == 0 {
            return None;
        }
        assert(texts(vs@)[0] == vs@[0]@);
        Some(vs[0].clone())
    }

    /// The value of the relation as an integer: leading white space, a sign
    /// and digits; anything else fails.
    pub fn get_integer(&self, names: &[&str], default: i64) -> (r: Result<i64, ProfileError>)
        ensures
            profile_outcome(r) == (match first_spec(self@, list_view(names@)) {
                None => Ok::<i64, ProfileErrorV>(default),
                Some(s) => match integer_spec(trim_start(s)) {
                    Some(v) => Ok::<i64, ProfileErrorV>(v),
                    None => Err::<i64, ProfileErrorV>(ProfileErrorV::BadInteger(s)),
                },
            }),
    {
        let s = match self.get_string(names) {
            Some(s) => s,
            None => return Ok(default),
        };
        let cs = chars_of(s.as_str());
        match parse_integer(trimmed_start(&cs)) {
            Some(v) => Ok(v),
            None => Err(ProfileError::BadInteger(s)),
        }
    }

    /// The value of the relation as a truth value.
    pub fn get_boolean(&self, names: &[&str], default: bool) -> (r: Result<bool, ProfileError>)
        ensures
            profile_outcome(r) == (match first_spec(self@, list_view(names@)) {
                None => Ok::<bool, ProfileErrorV>(default),
                Some(s) => match boolean_spec(s) {
                    Some(v) => Ok::<bool, ProfileErrorV>(v),
                    None => Err::<bool, ProfileErrorV>(ProfileErrorV::BadBoolean(s)),
                },
            }),
    {
        let s = match self.get_string(names) {
            Some(s) => s,
            None => return Ok(default),
        };
        match conf_boolean(s.as_str()) {
            Some(v) => Ok(v),
            None => Err(ProfileError::BadBoolean(s)),
        }
    }

    /// The value of the relation as a delta time; absent relation gives
    /// `default`.
    pub fn get_deltat(&self, names: &[&str], default: i32) -> (r: Result<i32, ProfileError>)
        ensures
            profile_outcome(r) == (match first_spec(self@, list_view(names@)) {
                None => Ok::<i32, ProfileErrorV>(default),
                Some(s) => deltat_spec(s),
            }),
    {
        match self.get_string(names) {
            Some(s) => string_to_deltat(s.as_str()),
            None => Ok(default),
        }
    }

    /// Names of subsections under the path (e.g. realms under `[realms]`),
    /// sorted, none of them twice.
    pub fn subsection_names(&self, names: &[&str]) -> (r: Vec<String>)
        ensures
            texts(r@) == names_spec(self@, list_view(names@)),
    {
        let path = path_of(names, names.len());
        let ghost p = list_view(names@);
        assert(list_view(path@) =~= p);
        let mut out: Vec<String> = Vec::new();
        assert(texts(out@) =~= Seq::empty());
        let mut i: usize = 0;
        assert(self@.take(0) =~= Seq::empty());
        while i < self.nodes.len()
            invariant
                i <= self.nodes@.len(),
                list_view(path@) == p,
                texts(out@) == names_spec(self@.take(i as int), p),
            decreases self.nodes@.len() - i,
        {
            let n = &self.nodes[i];
            proof {
                assert(self@.take(i + 1).drop_last() =~= self@.take(i as int));
                assert(self@.take(i + 1).last() == n@);
            }
            if parse::same_path(&n.path, &path) && n.value.is_none() {
                let ghost before = texts(out@);
                out.push(text_of(&n.name));
                assert(texts(out@) =~= before.push(n.name@));
            }
            i = i + 1;
        }
        assert(self@.take(i as int) =~= self@);
        out
    }
}

/// Whether a file of a directory is read: none that starts with a dot;
/// letters, digits, `-` and `_`, or anything that ends in `.conf`.
pub open spec fn valid_name_spec(name: Seq<char>) -> bool {
    let n = name.len() as int;
    if n > 0 && name[0] == '.' {
        false
    } else if n >= 5 && name.skip(n - 5) == seq!['.', 'c', 'o', 'n', 'f'] {
        true
    } else {
        forall|i: int| 0 <= i < n ==> plain_char(#[trigger] name[i])
    }
}

/// A letter, digit, `-` or `_`.
pub open spec fn plain_char(c: char) -> bool {
    ('a' <= c && c <= 'z') || ('A' <= c && c <= 'Z') || ('0' <= c && c <= '9') || c == '-' || c == '_'
}

/// Whether a file of a directory is read.
pub fn valid_name(name: &str) -> (r: bool)
    ensures
        r == valid_name_spec(name@),
{
    let cs = chars_of(name);
    let n: usize = cs.len();
    if n > 0 && cs[0] == '.' {
        return false;
    }
    if n >= 5 && cs[n - 5] == '.' && cs[n - 4] == 'c' && cs[n - 3] == 'o' && cs[n - 2] == 'n' && cs[n - 1] == 'f' {
        assert(cs@.skip(n - 5) =~= seq!['.', 'c', 'o', 'n', 'f']);
        return true;
    }
    assert(n >= 5 ==> cs@.skip(n - 5) != seq!['.', 'c', 'o', 'n', 'f']) by {
        if n >= 5 {
            let t = cs@.skip(n - 5);
            let w = seq!['.', 'c', 'o', 'n', 'f'];
            assert(t[0] == cs@[n - 5] && t[1] == cs@[n - 4] && t[2] == cs@[n - 3] && t[3] == cs@[n - 2] && t[4]
                == cs@[n - 1]);
            assert(w[0] == '.' && w[1] == 'c' && w[2] == 'o' && w[3] == 'n' && w[4] == 'f');
        }
    }
    let mut i: usize = 0;
    while i < n
        invariant
            i <= n == cs@.len(),
            cs@ == name@,
            forall|j: int| 0 <= j < i ==> plain_char(#[trigger] cs@[j]),
            !(n > 0 && cs@[0] == '.'),
            n >= 5 ==> cs@.skip(n - 5) != seq!['.', 'c', 'o', 'n', 'f'],
        decreases n - i,
    {
        let c = cs[i];
        let plain = (c >= 'a' && c <= 'z') || (c >= 'A' && c <= 'Z') || (c >= '0' && c <= '9') || c == '-' || c == '_';
        if !plain {
            assert(!plain_char(cs@[i as int]));
            return false;
        }
        i = i + 1;
    }
    true
}

} // verus!
