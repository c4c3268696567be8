//! Host-string and krb5srv URI field parsing.
use vstd::prelude::*;

use crate::locate::{LocateError, LocateErrorV, Transport};
use crate::profile::{all_digits, digit_char, digits_value};
use crate::text::{begins, begins_with, chars_of, find_char, find_text, joined, lower, lowered, owned, quote, quoted, same_text, text_from, text_to};

verus! {

/// Whether a text is a number: digits, at least one.
pub open spec fn numeric_spec(s: Seq<char>) -> bool {
    s.len() > 0 && all_digits(s)
}

/// The port that a text gives.
pub open spec fn port_spec(s: Seq<char>) -> Result<u16, LocateErrorV> {
    if !numeric_spec(s) {
        Err(LocateErrorV::Invalid("bad port "@ + quoted(s)))
    } else if digits_value(s) > 0xFFFF {
        Err(LocateErrorV::Invalid("port out of range "@ + quoted(s)))
    } else {
        Ok(digits_value(s) as u16)
    }
}

/// Index of the first space, tab or colon.
pub open spec fn host_end(s: Seq<char>) -> Option<int>
    decreases s.len(),
{
    if s.len() == 0 {
        None
    } else if s[0] == ' ' || s[0] == '\t' || s[0] == ':' {
        Some(0)
    } else {
        match host_end(s.drop_first()) {
            Some(i) => Some(i + 1),
            None => None,
        }
    }
}

/// A host field cut into the host and what follows it.
pub open spec fn host_split(s: Seq<char>) -> Result<(Seq<char>, Seq<char>), LocateErrorV> {
    if begins(s, '[') {
        let after = s.skip(1);
        match find_char(after, ']') {
            None => Err(LocateErrorV::Invalid("unclosed '['"@)),
            Some(close) => {
                let rest = after.skip(close + 1);
                if rest.len() == 0 || rest[0] == ':' {
                    Ok((after.take(close), rest))
                } else {
                    Err(LocateErrorV::Invalid("garbage after ']'"@))
                }
            },
        }
    } else {
        match host_end(s) {
            Some(i) => Ok((s.take(i), s.skip(i))),
            None => Ok((s, Seq::empty())),
        }
    }
}

/// The port that stands behind a host.
pub open spec fn port_after(rest: Seq<char>, default_port: u16) -> Result<u16, LocateErrorV> {
    if rest.len() == 0 {
        Ok(default_port)
    } else if rest[0] == ':' {
        port_spec(rest.skip(1))
    } else {
        Err(LocateErrorV::Invalid("garbage after host"@))
    }
}

/// The host and the port that a host string gives.
pub open spec fn host_string_spec(s: Seq<char>, default_port: u16) -> Result<(Option<Seq<char>>, u16), LocateErrorV> {
    if s.len() == 0 || s[0] == ':' {
        Err(LocateErrorV::Invalid("empty or missing host"@))
    } else if numeric_spec(s) {
        match port_spec(s) {
            Ok(port) => Ok((None, port)),
            Err(e) => Err(e),
        }
    } else {
        match host_split(s) {
            Err(e) => Err(e),
            Ok((host, rest)) => match port_after(rest, default_port) {
                Err(e) => Err(e),
                Ok(port) => if host.len() == 0 {
                    Err(LocateErrorV::Invalid("empty host"@))
                } else {
                    Ok((Some(host), port))
                },
            },
        }
    }
}

/// What parsing a host string returned, by its views.
pub open spec fn host_outcome(r: Result<(Option<String>, u16), LocateError>) -> Result<(Option<Seq<char>>, u16), LocateErrorV> {
    match r {
        Ok((Some(h), p)) => Ok((Some(h@), p)),
        Ok((None, p)) => Ok((None, p)),
        Err(e) => Err(e@),
    }
}

/// Whether a text begins with a word, in any case of ASCII letters.
pub open spec fn has_word(s: Seq<char>, word: Seq<char>) -> bool {
    s.len() >= word.len() && lower(s.take(word.len() as int)) == word
}

/// Whether a flags field marks a primary server.
pub open spec fn marks_primary(flags: Seq<char>) -> bool {
    flags.contains('m') || flags.contains('M')
}

/// The transport that a URI names, and what follows its name.
pub open spec fn uri_transport(s: Seq<char>) -> Option<(Transport, Seq<char>)> {
    if has_word(s, "udp"@) {
        Some((Transport::Udp, s.skip("udp"@.len() as int)))
    } else if has_word(s, "tcp"@) {
        Some((Transport::Tcp, s.skip("tcp"@.len() as int)))
    } else if has_word(s, "kkdcp"@) {
        Some((Transport::Https, s.skip("kkdcp"@.len() as int)))
    } else {
        None
    }
}

/// The transport, the host field and the primary mark of a krb5srv URI.
pub open spec fn uri_fields_spec(uri: Seq<char>) -> Option<(Transport, Seq<char>, bool)> {
    let after = uri.skip("krb5srv"@.len() as int);
    if !has_word(uri, "krb5srv"@) || !begins(after, ':') {
        None
    } else {
        let fields = after.skip(1);
        match find_char(fields, ':') {
            None => None,
            Some(colon) => match uri_transport(fields.skip(colon + 1)) {
                None => None,
                Some((t, rest)) => if begins(rest, ':') {
                    Some((t, rest.skip(1), marks_primary(fields.take(colon))))
                } else {
                    None
                },
            },
        }
    }
}

/// An HTTPS URL cut into the host and the path; other text as it is.
pub open spec fn https_spec(s: Seq<char>) -> (Option<Transport>, Seq<char>, Option<Seq<char>>) {
    let n = "https://"@.len() as int;
    if s.len() >= n && s.take(n) == "https://"@ {
        let rest = s.skip(n);
        match find_char(rest, '/') {
            Some(i) => (Some(Transport::Https), rest.take(i), Some(rest.skip(i))),
            None => (Some(Transport::Https), rest, None),
        }
    } else {
        (None, s, None)
    }
}

fn invalid(m: &str) -> (r: LocateError)
    ensures
        r@ == LocateErrorV::Invalid(m@),
{
    LocateError::Invalid(owned(m))
}

/// Whether a text is all digits, and not empty.
pub fn is_string_numeric(s: &str) -> (r: bool)
    ensures
        r == numeric_spec(s@),
{
    let cs = chars_of(s);
    let mut i: usize = 0;
    while i < cs.len()
        invariant
            i <= cs@.len(),
            cs@ == s@,
            forall|j: int| 0 <= j < i ==> digit_char(#[trigger] cs@[j]),
        decreases cs@.len() - i,
    {
        let c = cs[i];
        if c < '0' || c > '9' {
            assert(!digit_char(s@[i as int]));
            return false;
        }
        i = i + 1;
    }
    cs.len() > 0
}

proof fn lemma_digits_monotone(s: Seq<char>, k: int)
    requires
        0 <= k <= s.len(),
    ensures
        digits_value(s.take(k)) <= digits_value(s),
    decreases s.len() - k,
{
    if k == s.len() {
        assert(s.take(k) =~= s);
    } else {
        lemma_digits_monotone(s, k + 1);
        assert(s.take(k + 1).drop_last() =~= s.take(k));
    }
}

fn parse_port(s: &str) -> (r: Result<u16, LocateError>)
    ensures
        match r {
            Ok(p) => port_spec(s@) == Ok::<u16, LocateErrorV>(p),
            Err(e) => port_spec(s@) == Err::<u16, LocateErrorV>(e@),
        },
{
    if !is_string_numeric(s) {
        return Err(LocateError::Invalid(joined("bad port ", quote(s).as_str())));
    }
    let cs = chars_of(s);
    let mut v: u32 = 0;
    let mut i: usize = 0;
    assert(cs@.take(0) =~= Seq::empty());
    while i < cs.len()
        invariant
            i <= cs@.len(),
            cs@ == s@,
            numeric_spec(s@),
            v == digits_value(cs@.take(i as int)),
            v <= 0xFFFF,
        decreases cs@.len() - i,
    {
        let c = cs[i];
        proof {
            assert(digit_char(s@[i as int]));
            assert(cs@.take(i + 1).drop_last() =~= cs@.take(i as int));
            assert(cs@.take(i + 1).last() == c);
            lemma_digits_monotone(cs@, i + 1);
        }
        v = v * 10 + (c as u32 - '0' as u32);
        if v > 0xFFFF {
            return Err(LocateError::Invalid(joined("port out of range ", quote(s).as_str())));
        }
        i = i + 1;
    }
    assert(cs@.take(i as int) =~= cs@);
    Ok(v as u16)
}

fn find_host_end(s: &str) -> (r: Option<usize>)
    ensures
        match r {
            Some(i) => host_end(s@) == Some(i as int) && i < s@.len(),
            None => host_end(s@) is None,
        },
{
    let cs = chars_of(s);
    let mut i: usize = 0;
    assert(cs@.skip(0) =~= cs@);
    while i < cs.len()
        invariant
            i <= cs@.len(),
            cs@ == s@,
            match host_end(cs@.skip(i as int)) {
                Some(k) => host_end(cs@) == Some(k + i),
                None => host_end(cs@) is None,
            },
        decreases cs@.len() - i,
    {
        assert(cs@.skip(i as int).drop_first() =~= cs@.skip(i + 1));
        assert(cs@.skip(i as int)[0] == cs@[i as int]);
        let c = cs[i];
        if c == ' ' || c == '\t' || c == ':' {
            return Some(i);
        }
        i = i + 1;
    }
    assert(cs@.skip(i as int).len() == 0);
    None
}

fn split_host<'a>(s: &'a str) -> (r: Result<(&'a str, &'a str), LocateError>)
    ensures
        match r {
            Ok((host, rest)) => host_split(s@) == Ok::<(Seq<char>, Seq<char>), LocateErrorV>((host@, rest@)),
            Err(e) => host_split(s@) == Err::<(Seq<char>, Seq<char>), LocateErrorV>(e@),
        },
{
    if begins_with(s, '[') {
        let after = text_from(s, 1);
        let close: usize = match find_text(after, ']') {
            Some(i) => i,
            None => return Err(invalid("unclosed '['")),
        };
        let rest = text_from(after, close + 1);
        if rest.unicode_len() > 0 && !begins_with(rest, ':') {
            return Err(invalid("garbage after ']'"));
        }
        Ok((text_to(after, close), rest))
    } else {
        match find_host_end(s) {
            Some(i) => Ok((text_to(s, i), text_from(s, i))),
            None => {
                let n: usize = s.unicode_len();
                let rest = text_from(s, n);
                assert(rest@ =~= Seq::empty());
                Ok((s, rest))
            },
        }
    }
}

/// Parses a host string: `host[:port]`, numeric-only `port`, or
/// `[v6host][:port]`.
///
/// A numeric-only string is a port with no host; `host` is bounded by the
/// first space, tab, or colon. Empty string, leading ':', and bad or
/// out-of-range ports are errors.
pub fn parse_host_string(s: &str, default_port: u16) -> (r: Result<(Option<String>, u16), LocateError>)
    ensures
        host_outcome(r) == host_string_spec(s@, default_port),
{
    if s.unicode_len() == 0 || begins_with(s, ':') {
        return Err(invalid("empty or missing host"));
    }
    if is_string_numeric(s) {
        return match parse_port(s) {
            Ok(port) => Ok((None, port)),
            Err(e) => Err(e),
        };
    }
    let (host, rest) = match split_host(s) {
        Ok(x) => x,
        Err(e) => return Err(e),
    };
    let port: u16 = if rest.unicode_len() == 0 {
        default_port
    } else if begins_with(rest, ':') {
        match parse_port(text_from(rest, 1)) {
            Ok(p) => p,
            Err(e) => return Err(e),
        }
    } else {
        return Err(invalid("garbage after host"));
    };
    if host.unicode_len() == 0 {
        return Err(invalid("empty host"));
    }
    Ok((Some(owned(host)), port))
}

fn starts_with_word(s: &str, word: &str) -> (r: bool)
    ensures
        r == has_word(s@, word@),
        r ==> s@.len() >= word@.len(),
{
    let n: usize = word.unicode_len();
    if s.unicode_len() < n {
        return false;
    }
    let w = lowered(text_to(s, n));
    same_text(w.as_str(), word)
}

fn flags_primary(flags: &str) -> (r: bool)
    ensures
        r == marks_primary(flags@),
{
    let cs = chars_of(flags);
    let mut i: usize = 0;
    while i < cs.len()
        invariant
            i <= cs@.len(),
            cs@ == flags@,
            forall|j: int| 0 <= j < i ==> #[trigger] cs@[j] != 'm' && cs@[j] != 'M',
        decreases cs@.len() - i,
    {
        if cs[i] == 'm' || cs[i] == 'M' {
            assert(flags@[i as int] == cs@[i as int]);
            return true;
        }
        i = i + 1;
    }
    false
}

/// Parses `krb5srv:flags:udp|tcp|kkdcp:host`, scheme and transport
/// case-insensitive, 'm'/'M' flag marks primary. Returns (transport,
/// host_field, primary); None on any parse failure.
pub fn parse_uri_fields<'a>(uri: &'a str) -> (r: Option<(Transport, &'a str, bool)>)
    ensures
        match r {
            Some((t, host, primary)) => uri_fields_spec(uri@) == Some((t, host@, primary)),
            None => uri_fields_spec(uri@) is None,
        },
{
    if !starts_with_word(uri, "krb5srv") {
        return None;
    }
    let after = text_from(uri, "krb5srv".unicode_len());
    if !begins_with(after, ':') {
        return None;
    }
    let fields = text_from(after, 1);
    let colon: usize = match find_text(fields, ':') {
        Some(i) => i,
        None => return None,
    };
    let primary = flags_primary(text_to(fields, colon));
    let s = text_from(fields, colon + 1);
    let (t, rest) = if starts_with_word(s, "udp") {
        (Transport::Udp, text_from(s, "udp".unicode_len()))
    } else if starts_with_word(s, "tcp") {
        (Transport::Tcp, text_from(s, "tcp".unicode_len()))
    } else if starts_with_word(s, "kkdcp") {
        (Transport::Https, text_from(s, "kkdcp".unicode_len()))
    } else {
        return None;
    };
    if !begins_with(rest, ':') {
        return None;
    }
    Some((t, text_from(rest, 1), primary))
}

/// If `s` starts with "https://", gives (Some(Https), host, Some(path)) where
/// host is the part after the scheme up to the first '/', and path is the
/// remainder starting at '/'. Otherwise (None, s, None).
pub fn parse_uri_if_https<'a>(s: &'a str) -> (r: (Option<Transport>, &'a str, Option<&'a str>))
    ensures
        https_spec(s@) == (
            r.0,
            r.1@,
            match r.2 {
                Some(p) => Some(p@),
                None => None,
            },
        ),
{
    let n: usize = "https://".unicode_len();
    if s.unicode_len() < n || !same_text(text_to(s, n), "https://") {
        return (None, s, None);
    }
    let rest = text_from(s, n);
    match find_text(rest, '/') {
        Some(i) => (Some(Transport::Https), text_to(rest, i), Some(text_from(rest, i))),
        None => (Some(Transport::Https), rest, None),
    }
}

} // verus!
