//! URLs: the parser and the text form.
//!
//! The grammar is `<scheme> "://" <host> [":" <port>] [<path>]`. The scheme is
//! any non-empty run without a line feed, and takes as much of the input as
//! it can while the rest still fits; the host is the longest run free of `:`,
//! `/`, `?` and `#`; the port is a run of decimal digits; the path starts with
//! `/`, holds no line feed, and reaches the end of the input.

pub mod grammar;
pub mod laws;

use crate::text::{
    decimal, is_digit, lemma_decimal_prefix, lemma_run_end, lemma_run_start, push_decimal, run_end,
    run_start, same, scan, scan_back, to_chars, to_text, Class,
};
use grammar::{
    clean, fits, is_ascii_url, lemma_longest_split, lemma_parsed_is_ascii,
    lemma_parsed_is_well_formed, longest_split, parse_spec, path_fits, path_from, port_text,
    splits_at, tail_fits, text_of, well_formed,
};
use vstd::prelude::*;
use vstd::string::{is_ascii, StringExecFns};

verus! {

/// The schemes that the parser recognises.
#[derive(Debug, Clone, Copy, PartialEq, Eq, Hash, Structural)]
pub enum Scheme {
    /// `http`: a plain connection, to port 80 by default.
    HTTP,
    /// `https`: a connection over TLS, to port 443 by default.
    HTTPS,
    /// `file`: a file of this machine, not fetched over the network.
    File,
}

/// A parsed URL.
#[derive(Debug, Clone, PartialEq, Eq, Hash)]
pub struct URL {
    pub scheme: Scheme,
    pub host: String,
    /// `None` stands for the scheme's default port.
    pub port: Option<u16>,
    pub path: String,
}

/// What a `URL` holds, as mathematical values.
#[verifier::ext_equal]
pub struct UrlView {
    pub scheme: Scheme,
    pub host: Seq<char>,
    pub port: Option<u16>,
    pub path: Seq<char>,
}

impl View for URL {
    type V = UrlView;

    open spec fn view(&self) -> UrlView {
        UrlView { scheme: self.scheme, host: self.host@, port: self.port, path: self.path@ }
    }
}

/// Why a text is not a URL.
#[derive(Debug, Clone, PartialEq, Eq)]
pub enum ParseError {
    /// The text does not fit the grammar.
    Malformed,
    /// The text fits the grammar, but its scheme, given here, is none of
    /// `http`, `https` and `file`.
    UnsupportedScheme(String),
    /// The port's digits stand for a number above 65535.
    InvalidPort,
}

/// What a `ParseError` holds, as mathematical values.
#[verifier::ext_equal]
pub enum ParseFault {
    Malformed,
    UnsupportedScheme(Seq<char>),
    InvalidPort,
}

impl View for ParseError {
    type V = ParseFault;

    open spec fn view(&self) -> ParseFault {
        match self {
            ParseError::Malformed => ParseFault::Malformed,
            ParseError::UnsupportedScheme(s) => ParseFault::UnsupportedScheme(s@),
            ParseError::InvalidPort => ParseFault::InvalidPort,
        }
    }
}

impl ParseFault {
    /// What is wrong with the text, in words.
    pub open spec fn description(self) -> Seq<char> {
        match self {
            ParseFault::Malformed => "malformed or unsupported URL"@,
            ParseFault::UnsupportedScheme(scheme) => "unsupported scheme: "@ + scheme,
            ParseFault::InvalidPort => "invalid port"@,
        }
    }
}

impl ParseError {
    /// What is wrong with the text, in words.
    pub fn describe(&self) -> (text: String)
        ensures
            text@ == self@.description(),
    {
        match self {
            ParseError::Malformed => String::from_str("malformed or unsupported URL"),
            ParseError::UnsupportedScheme(scheme) => {
                let mut text = String::from_str("unsupported scheme: ");
                text.append(scheme.as_str());
                text
            },
            ParseError::InvalidPort => String::from_str("invalid port"),
        }
    }
}

impl Scheme {
    /// The scheme as it is written in a URL.
    pub open spec fn token(self) -> Seq<char> {
        match self {
            Scheme::HTTP => seq!['h', 't', 't', 'p'],
            Scheme::HTTPS => seq!['h', 't', 't', 'p', 's'],
            Scheme::File => seq!['f', 'i', 'l', 'e'],
        }
    }

    /// The scheme that `token` names, if any. The comparison is exact:
    /// capitals make another token.
    pub open spec fn named(token: Seq<char>) -> Option<Scheme> {
        if token == Scheme::HTTP.token() {
            Some(Scheme::HTTP)
        } else if token == Scheme::HTTPS.token() {
            Some(Scheme::HTTPS)
        } else if token == Scheme::File.token() {
            Some(Scheme::File)
        } else {
            None
        }
    }

    /// The port to use where a URL names none: 80 for `http`, 443 for
    /// `https`. A `file` URL has no port.
    pub open spec fn default_port_spec(self) -> Option<u16> {
        match self {
            Scheme::HTTP => Some(80u16),
            Scheme::HTTPS => Some(443u16),
            Scheme::File => None,
        }
    }

    /// The port to use where a URL names none.
    #[verifier::when_used_as_spec(default_port_spec)]
    pub fn default_port(self) -> (port: Option<u16>)
        ensures
            port == self.default_port_spec(),
    {
        match self {
            Scheme::HTTP => Some(80),
            Scheme::HTTPS => Some(443),
            Scheme::File => None,
        }
    }

    /// The scheme that `name` names, if any.
    pub fn from_name(name: &str) -> (scheme: Option<Scheme>)
        ensures
            scheme == Scheme::named(name@),
    {
        if same(name, Scheme::HTTP.name()) {
            Some(Scheme::HTTP)
        } else if same(name, Scheme::HTTPS.name()) {
            Some(Scheme::HTTPS)
        } else if same(name, Scheme::File.name()) {
            Some(Scheme::File)
        } else {
            None
        }
    }

    /// The scheme as it is written in a URL.
    pub fn name(self) -> (name: &'static str)
        ensures
            name@ == self.token(),
    {
        match self {
            Scheme::HTTP => {
                proof {
                    reveal_strlit("http");
                }
                "http"
            },
            Scheme::HTTPS => {
                proof {
                    reveal_strlit("https");
                }
                "https"
            },
            Scheme::File => {
                proof {
                    reveal_strlit("file");
                }
                "file"
            },
        }
    }
}

/// Where the line feeds of a text leave room: `lead` is the end of the
/// longest prefix without one, `tail` the start of the longest suffix
/// without one.
struct Room {
    lead: usize,
    tail: usize,
}

impl Room {
    /// This is the room that the line feeds of `s` leave.
    spec fn of(self, s: Seq<char>) -> bool {
        &&& self.lead == run_end(s, 0, Class::Line)
        &&& self.tail == run_start(s, 0, s.len() as int, Class::Line)
    }
}

/// A prefix is clean exactly if it ends within the longest clean prefix, a
/// suffix exactly if it starts within the longest clean suffix.
proof fn lemma_room(s: Seq<char>, at: int)
    requires
        0 <= at <= s.len(),
    ensures
        clean(s, 0, at) == (at <= run_end(s, 0, Class::Line)),
        clean(s, at, s.len() as int) == (at >= run_start(s, 0, s.len() as int, Class::Line)),
{
    lemma_run_end(s, 0, Class::Line);
    lemma_run_start(s, 0, s.len() as int, Class::Line);
}

/// Finds where the line feeds of `v` leave room.
fn room(v: &Vec<char>) -> (room: Room)
    ensures
        room.of(v@),
{
    Room { lead: scan(v, 0, Class::Line), tail: scan_back(v, 0, v.len(), Class::Line) }
}

/// Whether `v` ends at `at` or a path starts there that reaches the end.
fn path_is_fit(v: &Vec<char>, at: usize, room: &Room) -> (r: bool)
    requires
        at <= v.len(),
        room.of(v@),
    ensures
        r == path_fits(v@, at as int),
{
    proof {
        lemma_room(v@, at as int);
    }
    at == v.len() || (v[at] == '/' && at >= room.tail)
}

/// Whether `v` is, from `from` on, a host, then perhaps a port, then
/// perhaps a path.
fn tail_is_fit(v: &Vec<char>, from: usize, room: &Room) -> (r: bool)
    requires
        from <= v.len(),
        room.of(v@),
    ensures
        r == tail_fits(v@, from as int),
{
    let h = scan(v, from, Class::Host);
    if h < v.len() && v[h] == ':' {
        let d = scan(v, h + 1, Class::Digit);
        d > h + 1 && path_is_fit(v, d, room)
    } else {
        path_is_fit(v, h, room)
    }
}

/// Looks for the longest scheme with which `v` fits the grammar.
fn split(v: &Vec<char>) -> (r: Option<usize>)
    ensures
        match r {
            Some(p) => longest_split(v@, p as int),
            None => !fits(v@),
        },
{
    let n = v.len();
    if n < 4 {
        return None;
    }
    let room = room(v);
    let mut p: usize = n - 3;
    while p >= 1
        invariant
            p <= n - 3,
            n == v.len(),
            room.of(v@),
            forall|q: int| q > p ==> !splits_at(v@, q),
        decreases p,
    {
        proof {
            lemma_room(v@, p as int);
        }
        if v[p] == ':' && v[p + 1] == '/' && v[p + 2] == '/' && p <= room.lead && tail_is_fit(
            v,
            p + 3,
            &room,
        ) {
            return Some(p);
        }
        p -= 1;
    }
    None
}

/// Reads the digits `from..to` of `v` as a port number.
fn port_number(v: &Vec<char>, from: usize, to: usize) -> (r: Option<u16>)
    requires
        from <= to <= v.len(),
        forall|i: int| from <= i < to ==> is_digit(#[trigger] v@[i]),
    ensures
        match r {
            Some(n) => n == decimal(v@.subrange(from as int, to as int)),
            None => decimal(v@.subrange(from as int, to as int)) > 65535,
        },
{
    let ghost digits = v@.subrange(from as int, to as int);
    let mut n: u32 = 0;
    let mut i: usize = from;
    while i < to
        invariant
            from <= i <= to <= v.len(),
            digits == v@.subrange(from as int, to as int),
            forall|i: int| from <= i < to ==> is_digit(#[trigger] v@[i]),
            n == decimal(digits.take(i - from)),
            n <= 65535,
        decreases to - i,
    {
        let c = v[i];
        let d: u32 = c as u32 - 48;
        proof {
            let t = digits.take(i + 1 - from);
            assert(t.drop_last() == digits.take(i - from));
        }
        n = n * 10 + d;
        i += 1;
        if n > 65535 {
            proof {
                lemma_decimal_prefix(digits, i - from);
            }
            return None;
        }
    }
    assert(digits.take(to - from) == digits);
    Some(n as u16)
}

/// The path that starts at `at`, or `/` where `v` ends there.
fn path_text(v: &Vec<char>, at: usize) -> (path: String)
    requires
        at <= v.len(),
    ensures
        path@ == path_from(v@, at as int),
{
    if at == v.len() {
        let mut path = String::new();
        path.push('/');
        path
    } else {
        to_text(v, at, v.len())
    }
}

impl URL {
    /// Parses an ASCII text as a URL.
    ///
    /// The text must fit the grammar as a whole, else it is `Malformed`.
    /// Where it fits in more than one way the scheme is the longest that
    /// fits. A scheme other than `http`, `https` and `file` is refused, then
    /// a port above 65535. A missing path is `/`; a missing port stays
    /// `None`.
    pub fn parse(s: &str) -> (r: Result<URL, ParseError>)
        requires
            is_ascii(s),
        ensures
            match r {
                Ok(url) => parse_spec(s@) == Ok::<UrlView, ParseFault>(url@),
                Err(e) => parse_spec(s@) == Err::<UrlView, ParseFault>(e@),
            },
            r matches Ok(url) ==> well_formed(url@) && is_ascii_url(url@),
    {
        let r = URL::parse_chars(s);
        proof {
            if let Ok(url) = &r {
                lemma_parsed_is_well_formed(s@, url@);
                lemma_parsed_is_ascii(s@, url@);
            }
        }
        r
    }

    /// Parses the characters of `s`, ASCII or not, by the grammar.
    fn parse_chars(s: &str) -> (r: Result<URL, ParseError>)
        ensures
            match r {
                Ok(url) => parse_spec(s@) == Ok::<UrlView, ParseFault>(url@),
                Err(e) => parse_spec(s@) == Err::<UrlView, ParseFault>(e@),
            },
    {
        let v = to_chars(s);
        let p = match split(&v) {
            None => {
                return Err(ParseError::Malformed);
            },
            Some(p) => p,
        };
        proof {
            lemma_longest_split(v@, p as int);
        }
        let token = to_text(&v, 0, p);
        let scheme = match Scheme::from_name(token.as_str()) {
            None => {
                return Err(ParseError::UnsupportedScheme(token));
            },
            Some(scheme) => scheme,
        };
        let h = scan(&v, p + 3, Class::Host);
        let host = to_text(&v, p + 3, h);
        if h < v.len() && v[h] == ':' {
            let d = scan(&v, h + 1, Class::Digit);
            proof {
                lemma_run_end(v@, h + 1, Class::Digit);
            }
            match port_number(&v, h + 1, d) {
                None => Err(ParseError::InvalidPort),
                Some(port) => Ok(URL { scheme, host, port: Some(port), path: path_text(&v, d) }),
            }
        } else {
            Ok(URL { scheme, host, port: None, path: path_text(&v, h) })
        }
    }

    /// The text form of the URL: scheme, `://`, host, then `:` and the port
    /// in decimal if there is one, then the path.
    pub fn to_text(&self) -> (text: String)
        ensures
            text@ == text_of(self@),
    {
        let mut text = String::from_str(self.scheme.name());
        proof {
            reveal_strlit("://");
        }
        text.append("://");
        text.append(self.host.as_str());
        match self.port {
            None => {
                assert(text@ =~= self.scheme.token() + seq![':', '/', '/'] + self.host@
                    + port_text(self.port));
            },
            Some(n) => {
                text.push(':');
                push_decimal(&mut text, n as usize);
                assert(text@ =~= self.scheme.token() + seq![':', '/', '/'] + self.host@
                    + port_text(self.port));
            },
        }
        text.append(self.path.as_str());
        text
    }
}

} // verus!
