//! The parts of a response: status line, header lines, and the response
//! that a fetch returns.

use crate::error::Malformation;
use crate::headers::Headers;
use crate::text::{find, lowered, position, to_chars, to_lower_text, to_text, trim, trimmed};
use vstd::prelude::*;

verus! {

/// The three parts of a status line.
#[derive(Debug, Clone, PartialEq, Eq)]
pub struct StatusLine {
    /// The protocol version: what stands before the first space.
    pub version: String,
    /// The status code: what stands between the first two spaces.
    pub code: String,
    /// The reason phrase: all that follows the second space, the line's
    /// terminator too.
    pub reason: String,
}

/// What a `StatusLine` holds, as mathematical values.
#[verifier::ext_equal]
pub struct StatusView {
    pub version: Seq<char>,
    pub code: Seq<char>,
    pub reason: Seq<char>,
}

impl View for StatusLine {
    type V = StatusView;

    open spec fn view(&self) -> StatusView {
        StatusView { version: self.version@, code: self.code@, reason: self.reason@ }
    }
}

/// What a fetch returns: the headers and the body.
#[derive(Debug)]
pub struct Response {
    headers: Headers,
    /// All that the stream held after the header block.
    pub body: String,
}

/// What a `Response` holds, as mathematical values.
#[verifier::ext_equal]
pub struct ResponseView {
    /// From each header's name in lower case to its trimmed value.
    pub headers: Map<Seq<char>, Seq<char>>,
    pub body: Seq<char>,
}

impl View for Response {
    type V = ResponseView;

    closed spec fn view(&self) -> ResponseView {
        ResponseView { headers: self.headers@, body: self.body@ }
    }
}

/// The status line `line` split at its first two spaces.
pub open spec fn status_spec(line: Seq<char>) -> Result<StatusView, Malformation> {
    let a = position(line, ' ', 0);
    let b = position(line, ' ', a + 1);
    if a >= line.len() {
        Err(Malformation::NoStatusCode)
    } else if b >= line.len() {
        Err(Malformation::NoStatusReason)
    } else {
        Ok(
            StatusView {
                version: line.subrange(0, a),
                code: line.subrange(a + 1, b),
                reason: line.subrange(b + 1, line.len() as int),
            },
        )
    }
}

/// The header line `line` split at its first `:` into the name, in lower
/// case, and the value, trimmed. `None` where the line has no `:`.
pub open spec fn header_spec(line: Seq<char>) -> Option<(Seq<char>, Seq<char>)> {
    let at = position(line, ':', 0);
    if at >= line.len() {
        None
    } else {
        Some((lowered(line.subrange(0, at)), trim(line.subrange(at + 1, line.len() as int))))
    }
}

/// The line that ends a header block: a carriage return and a line feed,
/// nothing else.
pub open spec fn is_blank(line: Seq<char>) -> bool {
    line == seq!['\r', '\n']
}

/// Splits a status line into version, status code and reason phrase. All
/// three must be there, though each may be empty.
pub fn parse_status_line(line: &str) -> (r: Result<StatusLine, Malformation>)
    ensures
        match r {
            Ok(status) => status_spec(line@) == Ok::<StatusView, Malformation>(status@),
            Err(e) => status_spec(line@) == Err::<StatusView, Malformation>(e),
        },
{
    let v = to_chars(line);
    let a = find(&v, ' ', 0);
    if a >= v.len() {
        return Err(Malformation::NoStatusCode);
    }
    let b = find(&v, ' ', a + 1);
    if b >= v.len() {
        return Err(Malformation::NoStatusReason);
    }
    Ok(
        StatusLine {
            version: to_text(&v, 0, a),
            code: to_text(&v, a + 1, b),
            reason: to_text(&v, b + 1, v.len()),
        },
    )
}

/// Splits a header line into name and value.
pub fn parse_header_line(line: &str) -> (r: Option<(String, String)>)
    ensures
        match r {
            Some((name, value)) => header_spec(line@) == Some((name@, value@)),
            None => header_spec(line@) is None,
        },
{
    let v = to_chars(line);
    let at = find(&v, ':', 0);
    if at >= v.len() {
        return None;
    }
    let name = to_lower_text(&v, 0, at);
    let rest = to_text(&v, at + 1, v.len());
    let value = trimmed(rest.as_str());
    Some((name, value))
}

/// Whether `line` ends a header block.
pub fn ends_headers(line: &str) -> (r: bool)
    ensures
        r == is_blank(line@),
{
    let v = to_chars(line);
    let r = v.len() == 2 && v[0] == '\r' && v[1] == '\n';
    proof {
        if r {
            assert(line@ =~= seq!['\r', '\n']);
        }
    }
    r
}

impl Response {
    /// A response with these headers and this body.
    pub fn new(headers: Headers, body: String) -> (response: Response)
        ensures
            response@ == (ResponseView { headers: headers@, body: body@ }),
    {
        Response { headers, body }
    }

    /// The header table.
    pub fn headers(&self) -> (headers: &Headers)
        ensures
            headers@ == self@.headers,
    {
        &self.headers
    }

    /// The value of the header `name`, which is given in lower case.
    pub fn header(&self, name: &str) -> (value: Option<&String>)
        ensures
            match value {
                Some(v) => self@.headers.contains_key(name@) && self@.headers[name@] == v@,
                None => !self@.headers.contains_key(name@),
            },
    {
        self.headers.get(name)
    }
}

} // verus!
