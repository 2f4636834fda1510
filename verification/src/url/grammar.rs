//! The grammar of URLs, and what parsing a text gives.

use crate::text::{decimal, digits_of, lemma_run_end, member, run_end, Class};
use crate::url::{ParseFault, Scheme, UrlView};
use vstd::prelude::*;
use vstd::utf8::is_ascii_chars;

verus! {

/// No line feed stands in `s` at the indices `from..to`.
pub open spec fn clean(s: Seq<char>, from: int, to: int) -> bool {
    forall|i: int| from <= i < to ==> #[trigger] s[i] != '\n'
}

/// At `at` the input ends, or a path starts that reaches the end.
pub open spec fn path_fits(s: Seq<char>, at: int) -> bool {
    at == s.len() || (0 <= at < s.len() && s[at] == '/' && clean(s, at, s.len() as int))
}

/// From `from` on, `s` is a host, then perhaps a port, then perhaps a path.
pub open spec fn tail_fits(s: Seq<char>, from: int) -> bool {
    let h = run_end(s, from, Class::Host);
    if h < s.len() && s[h] == ':' {
        let d = run_end(s, h + 1, Class::Digit);
        d > h + 1 && path_fits(s, d)
    } else {
        path_fits(s, h)
    }
}

/// `s` fits the grammar with a scheme of `p` characters.
pub open spec fn splits_at(s: Seq<char>, p: int) -> bool {
    &&& 1 <= p
    &&& p + 3 <= s.len()
    &&& s[p] == ':'
    &&& s[p + 1] == '/'
    &&& s[p + 2] == '/'
    &&& clean(s, 0, p)
    &&& tail_fits(s, p + 3)
}

/// `s` fits the grammar.
pub open spec fn fits(s: Seq<char>) -> bool {
    exists|p: int| splits_at(s, p)
}

/// `p` is the length of the longest scheme with which `s` fits the grammar.
pub open spec fn longest_split(s: Seq<char>, p: int) -> bool {
    splits_at(s, p) && forall|q: int| splits_at(s, q) ==> q <= p
}

/// The length of the scheme of `s`: the longest with which `s` fits the
/// grammar.
pub open spec fn scheme_len(s: Seq<char>) -> int {
    choose|p: int| longest_split(s, p)
}

/// Where the path of a fitting text starts, or the text ends without one.
pub open spec fn path_start(s: Seq<char>) -> int {
    let p = scheme_len(s);
    let h = run_end(s, p + 3, Class::Host);
    if h < s.len() && s[h] == ':' {
        run_end(s, h + 1, Class::Digit)
    } else {
        h
    }
}

/// The path of `s` where it starts at `at`; `/` where the input ends there.
pub open spec fn path_from(s: Seq<char>, at: int) -> Seq<char> {
    if at == s.len() {
        seq!['/']
    } else {
        s.subrange(at, s.len() as int)
    }
}

/// What parsing `s` gives.
pub open spec fn parse_spec(s: Seq<char>) -> Result<UrlView, ParseFault> {
    if !fits(s) {
        Err(ParseFault::Malformed)
    } else {
        let p = scheme_len(s);
        let h = run_end(s, p + 3, Class::Host);
        let host = s.subrange(p + 3, h);
        match Scheme::named(s.subrange(0, p)) {
            None => Err(ParseFault::UnsupportedScheme(s.subrange(0, p))),
            Some(scheme) => if h < s.len() && s[h] == ':' {
                let d = run_end(s, h + 1, Class::Digit);
                let port = decimal(s.subrange(h + 1, d));
                if port > 65535 {
                    Err(ParseFault::InvalidPort)
                } else {
                    Ok(UrlView { scheme, host, port: Some(port as u16), path: path_from(s, d) })
                }
            } else {
                Ok(UrlView { scheme, host, port: None, path: path_from(s, h) })
            },
        }
    }
}

/// The port as it is written in a URL: nothing, or `:` and the digits.
pub open spec fn port_text(port: Option<u16>) -> Seq<char> {
    match port {
        None => Seq::empty(),
        Some(n) => seq![':'] + digits_of(n as nat),
    }
}

/// The text form of a URL: scheme, `://`, host, port, path.
pub open spec fn text_of(url: UrlView) -> Seq<char> {
    url.scheme.token() + seq![':', '/', '/'] + url.host + port_text(url.port) + url.path
}

/// What every parsed URL has: a host free of `:`, `/`, `?` and `#`, and a
/// path that starts with `/` and holds no line feed.
pub open spec fn well_formed(url: UrlView) -> bool {
    &&& forall|i: int| 0 <= i < url.host.len() ==> member(Class::Host, #[trigger] url.host[i])
    &&& url.path.len() >= 1
    &&& url.path[0] == '/'
    &&& clean(url.path, 0, url.path.len() as int)
}

/// Host and path hold ASCII characters only.
pub open spec fn is_ascii_url(url: UrlView) -> bool {
    is_ascii_chars(url.host) && is_ascii_chars(url.path)
}

/// The longest split is the only one of its kind.
pub proof fn lemma_longest_split(s: Seq<char>, p: int)
    requires
        longest_split(s, p),
    ensures
        fits(s),
        scheme_len(s) == p,
{
    assert(longest_split(s, scheme_len(s)));
}

/// A text that fits the grammar has a longest scheme.
pub proof fn lemma_fits(s: Seq<char>)
    requires
        fits(s),
    ensures
        longest_split(s, scheme_len(s)),
{
    lemma_fits_below(s, s.len() as int);
}

/// A text that fits the grammar, but with no scheme longer than `k`, has a
/// longest scheme.
proof fn lemma_fits_below(s: Seq<char>, k: int)
    requires
        fits(s),
        forall|q: int| q > k ==> !splits_at(s, q),
    ensures
        longest_split(s, scheme_len(s)),
    decreases k,
{
    if splits_at(s, k) {
        assert(longest_split(s, k));
    } else if k >= 1 {
        lemma_fits_below(s, k - 1);
    } else {
        assert(splits_at(s, choose|q: int| splits_at(s, q)));
    }
}

/// Every URL that the parser gives is well formed.
pub proof fn lemma_parsed_is_well_formed(s: Seq<char>, url: UrlView)
    requires
        parse_spec(s) == Ok::<UrlView, ParseFault>(url),
    ensures
        well_formed(url),
{
    lemma_fits(s);
    let p = scheme_len(s);
    lemma_run_end(s, p + 3, Class::Host);
    let h = run_end(s, p + 3, Class::Host);
    if h < s.len() && s[h] == ':' {
        lemma_run_end(s, h + 1, Class::Digit);
    }
}

/// Every URL that the parser gives for an ASCII text is ASCII.
pub proof fn lemma_parsed_is_ascii(s: Seq<char>, url: UrlView)
    requires
        is_ascii_chars(s),
        parse_spec(s) == Ok::<UrlView, ParseFault>(url),
    ensures
        is_ascii_url(url),
{
    lemma_fits(s);
    let p = scheme_len(s);
    lemma_run_end(s, p + 3, Class::Host);
    let h = run_end(s, p + 3, Class::Host);
    if h < s.len() && s[h] == ':' {
        lemma_run_end(s, h + 1, Class::Digit);
    }
}

} // verus!
