//! What holds between parsing a URL and writing it out.

use crate::text::{
    digits_of, is_digit, lemma_digits_of, lemma_run_end, lemma_run_end_unique, member, run_end,
    Class,
};
use crate::url::grammar::{
    clean, fits, is_ascii_url, lemma_fits, lemma_longest_split, lemma_parsed_is_ascii,
    lemma_parsed_is_well_formed, longest_split, parse_spec, path_fits, path_from, path_start,
    port_text, scheme_len, splits_at, tail_fits, text_of, well_formed,
};
use crate::url::{ParseFault, UrlView};
use vstd::prelude::*;
use vstd::utf8::is_ascii_chars;

verus! {

/// Runs depend only on what follows their start.
proof fn lemma_run_shift(a: Seq<char>, i: int, b: Seq<char>, j: int, class: Class)
    requires
        0 <= i <= a.len(),
        0 <= j <= b.len(),
        a.len() - i == b.len() - j,
        forall|x: int| i <= x < a.len() ==> #[trigger] a[x] == b[x - i + j],
    ensures
        run_end(a, i, class) - i == run_end(b, j, class) - j,
    decreases a.len() - i,
{
    if i < a.len() && member(class, a[i]) {
        lemma_run_shift(a, i + 1, b, j + 1, class);
    }
}

/// Whether a path fits depends only on the path.
proof fn lemma_path_shift(a: Seq<char>, b: Seq<char>, k: int, i: int, at: int)
    requires
        0 <= i <= at <= a.len(),
        b.len() == a.len() + k,
        0 <= i + k,
        forall|x: int| i <= x < a.len() ==> #[trigger] b[x + k] == a[x],
    ensures
        path_fits(a, at) == path_fits(b, at + k),
{
    if clean(a, at, a.len() as int) {
        assert forall|y: int| at + k <= y < b.len() implies #[trigger] b[y] != '\n' by {
            assert(b[(y - k) + k] == a[y - k]);
        }
    }
    if clean(b, at + k, b.len() as int) {
        assert forall|x: int| at <= x < a.len() implies #[trigger] a[x] != '\n' by {
            assert(b[x + k] == a[x]);
        }
    }
}

/// Whether a tail fits depends only on the tail.
proof fn lemma_tail_shift(a: Seq<char>, i: int, b: Seq<char>, j: int)
    requires
        0 <= i <= a.len(),
        0 <= j <= b.len(),
        a.len() - i == b.len() - j,
        forall|x: int| i <= x < a.len() ==> #[trigger] a[x] == b[x - i + j],
    ensures
        tail_fits(a, i) == tail_fits(b, j),
{
    let k = j - i;
    lemma_run_shift(a, i, b, j, Class::Host);
    lemma_run_end(a, i, Class::Host);
    let h = run_end(a, i, Class::Host);
    lemma_path_shift(a, b, k, i, h);
    if h < a.len() && a[h] == ':' {
        lemma_run_shift(a, h + 1, b, h + 1 + k, Class::Digit);
        lemma_run_end(a, h + 1, Class::Digit);
        lemma_path_shift(a, b, k, i, run_end(a, h + 1, Class::Digit));
    }
}

/// How the text form of `url` is laid out in `r`: token, `://`, host, port,
/// path, one after the other.
spec fn laid_out(r: Seq<char>, url: UrlView) -> bool {
    let token = url.scheme.token();
    let port = port_text(url.port);
    let p = token.len() as int;
    let h = p + 3 + url.host.len();
    let f = h + port.len();
    &&& r.len() == f + url.path.len()
    &&& forall|i: int| 0 <= i < p ==> #[trigger] r[i] == token[i]
    &&& r[p] == ':'
    &&& r[p + 1] == '/'
    &&& r[p + 2] == '/'
    &&& forall|i: int| p + 3 <= i < h ==> #[trigger] r[i] == url.host[i - p - 3]
    &&& forall|i: int| h <= i < f ==> #[trigger] r[i] == port[i - h]
    &&& forall|i: int| f <= i < r.len() ==> #[trigger] r[i] == url.path[i - f]
}

/// How `s` gave `url` when it was parsed: the scheme is the longest that
/// fits, the host follows `://`, the port's digits end at `e`, and there the
/// path starts or the text ends.
spec fn dissected(s: Seq<char>, url: UrlView, e: int) -> bool {
    let token = url.scheme.token();
    let p = token.len() as int;
    let h = p + 3 + url.host.len();
    &&& longest_split(s, p)
    &&& h <= e <= s.len()
    &&& forall|i: int| 0 <= i < p ==> #[trigger] s[i] == token[i]
    &&& forall|i: int| p + 3 <= i < h ==> #[trigger] s[i] == url.host[i - p - 3]
    &&& match url.port {
        None => e == h,
        Some(_) => e > h + 1 && s[h] == ':' && forall|i: int|
            h < i < e ==> is_digit(#[trigger] s[i]),
    }
    &&& url.path == path_from(s, e)
    &&& path_fits(s, e)
}

/// The text form of a URL is laid out as its definition says.
proof fn lemma_laid_out(url: UrlView)
    ensures
        laid_out(text_of(url), url),
{
}

/// A parsed text is dissected at the start of its path.
proof fn lemma_dissected(s: Seq<char>, url: UrlView)
    requires
        parse_spec(s) == Ok::<UrlView, ParseFault>(url),
    ensures
        dissected(s, url, path_start(s)),
{
    lemma_fits(s);
    let p = scheme_len(s);
    lemma_run_end(s, p + 3, Class::Host);
    let h = run_end(s, p + 3, Class::Host);
    if h < s.len() && s[h] == ':' {
        lemma_run_end(s, h + 1, Class::Digit);
    }
}

/// The text form of an ASCII URL is ASCII.
pub proof fn lemma_text_form_is_ascii(url: UrlView)
    requires
        is_ascii_url(url),
    ensures
        is_ascii_chars(text_of(url)),
{
    lemma_laid_out(url);
    if url.port is Some {
        lemma_digits_of(url.port.unwrap() as nat);
    }
}

/// The text form of a parsed URL fits the grammar with the URL's scheme,
/// and its host and port end where the layout says.
proof fn lemma_text_form_splits(r: Seq<char>, url: UrlView)
    requires
        laid_out(r, url),
        well_formed(url),
    ensures
        ({
            let p = url.scheme.token().len() as int;
            let h = p + 3 + url.host.len();
            let f = h + port_text(url.port).len();
            &&& splits_at(r, p)
            &&& run_end(r, p + 3, Class::Host) == h
            &&& r[f] == '/'
            &&& url.port is Some ==> r[h] == ':' && run_end(r, h + 1, Class::Digit) == f && f > h
                + 1 && forall|i: int| h < i < f ==> is_digit(#[trigger] r[i])
            &&& url.port is None ==> f == h
        }),
{
    let p = url.scheme.token().len() as int;
    let h = p + 3 + url.host.len();
    let f = h + port_text(url.port).len();
    if url.port is Some {
        lemma_digits_of(url.port.unwrap() as nat);
        lemma_run_end_unique(r, h + 1, Class::Digit, f);
    }
    lemma_run_end_unique(r, p + 3, Class::Host, h);
}

/// Behind the scheme and before the path, no `://` stands in a text form.
proof fn lemma_no_split_before_path(r: Seq<char>, url: UrlView, q: int)
    requires
        laid_out(r, url),
        well_formed(url),
        url.scheme.token().len() < q < url.scheme.token().len() + 3 + url.host.len() + port_text(
            url.port,
        ).len(),
    ensures
        !(r[q] == ':' && r[q + 1] == '/'),
{
    lemma_text_form_splits(r, url);
}

/// A `://` in the path of a text form, with a tail that fits, stands in
/// the parsed text too, with the same tail.
proof fn lemma_split_in_path(s: Seq<char>, r: Seq<char>, url: UrlView, e: int, q: int)
    requires
        dissected(s, url, e),
        laid_out(r, url),
        well_formed(url),
        splits_at(r, q),
        q >= url.scheme.token().len() + 3 + url.host.len() + port_text(url.port).len(),
    ensures
        splits_at(
            s,
            q - (url.scheme.token().len() + 3 + url.host.len() + port_text(url.port).len()) + e,
        ),
{
    let p = url.scheme.token().len() as int;
    let h = p + 3 + url.host.len();
    let f = h + port_text(url.port).len();
    let n = s.len() as int;
    if e < n {
        // The path of `s` starts at `e`, that of `r` at `f`, and they are
        // the same.
        let q0 = q - f + e;
        assert forall|i: int| 0 <= i < q0 implies #[trigger] s[i] != '\n' by {
            if p + 3 <= i < h {
                assert(r[i] == url.host[i - p - 3]);
            }
        }
        lemma_tail_shift(s, q0 + 3, r, q + 3);
    }
}

/// A text form that splits at its scheme parses to its URL.
proof fn lemma_parts_of_text_form(r: Seq<char>, url: UrlView)
    requires
        laid_out(r, url),
        well_formed(url),
        fits(r),
        scheme_len(r) == url.scheme.token().len(),
    ensures
        parse_spec(r) == Ok::<UrlView, ParseFault>(url),
{
    lemma_text_form_splits(r, url);
    let p = url.scheme.token().len() as int;
    let h = p + 3 + url.host.len();
    let f = h + port_text(url.port).len();
    assert(r.subrange(0, p) =~= url.scheme.token());
    assert(r.subrange(p + 3, h) =~= url.host);
    assert(path_from(r, f) =~= url.path);
    if url.port is Some {
        lemma_digits_of(url.port.unwrap() as nat);
        assert(r.subrange(h + 1, f) =~= digits_of(url.port.unwrap() as nat));
    }
}

/// Parsing the text form of a parsed URL gives the same URL again: whatever
/// text `url` was parsed from, its text form parses to `url`. The text form
/// of what an ASCII text gave is ASCII, so the parser takes it.
pub proof fn law_text_form_parses_back(s: Seq<char>, url: UrlView)
    requires
        parse_spec(s) == Ok::<UrlView, ParseFault>(url),
    ensures
        parse_spec(text_of(url)) == Ok::<UrlView, ParseFault>(url),
        is_ascii_chars(s) ==> is_ascii_chars(text_of(url)),
{
    if is_ascii_chars(s) {
        lemma_parsed_is_ascii(s, url);
        lemma_text_form_is_ascii(url);
    }
    lemma_parsed_is_well_formed(s, url);
    lemma_dissected(s, url);
    let r = text_of(url);
    lemma_laid_out(url);
    lemma_text_form_splits(r, url);
    let p = url.scheme.token().len() as int;
    let f = p + 3 + url.host.len() + port_text(url.port).len();
    // No longer scheme fits the text form: it would fit `s` as well.
    assert forall|q: int| splits_at(r, q) implies q <= p by {
        if p < q < f {
            lemma_no_split_before_path(r, url, q);
        } else if q >= f {
            lemma_split_in_path(s, r, url, path_start(s), q);
        }
    }
    lemma_longest_split(r, p);
    lemma_parts_of_text_form(r, url);
}

} // verus!
