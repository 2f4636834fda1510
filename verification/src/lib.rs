//! A minimal HTTP/1.0 client core: a strict URL parser and a protocol engine
//! that decides every step of one request/response exchange. The engine never
//! touches a socket: it names the next action and is told what came of it.

pub mod error;
pub mod headers;
pub mod request;
pub mod response;
pub mod text;
pub mod url;

pub use error::{Encoding, FetchError, Malformation, Phase};
pub use headers::Headers;
pub use request::{request, Action, Event, Exchange, Stage, Step};
pub use response::{Response, StatusLine};
pub use url::{ParseError, Scheme, URL};

use ascii::AsAsciiStr;
use request::{start, ExchangeView};
use text::{digits_of, push_decimal};
use url::grammar::parse_spec;
use url::ParseFault;
use vstd::prelude::*;
use vstd::string::{is_ascii, StringExecFns, StringSliceAdditionalSpecFns};

verus! {

/// Why the loading of a page cannot begin.
#[derive(Debug, Clone, PartialEq, Eq)]
pub enum LoadError {
    /// The text is not ASCII: the byte at this index is the first that is
    /// not.
    NotAscii(usize),
    /// The text is no URL.
    Url(ParseError),
    /// No exchange can fetch the URL.
    Fetch(FetchError),
}

/// What a `LoadError` holds, as mathematical values.
#[verifier::ext_equal]
pub enum LoadFault {
    NotAscii(usize),
    Url(ParseFault),
    Fetch(FetchError),
}

impl View for LoadError {
    type V = LoadFault;

    open spec fn view(&self) -> LoadFault {
        match self {
            LoadError::NotAscii(at) => LoadFault::NotAscii(*at),
            LoadError::Url(e) => LoadFault::Url(e@),
            LoadError::Fetch(e) => LoadFault::Fetch(*e),
        }
    }
}

impl LoadFault {
    /// Why loading cannot begin, in words.
    pub open spec fn description(self) -> Seq<char> {
        match self {
            LoadFault::NotAscii(at) => "the byte at index "@ + digits_of(at as nat)
                + " is not ASCII"@,
            LoadFault::Url(e) => e.description(),
            LoadFault::Fetch(e) => e.description(),
        }
    }
}

impl LoadError {
    /// Why loading cannot begin, in words.
    pub fn describe(&self) -> (text: String)
        ensures
            text@ == self@.description(),
    {
        match self {
            LoadError::NotAscii(at) => {
                let mut text = String::from_str("the byte at index ");
                push_decimal(&mut text, *at);
                text.append(" is not ASCII");
                text
            },
            LoadError::Url(e) => e.describe(),
            LoadError::Fetch(e) => String::from_str(e.describe()),
        }
    }

    /// The phase in which this failure comes.
    pub open spec fn phase_spec(&self) -> Phase {
        match self {
            LoadError::NotAscii(_) => Phase::Url,
            LoadError::Url(_) => Phase::Url,
            LoadError::Fetch(e) => e.phase(),
        }
    }

    /// The phase in which this failure comes.
    #[verifier::when_used_as_spec(phase_spec)]
    pub fn phase(&self) -> (phase: Phase)
        ensures
            phase == self.phase_spec(),
    {
        match self {
            LoadError::NotAscii(_) => Phase::Url,
            LoadError::Url(_) => Phase::Url,
            LoadError::Fetch(e) => e.phase(),
        }
    }
}

/// The byte at `at` is the first of `bytes` that is not ASCII.
pub open spec fn first_non_ascii(bytes: Seq<u8>, at: int) -> bool {
    &&& 0 <= at < bytes.len()
    &&& bytes[at] >= 0x80
    &&& forall|i: int| 0 <= i < at ==> bytes[i] < 0x80
}

/// Asks `ascii::AsAsciiStr::as_ascii_str` whether `text` is ASCII. That
/// function accepts a text exactly if every byte of it is below 0x80, and
/// else reports, through `AsAsciiStrError::valid_up_to`, the index of the
/// first byte that is not.
#[verifier::external_body]
fn check_ascii(text: &str) -> (at: Option<usize>)
    ensures
        at is None <==> is_ascii(text),
        at matches Some(i) ==> first_non_ascii(text.spec_bytes(), i as int),
{
    match text.as_ascii_str() {
        Ok(_) => None,
        Err(e) => Some(e.valid_up_to()),
    }
}

/// What loading an ASCII text begins with: the exchange that fetches the
/// URL that the text parses to.
pub open spec fn begin(url: Seq<char>) -> Result<ExchangeView, LoadFault> {
    match parse_spec(url) {
        Err(e) => Err(LoadFault::Url(e)),
        Ok(parsed) => match start(parsed) {
            Err(e) => Err(LoadFault::Fetch(e)),
            Ok(exchange) => Ok(exchange),
        },
    }
}

/// Begins to load the page at `url`: checks that the text is ASCII, parses
/// it, and opens the exchange that fetches it.
pub fn load(url: &str) -> (r: Result<Exchange, LoadError>)
    ensures
        !is_ascii(url) ==> {
            &&& r matches Err(LoadError::NotAscii(at))
            &&& first_non_ascii(url.spec_bytes(), at as int)
        },
        is_ascii(url) ==> match r {
            Ok(exchange) => begin(url@) == Ok::<ExchangeView, LoadFault>(exchange@),
            Err(e) => begin(url@) == Err::<ExchangeView, LoadFault>(e@),
        },
{
    if let Some(at) = check_ascii(url) {
        return Err(LoadError::NotAscii(at));
    }
    let parsed = match URL::parse(url) {
        Ok(parsed) => parsed,
        Err(e) => {
            return Err(LoadError::Url(e));
        },
    };
    match request(&parsed) {
        Ok(exchange) => Ok(exchange),
        Err(e) => Err(LoadError::Fetch(e)),
    }
}

/// Whether the character at `at` stands inside a tag: a `<` stands before
/// it with no `>` between the two.
pub open spec fn in_tag(s: Seq<char>, at: int) -> bool {
    exists|open: int|
        0 <= open < at && #[trigger] s[open] == '<' && forall|i: int|
            open < i < at ==> #[trigger] s[i] != '>'
}

/// What is shown of the first `n` characters of `s`: those that are no
/// angle brackets and stand in no tag.
pub open spec fn shown(s: Seq<char>, n: int) -> Seq<char>
    decreases n,
{
    if n <= 0 {
        Seq::empty()
    } else if s[n - 1] != '<' && s[n - 1] != '>' && !in_tag(s, n - 1) {
        shown(s, n - 1).push(s[n - 1])
    } else {
        shown(s, n - 1)
    }
}

/// One character further, a tag is open if that character opened one, and
/// closed if it closed one.
pub proof fn lemma_in_tag_next(s: Seq<char>, at: int)
    requires
        0 <= at < s.len(),
    ensures
        in_tag(s, at + 1) == (s[at] == '<' || (s[at] != '>' && in_tag(s, at))),
{
    if s[at] != '<' && s[at] != '>' && in_tag(s, at) {
        let open = choose|open: int|
            0 <= open < at && #[trigger] s[open] == '<' && forall|i: int|
                open < i < at ==> #[trigger] s[i] != '>';
        assert(0 <= open < at + 1 && s[open] == '<');
    }
    if in_tag(s, at + 1) && s[at] != '<' {
        let open = choose|open: int|
            0 <= open < at + 1 && #[trigger] s[open] == '<' && forall|i: int|
                open < i < at + 1 ==> #[trigger] s[i] != '>';
        assert(0 <= open < at && s[open] == '<');
    }
}

/// The text of a page as it is shown: all that stands between `<` and `>`
/// is left out, and so are the brackets.
pub fn show(body: &str) -> (text: String)
    ensures
        text@ == shown(body@, body@.len() as int),
{
    let mut text = String::new();
    let mut in_angle = false;
    for c in it: body.chars()
        invariant
            it.seq() == body@,
            in_angle == in_tag(body@, it.index()),
            text@ == shown(body@, it.index()),
    {
        proof {
            lemma_in_tag_next(body@, it.index());
        }
        if c == '<' {
            in_angle = true;
        } else if c == '>' {
            in_angle = false;
        } else if !in_angle {
            text.push(c);
        }
    }
    text
}

} // verus!
