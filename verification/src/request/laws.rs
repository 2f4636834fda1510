//! What holds of every exchange, whatever the network does.

use crate::error::FetchError;
use crate::request::{
    action_of, content_encoding, next, start, transfer_encoding, ActionView, EventView,
    ExchangeView, Stage, StepView,
};
use crate::response::{header_spec, is_blank};
use crate::text::{lemma_lowered_twice, lemma_trim_twice, lowered, position, trim};
use crate::url::{Scheme, UrlView};
use vstd::prelude::*;

verus! {

/// Where a whole run of events leads: each is taken in turn for as long as
/// the exchange goes on. Events that come after its end count for nothing.
pub open spec fn run(step: StepView, events: Seq<EventView>) -> StepView
    decreases events.len(),
{
    if events.len() == 0 {
        step
    } else {
        match step {
            StepView::Next(x) => run(next(x, events[0]), events.drop_first()),
            _ => step,
        }
    }
}

/// The events of reading these lines one after the other.
pub open spec fn lines_read(lines: Seq<Seq<char>>) -> Seq<EventView> {
    Seq::new(lines.len(), |i: int| EventView::Line(lines[i]))
}

/// The event of reading the line that ends a header block.
pub open spec fn blank_line_read() -> EventView {
    EventView::Line(seq!['\r', '\n'])
}

/// The event of reading a line where the stream has ended.
pub open spec fn end_of_stream_read() -> EventView {
    EventView::Line(Seq::empty())
}

/// The headers say that the body is encoded.
pub open spec fn encoded(headers: Map<Seq<char>, Seq<char>>) -> bool {
    headers.contains_key(transfer_encoding()) || headers.contains_key(content_encoding())
}

/// The place of a stage in the order of stages.
pub open spec fn rank(stage: Stage) -> nat {
    match stage {
        Stage::Resolving => 0,
        Stage::Connecting => 1,
        Stage::Sending => 2,
        Stage::Status => 3,
        Stage::Headers => 4,
        Stage::Body => 5,
    }
}

/// Every name is in lower case and every value is trimmed.
pub open spec fn tidy(headers: Map<Seq<char>, Seq<char>>) -> bool {
    forall|name: Seq<char>| #[trigger]
        headers.contains_key(name) ==> lowered(name) == name && trim(headers[name])
            == headers[name]
}

/// The stages follow one another in their order and none is left out; only
/// the reading of header lines repeats. So the request is written once, and
/// nothing is written once the status line is asked for. The URL stays what
/// it was.
pub proof fn law_stages_in_order(x: ExchangeView, event: EventView)
    ensures
        next(x, event) matches StepView::Next(y) ==> {
            &&& y.url == x.url
            &&& rank(y.stage) == rank(x.stage) + 1 || (x.stage == Stage::Headers && y.stage
                == Stage::Headers)
            &&& action_of(y) is Send ==> x.stage == Stage::Connecting
        },
{
}

/// A fetch over `https` asks for a connection with a TLS handshake in which
/// the peer must prove to be the URL's host, and fails with `TlsHandshake`
/// where that handshake fails.
pub proof fn law_secure_fetch_handshakes(url: UrlView)
    requires
        url.scheme == Scheme::HTTPS,
    ensures
        ({
            &&& start(url) matches Ok(x)
            &&& action_of(x) == (ActionView::Resolve {
                host: url.host,
                port: match url.port {
                    Some(port) => port,
                    None => 443,
                },
            })
            &&& next(x, EventView::Resolved) matches StepView::Next(y)
            &&& action_of(y) == (ActionView::ConnectSecure { domain: url.host })
            &&& next(y, EventView::HandshakeFailed) == StepView::Failed(FetchError::TlsHandshake)
        }),
{
}

/// A step keeps the headers tidy.
pub proof fn lemma_step_keeps_tidy(x: ExchangeView, event: EventView)
    requires
        tidy(x.headers),
    ensures
        match next(x, event) {
            StepView::Next(y) => tidy(y.headers),
            StepView::Done(response) => tidy(response.headers),
            StepView::Failed(_) => true,
        },
{
    if let EventView::Line(line) = event {
        let at = position(line, ':', 0);
        lemma_lowered_twice(line.subrange(0, at));
        lemma_trim_twice(line.subrange(at + 1, line.len() as int));
    }
}

/// A run keeps the headers tidy.
proof fn lemma_run_keeps_tidy(step: StepView, events: Seq<EventView>)
    requires
        match step {
            StepView::Next(y) => tidy(y.headers),
            StepView::Done(response) => tidy(response.headers),
            StepView::Failed(_) => true,
        },
    ensures
        run(step, events) matches StepView::Done(response) ==> tidy(response.headers),
    decreases events.len(),
{
    if events.len() > 0 {
        if let StepView::Next(x) = step {
            lemma_step_keeps_tidy(x, events[0]);
            lemma_run_keeps_tidy(next(x, events[0]), events.drop_first());
        }
    }
}

/// The headers of a response are tidy: whatever the events of a fetch, if
/// it ends in a response, every header name of that response is in lower
/// case and every value is trimmed.
pub proof fn law_response_headers_are_tidy(url: UrlView, events: Seq<EventView>)
    ensures
        start(url) matches Ok(x) ==> (run(StepView::Next(x), events) matches StepView::Done(
            response,
        ) ==> tidy(response.headers)),
{
    if let Ok(x) = start(url) {
        lemma_run_keeps_tidy(StepView::Next(x), events);
    }
}

/// A header block that never ends fails the fetch. Where the stream ends
/// before the blank line was read, whatever lines came before, the exchange
/// fails with a `ProtocolParse` error: there is no response, and no part of
/// one.
pub proof fn law_unfinished_headers_fail(x: ExchangeView, lines: Seq<Seq<char>>)
    requires
        x.stage == Stage::Status || x.stage == Stage::Headers,
        forall|i: int| 0 <= i < lines.len() ==> !is_blank(#[trigger] lines[i]),
    ensures
        run(StepView::Next(x), lines_read(lines).push(end_of_stream_read())) matches StepView::Failed(
            FetchError::ProtocolParse(_),
        ),
    decreases lines.len(),
{
    let events = lines_read(lines).push(end_of_stream_read());
    let after = next(x, events[0]);
    if lines.len() == 0 {
        assert(run(after, events.drop_first()) == after);
    } else {
        let later = lines.drop_first();
        assert(events.drop_first() =~= lines_read(later).push(end_of_stream_read()));
        if let StepView::Next(y) = after {
            law_unfinished_headers_fail(y, later);
        }
    }
}

/// A response that says that its body is encoded is refused. Where the
/// headers read so far or the header lines still to come hold a transfer
/// encoding or a content encoding, the exchange fails with
/// `UnsupportedEncoding` at the blank line, whatever follows it.
pub proof fn law_encoded_body_is_refused(
    x: ExchangeView,
    lines: Seq<Seq<char>>,
    rest: Seq<EventView>,
)
    requires
        x.stage == Stage::Headers,
        forall|i: int|
            0 <= i < lines.len() ==> !is_blank(#[trigger] lines[i]) && header_spec(lines[i])
                is Some,
        encoded(x.headers) || exists|i: int|
            0 <= i < lines.len() && {
                ||| header_spec(#[trigger] lines[i]).unwrap().0 == transfer_encoding()
                ||| header_spec(lines[i]).unwrap().0 == content_encoding()
            },
    ensures
        run(StepView::Next(x), lines_read(lines).push(blank_line_read()) + rest) matches StepView::Failed(
            FetchError::UnsupportedEncoding(_),
        ),
    decreases lines.len(),
{
    let events = lines_read(lines).push(blank_line_read()) + rest;
    let after = next(x, events[0]);
    if lines.len() == 0 {
        assert(run(after, events.drop_first()) == after);
    } else {
        let later = lines.drop_first();
        assert(events.drop_first() =~= lines_read(later).push(blank_line_read()) + rest);
        let (name, value) = header_spec(lines[0]).unwrap();
        let y = ExchangeView { headers: x.headers.insert(name, value), ..x };
        if !encoded(y.headers) {
            let i = choose|i: int|
                0 <= i < lines.len() && {
                    ||| header_spec(#[trigger] lines[i]).unwrap().0 == transfer_encoding()
                    ||| header_spec(lines[i]).unwrap().0 == content_encoding()
                };
            assert(later[i - 1] == lines[i]);
        }
        law_encoded_body_is_refused(y, later, rest);
    }
}

} // verus!
