//! The protocol engine: one HTTP/1.0 exchange as a machine that is stepped
//! from outside.
//!
//! An `Exchange` never touches the network. It names the `Action` to perform
//! next; whoever drives it performs that action and reports the `Event` that
//! came of it; `step` then decides how the exchange goes on. The stages
//! follow one another in a fixed order: resolve the address, connect, send
//! the request, read the status line, read header lines up to the blank
//! line, read the body.

pub mod laws;

use crate::error::{Encoding, FetchError, Malformation};
use crate::headers::Headers;
use crate::response::{
    ends_headers, header_spec, is_blank, parse_header_line, parse_status_line, status_spec,
    Response, ResponseView, StatusLine, StatusView,
};
use crate::url::{Scheme, UrlView, URL};
use vstd::prelude::*;
use vstd::string::StringExecFns;
use vstd::utf8::encode_utf8;

verus! {

/// How far an exchange has come.
#[derive(Debug, Clone, Copy, PartialEq, Eq, Structural)]
pub enum Stage {
    /// The address of the host is being resolved.
    Resolving,
    /// The connection is being opened.
    Connecting,
    /// The request is being written.
    Sending,
    /// The status line is being read.
    Status,
    /// A header line is being read.
    Headers,
    /// The body is being read.
    Body,
}

/// One exchange under way.
#[derive(Debug)]
pub struct Exchange {
    pub stage: Stage,
    /// The URL that is fetched.
    pub url: URL,
    /// The status line, once it has been read.
    pub status: Option<StatusLine>,
    /// The headers read so far.
    pub headers: Headers,
}

/// What the driver of an exchange is asked to do.
#[derive(Debug, Clone, PartialEq, Eq)]
pub enum Action {
    /// Resolve `host` and `port` to socket addresses and keep the first.
    Resolve { host: String, port: u16 },
    /// Open a plain TCP connection to the resolved address.
    ConnectPlain,
    /// Open a TCP connection to the resolved address and perform a TLS
    /// handshake in which the peer must prove to be `domain`.
    ConnectSecure { domain: String },
    /// Write this text to the connection and report how many bytes of it
    /// were written.
    Send(String),
    /// Turn the connection into its buffered form and read one line, the
    /// line feed that ends it included.
    ReadStatusLine,
    /// Read one more line, the line feed that ends it included.
    ReadHeaderLine,
    /// Read all that is left, up to the end of the stream.
    ReadBody,
}

/// What came of an action.
#[derive(Debug, Clone, PartialEq, Eq)]
pub enum Event {
    /// An address was found.
    Resolved,
    /// The connection is open; over TLS, the handshake is done.
    Connected,
    /// So many bytes of the request were written.
    Written(usize),
    /// A line was read. It is empty where the stream had ended.
    Line(String),
    /// The rest of the stream was read.
    Rest(String),
    /// The TLS handshake failed.
    HandshakeFailed,
    /// The action failed.
    Failed,
}

/// How an exchange goes on after an event.
#[derive(Debug)]
pub enum Step {
    /// The exchange goes on: its next action is to be performed.
    Next(Exchange),
    /// The exchange is over and this is the response.
    Done(Response),
    /// The exchange has failed.
    Failed(FetchError),
}

/// What an `Exchange` holds, as mathematical values.
#[verifier::ext_equal]
pub struct ExchangeView {
    pub stage: Stage,
    pub url: UrlView,
    pub status: Option<StatusView>,
    pub headers: Map<Seq<char>, Seq<char>>,
}

/// What an `Action` holds, as mathematical values.
#[verifier::ext_equal]
pub enum ActionView {
    Resolve { host: Seq<char>, port: u16 },
    ConnectPlain,
    ConnectSecure { domain: Seq<char> },
    Send(Seq<char>),
    ReadStatusLine,
    ReadHeaderLine,
    ReadBody,
}

/// What an `Event` holds, as mathematical values.
#[verifier::ext_equal]
pub enum EventView {
    Resolved,
    Connected,
    Written(usize),
    Line(Seq<char>),
    Rest(Seq<char>),
    HandshakeFailed,
    Failed,
}

/// What a `Step` holds, as mathematical values.
#[verifier::ext_equal]
pub enum StepView {
    Next(ExchangeView),
    Done(ResponseView),
    Failed(FetchError),
}

impl View for Exchange {
    type V = ExchangeView;

    open spec fn view(&self) -> ExchangeView {
        ExchangeView {
            stage: self.stage,
            url: self.url@,
            status: match self.status {
                Some(status) => Some(status@),
                None => None,
            },
            headers: self.headers@,
        }
    }
}

impl View for Action {
    type V = ActionView;

    open spec fn view(&self) -> ActionView {
        match self {
            Action::Resolve { host, port } => ActionView::Resolve { host: host@, port: *port },
            Action::ConnectPlain => ActionView::ConnectPlain,
            Action::ConnectSecure { domain } => ActionView::ConnectSecure { domain: domain@ },
            Action::Send(text) => ActionView::Send(text@),
            Action::ReadStatusLine => ActionView::ReadStatusLine,
            Action::ReadHeaderLine => ActionView::ReadHeaderLine,
            Action::ReadBody => ActionView::ReadBody,
        }
    }
}

impl View for Event {
    type V = EventView;

    open spec fn view(&self) -> EventView {
        match self {
            Event::Resolved => EventView::Resolved,
            Event::Connected => EventView::Connected,
            Event::Written(n) => EventView::Written(*n),
            Event::Line(line) => EventView::Line(line@),
            Event::Rest(rest) => EventView::Rest(rest@),
            Event::HandshakeFailed => EventView::HandshakeFailed,
            Event::Failed => EventView::Failed,
        }
    }
}

impl View for Step {
    type V = StepView;

    open spec fn view(&self) -> StepView {
        match self {
            Step::Next(exchange) => StepView::Next(exchange@),
            Step::Done(response) => StepView::Done(response@),
            Step::Failed(e) => StepView::Failed(*e),
        }
    }
}

/// The request for `url`: `GET`, the path, the protocol version, and the
/// `Host` header, each line ended by a carriage return and a line feed, and
/// a blank line behind them.
pub open spec fn request_text(url: UrlView) -> Seq<char> {
    "GET "@ + url.path + " HTTP/1.0\r\nHost: "@ + url.host + "\r\n\r\n"@
}

/// The name of the header that announces a transfer encoding.
pub open spec fn transfer_encoding() -> Seq<char> {
    "transfer-encoding"@
}

/// The name of the header that announces a content encoding.
pub open spec fn content_encoding() -> Seq<char> {
    "content-encoding"@
}

/// The port to connect to: the URL's own, or its scheme's default. A `file`
/// URL has none.
pub open spec fn effective_port(url: UrlView) -> Option<u16> {
    match url.scheme.default_port() {
        None => None,
        Some(default) => match url.port {
            Some(port) => Some(port),
            None => Some(default),
        },
    }
}

/// The exchange that fetches `url`, at its start. A `file` URL has no
/// address to resolve, so there is no exchange for it.
pub open spec fn start(url: UrlView) -> Result<ExchangeView, FetchError> {
    if effective_port(url) is None {
        Err(FetchError::AddressResolution)
    } else {
        Ok(
            ExchangeView {
                stage: Stage::Resolving,
                url,
                status: None,
                headers: Map::empty(),
            },
        )
    }
}

/// What an exchange asks for in each stage. An exchange for a `file` URL,
/// which `request` never opens, would ask for port 0.
pub open spec fn action_of(x: ExchangeView) -> ActionView {
    match x.stage {
        Stage::Resolving => ActionView::Resolve {
            host: x.url.host,
            port: match effective_port(x.url) {
                Some(port) => port,
                None => 0,
            },
        },
        Stage::Connecting => match x.url.scheme {
            Scheme::HTTPS => ActionView::ConnectSecure { domain: x.url.host },
            _ => ActionView::ConnectPlain,
        },
        Stage::Sending => ActionView::Send(request_text(x.url)),
        Stage::Status => ActionView::ReadStatusLine,
        Stage::Headers => ActionView::ReadHeaderLine,
        Stage::Body => ActionView::ReadBody,
    }
}

/// How the exchange `x` goes on after `event`.
///
/// An event other than the one that its action succeeds with counts as that
/// action's failure.
pub open spec fn next(x: ExchangeView, event: EventView) -> StepView {
    match x.stage {
        Stage::Resolving => match event {
            EventView::Resolved => StepView::Next(ExchangeView { stage: Stage::Connecting, ..x }),
            _ => StepView::Failed(FetchError::AddressResolution),
        },
        Stage::Connecting => match event {
            EventView::Connected => StepView::Next(ExchangeView { stage: Stage::Sending, ..x }),
            EventView::HandshakeFailed => StepView::Failed(FetchError::TlsHandshake),
            _ => StepView::Failed(FetchError::Connection),
        },
        Stage::Sending => match event {
            EventView::Written(n) => if n == encode_utf8(request_text(x.url)).len() {
                StepView::Next(ExchangeView { stage: Stage::Status, ..x })
            } else {
                StepView::Failed(FetchError::ShortWrite)
            },
            _ => StepView::Failed(FetchError::ShortWrite),
        },
        Stage::Status => match event {
            EventView::Line(line) => match status_spec(line) {
                Ok(status) => StepView::Next(
                    ExchangeView { stage: Stage::Headers, status: Some(status), ..x },
                ),
                Err(e) => StepView::Failed(FetchError::ProtocolParse(e)),
            },
            _ => StepView::Failed(FetchError::ProtocolParse(Malformation::NoStatusLine)),
        },
        Stage::Headers => match event {
            EventView::Line(line) => if is_blank(line) {
                if x.headers.contains_key(transfer_encoding()) {
                    StepView::Failed(FetchError::UnsupportedEncoding(Encoding::Transfer))
                } else if x.headers.contains_key(content_encoding()) {
                    StepView::Failed(FetchError::UnsupportedEncoding(Encoding::Content))
                } else {
                    StepView::Next(ExchangeView { stage: Stage::Body, ..x })
                }
            } else {
                match header_spec(line) {
                    Some((name, value)) => StepView::Next(
                        ExchangeView { headers: x.headers.insert(name, value), ..x },
                    ),
                    None => StepView::Failed(
                        FetchError::ProtocolParse(Malformation::NoHeaderValue),
                    ),
                }
            },
            _ => StepView::Failed(FetchError::ProtocolParse(Malformation::NoHeaderLine)),
        },
        Stage::Body => match event {
            EventView::Rest(body) => StepView::Done(ResponseView { headers: x.headers, body }),
            _ => StepView::Failed(FetchError::BodyRead),
        },
    }
}

/// A URL with the same fields.
fn copy_of(url: &URL) -> (copy: URL)
    ensures
        copy@ == url@,
{
    URL { scheme: url.scheme, host: url.host.clone(), port: url.port, path: url.path.clone() }
}

/// The request for `url` as it goes over the wire.
pub fn request_for(url: &URL) -> (text: String)
    ensures
        text@ == request_text(url@),
{
    let mut text = String::from_str("GET ");
    text.append(url.path.as_str());
    text.append(" HTTP/1.0\r\nHost: ");
    text.append(url.host.as_str());
    text.append("\r\n\r\n");
    text
}

/// Opens the exchange that fetches `url`. Nothing has happened yet: the
/// exchange asks for the host's address to be resolved.
pub fn request(url: &URL) -> (r: Result<Exchange, FetchError>)
    ensures
        match r {
            Ok(exchange) => start(url@) == Ok::<ExchangeView, FetchError>(exchange@),
            Err(e) => start(url@) == Err::<ExchangeView, FetchError>(e),
        },
{
    match url.scheme.default_port() {
        None => Err(FetchError::AddressResolution),
        Some(_) => Ok(
            Exchange {
                stage: Stage::Resolving,
                url: copy_of(url),
                status: None,
                headers: Headers::new(),
            },
        ),
    }
}

impl Exchange {
    /// What is to be done next.
    pub fn action(&self) -> (action: Action)
        ensures
            action@ == action_of(self@),
    {
        match self.stage {
            Stage::Resolving => {
                let port = match self.url.scheme.default_port() {
                    None => 0,
                    Some(default) => match self.url.port {
                        Some(port) => port,
                        None => default,
                    },
                };
                Action::Resolve { host: self.url.host.clone(), port }
            },
            Stage::Connecting => match self.url.scheme {
                Scheme::HTTPS => Action::ConnectSecure { domain: self.url.host.clone() },
                _ => Action::ConnectPlain,
            },
            Stage::Sending => Action::Send(request_for(&self.url)),
            Stage::Status => Action::ReadStatusLine,
            Stage::Headers => Action::ReadHeaderLine,
            Stage::Body => Action::ReadBody,
        }
    }

    /// Takes in what came of the action and decides how the exchange goes
    /// on: with another action, with the response, or with a failure.
    pub fn step(self, event: Event) -> (step: Step)
        ensures
            step@ == next(self@, event@),
    {
        match self.stage {
            Stage::Resolving => match event {
                Event::Resolved => Step::Next(self.at(Stage::Connecting)),
                _ => Step::Failed(FetchError::AddressResolution),
            },
            Stage::Connecting => match event {
                Event::Connected => Step::Next(self.at(Stage::Sending)),
                Event::HandshakeFailed => Step::Failed(FetchError::TlsHandshake),
                _ => Step::Failed(FetchError::Connection),
            },
            Stage::Sending => match event {
                Event::Written(n) => {
                    if n == request_for(&self.url).as_str().as_bytes().len() {
                        Step::Next(self.at(Stage::Status))
                    } else {
                        Step::Failed(FetchError::ShortWrite)
                    }
                },
                _ => Step::Failed(FetchError::ShortWrite),
            },
            Stage::Status => match event {
                Event::Line(line) => match parse_status_line(line.as_str()) {
                    Ok(status) => Step::Next(self.with_status(status)),
                    Err(e) => Step::Failed(FetchError::ProtocolParse(e)),
                },
                _ => Step::Failed(FetchError::ProtocolParse(Malformation::NoStatusLine)),
            },
            Stage::Headers => match event {
                Event::Line(line) => {
                    if ends_headers(line.as_str()) {
                        if self.headers.contains_key("transfer-encoding") {
                            Step::Failed(FetchError::UnsupportedEncoding(Encoding::Transfer))
                        } else if self.headers.contains_key("content-encoding") {
                            Step::Failed(FetchError::UnsupportedEncoding(Encoding::Content))
                        } else {
                            Step::Next(self.at(Stage::Body))
                        }
                    } else {
                        match parse_header_line(line.as_str()) {
                            Some((name, value)) => Step::Next(self.with_header(name, value)),
                            None => Step::Failed(
                                FetchError::ProtocolParse(Malformation::NoHeaderValue),
                            ),
                        }
                    }
                },
                _ => Step::Failed(FetchError::ProtocolParse(Malformation::NoHeaderLine)),
            },
            Stage::Body => match event {
                Event::Rest(body) => Step::Done(Response::new(self.headers, body)),
                _ => Step::Failed(FetchError::BodyRead),
            },
        }
    }

    /// This exchange in another stage.
    fn at(self, stage: Stage) -> (after: Exchange)
        ensures
            after@ == (ExchangeView { stage, ..self@ }),
    {
        Exchange { stage, url: self.url, status: self.status, headers: self.headers }
    }

    /// This exchange with its status line read, at the start of the headers.
    fn with_status(self, status: StatusLine) -> (after: Exchange)
        ensures
            after@ == (ExchangeView { stage: Stage::Headers, status: Some(status@), ..self@ }),
    {
        Exchange {
            stage: Stage::Headers,
            url: self.url,
            status: Some(status),
            headers: self.headers,
        }
    }

    /// This exchange with one more header.
    fn with_header(self, name: String, value: String) -> (after: Exchange)
        ensures
            after@ == (ExchangeView { headers: self@.headers.insert(name@, value@), ..self@ }),
    {
        let mut headers = self.headers;
        headers.insert(name, value);
        Exchange { stage: self.stage, url: self.url, status: self.status, headers }
    }
}

} // verus!
