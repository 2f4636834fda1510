//! What can go wrong in a fetch, and in which phase.

use vstd::prelude::*;

verus! {

/// What is missing in a response's status line or header block.
#[derive(Debug, Clone, Copy, PartialEq, Eq, Structural)]
pub enum Malformation {
    /// The status line could not be read.
    NoStatusLine,
    /// The status line has no space, so no status code follows the version.
    NoStatusCode,
    /// The status line has one space only, so no reason phrase follows the
    /// status code.
    NoStatusReason,
    /// A header line could not be read.
    NoHeaderLine,
    /// A header line has no `:`, so no value follows the name. A header
    /// block that ends before its blank line ends in such a line.
    NoHeaderValue,
}

/// A way of encoding the body that the engine cannot undo.
#[derive(Debug, Clone, Copy, PartialEq, Eq, Structural)]
pub enum Encoding {
    /// The response has a `transfer-encoding` header.
    Transfer,
    /// The response has a `content-encoding` header.
    Content,
}

/// Why a fetch failed. Every failure ends the fetch.
#[derive(Debug, Clone, Copy, PartialEq, Eq, Structural)]
pub enum FetchError {
    /// No address was found for the host and port.
    AddressResolution,
    /// The connection could not be opened.
    Connection,
    /// The TLS handshake failed.
    TlsHandshake,
    /// The request was not sent in full.
    ShortWrite,
    /// The status line or a header line is malformed, or the header block
    /// never ended.
    ProtocolParse(Malformation),
    /// The response says that its body is encoded.
    UnsupportedEncoding(Encoding),
    /// The stream failed before the body's end.
    BodyRead,
}

/// The phases of a fetch.
#[derive(Debug, Clone, Copy, PartialEq, Eq, Structural)]
pub enum Phase {
    Url,
    Connect,
    Request,
    ResponseParse,
    Body,
}

impl Phase {
    /// The name of the phase.
    pub open spec fn name_spec(self) -> Seq<char> {
        match self {
            Phase::Url => "url"@,
            Phase::Connect => "connect"@,
            Phase::Request => "request"@,
            Phase::ResponseParse => "response-parse"@,
            Phase::Body => "body"@,
        }
    }

    /// The name of the phase.
    pub fn name(self) -> (name: &'static str)
        ensures
            name@ == self.name_spec(),
    {
        match self {
            Phase::Url => "url",
            Phase::Connect => "connect",
            Phase::Request => "request",
            Phase::ResponseParse => "response-parse",
            Phase::Body => "body",
        }
    }
}

impl FetchError {
    /// What went wrong, in words.
    pub open spec fn description(self) -> Seq<char> {
        match self {
            FetchError::AddressResolution => "no address for the host"@,
            FetchError::Connection => "failed to connect"@,
            FetchError::TlsHandshake => "TLS handshake failed"@,
            FetchError::ShortWrite => "failed to send entire request"@,
            FetchError::ProtocolParse(Malformation::NoStatusLine) => "failed to read status line"@,
            FetchError::ProtocolParse(Malformation::NoStatusCode) => "expected status code"@,
            FetchError::ProtocolParse(Malformation::NoStatusReason) => "expected status explanation"@,
            FetchError::ProtocolParse(Malformation::NoHeaderLine) => "failed to read header line"@,
            FetchError::ProtocolParse(Malformation::NoHeaderValue) => "expected header value"@,
            FetchError::UnsupportedEncoding(Encoding::Transfer) => "transfer-encoding not supported"@,
            FetchError::UnsupportedEncoding(Encoding::Content) => "content-encoding not supported"@,
            FetchError::BodyRead => "failed to read body"@,
        }
    }

    /// What went wrong, in words.
    pub fn describe(self) -> (text: &'static str)
        ensures
            text@ == self.description(),
    {
        match self {
            FetchError::AddressResolution => "no address for the host",
            FetchError::Connection => "failed to connect",
            FetchError::TlsHandshake => "TLS handshake failed",
            FetchError::ShortWrite => "failed to send entire request",
            FetchError::ProtocolParse(Malformation::NoStatusLine) => "failed to read status line",
            FetchError::ProtocolParse(Malformation::NoStatusCode) => "expected status code",
            FetchError::ProtocolParse(Malformation::NoStatusReason) => "expected status explanation",
            FetchError::ProtocolParse(Malformation::NoHeaderLine) => "failed to read header line",
            FetchError::ProtocolParse(Malformation::NoHeaderValue) => "expected header value",
            FetchError::UnsupportedEncoding(Encoding::Transfer) => "transfer-encoding not supported",
            FetchError::UnsupportedEncoding(Encoding::Content) => "content-encoding not supported",
            FetchError::BodyRead => "failed to read body",
        }
    }

    /// The phase in which this failure comes.
    pub open spec fn phase_spec(self) -> Phase {
        match self {
            FetchError::AddressResolution => Phase::Connect,
            FetchError::Connection => Phase::Connect,
            FetchError::TlsHandshake => Phase::Connect,
            FetchError::ShortWrite => Phase::Request,
            FetchError::ProtocolParse(_) => Phase::ResponseParse,
            FetchError::UnsupportedEncoding(_) => Phase::ResponseParse,
            FetchError::BodyRead => Phase::Body,
        }
    }

    /// The phase in which this failure comes.
    #[verifier::when_used_as_spec(phase_spec)]
    pub fn phase(self) -> (phase: Phase)
        ensures
            phase == self.phase_spec(),
    {
        match self {
            FetchError::AddressResolution => Phase::Connect,
            FetchError::Connection => Phase::Connect,
            FetchError::TlsHandshake => Phase::Connect,
            FetchError::ShortWrite => Phase::Request,
            FetchError::ProtocolParse(_) => Phase::ResponseParse,
            FetchError::UnsupportedEncoding(_) => Phase::ResponseParse,
            FetchError::BodyRead => Phase::Body,
        }
    }
}

} // verus!
