use wbe::request::request_for;
use wbe::{
    request, Action, Encoding, Event, Exchange, FetchError, Malformation, Phase, Response, Scheme,
    Stage, Step, URL,
};

fn url(text: &str) -> URL {
    URL::parse(text).unwrap()
}

fn line(text: &str) -> Event {
    Event::Line(text.to_string())
}

fn go_on(exchange: Exchange, event: Event) -> Exchange {
    match exchange.step(event) {
        Step::Next(exchange) => exchange,
        other => panic!("the exchange ended: {:?}", other),
    }
}

fn failure(step: Step) -> FetchError {
    match step {
        Step::Failed(e) => e,
        other => panic!("the exchange did not fail: {:?}", other),
    }
}

/// An exchange for `text` that has sent its request and waits for the
/// status line.
fn sent(text: &str) -> Exchange {
    let target = url(text);
    let written = request_for(&target).len();
    let exchange = request(&target).unwrap();
    let exchange = go_on(exchange, Event::Resolved);
    let exchange = go_on(exchange, Event::Connected);
    go_on(exchange, Event::Written(written))
}

/// An exchange that has read these header lines.
fn with_headers(lines: &[&str]) -> Exchange {
    let mut exchange = go_on(sent("http://example.com/"), line("HTTP/1.0 200 OK\r\n"));
    for text in lines {
        exchange = go_on(exchange, line(text));
    }
    exchange
}

fn fetched(lines: &[&str], body: &str) -> Response {
    let exchange = go_on(with_headers(lines), line("\r\n"));
    assert_eq!(exchange.action(), Action::ReadBody);
    match exchange.step(Event::Rest(body.to_string())) {
        Step::Done(response) => response,
        other => panic!("no response: {:?}", other),
    }
}

#[test]
fn a_plain_response_is_returned() {
    let response = fetched(&["Content-Type: text/html\r\n"], "Hello");
    assert_eq!(response.headers().len(), 1);
    assert_eq!(response.header("content-type"), Some(&"text/html".to_string()));
    assert_eq!(response.body, "Hello");
}

#[test]
fn the_actions_come_in_their_order() {
    let target = url("http://example.com/index.html");
    let exchange = request(&target).unwrap();
    assert_eq!(exchange.stage, Stage::Resolving);
    assert_eq!(exchange.action(), Action::Resolve { host: "example.com".to_string(), port: 80 });
    let exchange = go_on(exchange, Event::Resolved);
    assert_eq!(exchange.action(), Action::ConnectPlain);
    let exchange = go_on(exchange, Event::Connected);
    let wire = "GET /index.html HTTP/1.0\r\nHost: example.com\r\n\r\n";
    assert_eq!(exchange.action(), Action::Send(wire.to_string()));
    let exchange = go_on(exchange, Event::Written(wire.len()));
    assert_eq!(exchange.action(), Action::ReadStatusLine);
    let exchange = go_on(exchange, line("HTTP/1.0 200 OK\r\n"));
    assert_eq!(exchange.action(), Action::ReadHeaderLine);
    let exchange = go_on(exchange, line("A: b\r\n"));
    assert_eq!(exchange.action(), Action::ReadHeaderLine);
    let exchange = go_on(exchange, line("\r\n"));
    assert_eq!(exchange.action(), Action::ReadBody);
    assert_eq!(exchange.stage, Stage::Body);
}

#[test]
fn the_request_names_path_and_host() {
    assert_eq!(
        request_for(&url("http://example.com:8080/a/b?c")),
        "GET /a/b?c HTTP/1.0\r\nHost: example.com\r\n\r\n"
    );
    assert_eq!(request_for(&url("https://h")), "GET / HTTP/1.0\r\nHost: h\r\n\r\n");
}

#[test]
fn the_port_of_the_url_goes_before_the_default() {
    let exchange = request(&url("http://h:8080/")).unwrap();
    assert_eq!(exchange.action(), Action::Resolve { host: "h".to_string(), port: 8080 });
    let exchange = request(&url("https://h:8443/")).unwrap();
    assert_eq!(exchange.action(), Action::Resolve { host: "h".to_string(), port: 8443 });
}

#[test]
fn a_secure_url_asks_for_a_handshake_with_its_host() {
    let exchange = request(&url("https://example.com/")).unwrap();
    assert_eq!(exchange.action(), Action::Resolve { host: "example.com".to_string(), port: 443 });
    let exchange = go_on(exchange, Event::Resolved);
    assert_eq!(exchange.action(), Action::ConnectSecure { domain: "example.com".to_string() });
}

#[test]
fn a_failed_handshake_fails_the_fetch() {
    let exchange = go_on(request(&url("https://example.com/")).unwrap(), Event::Resolved);
    let e = failure(exchange.step(Event::HandshakeFailed));
    assert_eq!(e, FetchError::TlsHandshake);
    assert_eq!(e.phase(), Phase::Connect);
}

#[test]
fn a_file_url_has_no_address() {
    let e = request(&url("file:///tmp/example.html")).unwrap_err();
    assert_eq!(e, FetchError::AddressResolution);
    assert_eq!(e.phase(), Phase::Connect);
    assert_eq!(request(&url("file://h:80/x")).unwrap_err(), FetchError::AddressResolution);
}

#[test]
fn an_unresolved_host_fails_the_fetch() {
    let exchange = request(&url("http://nowhere.invalid/")).unwrap();
    let e = failure(exchange.step(Event::Failed));
    assert_eq!(e, FetchError::AddressResolution);
    assert_eq!(e.phase(), Phase::Connect);
}

#[test]
fn a_refused_connection_fails_the_fetch() {
    let exchange = go_on(request(&url("http://h/")).unwrap(), Event::Resolved);
    let e = failure(exchange.step(Event::Failed));
    assert_eq!(e, FetchError::Connection);
    assert_eq!(e.phase(), Phase::Connect);
}

#[test]
fn a_short_write_fails_the_fetch() {
    let target = url("http://h/");
    let full = request_for(&target).len();
    for written in [0, 1, full - 1, full + 1] {
        let exchange = go_on(request(&target).unwrap(), Event::Resolved);
        let exchange = go_on(exchange, Event::Connected);
        let e = failure(exchange.step(Event::Written(written)));
        assert_eq!(e, FetchError::ShortWrite);
        assert_eq!(e.phase(), Phase::Request);
    }
}

#[test]
fn a_failed_write_fails_the_fetch() {
    let exchange = go_on(request(&url("http://h/")).unwrap(), Event::Resolved);
    let exchange = go_on(exchange, Event::Connected);
    assert_eq!(failure(exchange.step(Event::Failed)), FetchError::ShortWrite);
}

#[test]
fn the_written_bytes_are_counted_not_the_characters() {
    let target = URL { scheme: Scheme::HTTP, host: "é".to_string(), port: None, path: "/".to_string() };
    let text = request_for(&target);
    assert_eq!(text.chars().count() + 1, text.len());
    let exchange = go_on(request(&target).unwrap(), Event::Resolved);
    let exchange = go_on(exchange, Event::Connected);
    assert_eq!(failure(exchange.step(Event::Written(text.chars().count()))), FetchError::ShortWrite);
    let exchange = go_on(request(&target).unwrap(), Event::Resolved);
    let exchange = go_on(exchange, Event::Connected);
    assert_eq!(go_on(exchange, Event::Written(text.len())).stage, Stage::Status);
}

#[test]
fn a_malformed_status_line_fails_the_fetch() {
    let e = failure(sent("http://h/").step(line("HTTP/1.0\r\n")));
    assert_eq!(e, FetchError::ProtocolParse(Malformation::NoStatusCode));
    assert_eq!(e.phase(), Phase::ResponseParse);
    let e = failure(sent("http://h/").step(line("HTTP/1.0 200\r\n")));
    assert_eq!(e, FetchError::ProtocolParse(Malformation::NoStatusReason));
}

#[test]
fn a_stream_that_ends_before_the_status_line_fails_the_fetch() {
    let e = failure(sent("http://h/").step(line("")));
    assert_eq!(e, FetchError::ProtocolParse(Malformation::NoStatusCode));
}

#[test]
fn an_unread_line_fails_the_fetch() {
    let e = failure(sent("http://h/").step(Event::Failed));
    assert_eq!(e, FetchError::ProtocolParse(Malformation::NoStatusLine));
    let e = failure(with_headers(&["A: b\r\n"]).step(Event::Failed));
    assert_eq!(e, FetchError::ProtocolParse(Malformation::NoHeaderLine));
    assert_eq!(e.phase(), Phase::ResponseParse);
}

#[test]
fn the_status_code_is_kept_and_not_judged() {
    let exchange = go_on(sent("http://h/"), line("HTTP/1.1 404 Not Found\r\n"));
    let status = exchange.status.clone().unwrap();
    assert_eq!(status.version, "HTTP/1.1");
    assert_eq!(status.code, "404");
    assert_eq!(status.reason, "Not Found\r\n");
    let exchange = go_on(exchange, line("\r\n"));
    match exchange.step(Event::Rest("gone".to_string())) {
        Step::Done(response) => assert_eq!(response.body, "gone"),
        other => panic!("no response: {:?}", other),
    }
}

#[test]
fn a_header_line_without_colon_fails_the_fetch() {
    let e = failure(with_headers(&["A: b\r\n"]).step(line("no colon\r\n")));
    assert_eq!(e, FetchError::ProtocolParse(Malformation::NoHeaderValue));
}

#[test]
fn a_stream_that_ends_in_the_headers_fails_the_fetch() {
    let e = failure(with_headers(&["Content-Type: text/html\r\n"]).step(line("")));
    assert_eq!(e, FetchError::ProtocolParse(Malformation::NoHeaderValue));
    assert_eq!(e.phase(), Phase::ResponseParse);
    let e = failure(with_headers(&[]).step(line("")));
    assert_eq!(e, FetchError::ProtocolParse(Malformation::NoHeaderValue));
}

#[test]
fn a_bare_line_feed_does_not_end_the_headers() {
    let e = failure(with_headers(&["A: b\r\n"]).step(line("\n")));
    assert_eq!(e, FetchError::ProtocolParse(Malformation::NoHeaderValue));
}

#[test]
fn a_transfer_encoding_is_refused() {
    let exchange = with_headers(&["Content-Type: text/html\r\n", "Transfer-Encoding: chunked\r\n"]);
    let e = failure(exchange.step(line("\r\n")));
    assert_eq!(e, FetchError::UnsupportedEncoding(Encoding::Transfer));
    assert_eq!(e.phase(), Phase::ResponseParse);
}

#[test]
fn a_content_encoding_is_refused() {
    let exchange = with_headers(&["content-encoding: gzip\r\n", "A: b\r\n"]);
    let e = failure(exchange.step(line("\r\n")));
    assert_eq!(e, FetchError::UnsupportedEncoding(Encoding::Content));
}

#[test]
fn an_encoding_is_refused_whatever_its_value() {
    for value in ["", "identity", "chunked", " ", "gzip, chunked"] {
        let header = format!("TRANSFER-ENCODING:{}\r\n", value);
        let e = failure(with_headers(&[&header]).step(line("\r\n")));
        assert_eq!(e, FetchError::UnsupportedEncoding(Encoding::Transfer));
    }
}

#[test]
fn the_transfer_encoding_is_named_before_the_content_encoding() {
    let exchange = with_headers(&["Content-Encoding: gzip\r\n", "Transfer-Encoding: chunked\r\n"]);
    let e = failure(exchange.step(line("\r\n")));
    assert_eq!(e, FetchError::UnsupportedEncoding(Encoding::Transfer));
}

#[test]
fn an_encoding_is_refused_at_the_blank_line_only() {
    let exchange = with_headers(&["Transfer-Encoding: chunked\r\n"]);
    assert_eq!(exchange.action(), Action::ReadHeaderLine);
    let e = failure(exchange.step(line("broken\r\n")));
    assert_eq!(e, FetchError::ProtocolParse(Malformation::NoHeaderValue));
}

#[test]
fn a_header_sent_twice_keeps_its_last_value() {
    let response = fetched(&["Set-Cookie: a=1\r\n", "X: y\r\n", "set-cookie: b=2\r\n"], "");
    assert_eq!(response.header("set-cookie"), Some(&"b=2".to_string()));
    assert_eq!(response.headers().len(), 2);
}

#[test]
fn the_body_is_all_that_is_left() {
    let response = fetched(&["Content-Length: 1\r\n"], "more\r\n\r\nthan one");
    assert_eq!(response.body, "more\r\n\r\nthan one");
    assert_eq!(fetched(&[], "").body, "");
}

#[test]
fn a_body_that_cannot_be_read_fails_the_fetch() {
    let exchange = go_on(with_headers(&["A: b\r\n"]), line("\r\n"));
    let e = failure(exchange.step(Event::Failed));
    assert_eq!(e, FetchError::BodyRead);
    assert_eq!(e.phase(), Phase::Body);
}

#[test]
fn an_event_that_does_not_answer_the_action_counts_as_its_failure() {
    let exchange = request(&url("http://h/")).unwrap();
    assert_eq!(failure(exchange.step(Event::Connected)), FetchError::AddressResolution);
    let exchange = go_on(request(&url("http://h/")).unwrap(), Event::Resolved);
    assert_eq!(failure(exchange.step(line("x"))), FetchError::Connection);
    assert_eq!(
        failure(sent("http://h/").step(Event::Rest("x".to_string()))),
        FetchError::ProtocolParse(Malformation::NoStatusLine)
    );
    assert_eq!(
        failure(with_headers(&[]).step(Event::Written(3))),
        FetchError::ProtocolParse(Malformation::NoHeaderLine)
    );
    let exchange = go_on(with_headers(&[]), line("\r\n"));
    assert_eq!(failure(exchange.step(line("x"))), FetchError::BodyRead);
}

#[test]
fn every_failure_has_its_phase() {
    assert_eq!(FetchError::AddressResolution.phase(), Phase::Connect);
    assert_eq!(FetchError::Connection.phase(), Phase::Connect);
    assert_eq!(FetchError::TlsHandshake.phase(), Phase::Connect);
    assert_eq!(FetchError::ShortWrite.phase(), Phase::Request);
    for fault in [
        Malformation::NoStatusLine,
        Malformation::NoStatusCode,
        Malformation::NoStatusReason,
        Malformation::NoHeaderLine,
        Malformation::NoHeaderValue,
    ] {
        assert_eq!(FetchError::ProtocolParse(fault).phase(), Phase::ResponseParse);
    }
    assert_eq!(FetchError::UnsupportedEncoding(Encoding::Transfer).phase(), Phase::ResponseParse);
    assert_eq!(FetchError::UnsupportedEncoding(Encoding::Content).phase(), Phase::ResponseParse);
    assert_eq!(FetchError::BodyRead.phase(), Phase::Body);
}

#[test]
fn every_failure_is_described() {
    assert_eq!(FetchError::AddressResolution.describe(), "no address for the host");
    assert_eq!(FetchError::Connection.describe(), "failed to connect");
    assert_eq!(FetchError::TlsHandshake.describe(), "TLS handshake failed");
    assert_eq!(FetchError::ShortWrite.describe(), "failed to send entire request");
    assert_eq!(
        FetchError::ProtocolParse(Malformation::NoStatusLine).describe(),
        "failed to read status line"
    );
    assert_eq!(
        FetchError::ProtocolParse(Malformation::NoStatusCode).describe(),
        "expected status code"
    );
    assert_eq!(
        FetchError::ProtocolParse(Malformation::NoStatusReason).describe(),
        "expected status explanation"
    );
    assert_eq!(
        FetchError::ProtocolParse(Malformation::NoHeaderLine).describe(),
        "failed to read header line"
    );
    assert_eq!(
        FetchError::ProtocolParse(Malformation::NoHeaderValue).describe(),
        "expected header value"
    );
    assert_eq!(
        FetchError::UnsupportedEncoding(Encoding::Transfer).describe(),
        "transfer-encoding not supported"
    );
    assert_eq!(
        FetchError::UnsupportedEncoding(Encoding::Content).describe(),
        "content-encoding not supported"
    );
    assert_eq!(FetchError::BodyRead.describe(), "failed to read body");
}

#[test]
fn every_phase_has_its_name() {
    assert_eq!(Phase::Url.name(), "url");
    assert_eq!(Phase::Connect.name(), "connect");
    assert_eq!(Phase::Request.name(), "request");
    assert_eq!(Phase::ResponseParse.name(), "response-parse");
    assert_eq!(Phase::Body.name(), "body");
}

#[test]
fn header_names_are_lowered_and_values_trimmed() {
    let response = fetched(
        &["X-Mixed-CASE:  spaced out \t\r\n", "SERVER:nginx\r\n", "Empty:   \r\n"],
        "",
    );
    assert_eq!(response.header("x-mixed-case"), Some(&"spaced out".to_string()));
    assert_eq!(response.header("server"), Some(&"nginx".to_string()));
    assert_eq!(response.header("empty"), Some(&"".to_string()));
    assert_eq!(response.header("X-Mixed-CASE"), None);
    assert_eq!(response.headers().len(), 3);
}
