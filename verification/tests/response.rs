use wbe::response::{ends_headers, parse_header_line, parse_status_line};
use wbe::{Headers, Malformation, Response, StatusLine};

fn status(version: &str, code: &str, reason: &str) -> StatusLine {
    StatusLine { version: version.to_string(), code: code.to_string(), reason: reason.to_string() }
}

fn header(name: &str, value: &str) -> Option<(String, String)> {
    Some((name.to_string(), value.to_string()))
}

#[test]
fn a_status_line_has_three_parts() {
    assert_eq!(parse_status_line("HTTP/1.0 200 OK\r\n"), Ok(status("HTTP/1.0", "200", "OK\r\n")));
}

#[test]
fn the_reason_phrase_takes_the_rest_of_the_line() {
    assert_eq!(
        parse_status_line("HTTP/1.1 404 Not Found\r\n"),
        Ok(status("HTTP/1.1", "404", "Not Found\r\n"))
    );
    assert_eq!(parse_status_line("a b c d e"), Ok(status("a", "b", "c d e")));
}

#[test]
fn the_parts_of_a_status_line_may_be_empty() {
    assert_eq!(parse_status_line("  "), Ok(status("", "", "")));
    assert_eq!(parse_status_line("HTTP/1.0 200 "), Ok(status("HTTP/1.0", "200", "")));
    assert_eq!(parse_status_line(" 200 OK"), Ok(status("", "200", "OK")));
}

#[test]
fn a_status_line_without_space_has_no_code() {
    assert_eq!(parse_status_line("HTTP/1.0\r\n"), Err(Malformation::NoStatusCode));
    assert_eq!(parse_status_line(""), Err(Malformation::NoStatusCode));
    assert_eq!(parse_status_line("\r\n"), Err(Malformation::NoStatusCode));
}

#[test]
fn a_status_line_with_one_space_has_no_reason() {
    assert_eq!(parse_status_line("HTTP/1.0 200\r\n"), Err(Malformation::NoStatusReason));
    assert_eq!(parse_status_line(" "), Err(Malformation::NoStatusReason));
}

#[test]
fn only_the_space_splits_a_status_line() {
    assert_eq!(parse_status_line("HTTP/1.0\t200\tOK\r\n"), Err(Malformation::NoStatusCode));
}

#[test]
fn a_header_name_is_lowered_and_its_value_trimmed() {
    assert_eq!(
        parse_header_line("Content-Type: text/html\r\n"),
        header("content-type", "text/html")
    );
    assert_eq!(parse_header_line("X-A:\t b c \r\n"), header("x-a", "b c"));
}

#[test]
fn a_header_splits_at_its_first_colon() {
    assert_eq!(
        parse_header_line("Date: Mon, 01 Jan 2024 00:00:00 GMT\r\n"),
        header("date", "Mon, 01 Jan 2024 00:00:00 GMT")
    );
    assert_eq!(parse_header_line("a:b:c"), header("a", "b:c"));
}

#[test]
fn name_and_value_of_a_header_may_be_empty() {
    assert_eq!(parse_header_line(":"), header("", ""));
    assert_eq!(parse_header_line("Name:\r\n"), header("name", ""));
    assert_eq!(parse_header_line(": v"), header("", "v"));
}

#[test]
fn the_name_of_a_header_is_not_trimmed() {
    assert_eq!(parse_header_line(" Name : v\r\n"), header(" name ", "v"));
}

#[test]
fn only_ascii_capitals_of_a_header_name_are_lowered() {
    assert_eq!(parse_header_line("ÉTAG: É \u{a0}\r\n"), header("Étag", "É"));
}

#[test]
fn a_header_line_without_colon_has_no_value() {
    assert_eq!(parse_header_line("Content-Type text/html\r\n"), None);
    assert_eq!(parse_header_line(""), None);
    assert_eq!(parse_header_line("\n"), None);
    assert_eq!(parse_header_line("\r\n"), None);
}

#[test]
fn only_carriage_return_and_line_feed_end_the_headers() {
    assert!(ends_headers("\r\n"));
    assert!(!ends_headers(""));
    assert!(!ends_headers("\n"));
    assert!(!ends_headers("\r"));
    assert!(!ends_headers(" \r\n"));
    assert!(!ends_headers("\r\n\r\n"));
    assert!(!ends_headers("\n\r"));
}

#[test]
fn a_response_holds_headers_and_body() {
    let mut headers = Headers::new();
    headers.insert("content-type".to_string(), "text/html".to_string());
    let response = Response::new(headers, "Hello".to_string());
    assert_eq!(response.body, "Hello");
    assert_eq!(response.header("content-type"), Some(&"text/html".to_string()));
    assert_eq!(response.header("Content-Type"), None);
    assert_eq!(response.headers().len(), 1);
}
