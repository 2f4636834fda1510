use wbe::response::{ends_headers, parse_header_line, parse_status_line};
use wbe::{show, Malformation, StatusLine};

fn every_text(alphabet: &[char], longest: usize, check: &mut dyn FnMut(&str)) {
    let mut indices: Vec<usize> = Vec::new();
    loop {
        let candidate: String = indices.iter().map(|i| alphabet[*i]).collect();
        check(&candidate);
        let mut at = 0;
        while at < indices.len() && indices[at] + 1 == alphabet.len() {
            indices[at] = 0;
            at += 1;
        }
        if at < indices.len() {
            indices[at] += 1;
        } else if indices.len() < longest {
            indices.push(0);
        } else {
            return;
        }
    }
}

/// The status line as std's `splitn` splits it.
fn status_by_std(line: &str) -> Result<StatusLine, Malformation> {
    let mut parts = line.splitn(3, ' ');
    let version = parts.next().unwrap();
    let code = parts.next().ok_or(Malformation::NoStatusCode)?;
    let reason = parts.next().ok_or(Malformation::NoStatusReason)?;
    Ok(StatusLine {
        version: version.to_string(),
        code: code.to_string(),
        reason: reason.to_string(),
    })
}

/// The header line as std's `splitn`, `to_ascii_lowercase` and `trim` split
/// it.
fn header_by_std(line: &str) -> Option<(String, String)> {
    let mut parts = line.splitn(2, ':');
    let name = parts.next().unwrap().to_ascii_lowercase();
    let value = parts.next()?.trim().to_string();
    Some((name, value))
}

/// The page as a loop over its characters shows it.
fn shown_by_loop(body: &str) -> String {
    let mut text = String::new();
    let mut in_angle = false;
    for c in body.chars() {
        if c == '<' {
            in_angle = true;
        } else if c == '>' {
            in_angle = false;
        } else if !in_angle {
            text.push(c);
        }
    }
    text
}

#[test]
fn status_lines_split_as_std_splits_them() {
    let mut seen = 0;
    every_text(&['H', '2', ' ', '\r', '\n', '\t'], 7, &mut |line| {
        assert_eq!(parse_status_line(line), status_by_std(line), "{:?}", line);
        seen += 1;
    });
    assert!(seen > 300000);
}

#[test]
fn header_lines_split_as_std_splits_them() {
    let alphabet = ['A', 'z', ':', ' ', '\r', '\n', '\u{a0}', 'É'];
    every_text(&alphabet, 6, &mut |line| {
        assert_eq!(parse_header_line(line), header_by_std(line), "{:?}", line);
        assert_eq!(ends_headers(line), line == "\r\n", "{:?}", line);
    });
}

#[test]
fn pages_are_shown_as_a_loop_shows_them() {
    every_text(&['<', '>', 'a', 'é', '\n'], 8, &mut |body| {
        assert_eq!(show(body), shown_by_loop(body), "{:?}", body);
    });
}
