use sourceshack::output::{parse_cgi_output, CgiResponse, ParseCgiOutputError};

fn parse(out: &[u8]) -> Result<CgiResponse, ParseCgiOutputError> {
    parse_cgi_output(out, b"")
}

fn header_pairs(r: &CgiResponse) -> Vec<(String, String)> {
    r.headers().clone()
}

#[test]
fn round_trip_headers_and_body() {
    let r = parse(b"Content-Type: text/plain\r\nX-Custom-Header: Some Value\r\n\r\nhello\r\n\r\nworld")
        .unwrap();
    assert_eq!(r.status_code(), 200);
    assert_eq!(
        header_pairs(&r),
        vec![
            ("Content-Type".to_string(), "text/plain".to_string()),
            ("X-Custom-Header".to_string(), "Some Value".to_string()),
        ]
    );
    assert_eq!(r.body().as_slice(), b"hello\r\n\r\nworld");
}

#[test]
fn status_line_overrides_default() {
    let r = parse(b"Status: 404 Not Found\r\nContent-Type: text/html\r\n\r\nmissing").unwrap();
    assert_eq!(r.status_code(), 404);
    assert!(r.header("Status").is_none());
    assert_eq!(r.header("Content-Type").unwrap(), "text/html");
    assert_eq!(r.headers().len(), 1);
    assert_eq!(r.body().as_slice(), b"missing");
}

#[test]
fn missing_terminator_fails() {
    assert_eq!(
        parse(b"Content-Type: text/plain\r\n\nbody").unwrap_err(),
        ParseCgiOutputError::NoHeaderTerminator
    );
    assert_eq!(parse(b"").unwrap_err(), ParseCgiOutputError::NoHeaderTerminator);
    assert_eq!(parse(b"\r\n\r").unwrap_err(), ParseCgiOutputError::NoHeaderTerminator);
}

#[test]
fn header_line_without_colon_fails() {
    assert_eq!(
        parse(b"Content-Type: text/plain\r\nNoColonHere\r\n\r\nbody").unwrap_err(),
        ParseCgiOutputError::MalformedHeaderLine
    );
}

#[test]
fn invalid_status_codes_fail() {
    for out in [
        &b"Status: abc\r\n\r\n"[..],
        b"Status: 20\r\n\r\n",
        b"Status: 099 Low\r\n\r\n",
        b"Status: 700 High\r\n\r\n",
        b"Status: \xff00\r\n\r\n",
    ] {
        assert_eq!(parse(out).unwrap_err(), ParseCgiOutputError::InvalidStatusCode);
    }
    assert_eq!(parse(b"Status: 599\r\n\r\n").unwrap().status_code(), 599);
    assert_eq!(parse(b"Status:100\r\n\r\n").unwrap().status_code(), 100);
}

#[test]
fn invalid_header_encoding_fails() {
    assert_eq!(
        parse(b"X-\xffName: v\r\n\r\n").unwrap_err(),
        ParseCgiOutputError::InvalidHeaderEncoding
    );
    assert_eq!(
        parse(b"X-Name: \xc3\r\n\r\n").unwrap_err(),
        ParseCgiOutputError::InvalidHeaderEncoding
    );
    let r = parse("X-Name: caf\u{e9}\r\n\r\n".as_bytes()).unwrap();
    assert_eq!(r.header("X-Name").unwrap(), "caf\u{e9}");
}

#[test]
fn bare_line_feeds_end_lines() {
    let r = parse(b"A: 1\nB: 2\r\n\r\nbody").unwrap();
    assert_eq!(
        header_pairs(&r),
        vec![("A".to_string(), "1".to_string()), ("B".to_string(), "2".to_string())]
    );
    assert_eq!(r.body().as_slice(), b"body");
}

#[test]
fn scanning_stops_at_first_empty_line() {
    let r = parse(b"A: 1\n\nno colon here\r\n\r\nrest").unwrap();
    assert_eq!(header_pairs(&r), vec![("A".to_string(), "1".to_string())]);
    assert_eq!(r.body().as_slice(), b"rest");
}

#[test]
fn exactly_one_space_is_trimmed() {
    let r = parse(b"A:  two\r\nB:x\r\nC:\r\n\r\n").unwrap();
    assert_eq!(
        header_pairs(&r),
        vec![
            ("A".to_string(), " two".to_string()),
            ("B".to_string(), "x".to_string()),
            ("C".to_string(), "".to_string()),
        ]
    );
}

#[test]
fn header_names_keep_their_case() {
    let r = parse(b"content-type: a\r\nContent-Type: b\r\n\r\n").unwrap();
    assert_eq!(r.header("content-type").unwrap(), "a");
    assert_eq!(r.header("Content-Type").unwrap(), "b");
    assert!(r.header("CONTENT-TYPE").is_none());
}

#[test]
fn later_header_replaces_earlier_in_lookup() {
    let r = parse(b"Set: 1\r\nSet: 2\r\n\r\n").unwrap();
    assert_eq!(r.header("Set").unwrap(), "2");
    assert_eq!(r.headers().len(), 2);
}

#[test]
fn empty_header_block() {
    let r = parse(b"\r\n\r\nbody").unwrap();
    assert_eq!(r.status_code(), 200);
    assert!(r.headers().is_empty());
    assert_eq!(r.body().as_slice(), b"body");
}

#[test]
fn configured_body_prefix_is_stripped() {
    let r = parse_cgi_output(b"A: 1\r\n\r\n\nbody", b"\n").unwrap();
    assert_eq!(r.body().as_slice(), b"body");
    let r = parse_cgi_output(b"A: 1\r\n\r\nbody", b"\n").unwrap();
    assert_eq!(r.body().as_slice(), b"body");
    let r = parse(b"A: 1\r\n\r\n\nbody").unwrap();
    assert_eq!(r.body().as_slice(), b"\nbody");
}
