use tunnel_proxy::request::{head_status, parse_head, HeadStatus, Request, ServerResponse, MAX_HEAD};

fn parsed(method: &str, target: &str) -> Option<Request> {
    Some(Request { method: method.to_string(), target: target.to_string() })
}

#[test]
fn head_with_a_connect_line_is_parsed() {
    let head = b"CONNECT service1.internal:443 HTTP/1.1\r\nHost: service1.internal:443\r\n\r\n";
    assert_eq!(parse_head(head), parsed("CONNECT", "service1.internal:443"));
}

#[test]
fn head_with_another_method_is_parsed() {
    assert_eq!(parse_head(b"GET / HTTP/1.1\r\n\r\n"), parsed("GET", "/"));
    assert_eq!(
        parse_head(b"POST http://example.com/a?b=c HTTP/1.0\r\n\r\n"),
        parsed("POST", "http://example.com/a?b=c")
    );
}

#[test]
fn head_needs_only_the_request_line_to_be_well_formed() {
    assert_eq!(parse_head(b"GET / HTTP/1.1\r\n"), parsed("GET", "/"));
    assert_eq!(parse_head(b"GET / HTTP/1.1\r\n\x00\xff not a header"), parsed("GET", "/"));
    assert_eq!(parse_head(b"a b c\r\n"), parsed("a", "b"));
    assert_eq!(parse_head(b"!~ ~! x\r\n\r\n"), parsed("!~", "~!"));
}

#[test]
fn head_without_three_parts_is_malformed() {
    assert_eq!(parse_head(b""), None);
    assert_eq!(parse_head(b"\r\n\r\n"), None);
    assert_eq!(parse_head(b"GET\r\n\r\n"), None);
    assert_eq!(parse_head(b"GET /\r\n\r\n"), None);
    assert_eq!(parse_head(b"GET / \r\n\r\n"), None);
    assert_eq!(parse_head(b"GET / HTTP/1.1 more\r\n\r\n"), None);
}

#[test]
fn head_with_wrong_spacing_is_malformed() {
    assert_eq!(parse_head(b" GET / HTTP/1.1\r\n\r\n"), None);
    assert_eq!(parse_head(b"GET  / HTTP/1.1\r\n\r\n"), None);
    assert_eq!(parse_head(b"GET /  HTTP/1.1\r\n\r\n"), None);
    assert_eq!(parse_head(b"GET\t/\tHTTP/1.1\r\n\r\n"), None);
    assert_eq!(parse_head(b"GET / HTTP/1.1 \r\n\r\n"), None);
}

#[test]
fn head_without_a_line_end_is_malformed() {
    assert_eq!(parse_head(b"GET / HTTP/1.1"), None);
    assert_eq!(parse_head(b"GET / HTTP/1.1\r"), None);
    assert_eq!(parse_head(b"GET / HTTP/1.1\n\n"), None);
    assert_eq!(parse_head(b"GET / HTTP/1.1\n\r\n"), None);
    assert_eq!(parse_head(b"GET / HTTP/1.1\rX\n"), None);
}

#[test]
fn head_with_bytes_outside_visible_ascii_is_malformed() {
    assert_eq!(parse_head(b"G\x00T / HTTP/1.1\r\n\r\n"), None);
    assert_eq!(parse_head(b"GET /caf\xc3\xa9 HTTP/1.1\r\n\r\n"), None);
    assert_eq!(parse_head(b"GET /\x7f HTTP/1.1\r\n\r\n"), None);
    assert_eq!(parse_head(b"GET / HTTP/1.1\x80\r\n\r\n"), None);
}

#[test]
fn head_is_complete_at_the_blank_line() {
    assert_eq!(head_status(b""), HeadStatus::Incomplete);
    assert_eq!(head_status(b"\r\n"), HeadStatus::Incomplete);
    assert_eq!(head_status(b"GET / HTTP/1.1\r\n"), HeadStatus::Incomplete);
    assert_eq!(head_status(b"GET / HTTP/1.1\r\n\r"), HeadStatus::Incomplete);
    assert_eq!(head_status(b"GET / HTTP/1.1\r\n\r\n"), HeadStatus::Complete);
    assert_eq!(head_status(b"\r\n\r\n"), HeadStatus::Complete);
    assert_eq!(head_status(b"GET / HTTP/1.1\n\n"), HeadStatus::Incomplete);
    assert_eq!(head_status(b"GET / HTTP/1.1\r\n\r\nX"), HeadStatus::Incomplete);
}

#[test]
fn head_is_too_long_at_the_limit() {
    assert_eq!(MAX_HEAD, 8192);
    assert_eq!(head_status(&vec![b'a'; MAX_HEAD - 1]), HeadStatus::Incomplete);
    assert_eq!(head_status(&vec![b'a'; MAX_HEAD]), HeadStatus::TooLong);
    assert_eq!(head_status(&vec![b'a'; MAX_HEAD + 1]), HeadStatus::TooLong);
    let mut ended = vec![b'a'; MAX_HEAD];
    ended.extend_from_slice(b"\r\n\r\n");
    assert_eq!(head_status(&ended), HeadStatus::Complete);
}

#[test]
fn responses_are_complete_status_lines() {
    assert_eq!(ServerResponse::Established.status_line(), "HTTP/1.1 200 OK\r\n\r\n");
    assert_eq!(ServerResponse::BadRequest.status_line(), "HTTP/1.1 400 Bad Request\r\n\r\n");
    assert_eq!(ServerResponse::Forbidden.status_line(), "HTTP/1.1 403 Forbidden\r\n\r\n");
    assert_eq!(
        ServerResponse::MethodNotAllowed.status_line(),
        "HTTP/1.1 405 Method Not Allowed\r\n\r\n"
    );
}
