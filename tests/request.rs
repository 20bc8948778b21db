use task_server::request::{parse_request, read_budget, request_length, HttpError, MAX_REQUEST_BYTES};

#[test]
fn parses_request_line_and_headers() {
    let data = b"GET /api/task HTTP/1.1\r\nHost: localhost\r\nAuthority: abc\r\n\r\n";
    let req = parse_request(data).unwrap();
    assert_eq!(req.method, b"GET".to_vec());
    assert_eq!(req.path, b"/api/task".to_vec());
    assert_eq!(req.version, b"HTTP/1.1".to_vec());
    assert_eq!(req.headers.len(), 2);
    assert_eq!(req.headers[0].name, b"host".to_vec());
    assert_eq!(req.headers[0].value, b"localhost".to_vec());
    assert!(req.body.is_empty());
}

#[test]
fn header_lookup_ignores_letter_case() {
    let data = b"GET / HTTP/1.1\r\nX-Thing:  Value  \r\n\r\n";
    let req = parse_request(data).unwrap();
    assert_eq!(req.header(b"x-thing").unwrap(), &b"Value".to_vec());
    assert_eq!(req.header(b"X-THING").unwrap(), &b"Value".to_vec());
    assert!(req.header(b"missing").is_none());
}

#[test]
fn later_header_line_wins() {
    let data = b"GET / HTTP/1.1\r\nA: 1\r\na: 2\r\n\r\n";
    let req = parse_request(data).unwrap();
    assert_eq!(req.header(b"a").unwrap(), &b"2".to_vec());
}

#[test]
fn body_has_exactly_the_declared_length() {
    for len in [1usize, 5, 17, 300] {
        let body: Vec<u8> = (0..len).map(|i| b'a' + (i % 26) as u8).collect();
        let mut data = format!("POST /api/task HTTP/1.1\r\nContent-Length: {}\r\n\r\n", len).into_bytes();
        data.extend_from_slice(&body);
        let req = parse_request(&data).unwrap();
        assert_eq!(req.body.len(), len);
        assert_eq!(req.body, body);
    }
}

#[test]
fn bytes_beyond_the_declared_length_are_not_body() {
    let data = b"POST /api/login HTTP/1.1\r\nContent-Length: 3\r\n\r\nabcdef";
    let req = parse_request(data).unwrap();
    assert_eq!(req.body, b"abc".to_vec());
}

#[test]
fn post_without_content_length_is_length_required() {
    let data = b"POST /api/task HTTP/1.1\r\nHost: x\r\n\r\n{\"title\":\"t\"}";
    assert_eq!(parse_request(data).err(), Some(HttpError::LengthRequired));
}

#[test]
fn post_with_zero_length_has_empty_body() {
    let data = b"POST /api/task HTTP/1.1\r\nContent-Length: 0\r\n\r\n";
    let req = parse_request(data).unwrap();
    assert!(req.body.is_empty());
}

#[test]
fn get_without_content_length_has_empty_body() {
    let data = b"GET /index.html HTTP/1.1\r\n\r\nignored";
    let req = parse_request(data).unwrap();
    assert!(req.body.is_empty());
}

#[test]
fn single_token_request_line_is_bad_request() {
    let data = b"GARBAGE\r\nContent-Length: 4\r\n\r\nbody";
    assert_eq!(parse_request(data).err(), Some(HttpError::BadRequest));
}

#[test]
fn four_token_request_line_is_bad_request() {
    let data = b"GET / HTTP/1.1 extra\r\n\r\n";
    assert_eq!(parse_request(data).err(), Some(HttpError::BadRequest));
}

#[test]
fn bad_request_line_wins_over_missing_length() {
    let data = b"POST /api/task\r\n\r\n";
    assert_eq!(parse_request(data).err(), Some(HttpError::BadRequest));
}

#[test]
fn empty_request_is_bad_request() {
    assert_eq!(parse_request(b"").err(), Some(HttpError::BadRequest));
    assert_eq!(parse_request(b"\r\n\r\n").err(), Some(HttpError::BadRequest));
}

#[test]
fn truncated_body_is_bad_request() {
    let data = b"POST /api/task HTTP/1.1\r\nContent-Length: 10\r\n\r\nabc";
    assert_eq!(parse_request(data).err(), Some(HttpError::BadRequest));
}

#[test]
fn non_numeric_length_is_bad_request() {
    let data = b"POST /api/task HTTP/1.1\r\nContent-Length: ten\r\n\r\n0123456789";
    assert_eq!(parse_request(data).err(), Some(HttpError::BadRequest));
}

#[test]
fn huge_length_is_bad_request() {
    let data = b"POST /api/task HTTP/1.1\r\nContent-Length: 99999999999999999999999\r\n\r\n";
    assert_eq!(parse_request(data).err(), Some(HttpError::BadRequest));
}

#[test]
fn bare_line_feeds_end_lines_too() {
    let data = b"GET /a HTTP/1.1\nContent-Length: 2\n\nhi";
    let req = parse_request(data).unwrap();
    assert_eq!(req.path, b"/a".to_vec());
    assert_eq!(req.body, b"hi".to_vec());
}

#[test]
fn request_length_waits_for_the_blank_line() {
    assert_eq!(request_length(b"GET / HTTP/1.1\r\nHost: x\r\n"), None);
    assert_eq!(request_length(b"GET / HTTP/1.1\r\n\r\n"), Some(18));
    let head = b"POST /api/task HTTP/1.1\r\nContent-Length: 5\r\n\r\n";
    assert_eq!(request_length(head), Some(head.len() + 5));
}

#[test]
fn malformed_request_line_asks_for_no_body() {
    let head = b"GARBAGE\r\nContent-Length: 100\r\n\r\n";
    assert_eq!(request_length(head), Some(head.len()));
}

#[test]
fn read_budget_stops_at_the_request_or_the_cap() {
    assert_eq!(read_budget(b""), MAX_REQUEST_BYTES);
    assert_eq!(read_budget(b"GET / HT"), MAX_REQUEST_BYTES - 8);
    assert_eq!(read_budget(b"GET / HTTP/1.1\r\n\r\n"), 0);
    let head = b"POST /api/task HTTP/1.1\r\nContent-Length: 5\r\n\r\nab";
    assert_eq!(read_budget(head), 3);
    let big = b"POST /api/task HTTP/1.1\r\nContent-Length: 99999999\r\n\r\n";
    assert_eq!(read_budget(big), MAX_REQUEST_BYTES - big.len());
    assert_eq!(read_budget(&vec![b'a'; MAX_REQUEST_BYTES]), 0);
}
