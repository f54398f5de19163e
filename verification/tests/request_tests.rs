use lib::http::{HttpHeader, HttpMethod, HttpRequestLine};

fn parse_line(s: &str) -> Result<HttpRequestLine, String> {
    HttpRequestLine::parse(s.to_string()).map_err(|e| e.message())
}

fn parse_error(s: &str) -> String {
    match parse_line(s) {
        Ok(_) => panic!("expected an error for {:?}", s),
        Err(m) => m,
    }
}

#[test]
fn request_line_with_query() {
    let line = parse_line("GET /users?id=7&x=1 HTTP/1.1\r\n").unwrap();
    assert_eq!(line.method(), HttpMethod::GET);
    assert_eq!(line.target(), "/users");
    assert_eq!(line.query_string, Some("id=7&x=1".to_string()));
    assert!(!line.requires_body());
}

#[test]
fn request_line_without_query() {
    let line = parse_line("POST /items HTTP/1.1\r\n").unwrap();
    assert_eq!(line.method(), HttpMethod::POST);
    assert_eq!(line.target(), "/items");
    assert_eq!(line.query_string, None);
    assert!(line.requires_body());
}

#[test]
fn request_line_query_splits_at_first_question_mark() {
    let line = parse_line("DELETE /a?b?c HTTP/1.1\r\n").unwrap();
    assert_eq!(line.target(), "/a");
    assert_eq!(line.query_string, Some("b?c".to_string()));
    let line = parse_line("HEAD /? HTTP/1.1\r\n").unwrap();
    assert_eq!(line.target(), "/");
    assert_eq!(line.query_string, Some(String::new()));
}

#[test]
fn request_line_trailing_crlfs_are_all_removed() {
    let line = parse_line("PUT / HTTP/1.1\r\n\r\n").unwrap();
    assert_eq!(line.method(), HttpMethod::PUT);
    assert!(line.requires_body());
    assert!(parse_line("PATCH / HTTP/1.1\r\n").unwrap().requires_body());
}

#[test]
fn request_line_errors() {
    assert_eq!(parse_error("GET / HTTP/1.1"), "Request line does NOT end with CRLF.");
    assert_eq!(parse_error("GET / HTTP/1.1\n"), "Request line does NOT end with CRLF.");
    assert_eq!(parse_error(" / HTTP/1.1\r\n"), "Method MUST NOT be empty");
    assert_eq!(parse_error("\r\n"), "Method MUST NOT be empty");
    assert_eq!(parse_error("GET\r\n"), "Target is required");
    assert_eq!(parse_error("GET  HTTP/1.1\r\n"), "Target MUST NOT be empty");
    assert_eq!(parse_error("GET /\r\n"), "Version is required");
    assert_eq!(parse_error("GET / \r\n"), "Version MUST NOT be empty");
    assert_eq!(parse_error("GET index HTTP/1.1\r\n"), "Request target MUST start with a '/'");
    assert_eq!(parse_error("GET / HTTP/1.1 extra\r\n"), "Request line MUST consist of 3 parts.");
    assert_eq!(parse_error("get / HTTP/1.1\r\n"), "Invalid HTTP method");
    assert_eq!(parse_error("OPTIONS / HTTP/1.1\r\n"), "Invalid HTTP method");
    assert_eq!(parse_error("GET / HTTP/1.0\r\n"), "Only HTTP/1.1 version is supported.");
}

#[test]
fn request_line_error_order() {
    // the part count is checked before the method, the method before the version
    assert_eq!(parse_error("FOO / HTTP/2 x\r\n"), "Request line MUST consist of 3 parts.");
    assert_eq!(parse_error("FOO / HTTP/2\r\n"), "Invalid HTTP method");
    assert_eq!(parse_error("FOO x HTTP/2\r\n"), "Request target MUST start with a '/'");
}

#[test]
fn method_names() {
    let all = [
        HttpMethod::GET,
        HttpMethod::POST,
        HttpMethod::PUT,
        HttpMethod::PATCH,
        HttpMethod::DELETE,
        HttpMethod::HEAD,
    ];
    let names = ["GET", "POST", "PUT", "PATCH", "DELETE", "HEAD"];
    for (m, n) in all.iter().zip(names.iter()) {
        assert_eq!(m.as_str(), *n);
        assert_eq!(HttpMethod::parse(m.as_str()).unwrap(), *m);
    }
    assert_eq!(HttpMethod::parse("Get").unwrap_err().message(), "Invalid HTTP method");
    assert!(HttpMethod::parse("").is_err());
}

fn parse_header(s: &str) -> Result<(String, String), String> {
    HttpHeader::parse(s.to_string())
        .map(|h| (h.name, h.value))
        .map_err(|e| e.message())
}

#[test]
fn header_parsing() {
    assert_eq!(
        parse_header("Host: localhost:3017\r\n").unwrap(),
        ("Host".to_string(), "localhost:3017".to_string())
    );
    assert_eq!(
        parse_header("X-Empty-Name:\t value with spaces \t\r\n").unwrap(),
        ("X-Empty-Name".to_string(), "value with spaces".to_string())
    );
    assert_eq!(parse_header(":v").unwrap(), (String::new(), "v".to_string()));
    assert_eq!(parse_header("A:b:c").unwrap(), ("A".to_string(), "b:c".to_string()));
    assert_eq!(parse_header(" A:b").unwrap(), (" A".to_string(), "b".to_string()));
}

#[test]
fn header_errors() {
    assert_eq!(
        parse_header("no colon here\r\n").unwrap_err(),
        "Header must contain name and value separate by a colon. Obsolete line folding is not allowed"
    );
    assert_eq!(
        parse_header("Name : value\r\n").unwrap_err(),
        "Header name cannot contain trailing spaces"
    );
    assert_eq!(parse_header("Name: \t \r\n").unwrap_err(), "Header value cannot be empty");
    assert_eq!(parse_header("Name:\r\n").unwrap_err(), "Header value cannot be empty");
}

#[test]
fn header_value_length_is_counted_in_bytes() {
    let ok = format!("Name: {}\r\n", "a".repeat(8192));
    assert_eq!(parse_header(&ok).unwrap().1.len(), 8192);
    let long = format!("Name: {}\r\n", "a".repeat(8193));
    assert_eq!(
        parse_header(&long).unwrap_err(),
        "Header value cannot be longer than 8192"
    );
    // 4097 two-byte characters are 8194 bytes
    let wide = format!("Name: {}\r\n", "é".repeat(4097));
    assert_eq!(
        parse_header(&wide).unwrap_err(),
        "Header value cannot be longer than 8192"
    );
    let wide_ok = format!("Name: {}\r\n", "é".repeat(4096));
    assert!(parse_header(&wide_ok).is_ok());
}

#[test]
fn header_round_trip() {
    let h = HttpHeader::new("X-Trace", "abc def");
    let bytes = h.into_bytes();
    assert_eq!(bytes, b"X-Trace: abc def\r\n".to_vec());
    let text = String::from_utf8(bytes).unwrap();
    assert_eq!(
        parse_header(&text).unwrap(),
        ("X-Trace".to_string(), "abc def".to_string())
    );
}

#[test]
fn request_line_round_trip() {
    for (m, path, query) in [
        (HttpMethod::GET, "/", None),
        (HttpMethod::PATCH, "/a/b", Some("k=v")),
        (HttpMethod::HEAD, "/x", Some("")),
    ] {
        let text = match query {
            Some(q) => format!("{} {}?{} HTTP/1.1\r\n", m.as_str(), path, q),
            None => format!("{} {} HTTP/1.1\r\n", m.as_str(), path),
        };
        let line = parse_line(&text).unwrap();
        assert_eq!(line.method(), m);
        assert_eq!(line.target(), path);
        assert_eq!(line.query_string, query.map(|q| q.to_string()));
    }
}
