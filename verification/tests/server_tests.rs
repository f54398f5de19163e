use lib::http::{HttpHandlerStore, HttpHeader, HttpMethod, HttpRequestLine, HttpResponse};
use lib::reader::{check_body_length, finish_line, IoFailure, ReadError, MAX_CONTENT_LENGTH};
use lib::server::{
    add_header_line, check_headers, content_length_for_body, get_headers, get_request_line,
    handle, handle_with_body, handle_without_body, step, ConnectionAction, ConnectionEvent,
    ConnectionState, HeaderError, IterationResult, DEFAULT_PORT,
};

fn text(r: HttpResponse) -> String {
    String::from_utf8(r.into_bytes()).unwrap()
}

fn error_text(status: &str, message: &str) -> String {
    let body = format!("{{\r\n\t\"error\": \"{}\"\r\n}}\r\n", message);
    format!(
        "HTTP/1.1 {}\r\nContent-Type: application/json\r\nContent-Length: {}\r\n\r\n{}",
        status,
        body.len(),
        body
    )
}

fn eof() -> ReadError {
    ReadError::IoError(IoFailure { unexpected_eof: true, message: "Unexpected EOF.".to_string() })
}

fn line(s: &str) -> HttpRequestLine {
    HttpRequestLine::parse(s.to_string()).ok().unwrap()
}

fn hs(pairs: &[(&str, &str)]) -> Vec<HttpHeader> {
    pairs.iter().map(|(n, v)| HttpHeader::new(n, v)).collect()
}

fn store() -> HttpHandlerStore<u32> {
    let mut s = HttpHandlerStore::new();
    s.register("/", HttpMethod::GET, 1).unwrap();
    s.register("/items", HttpMethod::POST, 2).unwrap();
    s
}

#[test]
fn reader_rules() {
    assert_eq!(finish_line("GET / HTTP/1.1\r\n".to_string(), 16, ReadError::UriTooLong).ok().unwrap(), "GET / HTTP/1.1\r\n");
    match finish_line(String::new(), 0, ReadError::UriTooLong) {
        Err(ReadError::IoError(f)) => {
            assert!(f.unexpected_eof);
            assert_eq!(f.message, "Unexpected EOF.");
        }
        _ => panic!("expected an early end"),
    }
    assert!(matches!(finish_line("abc".to_string(), 3, ReadError::HeaderTooLong), Err(ReadError::HeaderTooLong)));
    assert!(matches!(finish_line("abc\n".to_string(), 4, ReadError::UriTooLong), Err(ReadError::UriTooLong)));
    assert!(check_body_length(MAX_CONTENT_LENGTH).is_ok());
    assert!(check_body_length(0).is_ok());
    assert!(matches!(check_body_length(MAX_CONTENT_LENGTH + 1), Err(ReadError::PayloadTooLarge)));
    assert_eq!(MAX_CONTENT_LENGTH, 1048576);
}

#[test]
fn read_error_messages() {
    assert_eq!(ReadError::PayloadTooLarge.message(), "Payload too large");
    assert_eq!(ReadError::UriTooLong.message(), "URI length CANNOT exceed 8192");
    assert_eq!(ReadError::HeaderTooLong.message(), "Header length CANNOT exceed 8192");
    assert_eq!(eof().message(), "Unexpected EOF.");
    assert!(eof().is_unexpected_eof());
    assert!(!ReadError::UriTooLong.is_unexpected_eof());
}

#[test]
fn request_line_decisions() {
    match get_request_line(Ok("GET / HTTP/1.1\r\n".to_string())) {
        IterationResult::Value(l) => assert_eq!(l.target(), "/"),
        _ => panic!("expected a value"),
    }
    match get_request_line(Ok("GET / HTTP/1.0\r\n".to_string())) {
        IterationResult::Continue(r) => {
            assert_eq!(text(r), error_text("400 Bad Request", "Only HTTP/1.1 version is supported."))
        }
        _ => panic!("expected an answer"),
    }
    match get_request_line(Err(ReadError::UriTooLong)) {
        IterationResult::Continue(r) => {
            assert_eq!(text(r), error_text("414 URI Too Long", "URI length CANNOT exceed 8192"))
        }
        _ => panic!("expected an answer"),
    }
    assert!(matches!(get_request_line(Err(eof())), IterationResult::Break(None)));
    let other = ReadError::IoError(IoFailure { unexpected_eof: false, message: "reset".to_string() });
    match get_request_line(Err(other)) {
        IterationResult::Break(Some(r)) => {
            assert_eq!(text(r), error_text("400 Bad Request", "Failed to read the request line"))
        }
        _ => panic!("expected a closing answer"),
    }
}

#[test]
fn header_lines() {
    let mut headers = Vec::new();
    assert_eq!(add_header_line("Host: localhost\r\n".to_string(), &mut headers).ok(), Some(false));
    assert_eq!(add_header_line("A: b\r\n".to_string(), &mut headers).ok(), Some(false));
    assert_eq!(add_header_line("\r\n".to_string(), &mut headers).ok(), Some(true));
    assert_eq!(headers.len(), 2);
    assert_eq!(headers[1].name, "A");
    let e = add_header_line("broken\r\n".to_string(), &mut headers).unwrap_err();
    assert_eq!(
        e.message(),
        "Header must contain name and value separate by a colon. Obsolete line folding is not allowed"
    );
    assert_eq!(headers.len(), 2);
}

#[test]
fn header_decisions() {
    match get_headers(Ok(hs(&[("A", "b")]))) {
        IterationResult::Value(h) => assert_eq!(h[0].value, "b"),
        _ => panic!("expected a value"),
    }
    assert!(matches!(get_headers(Err(HeaderError::Read(eof()))), IterationResult::Break(None)));
    match get_headers(Err(HeaderError::Read(ReadError::HeaderTooLong))) {
        IterationResult::Continue(r) => assert_eq!(
            text(r),
            error_text("431 Request Header Fields Too Large", "Header length CANNOT exceed 8192")
        ),
        _ => panic!("expected an answer"),
    }
    let parse_error = HttpHeader::parse("x".to_string()).unwrap_err();
    match get_headers(Err(HeaderError::Parse(parse_error))) {
        IterationResult::Break(Some(r)) => {
            assert_eq!(text(r), error_text("400 Bad Request", "Failed to read request headers"))
        }
        _ => panic!("expected a closing answer"),
    }
}

#[test]
fn header_checks() {
    assert!(check_headers(&hs(&[("Host", "localhost:3017")]), DEFAULT_PORT).is_none());
    assert_eq!(
        text(check_headers(&hs(&[]), 80).unwrap()),
        error_text("400 Bad Request", "Host header is required")
    );
    assert_eq!(
        text(check_headers(&hs(&[("Host", "localhost"), ("Connection", "close")]), 80).unwrap()),
        error_text("400 Bad Request", "Connection is NOT supported")
    );
    // the content type is checked only for requests with a body
    assert!(check_headers(&hs(&[("Host", "localhost"), ("Content-Type", "text")]), 80).is_none());
}

#[test]
fn dispatch_through_store() {
    let s = store();
    match handle(line("GET /?a=b HTTP/1.1\r\n"), hs(&[("Host", "localhost")]), &s, None) {
        ConnectionAction::Call(h, p) => {
            assert_eq!(*h, 1);
            assert_eq!(p.query_string, Some("a=b".to_string()));
            assert_eq!(p.headers.unwrap()[0].name, "Host");
            assert_eq!(p.body, None);
        }
        _ => panic!("expected a call"),
    }
    match handle(line("DELETE /items HTTP/1.1\r\n"), Vec::new(), &s, None) {
        ConnectionAction::Respond(r) => assert_eq!(
            text(r),
            "HTTP/1.1 405 Method Not Allowed\r\nAllow: POST\r\nContent-Length: 0\r\n\r\n"
        ),
        _ => panic!("expected an answer"),
    }
    match handle(line("GET /none HTTP/1.1\r\n"), Vec::new(), &s, None) {
        ConnectionAction::Respond(r) => assert_eq!(text(r), "HTTP/1.1 404 Not Found\r\nContent-Length: 0\r\n\r\n"),
        _ => panic!("expected an answer"),
    }
}

#[test]
fn requests_without_body() {
    let s = store();
    assert!(matches!(
        handle_without_body(line("GET / HTTP/1.1\r\n"), hs(&[("Host", "localhost")]), &s),
        ConnectionAction::Call(_, _)
    ));
    match handle_without_body(line("GET / HTTP/1.1\r\n"), hs(&[("Content-Length", "0")]), &s) {
        ConnectionAction::Respond(r) => assert_eq!(
            text(r),
            error_text("400 Bad Request", "'Content-Length' is NOT allowed for this HTTP method")
        ),
        _ => panic!("expected an answer"),
    }
    match handle_without_body(
        line("GET / HTTP/1.1\r\n"),
        hs(&[("Content-Length", "0"), ("content-length", "0")]),
        &s,
    ) {
        ConnectionAction::Respond(r) => assert_eq!(
            text(r),
            error_text("400 Bad Request", "'Content-Length' is NOT allowed for this HTTP method")
        ),
        _ => panic!("expected an answer"),
    }
}

#[test]
fn body_length() {
    assert_eq!(content_length_for_body(&hs(&[("Content-Length", "42")])).ok(), Some(42));
    assert_eq!(content_length_for_body(&hs(&[("content-length", "+7")])).ok(), Some(7));
    match content_length_for_body(&hs(&[])) {
        Err(r) => assert_eq!(text(r), "HTTP/1.1 411 Length Required\r\nContent-Length: 0\r\n\r\n"),
        Ok(_) => panic!("expected an answer"),
    }
    // the first Content-Length header counts
    assert_eq!(content_length_for_body(&hs(&[("Content-Length", "3"), ("content-length", "x")])).ok(), Some(3));
    match content_length_for_body(&hs(&[("Content-Length", "4x")])) {
        Err(r) => assert_eq!(text(r), error_text("400 Bad Request", "'Content-Length' value MUST be numeric")),
        Ok(_) => panic!("expected an answer"),
    }
    match content_length_for_body(&hs(&[("Content-Length", "99999999999999999999999")])) {
        Err(r) => assert_eq!(text(r), error_text("400 Bad Request", "'Content-Length' value MUST be numeric")),
        Ok(_) => panic!("expected an answer"),
    }
}

#[test]
fn requests_with_body() {
    let s = store();
    let json = hs(&[("Content-Type", "application/json")]);
    match handle_with_body(line("POST /items HTTP/1.1\r\n"), json, Ok(b"{}".to_vec()), &s) {
        ConnectionAction::Call(h, p) => {
            assert_eq!(*h, 2);
            assert_eq!(p.body, Some(b"{}".to_vec()));
        }
        _ => panic!("expected a call"),
    }
    match handle_with_body(line("POST /items HTTP/1.1\r\n"), Vec::new(), Ok(Vec::new()), &s) {
        ConnectionAction::Respond(r) => assert_eq!(text(r), error_text("400 Bad Request", "'Content-Type' is required")),
        _ => panic!("expected an answer"),
    }
    match handle_with_body(
        line("POST /items HTTP/1.1\r\n"),
        hs(&[("Content-Type", "text/html")]),
        Ok(Vec::new()),
        &s,
    ) {
        ConnectionAction::Respond(r) => assert_eq!(
            text(r),
            error_text("400 Bad Request", "Only 'application/json' is supported for 'Content-Type'")
        ),
        _ => panic!("expected an answer"),
    }
    match handle_with_body(line("POST /items HTTP/1.1\r\n"), Vec::new(), Err(ReadError::PayloadTooLarge), &s) {
        ConnectionAction::Respond(r) => assert_eq!(text(r), error_text("413 Payload Too Large", "Payload too large")),
        _ => panic!("expected an answer"),
    }
    match handle_with_body(line("POST /items HTTP/1.1\r\n"), Vec::new(), Err(eof()), &s) {
        ConnectionAction::Respond(r) => assert_eq!(text(r), error_text("400 Bad Request", "Failed to read request body")),
        _ => panic!("expected an answer"),
    }
    match handle_with_body(line("PUT /items HTTP/1.1\r\n"), hs(&[("content-type", "x")]), Ok(Vec::new()), &s) {
        ConnectionAction::Respond(r) => assert_eq!(
            text(r),
            "HTTP/1.1 405 Method Not Allowed\r\nAllow: POST\r\nContent-Length: 0\r\n\r\n"
        ),
        _ => panic!("expected an answer"),
    }
}

fn run_steps(
    store: &HttpHandlerStore<u32>,
    port: u16,
    events: Vec<ConnectionEvent>,
) -> Vec<String> {
    // drives the state machine with the given events and records each action
    let mut state = ConnectionState::AwaitingRequestLine;
    let mut log = Vec::new();
    for event in events {
        let (s, a) = step(state, event, store, port);
        state = s;
        log.push(match a {
            ConnectionAction::ReadRequestLine => "read line".to_string(),
            ConnectionAction::ReadHeaderLine => "read header".to_string(),
            ConnectionAction::ReadBody(n) => format!("read body {}", n),
            ConnectionAction::Respond(r) => format!("respond {}", text(r)),
            ConnectionAction::Call(h, p) => format!("call {} {:?}", h, p.body),
            ConnectionAction::Close(r) => format!("close {:?}", r.map(text)),
        });
    }
    log
}

fn l(s: &str) -> ConnectionEvent {
    ConnectionEvent::Line(Ok(s.to_string()))
}

#[test]
fn connection_get_then_post() {
    let s = store();
    let log = run_steps(
        &s,
        80,
        vec![
            l("GET / HTTP/1.1\r\n"),
            l("Host: localhost\r\n"),
            l("\r\n"),
            ConnectionEvent::Written,
            l("POST /items HTTP/1.1\r\n"),
            l("Host: localhost\r\n"),
            l("Content-Type: application/json\r\n"),
            l("Content-Length: 2\r\n"),
            l("\r\n"),
            ConnectionEvent::Body(Ok(b"{}".to_vec())),
            ConnectionEvent::Written,
            ConnectionEvent::Line(Err(eof())),
        ],
    );
    assert_eq!(
        log,
        vec![
            "read header",
            "read header",
            "call 1 None",
            "read line",
            "read header",
            "read header",
            "read header",
            "read header",
            "read body 2",
            "call 2 Some([123, 125])",
            "read line",
            "close None",
        ]
    );
}

#[test]
fn connection_host_failure_answers_and_goes_on() {
    let s = store();
    let log = run_steps(
        &s,
        80,
        vec![
            l("POST /items HTTP/1.1\r\n"),
            l("Host: example.com\r\n"),
            l("Content-Length: 2\r\n"),
            l("\r\n"),
            ConnectionEvent::Written,
        ],
    );
    assert_eq!(log[3], format!("respond {}", error_text("400 Bad Request", "Host MUST be either localhost or 127.0.0.1")));
    assert_eq!(log[4], "read line");
}

#[test]
fn connection_errors() {
    let s = store();
    // a header that does not parse closes the connection
    let log = run_steps(&s, 80, vec![l("GET / HTTP/1.1\r\n"), l("broken\r\n")]);
    assert_eq!(
        log[1],
        format!("close {:?}", Some(error_text("400 Bad Request", "Failed to read request headers")))
    );
    // a body over the limit is answered without being read
    let log = run_steps(
        &s,
        80,
        vec![
            l("POST /items HTTP/1.1\r\n"),
            l("Host: localhost\r\n"),
            l("Content-Length: 1048577\r\n"),
            l("\r\n"),
        ],
    );
    assert_eq!(log[3], format!("respond {}", error_text("413 Payload Too Large", "Payload too large")));
    // a body request without Content-Length
    let log = run_steps(&s, 80, vec![l("PUT / HTTP/1.1\r\n"), l("Host: localhost\r\n"), l("\r\n")]);
    assert_eq!(log[2], "respond HTTP/1.1 411 Length Required\r\nContent-Length: 0\r\n\r\n");
    // an event the state does not expect closes the connection
    let log = run_steps(&s, 80, vec![ConnectionEvent::Written, l("GET / HTTP/1.1\r\n")]);
    assert_eq!(log, vec!["close None", "close None"]);
    // a line too long is answered and the next line is read after the write
    let log = run_steps(&s, 80, vec![ConnectionEvent::Line(Err(ReadError::UriTooLong)), ConnectionEvent::Written]);
    assert_eq!(log[0], format!("respond {}", error_text("414 URI Too Long", "URI length CANNOT exceed 8192")));
    assert_eq!(log[1], "read line");
    // a header line too long is answered with 431
    let log = run_steps(&s, 80, vec![l("GET / HTTP/1.1\r\n"), ConnectionEvent::Line(Err(ReadError::HeaderTooLong))]);
    assert_eq!(
        log[1],
        format!("respond {}", error_text("431 Request Header Fields Too Large", "Header length CANNOT exceed 8192"))
    );
}
