use lib::http::{HttpBody, HttpHeader, HttpMethod, HttpResponse, HttpStatusCode, RequestPayload};

fn text(r: HttpResponse) -> String {
    String::from_utf8(r.into_bytes()).unwrap()
}

#[test]
fn status_codes_and_lines() {
    let all = [
        (HttpStatusCode::OK, 200, "OK"),
        (HttpStatusCode::Created, 201, "Created"),
        (HttpStatusCode::NoContent, 204, "No Content"),
        (HttpStatusCode::BadRequest, 400, "Bad Request"),
        (HttpStatusCode::NotFound, 404, "Not Found"),
        (HttpStatusCode::MethodNotAllowed, 405, "Method Not Allowed"),
        (HttpStatusCode::LengthRequired, 411, "Length Required"),
        (HttpStatusCode::PayloadTooLarge, 413, "Payload Too Large"),
        (HttpStatusCode::UriTooLong, 414, "URI Too Long"),
        (HttpStatusCode::RequestHeaderFieldsTooLarge, 431, "Request Header Fields Too Large"),
    ];
    for (s, code, reason) in all {
        assert_eq!(s.code(), code);
        assert_eq!(s.text(), reason);
        assert_eq!(
            s.to_response_line(),
            format!("HTTP/1.1 {} {}\r\n", code, reason).into_bytes()
        );
    }
}

#[test]
fn response_without_body() {
    assert_eq!(
        text(HttpResponse::not_found(None, None)),
        "HTTP/1.1 404 Not Found\r\nContent-Length: 0\r\n\r\n"
    );
    assert_eq!(
        text(HttpResponse::length_required()),
        "HTTP/1.1 411 Length Required\r\nContent-Length: 0\r\n\r\n"
    );
    assert_eq!(
        text(HttpResponse::no_content(Some(vec![HttpHeader::new("X-A", "1")]))),
        "HTTP/1.1 204 No Content\r\nX-A: 1\r\nContent-Length: 0\r\n\r\n"
    );
}

#[test]
fn response_with_body() {
    let body = b"{\"k\": 1}".to_vec();
    assert_eq!(
        text(HttpResponse::ok(
            Some(vec![HttpHeader::new("X-A", "1"), HttpHeader::new("X-B", "two")]),
            Some(body.clone())
        )),
        "HTTP/1.1 200 OK\r\nX-A: 1\r\nX-B: two\r\nContent-Type: application/json\r\nContent-Length: 8\r\n\r\n{\"k\": 1}"
    );
    assert_eq!(
        text(HttpResponse::created(None, Some(Vec::new()))),
        "HTTP/1.1 201 Created\r\nContent-Type: application/json\r\nContent-Length: 0\r\n\r\n"
    );
    assert_eq!(
        text(HttpResponse::bad_request(Some(Vec::new()), Some(b"x".to_vec()))),
        "HTTP/1.1 400 Bad Request\r\nContent-Type: application/json\r\nContent-Length: 1\r\n\r\nx"
    );
}

#[test]
fn response_body_bytes_are_kept_as_they_are() {
    let body: Vec<u8> = vec![0, 255, 13, 10];
    let bytes = HttpResponse::ok(None, Some(body.clone())).into_bytes();
    let head = b"HTTP/1.1 200 OK\r\nContent-Type: application/json\r\nContent-Length: 4\r\n\r\n".to_vec();
    assert_eq!(bytes[..head.len()].to_vec(), head);
    assert_eq!(bytes[head.len()..].to_vec(), body);
}

#[test]
fn long_body_content_length() {
    let body = vec![b'a'; 12345];
    let t = text(HttpResponse::ok(None, Some(body)));
    assert!(t.starts_with("HTTP/1.1 200 OK\r\nContent-Type: application/json\r\nContent-Length: 12345\r\n\r\naaa"));
}

#[test]
fn error_responses() {
    let expected_body = "{\r\n\t\"error\": \"boom\"\r\n}\r\n";
    assert_eq!(
        text(HttpResponse::bad_request_err("boom")),
        format!(
            "HTTP/1.1 400 Bad Request\r\nContent-Type: application/json\r\nContent-Length: {}\r\n\r\n{}",
            expected_body.len(),
            expected_body
        )
    );
    assert!(text(HttpResponse::payload_too_large_err("boom")).starts_with("HTTP/1.1 413 Payload Too Large\r\n"));
    assert!(text(HttpResponse::uri_too_long_err("boom")).starts_with("HTTP/1.1 414 URI Too Long\r\n"));
    assert!(text(HttpResponse::header_too_long_err("boom"))
        .starts_with("HTTP/1.1 431 Request Header Fields Too Large\r\n"));
    assert!(text(HttpResponse::header_too_long_err("boom")).ends_with(expected_body));
}

#[test]
fn method_not_allowed_lists_methods() {
    assert_eq!(
        text(HttpResponse::method_not_allowed(vec![HttpMethod::GET, HttpMethod::POST, HttpMethod::DELETE])),
        "HTTP/1.1 405 Method Not Allowed\r\nAllow: GET, POST, DELETE\r\nContent-Length: 0\r\n\r\n"
    );
    assert_eq!(
        text(HttpResponse::method_not_allowed(vec![HttpMethod::HEAD])),
        "HTTP/1.1 405 Method Not Allowed\r\nAllow: HEAD\r\nContent-Length: 0\r\n\r\n"
    );
}

#[test]
fn body_and_payload() {
    let b = HttpBody::new(vec![1, 2, 3]);
    assert_eq!(b.value(), vec![1, 2, 3]);
    let p = RequestPayload::new(Some(vec![HttpHeader::new("A", "b")]), Some(vec![7]), Some("q=1".to_string()));
    assert_eq!(p.headers.as_ref().unwrap()[0].name, "A");
    assert_eq!(p.body, Some(vec![7]));
    assert_eq!(p.query_string, Some("q=1".to_string()));
}
