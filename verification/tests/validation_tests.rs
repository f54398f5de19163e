use lib::http::validation::{
    validate_content_length, validate_content_type, validate_content_type_header,
    validate_host_header, validate_unsupported_headers,
};
use lib::http::{validate_headers, HttpHeader};

fn hs(pairs: &[(&str, &str)]) -> Vec<HttpHeader> {
    pairs.iter().map(|(n, v)| HttpHeader::new(n, v)).collect()
}

fn host_err(headers: &[(&str, &str)], port: u16) -> String {
    validate_host_header(&hs(headers), port).unwrap_err().message()
}

#[test]
fn host_accepted() {
    assert!(validate_host_header(&hs(&[("Host", "localhost:3017")]), 3017).is_ok());
    assert!(validate_host_header(&hs(&[("host", "127.0.0.1:8080")]), 8080).is_ok());
    assert!(validate_host_header(&hs(&[("HOST", "localhost")]), 80).is_ok());
    assert!(validate_host_header(&hs(&[("Host", "localhost:+80")]), 80).is_ok());
    assert!(validate_host_header(&hs(&[("Host", "localhost:0080")]), 80).is_ok());
    // only the start of the value is checked
    assert!(validate_host_header(&hs(&[("Host", "localhost.example:1")]), 1).is_ok());
}

#[test]
fn host_rejected() {
    assert_eq!(host_err(&[], 80), "Host header is required");
    assert_eq!(host_err(&[("Accept", "x")], 80), "Host header is required");
    assert_eq!(
        host_err(&[("Host", "localhost"), ("host", "localhost")], 80),
        "Only one 'Host' header is allowed"
    );
    assert_eq!(
        host_err(&[("Host", "example.com")], 80),
        "Host MUST be either localhost or 127.0.0.1"
    );
    assert_eq!(host_err(&[("Host", "localhost")], 3017), "Incorrect port");
    assert_eq!(host_err(&[("Host", "localhost:81")], 80), "Incorrect port");
    assert_eq!(host_err(&[("Host", "localhost:abc")], 80), "");
    assert_eq!(host_err(&[("Host", "localhost:70000")], 80), "");
    assert_eq!(host_err(&[("Host", "localhost:")], 80), "");
    assert_eq!(host_err(&[("Host", "localhost:+")], 80), "");
    assert_eq!(host_err(&[("Host", "localhost:-1")], 80), "");
}

#[test]
fn unsupported_headers() {
    assert!(validate_unsupported_headers(&hs(&[("Host", "x"), ("transfer-encoding", "chunked")])).is_ok());
    assert_eq!(
        validate_unsupported_headers(&hs(&[("Upgrade", "h2"), ("Connection", "close")]))
            .unwrap_err()
            .message(),
        "Upgrade is NOT supported"
    );
    assert_eq!(
        validate_unsupported_headers(&hs(&[("Transfer-Encoding", "chunked")])).unwrap_err().message(),
        "Transfer-Encoding is NOT supported"
    );
}

#[test]
fn content_type() {
    assert!(validate_content_type_header(&hs(&[])).is_ok());
    assert!(validate_content_type_header(&hs(&[("Content-Type", "application/json")])).is_ok());
    // only the exact spelling of the name is checked
    assert!(validate_content_type_header(&hs(&[("content-type", "text/plain")])).is_ok());
    assert_eq!(
        validate_content_type_header(&hs(&[("Content-Type", "text/plain")])).unwrap_err().message(),
        "Only 'application/json' is supported for 'Content-Type'"
    );
    // only the first content-type header counts
    assert!(validate_content_type_header(&hs(&[
        ("content-TYPE", "x"),
        ("Content-Type", "text/plain")
    ]))
    .is_ok());
    let h = hs(&[("A", "b"), ("Content-Type", "application/json")]);
    assert_eq!(validate_content_type(&h).unwrap().unwrap().value, "application/json");
    assert!(validate_content_type(&hs(&[("A", "b")])).unwrap().is_none());
}

#[test]
fn content_length() {
    let h = hs(&[("content-length", "12")]);
    assert_eq!(validate_content_length(&h).unwrap().value, "12");
    assert!(validate_content_length(&hs(&[("Host", "x")])).is_none());
    // the first one counts
    let two = hs(&[("Content-Length", "1"), ("CONTENT-LENGTH", "2")]);
    assert_eq!(validate_content_length(&two).unwrap().value, "1");
}

#[test]
fn all_rules_in_order() {
    assert!(validate_headers(&hs(&[("Host", "localhost:3017"), ("Content-Type", "application/json")]), 3017).is_ok());
    // the host rule comes first
    assert_eq!(
        validate_headers(&hs(&[("Upgrade", "x"), ("Content-Type", "text")]), 3017).unwrap_err().message(),
        "Host header is required"
    );
    assert_eq!(
        validate_headers(&hs(&[("Host", "localhost"), ("Upgrade", "x"), ("Content-Type", "text")]), 80)
            .unwrap_err()
            .message(),
        "Upgrade is NOT supported"
    );
    assert_eq!(
        validate_headers(&hs(&[("Host", "localhost"), ("Content-Type", "text")]), 80).unwrap_err().message(),
        "Only 'application/json' is supported for 'Content-Type'"
    );
}
