use lib::http::{HttpHandler, HttpHandlerStore, HttpMethod, HttpRequestLine, HttpResponse, RequestPayload};

type Handler = Box<dyn Fn(RequestPayload) -> HttpResponse>;

fn line(s: &str) -> HttpRequestLine {
    HttpRequestLine::parse(s.to_string()).ok().unwrap()
}

#[test]
fn register_then_get() {
    let mut store: HttpHandlerStore<u32> = HttpHandlerStore::new();
    assert!(store.register("/", HttpMethod::GET, 1).is_ok());
    assert!(store.register("/", HttpMethod::POST, 2).is_ok());
    assert!(store.register("/items", HttpMethod::DELETE, 3).is_ok());
    match store.get(&line("GET / HTTP/1.1\r\n")) {
        HttpHandler::Found(h) => assert_eq!(*h, 1),
        _ => panic!("expected a handler"),
    }
    match store.get(&line("POST /?x=1 HTTP/1.1\r\n")) {
        HttpHandler::Found(h) => assert_eq!(*h, 2),
        _ => panic!("expected a handler"),
    }
    match store.get(&line("DELETE /items HTTP/1.1\r\n")) {
        HttpHandler::Found(h) => assert_eq!(*h, 3),
        _ => panic!("expected a handler"),
    }
}

#[test]
fn method_not_allowed_and_not_found() {
    let mut store: HttpHandlerStore<u32> = HttpHandlerStore::new();
    store.register("/a", HttpMethod::PUT, 1).unwrap();
    store.register("/b", HttpMethod::GET, 2).unwrap();
    store.register("/a", HttpMethod::GET, 3).unwrap();
    match store.get(&line("POST /a HTTP/1.1\r\n")) {
        HttpHandler::MethodNotAllowed(ms) => assert_eq!(ms, vec![HttpMethod::PUT, HttpMethod::GET]),
        _ => panic!("expected method not allowed"),
    }
    match store.get(&line("GET /c HTTP/1.1\r\n")) {
        HttpHandler::NotFound => {}
        _ => panic!("expected not found"),
    }
    // paths are compared exactly
    match store.get(&line("GET /A HTTP/1.1\r\n")) {
        HttpHandler::NotFound => {}
        _ => panic!("expected not found"),
    }
}

#[test]
fn registration_errors() {
    let mut store: HttpHandlerStore<u32> = HttpHandlerStore::new();
    assert_eq!(
        store.register("items", HttpMethod::GET, 1).unwrap_err().message(),
        "The path must start with '/'"
    );
    assert_eq!(
        store.register("", HttpMethod::GET, 1).unwrap_err().message(),
        "The path must start with '/'"
    );
    store.register("/items", HttpMethod::GET, 1).unwrap();
    assert_eq!(
        store.register("/items", HttpMethod::GET, 2).unwrap_err().message(),
        "There is already a handler for this path"
    );
    // the refused registration left the first handler in place
    match store.get(&line("GET /items HTTP/1.1\r\n")) {
        HttpHandler::Found(h) => assert_eq!(*h, 1),
        _ => panic!("expected a handler"),
    }
    assert!(store.register("/items", HttpMethod::POST, 3).is_ok());
}

#[test]
fn closures_as_handlers() {
    let mut store: HttpHandlerStore<Handler> = HttpHandlerStore::new();
    store
        .register(
            "/",
            HttpMethod::GET,
            Box::new(|p: RequestPayload| HttpResponse::ok(p.headers, Some(b"{}".to_vec()))),
        )
        .unwrap();
    match store.get(&line("GET / HTTP/1.1\r\n")) {
        HttpHandler::Found(h) => {
            let r = h(RequestPayload::new(None, None, None));
            assert_eq!(
                r.into_bytes(),
                b"HTTP/1.1 200 OK\r\nContent-Type: application/json\r\nContent-Length: 2\r\n\r\n{}".to_vec()
            );
        }
        _ => panic!("expected a handler"),
    }
}
