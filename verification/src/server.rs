//! The server's connection loop as a state machine. The loop itself reads
//! from and writes to the connection; `step` takes the state of the
//! connection and what was just read or written, and gives the next state
//! and what to do next: read a line or a body, write a response, call a
//! handler, or close. The other functions are the decisions `step` is made of.
use vstd::prelude::*;
use vstd::string::*;

use crate::http::handlers::{
    has_route, law_register_then_get, methods_for, registration_result, route_handler, routes_wf,
    HttpHandler, HttpHandlerStore,
};
use crate::http::request::{
    method_requires_body, parse_header, parse_request_line, HttpHeader, HttpRequestLine,
};
use crate::http::response::{error_body, join_methods, HttpResponse, RequestPayload, ResponseView};
use crate::http::method::HttpMethod;
use crate::http::status::HttpStatusCode;
use crate::http::validation::{
    content_length_lookup, content_type_lookup, first_where, header_views, host_rule, is_first_where,
    lemma_first_where, lemma_first_where_some, named, unsupported_header, unsupported_rule,
    validate_content_length, validate_content_type, validate_host_header,
    validate_unsupported_headers,
};
use crate::reader::{
    check_body_length, is_unexpected_eof, read_error_message, ReadError, MAX_CONTENT_LENGTH,
};
use crate::text::{chars_of, crlf, eq_ignore_ascii_case, parse_unsigned, parse_unsigned_exec, str_eq};

verus! {

/// The port `run` listens on.
pub const DEFAULT_PORT: u16 = 3017;

/// What the connection loop does after one step: go on with a value; write
/// a response and wait for the next request; or stop serving the connection,
/// after writing a response if there is one.
pub enum IterationResult<T> {
    Value(T),
    Continue(HttpResponse),
    Break(Option<HttpResponse>),
}

/// Where a connection stands: waiting for a request line; reading the
/// headers of a request; reading its body; waiting for the response to a
/// request to be written; or closed.
pub enum ConnectionState {
    AwaitingRequestLine,
    ReadingHeaders(HttpRequestLine, Vec<HttpHeader>),
    ReadingBody(HttpRequestLine, Vec<HttpHeader>),
    Responding,
    Closed,
}

/// What happened on a connection: a line was read (or failed to be), a body
/// was read (or failed to be), or the response was written.
pub enum ConnectionEvent {
    Line(Result<String, ReadError>),
    Body(Result<Vec<u8>, ReadError>),
    Written,
}

/// What the connection loop does next: read a request line, a header line
/// or a body of the given length; write a response; call a handler with the
/// payload and write what it returns; or stop serving the connection, after
/// writing a response if there is one.
pub enum ConnectionAction<'a, H> {
    ReadRequestLine,
    ReadHeaderLine,
    ReadBody(usize),
    Respond(HttpResponse),
    Call(&'a H, RequestPayload),
    Close(Option<HttpResponse>),
}

/// Why the headers of a request could not be read.
pub enum HeaderError {
    Read(ReadError),
    Parse(crate::http::HttpParseError),
}

/// A response with a status and a JSON error body carrying `message`.
pub open spec fn error_response(status: HttpStatusCode, message: Seq<char>) -> ResponseView {
    ResponseView { status, headers: None, body: Some(error_body(message)) }
}

/// A 400 response carrying `message`.
pub open spec fn bad_request_response(message: Seq<char>) -> ResponseView {
    error_response(HttpStatusCode::BadRequest, message)
}

/// The optional query string as text.
pub open spec fn opt_text(q: Option<String>) -> Option<Seq<char>> {
    match q {
        Some(s) => Some(s@),
        None => None,
    }
}

/// What answering a request through the store gives: a call of the handler
/// for its path and method, with the headers, the body and the query string;
/// a 405 response listing the methods that have a handler for its path; or a
/// 404 response.
pub open spec fn handled<H>(
    store: Seq<(Seq<char>, crate::http::HttpMethod, H)>,
    line: crate::http::request::RequestLineView,
    headers: Vec<HttpHeader>,
    body: Option<Vec<u8>>,
    d: ConnectionAction<H>,
) -> bool {
    if has_route(store, line.target, line.method) {
        d matches ConnectionAction::Call(h, p) && *h == route_handler(store, line.target, line.method)
            && p.headers == Some(headers) && p.body == body && opt_text(p.query_string)
            == line.query_string
    } else if methods_for(store, line.target).len() > 0 {
        d matches ConnectionAction::Respond(r) && r@ == (ResponseView {
            status: HttpStatusCode::MethodNotAllowed,
            headers: Some(seq![("Allow"@, join_methods(methods_for(store, line.target)))]),
            body: None,
        })
    } else {
        d matches ConnectionAction::Respond(r) && r@ == (ResponseView {
            status: HttpStatusCode::NotFound,
            headers: None,
            body: None,
        })
    }
}

/// Decides on the request line that was read: a line that parses is the
/// value; one that does not is answered with 400 and its error; a line that
/// was too long is answered with 414; an early end of the stream closes the
/// connection; any other read error is answered with 400 and closes it.
pub fn get_request_line(read: Result<String, ReadError>) -> (r: IterationResult<HttpRequestLine>)
    ensures
        match read {
            Ok(l) => match parse_request_line(l@) {
                Ok(v) => r matches IterationResult::Value(x) && x@ == v,
                Err(m) => r matches IterationResult::Continue(resp) && resp@ == bad_request_response(m),
            },
            Err(e) => if e == ReadError::UriTooLong {
                r matches IterationResult::Continue(resp) && resp@ == error_response(
                    HttpStatusCode::UriTooLong,
                    read_error_message(e),
                )
            } else if is_unexpected_eof(e) {
                r matches IterationResult::Break(None)
            } else {
                r matches IterationResult::Break(Some(resp)) && resp@ == bad_request_response(
                    "Failed to read the request line"@,
                )
            },
        },
{
    let line = match read {
        Ok(l) => l,
        Err(e) => {
            if let ReadError::UriTooLong = e {
                let m = e.message();
                return IterationResult::Continue(HttpResponse::uri_too_long_err(m.as_str()));
            }
            if e.is_unexpected_eof() {
                return IterationResult::Break(None);
            }
            return IterationResult::Break(
                Some(HttpResponse::bad_request_err("Failed to read the request line")),
            );
        },
    };
    match HttpRequestLine::parse(line) {
        Ok(l) => IterationResult::Value(l),
        Err(e) => {
            let m = e.message();
            IterationResult::Continue(HttpResponse::bad_request_err(m.as_str()))
        },
    }
}

/// Takes one header line read from the stream: the empty line ends the
/// headers; any other line is parsed and added to `headers`.
pub fn add_header_line(line: String, headers: &mut Vec<HttpHeader>) -> (r: Result<
    bool,
    crate::http::HttpParseError,
>)
    ensures
        line@ == crlf() ==> r == Ok::<bool, crate::http::HttpParseError>(true),
        line@ == crlf() ==> final(headers)@ == old(headers)@,
        line@ != crlf() ==> match parse_header(line@) {
            Ok(h) => r == Ok::<bool, crate::http::HttpParseError>(false)
                && header_views(final(headers)@) == header_views(old(headers)@).push(h),
            Err(m) => r matches Err(e) && e@ == m && final(headers)@ == old(headers)@,
        },
{
    proof {
        reveal_strlit("\r\n");
        assert("\r\n"@ =~= crlf());
    }
    if str_eq(line.as_str(), "\r\n") {
        return Ok(true);
    }
    let header = HttpHeader::parse(line)?;
    let ghost before = headers@;
    headers.push(header);
    assert(header_views(headers@) =~= header_views(before).push(
        (headers@.last().name@, headers@.last().value@),
    ));
    Ok(false)
}

/// Decides on the headers that were read: headers that were read are the
/// value; an early end of the stream closes the connection; any other read
/// error is answered with 431 and its message; a header that does not parse
/// is answered with 400 and closes the connection.
pub fn get_headers(read: Result<Vec<HttpHeader>, HeaderError>) -> (r: IterationResult<
    Vec<HttpHeader>,
>)
    ensures
        match read {
            Ok(h) => r == IterationResult::<Vec<HttpHeader>>::Value(h),
            Err(HeaderError::Read(e)) => if is_unexpected_eof(e) {
                r matches IterationResult::Break(None)
            } else {
                r matches IterationResult::Continue(resp) && resp@ == error_response(
                    HttpStatusCode::RequestHeaderFieldsTooLarge,
                    read_error_message(e),
                )
            },
            Err(HeaderError::Parse(_)) => r matches IterationResult::Break(Some(resp)) && resp@
                == bad_request_response("Failed to read request headers"@),
        },
{
    match read {
        Ok(h) => IterationResult::Value(h),
        Err(HeaderError::Read(e)) => {
            if e.is_unexpected_eof() {
                return IterationResult::Break(None);
            }
            let m = e.message();
            IterationResult::Continue(HttpResponse::header_too_long_err(m.as_str()))
        },
        Err(HeaderError::Parse(_)) => IterationResult::Break(
            Some(HttpResponse::bad_request_err("Failed to read request headers")),
        ),
    }
}

/// Checks the `Host` header and the unsupported headers of a request; a
/// request that breaks either rule is answered with 400 and the rule's message.
pub fn check_headers(headers: &[HttpHeader], port: u16) -> (r: Option<HttpResponse>)
    ensures
        match host_rule(header_views(headers@), port) {
            Err(m) => r matches Some(resp) && resp@ == bad_request_response(m),
            Ok(_) => match unsupported_rule(header_views(headers@)) {
                Err(m) => r matches Some(resp) && resp@ == bad_request_response(m),
                Ok(_) => r is None,
            },
        },
{
    if let Err(e) = validate_host_header(headers, port) {
        let m = e.message();
        return Some(HttpResponse::bad_request_err(m.as_str()));
    }
    if let Err(e) = validate_unsupported_headers(headers) {
        let m = e.message();
        return Some(HttpResponse::bad_request_err(m.as_str()));
    }
    None
}

/// Answers a request through the store, as `handled` describes.
pub fn handle<'a, H>(
    request_line: HttpRequestLine,
    headers: Vec<HttpHeader>,
    store: &'a HttpHandlerStore<H>,
    body: Option<Vec<u8>>,
) -> (d: ConnectionAction<'a, H>)
    ensures
        handled(store@, request_line@, headers, body, d),
{
    let ghost line = request_line@;
    match store.get(&request_line) {
        HttpHandler::Found(handler) => {
            let query_string = request_line.into_query_string();
            ConnectionAction::Call(handler, RequestPayload::new(Some(headers), body, query_string))
        },
        HttpHandler::MethodNotAllowed(methods) => ConnectionAction::Respond(
            HttpResponse::method_not_allowed(methods),
        ),
        HttpHandler::NotFound => ConnectionAction::Respond(HttpResponse::not_found(None, None)),
    }
}

/// What answering a request whose method carries no body gives: a request
/// with a `Content-Length` header is answered with 400; otherwise the store
/// answers.
pub open spec fn without_body_outcome<H>(
    store: Seq<(Seq<char>, crate::http::HttpMethod, H)>,
    line: crate::http::request::RequestLineView,
    headers: Vec<HttpHeader>,
    a: ConnectionAction<H>,
) -> bool {
    match content_length_lookup(header_views(headers@)) {
        Some(_) => a matches ConnectionAction::Respond(resp) && resp@ == bad_request_response(
            "'Content-Length' is NOT allowed for this HTTP method"@,
        ),
        None => handled(store, line, headers, None, a),
    }
}

/// Answers a request whose method carries no body, as `without_body_outcome` says.
pub fn handle_without_body<'a, H>(
    request_line: HttpRequestLine,
    headers: Vec<HttpHeader>,
    store: &'a HttpHandlerStore<H>,
) -> (d: ConnectionAction<'a, H>)
    ensures
        without_body_outcome(store@, request_line@, headers, d),
{
    if validate_content_length(headers.as_slice()).is_some() {
        return ConnectionAction::Respond(
            HttpResponse::bad_request_err("'Content-Length' is NOT allowed for this HTTP method"),
        );
    }
    handle(request_line, headers, store, None)
}

/// The 411 response.
pub open spec fn length_required_response() -> ResponseView {
    ResponseView { status: HttpStatusCode::LengthRequired, headers: None, body: None }
}

/// The length of the body a request announces: a missing `Content-Length`
/// header is answered with 411; a value of the first one that is not an
/// unsigned number that fits in `usize` with 400.
pub fn content_length_for_body(headers: &[HttpHeader]) -> (r: Result<usize, HttpResponse>)
    ensures
        match content_length_lookup(header_views(headers@)) {
            None => r matches Err(resp) && resp@ == length_required_response(),
            Some(i) => match parse_unsigned(header_views(headers@)[i].1, usize::MAX as nat) {
                None => r matches Err(resp) && resp@ == bad_request_response(
                    "'Content-Length' value MUST be numeric"@,
                ),
                Some(n) => r == Ok::<usize, HttpResponse>(n as usize),
            },
        },
{
    let header = match validate_content_length(headers) {
        Some(h) => h,
        None => {
            return Err(HttpResponse::length_required());
        },
    };
    let value = chars_of(header.value.as_str());
    match parse_unsigned_exec(value.as_slice(), usize::MAX as u64) {
        Some(n) => Ok(n as usize),
        None => Err(HttpResponse::bad_request_err("'Content-Length' value MUST be numeric")),
    }
}

/// What answering a request whose method carries a body gives, once the
/// body was read: a body over the size limit is answered with 413; any other
/// read error with 400; a bad `Content-Type` header with 400 and its
/// message, and so is a missing one; otherwise the store answers with the body.
pub open spec fn with_body_outcome<H>(
    store: Seq<(Seq<char>, crate::http::HttpMethod, H)>,
    line: crate::http::request::RequestLineView,
    headers: Vec<HttpHeader>,
    body: Result<Vec<u8>, ReadError>,
    a: ConnectionAction<H>,
) -> bool {
    match body {
        Err(e) => if e == ReadError::PayloadTooLarge {
            a matches ConnectionAction::Respond(resp) && resp@ == error_response(
                HttpStatusCode::PayloadTooLarge,
                read_error_message(e),
            )
        } else {
            a matches ConnectionAction::Respond(resp) && resp@ == bad_request_response(
                "Failed to read request body"@,
            )
        },
        Ok(b) => match content_type_lookup(header_views(headers@)) {
            Err(m) => a matches ConnectionAction::Respond(resp) && resp@ == bad_request_response(m),
            Ok(None) => a matches ConnectionAction::Respond(resp) && resp@ == bad_request_response(
                "'Content-Type' is required"@,
            ),
            Ok(Some(_)) => handled(store, line, headers, Some(b), a),
        },
    }
}

/// Answers a request whose method carries a body, once the body was read,
/// as `with_body_outcome` says.
pub fn handle_with_body<'a, H>(
    request_line: HttpRequestLine,
    headers: Vec<HttpHeader>,
    body: Result<Vec<u8>, ReadError>,
    store: &'a HttpHandlerStore<H>,
) -> (d: ConnectionAction<'a, H>)
    ensures
        with_body_outcome(store@, request_line@, headers, body, d),
{
    let body = match body {
        Ok(b) => b,
        Err(ReadError::PayloadTooLarge) => {
            let m = ReadError::PayloadTooLarge.message();
            return ConnectionAction::Respond(HttpResponse::payload_too_large_err(m.as_str()));
        },
        Err(_) => {
            return ConnectionAction::Respond(
                HttpResponse::bad_request_err("Failed to read request body"),
            );
        },
    };
    let present = match validate_content_type(headers.as_slice()) {
        Ok(value) => value.is_some(),
        Err(e) => {
            let m = e.message();
            return ConnectionAction::Respond(HttpResponse::bad_request_err(m.as_str()));
        },
    };
    if !present {
        return ConnectionAction::Respond(HttpResponse::bad_request_err("'Content-Type' is required"));
    }
    handle(request_line, headers, store, Some(body))
}

/// The connection stops, with nothing more written.
pub open spec fn closes<H>(s: ConnectionState, a: ConnectionAction<H>) -> bool {
    s is Closed && a matches ConnectionAction::Close(None)
}

/// The request is answered with a response and the connection waits for it
/// to be written.
pub open spec fn answers_with<H>(s: ConnectionState, a: ConnectionAction<H>, r: ResponseView) -> bool {
    &&& s is Responding
    &&& a matches ConnectionAction::Respond(resp) && resp@ == r
}

/// What a request line that was read gives: a line that parses starts the
/// reading of its headers; one that does not is answered with 400 and its
/// error; a line that was too long is answered with 414; an early end of
/// the stream closes the connection; any other read error is answered with
/// 400 and closes it.
pub open spec fn request_line_outcome<H>(
    read: Result<String, ReadError>,
    s: ConnectionState,
    a: ConnectionAction<H>,
) -> bool {
    match read {
        Ok(l) => match parse_request_line(l@) {
            Ok(v) => s matches ConnectionState::ReadingHeaders(x, hs) && x@ == v && hs@.len() == 0
                && a is ReadHeaderLine,
            Err(m) => answers_with(s, a, bad_request_response(m)),
        },
        Err(e) => if e == ReadError::UriTooLong {
            answers_with(s, a, error_response(HttpStatusCode::UriTooLong, read_error_message(e)))
        } else if is_unexpected_eof(e) {
            closes(s, a)
        } else {
            &&& s is Closed
            &&& a matches ConnectionAction::Close(Some(resp)) && resp@ == bad_request_response(
                "Failed to read the request line"@,
            )
        },
    }
}

/// What a header line other than the empty line gives: a header that parses
/// is added to the headers and the next line is read; one that does not is
/// answered with 400 and closes the connection.
pub open spec fn header_line_outcome<H>(
    line: HttpRequestLine,
    headers: Vec<HttpHeader>,
    text: Seq<char>,
    s: ConnectionState,
    a: ConnectionAction<H>,
) -> bool {
    match parse_header(text) {
        Ok(h) => s matches ConnectionState::ReadingHeaders(l2, hs2) && l2 == line && header_views(
            hs2@,
        ) == header_views(headers@).push(h) && a is ReadHeaderLine,
        Err(_) => {
            &&& s is Closed
            &&& a matches ConnectionAction::Close(Some(resp)) && resp@ == bad_request_response(
                "Failed to read request headers"@,
            )
        },
    }
}

/// What a failed read of a header line gives: an early end of the stream
/// closes the connection; any other error is answered with 431 and its message.
pub open spec fn header_error_outcome<H>(e: ReadError, s: ConnectionState, a: ConnectionAction<H>) -> bool {
    if is_unexpected_eof(e) {
        closes(s, a)
    } else {
        answers_with(
            s,
            a,
            error_response(HttpStatusCode::RequestHeaderFieldsTooLarge, read_error_message(e)),
        )
    }
}

/// What the end of the headers gives: a request that breaks the `Host` rule
/// or the rule on unsupported headers is answered with 400 and the rule's
/// message. A request whose method carries a body needs a numeric
/// `Content-Length` (411 when missing, 400 when not a number); a length over
/// `MAX_CONTENT_LENGTH` is answered with 413 without reading the body;
/// otherwise that many bytes of body are read next. A request whose method
/// carries no body is answered as `without_body_outcome` says.
pub open spec fn headers_done_outcome<H>(
    store: Seq<(Seq<char>, crate::http::HttpMethod, H)>,
    line: HttpRequestLine,
    headers: Vec<HttpHeader>,
    port: u16,
    s: ConnectionState,
    a: ConnectionAction<H>,
) -> bool {
    let hv = header_views(headers@);
    match host_rule(hv, port) {
        Err(m) => answers_with(s, a, bad_request_response(m)),
        Ok(_) => match unsupported_rule(hv) {
            Err(m) => answers_with(s, a, bad_request_response(m)),
            Ok(_) => if method_requires_body(line@.method) {
                match content_length_lookup(hv) {
                    None => answers_with(s, a, length_required_response()),
                    Some(i) => match parse_unsigned(hv[i].1, usize::MAX as nat) {
                        None => answers_with(
                            s,
                            a,
                            bad_request_response("'Content-Length' value MUST be numeric"@),
                        ),
                        Some(n) => if n > MAX_CONTENT_LENGTH {
                            answers_with(
                                s,
                                a,
                                error_response(
                                    HttpStatusCode::PayloadTooLarge,
                                    read_error_message(ReadError::PayloadTooLarge),
                                ),
                            )
                        } else {
                            &&& s matches ConnectionState::ReadingBody(l2, hs2) && l2 == line
                                && hs2 == headers
                            &&& a matches ConnectionAction::ReadBody(k) && k == n
                        },
                    },
                }
            } else {
                s is Responding && without_body_outcome(store, line@, headers, a)
            },
        },
    }
}

/// The headers of a request are complete: checks them and decides how the
/// request goes on, as `headers_done_outcome` says.
fn headers_done<'a, H>(
    request_line: HttpRequestLine,
    headers: Vec<HttpHeader>,
    store: &'a HttpHandlerStore<H>,
    port: u16,
) -> (r: (ConnectionState, ConnectionAction<'a, H>))
    ensures
        headers_done_outcome(store@, request_line, headers, port, r.0, r.1),
{
    if let Some(resp) = check_headers(headers.as_slice(), port) {
        return (ConnectionState::Responding, ConnectionAction::Respond(resp));
    }
    if request_line.requires_body() {
        match content_length_for_body(headers.as_slice()) {
            Err(resp) => (ConnectionState::Responding, ConnectionAction::Respond(resp)),
            Ok(n) => match check_body_length(n) {
                Ok(()) => (
                    ConnectionState::ReadingBody(request_line, headers),
                    ConnectionAction::ReadBody(n),
                ),
                Err(e) => (
                    ConnectionState::Responding,
                    handle_with_body(request_line, headers, Err(e), store),
                ),
            },
        }
    } else {
        (ConnectionState::Responding, handle_without_body(request_line, headers, store))
    }
}

/// A handler that is called gets the request as it came: it is the handler
/// registered for the path and method of the request line, and the payload
/// holds the headers, the body (if any) and the query string of the request
/// line, with or without a body.
pub proof fn law_handler_receives_request<H>(
    store: Seq<(Seq<char>, HttpMethod, H)>,
    line: crate::http::request::RequestLineView,
    headers: Vec<HttpHeader>,
    body: Option<Vec<u8>>,
    a: ConnectionAction<H>,
)
    requires
        handled(store, line, headers, body, a),
        a is Call,
    ensures
        has_route(store, line.target, line.method),
        a matches ConnectionAction::Call(h, p) && *h == route_handler(store, line.target, line.method)
            && p.headers == Some(headers) && p.body == body && opt_text(p.query_string)
            == line.query_string,
{
}

/// A request with a body that reaches a handler hands it that body and the
/// query string of its request line.
pub proof fn law_body_reaches_handler<H>(
    store: Seq<(Seq<char>, HttpMethod, H)>,
    line: crate::http::request::RequestLineView,
    headers: Vec<HttpHeader>,
    body: Vec<u8>,
    a: ConnectionAction<H>,
)
    requires
        with_body_outcome(store, line, headers, Ok::<Vec<u8>, ReadError>(body), a),
        a is Call,
    ensures
        a matches ConnectionAction::Call(h, p) && p.body == Some(body) && p.headers == Some(headers)
            && opt_text(p.query_string) == line.query_string,
{
}

/// Once the headers are complete, a request that holds a `Transfer-Encoding`,
/// `Connection` or `Upgrade` header is answered with 400, whatever its
/// method: no body is read and no handler is called. When its `Host` header
/// is in order and no unsupported header comes before this one, the answer
/// names this header as not supported.
pub proof fn law_unsupported_header_refused<H>(
    store: Seq<(Seq<char>, HttpMethod, H)>,
    line: HttpRequestLine,
    headers: Vec<HttpHeader>,
    port: u16,
    s: ConnectionState,
    a: ConnectionAction<H>,
    i: int,
)
    requires
        headers_done_outcome(store, line, headers, port, s, a),
        0 <= i < headers@.len(),
        headers@[i].name@ == "Transfer-Encoding"@ || headers@[i].name@ == "Connection"@
            || headers@[i].name@ == "Upgrade"@,
    ensures
        s is Responding,
        a matches ConnectionAction::Respond(r) && r@.status == HttpStatusCode::BadRequest,
        host_rule(header_views(headers@), port) is Ok && (forall|j: int|
            #![trigger headers@[j]]
            0 <= j < i ==> !(headers@[j].name@ == "Transfer-Encoding"@ || headers@[j].name@
                == "Connection"@ || headers@[j].name@ == "Upgrade"@)) ==> answers_with(
            s,
            a,
            bad_request_response(headers@[i].name@ + " is NOT supported"@),
        ),
{
    let hv = header_views(headers@);
    assert(hv[i] == (headers@[i].name@, headers@[i].value@));
    assert(unsupported_header()(hv[i]));
    lemma_first_where_some(hv, unsupported_header(), i);
    if forall|j: int|
        #![trigger headers@[j]]
        0 <= j < i ==> !(headers@[j].name@ == "Transfer-Encoding"@ || headers@[j].name@
            == "Connection"@ || headers@[j].name@ == "Upgrade"@) {
        assert forall|j: int| 0 <= j < i implies !unsupported_header()(#[trigger] hv[j]) by {
            assert(hv[j] == (headers@[j].name@, headers@[j].value@));
        }
        lemma_first_where(hv, unsupported_header(), i);
    }
}

/// Once the headers are complete, a request that breaks the `Host` rule is
/// answered with 400 and that rule's message, before any other header is
/// looked at and whatever its method.
pub proof fn law_host_checked_first<H>(
    store: Seq<(Seq<char>, HttpMethod, H)>,
    line: HttpRequestLine,
    headers: Vec<HttpHeader>,
    port: u16,
    s: ConnectionState,
    a: ConnectionAction<H>,
)
    requires
        headers_done_outcome(store, line, headers, port, s, a),
        host_rule(header_views(headers@), port) is Err,
    ensures
        answers_with(s, a, bad_request_response(host_rule(header_views(headers@), port)->Err_0)),
{
}

/// Once the headers are complete, a request whose method carries no body
/// (GET, DELETE, HEAD) but that holds a `Content-Length` header, whatever
/// the case of its name, is answered with 400 and never reaches a handler,
/// when its `Host` header is in order and no unsupported header is present.
pub proof fn law_length_refused_without_body<H>(
    store: Seq<(Seq<char>, HttpMethod, H)>,
    line: HttpRequestLine,
    headers: Vec<HttpHeader>,
    port: u16,
    s: ConnectionState,
    a: ConnectionAction<H>,
    i: int,
)
    requires
        headers_done_outcome(store, line, headers, port, s, a),
        host_rule(header_views(headers@), port) is Ok,
        forall|j: int|
            #![trigger headers@[j]]
            0 <= j < headers@.len() ==> !(headers@[j].name@ == "Transfer-Encoding"@
                || headers@[j].name@ == "Connection"@ || headers@[j].name@ == "Upgrade"@),
        line@.method == HttpMethod::GET || line@.method == HttpMethod::DELETE || line@.method
            == HttpMethod::HEAD,
        0 <= i < headers@.len(),
        eq_ignore_ascii_case(headers@[i].name@, "Content-Length"@),
    ensures
        answers_with(
            s,
            a,
            bad_request_response("'Content-Length' is NOT allowed for this HTTP method"@),
        ),
{
    let hv = header_views(headers@);
    if unsupported_rule(hv) is Err {
        let k = first_where(hv, unsupported_header())->0;
        assert(is_first_where(hv, unsupported_header(), k));
        assert(hv[k] == (headers@[k].name@, headers@[k].value@));
    }
    assert(hv[i] == (headers@[i].name@, headers@[i].value@));
    assert(named("Content-Length"@)(hv[i]));
    lemma_first_where_some(hv, named("Content-Length"@), i);
}

/// A handler registered for a path and method is the one called for a
/// request with that path and method, whatever was registered before it.
pub proof fn law_registered_handler_called<H>(
    es: Seq<(Seq<char>, HttpMethod, H)>,
    path: Seq<char>,
    method: HttpMethod,
    handler: H,
    line: crate::http::request::RequestLineView,
    headers: Vec<HttpHeader>,
    body: Option<Vec<u8>>,
    a: ConnectionAction<H>,
)
    requires
        routes_wf(es),
        registration_result(es, path, method) is Ok,
        line.target == path,
        line.method == method,
        handled(es.push((path, method, handler)), line, headers, body, a),
    ensures
        a matches ConnectionAction::Call(h, p) && *h == handler && p.body == body && opt_text(
            p.query_string,
        ) == line.query_string,
{
    law_register_then_get(es, path, method, handler, path, method);
}

/// Once the headers are complete, a request with an acceptable `Host`
/// header, no unsupported header and no `Content-Length` header goes to the
/// store when its method carries no body (GET, DELETE, HEAD), and is
/// answered with 411 when it does (POST, PUT, PATCH).
pub proof fn law_length_only_for_body_methods<H>(
    store: Seq<(Seq<char>, HttpMethod, H)>,
    line: HttpRequestLine,
    headers: Vec<HttpHeader>,
    port: u16,
    s: ConnectionState,
    a: ConnectionAction<H>,
)
    requires
        headers_done_outcome(store, line, headers, port, s, a),
        host_rule(header_views(headers@), port) is Ok,
        forall|j: int|
            #![trigger headers@[j]]
            0 <= j < headers@.len() ==> !(headers@[j].name@ == "Transfer-Encoding"@
                || headers@[j].name@ == "Connection"@ || headers@[j].name@ == "Upgrade"@)
                && !eq_ignore_ascii_case(headers@[j].name@, "Content-Length"@),
    ensures
        (line@.method == HttpMethod::GET || line@.method == HttpMethod::DELETE || line@.method
            == HttpMethod::HEAD) ==> s is Responding && handled(store, line@, headers, None, a),
        (line@.method == HttpMethod::POST || line@.method == HttpMethod::PUT || line@.method
            == HttpMethod::PATCH) ==> answers_with(s, a, length_required_response()),
{
    let hv = header_views(headers@);
    if unsupported_rule(hv) is Err {
        let k = first_where(hv, unsupported_header())->0;
        assert(is_first_where(hv, unsupported_header(), k));
        assert(hv[k] == (headers@[k].name@, headers@[k].value@));
    }
    if content_length_lookup(hv) is Some {
        let k = first_where(hv, named("Content-Length"@))->0;
        assert(is_first_where(hv, named("Content-Length"@), k));
        assert(hv[k] == (headers@[k].name@, headers@[k].value@));
    }
}

/// One step of a connection: from its state and what just happened, the
/// next state and what to do next.
///
/// Each request gets exactly one answer, and answers come in request order:
/// a step that writes a response or calls a handler always leads to
/// `Responding`, and from `Responding` the only way on is the write, after
/// which the next request line is read. A step that closes leads to
/// `Closed`, which stays closed. An event the state does not expect closes
/// the connection.
pub fn step<'a, H>(
    state: ConnectionState,
    event: ConnectionEvent,
    store: &'a HttpHandlerStore<H>,
    port: u16,
) -> (r: (ConnectionState, ConnectionAction<'a, H>))
    ensures
        (r.1 is Respond || r.1 is Call) ==> r.0 is Responding,
        r.1 is Close ==> r.0 is Closed,
        r.1 is ReadRequestLine ==> r.0 is AwaitingRequestLine,
        r.1 is ReadHeaderLine ==> r.0 is ReadingHeaders,
        r.1 is ReadBody ==> r.0 is ReadingBody,
        match state {
            ConnectionState::AwaitingRequestLine => match event {
                ConnectionEvent::Line(read) => request_line_outcome(read, r.0, r.1),
                _ => closes(r.0, r.1),
            },
            ConnectionState::ReadingHeaders(l, hs) => match event {
                ConnectionEvent::Line(Ok(t)) => if t@ == crlf() {
                    headers_done_outcome(store@, l, hs, port, r.0, r.1)
                } else {
                    header_line_outcome(l, hs, t@, r.0, r.1)
                },
                ConnectionEvent::Line(Err(e)) => header_error_outcome(e, r.0, r.1),
                _ => closes(r.0, r.1),
            },
            ConnectionState::ReadingBody(l, hs) => match event {
                ConnectionEvent::Body(b) => r.0 is Responding && with_body_outcome(
                    store@,
                    l@,
                    hs,
                    b,
                    r.1,
                ),
                _ => closes(r.0, r.1),
            },
            ConnectionState::Responding => match event {
                ConnectionEvent::Written => r.0 is AwaitingRequestLine && r.1 is ReadRequestLine,
                _ => closes(r.0, r.1),
            },
            ConnectionState::Closed => closes(r.0, r.1),
        },
{
    match state {
        ConnectionState::AwaitingRequestLine => match event {
            ConnectionEvent::Line(read) => match get_request_line(read) {
                IterationResult::Value(l) => (
                    ConnectionState::ReadingHeaders(l, Vec::new()),
                    ConnectionAction::ReadHeaderLine,
                ),
                IterationResult::Continue(resp) => (
                    ConnectionState::Responding,
                    ConnectionAction::Respond(resp),
                ),
                IterationResult::Break(resp) => (ConnectionState::Closed, ConnectionAction::Close(resp)),
            },
            _ => (ConnectionState::Closed, ConnectionAction::Close(None)),
        },
        ConnectionState::ReadingHeaders(l, hs) => match event {
            ConnectionEvent::Line(Ok(t)) => {
                proof {
                    reveal_strlit("\r\n");
                    assert("\r\n"@ =~= crlf());
                }
                if str_eq(t.as_str(), "\r\n") {
                    headers_done(l, hs, store, port)
                } else {
                    let mut hs = hs;
                    match add_header_line(t, &mut hs) {
                        Ok(_) => (ConnectionState::ReadingHeaders(l, hs), ConnectionAction::ReadHeaderLine),
                        Err(_) => (
                            ConnectionState::Closed,
                            ConnectionAction::Close(
                                Some(HttpResponse::bad_request_err("Failed to read request headers")),
                            ),
                        ),
                    }
                }
            },
            ConnectionEvent::Line(Err(e)) => match get_headers(Err(HeaderError::Read(e))) {
                IterationResult::Continue(resp) => (
                    ConnectionState::Responding,
                    ConnectionAction::Respond(resp),
                ),
                IterationResult::Break(resp) => (ConnectionState::Closed, ConnectionAction::Close(resp)),
                IterationResult::Value(_) => (ConnectionState::Closed, ConnectionAction::Close(None)),
            },
            _ => (ConnectionState::Closed, ConnectionAction::Close(None)),
        },
        ConnectionState::ReadingBody(l, hs) => match event {
            ConnectionEvent::Body(b) => (ConnectionState::Responding, handle_with_body(l, hs, b, store)),
            _ => (ConnectionState::Closed, ConnectionAction::Close(None)),
        },
        ConnectionState::Responding => match event {
            ConnectionEvent::Written => (
                ConnectionState::AwaitingRequestLine,
                ConnectionAction::ReadRequestLine,
            ),
            _ => (ConnectionState::Closed, ConnectionAction::Close(None)),
        },
        ConnectionState::Closed => (ConnectionState::Closed, ConnectionAction::Close(None)),
    }
}

} // verus!
