use vstd::prelude::*;
use vstd::string::*;
use vstd::utf8::encode_utf8;

use super::method::{method_text, HttpMethod};
use super::request::{header_line, HttpHeader};
use super::status::{status_line, HttpStatusCode};
use super::validation::{header_views, HeaderView};
use crate::text::{crlf, decimal, decimal_string};

verus! {

/// The body of a request.
pub struct HttpBody(Vec<u8>);

impl View for HttpBody {
    type V = Seq<u8>;

    closed spec fn view(&self) -> Seq<u8> {
        self.0@
    }
}

impl HttpBody {
    /// A body holding `value`.
    pub fn new(value: Vec<u8>) -> (b: Self)
        ensures
            b@ == value@,
    {
        HttpBody(value)
    }

    /// The bytes of this body.
    pub fn value(self) -> (v: Vec<u8>)
        ensures
            v@ == self@,
    {
        self.0
    }
}

/// What a response holds: its status, its headers if any, its body if any.
pub struct ResponseView {
    pub status: HttpStatusCode,
    pub headers: Option<Seq<HeaderView>>,
    pub body: Option<Seq<u8>>,
}

/// A response to a request.
pub struct HttpResponse {
    status: HttpStatusCode,
    headers: Option<Vec<HttpHeader>>,
    body: Option<Vec<u8>>,
}

/// Optional headers as name/value pairs.
pub open spec fn opt_headers(h: Option<Vec<HttpHeader>>) -> Option<Seq<HeaderView>> {
    match h {
        Some(v) => Some(header_views(v@)),
        None => None,
    }
}

/// An optional byte vector as an optional sequence.
pub open spec fn opt_bytes(b: Option<Vec<u8>>) -> Option<Seq<u8>> {
    match b {
        Some(v) => Some(v@),
        None => None,
    }
}

impl View for HttpResponse {
    type V = ResponseView;

    closed spec fn view(&self) -> ResponseView {
        ResponseView {
            status: self.status,
            headers: opt_headers(self.headers),
            body: opt_bytes(self.body),
        }
    }
}

/// The JSON body of an error response carrying `error`.
pub open spec fn error_body(error: Seq<char>) -> Seq<u8> {
    encode_utf8("{\r\n\t\"error\": \""@ + error + "\"\r\n}\r\n"@)
}

/// The names of `ms`, separated by a comma and a space.
pub open spec fn join_methods(ms: Seq<HttpMethod>) -> Seq<char>
    decreases ms.len(),
{
    if ms.len() == 0 {
        Seq::<char>::empty()
    } else if ms.len() == 1 {
        method_text(ms[0])
    } else {
        join_methods(ms.drop_last()) + ", "@ + method_text(ms.last())
    }
}

/// Headers as they are written on the wire, one after the other.
pub open spec fn headers_text(hs: Seq<HeaderView>) -> Seq<char>
    decreases hs.len(),
{
    if hs.len() == 0 {
        Seq::<char>::empty()
    } else {
        headers_text(hs.drop_last()) + header_line(hs.last().0, hs.last().1)
    }
}

/// The text of a response up to its body: the status line, the headers, a
/// JSON content type and the content length when there is a body, a zero
/// content length when there is none, and the empty line.
pub open spec fn response_head(v: ResponseView) -> Seq<char> {
    status_line(v.status) + headers_text(
        match v.headers {
            Some(h) => h,
            None => Seq::<HeaderView>::empty(),
        },
    ) + match v.body {
        Some(b) => "Content-Type: application/json\r\n"@ + "Content-Length"@ + ": "@ + decimal(
            b.len(),
        ) + crlf() + crlf(),
        None => "Content-Length: 0\r\n"@ + crlf(),
    }
}

/// A response as bytes on the wire: its head in UTF-8, then its body.
pub open spec fn response_bytes(v: ResponseView) -> Seq<u8> {
    encode_utf8(response_head(v)) + match v.body {
        Some(b) => b,
        None => Seq::<u8>::empty(),
    }
}

impl HttpResponse {
    /// A response with the given parts.
    fn new(status: HttpStatusCode, headers: Option<Vec<HttpHeader>>, body: Option<Vec<u8>>) -> (r:
        Self)
        ensures
            r@ == (ResponseView {
                status,
                headers: opt_headers(headers),
                body: opt_bytes(body),
            }),
    {
        HttpResponse { status, headers, body }
    }

    /// A 200 response.
    pub fn ok(headers: Option<Vec<HttpHeader>>, body: Option<Vec<u8>>) -> (r: Self)
        ensures
            r@ == (ResponseView {
                status: HttpStatusCode::OK,
                headers: opt_headers(headers),
                body: opt_bytes(body),
            }),
    {
        Self::new(HttpStatusCode::OK, headers, body)
    }

    /// A 201 response.
    pub fn created(headers: Option<Vec<HttpHeader>>, body: Option<Vec<u8>>) -> (r: Self)
        ensures
            r@ == (ResponseView {
                status: HttpStatusCode::Created,
                headers: opt_headers(headers),
                body: opt_bytes(body),
            }),
    {
        Self::new(HttpStatusCode::Created, headers, body)
    }

    /// A 204 response, which has no body.
    pub fn no_content(headers: Option<Vec<HttpHeader>>) -> (r: Self)
        ensures
            r@ == (ResponseView {
                status: HttpStatusCode::NoContent,
                headers: opt_headers(headers),
                body: None,
            }),
    {
        Self::new(HttpStatusCode::NoContent, headers, None)
    }

    /// A 400 response.
    pub fn bad_request(headers: Option<Vec<HttpHeader>>, body: Option<Vec<u8>>) -> (r: Self)
        ensures
            r@ == (ResponseView {
                status: HttpStatusCode::BadRequest,
                headers: opt_headers(headers),
                body: opt_bytes(body),
            }),
    {
        Self::new(HttpStatusCode::BadRequest, headers, body)
    }

    /// The JSON error body for `error`.
    fn error_body_bytes(error: &str) -> (b: Vec<u8>)
        ensures
            b@ == error_body(error@),
    {
        let mut s = String::from_str("{\r\n\t\"error\": \"");
        s.append(error);
        s.append("\"\r\n}\r\n");
        s.as_str().as_bytes_vec()
    }

    /// A 400 response whose JSON body carries `error`.
    pub fn bad_request_err(error: &str) -> (r: Self)
        ensures
            r@ == (ResponseView {
                status: HttpStatusCode::BadRequest,
                headers: None,
                body: Some(error_body(error@)),
            }),
    {
        Self::new(HttpStatusCode::BadRequest, None, Some(Self::error_body_bytes(error)))
    }

    /// A 413 response whose JSON body carries `error`.
    pub fn payload_too_large_err(error: &str) -> (r: Self)
        ensures
            r@ == (ResponseView {
                status: HttpStatusCode::PayloadTooLarge,
                headers: None,
                body: Some(error_body(error@)),
            }),
    {
        Self::new(HttpStatusCode::PayloadTooLarge, None, Some(Self::error_body_bytes(error)))
    }

    /// A 414 response whose JSON body carries `error`.
    pub fn uri_too_long_err(error: &str) -> (r: Self)
        ensures
            r@ == (ResponseView {
                status: HttpStatusCode::UriTooLong,
                headers: None,
                body: Some(error_body(error@)),
            }),
    {
        Self::new(HttpStatusCode::UriTooLong, None, Some(Self::error_body_bytes(error)))
    }

    /// A 431 response whose JSON body carries `error`.
    pub fn header_too_long_err(error: &str) -> (r: Self)
        ensures
            r@ == (ResponseView {
                status: HttpStatusCode::RequestHeaderFieldsTooLarge,
                headers: None,
                body: Some(error_body(error@)),
            }),
    {
        Self::new(
            HttpStatusCode::RequestHeaderFieldsTooLarge,
            None,
            Some(Self::error_body_bytes(error)),
        )
    }

    /// A 404 response.
    pub fn not_found(headers: Option<Vec<HttpHeader>>, body: Option<Vec<u8>>) -> (r: Self)
        ensures
            r@ == (ResponseView {
                status: HttpStatusCode::NotFound,
                headers: opt_headers(headers),
                body: opt_bytes(body),
            }),
    {
        Self::new(HttpStatusCode::NotFound, headers, body)
    }

    /// A 405 response whose `Allow` header lists `methods`.
    pub fn method_not_allowed(methods: Vec<HttpMethod>) -> (r: Self)
        ensures
            r@ == (ResponseView {
                status: HttpStatusCode::MethodNotAllowed,
                headers: Some(seq![("Allow"@, join_methods(methods@))]),
                body: None,
            }),
    {
        let mut joined = String::new();
        let mut i: usize = 0;
        assert(methods@.take(0) =~= Seq::<HttpMethod>::empty());
        while i < methods.len()
            invariant
                i <= methods@.len(),
                joined@ == join_methods(methods@.take(i as int)),
            decreases methods@.len() - i,
        {
            let ghost before = methods@.take(i as int);
            assert(methods@.take(i + 1).drop_last() =~= before);
            if i > 0 {
                joined.append(", ");
            } else {
                assert(before.len() == 0);
            }
            joined.append(methods[i].as_str());
            i = i + 1;
            assert(joined@ =~= join_methods(methods@.take(i as int)));
        }
        assert(methods@.take(i as int) =~= methods@);
        let mut headers: Vec<HttpHeader> = Vec::new();
        headers.push(HttpHeader::new("Allow", joined.as_str()));
        assert(header_views(headers@) =~= seq![("Allow"@, join_methods(methods@))]);
        Self::new(HttpStatusCode::MethodNotAllowed, Some(headers), None)
    }

    /// A 411 response.
    pub fn length_required() -> (r: HttpResponse)
        ensures
            r@ == (ResponseView {
                status: HttpStatusCode::LengthRequired,
                headers: None,
                body: None,
            }),
    {
        Self::new(HttpStatusCode::LengthRequired, None, None)
    }

    /// This response as bytes on the wire, as `response_bytes` describes.
    pub fn into_bytes(self) -> (b: Vec<u8>)
        ensures
            b@ == response_bytes(self@),
    {
        let ghost v = self@;
        let mut head = String::new();
        self.status.append_response_line(&mut head);
        let ghost hs = match v.headers {
            Some(h) => h,
            None => Seq::<HeaderView>::empty(),
        };
        match &self.headers {
            Some(headers) => {
                let mut i: usize = 0;
                assert(hs.take(0) =~= Seq::<HeaderView>::empty());
                while i < headers.len()
                    invariant
                        hs == header_views(headers@),
                        i <= headers@.len(),
                        head@ == status_line(v.status) + headers_text(hs.take(i as int)),
                    decreases headers@.len() - i,
                {
                    headers[i].append_to(&mut head);
                    assert(hs.take(i + 1).drop_last() =~= hs.take(i as int));
                    i = i + 1;
                    assert(head@ =~= status_line(v.status) + headers_text(hs.take(i as int)));
                }
                assert(hs.take(i as int) =~= hs);
            },
            None => {
                assert(head@ =~= status_line(v.status) + headers_text(hs));
            },
        }
        let ghost before_body = head@;
        match self.body {
            Some(mut b) => {
                head.append("Content-Type: application/json\r\n");
                head.append("Content-Length");
                head.append(": ");
                let n = decimal_string(b.len());
                head.append(n.as_str());
                head.append("\r\n");
                head.append("\r\n");
                proof {
                    reveal_strlit("\r\n");
                }
                assert(head@ =~= response_head(v));
                let mut out = head.as_str().as_bytes_vec();
                out.append(&mut b);
                out
            },
            None => {
                head.append("Content-Length: 0\r\n");
                head.append("\r\n");
                proof {
                    reveal_strlit("\r\n");
                }
                assert(head@ =~= response_head(v));
                let out = head.as_str().as_bytes_vec();
                assert(out@ =~= response_bytes(v));
                out
            },
        }
    }
}

/// What a handler receives: the request headers, body and query string.
pub struct RequestPayload {
    pub headers: Option<Vec<HttpHeader>>,
    pub body: Option<Vec<u8>>,
    pub query_string: Option<String>,
}

impl RequestPayload {
    /// A payload with the given parts.
    pub fn new(
        headers: Option<Vec<HttpHeader>>,
        body: Option<Vec<u8>>,
        query_string: Option<String>,
    ) -> (p: Self)
        ensures
            p.headers == headers,
            p.body == body,
            p.query_string == query_string,
    {
        RequestPayload { headers, body, query_string }
    }
}

} // verus!
