use vstd::prelude::*;
use vstd::string::*;

use crate::text::{crlf, decimal, decimal_string};

verus! {

/// The status codes this server answers with.
pub enum HttpStatusCode {
    OK,
    Created,
    NoContent,
    BadRequest,
    NotFound,
    MethodNotAllowed,
    LengthRequired,
    PayloadTooLarge,
    UriTooLong,
    RequestHeaderFieldsTooLarge,
}

/// The numeric code of a status.
pub open spec fn status_code(s: HttpStatusCode) -> u16 {
    match s {
        HttpStatusCode::OK => 200,
        HttpStatusCode::Created => 201,
        HttpStatusCode::NoContent => 204,
        HttpStatusCode::BadRequest => 400,
        HttpStatusCode::NotFound => 404,
        HttpStatusCode::MethodNotAllowed => 405,
        HttpStatusCode::LengthRequired => 411,
        HttpStatusCode::PayloadTooLarge => 413,
        HttpStatusCode::UriTooLong => 414,
        HttpStatusCode::RequestHeaderFieldsTooLarge => 431,
    }
}

/// The reason phrase of a status.
pub open spec fn status_text(s: HttpStatusCode) -> Seq<char> {
    match s {
        HttpStatusCode::OK => "OK"@,
        HttpStatusCode::Created => "Created"@,
        HttpStatusCode::NoContent => "No Content"@,
        HttpStatusCode::BadRequest => "Bad Request"@,
        HttpStatusCode::NotFound => "Not Found"@,
        HttpStatusCode::MethodNotAllowed => "Method Not Allowed"@,
        HttpStatusCode::LengthRequired => "Length Required"@,
        HttpStatusCode::PayloadTooLarge => "Payload Too Large"@,
        HttpStatusCode::UriTooLong => "URI Too Long"@,
        HttpStatusCode::RequestHeaderFieldsTooLarge => "Request Header Fields Too Large"@,
    }
}

/// The protocol version this server speaks.
pub open spec fn http_version() -> Seq<char> {
    "HTTP/1.1"@
}

/// The status line of a response: version, code and reason, ended by CRLF.
pub open spec fn status_line(s: HttpStatusCode) -> Seq<char> {
    http_version() + " "@ + decimal(status_code(s) as nat) + " "@ + status_text(s) + crlf()
}

impl HttpStatusCode {
    /// The numeric code of this status.
    pub fn code(&self) -> (c: u16)
        ensures
            c == status_code(*self),
    {
        match self {
            HttpStatusCode::OK => 200,
            HttpStatusCode::Created => 201,
            HttpStatusCode::NoContent => 204,
            HttpStatusCode::BadRequest => 400,
            HttpStatusCode::NotFound => 404,
            HttpStatusCode::MethodNotAllowed => 405,
            HttpStatusCode::LengthRequired => 411,
            HttpStatusCode::PayloadTooLarge => 413,
            HttpStatusCode::UriTooLong => 414,
            HttpStatusCode::RequestHeaderFieldsTooLarge => 431,
        }
    }

    /// The reason phrase of this status.
    pub fn text(&self) -> (t: &'static str)
        ensures
            t@ == status_text(*self),
    {
        match self {
            HttpStatusCode::OK => "OK",
            HttpStatusCode::Created => "Created",
            HttpStatusCode::NoContent => "No Content",
            HttpStatusCode::BadRequest => "Bad Request",
            HttpStatusCode::NotFound => "Not Found",
            HttpStatusCode::MethodNotAllowed => "Method Not Allowed",
            HttpStatusCode::LengthRequired => "Length Required",
            HttpStatusCode::PayloadTooLarge => "Payload Too Large",
            HttpStatusCode::UriTooLong => "URI Too Long",
            HttpStatusCode::RequestHeaderFieldsTooLarge => "Request Header Fields Too Large",
        }
    }

    /// Appends the status line of this status to `out`.
    pub fn append_response_line(&self, out: &mut String)
        ensures
            final(out)@ == old(out)@ + status_line(*self),
    {
        out.append("HTTP/1.1");
        out.append(" ");
        let code = decimal_string(self.code() as usize);
        out.append(code.as_str());
        out.append(" ");
        out.append(self.text());
        out.append("\r\n");
        proof {
            reveal_strlit("\r\n");
        }
        assert(final(out)@ =~= old(out)@ + status_line(*self));
    }

    /// The status line of this status, as bytes.
    pub fn to_response_line(&self) -> (b: Vec<u8>)
        ensures
            b@ == vstd::utf8::encode_utf8(status_line(*self)),
    {
        let mut s = String::new();
        self.append_response_line(&mut s);
        assert(s@ =~= status_line(*self));
        s.as_str().as_bytes_vec()
    }
}

} // verus!
