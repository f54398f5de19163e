//! HTTP messages: methods, status codes, request lines, headers, responses,
//! header validation and the handler store.
use vstd::prelude::*;

pub mod errors;
pub mod handlers;
pub mod method;
pub mod request;
pub mod response;
pub mod status;
pub mod validation;

pub use self::errors::{HandlerRegistrationError, HttpParseError, HttpValidationError};
pub use self::method::HttpMethod;
pub use self::request::{HttpHeader, HttpRequestLine, RequestLineView};
pub use self::status::HttpStatusCode;
pub use self::validation::validate_headers;
pub use self::response::{HttpBody, HttpResponse, RequestPayload, ResponseView};
pub use self::handlers::{HandlerEntryView, HttpHandler, HttpHandlerStore};

verus! {

/// The end of a line.
pub const CRLF: &'static str = "\r\n";

/// The name of the header that gives the length of a body.
pub const CONTENT_LENGTH: &'static str = "Content-Length";

} // verus!
