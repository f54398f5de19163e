use vstd::prelude::*;
use vstd::string::*;

use super::errors::HttpParseError;
use crate::text::str_eq;

verus! {

/// The request methods this server understands.
#[derive(PartialEq, Eq, Structural, Clone, Copy, Debug)]
pub enum HttpMethod {
    GET,
    POST,
    PUT,
    PATCH,
    DELETE,
    HEAD,
}

/// The name of a method as it is written in a request line.
pub open spec fn method_text(m: HttpMethod) -> Seq<char> {
    match m {
        HttpMethod::GET => "GET"@,
        HttpMethod::POST => "POST"@,
        HttpMethod::PUT => "PUT"@,
        HttpMethod::PATCH => "PATCH"@,
        HttpMethod::DELETE => "DELETE"@,
        HttpMethod::HEAD => "HEAD"@,
    }
}

/// The method whose name is exactly `s` (names are case-sensitive).
pub open spec fn method_from_text(s: Seq<char>) -> Option<HttpMethod> {
    if s == "GET"@ {
        Some(HttpMethod::GET)
    } else if s == "POST"@ {
        Some(HttpMethod::POST)
    } else if s == "PUT"@ {
        Some(HttpMethod::PUT)
    } else if s == "PATCH"@ {
        Some(HttpMethod::PATCH)
    } else if s == "DELETE"@ {
        Some(HttpMethod::DELETE)
    } else if s == "HEAD"@ {
        Some(HttpMethod::HEAD)
    } else {
        None
    }
}

/// The message of the error for an unknown method name.
pub open spec fn invalid_method_message() -> Seq<char> {
    "Invalid HTTP method"@
}

/// Reading back the name of a method gives the method.
pub proof fn law_method_name_round_trip(m: HttpMethod)
    ensures
        method_from_text(method_text(m)) == Some(m),
{
    reveal_strlit("GET");
    reveal_strlit("POST");
    reveal_strlit("PUT");
    reveal_strlit("PATCH");
    reveal_strlit("DELETE");
    reveal_strlit("HEAD");
    assert("GET"@[0] == 'G' && "POST"@[0] == 'P' && "PUT"@[0] == 'P' && "PATCH"@[0] == 'P');
    assert("DELETE"@[0] == 'D' && "HEAD"@[0] == 'H');
    assert("POST"@[1] == 'O' && "PUT"@[1] == 'U' && "PATCH"@[1] == 'A');
    assert("GET"@.len() == 3 && "POST"@.len() == 4 && "PUT"@.len() == 3);
    assert("PATCH"@.len() == 5 && "DELETE"@.len() == 6 && "HEAD"@.len() == 4);
}

/// Every accepted name is the name of the method it gives.
pub proof fn law_method_name_canonical(s: Seq<char>)
    ensures
        method_from_text(s) matches Some(m) ==> method_text(m) == s,
{
}

impl HttpMethod {
    /// The method named by `value`, or an error for any other text.
    pub fn parse(value: &str) -> (r: Result<HttpMethod, HttpParseError>)
        ensures
            match r {
                Ok(m) => method_from_text(value@) == Some(m),
                Err(e) => method_from_text(value@) is None && e@ == invalid_method_message(),
            },
    {
        if str_eq(value, "GET") {
            Ok(HttpMethod::GET)
        } else if str_eq(value, "POST") {
            Ok(HttpMethod::POST)
        } else if str_eq(value, "PUT") {
            Ok(HttpMethod::PUT)
        } else if str_eq(value, "PATCH") {
            Ok(HttpMethod::PATCH)
        } else if str_eq(value, "DELETE") {
            Ok(HttpMethod::DELETE)
        } else if str_eq(value, "HEAD") {
            Ok(HttpMethod::HEAD)
        } else {
            Err(HttpParseError::new(String::from_str("Invalid HTTP method")))
        }
    }

    /// The name of this method as it is written in a request line.
    pub fn as_str(&self) -> (s: &'static str)
        ensures
            s@ == method_text(*self),
    {
        match self {
            HttpMethod::GET => "GET",
            HttpMethod::POST => "POST",
            HttpMethod::PUT => "PUT",
            HttpMethod::PATCH => "PATCH",
            HttpMethod::DELETE => "DELETE",
            HttpMethod::HEAD => "HEAD",
        }
    }
}

} // verus!
