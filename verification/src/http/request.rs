use vstd::prelude::*;
use vstd::string::*;
use vstd::utf8::encode_utf8;

use super::errors::HttpParseError;
use super::method::{method_from_text, method_text, HttpMethod};
use super::status::http_version;
use crate::text::{
    chars_of, crlf, decimal, decimal_string, ends_with, find_char, lemma_split_nonempty,
    split_char, split_once, split_ranges, str_eq, substring, trim_blanks, trim_blanks_range,
    trim_end_crlf, trim_end_crlf_len, utf8_len_exceeds, is_blank, is_first_index,
    lemma_split_at_first, lemma_split_absent, trim_start_blanks, trim_end_blanks,
};

verus! {

/// The longest header value, in bytes, that the server accepts.
pub const HEADER_VALUE_MAX_LENGTH: usize = 8192;

/// What a request line says: the method, the path of the target, and the
/// query string that followed a `?` in the target, if any.
pub struct RequestLineView {
    pub method: HttpMethod,
    pub target: Seq<char>,
    pub query_string: Option<Seq<char>>,
}

/// The first line of a request.
pub struct HttpRequestLine {
    pub query_string: Option<String>,
    method: HttpMethod,
    target: String,
}

impl View for HttpRequestLine {
    type V = RequestLineView;

    closed spec fn view(&self) -> RequestLineView {
        RequestLineView {
            method: self.method,
            target: self.target@,
            query_string: match self.query_string {
                Some(q) => Some(q@),
                None => None,
            },
        }
    }
}

/// The message for a request-line part that is missing.
pub open spec fn missing_message(name: Seq<char>) -> Seq<char> {
    name + " is required"@
}

/// The message for a request-line part that is empty.
pub open spec fn empty_message(name: Seq<char>) -> Seq<char> {
    name + " MUST NOT be empty"@
}

/// The path of a request target: the text before the first `?`.
pub open spec fn target_path(t: Seq<char>) -> Seq<char> {
    match split_once(t, '?') {
        Some((p, _)) => p,
        None => t,
    }
}

/// The query string of a request target: the text after the first `?`.
pub open spec fn target_query(t: Seq<char>) -> Option<Seq<char>> {
    match split_once(t, '?') {
        Some((_, q)) => Some(q),
        None => None,
    }
}

/// How a request line is read: it must end with CRLF; once the trailing
/// CRLFs are removed, its space-separated parts are a non-empty method, a
/// non-empty target that starts with `/`, and a non-empty version, and
/// nothing more; the method must be one this server knows and the version
/// must be HTTP/1.1. The checks are made in this order, and the first that
/// fails gives the error.
pub open spec fn parse_request_line(s: Seq<char>) -> Result<RequestLineView, Seq<char>> {
    if !crlf().is_suffix_of(s) {
        Err("Request line does NOT end with CRLF."@)
    } else {
        let parts = split_char(trim_end_crlf(s), ' ');
        if parts[0].len() == 0 {
            Err(empty_message("Method"@))
        } else if parts.len() < 2 {
            Err(missing_message("Target"@))
        } else if parts[1].len() == 0 {
            Err(empty_message("Target"@))
        } else if parts.len() < 3 {
            Err(missing_message("Version"@))
        } else if parts[2].len() == 0 {
            Err(empty_message("Version"@))
        } else if parts[1][0] != '/' {
            Err("Request target MUST start with a '/'"@)
        } else if parts.len() > 3 {
            Err("Request line MUST consist of 3 parts."@)
        } else {
            match method_from_text(parts[0]) {
                None => Err("Invalid HTTP method"@),
                Some(m) => if parts[2] != http_version() {
                    Err("Only "@ + http_version() + " version is supported."@)
                } else {
                    Ok(
                        RequestLineView {
                            method: m,
                            target: target_path(parts[1]),
                            query_string: target_query(parts[1]),
                        },
                    )
                },
            }
        }
    }
}

/// A request line as a client writes it: method, space, target (the path,
/// then `?` and the query string if there is one), space, version, CRLF.
pub open spec fn request_line_text(
    method: HttpMethod,
    path: Seq<char>,
    query_string: Option<Seq<char>>,
) -> Seq<char> {
    method_text(method) + " "@ + path + match query_string {
        Some(q) => "?"@ + q,
        None => Seq::<char>::empty(),
    } + " "@ + http_version() + crlf()
}

/// No method name holds a space, and none is empty.
proof fn lemma_method_text_plain(m: HttpMethod)
    ensures
        method_text(m).len() > 0,
        forall|i: int| 0 <= i < method_text(m).len() ==> method_text(m)[i] != ' ',
{
    reveal_strlit("GET");
    reveal_strlit("POST");
    reveal_strlit("PUT");
    reveal_strlit("PATCH");
    reveal_strlit("DELETE");
    reveal_strlit("HEAD");
}

/// A request line written as `request_line_text` reads back as the same
/// method, path and query string, when the path starts with `/` and holds
/// neither a space nor a `?`, and the query string holds no space.
pub proof fn law_request_line_round_trip(
    method: HttpMethod,
    path: Seq<char>,
    query_string: Option<Seq<char>>,
)
    requires
        path.len() > 0,
        path[0] == '/',
        forall|i: int| 0 <= i < path.len() ==> path[i] != ' ' && path[i] != '?',
        query_string matches Some(q) ==> forall|i: int| 0 <= i < q.len() ==> q[i] != ' ',
    ensures
        parse_request_line(request_line_text(method, path, query_string)) == Ok::<
            RequestLineView,
            Seq<char>,
        >(RequestLineView { method, target: path, query_string }),
{
    reveal_strlit(" ");
    reveal_strlit("?");
    reveal_strlit("HTTP/1.1");
    lemma_method_text_plain(method);
    crate::http::method::law_method_name_round_trip(method);
    let mt = method_text(method);
    let target = path + match query_string {
        Some(q) => "?"@ + q,
        None => Seq::<char>::empty(),
    };
    let version = http_version();
    let line = mt + " "@ + target + " "@ + version;
    let s = request_line_text(method, path, query_string);
    assert(s =~= line + crlf());
    assert(crlf().is_suffix_of(s)) by {
        assert(s.subrange(s.len() - 2, s.len() as int) =~= crlf());
    }
    assert(s.take(s.len() - 2) =~= line);
    assert(line[line.len() - 1] == '1');
    assert(trim_end_crlf(line) == line);
    assert(trim_end_crlf(s) == line);
    assert forall|i: int| 0 <= i < target.len() implies target[i] != ' ' by {
        if i >= path.len() {
            if let Some(q) = query_string {
                if i > path.len() {
                    assert(target[i] == q[i - path.len() - 1]);
                }
            }
        }
    }
    let k1 = mt.len() as int;
    assert(is_first_index(line, ' ', k1));
    lemma_split_at_first(line, ' ', k1);
    let rest1 = line.skip(k1 + 1);
    assert(line.take(k1) =~= mt);
    assert(rest1 =~= target + " "@ + version);
    let k2 = target.len() as int;
    assert(is_first_index(rest1, ' ', k2));
    lemma_split_at_first(rest1, ' ', k2);
    let rest2 = rest1.skip(k2 + 1);
    assert(rest1.take(k2) =~= target);
    assert(rest2 =~= version);
    lemma_split_absent(rest2, ' ');
    let parts = split_char(line, ' ');
    assert(parts =~= seq![mt, target, version]);
    match query_string {
        Some(q) => {
            assert(is_first_index(target, '?', path.len() as int));
            lemma_split_at_first(target, '?', path.len() as int);
            assert(target.take(path.len() as int) =~= path);
            assert(target.skip(path.len() as int + 1) =~= q);
        },
        None => {
            assert(target =~= path);
            lemma_split_absent(target, '?');
        },
    }
}

/// Whether requests with this method carry a body.
pub open spec fn method_requires_body(m: HttpMethod) -> bool {
    m == HttpMethod::POST || m == HttpMethod::PUT || m == HttpMethod::PATCH
}

impl HttpRequestLine {
    /// Whether the method of this request line carries a body.
    pub fn requires_body(&self) -> (b: bool)
        ensures
            b == method_requires_body(self@.method),
            b == (self@.method == HttpMethod::POST || self@.method == HttpMethod::PUT
                || self@.method == HttpMethod::PATCH),
            (self@.method == HttpMethod::GET || self@.method == HttpMethod::DELETE
                || self@.method == HttpMethod::HEAD) ==> !b,
    {
        match self.method {
            HttpMethod::POST | HttpMethod::PUT | HttpMethod::PATCH => true,
            _ => false,
        }
    }

    /// The method of this request line.
    pub fn method(&self) -> (m: HttpMethod)
        ensures
            m == self@.method,
    {
        self.method
    }

    /// The path of the target of this request line.
    pub fn target(&self) -> (t: &String)
        ensures
            t@ == self@.target,
    {
        &self.target
    }

    /// The query string of this request line, moved out of it.
    pub fn into_query_string(self) -> (q: Option<String>)
        ensures
            match q {
                Some(s) => self@.query_string == Some(s@),
                None => self@.query_string is None,
            },
    {
        self.query_string
    }

    /// The range of a request-line part that must be present and not empty.
    fn validate_parameter(value: Option<(usize, usize)>, name: &str) -> (r: Result<
        (usize, usize),
        HttpParseError,
    >)
        ensures
            match value {
                None => r matches Err(e) && e@ == missing_message(name@),
                Some(v) => if v.0 == v.1 {
                    r matches Err(e) && e@ == empty_message(name@)
                } else {
                    r == Ok::<(usize, usize), HttpParseError>(v)
                },
            },
    {
        match value {
            Some(v) => if v.0 != v.1 {
                Ok(v)
            } else {
                let mut m = String::from_str(name);
                m.append(" MUST NOT be empty");
                Err(HttpParseError::new(m))
            },
            None => {
                let mut m = String::from_str(name);
                m.append(" is required");
                Err(HttpParseError::new(m))
            },
        }
    }

    /// Reads a request line, as `parse_request_line` describes.
    pub fn parse(value: String) -> (r: Result<HttpRequestLine, HttpParseError>)
        ensures
            match r {
                Ok(l) => parse_request_line(value@) == Ok::<RequestLineView, Seq<char>>(l@),
                Err(e) => parse_request_line(value@) == Err::<RequestLineView, Seq<char>>(e@),
            },
    {
        let text = value.as_str();
        let chars = chars_of(text);
        let crlf_chars = vec!['\r', '\n'];
        assert(crlf_chars@ =~= crlf());
        if !ends_with(chars.as_slice(), crlf_chars.as_slice()) {
            return Err(HttpParseError::new(String::from_str("Request line does NOT end with CRLF.")));
        }
        let n = trim_end_crlf_len(chars.as_slice());
        let line = &chars.as_slice()[0..n];
        assert(line@ =~= trim_end_crlf(value@));
        let ghost parts = split_char(line@, ' ');
        let ranges = split_ranges(line, ' ');
        proof {
            lemma_split_nonempty(line@, ' ');
        }
        let method_range = Self::validate_parameter(Some(ranges[0]), "Method")?;
        let target_range = Self::validate_parameter(
            if ranges.len() > 1 {
                Some(ranges[1])
            } else {
                None
            },
            "Target",
        )?;
        let version_range = Self::validate_parameter(
            if ranges.len() > 2 {
                Some(ranges[2])
            } else {
                None
            },
            "Version",
        )?;
        assert(line@.subrange(target_range.0 as int, target_range.1 as int) == parts[1]);
        if line[target_range.0] != '/' {
            return Err(
                HttpParseError::new(String::from_str("Request target MUST start with a '/'")),
            );
        }
        if ranges.len() > 3 {
            return Err(
                HttpParseError::new(String::from_str("Request line MUST consist of 3 parts.")),
            );
        }
        assert(chars@.subrange(method_range.0 as int, method_range.1 as int) =~= parts[0]);
        assert(chars@.subrange(version_range.0 as int, version_range.1 as int) =~= parts[2]);
        assert(chars@.subrange(target_range.0 as int, target_range.1 as int) =~= parts[1]);
        let method = HttpMethod::parse(text.substring_char(method_range.0, method_range.1))?;
        if !str_eq(text.substring_char(version_range.0, version_range.1), "HTTP/1.1") {
            let mut m = String::from_str("Only ");
            m.append("HTTP/1.1");
            m.append(" version is supported.");
            return Err(HttpParseError::new(m));
        }
        let target_chars = &line[target_range.0..target_range.1];
        assert(target_chars@ =~= parts[1]);
        let (target, query_string) = match find_char(target_chars, '?') {
            Some(q) => {
                proof {
                    crate::text::lemma_split_at_first(parts[1], '?', q as int);
                }
                let path = substring(text, target_range.0, target_range.0 + q);
                let query = substring(text, target_range.0 + q + 1, target_range.1);
                assert(path@ =~= parts[1].take(q as int));
                assert(query@ =~= parts[1].skip(q + 1));
                (path, Some(query))
            },
            None => {
                proof {
                    crate::text::lemma_split_absent(parts[1], '?');
                }
                (substring(text, target_range.0, target_range.1), None)
            },
        };
        let line = HttpRequestLine { method, target, query_string };
        assert(line@ == RequestLineView {
            method,
            target: target_path(parts[1]),
            query_string: target_query(parts[1]),
        });
        Ok(line)
    }
}

/// One header line of a request or a response.
#[derive(Debug)]
pub struct HttpHeader {
    pub name: String,
    pub value: String,
}

/// The message for a header line without a colon.
pub open spec fn missing_colon_message() -> Seq<char> {
    "Header must contain name and value separate by a colon. Obsolete line folding is not allowed"@
}

/// How a header line is read: once the trailing CRLFs are removed, the name
/// is the text before the first colon, and must not end with a space; the
/// value is the text after it with leading and trailing spaces and tabs
/// removed, and must be neither empty nor longer than
/// `HEADER_VALUE_MAX_LENGTH` bytes in UTF-8.
pub open spec fn parse_header(s: Seq<char>) -> Result<(Seq<char>, Seq<char>), Seq<char>> {
    match split_once(trim_end_crlf(s), ':') {
        None => Err(missing_colon_message()),
        Some((name, rest)) => if name.len() > 0 && name.last() == ' ' {
            Err("Header name cannot contain trailing spaces"@)
        } else if trim_blanks(rest).len() == 0 {
            Err("Header value cannot be empty"@)
        } else if encode_utf8(trim_blanks(rest)).len() > HEADER_VALUE_MAX_LENGTH {
            Err("Header value cannot be longer than "@ + decimal(HEADER_VALUE_MAX_LENGTH as nat))
        } else {
            Ok((name, trim_blanks(rest)))
        },
    }
}

/// A header as it is written on the wire: name, colon, space, value, CRLF.
pub open spec fn header_line(name: Seq<char>, value: Seq<char>) -> Seq<char> {
    name + ": "@ + value + crlf()
}

/// A header written as `header_line` reads back as the same name and value,
/// when the name holds no colon and does not end with a space, and the value
/// is not empty, neither starts nor ends with a space or a tab, does not end
/// with CRLF, and is at most `HEADER_VALUE_MAX_LENGTH` bytes in UTF-8.
pub proof fn law_header_round_trip(name: Seq<char>, value: Seq<char>)
    requires
        forall|i: int| 0 <= i < name.len() ==> name[i] != ':',
        !(name.len() > 0 && name.last() == ' '),
        value.len() > 0,
        !is_blank(value[0]),
        !is_blank(value.last()),
        !crlf().is_suffix_of(value),
        encode_utf8(value).len() <= HEADER_VALUE_MAX_LENGTH,
    ensures
        parse_header(header_line(name, value)) == Ok::<(Seq<char>, Seq<char>), Seq<char>>(
            (name, value),
        ),
{
    reveal_strlit(": ");
    let s = header_line(name, value);
    let t = name + ": "@ + value;
    assert(s.take(s.len() - 2) =~= t);
    assert(s[s.len() - 2] == '\r' && s[s.len() - 1] == '\n');
    if value.len() >= 2 {
        assert(t[t.len() - 2] == value[value.len() - 2]);
        assert(t[t.len() - 1] == value[value.len() - 1]);
        if t[t.len() - 2] == '\r' && t[t.len() - 1] == '\n' {
            assert(crlf() =~= value.subrange(value.len() - 2, value.len() as int));
        }
    } else {
        assert(t[t.len() - 2] == ' ');
    }
    assert(trim_end_crlf(t) == t);
    assert(trim_end_crlf(s) == t);
    let k = name.len() as int;
    assert(is_first_index(t, ':', k));
    lemma_split_at_first(t, ':', k);
    assert(t.take(k) =~= name);
    let rest = t.skip(k + 1);
    assert(rest =~= seq![' '] + value);
    assert(rest.drop_first() =~= value);
    assert(trim_start_blanks(rest) == trim_start_blanks(value));
    assert(trim_start_blanks(value) == value);
    assert(trim_end_blanks(value) == value);
}

impl HttpHeader {
    /// A header with the given name and value.
    pub fn new(name: &str, value: &str) -> (h: Self)
        ensures
            h.name@ == name@,
            h.value@ == value@,
    {
        HttpHeader { name: String::from_str(name), value: String::from_str(value) }
    }

    /// Reads a header line, as `parse_header` describes.
    pub fn parse(value: String) -> (r: Result<HttpHeader, HttpParseError>)
        ensures
            match r {
                Ok(h) => parse_header(value@) == Ok::<(Seq<char>, Seq<char>), Seq<char>>(
                    (h.name@, h.value@),
                ),
                Err(e) => parse_header(value@) == Err::<(Seq<char>, Seq<char>), Seq<char>>(e@),
            },
    {
        let text = value.as_str();
        let chars = chars_of(text);
        let n = trim_end_crlf_len(chars.as_slice());
        let line = &chars.as_slice()[0..n];
        assert(line@ =~= trim_end_crlf(value@));
        let colon = match find_char(line, ':') {
            Some(i) => i,
            None => {
                proof {
                    crate::text::lemma_split_absent(line@, ':');
                }
                return Err(
                    HttpParseError::new(
                        String::from_str(
                            "Header must contain name and value separate by a colon. Obsolete line folding is not allowed",
                        ),
                    ),
                );
            },
        };
        proof {
            crate::text::lemma_split_at_first(line@, ':', colon as int);
        }
        let ghost name = line@.take(colon as int);
        let ghost rest = line@.skip(colon + 1);
        if colon > 0 && line[colon - 1] == ' ' {
            return Err(
                HttpParseError::new(String::from_str("Header name cannot contain trailing spaces")),
            );
        }
        assert(!(name.len() > 0 && name.last() == ' '));
        let rest_chars = &line[colon + 1..n];
        assert(rest_chars@ =~= rest);
        let (lo, hi) = trim_blanks_range(rest_chars);
        if lo == hi {
            return Err(HttpParseError::new(String::from_str("Header value cannot be empty")));
        }
        let start = colon + 1 + lo;
        let end = colon + 1 + hi;
        assert(chars@.subrange(start as int, end as int) =~= trim_blanks(rest));
        let value_chars = &chars.as_slice()[start..end];
        if utf8_len_exceeds(value_chars, HEADER_VALUE_MAX_LENGTH) {
            let mut m = String::from_str("Header value cannot be longer than ");
            let limit = decimal_string(HEADER_VALUE_MAX_LENGTH);
            m.append(limit.as_str());
            return Err(HttpParseError::new(m));
        }
        let header_name = substring(text, 0, colon);
        assert(header_name@ =~= name);
        Ok(HttpHeader { name: header_name, value: substring(text, start, end) })
    }

    /// Appends this header as it is written on the wire to `out`.
    pub fn append_to(&self, out: &mut String)
        ensures
            final(out)@ == old(out)@ + header_line(self.name@, self.value@),
    {
        out.append(self.name.as_str());
        out.append(": ");
        out.append(self.value.as_str());
        out.append("\r\n");
        proof {
            reveal_strlit("\r\n");
        }
        assert(final(out)@ =~= old(out)@ + header_line(self.name@, self.value@));
    }

    /// This header as it is written on the wire, as bytes.
    pub fn into_bytes(self) -> (b: Vec<u8>)
        ensures
            b@ == encode_utf8(header_line(self.name@, self.value@)),
    {
        let mut s = String::new();
        self.append_to(&mut s);
        assert(s@ =~= header_line(self.name@, self.value@));
        s.as_str().as_bytes_vec()
    }
}

} // verus!
