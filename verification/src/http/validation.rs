use vstd::prelude::*;
use vstd::string::*;

use super::errors::HttpValidationError;
use super::request::HttpHeader;
use crate::text::{
    chars_of, decimal, eq_ignore_ascii_case, eq_ignore_case, find_char, is_first_index,
    law_parse_decimal, lemma_split_absent, lemma_split_at_first, parse_unsigned,
    parse_unsigned_exec, split_once, starts_with, str_eq,
};

verus! {

/// A header as a pair of its name and its value.
pub type HeaderView = (Seq<char>, Seq<char>);

/// The headers of a list as name/value pairs, in order.
pub open spec fn header_views(hs: Seq<HttpHeader>) -> Seq<HeaderView> {
    hs.map_values(|h: HttpHeader| (h.name@, h.value@))
}

/// `i` is the first position in `hs` whose header satisfies `p`.
pub open spec fn is_first_where(hs: Seq<HeaderView>, p: spec_fn(HeaderView) -> bool, i: int) -> bool {
    &&& 0 <= i < hs.len()
    &&& p(hs[i])
    &&& forall|j: int| 0 <= j < i ==> !p(#[trigger] hs[j])
}

/// The first position in `hs` whose header satisfies `p`, if any.
pub open spec fn first_where(hs: Seq<HeaderView>, p: spec_fn(HeaderView) -> bool) -> Option<int> {
    if exists|i: int| is_first_where(hs, p, i) {
        Some(choose|i: int| is_first_where(hs, p, i))
    } else {
        None
    }
}

/// The number of headers in `hs` that satisfy `p`.
pub open spec fn count_where(hs: Seq<HeaderView>, p: spec_fn(HeaderView) -> bool) -> nat
    decreases hs.len(),
{
    if hs.len() == 0 {
        0
    } else {
        count_where(hs.drop_last(), p) + if p(hs.last()) {
            1nat
        } else {
            0nat
        }
    }
}

/// Headers whose name is `name`, ignoring the case of ASCII letters.
pub open spec fn named(name: Seq<char>) -> spec_fn(HeaderView) -> bool {
    |h: HeaderView| eq_ignore_ascii_case(h.0, name)
}

/// Headers this server refuses, by their exact name.
pub open spec fn unsupported_header() -> spec_fn(HeaderView) -> bool {
    |h: HeaderView| h.0 == "Transfer-Encoding"@ || h.0 == "Connection"@ || h.0 == "Upgrade"@
}

/// The rule on the value of the `Host` header: it starts with `localhost` or
/// `127.0.0.1`; a port after the first colon, if any, is `port`; without one,
/// `port` is 80.
pub open spec fn host_value_rule(v: Seq<char>, port: u16) -> Result<(), Seq<char>> {
    if !("localhost"@.is_prefix_of(v) || "127.0.0.1"@.is_prefix_of(v)) {
        Err("Host MUST be either localhost or 127.0.0.1"@)
    } else {
        match split_once(v, ':') {
            Some((_, p)) => match parse_unsigned(p, 65535) {
                Some(n) => if n != port as nat {
                    Err("Incorrect port"@)
                } else {
                    Ok(())
                },
                None => Err(Seq::<char>::empty()),
            },
            None => if port != 80 {
                Err("Incorrect port"@)
            } else {
                Ok(())
            },
        }
    }
}

/// A `Host` value naming this machine by `localhost` or `127.0.0.1`, with the
/// server's port after a colon, is accepted; so is one without a port when
/// the server listens on port 80.
pub proof fn law_local_host_accepted(port: u16)
    ensures
        host_value_rule("localhost"@ + ":"@ + decimal(port as nat), port) is Ok,
        host_value_rule("127.0.0.1"@ + ":"@ + decimal(port as nat), port) is Ok,
        port == 80 ==> host_value_rule("localhost"@, port) is Ok,
        port == 80 ==> host_value_rule("127.0.0.1"@, port) is Ok,
{
    reveal_strlit("localhost");
    reveal_strlit("127.0.0.1");
    reveal_strlit(":");
    law_parse_decimal(port as nat, 65535);
    let names = seq!["localhost"@, "127.0.0.1"@];
    assert forall|k: int| 0 <= k < 2 implies ({
        let name = #[trigger] names[k];
        &&& host_value_rule(name + ":"@ + decimal(port as nat), port) is Ok
        &&& (port == 80 ==> host_value_rule(name, port) is Ok)
    }) by {
        let name = names[k];
        let v = name + ":"@ + decimal(port as nat);
        assert(name.is_prefix_of(v));
        assert(is_first_index(v, ':', 9));
        lemma_split_at_first(v, ':', 9);
        assert(v.skip(10) =~= decimal(port as nat));
        assert(name.is_prefix_of(name));
        lemma_split_absent(name, ':');
    }
    assert(names[0] == "localhost"@);
    assert(names[1] == "127.0.0.1"@);
}

/// A `Host` value naming this machine with a port other than the server's
/// is refused as the wrong port; so is one without a port when the server
/// does not listen on port 80.
pub proof fn law_wrong_port_refused(n: nat, port: u16)
    requires
        n <= 65535,
        n != port,
    ensures
        host_value_rule("localhost"@ + ":"@ + decimal(n), port) == Err::<(), Seq<char>>(
            "Incorrect port"@,
        ),
        host_value_rule("127.0.0.1"@ + ":"@ + decimal(n), port) == Err::<(), Seq<char>>(
            "Incorrect port"@,
        ),
        port != 80 ==> host_value_rule("localhost"@, port) == Err::<(), Seq<char>>(
            "Incorrect port"@,
        ),
        port != 80 ==> host_value_rule("127.0.0.1"@, port) == Err::<(), Seq<char>>(
            "Incorrect port"@,
        ),
{
    reveal_strlit("localhost");
    reveal_strlit("127.0.0.1");
    reveal_strlit(":");
    law_parse_decimal(n, 65535);
    let names = seq!["localhost"@, "127.0.0.1"@];
    assert forall|k: int| 0 <= k < 2 implies ({
        let name = #[trigger] names[k];
        &&& host_value_rule(name + ":"@ + decimal(n), port) == Err::<(), Seq<char>>(
            "Incorrect port"@,
        )
        &&& (port != 80 ==> host_value_rule(name, port) == Err::<(), Seq<char>>(
            "Incorrect port"@,
        ))
    }) by {
        let name = names[k];
        let v = name + ":"@ + decimal(n);
        assert(name.is_prefix_of(v));
        assert(is_first_index(v, ':', 9));
        lemma_split_at_first(v, ':', 9);
        assert(v.skip(10) =~= decimal(n));
        assert(name.is_prefix_of(name));
        lemma_split_absent(name, ':');
    }
    assert(names[0] == "localhost"@);
    assert(names[1] == "127.0.0.1"@);
}

/// The rule on `Host` headers: exactly one, and its value obeys `host_value_rule`.
pub open spec fn host_rule(hs: Seq<HeaderView>, port: u16) -> Result<(), Seq<char>> {
    if count_where(hs, named("Host"@)) > 1 {
        Err("Only one 'Host' header is allowed"@)
    } else {
        match first_where(hs, named("Host"@)) {
            None => Err("Host header is required"@),
            Some(i) => host_value_rule(hs[i].1, port),
        }
    }
}

/// The rule that no header is one this server does not support.
pub open spec fn unsupported_rule(hs: Seq<HeaderView>) -> Result<(), Seq<char>> {
    match first_where(hs, unsupported_header()) {
        Some(i) => Err(hs[i].0 + " is NOT supported"@),
        None => Ok(()),
    }
}

/// The first `Content-Type` header, whatever the case of its name, unless it
/// is spelled exactly `Content-Type` and its value is not `application/json`.
pub open spec fn content_type_lookup(hs: Seq<HeaderView>) -> Result<Option<int>, Seq<char>> {
    match first_where(hs, named("Content-Type"@)) {
        Some(i) => if hs[i].0 == "Content-Type"@ && hs[i].1 != "application/json"@ {
            Err("Only 'application/json' is supported for 'Content-Type'"@)
        } else {
            Ok(Some(i))
        },
        None => Ok(None),
    }
}

/// The rule on `Content-Type` headers, as `content_type_lookup` gives it.
pub open spec fn content_type_rule(hs: Seq<HeaderView>) -> Result<(), Seq<char>> {
    match content_type_lookup(hs) {
        Ok(_) => Ok(()),
        Err(e) => Err(e),
    }
}

/// The position of the first `Content-Length` header, whatever the case of
/// its name.
pub open spec fn content_length_lookup(hs: Seq<HeaderView>) -> Option<int> {
    first_where(hs, named("Content-Length"@))
}

/// All rules on the headers of a request, checked in order: `Host`,
/// unsupported headers, `Content-Type`.
pub open spec fn headers_rule(hs: Seq<HeaderView>, port: u16) -> Result<(), Seq<char>> {
    match host_rule(hs, port) {
        Err(e) => Err(e),
        Ok(_) => match unsupported_rule(hs) {
            Err(e) => Err(e),
            Ok(_) => content_type_rule(hs),
        },
    }
}

/// A validation result that matches a rule.
pub open spec fn matches_rule(r: Result<(), HttpValidationError>, rule: Result<(), Seq<char>>) -> bool {
    match r {
        Ok(_) => rule is Ok,
        Err(e) => rule == Err::<(), Seq<char>>(e@),
    }
}

/// A lookup result that matches a rule.
pub open spec fn matches_lookup(
    hs: Seq<HttpHeader>,
    r: Result<Option<&HttpHeader>, HttpValidationError>,
    rule: Result<Option<int>, Seq<char>>,
) -> bool {
    match r {
        Ok(Some(h)) => rule matches Ok(Some(i)) && 0 <= i < hs.len() && *h == hs[i],
        Ok(None) => rule == Ok::<Option<int>, Seq<char>>(None),
        Err(e) => rule == Err::<Option<int>, Seq<char>>(e@),
    }
}

/// The position of the first header named `name`, ignoring ASCII case.
fn find_named(headers: &[HttpHeader], name: &str) -> (r: Option<usize>)
    ensures
        match r {
            Some(i) => is_first_where(header_views(headers@), named(name@), i as int),
            None => first_where(header_views(headers@), named(name@)) is None,
        },
{
    let ghost hs = header_views(headers@);
    let mut i: usize = 0;
    while i < headers.len()
        invariant
            hs == header_views(headers@),
            i <= headers@.len(),
            forall|j: int| 0 <= j < i ==> !named(name@)(#[trigger] hs[j]),
        decreases headers@.len() - i,
    {
        if eq_ignore_case(headers[i].name.as_str(), name) {
            assert(named(name@)(hs[i as int]));
            return Some(i);
        }
        i = i + 1;
    }
    assert(!exists|k: int| is_first_where(hs, named(name@), k));
    None
}

/// Facts about `first_where` at a known first position.
pub proof fn lemma_first_where(hs: Seq<HeaderView>, p: spec_fn(HeaderView) -> bool, i: int)
    requires
        is_first_where(hs, p, i),
    ensures
        first_where(hs, p) == Some(i),
{
    let k = choose|k: int| is_first_where(hs, p, k);
    if k < i {
        assert(!p(hs[k]));
    } else if i < k {
        assert(!p(hs[i]));
    }
}

/// A position whose header satisfies `p` makes `first_where` find one, at
/// that position or before it.
pub proof fn lemma_first_where_some(hs: Seq<HeaderView>, p: spec_fn(HeaderView) -> bool, i: int)
    requires
        0 <= i < hs.len(),
        p(hs[i]),
    ensures
        first_where(hs, p) matches Some(k) && is_first_where(hs, p, k) && k <= i,
    decreases i,
{
    if exists|j: int| 0 <= j < i && p(#[trigger] hs[j]) {
        let j = choose|j: int| 0 <= j < i && p(#[trigger] hs[j]);
        lemma_first_where_some(hs, p, j);
    } else {
        lemma_first_where(hs, p, i);
    }
}

/// A position whose header satisfies `p` is counted.
proof fn lemma_count_where_positive(hs: Seq<HeaderView>, p: spec_fn(HeaderView) -> bool, i: int)
    requires
        0 <= i < hs.len(),
        p(hs[i]),
    ensures
        count_where(hs, p) >= 1,
    decreases hs.len(),
{
    if i < hs.len() - 1 {
        assert(hs.drop_last()[i] == hs[i]);
        lemma_count_where_positive(hs.drop_last(), p, i);
    }
}

/// A request passes the `Host` rule only with exactly one `Host` header,
/// whatever the case of its name, whose value starts with `localhost` or
/// `127.0.0.1`.
pub proof fn law_host_must_be_local(hs: Seq<HeaderView>, port: u16)
    ensures
        host_rule(hs, port) is Ok ==> count_where(hs, named("Host"@)) == 1,
        host_rule(hs, port) is Ok ==> exists|i: int|
            #![trigger hs[i]]
            is_first_where(hs, named("Host"@), i) && ("localhost"@.is_prefix_of(hs[i].1)
                || "127.0.0.1"@.is_prefix_of(hs[i].1)),
{
    if host_rule(hs, port) is Ok {
        let i = first_where(hs, named("Host"@))->0;
        assert(is_first_where(hs, named("Host"@), i));
        lemma_count_where_positive(hs, named("Host"@), i);
    }
}

/// A request without a `Host` header is refused as missing one, and one with
/// two or more `Host` headers (whatever the case of their names) as having
/// too many, whatever their values.
pub proof fn law_host_header_count(hs: Seq<HeaderView>, port: u16)
    ensures
        count_where(hs, named("Host"@)) == 0 ==> host_rule(hs, port) == Err::<(), Seq<char>>(
            "Host header is required"@,
        ),
        count_where(hs, named("Host"@)) > 1 ==> host_rule(hs, port) == Err::<(), Seq<char>>(
            "Only one 'Host' header is allowed"@,
        ),
{
    if first_where(hs, named("Host"@)) is Some {
        let i = first_where(hs, named("Host"@))->0;
        assert(is_first_where(hs, named("Host"@), i));
        lemma_count_where_positive(hs, named("Host"@), i);
    }
}

/// A single `Host` header whose value starts with neither `localhost` nor
/// `127.0.0.1` is refused with the same message, whether or not the value
/// names a port, and whatever port the server listens on.
pub proof fn law_foreign_host_refused(hs: Seq<HeaderView>, port: u16, i: int)
    requires
        is_first_where(hs, named("Host"@), i),
        count_where(hs, named("Host"@)) <= 1,
        !"localhost"@.is_prefix_of(hs[i].1),
        !"127.0.0.1"@.is_prefix_of(hs[i].1),
    ensures
        host_rule(hs, port) == Err::<(), Seq<char>>("Host MUST be either localhost or 127.0.0.1"@),
{
    lemma_first_where(hs, named("Host"@), i);
}

/// The number of headers named `name`, ignoring ASCII case.
fn count_named(headers: &[HttpHeader], name: &str) -> (n: usize)
    ensures
        n == count_where(header_views(headers@), named(name@)),
{
    let ghost hs = header_views(headers@);
    let mut n: usize = 0;
    let mut i: usize = 0;
    assert(hs.take(0) =~= Seq::<HeaderView>::empty());
    while i < headers.len()
        invariant
            hs == header_views(headers@),
            i <= headers@.len(),
            n <= i,
            n == count_where(hs.take(i as int), named(name@)),
        decreases headers@.len() - i,
    {
        assert(hs.take(i + 1).drop_last() =~= hs.take(i as int));
        assert(hs.take(i + 1).last() == hs[i as int]);
        if eq_ignore_case(headers[i].name.as_str(), name) {
            n = n + 1;
        }
        i = i + 1;
    }
    assert(hs.take(i as int) =~= hs);
    n
}

/// Checks the `Host` header against `host_rule`.
pub fn validate_host_header(headers: &[HttpHeader], port: u16) -> (r: Result<(), HttpValidationError>)
    ensures
        matches_rule(r, host_rule(header_views(headers@), port)),
{
    let ghost hs = header_views(headers@);
    if count_named(headers, "Host") > 1 {
        return Err(HttpValidationError::new(String::from_str("Only one 'Host' header is allowed")));
    }
    let i = match find_named(headers, "Host") {
        Some(i) => i,
        None => {
            return Err(HttpValidationError::new(String::from_str("Host header is required")));
        },
    };
    proof {
        lemma_first_where(hs, named("Host"@), i as int);
    }
    let value = chars_of(headers[i].value.as_str());
    assert(value@ == hs[i as int].1);
    let localhost = chars_of("localhost");
    let loopback = chars_of("127.0.0.1");
    if !starts_with(value.as_slice(), localhost.as_slice()) && !starts_with(
        value.as_slice(),
        loopback.as_slice(),
    ) {
        return Err(
            HttpValidationError::new(
                String::from_str("Host MUST be either localhost or 127.0.0.1"),
            ),
        );
    }
    match find_char(value.as_slice(), ':') {
        Some(c) => {
            proof {
                crate::text::lemma_split_at_first(value@, ':', c as int);
            }
            assert(c < value.len());
            let p = &value.as_slice()[c + 1..value.len()];
            assert(p@ =~= value@.skip(c + 1));
            match parse_unsigned_exec(p, 65535) {
                Some(n) => {
                    if n != port as u64 {
                        return Err(HttpValidationError::new(String::from_str("Incorrect port")));
                    }
                    Ok(())
                },
                None => {
                    proof {
                        reveal_strlit("");
                    }
                    Err(HttpValidationError::new(String::new()))
                },
            }
        },
        None => {
            proof {
                crate::text::lemma_split_absent(value@, ':');
            }
            if port != 80 {
                return Err(HttpValidationError::new(String::from_str("Incorrect port")));
            }
            Ok(())
        },
    }
}

/// Whether `name` is the exact name of a header this server refuses.
fn is_unsupported_name(name: &str) -> (b: bool)
    ensures
        b == (name@ == "Transfer-Encoding"@ || name@ == "Connection"@ || name@ == "Upgrade"@),
{
    str_eq(name, "Transfer-Encoding") || str_eq(name, "Connection") || str_eq(name, "Upgrade")
}

/// Checks that no header is one this server does not support.
pub fn validate_unsupported_headers(headers: &[HttpHeader]) -> (r: Result<(), HttpValidationError>)
    ensures
        matches_rule(r, unsupported_rule(header_views(headers@))),
{
    let ghost hs = header_views(headers@);
    let mut i: usize = 0;
    while i < headers.len()
        invariant
            hs == header_views(headers@),
            i <= headers@.len(),
            forall|j: int| 0 <= j < i ==> !unsupported_header()(#[trigger] hs[j]),
        decreases headers@.len() - i,
    {
        if is_unsupported_name(headers[i].name.as_str()) {
            assert(unsupported_header()(hs[i as int]));
            proof {
                lemma_first_where(hs, unsupported_header(), i as int);
            }
            let mut m = headers[i].name.clone();
            m.append(" is NOT supported");
            return Err(HttpValidationError::new(m));
        }
        i = i + 1;
    }
    assert(!exists|k: int| is_first_where(hs, unsupported_header(), k));
    Ok(())
}

/// The `Content-Type` header of a request, checked as `content_type_lookup` says.
pub fn validate_content_type(headers: &[HttpHeader]) -> (r: Result<
    Option<&HttpHeader>,
    HttpValidationError,
>)
    ensures
        matches_lookup(headers@, r, content_type_lookup(header_views(headers@))),
{
    let ghost hs = header_views(headers@);
    match find_named(headers, "Content-Type") {
        Some(i) => {
            proof {
                lemma_first_where(hs, named("Content-Type"@), i as int);
            }
            let header = &headers[i];
            if str_eq(header.name.as_str(), "Content-Type") && !str_eq(
                header.value.as_str(),
                "application/json",
            ) {
                return Err(
                    HttpValidationError::new(
                        String::from_str("Only 'application/json' is supported for 'Content-Type'"),
                    ),
                );
            }
            Ok(Some(header))
        },
        None => Ok(None),
    }
}

/// Checks the `Content-Type` header against `content_type_rule`.
pub fn validate_content_type_header(headers: &[HttpHeader]) -> (r: Result<(), HttpValidationError>)
    ensures
        matches_rule(r, content_type_rule(header_views(headers@))),
{
    match validate_content_type(headers) {
        Ok(_) => Ok(()),
        Err(e) => Err(e),
    }
}

/// The first `Content-Length` header of a request, whatever the case of its
/// name, as `content_length_lookup` says.
pub fn validate_content_length(headers: &[HttpHeader]) -> (r: Option<&HttpHeader>)
    ensures
        match r {
            Some(h) => content_length_lookup(header_views(headers@)) matches Some(i) && 0 <= i
                < headers@.len() && *h == headers@[i],
            None => content_length_lookup(header_views(headers@)) is None,
        },
{
    let ghost hs = header_views(headers@);
    match find_named(headers, "Content-Length") {
        Some(i) => {
            proof {
                lemma_first_where(hs, named("Content-Length"@), i as int);
            }
            Some(&headers[i])
        },
        None => None,
    }
}

/// Checks the headers of a request against `headers_rule`.
pub fn validate_headers(headers: &[HttpHeader], port: u16) -> (r: Result<(), HttpValidationError>)
    ensures
        matches_rule(r, headers_rule(header_views(headers@), port)),
{
    validate_host_header(headers, port)?;
    validate_unsupported_headers(headers)?;
    validate_content_type_header(headers)?;
    Ok(())
}

} // verus!
