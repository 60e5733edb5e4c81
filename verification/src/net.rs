//! HTTP details the clients share: status codes, and the checks a header must
//! pass before it can be sent.
use vstd::prelude::*;

use crate::chat::mcp::Headers;
use crate::storage::pair_texts;
use crate::text::concat;
use crate::chat::agent::decimal;
use vstd::utf8::encode_utf8;

verus! {

/// Whether an HTTP status code reports success (`StatusCode::is_success`:
/// 200 to 299).
pub open spec fn is_success(code: u16) -> bool {
    200 <= code < 300
}

/// Whether an HTTP status code reports success.
pub fn status_is_success(code: u16) -> (r: bool)
    ensures
        r == is_success(code),
{
    200 <= code && code < 300
}

/// What `http::StatusCode`'s `Display` prints for a valid code.
pub uninterp spec fn spec_status_line(code: u16) -> Seq<char>;

/// Prints the status code `code` as `http::StatusCode`'s `Display` does (the
/// code, a space and its canonical reason, or a note that it has none); the
/// contract names the text and states that it starts with the code.
#[verifier::external_body]
pub(crate) fn status_line(code: u16) -> (r: String)
    requires
        100 <= code <= 999,
    ensures
        r@ == spec_status_line(code),
        r@.len() >= 4,
        r@.subrange(0, 4) == decimal(code as nat) + " "@,
{
    match http::StatusCode::from_u16(code) {
        Ok(status) => status.to_string(),
        Err(_) => String::new(),
    }
}

/// Whether `http::HeaderName::from_bytes` accepts the bytes of a name.
pub uninterp spec fn spec_header_name_ok(name: Seq<char>) -> bool;

/// Whether a header value can be sent: every byte is visible (32 or more, but
/// not 127) or a tab, as `http::HeaderValue::from_str` requires.
pub open spec fn header_value_ok(value: Seq<char>) -> bool {
    forall|i: int|
        0 <= i < encode_utf8(value).len() ==> {
            let b = #[trigger] encode_utf8(value)[i];
            (b >= 32 && b != 127) || b == 9
        }
}

/// A text with its ASCII capital letters made small.
pub open spec fn ascii_lower(s: Seq<char>) -> Seq<char> {
    s.map_values(|c: char| if 'A' <= c <= 'Z' { ((c as int) + 32) as char } else { c })
}

/// Parses a header name with `http::HeaderName::from_bytes` and prints it. The
/// contract names whether the name is accepted; an accepted name prints in
/// lowercase (`from_bytes` maps each byte through its table, which makes
/// capitals small and keeps the other characters a name may hold), and the
/// error's text is fixed.
#[verifier::external_body]
fn parse_header_name(name: &str) -> (r: Result<String, String>)
    ensures
        r is Ok <==> spec_header_name_ok(name@),
        r matches Ok(t) ==> t@ == ascii_lower(name@),
        r matches Err(e) ==> e@ == "invalid HTTP header name"@,
{
    match http::HeaderName::from_bytes(name.as_bytes()) {
        Ok(n) => Ok(n.to_string()),
        Err(e) => Err(e.to_string()),
    }
}

/// Checks a header value with `http::HeaderValue::from_str`, which refuses
/// control bytes other than tab; the error's text is fixed.
#[verifier::external_body]
fn header_value_error(value: &str) -> (r: Option<String>)
    ensures
        r is None <==> header_value_ok(value@),
        r matches Some(e) ==> e@ == "failed to parse header value"@,
{
    match http::HeaderValue::from_str(value) {
        Ok(_) => None,
        Err(e) => Some(e.to_string()),
    }
}

/// The first problem with a list of headers, checked in order: a name `http`
/// refuses, or else a value it refuses (named as `http` prints the parsed
/// name, in lowercase).
pub open spec fn header_problem(headers: Seq<(Seq<char>, Seq<char>)>) -> Option<Seq<char>>
    decreases headers.len(),
{
    if headers.len() == 0 {
        None
    } else {
        let (name, value) = headers[0];
        if !spec_header_name_ok(name) {
            Some("Invalid header name '"@ + name + "': "@ + "invalid HTTP header name"@)
        } else if !header_value_ok(value) {
            Some("Invalid header value for '"@ + ascii_lower(name) + "': "@ + "failed to parse header value"@)
        } else {
            header_problem(headers.drop_first())
        }
    }
}

/// Checks the headers of a remote server before connecting.
pub fn check_headers(config_headers: &Headers) -> (r: Result<(), String>)
    ensures
        match header_problem(config_headers@) {
            Some(m) => r matches Err(e) && e@ == m,
            None => r is Ok,
        },
{
    let headers = config_headers.pairs();
    let ghost hs = pair_texts(headers@);
    let mut i: usize = 0;
    assert(hs.skip(0) =~= hs);
    while i < headers.len()
        invariant
            i <= headers.len(),
            hs == pair_texts(headers@),
            hs == config_headers@,
            header_problem(hs) == header_problem(hs.skip(i as int)),
        decreases headers.len() - i,
    {
        let name = &headers[i].0;
        let value = &headers[i].1;
        assert(hs.skip(i as int)[0] == (name@, value@));
        assert(hs.skip(i as int).drop_first() =~= hs.skip(i + 1));
        let parsed = match parse_header_name(name.as_str()) {
            Ok(n) => n,
            Err(e) => {
                let mut m = concat("Invalid header name '", name.as_str());
                m.append("': ");
                m.append(e.as_str());
                return Err(m);
            },
        };
        match header_value_error(value.as_str()) {
            Some(e) => {
                let mut m = concat("Invalid header value for '", parsed.as_str());
                m.append("': ");
                m.append(e.as_str());
                return Err(m);
            },
            None => {},
        }
        i = i + 1;
    }
    assert(hs.skip(i as int) =~= Seq::<(Seq<char>, Seq<char>)>::empty());
    Ok(())
}

/// The error for a reply with a failing status: `{what} {status}`.
pub fn status_error(what: &str, code: u16) -> (r: String)
    requires
        100 <= code <= 999,
    ensures
        r@ == what@ + " "@ + spec_status_line(code),
{
    let mut r = concat(what, " ");
    r.append(status_line(code).as_str());
    r
}

} // verus!
