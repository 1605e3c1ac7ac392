//! Turning the head of a Poem request and its body into the parts of a
//! better-auth `AuthRequest`.

use vstd::prelude::*;
use vstd::string::StringSliceAdditionalSpecFns;
use vstd::string::StringExecFns;
use poem::http::header::HeaderMap;
use better_auth_core::{AuthError, AuthRequest};
use crate::auth::{
    AuthMethod, auth_request_from_parts, bad_request_error, error_json, error_status, error_text,
    invalid_request_error, opt_bytes, payload_too_large_error, request_body, request_headers,
    request_method, request_path, request_query,
};
use crate::response::{ResponseParts, auth_error_to_poem, json_content_type};
use crate::headers::{ascii_lower, first_value, header_entries, header_map_entries, header_map_get};
use crate::pairs::{last_value_wins, pairs_to_map, string_pairs, unique_keys};
use crate::query::{parse_query_pairs, query_pairs};
use vstd::utf8::{decode_utf8, valid_utf8};
use crate::text::{
    all_visible_ascii, check_visible_ascii, chars_contain,
    decimal_digits, decimal_string, lowercase, lowercase_chars, same_text, seq_contains, utf8_string,
};

verus! {

/// The better-auth method of a request method, if it has one.
pub open spec fn method_for(m: Seq<char>) -> Option<AuthMethod> {
    if m == "GET"@ {
        Some(AuthMethod::Get)
    } else if m == "POST"@ {
        Some(AuthMethod::Post)
    } else if m == "PUT"@ {
        Some(AuthMethod::Put)
    } else if m == "DELETE"@ {
        Some(AuthMethod::Delete)
    } else if m == "PATCH"@ {
        Some(AuthMethod::Patch)
    } else if m == "OPTIONS"@ {
        Some(AuthMethod::Options)
    } else if m == "HEAD"@ {
        Some(AuthMethod::Head)
    } else {
        None
    }
}

/// Maps a request method (its text, as `Method::as_str` gives it) to the
/// better-auth method; the other methods have none.
pub fn auth_method(method: &str) -> (r: Option<AuthMethod>)
    ensures
        r == method_for(method@),
{
    if same_text(method, "GET") {
        Some(AuthMethod::Get)
    } else if same_text(method, "POST") {
        Some(AuthMethod::Post)
    } else if same_text(method, "PUT") {
        Some(AuthMethod::Put)
    } else if same_text(method, "DELETE") {
        Some(AuthMethod::Delete)
    } else if same_text(method, "PATCH") {
        Some(AuthMethod::Patch)
    } else if same_text(method, "OPTIONS") {
        Some(AuthMethod::Options)
    } else if same_text(method, "HEAD") {
        Some(AuthMethod::Head)
    } else {
        None
    }
}

/// An ASCII decimal digit.
pub open spec fn is_digit(b: u8) -> bool {
    0x30 <= b && b <= 0x39
}

/// The value of a string of decimal digits.
pub open spec fn decimal_value(d: Seq<u8>) -> nat
    decreases d.len(),
{
    if d.len() == 0 {
        0
    } else {
        decimal_value(d.drop_last()) * 10 + (d.last() - 0x30) as nat
    }
}

/// The digits of an unsigned number: the text without one leading `+`.
pub open spec fn unsigned_digits(b: Seq<u8>) -> Seq<u8> {
    if b.len() > 0 && b[0] == 0x2b {
        b.skip(1)
    } else {
        b
    }
}

/// What `str::parse::<usize>` gives: an optional `+` followed by at least one
/// digit and nothing else, with a value that fits in a `usize`.
pub open spec fn parsed_usize(b: Seq<u8>) -> Option<nat> {
    let d = unsigned_digits(b);
    if d.len() > 0 && (forall|i: int| 0 <= i < d.len() ==> is_digit(#[trigger] d[i]))
        && decimal_value(d) <= usize::MAX {
        Some(decimal_value(d))
    } else {
        None
    }
}

proof fn lemma_decimal_value_grows(d: Seq<u8>, k: int)
    requires
        0 <= k <= d.len(),
        forall|i: int| 0 <= i < d.len() ==> is_digit(#[trigger] d[i]),
    ensures
        decimal_value(d.take(k)) <= decimal_value(d),
    decreases d.len(),
{
    if k < d.len() {
        let e = d.drop_last();
        assert(d.take(k) =~= e.take(k));
        lemma_decimal_value_grows(e, k);
    } else {
        assert(d.take(k) =~= d);
    }
}

/// Parses an unsigned decimal number as `str::parse::<usize>` does.
pub fn parse_usize(b: &[u8]) -> (r: Option<usize>)
    ensures
        match r {
            Some(v) => parsed_usize(b@) == Some(v as nat),
            None => parsed_usize(b@) is None,
        },
{
    let start: usize = if b.len() > 0 && b[0] == 0x2b { 1 } else { 0 };
    let ghost d = unsigned_digits(b@);
    assert(d =~= b@.skip(start as int));
    if start == b.len() {
        return None;
    }
    let mut value: usize = 0;
    let mut i = start;
    assert(d.take(0) =~= Seq::<u8>::empty());
    while i < b.len()
        invariant
            start <= i <= b@.len(),
            d == b@.skip(start as int),
            d == unsigned_digits(b@),
            forall|k: int| 0 <= k < i - start ==> is_digit(#[trigger] d[k]),
            value as nat == decimal_value(d.take(i - start)),
        decreases b@.len() - i,
    {
        let c = b[i];
        if !(0x30 <= c && c <= 0x39) {
            assert(!is_digit(d[i - start]));
            return None;
        }
        let ghost next = d.take(i + 1 - start);
        assert(next.drop_last() =~= d.take(i - start));
        assert(next.last() == c);
        let digit = (c - 0x30) as usize;
        match value.checked_mul(10) {
            Some(m) => match m.checked_add(digit) {
                Some(v) => {
                    value = v;
                },
                None => {
                    proof {
                        finish_overflow(b@, d, start as int, i as int);
                    }
                    return None;
                },
            },
            None => {
                proof {
                    finish_overflow(b@, d, start as int, i as int);
                }
                return None;
            },
        }
        i = i + 1;
    }
    assert(d.take(b@.len() - start) =~= d);
    Some(value)
}

/// Once a prefix of the digits is too large, the number does not parse.
proof fn finish_overflow(b: Seq<u8>, d: Seq<u8>, start: int, i: int)
    requires
        0 <= start <= i < b.len(),
        d == b.skip(start),
        d == unsigned_digits(b),
        forall|k: int| 0 <= k <= i - start ==> is_digit(#[trigger] d[k]),
        decimal_value(d.take(i + 1 - start)) > usize::MAX,
    ensures
        parsed_usize(b) is None,
{
    if d.len() > 0 && (forall|k: int| 0 <= k < d.len() ==> is_digit(#[trigger] d[k])) {
        lemma_decimal_value_grows(d, i + 1 - start);
    }
}

/// The header entries whose values are valid UTF-8, values decoded, in map
/// order; the others are dropped.
pub open spec fn text_headers(entries: Seq<(Seq<char>, Seq<u8>)>) -> Seq<(Seq<char>, Seq<char>)>
    decreases entries.len(),
{
    if entries.len() == 0 {
        seq![]
    } else {
        let p = text_headers(entries.drop_last());
        let e = entries.last();
        if valid_utf8(e.1) {
            p.push((e.0, decode_utf8(e.1)))
        } else {
            p
        }
    }
}

/// The body length that the first `content-length` header declares, if its
/// value is text that parses as a `usize`.
pub open spec fn declared_length(entries: Seq<(Seq<char>, Seq<u8>)>) -> Option<nat> {
    match first_value(entries, "content-length"@) {
        Some(v) => if all_visible_ascii(v) {
            parsed_usize(v)
        } else {
            None
        },
        None => None,
    }
}

/// The declared body length exceeds the limit.
pub open spec fn declared_too_large(entries: Seq<(Seq<char>, Seq<u8>)>, limit: usize) -> bool {
    declared_length(entries) matches Some(n) && n > limit
}

/// The pairs of the query string, if there is one.
pub open spec fn query_of(query: Option<Seq<u8>>) -> Seq<(Seq<char>, Seq<char>)> {
    match query {
        Some(q) => query_pairs(q),
        None => seq![],
    }
}

/// Why a request cannot be handed to better-auth.
#[derive(Clone, Copy, Debug, PartialEq, Eq, Structural)]
pub enum RequestError {
    /// The method is none of those better-auth routes on.
    UnsupportedMethod,
    /// The body is, or declares to be, longer than the limit.
    PayloadTooLarge { limit: usize },
    /// The body could not be read.
    UnreadableBody,
}

/// The status of the better-auth error for a request error: 400 for an
/// unsupported method or an unreadable body, 413 for a body over the limit.
pub open spec fn request_error_status(e: RequestError) -> u16 {
    match e {
        RequestError::UnsupportedMethod => 400,
        RequestError::PayloadTooLarge { .. } => 413,
        RequestError::UnreadableBody => 400,
    }
}

/// The text of the better-auth error for a request error: an invalid request
/// shows `Invalid request: ` before the message, the others the message.
pub open spec fn request_error_text(e: RequestError) -> Seq<char> {
    match e {
        RequestError::UnsupportedMethod => "Invalid request: "@ + request_error_message(e),
        _ => request_error_message(e),
    }
}

/// The message of a request error.
pub open spec fn request_error_message(e: RequestError) -> Seq<char> {
    match e {
        RequestError::UnsupportedMethod => "Unsupported HTTP method"@,
        RequestError::PayloadTooLarge { limit } => "Request body exceeds the "@ + decimal_digits(
            limit as nat,
        ) + "-byte limit"@,
        RequestError::UnreadableBody => "Failed to read request body"@,
    }
}

impl RequestError {
    /// The message that the better-auth error carries.
    pub fn message(&self) -> (r: String)
        ensures
            r@ == request_error_message(*self),
    {
        match self {
            RequestError::UnsupportedMethod => String::from_str("Unsupported HTTP method"),
            RequestError::PayloadTooLarge { limit } => {
                let mut s = String::from_str("Request body exceeds the ");
                let digits = decimal_string(*limit);
                s.append(digits.as_str());
                s.append("-byte limit");
                s
            },
            RequestError::UnreadableBody => String::from_str("Failed to read request body"),
        }
    }

    /// The better-auth error: `InvalidRequest` for an unsupported method,
    /// `payload_too_large` and `bad_request` for the body, each with the
    /// message of [`RequestError::message`].
    pub fn into_auth_error(self) -> (r: AuthError)
        ensures
            error_status(r) == request_error_status(self),
            error_text(r) == request_error_text(self),
    {
        let message = self.message();
        match self {
            RequestError::UnsupportedMethod => invalid_request_error(message),
            RequestError::PayloadTooLarge { .. } => payload_too_large_error(message),
            RequestError::UnreadableBody => bad_request_error(message),
        }
    }

    /// The response that refuses the request: the error response of
    /// [`RequestError::into_auth_error`], with status 400 or 413.
    pub fn into_response(self) -> (r: ResponseParts)
        ensures
            r.status == request_error_status(self),
            string_pairs(r.headers@) == json_content_type(),
            r.body@ == error_json(request_error_text(self)),
    {
        auth_error_to_poem(self.into_auth_error())
    }
}

/// Everything of an `AuthRequest` but its body.
pub struct AuthRequestHead {
    pub method: AuthMethod,
    pub path: String,
    /// Header names and values; each name once.
    pub headers: Vec<(String, String)>,
    /// Query keys and values; each key once.
    pub query: Vec<(String, String)>,
}

impl AuthRequestHead {
    /// Each header name and each query key occurs once.
    pub open spec fn wf(&self) -> bool {
        unique_keys(string_pairs(self.headers@)) && unique_keys(string_pairs(self.query@))
    }

    /// The headers as a map.
    pub open spec fn header_map(&self) -> Map<Seq<char>, Seq<char>> {
        pairs_to_map(string_pairs(self.headers@))
    }

    /// The query as a map.
    pub open spec fn query_map(&self) -> Map<Seq<char>, Seq<char>> {
        pairs_to_map(string_pairs(self.query@))
    }
}

/// The headers whose values are valid UTF-8, decoded, in map order.
fn text_header_pairs(headers: &HeaderMap) -> (r: Vec<(String, String)>)
    ensures
        string_pairs(r@) == text_headers(header_entries(*headers)),
{
    let entries = header_map_entries(headers);
    let ghost e = header_entries(*headers);
    let mut out: Vec<(String, String)> = Vec::new();
    let mut i: usize = 0;
    assert(e.take(0) =~= Seq::<(Seq<char>, Seq<u8>)>::empty());
    assert(string_pairs(out@) =~= Seq::<(Seq<char>, Seq<char>)>::empty());
    while i < entries.len()
        invariant
            e == header_entries(*headers),
            entries@.len() == e.len(),
            forall|k: int| 0 <= k < entries@.len() ==> (#[trigger] entries@[k].0@, entries@[k].1@) == e[k],
            0 <= i <= entries@.len(),
            string_pairs(out@) == text_headers(e.take(i as int)),
        decreases entries@.len() - i,
    {
        let ghost prefix = e.take(i + 1);
        assert(prefix.drop_last() =~= e.take(i as int));
        assert(prefix.last() == (entries@[i as int].0@, entries@[i as int].1@));
        match utf8_string(entries[i].1.clone()) {
            Some(text) => {
                let name = entries[i].0.clone();
                out.push((name, text));
                assert(string_pairs(out@) =~= text_headers(e.take(i as int)).push(
                    (prefix.last().0, decode_utf8(prefix.last().1)),
                ));
            },
            None => {},
        }
        i = i + 1;
    }
    assert(e.take(entries@.len() as int) =~= e);
    out
}

/// The query string as bytes, if there is one.
pub open spec fn query_bytes(query: Option<&str>) -> Option<Seq<u8>> {
    match query {
        Some(q) => Some(q.spec_bytes()),
        None => None,
    }
}

/// Converts the head of a Poem request (its method text, path, query string
/// and headers) into the head of a better-auth request, or refuses it: an
/// unsupported method first, then a body that the first `content-length`
/// header declares to be longer than `max_body_bytes`. Headers whose values
/// are not valid UTF-8 are dropped, and a later header or query pair replaces an
/// earlier one with the same name.
pub fn poem_request_to_auth_request(
    method: &str,
    path: &str,
    query: Option<&str>,
    headers: &HeaderMap,
    max_body_bytes: usize,
) -> (r: Result<AuthRequestHead, RequestError>)
    ensures
        method_for(method@) is None ==> r == Err::<AuthRequestHead, RequestError>(
            RequestError::UnsupportedMethod,
        ),
        method_for(method@) is Some && declared_too_large(header_entries(*headers), max_body_bytes)
            ==> r == Err::<AuthRequestHead, RequestError>(
            RequestError::PayloadTooLarge { limit: max_body_bytes },
        ),
        method_for(method@) is Some && !declared_too_large(header_entries(*headers), max_body_bytes)
            ==> (r matches Ok(h) && h.wf() && method_for(method@) == Some(h.method) && h.path@ == path@
            && h.header_map() == pairs_to_map(text_headers(header_entries(*headers)))
            && h.query_map() == pairs_to_map(query_of(query_bytes(query)))),
{
    let m = match auth_method(method) {
        Some(m) => m,
        None => {
            return Err(RequestError::UnsupportedMethod);
        },
    };
    let header_pairs = last_value_wins(text_header_pairs(headers));
    let path = path.to_owned();
    let query_pairs_found = match query {
        Some(q) => parse_query_pairs(q),
        None => Vec::new(),
    };
    assert(string_pairs(query_pairs_found@) =~= query_of(query_bytes(query)));
    let query_map = last_value_wins(query_pairs_found);
    proof {
        reveal_strlit("content-length");
    }
    let too_large = match header_map_get(headers, "content-length") {
        Some(v) => {
            if check_visible_ascii(v.as_slice()) {
                match parse_usize(v.as_slice()) {
                    Some(n) => n > max_body_bytes,
                    None => false,
                }
            } else {
                false
            }
        },
        None => false,
    };
    if too_large {
        return Err(RequestError::PayloadTooLarge { limit: max_body_bytes });
    }
    Ok(AuthRequestHead { method: m, path, headers: header_pairs, query: query_map })
}

/// What reading the request body gave.
pub enum BodyRead {
    /// The body had already been taken.
    Unavailable,
    /// The bytes of the whole body.
    Read(Vec<u8>),
    /// The body could not be read; the text of the error.
    Failed(String),
}

/// A body-read error whose text, in lower case, speaks of a limit or of
/// something too large.
pub open spec fn reports_size_limit(message: Seq<char>) -> bool {
    seq_contains(lower_text(message), seq!['l', 'i', 'm', 'i', 't']) || seq_contains(
        lower_text(message),
        seq!['t', 'o', 'o', ' ', 'l', 'a', 'r', 'g', 'e'],
    )
}

/// The lower-case form of a text: letter by letter for an ASCII text, as
/// `str::to_lowercase` gives it otherwise.
pub open spec fn lower_text(message: Seq<char>) -> Seq<char> {
    if forall|i: int| 0 <= i < message.len() ==> (#[trigger] message[i] as u32) < 128 {
        ascii_lower(message)
    } else {
        lowercase(message)
    }
}

/// A request head with its body: every part of an `AuthRequest`.
pub struct AuthRequestParts {
    pub head: AuthRequestHead,
    /// The body, absent when it is empty.
    pub body: Option<Vec<u8>>,
}

/// Completes a request head with what reading its body (bounded by
/// `max_body_bytes`) gave: an empty body is no body; a read error that speaks
/// of a limit or of a too large body refuses the request as too large, any
/// other failure as an unreadable body.
pub fn attach_request_body(head: AuthRequestHead, body: BodyRead, max_body_bytes: usize) -> (r: Result<
    AuthRequestParts,
    RequestError,
>)
    ensures
        match body {
            BodyRead::Unavailable => r == Err::<AuthRequestParts, RequestError>(
                RequestError::UnreadableBody,
            ),
            BodyRead::Read(b) => (r matches Ok(p) && p.head == head && p.body == (if b@.len() == 0 {
                None
            } else {
                Some(b)
            })),
            BodyRead::Failed(m) => if reports_size_limit(m@) {
                r == Err::<AuthRequestParts, RequestError>(
                    RequestError::PayloadTooLarge { limit: max_body_bytes },
                )
            } else {
                r == Err::<AuthRequestParts, RequestError>(RequestError::UnreadableBody)
            },
        },
{
    match body {
        BodyRead::Unavailable => Err(RequestError::UnreadableBody),
        BodyRead::Read(bytes) => {
            let body = if bytes.len() == 0 {
                None
            } else {
                Some(bytes)
            };
            Ok(AuthRequestParts { head, body })
        },
        BodyRead::Failed(message) => {
            let lower = lowercase_chars(message.as_str());
            let limit_word = vec!['l', 'i', 'm', 'i', 't'];
            let too_large_words = vec!['t', 'o', 'o', ' ', 'l', 'a', 'r', 'g', 'e'];
            if chars_contain(&lower, &limit_word) || chars_contain(&lower, &too_large_words) {
                Err(RequestError::PayloadTooLarge { limit: max_body_bytes })
            } else {
                Err(RequestError::UnreadableBody)
            }
        },
    }
}

impl AuthRequestParts {
    /// The better-auth request with these parts (`AuthRequest::from_parts`).
    pub fn into_auth_request(self) -> (r: AuthRequest)
        requires
            self.head.wf(),
        ensures
            request_method(r) == self.head.method,
            request_path(r) == self.head.path@,
            request_headers(r) == self.head.header_map(),
            request_body(r) == opt_bytes(self.body),
            request_query(r) == self.head.query_map(),
    {
        auth_request_from_parts(self.head.method, self.head.path, self.head.headers, self.body, self.head.query)
    }
}

/// The body limit of the auth endpoint: the configured maximum when the
/// limit is enabled, no limit (`usize::MAX`) when it is not.
pub fn effective_body_limit(enabled: bool, max_bytes: usize) -> (r: usize)
    ensures
        r == (if enabled { max_bytes } else { usize::MAX }),
{
    if enabled {
        max_bytes
    } else {
        usize::MAX
    }
}

} // verus!
