//! Building Poem responses from better-auth responses and errors.

use vstd::prelude::*;
use vstd::string::StringExecFns;
use better_auth_core::AuthError;
use crate::auth::{
    auth_error_status, auth_error_text, error_json, error_message_json, error_status, error_text,
    is_auth_error_status,
};
use crate::headers::{ascii_lower, header_value_accepted, normalized_header_name, valid_header_name, valid_header_value};
use crate::pairs::string_pairs;

verus! {

/// The parts of an HTTP response: status code, headers in order (a name may
/// repeat) and body.
pub struct ResponseParts {
    pub status: u16,
    pub headers: Vec<(String, String)>,
    pub body: Vec<u8>,
}

/// The parts of a better-auth `AuthResponse`, its header map listed in any
/// order.
pub struct AuthResponseParts {
    pub status: u16,
    pub headers: Vec<(String, String)>,
    pub body: Vec<u8>,
}

/// The status a response gets: the code itself when `StatusCode::from_u16`
/// accepts it (100 to 999), 500 otherwise.
pub open spec fn status_or_internal(s: u16) -> u16 {
    if 100 <= s && s <= 999 {
        s
    } else {
        500
    }
}

/// `StatusCode::from_u16(s).unwrap_or(StatusCode::INTERNAL_SERVER_ERROR)`.
pub fn response_status(s: u16) -> (r: u16)
    ensures
        r == status_or_internal(s),
{
    if 100 <= s && s <= 999 {
        s
    } else {
        500
    }
}

/// The headers that a response can carry, in order: those whose name and
/// value are valid, the name in lower case; the others are dropped.
pub open spec fn accepted_headers(h: Seq<(Seq<char>, Seq<char>)>) -> Seq<(Seq<char>, Seq<char>)>
    decreases h.len(),
{
    if h.len() == 0 {
        seq![]
    } else {
        let p = accepted_headers(h.drop_last());
        let e = h.last();
        if valid_header_name(e.0) && valid_header_value(e.1) {
            p.push((ascii_lower(e.0), e.1))
        } else {
            p
        }
    }
}

/// Converts a better-auth response into a Poem response: an invalid status
/// becomes 500, headers with an invalid name or value are dropped, the body
/// is kept.
pub fn auth_response_to_poem(resp: AuthResponseParts) -> (r: ResponseParts)
    ensures
        r.status == status_or_internal(resp.status),
        string_pairs(r.headers@) == accepted_headers(string_pairs(resp.headers@)),
        r.body@ == resp.body@,
{
    let status = response_status(resp.status);
    let mut headers: Vec<(String, String)> = Vec::new();
    let ghost h = string_pairs(resp.headers@);
    let mut i: usize = 0;
    assert(h.take(0) =~= Seq::<(Seq<char>, Seq<char>)>::empty());
    assert(string_pairs(headers@) =~= Seq::<(Seq<char>, Seq<char>)>::empty());
    while i < resp.headers.len()
        invariant
            h == string_pairs(resp.headers@),
            0 <= i <= resp.headers@.len(),
            string_pairs(headers@) == accepted_headers(h.take(i as int)),
        decreases resp.headers@.len() - i,
    {
        let ghost prefix = h.take(i + 1);
        assert(prefix.drop_last() =~= h.take(i as int));
        let name = normalized_header_name(resp.headers[i].0.as_str());
        let value_ok = header_value_accepted(resp.headers[i].1.as_str());
        match name {
            Some(n) => {
                if value_ok {
                    let value = resp.headers[i].1.clone();
                    headers.push((n, value));
                    assert(string_pairs(headers@) =~= accepted_headers(h.take(i as int)).push(
                        (ascii_lower(h[i as int].0), h[i as int].1),
                    ));
                }
            },
            None => {},
        }
        i = i + 1;
    }
    assert(h.take(resp.headers@.len() as int) =~= h);
    ResponseParts { status, headers, body: resp.body }
}

/// The message an error response shows: a 500-class error (status 500 to
/// 599) is masked as `Internal server error`, any other shows its own text.
pub open spec fn shown_message(status: u16, text: Seq<char>) -> Seq<char> {
    if 500 <= status && status <= 599 {
        "Internal server error"@
    } else {
        text
    }
}

/// The one header of an error response.
pub open spec fn json_content_type() -> Seq<(Seq<char>, Seq<char>)> {
    seq![("content-type"@, "application/json"@)]
}

/// The response for an error with this status code and text: the status (500
/// if invalid), a JSON content type, and the body `{"message": …}` with the
/// shown message.
pub fn error_response(status: u16, text: String) -> (r: ResponseParts)
    ensures
        r.status == status_or_internal(status),
        string_pairs(r.headers@) == json_content_type(),
        r.body@ == error_json(shown_message(status, text@)),
{
    let code = response_status(status);
    let message = if 500 <= status && status <= 599 {
        String::from_str("Internal server error")
    } else {
        text
    };
    let body = match error_message_json(message) {
        Some(b) => b,
        None => vec![0x7bu8, 0x7du8],
    };
    let headers = vec![(String::from_str("content-type"), String::from_str("application/json"))];
    assert(string_pairs(headers@) =~= json_content_type());
    ResponseParts { status: code, headers, body }
}

/// Converts a better-auth error into a Poem response, as
/// [`error_response`] does with the error's status code and text.
pub fn auth_error_to_poem(err: AuthError) -> (r: ResponseParts)
    ensures
        r.status == status_or_internal(error_status(err)),
        is_auth_error_status(r.status),
        string_pairs(r.headers@) == json_content_type(),
        r.body@ == error_json(shown_message(error_status(err), error_text(err))),
{
    let status = auth_error_status(&err);
    let text = auth_error_text(&err);
    error_response(status, text)
}

} // verus!
