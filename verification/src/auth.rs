//! The values of the better-auth core that the library builds and reads,
//! reached through trusted wrappers.

use vstd::prelude::*;
use better_auth_core::{AuthError, AuthRequest, ErrorMessageResponse, HttpMethod};
use crate::pairs::{pairs_to_map, string_pairs, unique_keys};

verus! {

#[verifier::external_type_specification]
#[verifier::external_body]
pub struct ExAuthError(AuthError);

#[verifier::external_type_specification]
#[verifier::external_body]
pub struct ExAuthRequest(AuthRequest);

/// The HTTP methods that better-auth routes on.
#[derive(Clone, Copy, Debug, PartialEq, Eq, Structural)]
pub enum AuthMethod {
    Get,
    Post,
    Put,
    Delete,
    Patch,
    Options,
    Head,
}

/// The status codes that `AuthError::status_code` can return.
pub open spec fn is_auth_error_status(s: u16) -> bool {
    s == 400 || s == 401 || s == 403 || s == 404 || s == 409 || s == 413 || s == 429 || s == 500
        || s == 501
}

/// The status code of an error, as `AuthError::status_code` gives it.
pub uninterp spec fn error_status(e: AuthError) -> u16;

/// The `Display` text of an error, as its `to_string` gives it.
pub uninterp spec fn error_text(e: AuthError) -> Seq<char>;

/// `AuthError::status_code`: the error's status, one of the codes its
/// variants map to.
#[verifier::external_body]
pub(crate) fn auth_error_status(err: &AuthError) -> (r: u16)
    ensures
        r == error_status(*err),
        is_auth_error_status(r),
{
    err.status_code()
}

/// The `Display` text of an `AuthError` (`ToString::to_string`).
#[verifier::external_body]
pub(crate) fn auth_error_text(err: &AuthError) -> (r: String)
    ensures
        r@ == error_text(*err),
{
    err.to_string()
}

/// `AuthError::InvalidRequest` with the given message: status 400, shown as
/// `Invalid request: ` and the message.
#[verifier::external_body]
pub(crate) fn invalid_request_error(message: String) -> (r: AuthError)
    ensures
        error_status(r) == 400,
        error_text(r) == "Invalid request: "@ + message@,
{
    AuthError::InvalidRequest(message)
}

/// `AuthError::payload_too_large` with the given message: status 413, shown
/// as the message.
#[verifier::external_body]
pub(crate) fn payload_too_large_error(message: String) -> (r: AuthError)
    ensures
        error_status(r) == 413,
        error_text(r) == message@,
{
    AuthError::payload_too_large(message)
}

/// `AuthError::bad_request` with the given message: status 400, shown as the
/// message.
#[verifier::external_body]
pub(crate) fn bad_request_error(message: String) -> (r: AuthError)
    ensures
        error_status(r) == 400,
        error_text(r) == message@,
{
    AuthError::bad_request(message)
}

/// `AuthError::Unauthenticated`: status 401, `Authentication required`.
#[verifier::external_body]
pub(crate) fn unauthenticated_error() -> (r: AuthError)
    ensures
        error_status(r) == 401,
        error_text(r) == "Authentication required"@,
{
    AuthError::Unauthenticated
}

/// `AuthError::SessionNotFound`: status 401, `Session not found or expired`.
#[verifier::external_body]
pub(crate) fn session_not_found_error() -> (r: AuthError)
    ensures
        error_status(r) == 401,
        error_text(r) == "Session not found or expired"@,
{
    AuthError::SessionNotFound
}

/// `AuthError::UserNotFound`: status 404, `User not found`.
#[verifier::external_body]
pub(crate) fn user_not_found_error() -> (r: AuthError)
    ensures
        error_status(r) == 404,
        error_text(r) == "User not found"@,
{
    AuthError::UserNotFound
}

/// The method field of an `AuthRequest`, as the library's method.
pub uninterp spec fn request_method(r: AuthRequest) -> AuthMethod;

/// The path field of an `AuthRequest`.
pub uninterp spec fn request_path(r: AuthRequest) -> Seq<char>;

/// The contents of the header map of an `AuthRequest`.
pub uninterp spec fn request_headers(r: AuthRequest) -> Map<Seq<char>, Seq<char>>;

/// The body field of an `AuthRequest`.
pub uninterp spec fn request_body(r: AuthRequest) -> Option<Seq<u8>>;

/// The contents of the query map of an `AuthRequest`.
pub uninterp spec fn request_query(r: AuthRequest) -> Map<Seq<char>, Seq<char>>;

/// The view of an optional byte vector.
pub open spec fn opt_bytes(b: Option<Vec<u8>>) -> Option<Seq<u8>> {
    match b {
        Some(v) => Some(v@),
        None => None,
    }
}

/// `AuthRequest::from_parts`, with the method mapped to `HttpMethod` variant
/// for variant and the pair lists (whose keys are unique) collected into maps;
/// `from_parts` stores each part in its field as it is.
#[verifier::external_body]
pub(crate) fn auth_request_from_parts(
    method: AuthMethod,
    path: String,
    headers: Vec<(String, String)>,
    body: Option<Vec<u8>>,
    query: Vec<(String, String)>,
) -> (r: AuthRequest)
    requires
        unique_keys(string_pairs(headers@)),
        unique_keys(string_pairs(query@)),
    ensures
        request_method(r) == method,
        request_path(r) == path@,
        request_headers(r) == pairs_to_map(string_pairs(headers@)),
        request_body(r) == opt_bytes(body),
        request_query(r) == pairs_to_map(string_pairs(query@)),
{
    let method = match method {
        AuthMethod::Get => HttpMethod::Get,
        AuthMethod::Post => HttpMethod::Post,
        AuthMethod::Put => HttpMethod::Put,
        AuthMethod::Delete => HttpMethod::Delete,
        AuthMethod::Patch => HttpMethod::Patch,
        AuthMethod::Options => HttpMethod::Options,
        AuthMethod::Head => HttpMethod::Head,
    };
    AuthRequest::from_parts(method, path, headers.into_iter().collect(), body, query.into_iter().collect())
}

/// The bytes that JSON escaping writes for one byte of a string: `"` and `\`
/// behind a backslash, the named control escapes `\b \t \n \f \r`, the other
/// bytes below `0x20` as `\u00XX` with lower-case hex digits, every other
/// byte as itself.
pub open spec fn json_escape_byte(b: u8) -> Seq<u8> {
    if b == 0x22 {
        seq![0x5cu8, 0x22u8]
    } else if b == 0x5c {
        seq![0x5cu8, 0x5cu8]
    } else if b == 0x08 {
        seq![0x5cu8, 0x62u8]
    } else if b == 0x09 {
        seq![0x5cu8, 0x74u8]
    } else if b == 0x0a {
        seq![0x5cu8, 0x6eu8]
    } else if b == 0x0c {
        seq![0x5cu8, 0x66u8]
    } else if b == 0x0d {
        seq![0x5cu8, 0x72u8]
    } else if b < 0x20 {
        seq![0x5cu8, 0x75u8, 0x30u8, 0x30u8, lower_hex_digit(b / 16), lower_hex_digit(b % 16)]
    } else {
        seq![b]
    }
}

/// The lower-case hex digit for a value below 16.
pub open spec fn lower_hex_digit(v: u8) -> u8 {
    if v < 10 {
        (v + 0x30) as u8
    } else {
        (v - 10 + 0x61) as u8
    }
}

/// The escaped contents of a JSON string for the bytes `b`.
pub open spec fn json_escape(b: Seq<u8>) -> Seq<u8>
    decreases b.len(),
{
    if b.len() == 0 {
        seq![]
    } else {
        json_escape(b.drop_last()) + json_escape_byte(b.last())
    }
}

/// The compact JSON text of `{ "message": m }`.
pub open spec fn error_json(m: Seq<char>) -> Seq<u8> {
    seq![0x7bu8, 0x22u8, 0x6du8, 0x65u8, 0x73u8, 0x73u8, 0x61u8, 0x67u8, 0x65u8, 0x22u8, 0x3au8, 0x22u8]
        + json_escape(vstd::utf8::encode_utf8(m)) + seq![0x22u8, 0x7du8]
}

/// `serde_json::to_vec` of an `ErrorMessageResponse` holding `message`: the
/// compact formatter writes the one field as `{"message":"…"}`, escaping the
/// string's UTF-8 bytes byte by byte. It returns `Ok`: the one field is a
/// string and the writer a `Vec`, neither of which can fail.
#[verifier::external_body]
pub(crate) fn error_message_json(message: String) -> (r: Option<Vec<u8>>)
    ensures
        r is Some,
        r matches Some(b) ==> b@ == error_json(message@),
{
    serde_json::to_vec(&ErrorMessageResponse { message }).ok()
}

} // verus!
