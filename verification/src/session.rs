//! Finding the session token of a request and deciding on the session that
//! the authenticated-session extractors yield.

use vstd::prelude::*;
use vstd::string::StringSliceAdditionalSpecFns;
use poem::http::header::HeaderMap;
use better_auth_core::AuthError;
use crate::auth::{
    error_json, error_status, error_text, session_not_found_error, unauthenticated_error,
    user_not_found_error,
};
use crate::pairs::string_pairs;
use crate::headers::{first_value, header_entries, header_map_get};
use crate::query::split_bytes;
use crate::response::{
    ResponseParts, auth_error_to_poem, json_content_type, shown_message, status_or_internal,
};
use crate::text::{
    all_visible_ascii, byte_chars, bytes_to_text, check_visible_ascii, is_white_space,
    range_starts_with, starts_with, trim, trim_end, trim_start,
};

verus! {

/// The bytes of `Bearer `.
pub open spec fn bearer_prefix() -> Seq<u8> {
    seq![0x42u8, 0x65u8, 0x61u8, 0x72u8, 0x65u8, 0x72u8, 0x20u8]
}

/// The token of an `Authorization: Bearer <token>` value (possibly empty),
/// if the value is text and has that form.
pub open spec fn bearer_token(auth: Option<Seq<u8>>) -> Option<Seq<char>> {
    match auth {
        Some(v) => if all_visible_ascii(v) && starts_with(v, bearer_prefix()) {
            Some(byte_chars(v.skip(7)))
        } else {
            None
        },
        None => None,
    }
}

/// The value of one `;`-separated cookie piece, trimmed of white space, if it
/// begins with the bytes of `prefix` and something follows them.
pub open spec fn cookie_value(piece: Seq<u8>, prefix: Seq<u8>) -> Option<Seq<char>> {
    let t = trim(piece);
    if starts_with(t, prefix) && t.len() > prefix.len() {
        Some(byte_chars(t.skip(prefix.len() as int)))
    } else {
        None
    }
}

/// The value of the first piece that carries the cookie.
pub open spec fn first_cookie(pieces: Seq<Seq<u8>>, prefix: Seq<u8>) -> Option<Seq<char>>
    decreases pieces.len(),
{
    if pieces.len() == 0 {
        None
    } else {
        match first_cookie(pieces.drop_last(), prefix) {
            Some(v) => Some(v),
            None => cookie_value(pieces.last(), prefix),
        }
    }
}

/// The value of the cookie called `name` in a `Cookie` header value, if the
/// value is text: the first `;`-separated piece that begins with `name=` and
/// has a non-empty value.
pub open spec fn cookie_token(cookie: Option<Seq<u8>>, name: Seq<u8>) -> Option<Seq<char>> {
    match cookie {
        Some(v) => if all_visible_ascii(v) {
            first_cookie(split_bytes(v, 0x3b), name.push(0x3d))
        } else {
            None
        },
        None => None,
    }
}

/// The session token of a request with these header entries: the bearer
/// token of the first `authorization` header if there is one, else the
/// session cookie of the first `cookie` header.
pub open spec fn session_token(entries: Seq<(Seq<char>, Seq<u8>)>, cookie_name: Seq<u8>) -> Option<Seq<char>> {
    match bearer_token(first_value(entries, "authorization"@)) {
        Some(t) => Some(t),
        None => cookie_token(first_value(entries, "cookie"@), cookie_name),
    }
}

/// The text of an optional string.
pub open spec fn opt_text(o: Option<String>) -> Option<Seq<char>> {
    match o {
        Some(s) => Some(s@),
        None => None,
    }
}

proof fn lemma_trim_start_step(b: Seq<u8>, s: int, e: int)
    requires
        0 <= s < e <= b.len(),
        is_white_space(b[s]),
    ensures
        trim_start(b.subrange(s, e)) == trim_start(b.subrange(s + 1, e)),
{
    assert(b.subrange(s, e).skip(1) =~= b.subrange(s + 1, e));
}

proof fn lemma_trim_end_step(b: Seq<u8>, s: int, e: int)
    requires
        0 <= s < e <= b.len(),
        is_white_space(b[e - 1]),
    ensures
        trim_end(b.subrange(s, e)) == trim_end(b.subrange(s, e - 1)),
{
    assert(b.subrange(s, e).drop_last() =~= b.subrange(s, e - 1));
}

/// The bounds of `b[start..end]` trimmed of white space at both ends.
fn trim_bounds(b: &[u8], start: usize, end: usize) -> (r: (usize, usize))
    requires
        start <= end <= b@.len(),
    ensures
        start <= r.0 <= r.1 <= end,
        b@.subrange(r.0 as int, r.1 as int) == trim(b@.subrange(start as int, end as int)),
{
    let mut s = start;
    while s < end && (b[s] == 0x20 || (0x09 <= b[s] && b[s] <= 0x0d))
        invariant
            start <= s <= end <= b@.len(),
            trim_start(b@.subrange(start as int, end as int)) == trim_start(b@.subrange(s as int, end as int)),
        decreases end - s,
    {
        proof {
            lemma_trim_start_step(b@, s as int, end as int);
        }
        s = s + 1;
    }
    assert(trim_start(b@.subrange(s as int, end as int)) == b@.subrange(s as int, end as int));
    let mut e = end;
    while e > s && (b[e - 1] == 0x20 || (0x09 <= b[e - 1] && b[e - 1] <= 0x0d))
        invariant
            start <= s <= e <= end <= b@.len(),
            trim_end(b@.subrange(s as int, end as int)) == trim_end(b@.subrange(s as int, e as int)),
        decreases e - s,
    {
        proof {
            lemma_trim_end_step(b@, s as int, e as int);
        }
        e = e - 1;
    }
    assert(trim_end(b@.subrange(s as int, e as int)) == b@.subrange(s as int, e as int));
    (s, e)
}

/// The cookie value of the piece `b[start..end]`.
fn piece_cookie_value(b: &[u8], start: usize, end: usize, prefix: &[u8]) -> (r: Option<String>)
    requires
        start <= end <= b@.len(),
    ensures
        opt_text(r) == cookie_value(b@.subrange(start as int, end as int), prefix@),
{
    let (s, e) = trim_bounds(b, start, end);
    let ghost t = b@.subrange(s as int, e as int);
    if range_starts_with(b, s, e, prefix) && e - s > prefix.len() {
        let v = bytes_to_text(b, s + prefix.len(), e);
        assert(t.skip(prefix@.len() as int) =~= b@.subrange(s + prefix@.len(), e as int));
        Some(v)
    } else {
        None
    }
}

/// The cookie called by `prefix` (`name=`) in the text cookie header `b`.
fn find_cookie(b: &[u8], prefix: &[u8]) -> (r: Option<String>)
    ensures
        opt_text(r) == first_cookie(split_bytes(b@, 0x3b), prefix@),
{
    let n = b.len();
    let mut found: Option<String> = None;
    let mut seg_start: usize = 0;
    let mut i: usize = 0;
    let ghost mut done: Seq<Seq<u8>> = seq![];
    assert(b@.take(0) =~= Seq::<u8>::empty());
    assert(b@.subrange(0, 0) =~= Seq::<u8>::empty());
    while i < n
        invariant
            n == b@.len(),
            0 <= seg_start <= i <= n,
            split_bytes(b@.take(i as int), 0x3b) == done.push(b@.subrange(seg_start as int, i as int)),
            opt_text(found) == first_cookie(done, prefix@),
        decreases n - i,
    {
        let ghost prefix_bytes = b@.take(i + 1);
        assert(prefix_bytes.drop_last() =~= b@.take(i as int));
        assert(prefix_bytes.last() == b@[i as int]);
        if b[i] == 0x3b {
            let ghost seg = b@.subrange(seg_start as int, i as int);
            assert(done.push(seg).drop_last() =~= done);
            if found.is_none() {
                found = piece_cookie_value(b, seg_start, i, prefix);
            }
            proof {
                done = done.push(seg);
            }
            assert(b@.subrange((i + 1) as int, (i + 1) as int) =~= Seq::<u8>::empty());
            seg_start = i + 1;
        } else {
            assert(b@.subrange(seg_start as int, i + 1) =~= b@.subrange(seg_start as int, i as int).push(b@[i as int]));
        }
        i = i + 1;
    }
    assert(b@.take(n as int) =~= b@);
    let ghost last = b@.subrange(seg_start as int, n as int);
    assert(done.push(last).drop_last() =~= done);
    if found.is_none() {
        found = piece_cookie_value(b, seg_start, n, prefix);
    }
    found
}

/// Extracts the session token of a request: `Authorization: Bearer <token>`
/// first, then the session cookie named `cookie_name`.
pub fn extract_token(headers: &HeaderMap, cookie_name: &str) -> (r: Option<String>)
    ensures
        opt_text(r) == session_token(header_entries(*headers), cookie_name.spec_bytes()),
{
    proof {
        reveal_strlit("authorization");
        reveal_strlit("cookie");
    }
    match header_map_get(headers, "authorization") {
        Some(v) => {
            let bearer = vec![0x42u8, 0x65u8, 0x61u8, 0x72u8, 0x65u8, 0x72u8, 0x20u8];
            if check_visible_ascii(v.as_slice()) && range_starts_with(v.as_slice(), 0, v.len(), bearer.as_slice()) {
                assert(v@.subrange(0, v@.len() as int) =~= v@);
                assert(v@.skip(7) =~= v@.subrange(7, v@.len() as int));
                return Some(bytes_to_text(v.as_slice(), 7, v.len()));
            }
            assert(v@.subrange(0, v@.len() as int) =~= v@);
        },
        None => {},
    }
    match header_map_get(headers, "cookie") {
        Some(v) => {
            if check_visible_ascii(v.as_slice()) {
                let mut prefix = vstd::slice::slice_to_vec(cookie_name.as_bytes());
                prefix.push(0x3d);
                find_cookie(v.as_slice(), prefix.as_slice())
            } else {
                None
            }
        },
        None => None,
    }
}

/// Why no authenticated session is yielded.
pub enum SessionRejection {
    /// The request carries no session token.
    Unauthenticated,
    /// No live session has the token.
    SessionNotFound,
    /// The session's user does not exist.
    UserNotFound,
    /// Looking the session or its user up failed.
    Lookup(AuthError),
}

/// The status of a rejection's error: 401 without a token or a session, 404
/// without the user, the lookup error's own status when a lookup failed.
pub open spec fn rejection_status(r: SessionRejection) -> u16 {
    match r {
        SessionRejection::Unauthenticated => 401,
        SessionRejection::SessionNotFound => 401,
        SessionRejection::UserNotFound => 404,
        SessionRejection::Lookup(e) => error_status(e),
    }
}

/// The text of a rejection's error.
pub open spec fn rejection_text(r: SessionRejection) -> Seq<char> {
    match r {
        SessionRejection::Unauthenticated => "Authentication required"@,
        SessionRejection::SessionNotFound => "Session not found or expired"@,
        SessionRejection::UserNotFound => "User not found"@,
        SessionRejection::Lookup(e) => error_text(e),
    }
}

impl SessionRejection {
    /// The better-auth error of the rejection: `Unauthenticated`,
    /// `SessionNotFound`, `UserNotFound`, or the lookup's own error.
    pub fn into_auth_error(self) -> (r: AuthError)
        ensures
            self matches SessionRejection::Lookup(e) ==> r == e,
            error_status(r) == rejection_status(self),
            error_text(r) == rejection_text(self),
    {
        match self {
            SessionRejection::Unauthenticated => unauthenticated_error(),
            SessionRejection::SessionNotFound => session_not_found_error(),
            SessionRejection::UserNotFound => user_not_found_error(),
            SessionRejection::Lookup(e) => e,
        }
    }

    /// The response that rejects the request: the error response of
    /// [`SessionRejection::into_auth_error`].
    pub fn into_response(self) -> (r: ResponseParts)
        ensures
            r.status == status_or_internal(rejection_status(self)),
            string_pairs(r.headers@) == json_content_type(),
            r.body@ == error_json(shown_message(rejection_status(self), rejection_text(self))),
    {
        auth_error_to_poem(self.into_auth_error())
    }
}

/// The message of the response for a request that reaches a session
/// extractor without a better-auth instance in its data.
pub const MISSING_AUTH_DATA: &'static str = "BetterAuth instance missing from request data; mount `.with(AddData::new(auth))`";

/// The first step of the authenticated-session extractor: the session token,
/// or a rejection as unauthenticated when the request carries none.
pub fn session_token_or_reject(headers: &HeaderMap, cookie_name: &str) -> (r: Result<String, SessionRejection>)
    ensures
        match session_token(header_entries(*headers), cookie_name.spec_bytes()) {
            Some(t) => r matches Ok(s) && s@ == t,
            None => r matches Err(SessionRejection::Unauthenticated),
        },
{
    match extract_token(headers, cookie_name) {
        Some(t) => Ok(t),
        None => Err(SessionRejection::Unauthenticated),
    }
}

/// The second step: the session that the lookup of the token found; a failed
/// lookup rejects with its error, no session as not found.
pub fn session_found<S>(lookup: Result<Option<S>, AuthError>) -> (r: Result<S, SessionRejection>)
    ensures
        match lookup {
            Ok(Some(s)) => r == Ok::<S, SessionRejection>(s),
            Ok(None) => r matches Err(SessionRejection::SessionNotFound),
            Err(e) => r == Err::<S, SessionRejection>(SessionRejection::Lookup(e)),
        },
{
    match lookup {
        Ok(Some(s)) => Ok(s),
        Ok(None) => Err(SessionRejection::SessionNotFound),
        Err(e) => Err(SessionRejection::Lookup(e)),
    }
}

/// The third step: the user that the lookup of the session's user found; a
/// failed lookup rejects with its error, no user as user not found.
pub fn user_found<U>(lookup: Result<Option<U>, AuthError>) -> (r: Result<U, SessionRejection>)
    ensures
        match lookup {
            Ok(Some(u)) => r == Ok::<U, SessionRejection>(u),
            Ok(None) => r matches Err(SessionRejection::UserNotFound),
            Err(e) => r == Err::<U, SessionRejection>(SessionRejection::Lookup(e)),
        },
{
    match lookup {
        Ok(Some(u)) => Ok(u),
        Ok(None) => Err(SessionRejection::UserNotFound),
        Err(e) => Err(SessionRejection::Lookup(e)),
    }
}

/// The optional-session extractor: the session when the authenticated one
/// succeeds, nothing whatever the rejection.
pub fn optional_session<T, E>(outcome: Result<T, E>) -> (r: Option<T>)
    ensures
        match outcome {
            Ok(s) => r == Some(s),
            Err(_) => r is None,
        },
{
    match outcome {
        Ok(s) => Some(s),
        Err(_) => None,
    }
}

} // verus!
