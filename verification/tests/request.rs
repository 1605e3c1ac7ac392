use better_auth_core::{AuthError, HttpMethod};
use poem::http::header::{HeaderMap, HeaderName, HeaderValue};
use poem_adapters::auth::AuthMethod;
use poem_adapters::poem_request_to_auth_request;
use poem_adapters::request::{
    attach_request_body, auth_method, effective_body_limit, parse_usize, AuthRequestHead,
    AuthRequestParts, BodyRead, RequestError,
};

fn header_map(list: &[(&str, &[u8])]) -> HeaderMap {
    let mut map = HeaderMap::new();
    for (name, value) in list {
        map.append(
            HeaderName::from_bytes(name.as_bytes()).unwrap(),
            HeaderValue::from_bytes(value).unwrap(),
        );
    }
    map
}

fn lookup<'a>(pairs: &'a [(String, String)], key: &str) -> Option<&'a str> {
    pairs.iter().find(|(k, _)| k == key).map(|(_, v)| v.as_str())
}

fn head(method: &str, query: Option<&str>, headers: &HeaderMap, limit: usize) -> Result<AuthRequestHead, RequestError> {
    poem_request_to_auth_request(method, "/sign-in/email", query, headers, limit)
}

#[test]
fn supported_methods_map_to_auth_methods() {
    assert_eq!(auth_method("GET"), Some(AuthMethod::Get));
    assert_eq!(auth_method("POST"), Some(AuthMethod::Post));
    assert_eq!(auth_method("PUT"), Some(AuthMethod::Put));
    assert_eq!(auth_method("DELETE"), Some(AuthMethod::Delete));
    assert_eq!(auth_method("PATCH"), Some(AuthMethod::Patch));
    assert_eq!(auth_method("OPTIONS"), Some(AuthMethod::Options));
    assert_eq!(auth_method("HEAD"), Some(AuthMethod::Head));
}

#[test]
fn other_methods_have_no_auth_method() {
    assert_eq!(auth_method("CONNECT"), None);
    assert_eq!(auth_method("TRACE"), None);
    assert_eq!(auth_method("get"), None);
    assert_eq!(auth_method(""), None);
}

#[test]
fn unsigned_numbers_parse_as_std_does() {
    assert_eq!(parse_usize(b"123"), Some(123));
    assert_eq!(parse_usize(b"+7"), Some(7));
    assert_eq!(parse_usize(b"007"), Some(7));
    assert_eq!(parse_usize(b""), None);
    assert_eq!(parse_usize(b"+"), None);
    assert_eq!(parse_usize(b"-1"), None);
    assert_eq!(parse_usize(b" 1"), None);
    assert_eq!(parse_usize(b"1a"), None);
    assert_eq!(parse_usize(usize::MAX.to_string().as_bytes()), Some(usize::MAX));
    let too_big = format!("{}0", usize::MAX);
    assert_eq!(parse_usize(too_big.as_bytes()), None);
    for s in ["0", "42", "+19", "-3", "", "9x"] {
        assert_eq!(parse_usize(s.as_bytes()), s.parse::<usize>().ok(), "input {s:?}");
    }
}

#[test]
fn unsupported_method_is_refused() {
    let headers = header_map(&[("content-length", b"999999")]);
    assert_eq!(head("CONNECT", None, &headers, 10).err(), Some(RequestError::UnsupportedMethod));
}

#[test]
fn declared_length_over_limit_is_refused() {
    let headers = header_map(&[("content-length", b"11")]);
    assert_eq!(head("POST", None, &headers, 10).err(), Some(RequestError::PayloadTooLarge { limit: 10 }));
}

#[test]
fn declared_length_at_limit_is_accepted() {
    let headers = header_map(&[("content-length", b"10")]);
    assert!(head("POST", None, &headers, 10).is_ok());
}

#[test]
fn unparsable_declared_length_is_ignored() {
    let headers = header_map(&[("content-length", b"lots")]);
    assert!(head("POST", None, &headers, 10).is_ok());
}

#[test]
fn only_the_first_content_length_counts() {
    let headers = header_map(&[("content-length", b"5"), ("content-length", b"500")]);
    assert!(head("POST", None, &headers, 10).is_ok());
}

#[test]
fn head_carries_method_path_headers_and_query() {
    let headers = header_map(&[
        ("x-plain", b"yes"),
        ("x-accented", b"caf\xc3\xa9"),
        ("x-binary", b"caf\xe9"),
        ("x-twice", b"1"),
        ("x-twice", b"2"),
    ]);
    let h = head("PATCH", Some("a=1&b=%41+c&a=3"), &headers, 100).unwrap();
    assert_eq!(h.method, AuthMethod::Patch);
    assert_eq!(h.path, "/sign-in/email");
    assert_eq!(lookup(&h.headers, "x-plain"), Some("yes"));
    assert_eq!(lookup(&h.headers, "x-accented"), Some("café"));
    assert_eq!(lookup(&h.headers, "x-binary"), None);
    assert_eq!(lookup(&h.headers, "x-twice"), Some("2"));
    assert_eq!(h.headers.len(), 3);
    assert_eq!(lookup(&h.query, "a"), Some("3"));
    assert_eq!(lookup(&h.query, "b"), Some("A c"));
    assert_eq!(h.query.len(), 2);
}

#[test]
fn absent_query_gives_no_pairs() {
    let h = head("GET", None, &HeaderMap::new(), 100).unwrap();
    assert!(h.query.is_empty());
    assert!(h.headers.is_empty());
}

fn empty_head() -> AuthRequestHead {
    head("POST", None, &HeaderMap::new(), 100).unwrap()
}

#[test]
fn empty_body_is_no_body() {
    let parts = attach_request_body(empty_head(), BodyRead::Read(Vec::new()), 100).ok().unwrap();
    assert_eq!(parts.body, None);
}

#[test]
fn body_bytes_are_kept() {
    let parts = attach_request_body(empty_head(), BodyRead::Read(b"{}".to_vec()), 100).ok().unwrap();
    assert_eq!(parts.body, Some(b"{}".to_vec()));
}

#[test]
fn taken_body_is_unreadable() {
    let r = attach_request_body(empty_head(), BodyRead::Unavailable, 100);
    assert_eq!(r.err(), Some(RequestError::UnreadableBody));
}

#[test]
fn size_limit_read_errors_are_payload_too_large() {
    for message in ["payload too large", "Body Too Large", "length LIMIT exceeded"] {
        let r = attach_request_body(empty_head(), BodyRead::Failed(message.to_string()), 64);
        assert_eq!(r.err(), Some(RequestError::PayloadTooLarge { limit: 64 }), "message {message:?}");
    }
}

#[test]
fn other_read_errors_are_unreadable() {
    let r = attach_request_body(empty_head(), BodyRead::Failed("io: connection reset".to_string()), 64);
    assert_eq!(r.err(), Some(RequestError::UnreadableBody));
}

#[test]
fn request_error_messages() {
    assert_eq!(RequestError::UnsupportedMethod.message(), "Unsupported HTTP method");
    assert_eq!(
        RequestError::PayloadTooLarge { limit: 1048576 }.message(),
        "Request body exceeds the 1048576-byte limit"
    );
    assert_eq!(RequestError::UnreadableBody.message(), "Failed to read request body");
}

#[test]
fn request_errors_become_auth_errors() {
    let e: AuthError = RequestError::UnsupportedMethod.into_auth_error();
    assert_eq!(e.status_code(), 400);
    assert_eq!(e.to_string(), "Invalid request: Unsupported HTTP method");
    let e = RequestError::PayloadTooLarge { limit: 7 }.into_auth_error();
    assert_eq!(e.status_code(), 413);
    assert_eq!(e.to_string(), "Request body exceeds the 7-byte limit");
    let e = RequestError::UnreadableBody.into_auth_error();
    assert_eq!(e.status_code(), 400);
    assert_eq!(e.to_string(), "Failed to read request body");
}

#[test]
fn parts_become_an_auth_request() {
    let headers = header_map(&[("x-a", b"1")]);
    let h = poem_request_to_auth_request("DELETE", "/delete-user", Some("k=v"), &headers, 100).unwrap();
    let parts: AuthRequestParts = attach_request_body(h, BodyRead::Read(b"x".to_vec()), 100).ok().unwrap();
    let req = parts.into_auth_request();
    assert_eq!(req.method, HttpMethod::Delete);
    assert_eq!(req.path, "/delete-user");
    assert_eq!(req.headers.get("x-a").map(String::as_str), Some("1"));
    assert_eq!(req.query.get("k").map(String::as_str), Some("v"));
    assert_eq!(req.body, Some(b"x".to_vec()));
}

#[test]
fn body_limit_is_off_when_disabled() {
    assert_eq!(effective_body_limit(true, 1024), 1024);
    assert_eq!(effective_body_limit(false, 1024), usize::MAX);
}

#[test]
fn refused_requests_answer_with_their_status() {
    let r = RequestError::UnsupportedMethod.into_response();
    assert_eq!(r.status, 400);
    assert_eq!(r.body, br#"{"message":"Invalid request: Unsupported HTTP method"}"#.to_vec());
    let r = RequestError::PayloadTooLarge { limit: 10 }.into_response();
    assert_eq!(r.status, 413);
    assert_eq!(r.body, br#"{"message":"Request body exceeds the 10-byte limit"}"#.to_vec());
    let r = RequestError::UnreadableBody.into_response();
    assert_eq!(r.status, 400);
    assert_eq!(r.body, br#"{"message":"Failed to read request body"}"#.to_vec());
}
