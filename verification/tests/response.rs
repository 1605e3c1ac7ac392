use better_auth_core::AuthError;
use poem_adapters::response::{error_response, response_status, AuthResponseParts, ResponseParts};
use poem_adapters::{auth_error_to_poem, auth_response_to_poem};

fn pairs(list: &[(&str, &str)]) -> Vec<(String, String)> {
    list.iter().map(|(k, v)| (k.to_string(), v.to_string())).collect()
}

fn json_header() -> Vec<(String, String)> {
    pairs(&[("content-type", "application/json")])
}

#[test]
fn valid_status_codes_are_kept() {
    assert_eq!(response_status(100), 100);
    assert_eq!(response_status(200), 200);
    assert_eq!(response_status(999), 999);
}

#[test]
fn invalid_status_codes_become_internal_errors() {
    assert_eq!(response_status(0), 500);
    assert_eq!(response_status(99), 500);
    assert_eq!(response_status(1000), 500);
}

#[test]
fn auth_response_keeps_valid_headers_in_order() {
    let resp = AuthResponseParts {
        status: 201,
        headers: pairs(&[
            ("Set-Cookie", "a=1"),
            ("bad name", "x"),
            ("x-bad-value", "a\nb"),
            ("set-cookie", "b=2"),
            ("x-tab", "a\tb"),
        ]),
        body: b"{\"ok\":true}".to_vec(),
    };
    let r: ResponseParts = auth_response_to_poem(resp);
    assert_eq!(r.status, 201);
    assert_eq!(r.headers, pairs(&[("set-cookie", "a=1"), ("set-cookie", "b=2"), ("x-tab", "a\tb")]));
    assert_eq!(r.body, b"{\"ok\":true}".to_vec());
}

#[test]
fn auth_response_with_invalid_status_is_internal_error() {
    let r = auth_response_to_poem(AuthResponseParts { status: 42, headers: Vec::new(), body: Vec::new() });
    assert_eq!(r.status, 500);
    assert!(r.headers.is_empty());
    assert!(r.body.is_empty());
}

#[test]
fn error_response_shows_its_message_as_json() {
    let r = error_response(400, "bad input".to_string());
    assert_eq!(r.status, 400);
    assert_eq!(r.headers, json_header());
    assert_eq!(r.body, br#"{"message":"bad input"}"#.to_vec());
}

#[test]
fn error_response_masks_internal_errors() {
    let r = error_response(500, "database password is hunter2".to_string());
    assert_eq!(r.status, 500);
    assert_eq!(r.body, br#"{"message":"Internal server error"}"#.to_vec());
}

#[test]
fn error_response_escapes_its_message() {
    let r = error_response(409, "a\"b\\c\nd\te\u{1}f\u{7f}é".to_string());
    assert_eq!(r.body, "{\"message\":\"a\\\"b\\\\c\\nd\\te\\u0001f\u{7f}é\"}".as_bytes().to_vec());
}

#[test]
fn error_response_with_invalid_status_is_internal_error() {
    let r = error_response(7, "odd".to_string());
    assert_eq!(r.status, 500);
    assert_eq!(r.body, br#"{"message":"odd"}"#.to_vec());
}

#[test]
fn auth_errors_show_status_and_text() {
    let r = auth_error_to_poem(AuthError::Unauthenticated);
    assert_eq!(r.status, 401);
    assert_eq!(r.headers, json_header());
    assert_eq!(r.body, br#"{"message":"Authentication required"}"#.to_vec());
    let r = auth_error_to_poem(AuthError::PayloadTooLarge("too big".to_string()));
    assert_eq!(r.status, 413);
    assert_eq!(r.body, br#"{"message":"too big"}"#.to_vec());
}

#[test]
fn errors_of_the_500_class_are_masked() {
    let r = auth_error_to_poem(AuthError::Internal("secret".to_string()));
    assert_eq!(r.status, 500);
    assert_eq!(r.body, br#"{"message":"Internal server error"}"#.to_vec());
    let r = auth_error_to_poem(AuthError::NotImplemented("later".to_string()));
    assert_eq!(r.status, 501);
    assert_eq!(r.body, br#"{"message":"Internal server error"}"#.to_vec());
    let r = error_response(599, "x".to_string());
    assert_eq!(r.body, br#"{"message":"Internal server error"}"#.to_vec());
    let r = error_response(499, "x".to_string());
    assert_eq!(r.body, br#"{"message":"x"}"#.to_vec());
}

#[test]
fn internal_errors_answer_alike() {
    let a = auth_error_to_poem(AuthError::Internal("one".to_string()));
    let b = auth_error_to_poem(AuthError::Config("two".to_string()));
    assert_eq!((a.status, a.headers, a.body), (b.status, b.headers, b.body));
}

#[test]
fn all_valid_headers_are_kept_with_lower_case_names() {
    let resp = AuthResponseParts {
        status: 200,
        headers: pairs(&[("X-One", "1"), ("Content-Type", "text/plain"), ("x-two", "")]),
        body: Vec::new(),
    };
    let r = auth_response_to_poem(resp);
    assert_eq!(r.headers, pairs(&[("x-one", "1"), ("content-type", "text/plain"), ("x-two", "")]));
}
