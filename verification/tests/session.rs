use better_auth_core::AuthError;
use poem::http::header::{HeaderMap, HeaderName, HeaderValue};
use poem_adapters::extract_token;
use poem_adapters::session::{
    optional_session, session_found, session_token_or_reject, user_found, SessionRejection,
};

const COOKIE: &str = "better-auth.session-token";

fn header_map(list: &[(&str, &[u8])]) -> HeaderMap {
    let mut map = HeaderMap::new();
    for (name, value) in list {
        map.append(
            HeaderName::from_bytes(name.as_bytes()).unwrap(),
            HeaderValue::from_bytes(value).unwrap(),
        );
    }
    map
}

fn token(list: &[(&str, &[u8])]) -> Option<String> {
    extract_token(&header_map(list), COOKIE)
}

#[test]
fn bearer_token_is_found() {
    assert_eq!(token(&[("authorization", b"Bearer abc.def")]), Some("abc.def".to_string()));
}

#[test]
fn bearer_prefix_alone_gives_an_empty_token() {
    assert_eq!(token(&[("authorization", b"Bearer ")]), Some(String::new()));
}

#[test]
fn bearer_token_comes_before_cookie() {
    let got = token(&[
        ("cookie", b"better-auth.session-token=from-cookie"),
        ("authorization", b"Bearer from-header"),
    ]);
    assert_eq!(got, Some("from-header".to_string()));
}

#[test]
fn other_authorization_schemes_fall_back_to_cookie() {
    let got = token(&[
        ("authorization", b"bearer lower"),
        ("cookie", b"better-auth.session-token=c1"),
    ]);
    assert_eq!(got, Some("c1".to_string()));
    let got = token(&[("authorization", b"Basic dXNlcg==")]);
    assert_eq!(got, None);
}

#[test]
fn non_text_authorization_falls_back_to_cookie() {
    let got = token(&[
        ("authorization", b"Bearer caf\xc3\xa9"),
        ("cookie", b"better-auth.session-token=c2"),
    ]);
    assert_eq!(got, Some("c2".to_string()));
}

#[test]
fn session_cookie_is_found_among_others() {
    let got = token(&[("cookie", b"a=1;  better-auth.session-token=tok \t; c=3")]);
    assert_eq!(got, Some("tok".to_string()));
}

#[test]
fn empty_session_cookie_is_skipped() {
    let got = token(&[("cookie", b"better-auth.session-token=; better-auth.session-token=t2")]);
    assert_eq!(got, Some("t2".to_string()));
}

#[test]
fn first_session_cookie_wins() {
    let got = token(&[("cookie", b"better-auth.session-token=t1;better-auth.session-token=t2")]);
    assert_eq!(got, Some("t1".to_string()));
}

#[test]
fn cookie_name_must_match_whole_prefix() {
    assert_eq!(token(&[("cookie", b"xbetter-auth.session-token=t")]), None);
    assert_eq!(token(&[("cookie", b"better-auth.session-tokens=t")]), None);
}

#[test]
fn no_headers_no_token() {
    assert_eq!(token(&[]), None);
}

#[test]
fn missing_token_is_unauthenticated() {
    let r = session_token_or_reject(&HeaderMap::new(), COOKIE);
    assert!(matches!(r, Err(SessionRejection::Unauthenticated)));
    let r = session_token_or_reject(&header_map(&[("authorization", b"Bearer t")]), COOKIE);
    assert!(matches!(r, Ok(t) if t == "t"));
}

#[test]
fn session_lookup_outcomes() {
    assert!(matches!(session_found::<u8>(Ok(Some(3))), Ok(3)));
    assert!(matches!(session_found::<u8>(Ok(None)), Err(SessionRejection::SessionNotFound)));
    assert!(matches!(session_found::<u8>(Err(AuthError::RateLimited)), Err(SessionRejection::Lookup(AuthError::RateLimited))));
}

#[test]
fn user_lookup_outcomes() {
    assert!(matches!(user_found::<u8>(Ok(Some(4))), Ok(4)));
    assert!(matches!(user_found::<u8>(Ok(None)), Err(SessionRejection::UserNotFound)));
    assert!(matches!(user_found::<u8>(Err(AuthError::Unauthorized)), Err(SessionRejection::Lookup(AuthError::Unauthorized))));
}

#[test]
fn rejections_are_error_responses() {
    let r = SessionRejection::Unauthenticated.into_response();
    assert_eq!(r.status, 401);
    assert_eq!(r.body, br#"{"message":"Authentication required"}"#.to_vec());
    let r = SessionRejection::SessionNotFound.into_response();
    assert_eq!(r.status, 401);
    assert_eq!(r.body, br#"{"message":"Session not found or expired"}"#.to_vec());
    let r = SessionRejection::UserNotFound.into_response();
    assert_eq!(r.status, 404);
    assert_eq!(r.body, br#"{"message":"User not found"}"#.to_vec());
    let r = SessionRejection::Lookup(AuthError::Internal("db down".to_string())).into_response();
    assert_eq!(r.status, 500);
    assert_eq!(r.body, br#"{"message":"Internal server error"}"#.to_vec());
}

#[test]
fn optional_session_never_rejects() {
    assert_eq!(optional_session::<u8, ()>(Ok(5)), Some(5));
    assert_eq!(optional_session::<u8, ()>(Err(())), None);
}
