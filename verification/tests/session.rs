use crabcloud_http::session::{decode_cookie, encode_cookie, CookieError, Session, SessionId};

#[test]
fn round_trip_generic_payload() {
    let payload = "some-arbitrary-token-not-just-hex.with-symbols_and-stuff";
    let token = encode_cookie(payload, b"shhh-its-a-secret");
    let decoded = decode_cookie(&token, b"shhh-its-a-secret").unwrap();
    assert_eq!(decoded, payload);
}

#[test]
fn wrong_secret_fails_verification() {
    let payload = "abc.def";
    let token = encode_cookie(payload, b"key-a");
    let err = decode_cookie(&token, b"key-b").unwrap_err();
    assert!(matches!(err, CookieError::BadSignature));
}

#[test]
fn malformed_value_is_rejected() {
    let err = decode_cookie("no-dot", b"key").unwrap_err();
    assert!(matches!(err, CookieError::Malformed));
    let err2 = decode_cookie("xx.yy", b"key").unwrap_err();
    assert!(matches!(
        err2,
        CookieError::Malformed | CookieError::BadSignature
    ));
}

#[test]
fn cookie_value_has_two_dot_separated_halves() {
    let token = encode_cookie("abc", b"k");
    let parts: Vec<&str> = token.split('.').collect();
    assert_eq!(parts.len(), 2);
    assert_eq!(parts[0], "YWJj");
    assert_eq!(parts[1].len(), 43);
}

#[test]
fn tampered_payload_is_bad_signature() {
    let token = encode_cookie("abc", b"k");
    let sig = token.split('.').nth(1).unwrap();
    let forged = format!("YWJk.{sig}");
    assert!(matches!(
        decode_cookie(&forged, b"k"),
        Err(CookieError::BadSignature)
    ));
}

#[test]
fn session_id_is_64_hex_chars() {
    let id = SessionId::new_random();
    assert_eq!(id.0.len(), 64);
    assert!(id.0.chars().all(|c| c.is_ascii_hexdigit()));
}

#[test]
fn ids_differ_on_each_call() {
    let a = SessionId::new_random();
    let b = SessionId::new_random();
    assert_ne!(a, b);
}

#[test]
fn session_id_as_str_is_its_hex() {
    let id = SessionId::new_random();
    assert_eq!(id.as_str(), id.0.as_str());
}

#[test]
fn new_session_has_token_and_no_user() {
    let s = Session::new();
    assert!(s.user_id.is_none());
    assert_eq!(s.csrf_token.len(), 64);
}

#[test]
fn rotate_csrf_changes_token() {
    let mut s = Session::new();
    let before = s.csrf_token.clone();
    s.rotate_csrf();
    assert_ne!(s.csrf_token, before);
}

#[test]
fn default_session_has_random_csrf_token() {
    let s = Session::default();
    assert!(!s.csrf_token.is_empty());
    assert_eq!(s.csrf_token.len(), 64);
}

#[test]
fn session_new_at_stamps_the_given_time() {
    let s = Session::new_at(1_700_000_000);
    assert_eq!(s.last_activity, 1_700_000_000);
    assert!(s.user_id.is_none());
    assert!(!s.two_factor_passed);
    assert_eq!(s.csrf_token.len(), 64);
    assert!(s.csrf_token.chars().all(|c| c.is_ascii_hexdigit()));
}
