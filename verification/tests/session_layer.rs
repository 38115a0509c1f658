use crabcloud_http::auth::{AuthContext, AuthMethod};
use crabcloud_http::login::{login, BootstrapAdmin, LoginForm};
use crabcloud_http::ocs::CoreError;
use crabcloud_http::ocs_user::{
    app_password_guard, PutForm, PutSelf, PutSelfAction, PutSelfEvent, PutSelfPhase,
};
use crabcloud_http::admin_users::UserChange;
use crabcloud_http::session::{decode_cookie, Session};
use crabcloud_http::session_layer::{
    destroy_target, initial_session, make_destroy_cookie, make_set_cookie, pending_set_cookie, save_target,
    session_key, session_token, PendingCookie, COOKIE_NAME,
};

#[test]
fn set_cookie_attributes() {
    let c = make_set_cookie("v", false, 1800);
    assert_eq!(c, "oc_sessionPassphrase=v; Path=/; HttpOnly; SameSite=Lax; Max-Age=1800");
    assert!(c.starts_with(&format!("{COOKIE_NAME}=")));
    assert!(make_set_cookie("v", true, 5).ends_with("; Secure"));
    assert_eq!(
        make_destroy_cookie(false),
        "oc_sessionPassphrase=; Path=/; HttpOnly; SameSite=Lax; Max-Age=0"
    );
    assert_eq!(
        make_destroy_cookie(true),
        "oc_sessionPassphrase=; Path=/; HttpOnly; SameSite=Lax; Max-Age=0; Secure"
    );
}

#[test]
fn pending_cookie_set_emits_signed_cookie() {
    let p = PendingCookie::Install {
        raw_token: "the-raw-token".into(),
        token_id: 7,
        max_age_secs: 1800,
    };
    let h = pending_set_cookie(&p, b"secret", false);
    assert!(h.contains("HttpOnly"));
    assert!(h.contains("SameSite=Lax"));
    let value = h
        .strip_prefix("oc_sessionPassphrase=")
        .unwrap()
        .split(';')
        .next()
        .unwrap();
    assert_eq!(decode_cookie(value, b"secret").unwrap(), "the-raw-token");
}

#[test]
fn blob_save_and_destroy_targets() {
    let set = Some(PendingCookie::Install { raw_token: "r".into(), token_id: 42, max_age_secs: 1 });
    assert_eq!(save_target(&set, Some(1)), Some(42));
    assert_eq!(save_target(&Some(PendingCookie::Destroy), Some(1)), None);
    assert_eq!(save_target(&None, Some(1)), Some(1));
    assert_eq!(save_target(&None, None), None);
    assert_eq!(destroy_target(&Some(PendingCookie::Destroy), Some(3)), Some(3));
    assert_eq!(destroy_target(&set, Some(3)), None);
    assert_eq!(session_key("inst1", 42), "inst1:session_blob:42");
}

#[test]
fn only_session_auth_loads_blob() {
    let mut c = AuthContext {
        user_id: "alice".into(),
        method: AuthMethod::Session,
        token_id: 9,
        login_name: "alice".into(),
        remember: false,
    };
    assert_eq!(session_token(Some(&c)), Some(9));
    c.method = AuthMethod::Bearer;
    assert_eq!(session_token(Some(&c)), None);
    assert_eq!(session_token(None), None);
}

#[test]
fn missing_admin_config_returns_401() {
    let mut s = Session::new();
    let form = LoginForm { username: "admin".into(), password: "hunter2".into() };
    assert!(matches!(login(&None, &form, &mut s), Err(CoreError::Unauthorized)));
    assert!(s.user_id.is_none());
}

#[test]
fn wrong_username_or_password_returns_401_and_bad_hash_is_internal() {
    let admin = Some(BootstrapAdmin { username: "admin".into(), password_hash: "unused".into() });
    let mut s = Session::new();
    let wrong_user = LoginForm { username: "root".into(), password: "hunter2".into() };
    assert!(matches!(login(&admin, &wrong_user, &mut s), Err(CoreError::Unauthorized)));
    let bad = Some(BootstrapAdmin { username: "admin".into(), password_hash: "not-a-hash".into() });
    let form = LoginForm { username: "admin".into(), password: "hunter2".into() };
    match login(&bad, &form, &mut s) {
        Err(CoreError::Internal(m)) => assert!(m.starts_with("bcrypt verify: ")),
        other => panic!("unexpected {:?}", other.map(|r| r.status)),
    }
}

#[test]
fn login_with_valid_hash_sets_user_and_redirects() {
    let hash = bcrypt::hash("hunter2", 4).unwrap();
    let admin = Some(BootstrapAdmin { username: "admin".into(), password_hash: hash });
    let mut s = Session::new();
    let before = s.csrf_token.clone();
    let wrong = LoginForm { username: "admin".into(), password: "WRONG".into() };
    assert!(matches!(login(&admin, &wrong, &mut s), Err(CoreError::Unauthorized)));
    let form = LoginForm { username: "admin".into(), password: "hunter2".into() };
    let reply = login(&admin, &form, &mut s).unwrap();
    assert_eq!(reply.status, 303);
    assert_eq!(
        reply.headers,
        vec![
            ("content-type".to_string(), "text/plain; charset=utf-8".to_string()),
            ("location".to_string(), "/".to_string()),
        ]
    );
    assert_eq!(s.user_id.as_deref(), Some("admin"));
    assert_ne!(s.csrf_token, before);
}

fn form(key: &str, value: &str, current: &str) -> PutForm {
    PutForm { key: key.into(), value: value.into(), currentpassword: current.into() }
}

#[test]
fn put_self_password_change_via_bearer_is_403() {
    let mut m = PutSelf::new(form("password", "newpass", "hunter2"), AuthMethod::Bearer, "alice".into(), false);
    assert!(matches!(m.step(PutSelfEvent::Begin(None)), PutSelfAction::Respond(Err(CoreError::Forbidden))));
    assert_eq!(m.phase, PutSelfPhase::Done);
}

#[test]
fn put_self_password_change_requires_currentpassword() {
    let mut m = PutSelf::new(form("password", "newpass", "WRONG"), AuthMethod::Session, "alice".into(), false);
    match m.step(PutSelfEvent::Begin(None)) {
        PutSelfAction::VerifyPassword { password } => assert_eq!(password, "WRONG"),
        _ => panic!(),
    }
    assert!(matches!(
        m.step(PutSelfEvent::Verified(false)),
        PutSelfAction::Respond(Err(CoreError::Unauthorized))
    ));
}

#[test]
fn put_self_password_change_rotates_session() {
    let mut m = PutSelf::new(form("password", "newpass", "old"), AuthMethod::Session, "alice".into(), true);
    m.step(PutSelfEvent::Begin(None));
    match m.step(PutSelfEvent::Verified(true)) {
        PutSelfAction::Apply(UserChange::Password(p)) => assert_eq!(p, "newpass"),
        _ => panic!(),
    }
    match m.step(PutSelfEvent::Applied(Ok(()))) {
        PutSelfAction::MintSession { login_name, remember } => {
            assert_eq!(login_name, "alice");
            assert!(remember);
        }
        _ => panic!(),
    }
    match m.step(PutSelfEvent::Minted(Ok(Some((77, "raw".to_string()))))) {
        PutSelfAction::RevokeOthersAndRotate { keep_token_id, cookie } => {
            assert_eq!(keep_token_id, 77);
            assert_eq!(
                cookie,
                PendingCookie::Install { raw_token: "raw".into(), token_id: 77, max_age_secs: 1800 }
            );
        }
        _ => panic!(),
    }
    assert!(matches!(m.step(PutSelfEvent::Rotated), PutSelfAction::Respond(Ok(()))));
    assert_eq!(m.phase, PutSelfPhase::Done);
}

#[test]
fn put_self_displayname_updates_record() {
    let mut m = PutSelf::new(
        form("displayname", "Alice Wonderland", "hunter2"),
        AuthMethod::Bearer,
        "alice".into(),
        false,
    );
    m.step(PutSelfEvent::Begin(None));
    match m.step(PutSelfEvent::Verified(true)) {
        PutSelfAction::Apply(UserChange::DisplayName(d)) => assert_eq!(d, "Alice Wonderland"),
        _ => panic!(),
    }
    assert!(matches!(m.step(PutSelfEvent::Applied(Ok(()))), PutSelfAction::Respond(Ok(()))));
}

#[test]
fn put_self_rejects_unknown_key() {
    let mut m = PutSelf::new(form("banana", "split", "hunter2"), AuthMethod::Session, "alice".into(), false);
    m.step(PutSelfEvent::Begin(None));
    match m.step(PutSelfEvent::Verified(true)) {
        PutSelfAction::Respond(Err(CoreError::BadRequest(msg))) => assert_eq!(msg, "unknown key: banana"),
        _ => panic!(),
    }
}

#[test]
fn put_self_store_errors_and_missing_token_store() {
    let mut m = PutSelf::new(form("email", "", "pw"), AuthMethod::Session, "alice".into(), false);
    m.step(PutSelfEvent::Begin(None));
    assert!(matches!(m.step(PutSelfEvent::Verified(true)), PutSelfAction::Apply(UserChange::Email(None))));
    match m.step(PutSelfEvent::Applied(Err("db".into()))) {
        PutSelfAction::Respond(Err(CoreError::Users(e))) => assert_eq!(e, "db"),
        _ => panic!(),
    }
    let mut p = PutSelf::new(form("password", "n", "o"), AuthMethod::Session, "alice".into(), false);
    p.step(PutSelfEvent::Begin(None));
    p.step(PutSelfEvent::Verified(true));
    p.step(PutSelfEvent::Applied(Ok(())));
    assert!(matches!(p.step(PutSelfEvent::Minted(Ok(None))), PutSelfAction::Respond(Ok(()))));
    assert!(app_password_guard(AuthMethod::Session).is_ok());
    assert!(matches!(app_password_guard(AuthMethod::Basic), Err(CoreError::Forbidden)));
}

#[test]
fn initial_session_uses_loaded_blob_or_falls_back() {
    let stored = Session {
        user_id: Some("alice".to_string()),
        csrf_token: "tok".to_string(),
        last_activity: 42,
        two_factor_passed: true,
    };
    let s = initial_session::<()>(Some(7), Ok(Some(stored)));
    assert_eq!(s.user_id.as_deref(), Some("alice"));
    assert_eq!(s.csrf_token, "tok");
    assert_eq!(s.last_activity, 42);
    assert!(s.two_factor_passed);
    let missing = initial_session::<()>(Some(7), Ok(None));
    assert!(missing.user_id.is_none());
    assert_eq!(missing.csrf_token.len(), 64);
    let failed = initial_session::<&str>(Some(7), Err("cache down"));
    assert!(failed.user_id.is_none());
    assert_eq!(failed.csrf_token.len(), 64);
    let stored2 = Session {
        user_id: Some("bob".to_string()),
        csrf_token: "x".to_string(),
        last_activity: 1,
        two_factor_passed: false,
    };
    let anon = initial_session::<()>(None, Ok(Some(stored2)));
    assert!(anon.user_id.is_none());
    assert_eq!(anon.csrf_token.len(), 64);
}

#[test]
fn put_self_invalid_uid_errors_first() {
    let mut m = PutSelf::new(form("password", "newpass", "hunter2"), AuthMethod::Bearer, "alice".into(), false);
    match m.step(PutSelfEvent::Begin(Some("invalid user id".into()))) {
        PutSelfAction::Respond(Err(CoreError::Users(msg))) => assert_eq!(msg, "invalid user id"),
        other => panic!("unexpected {other:?}"),
    }
    assert_eq!(m.phase, PutSelfPhase::Done);
}
