use crabcloud_http::auth::{
    basic_input, bearer_input, cookie_arm_outcome, cookie_token, extract_cookie_value,
    header_arm_outcome, resolve_auth, AdminRejection, AdminUser, ArmInput, ArmOutcome,
    AuthContext, AuthMethod, AuthVerdict, AuthenticatedUser, OptionalUser, TokenKind, TokenRow,
    UnauthorizedRejection,
};
use crabcloud_http::headers::HeaderMap;
use crabcloud_http::session::encode_cookie;

fn ctx_for(user: &str, method: AuthMethod) -> AuthContext {
    AuthContext {
        user_id: user.into(),
        method,
        token_id: 1,
        login_name: user.into(),
        remember: false,
    }
}

fn row(uid: &str, kind: TokenKind) -> TokenRow {
    TokenRow {
        id: 7,
        uid: uid.into(),
        login_name: format!("{uid}-login"),
        remember: true,
        kind,
    }
}

#[test]
fn authenticated_user_rejects_when_no_context() {
    let r = AuthenticatedUser::from_context(None);
    assert!(matches!(r, Err(UnauthorizedRejection)));
    let reply = UnauthorizedRejection.into_reply();
    assert_eq!(reply.status, 401);
    assert_eq!(reply.body, "unauthorized");
}

#[test]
fn authenticated_user_resolves_when_context_present() {
    let ctx = ctx_for("alice", AuthMethod::Session);
    let u = AuthenticatedUser::from_context(Some(&ctx)).unwrap();
    assert_eq!(u.user_id, "alice");
    assert_eq!(u.auth_method, AuthMethod::Session);
}

#[test]
fn optional_user_is_none_for_anon() {
    let opt = OptionalUser::from_context(None);
    assert_eq!(opt.0.map(|u| u.user_id).unwrap_or_else(|| "guest".into()), "guest");
    let ctx = ctx_for("bob", AuthMethod::Bearer);
    let some = OptionalUser::from_context(Some(&ctx));
    assert_eq!(some.0.unwrap().user_id, "bob");
}

#[test]
fn admin_user_rejects_when_unauthenticated() {
    let r = AdminUser::decide(Err(UnauthorizedRejection), true, Ok(true));
    assert!(matches!(r, Err(AdminRejection::Unauthorized)));
}

#[test]
fn admin_user_rejects_non_admin_with_403() {
    let u = AuthenticatedUser::from_context(Some(&ctx_for("alice", AuthMethod::Session)));
    let r = AdminUser::decide(u, true, Ok(false));
    assert!(matches!(r, Err(AdminRejection::Forbidden)));
}

#[test]
fn admin_user_resolves_when_in_admin_group() {
    let u = AuthenticatedUser::from_context(Some(&ctx_for("root", AuthMethod::Session)));
    let r = AdminUser::decide(u, true, Ok(true)).unwrap();
    assert_eq!(r.0.user_id, "root");
}

#[test]
fn admin_user_backend_error_and_invalid_uid() {
    let u = AuthenticatedUser::from_context(Some(&ctx_for("root", AuthMethod::Session)));
    match AdminUser::decide(u, true, Err("db down".into())) {
        Err(AdminRejection::Backend(m)) => assert_eq!(m, "db down"),
        _ => panic!("expected backend error"),
    }
    let u2 = AuthenticatedUser::from_context(Some(&ctx_for("bad uid", AuthMethod::Session)));
    assert!(matches!(
        AdminUser::decide(u2, false, Ok(true)),
        Err(AdminRejection::Unauthorized)
    ));
}

#[test]
fn bearer_header_parsing() {
    assert!(matches!(bearer_input(None), ArmInput::NoInput));
    assert!(matches!(bearer_input(Some("Basic abc")), ArmInput::NoInput));
    assert!(matches!(bearer_input(Some("Bearer    ")), ArmInput::Rejected));
    match bearer_input(Some("bearer  tok123 ")) {
        ArmInput::Credentials { token, expected_uid } => {
            assert_eq!(token, "tok123");
            assert!(expected_uid.is_none());
        }
        _ => panic!("expected credentials"),
    }
}

#[test]
fn basic_header_parsing() {
    // "alice:s3cret" in standard base64.
    match basic_input(Some("Basic YWxpY2U6czNjcmV0")) {
        ArmInput::Credentials { token, expected_uid } => {
            assert_eq!(token, "s3cret");
            assert_eq!(expected_uid.as_deref(), Some("alice"));
        }
        _ => panic!("expected credentials"),
    }
    // "alice:" has an empty token.
    assert!(matches!(basic_input(Some("Basic YWxpY2U6")), ArmInput::Rejected));
    // "alice" has no colon.
    assert!(matches!(basic_input(Some("basic YWxpY2U=")), ArmInput::Rejected));
    assert!(matches!(basic_input(Some("Basic !!!")), ArmInput::Rejected));
    assert!(matches!(basic_input(Some("Bearer x")), ArmInput::NoInput));
}

#[test]
fn header_arm_checks_basic_uid() {
    let input = basic_input(Some("Basic YWxpY2U6czNjcmV0"));
    assert!(matches!(
        header_arm_outcome(&input, AuthMethod::Basic, Some(row("mallory", TokenKind::AppPassword))),
        ArmOutcome::HeaderRejected
    ));
    match header_arm_outcome(&input, AuthMethod::Basic, Some(row("alice", TokenKind::AppPassword))) {
        ArmOutcome::Authenticated(c) => {
            assert_eq!(c.user_id, "alice");
            assert_eq!(c.method, AuthMethod::Basic);
            assert_eq!(c.token_id, 7);
            assert_eq!(c.login_name, "alice-login");
            assert!(c.remember);
        }
        _ => panic!("expected authenticated"),
    }
    assert!(matches!(
        header_arm_outcome(&input, AuthMethod::Basic, None),
        ArmOutcome::HeaderRejected
    ));
}

#[test]
fn cookie_arm_only_accepts_session_rows() {
    assert!(matches!(cookie_arm_outcome(None), ArmOutcome::NoInput));
    assert!(matches!(
        cookie_arm_outcome(Some(row("alice", TokenKind::AppPassword))),
        ArmOutcome::NoInput
    ));
    match cookie_arm_outcome(Some(row("alice", TokenKind::Session))) {
        ArmOutcome::Authenticated(c) => assert_eq!(c.method, AuthMethod::Session),
        _ => panic!("expected authenticated"),
    }
}

#[test]
fn cookie_token_decodes_signed_value() {
    let v = encode_cookie("tok", b"sec");
    assert_eq!(cookie_token(Some(&v), b"sec").as_deref(), Some("tok"));
    assert!(cookie_token(Some(&v), b"other").is_none());
    assert!(cookie_token(None, b"sec").is_none());
}

#[test]
fn arm_precedence_first_input_wins() {
    let a = ctx_for("alice", AuthMethod::Bearer);
    let b = ctx_for("bob", AuthMethod::Basic);
    let c = ctx_for("carol", AuthMethod::Session);
    match resolve_auth(
        ArmOutcome::Authenticated(a.clone()),
        ArmOutcome::Authenticated(b.clone()),
        ArmOutcome::Authenticated(c.clone()),
    ) {
        AuthVerdict::Attach(x) => assert_eq!(x.user_id, "alice"),
        _ => panic!(),
    }
    assert!(matches!(
        resolve_auth(ArmOutcome::HeaderRejected, ArmOutcome::NoInput, ArmOutcome::Authenticated(c.clone())),
        AuthVerdict::Unauthorized
    ));
    match resolve_auth(ArmOutcome::NoInput, ArmOutcome::Authenticated(b), ArmOutcome::NoInput) {
        AuthVerdict::Attach(x) => assert_eq!(x.user_id, "bob"),
        _ => panic!(),
    }
    match resolve_auth(ArmOutcome::NoInput, ArmOutcome::NoInput, ArmOutcome::Authenticated(c)) {
        AuthVerdict::Attach(x) => assert_eq!(x.user_id, "carol"),
        _ => panic!(),
    }
    assert!(matches!(
        resolve_auth(ArmOutcome::NoInput, ArmOutcome::NoInput, ArmOutcome::HeaderRejected),
        AuthVerdict::Anonymous
    ));
}

#[test]
fn cookie_value_extraction() {
    let mut h = HeaderMap::new();
    h.insert("Cookie", "a=1; oc_sessionPassphrase=xyz.abc ;b=2");
    assert_eq!(extract_cookie_value(&h, "oc_sessionPassphrase").as_deref(), Some("xyz.abc"));
    assert_eq!(extract_cookie_value(&h, "b").as_deref(), Some("2"));
    assert_eq!(extract_cookie_value(&h, "c"), None);
    assert_eq!(extract_cookie_value(&HeaderMap::new(), "a"), None);
}
