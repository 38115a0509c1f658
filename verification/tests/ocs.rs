use crabcloud_http::admin_groups::{
    create_group_guard, default_limit as groups_default_limit, delete_group_guard,
    members_guard, new_group_display_name, CreateGroupForm,
};
use crabcloud_http::admin_users::{
    default_limit, delete_user_guard, disable_user_guard, edit_user_change, list_limit,
    new_user_profile, parse_create_user_body, pct_decode, remove_from_group_guard,
    require_not_last_admin, search_filter, unknown_group, user_change, CreateUserForm,
    UserChange,
};
use crabcloud_http::ocs::{
    http_status_from, ocs_envelope_meta, ocs_status_for_http, CoreError, OcsError, OcsFormat,
    OcsStatus, OcsVersion,
};

#[test]
fn ocs_status_for_error_variants() {
    let cases = vec![
        (CoreError::NotFound, OcsStatus::NotFound),
        (CoreError::Unauthorized, OcsStatus::Unauthorized),
        (CoreError::Forbidden, OcsStatus::Forbidden),
        (CoreError::BadRequest("x".into()), OcsStatus::BadRequest),
        (CoreError::Conflict("x".into()), OcsStatus::BadRequest),
        (CoreError::Locked, OcsStatus::ServerError),
        (CoreError::Ocs { code: 996, message: "m".into() }, OcsStatus::UnknownError),
        (CoreError::Db("d".into()), OcsStatus::ServerError),
        (CoreError::Internal("i".into()), OcsStatus::ServerError),
    ];
    for (e, s) in cases {
        let err = OcsError::new(e, OcsVersion::V2, OcsFormat::Json);
        assert_eq!(err.ocs_status(), s);
    }
}

#[test]
fn http_codes_and_envelope_meta() {
    assert_eq!(http_status_from(404), 404);
    assert_eq!(http_status_from(42), 500);
    assert_eq!(http_status_from(1000), 500);
    assert_eq!(ocs_status_for_http(200), OcsStatus::Success);
    assert_eq!(ocs_status_for_http(201), OcsStatus::Created);
    assert_eq!(ocs_status_for_http(404), OcsStatus::NotFound);
    assert_eq!(ocs_status_for_http(501), OcsStatus::UnknownError);
    let m = ocs_envelope_meta(403, "nope");
    assert_eq!(m.http_status, 403);
    assert_eq!(m.status, OcsStatus::Forbidden);
    assert_eq!(m.message, "nope");
    assert_eq!(m.version, OcsVersion::V2);
}

#[test]
fn list_paging_rules() {
    assert_eq!(default_limit(), 100);
    assert_eq!(groups_default_limit(), 100);
    assert_eq!(list_limit(0), 1);
    assert_eq!(list_limit(50), 50);
    assert_eq!(list_limit(10_000), 500);
    assert_eq!(search_filter(&Some(String::new())), None);
    assert_eq!(search_filter(&Some("al".into())), Some("al".to_string()));
    assert_eq!(search_filter(&None), None);
}

#[test]
fn pct_decode_form_encoding() {
    assert_eq!(pct_decode("a+b%20c"), "a b c");
    assert_eq!(pct_decode("%41%4a%4A"), "AJJ");
    assert_eq!(pct_decode("%zz%4"), "%zz%4");
    assert_eq!(pct_decode("%FF"), "\u{FFFD}");
    assert_eq!(pct_decode("caf%C3%A9"), "café");
}

#[test]
fn create_user_body_collects_repeated_groups() {
    let f = parse_create_user_body(
        "userid=bob&password=pw&groups%5B%5D=a&groups[]=b&&displayName=Bob+B&email=&x=1",
    )
    .unwrap();
    assert_eq!(f.userid, "bob");
    assert_eq!(f.password, "pw");
    assert_eq!(f.groups, vec!["a".to_string(), "b".to_string()]);
    assert_eq!(f.display_name.as_deref(), Some("Bob B"));
    assert_eq!(f.email.as_deref(), Some(""));
    let (email, display) = new_user_profile(&f);
    assert_eq!(email, None);
    assert_eq!(display, "Bob B");
}

#[test]
fn create_user_body_reports_missing_fields() {
    assert_eq!(parse_create_user_body("password=x").unwrap_err(), "missing userid");
    assert_eq!(parse_create_user_body("userid=x").unwrap_err(), "missing password");
    assert_eq!(parse_create_user_body("").unwrap_err(), "missing userid");
    let f = parse_create_user_body("userid=a&password").unwrap();
    assert_eq!(f.password, "");
    let g = CreateUserForm {
        userid: "u".into(),
        password: "p".into(),
        email: Some("u@example.com".into()),
        display_name: Some(String::new()),
        groups: vec![],
    };
    let (email, display) = new_user_profile(&g);
    assert_eq!(email.as_deref(), Some("u@example.com"));
    assert_eq!(display, "u");
    match unknown_group("phantom") {
        CoreError::BadRequest(m) => assert_eq!(m, "unknown group: phantom"),
        _ => panic!(),
    }
}

#[test]
fn user_changes_and_admin_guards() {
    assert_eq!(user_change("email", "").unwrap(), UserChange::Email(None));
    assert_eq!(
        user_change("displayname", "Alice Wonderland").unwrap(),
        UserChange::DisplayName("Alice Wonderland".into())
    );
    match user_change("banana", "split") {
        Err(CoreError::BadRequest(m)) => assert_eq!(m, "unknown key: banana"),
        _ => panic!(),
    }
    assert!(matches!(
        edit_user_change("admin", "admin", "password", "x"),
        Err(CoreError::BadRequest(_))
    ));
    assert_eq!(
        edit_user_change("alice", "admin", "password", "x").unwrap(),
        UserChange::Password("x".into())
    );
    assert!(matches!(delete_user_guard("admin", "admin"), Err(CoreError::BadRequest(_))));
    assert!(delete_user_guard("alice", "admin").is_ok());
    assert!(matches!(disable_user_guard("admin", "admin"), Err(CoreError::BadRequest(_))));
    assert!(matches!(
        remove_from_group_guard("admin", "admin", "admin"),
        Err(CoreError::BadRequest(_))
    ));
    assert_eq!(remove_from_group_guard("alice", "admin", "admin").unwrap(), true);
    assert_eq!(remove_from_group_guard("alice", "admin", "staff").unwrap(), false);
    match require_not_last_admin(&vec!["alice".to_string()], "alice") {
        Err(CoreError::BadRequest(m)) => assert_eq!(m, "at least one admin must remain"),
        _ => panic!(),
    }
    assert!(require_not_last_admin(&vec!["alice".to_string(), "bob".to_string()], "alice").is_ok());
}

#[test]
fn group_guards() {
    let f = CreateGroupForm { groupid: "developers".into(), displayname: Some("Devs".into()) };
    assert_eq!(new_group_display_name(&f), "Devs");
    let g = CreateGroupForm { groupid: "ops".into(), displayname: None };
    assert_eq!(new_group_display_name(&g), "ops");
    match create_group_guard("developers", true) {
        Err(CoreError::Conflict(m)) => assert_eq!(m, "group already exists: developers"),
        _ => panic!(),
    }
    assert!(create_group_guard("developers", false).is_ok());
    assert!(matches!(delete_group_guard("admin", true), Err(CoreError::BadRequest(_))));
    assert!(matches!(delete_group_guard("x", false), Err(CoreError::NotFound)));
    assert!(delete_group_guard("x", true).is_ok());
    assert!(matches!(members_guard(false), Err(CoreError::NotFound)));
}
