use base64::Engine as _;
use crabcloud_http::admin_groups::delete_group_guard;
use crabcloud_http::admin_users::{
    delete_user_guard, edit_user_change, remove_from_group_guard, unknown_group,
    CreateUserAction, CreateUserEvent, CreateUserFlow, CreateUserPhase,
};
use crabcloud_http::ocs::CoreError;
use crabcloud_http::ocs_feeds::{
    activity_limit, cursor_fields, encode_cursor, expire_date, hit_to_entry, is_last_page,
    next_since, search_limit, search_plan, share_list_plan, share_visible, SearchHitFields,
    SearchPlan, ShareKind, ShareListPlan,
};

/// The search cursor as the endpoint reads it: the library opens the cursor
/// and the rank is read as a float.
fn decode_cursor(s: &str) -> Result<(f64, i64), &'static str> {
    let (rank, fileid) = cursor_fields(s)?;
    let rank: f64 = rank.parse().map_err(|_| "rank")?;
    Ok((rank, fileid))
}

fn b64_nopad(s: &str) -> String {
    base64::engine::general_purpose::STANDARD_NO_PAD.encode(s)
}

#[test]
fn cursor_roundtrip() {
    let s = encode_cursor(&format!("{}", -1.234f64), 42);
    let (r, id) = decode_cursor(&s).unwrap();
    assert!((r - -1.234).abs() < f64::EPSILON);
    assert_eq!(id, 42);
}

#[test]
fn decode_cursor_rejects_garbage() {
    assert!(decode_cursor("!!!not base64!!!").is_err());
    assert!(decode_cursor(&b64_nopad("no-pipe-here")).is_err());
    assert!(decode_cursor(&b64_nopad("notafloat|42")).is_err());
    assert!(decode_cursor(&b64_nopad("1.0|notanint")).is_err());
}

#[test]
fn cursor_fields_tags() {
    assert_eq!(cursor_fields("!!!").unwrap_err(), "b64");
    assert_eq!(cursor_fields(&b64_nopad("x")).unwrap_err(), "split");
    assert_eq!(cursor_fields(&b64_nopad("1|x")).unwrap_err(), "fileid");
    assert_eq!(cursor_fields(&b64_nopad("0.5|-7")).unwrap(), ("0.5".to_string(), -7));
    assert_eq!(encode_cursor("0.5", 7), b64_nopad("0.5|7"));
}

#[test]
fn page_limits() {
    assert_eq!(activity_limit(None), 30);
    assert_eq!(activity_limit(Some(0)), 1);
    assert_eq!(activity_limit(Some(500)), 100);
    assert_eq!(activity_limit(Some(-4)), 1);
    assert_eq!(search_limit(None), 20);
    assert_eq!(search_limit(Some(51)), 50);
    assert_eq!(search_limit(Some(7)), 7);
    assert_eq!(next_since(&vec![9, 5, 3]), Some(3));
    assert_eq!(next_since(&vec![]), None);
    assert!(is_last_page(3, 20));
    assert!(!is_last_page(20, 20));
}

#[test]
fn search_plans_and_entries() {
    assert!(matches!(search_plan("", Some(3), Some("garbage")), SearchPlan::Empty));
    assert!(matches!(search_plan("cat", None, Some("!!!")), SearchPlan::BadCursor));
    match search_plan("cat", Some(100), None) {
        SearchPlan::Run { limit, cursor } => {
            assert_eq!(limit, 50);
            assert!(cursor.is_none());
        }
        other => panic!("unexpected {other:?}"),
    }
    match search_plan("cat", None, Some(&b64_nopad("2.5|9"))) {
        SearchPlan::Run { limit, cursor } => {
            assert_eq!(limit, 20);
            assert_eq!(cursor, Some(("2.5".to_string(), 9)));
        }
        other => panic!("unexpected {other:?}"),
    }
    let e = hit_to_entry(&SearchHitFields {
        basename: "cat.jpg".into(),
        path: "/Photos/cat.jpg".into(),
        fileid: 12,
        mime: "image/jpeg".into(),
        size: 2048,
        mtime: 1716000000,
    });
    assert_eq!(e.title, "cat.jpg");
    assert_eq!(e.subline, "/Photos/cat.jpg");
    assert_eq!(e.resource_url, "/files/Photos/cat.jpg");
    assert_eq!((e.fileid.as_str(), e.size.as_str(), e.mtime.as_str()), ("12", "2048", "1716000000"));
    assert!(e.thumbnail_url.is_empty() && e.icon.is_empty() && !e.rounded);
}

#[test]
fn share_visibility_and_listing() {
    let groups = Some(vec!["staff".to_string()]);
    assert!(share_visible("alice", "alice", ShareKind::Other, None, &None, false));
    assert!(share_visible("bob", "alice", ShareKind::User, Some("bob"), &None, false));
    assert!(!share_visible("carol", "alice", ShareKind::User, Some("bob"), &None, false));
    assert!(share_visible("carol", "alice", ShareKind::Group, Some("staff"), &groups, false));
    assert!(!share_visible("carol", "alice", ShareKind::Group, Some("staff"), &None, false));
    assert!(!share_visible("carol", "alice", ShareKind::Group, Some("ops"), &groups, false));
    assert!(share_visible("carol", "alice", ShareKind::Other, None, &None, true));
    assert!(matches!(share_list_plan(Some("/a".into()), None, Some(true)), ShareListPlan::NotImplemented));
    assert!(matches!(share_list_plan(Some("/a".into()), Some(true), None), ShareListPlan::ByPath(ref p) if p == "/a"));
    assert!(matches!(share_list_plan(None, Some(true), Some(false)), ShareListPlan::Incoming));
    assert!(matches!(share_list_plan(None, None, None), ShareListPlan::Outgoing));
    assert_eq!(expire_date(&None), Ok(None));
    assert_eq!(expire_date(&Some("2025-02-28".into())), Ok(Some((2025, 2, 28))));
    assert!(expire_date(&Some("2025-02-30".into())).is_err());
    assert!(expire_date(&Some("28/02/2025".into())).is_err());
}

#[test]
fn create_user_with_unknown_group_returns_400_and_creates_nothing() {
    let (flow, a) = CreateUserFlow::start("userid=carol&password=pw&groups[]=staff&groups[]=ghosts");
    let mut flow = flow.unwrap();
    assert!(matches!(a, CreateUserAction::CheckUid(ref u) if u == "carol"));
    assert!(matches!(flow.step(CreateUserEvent::UidChecked(Ok(()))), CreateUserAction::LookUpGroup(ref g) if g == "staff"));
    assert!(matches!(flow.step(CreateUserEvent::GroupLooked(Ok(true))), CreateUserAction::LookUpGroup(ref g) if g == "ghosts"));
    match flow.step(CreateUserEvent::GroupLooked(Ok(false))) {
        CreateUserAction::Fail(CoreError::BadRequest(m)) => assert_eq!(m, "unknown group: ghosts"),
        other => panic!("unexpected {other:?}"),
    }
    assert_eq!(flow.phase, CreateUserPhase::Done);
}

#[test]
fn create_user_with_valid_body_succeeds() {
    let (flow, _) = CreateUserFlow::start("userid=carol&password=pw&email=&displayName=Carol%20C&groups[]=staff");
    let mut flow = flow.unwrap();
    flow.step(CreateUserEvent::UidChecked(Ok(())));
    match flow.step(CreateUserEvent::GroupLooked(Ok(true))) {
        CreateUserAction::Create { email, display_name } => {
            assert_eq!(email, None);
            assert_eq!(display_name, "Carol C");
        }
        other => panic!("unexpected {other:?}"),
    }
    assert!(matches!(flow.step(CreateUserEvent::Created(Ok(()))), CreateUserAction::AddToGroup(ref g) if g == "staff"));
    assert!(matches!(flow.step(CreateUserEvent::Added(Ok(()))), CreateUserAction::Succeed(ref id) if id == "carol"));
}

#[test]
fn create_user_flow_errors() {
    let (flow, a) = CreateUserFlow::start("password=pw");
    assert!(flow.is_none());
    assert!(matches!(a, CreateUserAction::Fail(CoreError::BadRequest(ref m)) if m == "missing userid"));
    let (flow, _) = CreateUserFlow::start("userid=dave&password=pw");
    let mut flow = flow.unwrap();
    match flow.step(CreateUserEvent::UidChecked(Ok(()))) {
        CreateUserAction::Create { email, display_name } => {
            assert_eq!(email, None);
            assert_eq!(display_name, "dave");
        }
        other => panic!("unexpected {other:?}"),
    }
    assert!(matches!(flow.step(CreateUserEvent::Created(Err(CoreError::Conflict("dup".into())))), CreateUserAction::Fail(CoreError::Conflict(_))));
}

#[test]
fn delete_self_returns_400() {
    match delete_user_guard("root", "root") {
        Err(CoreError::BadRequest(m)) => assert_eq!(m, "cannot delete the calling admin"),
        other => panic!("unexpected {other:?}"),
    }
    assert!(delete_user_guard("alice", "root").is_ok());
}

#[test]
fn admin_password_rotation_of_self_returns_400() {
    match edit_user_change("root", "root", "password", "x") {
        Err(CoreError::BadRequest(m)) => {
            assert_eq!(m, "use the self-service PUT /cloud/user endpoint to rotate your own password")
        }
        other => panic!("unexpected {other:?}"),
    }
}

#[test]
fn remove_self_from_admin_group_returns_400() {
    match remove_from_group_guard("root", "root", "admin") {
        Err(CoreError::BadRequest(m)) => assert_eq!(m, "cannot remove the calling admin from the admin group"),
        other => panic!("unexpected {other:?}"),
    }
}

#[test]
fn add_user_to_unknown_group_returns_400() {
    match unknown_group("ghosts") {
        CoreError::BadRequest(m) => assert_eq!(m, "unknown group: ghosts"),
        other => panic!("unexpected {other:?}"),
    }
}

#[test]
fn delete_admin_group_returns_400() {
    match delete_group_guard("admin", true) {
        Err(CoreError::BadRequest(m)) => assert_eq!(m, "the admin group is structural"),
        other => panic!("unexpected {other:?}"),
    }
}
