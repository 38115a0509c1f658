use crabcloud_http::auth::{AuthMethod, AuthenticatedUser};
use crabcloud_http::dav_error::DavError;
use crabcloud_http::dav_listings::{
    basename_or_error, display_or_path, version_display_name, find_version, listing_depth, original_location, trash_entry_body, trash_root_body,
    version_basename, version_download_headers, version_entry_body, versions_root_body,
    TrashItem, VersionItem,
};
use crabcloud_http::dav_lock::{
    lock_check, AcquireAction, AcquireEvent, AcquireFlow, AcquirePhase, lock_acquire_check, lock_check_step, lock_depth, lock_key, lock_owner, lock_reply,
    new_lock_token, release, LockInfo,
};
use crabcloud_http::dav_methods::{
    capability_reply, dav_method, files_route, get_plan, method_not_allowed, public_dav_entry,
    public_dav_path, public_dav_route, put_precondition, put_status, resolve_target, checked_user_path, trash_route,
    versions_route, DavMethod, FilesRoute, PublicDavRoute, TrashRoute, VersionsRoute,
    FILES_ALLOW, PUBLIC_ALLOW, TRASH_ALLOW,
};
use crabcloud_http::dav_moves::{
    destination_for, upload_destination, upload_etag_reply, upload_part_tags,
    upload_user_check, TransferAction, TransferEvent, TransferFlow, TransferPhase,
};
use crabcloud_http::headers::{HeaderMap, IfMatch};
use crabcloud_http::trashbin::{from_trash_error, trash_err, TrashError, TrashErrorKind};
use crabcloud_http::versions::{
    from_versions_error, restore_destination, restore_owner_check, restore_target_check,
    versions_err, VersionsError, VersionsErrorKind,
};
use crabcloud_http::xml::{write_empty, write_leaf, write_propstat, write_response, XmlDoc};

fn authed(uid: &str) -> AuthenticatedUser {
    AuthenticatedUser { user_id: uid.to_string(), auth_method: AuthMethod::Session }
}

fn hm(pairs: &[(&str, &str)]) -> HeaderMap {
    let mut h = HeaderMap::new();
    for (k, v) in pairs {
        h.insert(k, v);
    }
    h
}

fn header_pairs(hs: &[(String, String)]) -> Vec<(&str, &str)> {
    hs.iter().map(|(a, b)| (a.as_str(), b.as_str())).collect()
}

#[test]
fn resolves_root_for_empty_path() {
    let p = resolve_target(&authed("alice"), "alice", "", None).unwrap();
    assert_eq!(p, None);
}

#[test]
fn resolves_nested_path() {
    let p = resolve_target(&authed("alice"), "alice", "photos/cat.jpg", None).unwrap();
    assert_eq!(p.as_deref(), Some("/photos/cat.jpg"));
}

#[test]
fn decodes_percent_escapes() {
    let p = resolve_target(&authed("alice"), "alice", "hello%20world.txt", None).unwrap();
    assert_eq!(p.as_deref(), Some("/hello world.txt"));
}

#[test]
fn cross_user_returns_forbidden() {
    assert!(matches!(resolve_target(&authed("alice"), "bob", "", None), Err(DavError::Forbidden)));
}

#[test]
fn resolve_target_reports_invalid_uid_and_encoding() {
    match resolve_target(&authed("alice"), "alice", "", Some("too long".to_string())) {
        Err(DavError::BadRequest(m)) => assert_eq!(m, "invalid user id: too long"),
        other => panic!("unexpected {other:?}"),
    }
    match resolve_target(&authed("alice"), "alice", "%ff", None) {
        Err(DavError::BadRequest(m)) => assert!(m.starts_with("invalid url encoding: ")),
        other => panic!("unexpected {other:?}"),
    }
}

#[test]
fn checked_user_path_maps_refusal_to_bad_request() {
    let p = resolve_target(&authed("alice"), "alice", "a/b%20c", None).unwrap().unwrap();
    assert_eq!(checked_user_path(p, None).unwrap(), "/a/b c");
    let p = resolve_target(&authed("alice"), "alice", "a/../b", None).unwrap().unwrap();
    assert_eq!(p, "/a/../b");
    match checked_user_path(p, Some("reason".to_string())) {
        Err(DavError::BadRequest(m)) => assert_eq!(m, "invalid path: reason"),
        other => panic!("unexpected {other:?}"),
    }
}

#[test]
fn lock_key_root() {
    assert_eq!(lock_key("alice", "/"), "files/alice");
}

#[test]
fn lock_key_with_path() {
    assert_eq!(lock_key("alice", "/photos/cat.jpg"), "files/alice/photos/cat.jpg");
}

#[test]
fn lock_gate_blocks_without_token_and_ignores_depth_zero_ancestors() {
    let held = Some(LockInfo { depth: "0".to_string(), token: "urn:uuid:a".to_string() });
    let deep = Some(LockInfo { depth: "infinity".to_string(), token: "urn:uuid:b".to_string() });
    let none: Vec<String> = vec![];
    let with_b = vec!["urn:uuid:b".to_string()];
    assert!(matches!(lock_check_step(&held, true, &none), Err(DavError::Locked)));
    assert!(lock_check_step(&held, false, &none).is_ok());
    assert!(matches!(lock_check_step(&deep, false, &none), Err(DavError::Locked)));
    assert!(lock_check_step(&deep, false, &with_b).is_ok());
    assert!(lock_check_step(&None, true, &none).is_ok());
    assert!(matches!(lock_acquire_check(&deep, &none), Err(DavError::Locked)));
}

#[test]
fn lock_depth_and_tokens() {
    assert_eq!(lock_depth(&hm(&[])).unwrap(), "0");
    assert_eq!(lock_depth(&hm(&[("Depth", "1")])).unwrap(), "0");
    assert_eq!(lock_depth(&hm(&[("Depth", "infinity")])).unwrap(), "infinity");
    assert!(matches!(lock_depth(&hm(&[("Depth", "2")])), Err(DavError::BadRequest(_))));
    let t = new_lock_token();
    assert_eq!(t.len(), 45);
    assert!(t.starts_with("urn:uuid:"));
    assert_ne!(t, new_lock_token());
}

#[test]
fn lock_reply_carries_discovery_and_token() {
    let t = new_lock_token();
    let r = lock_reply("alice", "/a.txt", "0", 3600, &t);
    assert_eq!(r.status, 200);
    let lt = format!("<{t}>");
    assert_eq!(
        header_pairs(&r.headers),
        vec![("content-type", "application/xml; charset=utf-8"), ("lock-token", lt.as_str())]
    );
    assert!(r.body.contains("<d:href>/remote.php/dav/files/alice/a.txt</d:href>"));
    assert!(r.body.contains("<d:timeout>Second-3600</d:timeout>"));
    assert!(r.body.contains(&format!("<d:locktoken>{t}</d:locktoken>")));
    assert!(r.body.contains("<d:locktype></d:locktype>"));
}

#[test]
fn lock_owner_and_unlock() {
    assert_eq!(lock_owner(Ok(b"<owner/>".to_vec())).unwrap().as_deref(), Some("<owner/>"));
    assert_eq!(lock_owner(Ok(vec![0xff])).unwrap(), None);
    match lock_owner(Err("too big".to_string())) {
        Err(DavError::BadRequest(m)) => assert_eq!(m, "lock body: too big"),
        other => panic!("unexpected {other:?}"),
    }
    assert!(matches!(release(false, true), Err(DavError::Conflict)));
    assert!(matches!(release(true, false), Err(DavError::Conflict)));
    assert_eq!(release(true, true).unwrap().status, 204);
}

#[test]
fn files_surface_routes_methods() {
    assert!(matches!(files_route("OPTIONS"), FilesRoute::Capability));
    assert!(matches!(files_route("HEAD"), FilesRoute::Get { head_only: true }));
    assert!(matches!(files_route("GET"), FilesRoute::Get { head_only: false }));
    assert!(matches!(files_route("PROPPATCH"), FilesRoute::Proppatch));
    match files_route("LOCK") {
        FilesRoute::Refuse(DavError::BadRequest(m)) => assert_eq!(m, "LOCK not yet implemented"),
        other => panic!("unexpected {other:?}"),
    }
    assert!(matches!(files_route("get"), FilesRoute::NotAllowed));
    assert_eq!(dav_method("MKCOL"), DavMethod::Mkcol);
    let cap = capability_reply(FILES_ALLOW);
    assert_eq!(cap.status, 200);
    assert_eq!(
        header_pairs(&cap.headers),
        vec![
            ("content-type", "text/plain; charset=utf-8"),
            ("allow", FILES_ALLOW),
            ("dav", "1, 2, 3"),
            ("ms-author-via", "DAV"),
        ]
    );
    let na = method_not_allowed(TRASH_ALLOW);
    assert_eq!(na.status, 405);
    assert_eq!(
        header_pairs(&na.headers),
        vec![("content-type", "text/plain; charset=utf-8"), ("allow", "OPTIONS, PROPFIND, DELETE, MOVE")]
    );
}

#[test]
fn get_plan_ranges_and_directories() {
    assert!(matches!(get_plan(true, 10, &hm(&[])), Err(DavError::BadRequest(_))));
    let p = get_plan(false, 10, &hm(&[])).unwrap();
    assert_eq!((p.status, p.content_length), (200, 10));
    let p = get_plan(false, 10, &hm(&[("Range", "bytes=2-5")])).unwrap();
    assert_eq!((p.status, p.content_length), (206, 4));
    assert_eq!(p.content_range.as_deref(), Some("bytes 2-5/10"));
    assert!(matches!(
        get_plan(false, 10, &hm(&[("Range", "bytes=20-30")])),
        Err(DavError::RangeNotSatisfiable { file_size: 10 })
    ));
}

#[test]
fn put_preconditions() {
    assert!(put_precondition(&IfMatch::Absent, false, None).is_ok());
    assert!(matches!(put_precondition(&IfMatch::Wildcard, false, None), Err(DavError::PreconditionFailed)));
    assert!(put_precondition(&IfMatch::Wildcard, false, Some("e1")).is_ok());
    assert!(put_precondition(&IfMatch::Etag("e1".into()), false, Some("e1")).is_ok());
    assert!(matches!(
        put_precondition(&IfMatch::Etag("e1".into()), false, Some("e2")),
        Err(DavError::PreconditionFailed)
    ));
    assert!(matches!(
        put_precondition(&IfMatch::Etag("e1".into()), false, None),
        Err(DavError::PreconditionFailed)
    ));
    assert!(matches!(put_precondition(&IfMatch::Absent, true, Some("e")), Err(DavError::PreconditionFailed)));
    assert!(put_precondition(&IfMatch::Absent, true, None).is_ok());
    assert_eq!(put_status(true), 204);
    assert_eq!(put_status(false), 201);
}

#[test]
fn trash_and_versions_routes() {
    assert!(matches!(trash_route(&authed("alice"), "bob", "PROPFIND", false), Err(DavError::Forbidden)));
    assert_eq!(trash_route(&authed("alice"), "alice", "DELETE", false).unwrap(), TrashRoute::NotAllowed);
    assert_eq!(trash_route(&authed("alice"), "alice", "DELETE", true).unwrap(), TrashRoute::Purge);
    assert_eq!(trash_route(&authed("alice"), "alice", "MOVE", true).unwrap(), TrashRoute::Restore);
    assert_eq!(
        versions_route(&authed("alice"), "alice", "42", None, "PROPFIND").unwrap(),
        (42, None, VersionsRoute::Propfind)
    );
    assert_eq!(
        versions_route(&authed("alice"), "alice", "42", Some("1716000000"), "COPY").unwrap(),
        (42, Some(1716000000), VersionsRoute::Restore)
    );
    assert_eq!(
        versions_route(&authed("alice"), "alice", "42", None, "GET").unwrap().2,
        VersionsRoute::NotAllowed
    );
    assert!(matches!(versions_route(&authed("alice"), "alice", "-1", None, "GET"), Err(DavError::NotFound)));
    assert!(matches!(
        versions_route(&authed("alice"), "alice", "1", Some("x"), "GET"),
        Err(DavError::NotFound)
    ));
    assert!(matches!(versions_route(&authed("alice"), "bob", "1", None, "GET"), Err(DavError::Forbidden)));
}

#[test]
fn public_dav_surface() {
    let r = public_dav_entry(true, "GET").unwrap();
    assert_eq!(r.status, 401);
    assert_eq!(header_pairs(&r.headers), vec![("content-type", "text/plain; charset=utf-8"), ("www-authenticate", "Basic realm=\"public-link\"")]);
    let r = public_dav_entry(false, "OPTIONS").unwrap();
    assert_eq!(r.headers[1].1, PUBLIC_ALLOW);
    assert!(public_dav_entry(false, "GET").is_none());
    assert_eq!(public_dav_path("a/b"), "/a/b");
    assert_eq!(public_dav_path(""), "/");
    assert_eq!(public_dav_route("GET", false, false), PublicDavRoute::ReadDenied);
    assert_eq!(public_dav_route("HEAD", true, false), PublicDavRoute::Get { head_only: true });
    assert_eq!(public_dav_route("PROPFIND", false, true), PublicDavRoute::Propfind);
    assert_eq!(public_dav_route("PROPFIND", false, false), PublicDavRoute::ReadDenied);
    assert_eq!(public_dav_route("PUT", false, false), PublicDavRoute::Put);
    assert_eq!(public_dav_route("MOVE", true, false), PublicDavRoute::NotAllowed);
}

#[test]
fn transfer_flow_refuses_existing_destination_without_overwrite() {
    let h = hm(&[("Destination", "/dav/files/alice/b.txt"), ("Overwrite", "F")]);
    let mut f = TransferFlow::start(true, "alice", "/a.txt", &h).unwrap();
    assert_eq!(f.to, "/b.txt");
    assert!(!f.overwrite);
    assert!(matches!(f.step(TransferEvent::LocksChecked(Ok(()))), TransferAction::StatDest));
    assert!(matches!(
        f.step(TransferEvent::DestStatted(true)),
        TransferAction::Fail(DavError::PreconditionFailed)
    ));
    assert_eq!(f.phase, TransferPhase::Done);
}

#[test]
fn transfer_flow_replaces_and_moves_properties() {
    let h = hm(&[("Destination", "https://h/remote.php/dav/files/alice/dir/b.txt")]);
    let mut f = TransferFlow::start(false, "alice", "/a.txt", &h).unwrap();
    f.step(TransferEvent::LocksChecked(Ok(())));
    assert!(matches!(f.step(TransferEvent::DestStatted(true)), TransferAction::Transfer { replace: true }));
    match f.step(TransferEvent::Transferred(Ok(()))) {
        TransferAction::MoveProps { from, to } => {
            assert_eq!(from, "a.txt");
            assert_eq!(to, "dir/b.txt");
        }
        other => panic!("unexpected {other:?}"),
    }
    assert!(matches!(f.step(TransferEvent::PropsMoved(Ok(()))), TransferAction::Respond(204)));
    let mut g = TransferFlow::start(true, "alice", "/a.txt", &h).unwrap();
    g.step(TransferEvent::LocksChecked(Ok(())));
    g.step(TransferEvent::DestStatted(false));
    g.step(TransferEvent::Transferred(Ok(())));
    assert!(matches!(g.step(TransferEvent::PropsMoved(Ok(()))), TransferAction::Respond(201)));
    let h = hm(&[("Destination", "/dav/files/bob/b.txt")]);
    assert!(matches!(TransferFlow::start(true, "alice", "/a.txt", &h), Err(DavError::Forbidden)));
    assert!(matches!(TransferFlow::start(true, "alice", "/a.txt", &hm(&[])), Err(DavError::BadRequest(_))));
}

#[test]
fn transfer_lock_targets_differ_for_move_and_copy() {
    let h = hm(&[("Destination", "https://h/cloud/remote.php/dav/files/alice/dir/b.txt")]);
    let mv = TransferFlow::start(true, "alice", "/a.txt", &h).unwrap();
    assert_eq!(mv.lock_targets(), vec!["/a.txt".to_string(), "/dir/b.txt".to_string()]);
    let cp = TransferFlow::start(false, "alice", "/a.txt", &h).unwrap();
    assert_eq!(cp.lock_targets(), vec!["/dir/b.txt".to_string()]);
}

#[test]
fn upload_helpers() {
    assert!(matches!(upload_user_check("alice", "bob", None), Err(DavError::Forbidden)));
    match upload_user_check("alice", "alice", Some("bad".into())) {
        Err(DavError::BadRequest(m)) => assert_eq!(m, "invalid uid: bad"),
        other => panic!("unexpected {other:?}"),
    }
    assert!(upload_user_check("alice", "alice", None).is_ok());
    let h = hm(&[("Destination", "/dav/files/alice/big%20file.bin")]);
    assert_eq!(upload_destination(&h, "alice").unwrap(), "/big file.bin");
    assert_eq!(destination_for(&h, "alice", "x: ").unwrap(), "/big file.bin");
    let h = hm(&[("X-Crabcloud-Part-Tags", "[]")]);
    assert_eq!(upload_part_tags(&h).unwrap(), "[]");
    match upload_part_tags(&hm(&[])) {
        Err(DavError::BadRequest(m)) => assert_eq!(m, "missing X-Crabcloud-Part-Tags"),
        other => panic!("unexpected {other:?}"),
    }
    let r = upload_etag_reply("abc", true).unwrap();
    assert_eq!(r.status, 201);
    assert_eq!(header_pairs(&r.headers), vec![("content-type", "text/plain; charset=utf-8"), ("etag", "\"abc\"")]);
    match upload_etag_reply("a\nb", false) {
        Err(DavError::Internal(m)) => assert_eq!(m, "invalid etag header: failed to parse header value"),
        other => panic!("unexpected {other:?}"),
    }
}

#[test]
fn trash_and_versions_errors() {
    let e = |k| TrashError { kind: k, message: "boom".to_string() };
    assert!(matches!(trash_err(&e(TrashErrorKind::SourceMissing)), DavError::NotFound));
    assert!(matches!(trash_err(&e(TrashErrorKind::WrongUser)), DavError::Forbidden));
    assert!(matches!(trash_err(&e(TrashErrorKind::RestoreCollision)), DavError::Conflict));
    match trash_err(&e(TrashErrorKind::Other)) {
        DavError::Internal(m) => assert_eq!(m, "trash: boom"),
        other => panic!("unexpected {other:?}"),
    }
    assert_eq!(from_trash_error(&e(TrashErrorKind::RestoreCollision)), (409, "restore collision".to_string()));
    assert_eq!(from_trash_error(&e(TrashErrorKind::SourceMissing)), (404, "source missing".to_string()));
    assert_eq!(from_trash_error(&e(TrashErrorKind::Other)), (500, "boom".to_string()));
    let v = |k| VersionsError { kind: k, message: "rendered".to_string() };
    assert!(matches!(versions_err(&v(VersionsErrorKind::DuplicateSnapshot)), DavError::Conflict));
    match versions_err(&v(VersionsErrorKind::Io("disk".into()))) {
        DavError::Internal(m) => assert_eq!(m, "versions io: disk"),
        other => panic!("unexpected {other:?}"),
    }
    assert_eq!(from_versions_error(&v(VersionsErrorKind::SourceMissing)), (404, "not found".to_string()));
    assert_eq!(from_versions_error(&v(VersionsErrorKind::WrongUser)), (403, "forbidden".to_string()));
    assert_eq!(from_versions_error(&v(VersionsErrorKind::Db("x".into()))), (500, "rendered".to_string()));
}

#[test]
fn version_restore_destination_rules() {
    match restore_destination(&hm(&[]), "alice") {
        Err(DavError::BadRequest(m)) => assert_eq!(m, "Destination header required"),
        other => panic!("unexpected {other:?}"),
    }
    let d = restore_destination(&hm(&[("Destination", "/remote.php/dav/files/alice/f.txt")]), "alice").unwrap();
    assert_eq!(d, "/f.txt");
    assert!(restore_target_check("/f.txt", "/f.txt").is_ok());
    match restore_target_check("/g.txt", "/f.txt") {
        Err(DavError::BadRequest(m)) => assert_eq!(m, "Destination must match the file's current path (/f.txt)"),
        other => panic!("unexpected {other:?}"),
    }
}

#[test]
fn trash_listing_body() {
    let file = TrashItem {
        basename: "a b.txt".into(),
        suffix: "d100".into(),
        location: "/docs/".into(),
        deleted_at: 100,
        is_dir: false,
    };
    let dir = TrashItem {
        basename: "old".into(),
        suffix: "d200".into(),
        location: "/".into(),
        deleted_at: -5,
        is_dir: true,
    };
    assert_eq!(original_location("/docs/", "a b.txt"), "/docs/a b.txt");
    assert_eq!(original_location("/", "old"), "/old");
    let body = trash_root_body("alice", &vec![(file.clone(), Some(7)), (dir.clone(), Some(9))]);
    assert!(body.starts_with("<?xml version=\"1.0\" encoding=\"utf-8\"?><d:multistatus"));
    assert!(body.contains("<d:href>/remote.php/dav/trashbin/alice/trash/</d:href>"));
    assert!(body.contains("<d:displayname>trash</d:displayname>"));
    assert!(body.contains("<d:href>/remote.php/dav/trashbin/alice/trash/a%20b.txt.d100</d:href>"));
    assert!(body.contains("<d:getcontentlength>7</d:getcontentlength>"));
    assert!(!body.contains("<d:getcontentlength>9</d:getcontentlength>"));
    assert!(body.contains("<nc:trashbin-original-location>/docs/a b.txt</nc:trashbin-original-location>"));
    assert!(body.contains("<nc:trashbin-deletion-time>-5</nc:trashbin-deletion-time>"));
    assert!(body.contains("<d:getlastmodified>Thu, 01 Jan 1970 00:00:00 GMT</d:getlastmodified>"));
    assert!(body.ends_with("</d:multistatus>"));
    let one = trash_entry_body("alice", &dir, None);
    assert!(one.contains("<d:resourcetype><d:collection/></d:resourcetype><d:displayname>old</d:displayname>"));
}

#[test]
fn versions_listing_body() {
    let v = VersionItem {
        size: 12,
        version_mtime: 1716000000,
        path: "/docs/r.txt".into(),
        display_name: "r.txt".into(),
    };
    let body = versions_root_body("alice", 42, &vec![v.clone()]);
    assert!(body.contains("<d:href>/remote.php/dav/versions/alice/42/</d:href>"));
    assert!(body.contains("<d:displayname>42</d:displayname>"));
    assert!(body.contains("<d:href>/remote.php/dav/versions/alice/42/1716000000</d:href>"));
    assert!(body.contains("<d:resourcetype></d:resourcetype><d:displayname>r.txt</d:displayname><d:getcontenttype>application/octet-stream</d:getcontenttype>"));
    let one = version_entry_body("alice", 42, &v);
    assert!(one.contains("<d:getcontentlength>12</d:getcontentlength>"));
    assert_eq!(find_version(&vec![v.clone()], 1716000000).unwrap(), 0);
    assert!(matches!(find_version(&vec![v], 1), Err(DavError::NotFound)));
    assert_eq!(version_basename("/docs/r.txt").unwrap(), "r.txt");
    let hs = version_download_headers(12);
    assert_eq!(header_pairs(&hs), vec![("content-type", "application/octet-stream"), ("content-length", "12")]);
    assert_eq!(listing_depth(&hm(&[])).unwrap(), true);
    assert_eq!(listing_depth(&hm(&[("Depth", "0")])).unwrap(), false);
}

#[test]
fn xml_writers() {
    let mut props = XmlDoc::new();
    write_leaf(&mut props, "d:displayname", "a&b");
    write_empty(&mut props, "d:collection");
    let props = props.into_string();
    let mut ps = XmlDoc::new();
    write_propstat(&mut ps, "HTTP/1.1 200 OK", &props);
    let ps = ps.into_string();
    let mut d = XmlDoc::new();
    write_response(&mut d, "/x", &ps);
    assert_eq!(
        d.into_string(),
        "<d:response><d:href>/x</d:href><d:propstat><d:prop><d:displayname>a&amp;b</d:displayname><d:collection/></d:prop><d:status>HTTP/1.1 200 OK</d:status></d:propstat></d:response>"
    );
}

#[test]
fn version_names_and_owner() {
    assert_eq!(display_or_path(Some("r.txt".into()), "/docs/r.txt"), "r.txt");
    assert_eq!(display_or_path(None, "/"), "/");
    assert_eq!(version_display_name("/docs/r.txt"), "r.txt");
    assert_eq!(version_display_name("/"), "/");
    assert_eq!(version_display_name("/docs/.."), "/docs/..");
    assert!(matches!(version_basename("/docs/.."), Err(DavError::Internal(_))));
    assert_eq!(basename_or_error(Some("r.txt".into()), "/docs/r.txt").unwrap(), "r.txt");
    match basename_or_error(None, "/") {
        Err(DavError::Internal(m)) => assert_eq!(m, "versions: malformed path /"),
        other => panic!("unexpected {other:?}"),
    }
    assert!(restore_owner_check("alice", "alice").is_ok());
    assert!(matches!(restore_owner_check("bob", "alice"), Err(VersionsErrorKind::WrongUser)));
}

#[test]
fn lock_gate_over_resource_and_ancestors() {
    let none: Vec<String> = vec![];
    let shallow = LockInfo { depth: "0".to_string(), token: "urn:uuid:p".to_string() };
    let deep = LockInfo { depth: "infinity".to_string(), token: "urn:uuid:q".to_string() };
    assert!(lock_check(vec![Ok(None), Ok(Some(shallow.clone())), Ok(None)], &none).is_ok());
    assert!(matches!(lock_check(vec![Ok(None), Ok(Some(deep.clone()))], &none), Err(DavError::Locked)));
    assert!(matches!(lock_check(vec![Ok(Some(shallow.clone()))], &none), Err(DavError::Locked)));
    assert!(lock_check(vec![Ok(Some(deep.clone()))], &vec!["urn:uuid:q".to_string()]).is_ok());
    assert!(matches!(lock_check(vec![Ok(None), Err(DavError::Conflict), Ok(Some(deep))], &none), Err(DavError::Conflict)));
    assert!(lock_check(vec![], &none).is_ok());
}

#[test]
fn lock_acquisition_flow() {
    let (mut f, a) = AcquireFlow::start("alice", "/a.txt", &hm(&[("Depth", "infinity")]), vec![], 600);
    assert!(matches!(a, AcquireAction::Stat));
    assert!(matches!(f.step(AcquireEvent::Statted(Ok(()))), AcquireAction::LookUp(ref k) if k == "files/alice/a.txt"));
    assert!(matches!(f.step(AcquireEvent::Found(Ok(None))), AcquireAction::ReadBody));
    match f.step(AcquireEvent::BodyRead(Ok(b"<o/>".to_vec()))) {
        AcquireAction::Acquire { key, token, depth, owner } => {
            assert_eq!(key, "files/alice/a.txt");
            assert_eq!(token, f.token);
            assert_eq!(depth, "infinity");
            assert_eq!(owner.as_deref(), Some("<o/>"));
        }
        other => panic!("unexpected {other:?}"),
    }
    match f.step(AcquireEvent::Acquired(Ok(()))) {
        AcquireAction::Respond(x) => {
            assert_eq!(x.status, 200);
            assert!(x.body.contains("<d:depth>infinity</d:depth>"));
            assert!(x.body.contains("<d:timeout>Second-600</d:timeout>"));
        }
        other => panic!("unexpected {other:?}"),
    }
    assert_eq!(f.phase, AcquirePhase::Done);
    let held = LockInfo { depth: "0".to_string(), token: "urn:uuid:x".to_string() };
    let (mut g, _) = AcquireFlow::start("alice", "/", &hm(&[("Depth", "bogus")]), vec![], 60);
    assert!(matches!(g.step(AcquireEvent::Statted(Ok(()))), AcquireAction::LookUp(ref k) if k == "files/alice"));
    assert!(matches!(g.step(AcquireEvent::Found(Ok(Some(held)))), AcquireAction::Fail(DavError::Locked)));
    let (mut h, _) = AcquireFlow::start("alice", "/", &hm(&[("Depth", "bogus")]), vec![], 60);
    h.step(AcquireEvent::Statted(Ok(())));
    assert!(matches!(h.step(AcquireEvent::Found(Ok(None))), AcquireAction::Fail(DavError::BadRequest(_))));
    let (mut k, _) = AcquireFlow::start("alice", "/a", &hm(&[]), vec![], 60);
    assert!(matches!(k.step(AcquireEvent::Statted(Err(DavError::NotFound))), AcquireAction::Fail(DavError::NotFound)));
}

#[test]
fn dav_error_replies_are_plain_text() {
    let r = DavError::BadRequest("bad".into()).into_reply();
    assert_eq!((r.status, r.body.as_str()), (400, "bad"));
    assert_eq!(header_pairs(&r.headers), vec![("content-type", "text/plain; charset=utf-8")]);
    let r = DavError::RangeNotSatisfiable { file_size: 7 }.into_reply();
    assert_eq!(r.status, 416);
    assert_eq!(
        header_pairs(&r.headers),
        vec![("content-type", "text/plain; charset=utf-8"), ("content-range", "bytes */7")]
    );
    let r = DavError::PropfindFiniteDepth.into_reply();
    assert_eq!(header_pairs(&r.headers), vec![("content-type", "application/xml; charset=utf-8")]);
}
