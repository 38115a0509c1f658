use crabcloud_http::dav_error::{
    FileCacheError, FileCacheErrorKind, FsError, FsErrorKind, StorageError, StorageErrorKind,
};
use crabcloud_http::headers::HeaderMap;
use crabcloud_http::preview::{
    composite_etag, default_size, file_preview_entry, public_preview_gate, public_preview_path, public_preview_target,
    row_lookup_reply, storage_mounted, user_path_for_row, MountInfo, PreviewAction, PreviewEvent, PreviewFailure,
    PreviewFlow, PreviewPhase,
};
use crabcloud_http::public_link::{
    collision_candidate, download_headers, download_plan, fs_err_to_response, is_https,
    download_gate, link_expired, upload_gate, CollisionSearch, CollisionStep, Unlock, UnlockAction, UnlockEvent,
    UnlockPhase,
};
use crabcloud_http::router::{cors_origins, public_dav_gate, public_link_gate, DEFAULT_BODY_LIMIT_BYTES};
use crabcloud_http::zip::{
    basename_for_zip, public_zip_basename, public_zip_headers, zip_user_path, ZipAction,
    ZipEvent, ZipFlow, ZipPhase, ZipWalk,
};

fn hm(pairs: &[(&str, &str)]) -> HeaderMap {
    let mut h = HeaderMap::new();
    for (k, v) in pairs {
        h.insert(k, v);
    }
    h
}

fn header_pairs(hs: &[(String, String)]) -> Vec<(&str, &str)> {
    hs.iter().map(|(a, b)| (a.as_str(), b.as_str())).collect()
}

fn fs(kind: FsErrorKind) -> FsError {
    FsError { kind, message: "m".to_string() }
}

#[test]
fn preview_etag_and_paths() {
    assert_eq!(default_size(), 64);
    assert_eq!(composite_etag("abc", 256), "\"abc-256\"");
    assert_eq!(public_preview_path("//a/b.jpg"), "/a/b.jpg");
    assert_eq!(public_preview_path(""), "/");
}

#[test]
fn preview_flow_answers_304_on_matching_etag() {
    let h = hm(&[("If-None-Match", "\"e1-256\"")]);
    let (mut f, a) = PreviewFlow::start(true, "e1", 200, &h);
    assert!(matches!(a, PreviewAction::Snap(200)));
    match f.step(PreviewEvent::Snapped(Ok(256))) {
        PreviewAction::Respond { reply, stream_body } => {
            assert_eq!(reply.status, 304);
            assert!(!stream_body);
        }
        other => panic!("unexpected {other:?}"),
    }
    assert_eq!(f.phase, PreviewPhase::Done);
}

#[test]
fn preview_flow_renders_and_serves() {
    let (mut f, _) = PreviewFlow::start(true, "e1", 64, &hm(&[]));
    assert!(matches!(f.step(PreviewEvent::Snapped(Ok(64))), PreviewAction::Render));
    assert!(matches!(f.step(PreviewEvent::Rendered(Ok(()))), PreviewAction::Open));
    match f.step(PreviewEvent::Opened(Ok(1234))) {
        PreviewAction::Respond { reply, stream_body } => {
            assert_eq!(reply.status, 200);
            assert!(stream_body);
            assert_eq!(
                header_pairs(&reply.headers),
                vec![
                    ("content-type", "image/jpeg"),
                    ("content-length", "1234"),
                    ("etag", "\"e1-64\""),
                    ("cache-control", "private, max-age=86400"),
                ]
            );
        }
        other => panic!("unexpected {other:?}"),
    }
}

#[test]
fn preview_flow_failures() {
    let (_, a) = PreviewFlow::start(false, "e1", 64, &hm(&[]));
    assert!(matches!(a, PreviewAction::Respond { ref reply, .. } if reply.status == 415));
    let (mut f, _) = PreviewFlow::start(true, "e1", 64, &hm(&[]));
    assert!(matches!(f.step(PreviewEvent::Snapped(Err(()))), PreviewAction::Respond { ref reply, .. } if reply.status == 400));
    for (fail, code) in [
        (PreviewFailure::SizeOutOfRange, 400),
        (PreviewFailure::Unsupported, 415),
        (PreviewFailure::SourceTooLarge, 413),
        (PreviewFailure::SourceNotFound, 404),
        (PreviewFailure::Other("x".into()), 500),
    ] {
        let (mut f, _) = PreviewFlow::start(true, "e1", 64, &hm(&[]));
        f.step(PreviewEvent::Snapped(Ok(64)));
        match f.step(PreviewEvent::Rendered(Err(fail))) {
            PreviewAction::Respond { reply, .. } => assert_eq!(reply.status, code),
            other => panic!("unexpected {other:?}"),
        }
    }
    let (mut f, _) = PreviewFlow::start(true, "e1", 64, &hm(&[]));
    f.step(PreviewEvent::Snapped(Ok(64)));
    f.step(PreviewEvent::Rendered(Ok(())));
    assert!(matches!(f.step(PreviewEvent::Opened(Err(()))), PreviewAction::Respond { ref reply, .. } if reply.status == 500));
}

#[test]
fn preview_entry_checks() {
    let x = public_preview_gate(true, true).unwrap();
    assert_eq!((x.status, x.body.as_str(), header_pairs(&x.headers)), (403, "password_required", vec![("content-type", "text/plain; charset=utf-8")]));
    let x = public_preview_gate(false, false).unwrap();
    assert_eq!((x.status, x.body.as_str(), header_pairs(&x.headers)), (403, "read_not_granted", vec![("content-type", "text/plain; charset=utf-8")]));
    assert!(public_preview_gate(false, true).is_none());
    assert_eq!(public_preview_target(false, Ok(true)).unwrap().body, "invalid path");
    assert_eq!(public_preview_target(true, Ok(false)).unwrap().body, "not a file");
    assert_eq!(public_preview_target(true, Err(fs(FsErrorKind::NotFound))).unwrap().status, 404);
    assert!(public_preview_target(true, Ok(true)).is_none());
    assert!(row_lookup_reply(Ok(true)).is_none());
    assert_eq!(row_lookup_reply(Ok(false)).unwrap().status, 404);
    assert_eq!(row_lookup_reply(Err(())).unwrap().status, 500);
    let mounts = vec![MountInfo {
        storage_id: "home::alice".into(),
        inner_owner_path: None,
        path_prefix: String::new(),
        prefix_is_root: true,
    }];
    assert_eq!(file_preview_entry(false, Ok(Some("home::alice")), Ok(&mounts)).unwrap().status, 500);
    assert_eq!(file_preview_entry(true, Ok(None), Ok(&mounts)).unwrap().status, 404);
    assert_eq!(file_preview_entry(true, Err(()), Ok(&mounts)).unwrap().status, 500);
    assert_eq!(file_preview_entry(true, Ok(Some("home::alice")), Err(())).unwrap().status, 500);
    assert_eq!(file_preview_entry(true, Ok(Some("home::bob")), Ok(&mounts)).unwrap().status, 404);
    assert!(file_preview_entry(true, Ok(Some("home::alice")), Ok(&mounts)).is_none());
    assert!(storage_mounted(&mounts, "home::alice"));
    assert!(!storage_mounted(&mounts, "home::bob"));
}

#[test]
fn user_path_of_cache_rows() {
    let home = MountInfo {
        storage_id: "home::alice".into(),
        inner_owner_path: None,
        path_prefix: String::new(),
        prefix_is_root: true,
    };
    let share = MountInfo {
        storage_id: "home::bob".into(),
        inner_owner_path: Some("Photos".into()),
        path_prefix: "Shared/Photos".into(),
        prefix_is_root: false,
    };
    let mounts = vec![home, share];
    assert_eq!(user_path_for_row(&mounts, "home::alice", "files/a.jpg", false).as_deref(), Some("/files/a.jpg"));
    assert_eq!(user_path_for_row(&mounts, "home::alice", "", true).as_deref(), Some("/"));
    assert_eq!(user_path_for_row(&mounts, "home::bob", "Photos/x.jpg", false).as_deref(), Some("/Shared/Photos/x.jpg"));
    assert_eq!(user_path_for_row(&mounts, "home::bob", "Photos", false).as_deref(), Some("/Shared/Photos"));
    assert_eq!(user_path_for_row(&mounts, "home::bob", "Other/x.jpg", false), None);
    assert_eq!(user_path_for_row(&mounts, "home::carol", "x", false), None);
}

#[test]
fn zip_paths_and_names() {
    assert_eq!(zip_user_path(""), "/");
    assert_eq!(zip_user_path("//Photos/2024"), "/Photos/2024");
    assert_eq!(basename_for_zip("/", "alice"), "alice");
    assert_eq!(basename_for_zip("/Photos/2024/", "alice"), "2024");
    assert_eq!(public_zip_basename("2024", "/x", "tok"), "2024");
    assert_eq!(public_zip_basename("", "/home/Shared/", "tok"), "Shared");
    assert_eq!(public_zip_basename("", "/", "tok"), "tok");
    assert_eq!(public_zip_basename("", "Docs", "tok"), "Docs");
    let hs = public_zip_headers("Mes photos é");
    assert_eq!(
        header_pairs(&hs),
        vec![
            ("content-type", "application/zip"),
            (
                "content-disposition",
                "attachment; filename=\"Mes_photos__.zip\"; filename*=UTF-8''Mes%20photos%20%C3%A9.zip"
            ),
        ]
    );
}

#[test]
fn zip_flow_gates_and_caps() {
    let (_, a) = ZipFlow::start(Some((true, true)), true);
    assert!(matches!(a, ZipAction::Respond(ref x) if x.status == 403 && x.body == "password_required"));
    let (_, a) = ZipFlow::start(Some((false, false)), true);
    assert!(matches!(a, ZipAction::Respond(ref x) if x.body == "read_not_permitted"));
    let (_, a) = ZipFlow::start(None, false);
    assert!(matches!(a, ZipAction::Respond(ref x) if x.status == 400 && x.body == "invalid path"));
    let (mut f, a) = ZipFlow::start(None, true);
    assert!(matches!(a, ZipAction::BuildView));
    assert!(matches!(f.step(ZipEvent::ViewBuilt(Ok(()))), ZipAction::Stat));
    assert!(matches!(f.step(ZipEvent::Statted(Ok(true))), ZipAction::Walk));
    assert!(matches!(
        f.step(ZipEvent::Walked(ZipWalk::TooLarge { count: 9, bytes: 10 })),
        ZipAction::OverCap { count: 9, bytes: 10 }
    ));
    assert_eq!(f.phase, ZipPhase::Done);
    let (mut f, _) = ZipFlow::start(None, true);
    f.step(ZipEvent::ViewBuilt(Ok(())));
    assert!(matches!(f.step(ZipEvent::Statted(Ok(false))), ZipAction::Respond(ref x) if x.body == "not a directory"));
    let missing = fs(FsErrorKind::Storage(StorageError { kind: StorageErrorKind::NotFound, message: String::new() }));
    let (mut f, _) = ZipFlow::start(Some((false, true)), true);
    f.step(ZipEvent::ViewBuilt(Ok(())));
    assert!(matches!(f.step(ZipEvent::Statted(Err(missing))), ZipAction::Respond(ref x) if x.status == 404));
    let (mut f, _) = ZipFlow::start(Some((false, true)), true);
    assert!(matches!(f.step(ZipEvent::ViewBuilt(Err(fs(FsErrorKind::Forbidden)))), ZipAction::Respond(ref x) if x.status == 403));
    let (mut f, _) = ZipFlow::start(None, true);
    assert!(matches!(f.step(ZipEvent::ViewBuilt(Err(fs(FsErrorKind::Forbidden)))), ZipAction::Respond(ref x) if x.status == 500));
}

#[test]
fn router_decisions() {
    assert_eq!(DEFAULT_BODY_LIMIT_BYTES, 512 * 1024 * 1024);
    let origins = cors_origins(&vec!["cloud.example".to_string(), "bad\u{1}".to_string()]);
    assert_eq!(origins, vec!["https://cloud.example".to_string(), "http://cloud.example".to_string()]);
    assert!(public_link_gate("/s/abc/download/x"));
    assert!(!public_link_gate("/index.php/login"));
    assert!(public_dav_gate("/public.php/dav/files/tok/a"));
    assert!(!public_dav_gate("/remote.php/dav/files/alice"));
    assert!(is_https(&Some("HTTPS".to_string())));
    assert!(!is_https(&None));
}

#[test]
fn fs_errors_map_to_plain_replies() {
    let r = fs_err_to_response(&fs(FsErrorKind::InvalidPath("bad".into())));
    assert_eq!((r.status, r.body.as_str()), (400, "bad"));
    let r = fs_err_to_response(&fs(FsErrorKind::Storage(StorageError { kind: StorageErrorKind::Other, message: "disk".into() })));
    assert_eq!((r.status, r.body.as_str()), (500, "storage error: disk"));
    let r = fs_err_to_response(&fs(FsErrorKind::FileCache(FileCacheError { kind: FileCacheErrorKind::Other, message: "db".into() })));
    assert_eq!((r.status, r.body.as_str()), (500, "filecache error: db"));
    assert_eq!(fs_err_to_response(&fs(FsErrorKind::CrossMount)).status, 502);
    assert_eq!(fs_err_to_response(&fs(FsErrorKind::Unsupported)).status, 405);
}

#[test]
fn download_plan_and_headers() {
    assert_eq!(download_plan(true, 5, &hm(&[])).unwrap_err().body, "is a directory");
    let e = download_plan(false, 5, &hm(&[("Range", "bytes=9-")])).unwrap_err();
    assert_eq!(e.status, 416);
    assert_eq!(header_pairs(&e.headers), vec![("content-type", "text/plain; charset=utf-8"), ("content-range", "bytes */5")]);
    let p = download_plan(false, 5, &hm(&[("Range", "bytes=1-2")])).unwrap();
    let hs = download_headers(&p, "text/plain", "e", 0);
    assert_eq!(
        header_pairs(&hs),
        vec![
            ("content-length", "2"),
            ("content-type", "text/plain"),
            ("etag", "\"e\""),
            ("last-modified", "Thu, 01 Jan 1970 00:00:00 GMT"),
            ("accept-ranges", "bytes"),
            ("content-range", "bytes 1-2/5"),
        ]
    );
}

#[test]
fn upload_collisions_and_gate() {
    assert_eq!(collision_candidate("a.txt", 2), "a (2).txt");
    assert_eq!(collision_candidate("README", 1), "README (1)");
    let (mut s, first) = CollisionSearch::new("a.txt");
    assert_eq!(first, "a.txt");
    match s.step(Ok(())) {
        CollisionStep::Probe(n) => assert_eq!(n, "a (1).txt"),
        other => panic!("unexpected {other:?}"),
    }
    match s.step(Err(fs(FsErrorKind::NotFound))) {
        CollisionStep::Use(n) => assert_eq!(n, "a (1).txt"),
        other => panic!("unexpected {other:?}"),
    }
    let (mut s, _) = CollisionSearch::new("b");
    for _ in 0..50 {
        assert!(matches!(s.step(Ok(())), CollisionStep::Probe(_)));
    }
    match s.step(Ok(())) {
        CollisionStep::Fail(x) => assert_eq!((x.status, x.body.as_str()), (409, "too many name collisions")),
        other => panic!("unexpected {other:?}"),
    }
    assert_eq!(upload_gate(false, false, "a", None).unwrap().body, "create_not_permitted");
    assert_eq!(upload_gate(false, true, "../x", None).unwrap().body, "invalid filename");
    let t = upload_gate(false, true, "a", Some(30)).unwrap();
    assert_eq!(header_pairs(&t.headers), vec![("content-type", "text/plain; charset=utf-8"), ("retry-after", "30")]);
    assert!(upload_gate(false, true, "a", None).is_none());
}

#[test]
fn unlock_flow_sets_cookie_and_redirects() {
    let (mut u, a) = Unlock::new("tok", true, true);
    assert!(matches!(a, UnlockAction::CheckRate));
    assert!(matches!(u.step(UnlockEvent::RateChecked(None)), UnlockAction::Lookup));
    match u.step(UnlockEvent::LookedUp(Ok(Some((Some((1_700_000_100, 0)), Some("hash".into())))), (1_700_000_000, 500))) {
        UnlockAction::VerifyPassword { hash } => assert_eq!(hash, "hash"),
        other => panic!("unexpected {other:?}"),
    }
    assert!(matches!(u.step(UnlockEvent::PasswordChecked(true)), UnlockAction::SignCookie));
    match u.step(UnlockEvent::Signed { name: "pl_tok".into(), value: "v".into() }) {
        UnlockAction::Respond(x) => {
            assert_eq!(x.status, 303);
            assert_eq!(
                header_pairs(&x.headers),
                vec![
                    ("content-type", "text/plain; charset=utf-8"),
                    ("set-cookie", "pl_tok=v; Path=/; Max-Age=3600; HttpOnly; Secure; SameSite=Lax"),
                    ("location", "/s/tok"),
                ]
            );
        }
        other => panic!("unexpected {other:?}"),
    }
    assert_eq!(u.phase, UnlockPhase::Done);
}

#[test]
fn unlock_flow_refusals() {
    let (_, a) = Unlock::new("tok", false, false);
    assert!(matches!(a, UnlockAction::Respond(ref x) if x.status == 404));
    let (mut u, _) = Unlock::new("tok", true, false);
    assert!(matches!(u.step(UnlockEvent::RateChecked(Some(60))), UnlockAction::Respond(ref x) if x.status == 429));
    let (mut u, _) = Unlock::new("tok", true, false);
    u.step(UnlockEvent::RateChecked(None));
    assert!(matches!(u.step(UnlockEvent::LookedUp(Ok(Some((Some((1_700_000_000, 499)), Some("h".into())))), (1_700_000_000, 500))), UnlockAction::Respond(ref x) if x.status == 404));
    let (mut u, _) = Unlock::new("tok", true, false);
    u.step(UnlockEvent::RateChecked(None));
    assert!(matches!(u.step(UnlockEvent::LookedUp(Ok(Some((Some((1_700_000_000, 500)), None))), (1_700_000_000, 500))), UnlockAction::Respond(ref x) if x.status == 400 && x.body == "link has no password"));
    let (mut u, _) = Unlock::new("tok", true, false);
    u.step(UnlockEvent::RateChecked(None));
    u.step(UnlockEvent::LookedUp(Ok(Some((None, Some("h".into())))), (1_700_000_000, 500)));
    assert!(matches!(u.step(UnlockEvent::PasswordChecked(false)), UnlockAction::Respond(ref x) if x.status == 401 && x.body == "wrong password"));
}

#[test]
fn link_expiry_is_strictly_before_now() {
    assert!(!link_expired(None, (10, 0)));
    assert!(link_expired(Some((9, 999_999_999)), (10, 0)));
    assert!(link_expired(Some((10, 1)), (10, 2)));
    assert!(!link_expired(Some((10, 2)), (10, 2)));
    assert!(!link_expired(Some((11, 0)), (10, 999_999_999)));
}

#[test]
fn download_gate_texts() {
    let x = download_gate(true, false).unwrap();
    assert_eq!((x.status, x.body.as_str(), header_pairs(&x.headers)), (403, "password_required", vec![("content-type", "text/plain; charset=utf-8")]));
    let x = download_gate(false, false).unwrap();
    assert_eq!((x.status, x.body.as_str(), header_pairs(&x.headers)), (403, "read_not_permitted", vec![("content-type", "text/plain; charset=utf-8")]));
    assert!(download_gate(false, true).is_none());
}

#[test]
fn unlock_refusals_set_no_cookie() {
    let (mut u, _) = Unlock::new("tok", true, true);
    u.step(UnlockEvent::RateChecked(None));
    u.step(UnlockEvent::LookedUp(Ok(Some((None, Some("h".into())))), (1_700_000_000, 0)));
    match u.step(UnlockEvent::PasswordChecked(false)) {
        UnlockAction::Respond(x) => {
            assert_eq!(x.status, 401);
            assert_eq!(header_pairs(&x.headers), vec![("content-type", "text/plain; charset=utf-8")]);
        }
        other => panic!("unexpected {other:?}"),
    }
    let (mut u, _) = Unlock::new("tok", true, true);
    u.step(UnlockEvent::RateChecked(None));
    match u.step(UnlockEvent::LookedUp(Ok(Some((None, None))), (1_700_000_000, 0))) {
        UnlockAction::Respond(x) => {
            assert_eq!(x.status, 400);
            assert_eq!(header_pairs(&x.headers), vec![("content-type", "text/plain; charset=utf-8")]);
        }
        other => panic!("unexpected {other:?}"),
    }
}
