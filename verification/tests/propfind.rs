use crabcloud_http::dav_error::DavError;
use crabcloud_http::headers::{Depth, HeaderMap};
use crabcloud_http::propfind::{
    favorite_of, href_for, lists_children, multistatus_reply, oc_id, permission_str,
    propfind_body, propfind_depth, propfind_listing_body, FileKind, Permissions, PropfindContext, PropfindEntry,
};

#[test]
fn permission_str_full_file() {
    let s = permission_str(Permissions::full(), FileKind::File);
    assert_eq!(s, "RDNVWC");
}

#[test]
fn permission_str_full_dir_includes_k() {
    let s = permission_str(Permissions::full(), FileKind::Directory);
    assert_eq!(s, "RDNVWCK");
}

#[test]
fn permission_str_readonly() {
    let s = permission_str(Permissions::readonly(), FileKind::File);
    assert_eq!(s, "");
}

#[test]
fn permission_str_partial() {
    assert_eq!(permission_str(Permissions::new(2 | 8), FileKind::File), "DNVW");
    assert_eq!(permission_str(Permissions::new(4), FileKind::Directory), "CK");
}

#[test]
fn oc_id_zero_pads_fileid() {
    assert_eq!(oc_id(42, "abc"), "00000000000000000042abc");
    assert_eq!(oc_id(0, "x"), "00000000000000000000x");
}

#[test]
fn oc_id_negative_counts_sign_in_width() {
    assert_eq!(oc_id(-5, "i"), "-0000000000000000005i");
}

#[test]
fn href_root_has_trailing_slash() {
    assert_eq!(href_for("/remote.php/dav/files", "alice", "/", true), "/remote.php/dav/files/alice/");
    assert_eq!(
        href_for("/remote.php/dav/files", "alice", "/a/b.txt", false),
        "/remote.php/dav/files/alice/a/b.txt"
    );
}

#[test]
fn favorites_last_answer_wins() {
    let favs = vec![
        ("a".to_string(), Some("1".to_string())),
        ("b".to_string(), None),
        ("a".to_string(), Some("0".to_string())),
    ];
    assert_eq!(favorite_of(&favs, "a"), "0");
    assert_eq!(favorite_of(&favs, "b"), "0");
    assert_eq!(favorite_of(&favs, "c"), "0");
    assert_eq!(favorite_of(&vec![("c".to_string(), Some("1".to_string()))], "c"), "1");
}

#[test]
fn depth_rules() {
    let mut h = HeaderMap::new();
    assert_eq!(propfind_depth(&h).unwrap(), Depth::One);
    h.insert("depth", "infinity");
    assert!(matches!(propfind_depth(&h), Err(DavError::PropfindFiniteDepth)));
    h.insert("depth", "x");
    assert!(matches!(propfind_depth(&h), Err(DavError::BadRequest(_))));
    assert!(lists_children(Depth::One, FileKind::Directory));
    assert!(!lists_children(Depth::Zero, FileKind::Directory));
    assert!(!lists_children(Depth::One, FileKind::File));
    let reply = DavError::PropfindFiniteDepth.into_reply();
    assert_eq!(reply.status, 403);
    assert!(reply.body.contains("<d:propfind-finite-depth/>"));
}

#[test]
fn propfind_body_for_directory_and_child() {
    let ctx = PropfindContext {
        href_prefix: "/remote.php/dav/files".into(),
        root_label: "alice".into(),
        instanceid: "oc1".into(),
    };
    let entries = vec![
        PropfindEntry {
            path: "/".into(),
            is_root: true,
            basename: "".into(),
            kind: FileKind::Directory,
            size: 3,
            mimetype: "httpd/unix-directory".into(),
            etag: "e1".into(),
            mtime_secs: 0,
            fileid: 1,
            permissions: Permissions::full(),
            cache_path: "files".into(),
        },
        PropfindEntry {
            path: "/a&b.txt".into(),
            is_root: false,
            basename: "a&b.txt".into(),
            kind: FileKind::File,
            size: 3,
            mimetype: "text/plain".into(),
            etag: "e2".into(),
            mtime_secs: 86400,
            fileid: 2,
            permissions: Permissions::readonly(),
            cache_path: "files/a&b.txt".into(),
        },
    ];
    let favs = vec![("files/a&b.txt".to_string(), Some("1".to_string()))];
    let body = propfind_body(&ctx, &entries, &favs);
    let expected = [
        "<?xml version=\"1.0\" encoding=\"utf-8\"?>",
        "<d:multistatus xmlns:d=\"DAV:\" xmlns:oc=\"http://owncloud.org/ns\" xmlns:nc=\"http://nextcloud.org/ns\">",
        "<d:response><d:href>/remote.php/dav/files/alice/</d:href><d:propstat><d:prop>",
        "<d:getetag>&quot;e1&quot;</d:getetag>",
        "<d:getlastmodified>Thu, 01 Jan 1970 00:00:00 GMT</d:getlastmodified>",
        "<d:resourcetype><d:collection/></d:resourcetype>",
        "<d:displayname>alice</d:displayname>",
        "<oc:id>00000000000000000001oc1</oc:id>",
        "<oc:permissions>RDNVWCK</oc:permissions>",
        "<oc:size>3</oc:size>",
        "<oc:favorite>0</oc:favorite>",
        "</d:prop><d:status>HTTP/1.1 200 OK</d:status></d:propstat></d:response>",
        "<d:response><d:href>/remote.php/dav/files/alice/a&amp;b.txt</d:href><d:propstat><d:prop>",
        "<d:getcontentlength>3</d:getcontentlength>",
        "<d:getcontenttype>text/plain</d:getcontenttype>",
        "<d:getetag>&quot;e2&quot;</d:getetag>",
        "<d:getlastmodified>Fri, 02 Jan 1970 00:00:00 GMT</d:getlastmodified>",
        "<d:resourcetype></d:resourcetype>",
        "<d:displayname>a&amp;b.txt</d:displayname>",
        "<oc:id>00000000000000000002oc1</oc:id>",
        "<oc:permissions></oc:permissions>",
        "<oc:size>3</oc:size>",
        "<oc:favorite>1</oc:favorite>",
        "</d:prop><d:status>HTTP/1.1 200 OK</d:status></d:propstat></d:response>",
        "</d:multistatus>",
    ]
    .join("");
    assert_eq!(body, expected);
    let reply = multistatus_reply(body);
    assert_eq!(reply.status, 207);
    assert_eq!(
        reply.headers,
        vec![("content-type".to_string(), "application/xml; charset=utf-8".to_string())]
    );
}

fn listing_entry(path: &str, kind: FileKind, fileid: i64) -> PropfindEntry {
    PropfindEntry {
        path: path.into(),
        is_root: path == "/",
        basename: path.trim_start_matches('/').into(),
        kind,
        size: 1,
        mimetype: "text/plain".into(),
        etag: "e".into(),
        mtime_secs: 0,
        fileid,
        permissions: Permissions::full(),
        cache_path: format!("files{path}"),
    }
}

#[test]
fn propfind_listing_counts_responses_by_depth() {
    let ctx = PropfindContext {
        href_prefix: "/remote.php/dav/files".into(),
        root_label: "alice".into(),
        instanceid: "oc1".into(),
    };
    let favs: Vec<(String, Option<String>)> = Vec::new();
    let kids = || vec![listing_entry("/d/x", FileKind::File, 2), listing_entry("/d/y", FileKind::File, 3)];
    let dir = || listing_entry("/d", FileKind::Directory, 1);
    let one = propfind_listing_body(&ctx, dir(), kids(), Depth::One, &favs);
    assert_eq!(one.matches("<d:response>").count(), 3);
    let first = one.find("<d:href>").unwrap();
    assert!(one[first..].starts_with("<d:href>/remote.php/dav/files/alice/d</d:href>"));
    assert!(one.find("/alice/d/x<").unwrap() < one.find("/alice/d/y<").unwrap());
    let zero = propfind_listing_body(&ctx, dir(), kids(), Depth::Zero, &favs);
    assert_eq!(zero.matches("<d:response>").count(), 1);
    assert_eq!(zero, propfind_body(&ctx, &vec![dir()], &favs));
    let file = propfind_listing_body(&ctx, listing_entry("/f", FileKind::File, 4), kids(), Depth::One, &favs);
    assert_eq!(file.matches("<d:response>").count(), 1);
}
