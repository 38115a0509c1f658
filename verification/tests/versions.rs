use crabcloud_http::dav_error::DavError;
use crabcloud_http::versions::{parse_destination, parse_fileid, parse_version_mtime};

#[test]
fn parse_fileid_accepts_positive_int() {
    assert_eq!(parse_fileid("42").unwrap(), 42);
    assert_eq!(parse_fileid("0").unwrap(), 0);
}

#[test]
fn parse_fileid_rejects_non_numeric() {
    assert!(matches!(parse_fileid("abc"), Err(DavError::NotFound)));
    assert!(matches!(parse_fileid(""), Err(DavError::NotFound)));
}

#[test]
fn parse_fileid_rejects_negative() {
    assert!(matches!(parse_fileid("-1"), Err(DavError::NotFound)));
}

#[test]
fn parse_fileid_accepts_plus_sign_and_rejects_overflow() {
    assert_eq!(parse_fileid("+7").unwrap(), 7);
    assert!(matches!(
        parse_fileid("9223372036854775808"),
        Err(DavError::NotFound)
    ));
    assert_eq!(
        parse_fileid("9223372036854775807").unwrap(),
        i64::MAX
    );
}

#[test]
fn parse_version_mtime_accepts_positive_int() {
    assert_eq!(parse_version_mtime("1716000000").unwrap(), 1_716_000_000);
}

#[test]
fn copy_parse_destination_strips_legacy_prefix() {
    let p = parse_destination("/remote.php/dav/files/alice/foo/bar.txt", "alice").unwrap();
    assert_eq!(p, "/foo/bar.txt");
}

#[test]
fn copy_parse_destination_strips_modern_prefix() {
    let p = parse_destination("/dav/files/alice/x.txt", "alice").unwrap();
    assert_eq!(p, "/x.txt");
}

#[test]
fn copy_parse_destination_rejects_wrong_user() {
    let r = parse_destination("/dav/files/bob/x.txt", "alice");
    assert!(matches!(r, Err(DavError::BadRequest(_))));
}

#[test]
fn copy_parse_destination_decodes_percent_escapes() {
    let p = parse_destination("/dav/files/alice/hello%20world.txt", "alice").unwrap();
    assert_eq!(p, "/hello world.txt");
}

#[test]
fn copy_parse_destination_drops_query_and_fragment() {
    let p = parse_destination("https://h/dav/files/alice/a.txt?x=1#frag", "alice").unwrap();
    assert_eq!(p, "/a.txt");
    let q = parse_destination("/dav/files/alice/b.txt#f?g", "alice").unwrap();
    assert_eq!(q, "/b.txt");
}
