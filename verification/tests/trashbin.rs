use crabcloud_http::dav_error::DavError;
use crabcloud_http::trashbin::{encode_segment, parse_destination, split_basename_and_suffix};

#[test]
fn split_typical() {
    let (b, s) = split_basename_and_suffix("report.pdf.d1716000000").unwrap();
    assert_eq!(b, "report.pdf");
    assert_eq!(s, "d1716000000");
}

#[test]
fn split_with_collision_suffix() {
    let (b, s) = split_basename_and_suffix("a.txt.d1716000000_2").unwrap();
    assert_eq!(b, "a.txt");
    assert_eq!(s, "d1716000000_2");
}

#[test]
fn split_picks_last_d_boundary() {
    let (b, s) = split_basename_and_suffix("draft.docx.d1716000000").unwrap();
    assert_eq!(b, "draft.docx");
    assert_eq!(s, "d1716000000");
}

#[test]
fn split_rejects_non_trash_name() {
    assert!(split_basename_and_suffix("notes.txt").is_none());
    assert!(split_basename_and_suffix("notes.dfoo").is_none());
    assert!(split_basename_and_suffix("notes.d").is_none());
    assert!(split_basename_and_suffix(".d12345").is_none());
    assert!(split_basename_and_suffix("a.d12345_").is_none());
}

#[test]
fn split_rejects_last_dot_d_even_if_earlier_one_is_valid() {
    assert!(split_basename_and_suffix("a.d1.dx").is_none());
    assert!(split_basename_and_suffix("a.d1_2_3").is_none());
}

#[test]
fn encode_segment_preserves_safe_chars() {
    assert_eq!(encode_segment("report.pdf.d1716000000"), "report.pdf.d1716000000");
    assert_eq!(encode_segment("a-b_c~d"), "a-b_c~d");
}

#[test]
fn encode_segment_escapes_space_and_slash() {
    assert_eq!(encode_segment("hi there.txt.d1"), "hi%20there.txt.d1");
    assert_eq!(encode_segment("a/b"), "a%2Fb");
}

#[test]
fn encode_segment_escapes_each_utf8_byte() {
    assert_eq!(encode_segment("é"), "%C3%A9");
    assert_eq!(encode_segment("€"), "%E2%82%AC");
    assert_eq!(encode_segment("😀"), "%F0%9F%98%80");
}

#[test]
fn move__parse_destination_strips_legacy_prefix() {
    let p = parse_destination("/remote.php/dav/files/alice/foo/bar.txt", "alice").unwrap();
    assert_eq!(p, "/foo/bar.txt");
}

#[test]
fn move__parse_destination_strips_modern_prefix() {
    let p = parse_destination("/dav/files/alice/x.txt", "alice").unwrap();
    assert_eq!(p, "/x.txt");
}

#[test]
fn parse_destination_strips_absolute_url() {
    let p = parse_destination("https://example.com/dav/files/alice/x.txt", "alice").unwrap();
    assert_eq!(p, "/x.txt");
}

#[test]
fn move__parse_destination_decodes_percent_escapes() {
    let p = parse_destination("/dav/files/alice/hello%20world.txt", "alice").unwrap();
    assert_eq!(p, "/hello world.txt");
}

#[test]
fn move__parse_destination_rejects_wrong_user() {
    let r = parse_destination("/dav/files/bob/x.txt", "alice");
    assert!(matches!(r, Err(DavError::BadRequest(_))));
}

#[test]
fn parse_destination_rejects_outside_files() {
    let r = parse_destination("/dav/trashbin/alice/x.txt.d1", "alice");
    assert!(matches!(r, Err(DavError::BadRequest(_))));
}

#[test]
fn parse_destination_reports_each_error() {
    match parse_destination("https://example.com", "alice") {
        Err(DavError::BadRequest(m)) => assert_eq!(m, "Destination missing path"),
        _ => panic!("expected BadRequest"),
    }
    match parse_destination("/dav/files/alice/%FF", "alice") {
        Err(DavError::BadRequest(m)) => assert!(m.starts_with("invalid url encoding: ")),
        _ => panic!("expected BadRequest"),
    }
    match parse_destination("/x", "alice") {
        Err(DavError::BadRequest(m)) => {
            assert_eq!(m, "Destination not under /dav/files/alice/: /x")
        }
        _ => panic!("expected BadRequest"),
    }
}

#[test]
fn parse_destination_collapses_leading_slashes() {
    let p = parse_destination("/dav/files/alice///x.txt", "alice").unwrap();
    assert_eq!(p, "/x.txt");
}
