use crabcloud_http::headers::HeaderMap;
use crabcloud_http::public_link::{client_ip, is_safe_filename, split_ext};

fn ext(name: &str) -> (String, Option<String>) {
    split_ext(name)
}

#[test]
fn split_ext_simple() {
    assert_eq!(ext("photo.jpg"), ("photo".to_string(), Some("jpg".to_string())));
}

#[test]
fn split_ext_multi_dot() {
    assert_eq!(
        ext("archive.tar.gz"),
        ("archive.tar".to_string(), Some("gz".to_string()))
    );
}

#[test]
fn split_ext_dotfile_has_no_ext() {
    assert_eq!(ext(".bashrc"), (".bashrc".to_string(), None));
}

#[test]
fn split_ext_no_dot() {
    assert_eq!(ext("Makefile"), ("Makefile".to_string(), None));
}

#[test]
fn split_ext_trailing_dot_gives_empty_extension() {
    assert_eq!(ext("notes."), ("notes".to_string(), Some(String::new())));
}

#[test]
fn is_safe_filename_rejects_empty() {
    assert!(!is_safe_filename(""));
}

#[test]
fn is_safe_filename_rejects_slash() {
    assert!(!is_safe_filename("a/b"));
    assert!(!is_safe_filename("..\\foo"));
}

#[test]
fn is_safe_filename_rejects_dotdot_prefix() {
    assert!(!is_safe_filename(".."));
    assert!(!is_safe_filename("../etc/passwd"));
}

#[test]
fn is_safe_filename_accepts_unicode() {
    assert!(is_safe_filename("résumé.pdf"));
}

#[test]
fn is_safe_filename_rejects_null_and_controls() {
    assert!(!is_safe_filename("foo\0bar"));
    assert!(!is_safe_filename("foo\nbar"));
    assert!(!is_safe_filename("foo\tbar"));
}

#[test]
fn is_safe_filename_rejects_c1_controls_and_backslash() {
    assert!(!is_safe_filename("a\u{85}b"));
    assert!(!is_safe_filename("a\\b"));
    assert!(is_safe_filename(".hidden"));
}

#[test]
fn client_ip_picks_first_xff_entry() {
    let mut h = HeaderMap::new();
    h.insert("x-forwarded-for", "203.0.113.5, 10.0.0.1");
    assert_eq!(client_ip(&h), "203.0.113.5");
}

#[test]
fn client_ip_falls_back_when_header_absent() {
    let h = HeaderMap::new();
    assert_eq!(client_ip(&h), "direct");
}

#[test]
fn client_ip_falls_back_when_first_entry_blank() {
    let mut h = HeaderMap::new();
    h.insert("X-Forwarded-For", "  , 10.0.0.1");
    assert_eq!(client_ip(&h), "direct");
}
