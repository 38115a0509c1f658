use crabcloud_http::asset_rewrite::{
    is_html, rewrite_body, rewrite_response, rewrite_text, MAX_REWRITE_BYTES, should_rewrite, AssetRewriteLayer, AssetRewriteMap,
};
use crabcloud_http::auth::AuthMethod;
use crabcloud_http::csrf::{csrf_allows, csrf_rejection, CsrfLayer};
use crabcloud_http::headers::HeaderMap;
use crabcloud_http::security_headers::{
    apply_security_headers, csp_for_content_type, SecurityHeadersLayer,
};

fn hm(pairs: &[(&str, &str)]) -> HeaderMap {
    let mut h = HeaderMap::new();
    for (k, v) in pairs {
        h.insert(k, v);
    }
    h
}

#[test]
fn safe_method_passes_without_token() {
    assert!(csrf_allows("GET", &hm(&[]), Some(AuthMethod::Session), "expected"));
    assert!(csrf_allows("HEAD", &hm(&[]), Some(AuthMethod::Session), "expected"));
    assert!(csrf_allows("OPTIONS", &hm(&[]), Some(AuthMethod::Session), "expected"));
}

#[test]
fn anonymous_post_passes_without_token() {
    assert!(csrf_allows("POST", &hm(&[]), None, ""));
}

#[test]
fn ocs_apirequest_bypasses_check() {
    assert!(csrf_allows(
        "POST",
        &hm(&[("ocs-apirequest", "true")]),
        Some(AuthMethod::Session),
        "expected"
    ));
    assert!(!csrf_allows(
        "POST",
        &hm(&[("ocs-apirequest", "TRUE")]),
        Some(AuthMethod::Session),
        "expected"
    ));
}

#[test]
fn bearer_auth_bypasses_csrf() {
    assert!(csrf_allows("POST", &hm(&[]), Some(AuthMethod::Bearer), "expected"));
}

#[test]
fn basic_auth_bypasses_csrf() {
    assert!(csrf_allows("POST", &hm(&[]), Some(AuthMethod::Basic), "expected"));
}

#[test]
fn authenticated_session_post_without_token_is_forbidden() {
    assert!(!csrf_allows("POST", &hm(&[]), Some(AuthMethod::Session), "expected"));
    let r = csrf_rejection();
    assert_eq!(r.status, 403);
    assert_eq!(r.body, "csrf token missing or mismatched");
}

#[test]
fn authenticated_session_post_with_matching_token_passes() {
    assert!(csrf_allows(
        "POST",
        &hm(&[("requesttoken", "expected")]),
        Some(AuthMethod::Session),
        "expected"
    ));
}

#[test]
fn authenticated_session_post_with_mismatching_token_is_forbidden() {
    assert!(!csrf_allows(
        "POST",
        &hm(&[("requesttoken", "wrong")]),
        Some(AuthMethod::Session),
        "expected"
    ));
}

#[test]
fn empty_expected_csrf_rejects_unsafe_post() {
    assert!(!csrf_allows(
        "POST",
        &hm(&[("requesttoken", "")]),
        Some(AuthMethod::Session),
        ""
    ));
    let _layer = CsrfLayer::new().layer(());
}

#[test]
fn all_baseline_security_headers_present() {
    let mut h = HeaderMap::new();
    apply_security_headers(&mut h);
    assert!(h.get("strict-transport-security").is_some());
    assert!(h.get("x-content-type-options").is_some());
    assert!(h.get("referrer-policy").is_some());
    assert!(h.get("x-frame-options").is_some());
    assert!(h.get("content-security-policy").is_some());
    assert_eq!(h.get("x-content-type-options").unwrap(), "nosniff");
    let _layer = SecurityHeadersLayer::new().layer(());
}

#[test]
fn non_html_response_gets_restrictive_csp() {
    let mut h = hm(&[("content-type", "text/plain; charset=utf-8")]);
    apply_security_headers(&mut h);
    let csp = h.get("content-security-policy").unwrap();
    assert!(csp.starts_with("default-src 'none'"));
    assert_eq!(h.get("content-type"), Some("text/plain; charset=utf-8"));
}

#[test]
fn html_response_gets_ui_csp_allowing_wasm() {
    let mut h = hm(&[("content-type", "text/html; charset=utf-8")]);
    apply_security_headers(&mut h);
    let csp = h.get("content-security-policy").unwrap();
    assert!(csp.contains("'wasm-unsafe-eval'"));
    assert!(csp.contains("script-src 'self'"));
}

#[test]
fn csp_choice_depends_only_on_html_prefix() {
    assert!(csp_for_content_type(None).starts_with("default-src 'none'"));
    assert!(csp_for_content_type(Some("text/htm")).starts_with("default-src 'none'"));
    assert!(csp_for_content_type(Some("text/html")).starts_with("default-src 'self'"));
}

fn map_of(pairs: &[(&str, &str)]) -> AssetRewriteMap {
    let mut m = AssetRewriteMap::empty();
    for (k, v) in pairs {
        m.insert(k, v);
    }
    m
}

#[test]
fn empty_map_passes_response_through_unchanged() {
    let map = AssetRewriteMap::empty();
    assert!(map.is_empty());
    assert!(!should_rewrite(&map, Some("text/html; charset=utf-8")));
    let layer = AssetRewriteLayer::new(map);
    let svc = layer.layer(());
    assert!(svc.map.is_empty());
}

#[test]
fn html_with_mapped_source_path_gets_rewritten() {
    let map = map_of(&[("C:\\src\\app.css", "/assets/app-dxh1234.css")]);
    assert!(should_rewrite(&map, Some("text/html; charset=utf-8")));
    let out = rewrite_text(&map, "<link href=\"C:\\src\\app.css\">");
    assert!(out.contains("/assets/app-dxh1234.css"));
    assert!(!out.contains("C:\\src\\app.css"));
    assert_eq!(out, "<link href=\"/assets/app-dxh1234.css\">");
}

#[test]
fn non_html_response_skips_rewrite() {
    let map = map_of(&[("/src/app.css", "/assets/x.css")]);
    assert!(!should_rewrite(&map, Some("application/json")));
    assert!(!should_rewrite(&map, None));
    assert!(!is_html(Some("application/json")));
}

#[test]
fn parse_manifest_extracts_bundled_paths() {
    let map = AssetRewriteMap::from_manifest(vec![
        (
            "C:\\Users\\foo\\app.css".to_string(),
            vec!["app-dxh1234.css".to_string()],
        ),
        (
            "/home/runner/main.js".to_string(),
            vec!["main-dxh5678.js".to_string(), "ignored.js".to_string()],
        ),
        ("/no/entries.css".to_string(), vec![]),
    ]);
    assert_eq!(map.get("C:\\Users\\foo\\app.css"), Some("/assets/app-dxh1234.css"));
    assert_eq!(map.get("/home/runner/main.js"), Some("/assets/main-dxh5678.js"));
    assert_eq!(map.get("/no/entries.css"), None);
}

#[test]
fn rewrite_replaces_every_occurrence_and_keeps_non_utf8() {
    let map = map_of(&[("/a.css", "/assets/a1.css"), ("/b.js", "/assets/b2.js")]);
    let out = rewrite_text(&map, "/a.css /b.js /a.css");
    assert_eq!(out, "/assets/a1.css /assets/b2.js /assets/a1.css");
    assert_eq!(rewrite_body(&map, vec![0xff, 0xfe]), Err(vec![0xff, 0xfe]));
    assert_eq!(rewrite_body(&map, b"x /b.js".to_vec()), Ok("x /assets/b2.js".to_string()));
}

#[test]
fn insert_replaces_existing_source() {
    let mut m = map_of(&[("/a.css", "/assets/old.css")]);
    m.insert("/a.css", "/assets/new.css");
    assert_eq!(m.get("/a.css"), Some("/assets/new.css"));
    assert_eq!(rewrite_text(&m, "/a.css"), "/assets/new.css");
}

#[test]
fn rewrite_response_caps_body_and_drops_content_length() {
    let map = map_of(&[("/src/a.css", "/assets/a1.css")]);
    let r = rewrite_response(&map, Some(b"<link href=\"/src/a.css\">".to_vec()));
    assert_eq!(r.body, b"<link href=\"/assets/a1.css\">".to_vec());
    assert!(r.drop_content_length);
    let r = rewrite_response(&map, Some(vec![0xff, 0x00]));
    assert_eq!(r.body, vec![0xff, 0x00]);
    assert!(!r.drop_content_length);
    let r = rewrite_response(&map, None);
    assert!(r.body.is_empty());
    assert!(!r.drop_content_length);
    let big = vec![b'a'; MAX_REWRITE_BYTES + 1];
    let r = rewrite_response(&map, Some(big));
    assert!(r.body.is_empty());
    assert!(!r.drop_content_length);
    let at_cap = vec![b'a'; MAX_REWRITE_BYTES];
    let r = rewrite_response(&map, Some(at_cap));
    assert_eq!(r.body.len(), 4 * 1024 * 1024);
    assert!(r.drop_content_length);
}
