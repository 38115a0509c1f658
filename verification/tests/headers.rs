use crabcloud_http::dav_error::DavError;
use crabcloud_http::headers::{
    parse_depth, parse_destination_files, parse_if_match, parse_if_none_match_wildcard,
    parse_overwrite, parse_range, Depth, HeaderMap, IfMatch,
};

fn hm(pairs: &[(&str, &str)]) -> HeaderMap {
    let mut h = HeaderMap::new();
    for (k, v) in pairs {
        h.insert(k, v);
    }
    h
}

#[test]
fn depth_default() {
    let h = hm(&[]);
    assert_eq!(parse_depth(&h, Depth::One).unwrap(), Depth::One);
}

#[test]
fn depth_zero_one_infinity() {
    assert_eq!(parse_depth(&hm(&[("depth", "0")]), Depth::One).unwrap(), Depth::Zero);
    assert_eq!(parse_depth(&hm(&[("depth", "1")]), Depth::One).unwrap(), Depth::One);
    assert_eq!(
        parse_depth(&hm(&[("depth", "infinity")]), Depth::One).unwrap(),
        Depth::Infinity
    );
}

#[test]
fn depth_invalid_rejects() {
    assert!(matches!(
        parse_depth(&hm(&[("depth", "2")]), Depth::One),
        Err(DavError::BadRequest(_))
    ));
}

#[test]
fn depth_invalid_message_names_the_value() {
    match parse_depth(&hm(&[("Depth", "Infinity")]), Depth::Zero) {
        Err(DavError::BadRequest(m)) => assert_eq!(m, "invalid Depth: Infinity"),
        _ => panic!("expected BadRequest"),
    }
}

#[test]
fn overwrite_default_true() {
    assert!(parse_overwrite(&hm(&[])).unwrap());
    assert!(parse_overwrite(&hm(&[("overwrite", "T")])).unwrap());
    assert!(!parse_overwrite(&hm(&[("overwrite", "F")])).unwrap());
}

#[test]
fn overwrite_invalid_rejects() {
    match parse_overwrite(&hm(&[("overwrite", "t")])) {
        Err(DavError::BadRequest(m)) => assert_eq!(m, "invalid Overwrite: t"),
        _ => panic!("expected BadRequest"),
    }
}

#[test]
fn destination_absolute_url() {
    let h = hm(&[(
        "destination",
        "https://example.com/dav/files/alice/photos/cat.jpg",
    )]);
    let (u, p) = parse_destination_files(&h).unwrap();
    assert_eq!(u, "alice");
    assert_eq!(p, "photos/cat.jpg");
}

#[test]
fn destination_absolute_url_with_base_path() {
    let h = hm(&[(
        "destination",
        "https://example.com/cloud/remote.php/dav/files/alice/x.txt",
    )]);
    let (u, p) = parse_destination_files(&h).unwrap();
    assert_eq!(u, "alice");
    assert_eq!(p, "x.txt");
    match parse_destination_files(&hm(&[("destination", "https://example.com/cloud/files/alice")])) {
        Err(DavError::BadRequest(m)) => assert_eq!(
            m,
            "Destination not under /dav/files/: https://example.com/cloud/files/alice"
        ),
        _ => panic!("expected BadRequest"),
    }
}

#[test]
fn destination_path_only_legacy_prefix() {
    let h = hm(&[("destination", "/remote.php/dav/files/alice/x.txt")]);
    let (u, p) = parse_destination_files(&h).unwrap();
    assert_eq!(u, "alice");
    assert_eq!(p, "x.txt");
}

#[test]
fn destination_missing_header_errors() {
    assert!(matches!(
        parse_destination_files(&hm(&[])),
        Err(DavError::BadRequest(_))
    ));
}

#[test]
fn destination_user_only_and_outside_files() {
    let (u, p) = parse_destination_files(&hm(&[("destination", "/dav/files/alice")])).unwrap();
    assert_eq!(u, "alice");
    assert_eq!(p, "");
    match parse_destination_files(&hm(&[("destination", "/elsewhere/x")])) {
        Err(DavError::BadRequest(m)) => {
            assert_eq!(m, "Destination not under /dav/files/: /elsewhere/x")
        }
        _ => panic!("expected BadRequest"),
    }
    match parse_destination_files(&hm(&[("destination", "https://host")])) {
        Err(DavError::BadRequest(m)) => assert_eq!(m, "Destination missing path"),
        _ => panic!("expected BadRequest"),
    }
}

#[test]
fn range_simple() {
    let r = parse_range(&hm(&[("range", "bytes=0-9")]), 100).unwrap().unwrap();
    assert_eq!(r, 0..10);
}

#[test]
fn range_open_end() {
    let r = parse_range(&hm(&[("range", "bytes=50-")]), 100).unwrap().unwrap();
    assert_eq!(r, 50..100);
}

#[test]
fn range_suffix() {
    let r = parse_range(&hm(&[("range", "bytes=-10")]), 100).unwrap().unwrap();
    assert_eq!(r, 90..100);
}

#[test]
fn range_invalid_rejects() {
    assert!(matches!(
        parse_range(&hm(&[("range", "bytes=500-999")]), 100),
        Err(DavError::RangeNotSatisfiable { .. })
    ));
    assert!(matches!(
        parse_range(&hm(&[("range", "bytes=0-99,100-199")]), 200),
        Err(DavError::RangeNotSatisfiable { .. })
    ));
}

#[test]
fn range_edge_cases() {
    assert!(parse_range(&hm(&[]), 100).unwrap().is_none());
    assert!(matches!(
        parse_range(&hm(&[("range", "bytes=-0")]), 100),
        Err(DavError::RangeNotSatisfiable { file_size: 100 })
    ));
    assert!(matches!(
        parse_range(&hm(&[("range", "bytes=5-4")]), 100),
        Err(DavError::RangeNotSatisfiable { .. })
    ));
    assert!(matches!(
        parse_range(&hm(&[("range", "items=0-1")]), 100),
        Err(DavError::RangeNotSatisfiable { .. })
    ));
    assert_eq!(
        parse_range(&hm(&[("range", "bytes=0-99")]), 100).unwrap().unwrap(),
        0..100
    );
    assert_eq!(
        parse_range(&hm(&[("range", "bytes=-100")]), 100).unwrap().unwrap(),
        0..100
    );
}

#[test]
fn if_match_parsing() {
    assert!(matches!(parse_if_match(&hm(&[])), IfMatch::Absent));
    assert!(matches!(parse_if_match(&hm(&[("if-match", "*")])), IfMatch::Wildcard));
    match parse_if_match(&hm(&[("if-match", r#""abc""#)])) {
        IfMatch::Etag(s) => assert_eq!(s, "abc"),
        _ => panic!(),
    }
}

#[test]
fn if_match_trims_whitespace_then_quotes() {
    match parse_if_match(&hm(&[("if-match", r#"  ""x""  "#)])) {
        IfMatch::Etag(s) => assert_eq!(s, "x"),
        _ => panic!(),
    }
}

#[test]
fn if_none_match_star() {
    assert!(parse_if_none_match_wildcard(&hm(&[("if-none-match", "*")])));
    assert!(!parse_if_none_match_wildcard(&hm(&[])));
    assert!(parse_if_none_match_wildcard(&hm(&[("if-none-match", " * ")])));
    assert!(!parse_if_none_match_wildcard(&hm(&[("if-none-match", "\"a\"")])));
}

#[test]
fn header_map_names_are_case_insensitive_and_insert_replaces() {
    let mut h = HeaderMap::new();
    h.insert("Depth", "0");
    assert_eq!(h.get("DEPTH"), Some("0"));
    h.insert("depth", "1");
    assert_eq!(h.get("depth"), Some("1"));
    assert_eq!(h.get("overwrite"), None);
}
