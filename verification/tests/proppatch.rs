use crabcloud_http::dav_error::DavError;
use crabcloud_http::proppatch::{
    clark_to_prefixed_tag, is_protected, name_to_clark, op_outcome, parse_body, parse_tokens,
    proppatch_body, proppatch_href, resolved_clark, PropOp, XmlToken,
};

#[test]
fn parse_set_oc_favorite() {
    let body = br#"<?xml version="1.0"?>
<d:propertyupdate xmlns:d="DAV:" xmlns:oc="http://owncloud.org/ns">
  <d:set>
    <d:prop>
      <oc:favorite>1</oc:favorite>
    </d:prop>
  </d:set>
</d:propertyupdate>"#;
    let ops = parse_body(body).unwrap();
    assert_eq!(
        ops,
        vec![PropOp::SetProp {
            name: "{http://owncloud.org/ns}favorite".to_string(),
            value: Some("1".into()),
        }]
    );
}

#[test]
fn parse_remove_oc_favorite_self_closing() {
    let body = br#"<?xml version="1.0"?>
<d:propertyupdate xmlns:d="DAV:" xmlns:oc="http://owncloud.org/ns">
  <d:remove>
    <d:prop>
      <oc:favorite/>
    </d:prop>
  </d:remove>
</d:propertyupdate>"#;
    let ops = parse_body(body).unwrap();
    assert_eq!(
        ops,
        vec![PropOp::RemoveProp {
            name: "{http://owncloud.org/ns}favorite".to_string()
        }]
    );
}

#[test]
fn parse_protected_prop_recognized() {
    let body = br#"<?xml version="1.0"?>
<d:propertyupdate xmlns:d="DAV:">
  <d:set><d:prop><d:getetag>"x"</d:getetag></d:prop></d:set>
</d:propertyupdate>"#;
    let ops = parse_body(body).unwrap();
    assert_eq!(ops.len(), 1);
    if let PropOp::SetProp { name, .. } = &ops[0] {
        assert_eq!(name, "{DAV:}getetag");
        assert!(is_protected(name.as_str()));
    } else {
        panic!("expected Set");
    }
}

#[test]
fn clark_to_prefixed_known_namespaces() {
    assert_eq!(
        clark_to_prefixed_tag("{http://owncloud.org/ns}favorite"),
        "oc:favorite"
    );
    assert_eq!(clark_to_prefixed_tag("{DAV:}displayname"), "d:displayname");
    assert_eq!(
        clark_to_prefixed_tag("{http://nextcloud.org/ns}note"),
        "nc:note"
    );
}

#[test]
fn clark_to_prefixed_other_forms() {
    assert_eq!(clark_to_prefixed_tag("{urn:x}thing"), "thing");
    assert_eq!(clark_to_prefixed_tag("plain"), "plain");
    assert_eq!(clark_to_prefixed_tag("{unclosed"), "{unclosed");
}

#[test]
fn parse_with_uppercase_d_prefix_works() {
    let xml = r#"<?xml version="1.0"?>
<D:propertyupdate xmlns:D="DAV:" xmlns:oc="http://owncloud.org/ns">
  <D:set><D:prop><oc:favorite>1</oc:favorite></D:prop></D:set>
</D:propertyupdate>"#;
    let ops = parse_body(xml.as_bytes()).unwrap();
    assert_eq!(ops.len(), 1);
    match &ops[0] {
        PropOp::SetProp { name, value } => {
            assert_eq!(name, "{http://owncloud.org/ns}favorite");
            assert_eq!(value.as_deref(), Some("1"));
        }
        _ => panic!("expected Set"),
    }
}

#[test]
fn parse_with_custom_prefix_works() {
    let xml = r#"<?xml version="1.0"?>
<a:propertyupdate xmlns:a="DAV:" xmlns:oc="http://owncloud.org/ns">
  <a:set><a:prop><oc:favorite>1</oc:favorite></a:prop></a:set>
</a:propertyupdate>"#;
    let ops = parse_body(xml.as_bytes()).unwrap();
    assert_eq!(ops.len(), 1);
    match &ops[0] {
        PropOp::SetProp { name, .. } => assert_eq!(name, "{http://owncloud.org/ns}favorite"),
        _ => panic!("expected Set"),
    }
}

#[test]
fn parse_malformed_xml_returns_bad_request() {
    let xml = b"not <valid> XML <";
    let r = parse_body(xml);
    assert!(matches!(r, Err(DavError::BadRequest(_))));
}

#[test]
fn parse_empty_value_is_none_and_default_namespace() {
    let xml = r#"<propertyupdate xmlns="DAV:"><set><prop><x:a xmlns:x="urn:x"></x:a></prop></set></propertyupdate>"#;
    let ops = parse_body(xml.as_bytes()).unwrap();
    assert_eq!(
        ops,
        vec![PropOp::SetProp {
            name: "{urn:x}a".to_string(),
            value: None
        }]
    );
}

#[test]
fn parse_tokens_state_machine() {
    let toks = vec![
        XmlToken::Open {
            self_closing: false,
            name: b"d:set".to_vec(),
            attrs: vec![Some((b"xmlns:d".to_vec(), b"DAV:".to_vec())), None],
        },
        XmlToken::Open { self_closing: false, name: b"q:color".to_vec(), attrs: vec![] },
        XmlToken::Text(b"bl".to_vec()),
        XmlToken::Text(b"ue".to_vec()),
        XmlToken::End { name: b"q:color".to_vec() },
        XmlToken::End { name: b"d:set".to_vec() },
        XmlToken::Open { self_closing: true, name: b"d:ignored".to_vec(), attrs: vec![] },
        XmlToken::Eof,
        XmlToken::Error("never read".to_string()),
    ];
    let ops = parse_tokens(&toks).unwrap();
    assert_eq!(
        ops,
        vec![PropOp::SetProp {
            name: "color".to_string(),
            value: Some("blue".to_string())
        }]
    );
    let bad = vec![XmlToken::Open { self_closing: false, name: vec![0xff], attrs: vec![] }];
    match parse_tokens(&bad) {
        Err(DavError::BadRequest(m)) => assert_eq!(m, "non-utf8 prop name"),
        _ => panic!("expected BadRequest"),
    }
    let err = vec![XmlToken::Error("boom".to_string())];
    match parse_tokens(&err) {
        Err(DavError::BadRequest(m)) => assert_eq!(m, "xml parse: boom"),
        _ => panic!("expected BadRequest"),
    }
}

#[test]
fn name_to_clark_resolution() {
    let ns = vec![
        ("d".to_string(), "DAV:".to_string()),
        ("d".to_string(), "urn:later".to_string()),
        ("".to_string(), "urn:default".to_string()),
    ];
    assert_eq!(name_to_clark("d:x", &ns), "{urn:later}x");
    assert_eq!(name_to_clark("y", &ns), "{urn:default}y");
    assert_eq!(name_to_clark("zz:x", &ns), "x");
    assert_eq!(resolved_clark("plain", &vec![]), "plain");
}

#[test]
fn proppatch_outcomes_and_body() {
    let (n1, s1) = op_outcome(&PropOp::SetProp {
        name: "{DAV:}getetag".into(),
        value: None,
    });
    assert_eq!(n1, "{DAV:}getetag");
    assert_eq!(s1, "HTTP/1.1 403 Forbidden");
    let (n2, s2) = op_outcome(&PropOp::RemoveProp {
        name: "{http://owncloud.org/ns}favorite".into(),
    });
    assert_eq!(s2, "HTTP/1.1 200 OK");
    let href = proppatch_href("alice", "/a.txt");
    assert_eq!(href, "/remote.php/dav/files/alice/a.txt");
    let body = proppatch_body(&href, &vec![(n1, s1), (n2, s2)]);
    assert_eq!(
        body,
        "<?xml version=\"1.0\" encoding=\"utf-8\"?><d:multistatus xmlns:d=\"DAV:\" xmlns:oc=\"http://owncloud.org/ns\" xmlns:nc=\"http://nextcloud.org/ns\"><d:response><d:href>/remote.php/dav/files/alice/a.txt</d:href><d:propstat><d:prop><d:getetag></d:getetag></d:prop><d:status>HTTP/1.1 403 Forbidden</d:status></d:propstat><d:propstat><d:prop><oc:favorite></oc:favorite></d:prop><d:status>HTTP/1.1 200 OK</d:status></d:propstat></d:response></d:multistatus>"
    );
}

#[test]
fn prefixed_names_round_trip_to_answer_prefixes() {
    let cases = [
        ("DAV:", "d:getetag"),
        ("http://owncloud.org/ns", "oc:getetag"),
        ("http://nextcloud.org/ns", "nc:getetag"),
        ("urn:other", "getetag"),
    ];
    for (uri, expected) in cases {
        let bindings = vec![("q".to_string(), uri.to_string())];
        let clark = name_to_clark("q:getetag", &bindings);
        assert_eq!(clark_to_prefixed_tag(&clark), expected);
    }
}
