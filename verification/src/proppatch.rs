//! PROPPATCH: the `<d:set>` / `<d:remove>` operations of a request body,
//! the protected (server-computed) props, and the 207 answer with one
//! propstat per prop.
//!
//! The body is read event by event with `quick_xml::reader::Reader`; a
//! verified state machine walks the events, tracking the in-scope
//! `xmlns:*` declarations so prefixed element names are lifted to Clark
//! notation (`{namespace}local`). Structural elements (`set`, `remove`,
//! `prop`, `propertyupdate`) are matched on their Clark name, so any prefix
//! bound to `DAV:` works. The parser is lax about ordering and whitespace.

use crate::codec::string_from_utf8;
use crate::dav_error::DavError;
use crate::text::{chars_of, concat, find, push_char, push_str, slice_chars, split_once, split_once_chars, str_eq, string_from, strip_prefix, strip_prefix_chars, to_owned};
use crate::xml::{leaf, multistatus, multistatus_doc, propstat_xml, response_xml, XmlDoc};
use quick_xml::events::Event::{Empty, End, Eof, Start, Text};
use quick_xml::reader::Reader;
use vstd::prelude::*;
use vstd::utf8::{decode_utf8, valid_utf8};

verus! {

// ---------------------------------------------------------------- reader

#[verifier::external_type_specification]
#[verifier::external_body]
#[verifier::reject_recursive_types(R)]
pub struct ExReader<R>(Reader<R>);

/// One event read from an XML body, with the bytes the parser needs.
#[derive(Debug, Clone)]
pub enum XmlToken {
    /// `<name attrs>`, or `<name attrs/>` when self-closing; each attribute
    /// is `None` when it could not be parsed.
    Open { self_closing: bool, name: Vec<u8>, attrs: Vec<Option<(Vec<u8>, Vec<u8>)>> },
    /// `</name>`.
    End { name: Vec<u8> },
    /// Text content, raw bytes as they appear in the body.
    Text(Vec<u8>),
    /// End of input.
    Eof,
    /// A syntax error, rendered.
    Error(String),
    /// Anything else (declaration, comment, CDATA, ...).
    Other,
}

/// The view of an event.
pub enum XmlEvent {
    Open(bool, Seq<u8>, Seq<Option<(Seq<u8>, Seq<u8>)>>),
    End(Seq<u8>),
    Text(Seq<u8>),
    Eof,
    Error(Seq<char>),
    Other,
}

/// The view of parsed attributes.
pub open spec fn attrs_view(a: Seq<Option<(Vec<u8>, Vec<u8>)>>) -> Seq<Option<(Seq<u8>, Seq<u8>)>> {
    a.map_values(
        |x: Option<(Vec<u8>, Vec<u8>)>|
            match x {
                Some(p) => Some((p.0@, p.1@)),
                None => None,
            },
    )
}

/// The view of a token.
pub open spec fn token_view(t: XmlToken) -> XmlEvent {
    match t {
        XmlToken::Open { self_closing, name, attrs } => XmlEvent::Open(
            self_closing,
            name@,
            attrs_view(attrs@),
        ),
        XmlToken::End { name } => XmlEvent::End(name@),
        XmlToken::Text(b) => XmlEvent::Text(b@),
        XmlToken::Eof => XmlEvent::Eof,
        XmlToken::Error(m) => XmlEvent::Error(m@),
        XmlToken::Other => XmlEvent::Other,
    }
}

/// The `k`-th event (from 0) a text-trimming reader yields over `body`.
pub uninterp spec fn xml_event_at(body: Seq<u8>, k: nat) -> XmlEvent;

/// The input a reader was made over.
pub uninterp spec fn reader_source(r: Reader<&[u8]>) -> Seq<u8>;

/// How many events a reader has yielded.
pub uninterp spec fn reader_count(r: Reader<&[u8]>) -> nat;

/// `Reader::from_reader(body)` with `trim_text(true)`: a reader over `body`
/// that has not yielded anything yet.
#[verifier::external_body]
fn xml_reader(body: &[u8]) -> (r: Reader<&[u8]>)
    ensures
        reader_source(r) == body@,
        reader_count(r) == 0,
{
    let mut reader = Reader::from_reader(body);
    reader.config_mut().trim_text(true);
    reader
}

/// Whether an event ends the reading: the end of input or an error.
pub open spec fn is_end_event(e: XmlEvent) -> bool {
    e is Eof || e is Error
}

/// `Reader::read_event`: the next event, converted to a token. The events a
/// reader yields depend only on its input and on how many it yielded before.
/// The reader takes at least one byte of input for each event other than
/// the end or an error (with `trim_text`, whitespace-only text yields no
/// event, and every markup event spans its own bytes): so once it has
/// yielded as many events as the input has bytes, none of them the end or
/// an error, the next one is the end or an error.
#[verifier::external_body]
fn xml_read_event(r: &mut Reader<&[u8]>) -> (t: XmlToken)
    ensures
        reader_source(*final(r)) == reader_source(*old(r)),
        reader_count(*final(r)) == reader_count(*old(r)) + 1,
        token_view(t) == xml_event_at(reader_source(*old(r)), reader_count(*old(r))),
        (reader_count(*old(r)) >= reader_source(*old(r)).len() && forall|j: nat|
            j < reader_count(*old(r)) ==> !is_end_event(
                #[trigger] xml_event_at(reader_source(*old(r)), j),
            )) ==> is_end_event(token_view(t)),
{
    let (self_closing, e) = match r.read_event() {
        Ok(Start(e)) => (false, e),
        Ok(Empty(e)) => (true, e),
        Ok(End(e)) => return XmlToken::End { name: e.to_vec() },
        Ok(Text(t)) => return XmlToken::Text(t.to_vec()),
        Ok(Eof) => return XmlToken::Eof,
        Ok(_) => return XmlToken::Other,
        Err(e) => return XmlToken::Error(e.to_string()),
    };
    let attrs = e.attributes().map(|a| a.ok().map(|a| (a.key.0.to_vec(), a.value.to_vec())));
    XmlToken::Open { self_closing, name: e.name().0.to_vec(), attrs: attrs.collect() }
}

// ---------------------------------------------------------------- operations

/// One requested property change.
#[derive(Debug, Clone, PartialEq, Eq)]
pub enum PropOp {
    /// `<d:set>` of a prop, with its text value (`None` when empty).
    SetProp { name: String, value: Option<String> },
    /// `<d:remove>` of a prop.
    RemoveProp { name: String },
}

/// The view of an operation.
pub enum PropOpView {
    SetProp(Seq<char>, Option<Seq<char>>),
    RemoveProp(Seq<char>),
}

/// The view of an operation.
pub open spec fn op_view(o: PropOp) -> PropOpView {
    match o {
        PropOp::SetProp { name, value } => PropOpView::SetProp(
            name@,
            match value {
                Some(v) => Some(v@),
                None => None,
            },
        ),
        PropOp::RemoveProp { name } => PropOpView::RemoveProp(name@),
    }
}

/// The view of a list of operations.
pub open spec fn ops_view(o: Seq<PropOp>) -> Seq<PropOpView> {
    o.map_values(|x: PropOp| op_view(x))
}

/// Inside `<d:set>` or `<d:remove>`.
#[derive(Debug, Clone, Copy, PartialEq, Eq, Structural)]
pub enum PatchMode {
    Setting,
    Removing,
}

// ---------------------------------------------------------------- specification

/// The text bytes encode, when they are UTF-8.
pub open spec fn utf8_text(b: Seq<u8>) -> Option<Seq<char>> {
    if valid_utf8(b) {
        Some(decode_utf8(b))
    } else {
        None
    }
}

/// The namespace bound to a prefix (`""` for the default namespace): the
/// latest binding wins.
pub open spec fn ns_get(ns: Seq<(Seq<char>, Seq<char>)>, prefix: Seq<char>) -> Option<Seq<char>>
    decreases ns.len(),
{
    if ns.len() == 0 {
        None
    } else if ns.last().0 == prefix {
        Some(ns.last().1)
    } else {
        ns_get(ns.drop_last(), prefix)
    }
}

/// Record the `xmlns:p="uri"` / `xmlns="uri"` attributes of an element, in
/// order; an attribute whose key or value is not UTF-8 is an error, one
/// that could not be parsed is skipped.
pub open spec fn capture_xmlns(
    ns: Seq<(Seq<char>, Seq<char>)>,
    attrs: Seq<Option<(Seq<u8>, Seq<u8>)>>,
) -> Result<Seq<(Seq<char>, Seq<char>)>, Seq<char>>
    decreases attrs.len(),
{
    if attrs.len() == 0 {
        Ok(ns)
    } else {
        match attrs[0] {
            None => capture_xmlns(ns, attrs.drop_first()),
            Some((k, v)) => match utf8_text(k) {
                None => Err("non-utf8 attr"@),
                Some(ks) => match utf8_text(v) {
                    None => Err("non-utf8 attr value"@),
                    Some(vs) => {
                        let ns2 = match strip_prefix(ks, "xmlns:"@) {
                            Some(p) => ns.push((p, vs)),
                            None => if ks == "xmlns"@ {
                                ns.push((seq![], vs))
                            } else {
                                ns
                            },
                        };
                        capture_xmlns(ns2, attrs.drop_first())
                    },
                },
            },
        }
    }
}

/// Convert a prefixed element name (`oc:favorite`) to Clark notation
/// (`{http://owncloud.org/ns}favorite`) with the in-scope bindings. An
/// unbound prefix falls back to the local name (lenient, as Nextcloud's own
/// parser is); an unprefixed name takes the default namespace if one is bound.
pub open spec fn spec_name_to_clark(name: Seq<char>, ns: Seq<(Seq<char>, Seq<char>)>) -> Seq<char> {
    match split_once(name, ':') {
        Some((p, local)) => match ns_get(ns, p) {
            Some(u) => seq!['{'] + u + seq!['}'] + local,
            None => local,
        },
        None => match ns_get(ns, seq![]) {
            Some(u) => seq!['{'] + u + seq!['}'] + name,
            None => name,
        },
    }
}

/// The parser's state between events.
pub struct PatchStateView {
    pub mode: Option<PatchMode>,
    pub name: Option<Seq<char>>,
    pub value: Option<Seq<char>>,
    pub ns: Seq<(Seq<char>, Seq<char>)>,
    pub ops: Seq<PropOpView>,
}

/// Whether a Clark name is one of the four structural elements.
pub open spec fn is_structural(c: Seq<char>) -> bool {
    c == "{DAV:}set"@ || c == "{DAV:}remove"@ || c == "{DAV:}prop"@ || c
        == "{DAV:}propertyupdate"@
}

/// The parser's step on one event other than end of input and errors.
pub open spec fn patch_step(st: PatchStateView, ev: XmlEvent) -> Result<PatchStateView, Seq<char>> {
    match ev {
        XmlEvent::Open(false, n, attrs) => match utf8_text(n) {
            None => Err("non-utf8 prop name"@),
            Some(raw) => match capture_xmlns(st.ns, attrs) {
                Err(m) => Err(m),
                Ok(ns) => {
                    let c = spec_name_to_clark(raw, ns);
                    let st1 = PatchStateView { ns, ..st };
                    if c == "{DAV:}set"@ {
                        Ok(PatchStateView { mode: Some(PatchMode::Setting), ..st1 })
                    } else if c == "{DAV:}remove"@ {
                        Ok(PatchStateView { mode: Some(PatchMode::Removing), ..st1 })
                    } else if c == "{DAV:}prop"@ || c == "{DAV:}propertyupdate"@ {
                        Ok(st1)
                    } else if st.mode is Some && st.name is None {
                        Ok(PatchStateView { name: Some(c), value: Some(seq![]), ..st1 })
                    } else {
                        Ok(st1)
                    }
                },
            },
        },
        XmlEvent::Open(true, n, attrs) => match utf8_text(n) {
            None => Err("non-utf8 prop name"@),
            Some(raw) => match capture_xmlns(st.ns, attrs) {
                Err(m) => Err(m),
                Ok(ns) => {
                    let c = spec_name_to_clark(raw, ns);
                    let st1 = PatchStateView { ns, ..st };
                    if is_structural(c) {
                        Ok(st1)
                    } else {
                        match st.mode {
                            Some(PatchMode::Setting) => Ok(
                                PatchStateView { ops: st.ops.push(PropOpView::SetProp(c, None)), ..st1 },
                            ),
                            Some(PatchMode::Removing) => Ok(
                                PatchStateView { ops: st.ops.push(PropOpView::RemoveProp(c)), ..st1 },
                            ),
                            None => Ok(st1),
                        }
                    }
                },
            },
        },
        XmlEvent::Text(b) => match st.value {
            Some(v) => match utf8_text(b) {
                Some(t) => Ok(PatchStateView { value: Some(v + t), ..st }),
                None => Ok(st),
            },
            None => Ok(st),
        },
        XmlEvent::End(n) => match utf8_text(n) {
            None => Err("non-utf8 prop name"@),
            Some(raw) => {
                let c = spec_name_to_clark(raw, st.ns);
                if c == "{DAV:}set"@ || c == "{DAV:}remove"@ {
                    Ok(PatchStateView { mode: None, ..st })
                } else if c == "{DAV:}prop"@ || c == "{DAV:}propertyupdate"@ {
                    Ok(st)
                } else {
                    match st.name {
                        Some(nm) => {
                            let val = match st.value {
                                Some(v) => if v.len() > 0 {
                                    Some(v)
                                } else {
                                    None
                                },
                                None => None,
                            };
                            let st2 = PatchStateView { name: None, value: None, ..st };
                            match st.mode {
                                Some(PatchMode::Setting) => Ok(
                                    PatchStateView {
                                        ops: st.ops.push(PropOpView::SetProp(nm, val)),
                                        ..st2
                                    },
                                ),
                                Some(PatchMode::Removing) => Ok(
                                    PatchStateView { ops: st.ops.push(PropOpView::RemoveProp(nm)), ..st2 },
                                ),
                                None => Ok(st2),
                            }
                        },
                        None => Ok(st),
                    }
                }
            },
        },
        _ => Ok(st),
    }
}

/// The state before the first event.
pub open spec fn patch_init() -> PatchStateView {
    PatchStateView { mode: None, name: None, value: None, ns: seq![], ops: seq![] }
}

/// Walk a list of events: stop with the operations at end of input (or at
/// the end of the list), with `xml parse: <error>` at a syntax error, or
/// with the message of the first malformed name.
pub open spec fn patch_events(st: PatchStateView, evs: Seq<XmlEvent>) -> Result<
    Seq<PropOpView>,
    Seq<char>,
>
    decreases evs.len(),
{
    if evs.len() == 0 {
        Ok(st.ops)
    } else {
        match evs[0] {
            XmlEvent::Eof => Ok(st.ops),
            XmlEvent::Error(m) => Err("xml parse: "@ + m),
            ev => match patch_step(st, ev) {
                Err(m) => Err(m),
                Ok(st2) => patch_events(st2, evs.drop_first()),
            },
        }
    }
}

/// The events a reader yields over `body`, from the `k`-th on, `n` of them.
pub open spec fn body_events(body: Seq<u8>, k: nat, n: nat) -> Seq<XmlEvent> {
    Seq::new(n, |i: int| xml_event_at(body, (k + i) as nat))
}

/// What the body parses to: the events up to the end of input or the first
/// error. The reader takes at least one byte per other event (stated on
/// `xml_read_event`), so the first `len + 1` events reach one of those.
pub open spec fn spec_parse_body(body: Seq<u8>) -> Result<Seq<PropOpView>, Seq<char>> {
    patch_events(patch_init(), body_events(body, 0, body.len() + 1))
}

// ---------------------------------------------------------------- names

fn ns_lookup(ns: &Vec<(String, String)>, prefix: &[char]) -> (r: Option<String>)
    ensures
        match r {
            Some(u) => ns_get(ns_view(ns@), prefix@) == Some(u@),
            None => ns_get(ns_view(ns@), prefix@) is None,
        },
{
        let ghost nv = ns_view(ns@);
        let mut k: usize = ns.len();
        assert(nv.subrange(0, nv.len() as int) =~= nv);
        while k > 0
            invariant
                k <= ns@.len(),
                nv == ns_view(ns@),
                ns_get(nv, prefix@) == ns_get(nv.subrange(0, k as int), prefix@),
            decreases k,
        {
            let ghost pre = nv.subrange(0, k as int);
            assert(pre.last() == (ns@[k - 1].0@, ns@[k - 1].1@));
            assert(pre.drop_last() =~= nv.subrange(0, k - 1));
            let key = chars_of(ns[k - 1].0.as_str());
            if crate::text::chars_eq(&key, prefix) {
                return Some(to_owned(ns[k - 1].1.as_str()));
            }
            k = k - 1;
        }
        None
}

/// Convert a prefixed element name (`oc:favorite`) to Clark notation
/// (`{http://owncloud.org/ns}favorite`) using the in-scope prefix bindings
/// (`prefix → namespace`, the latest binding of a prefix wins; `""` is the
/// default namespace). An unbound prefix falls back to the local name.
pub fn name_to_clark(name: &str, ns: &Vec<(String, String)>) -> (r: String)
    ensures
        r@ == spec_name_to_clark(name@, ns_view(ns@)),
{
        let nc = chars_of(name);
        match split_once_chars(&nc, ':') {
            Some((p, local)) => match ns_lookup(ns, &p) {
                Some(u) => {
                    let mut s = String::new();
                    push_char(&mut s, '{');
                    push_str(&mut s, u.as_str());
                    push_char(&mut s, '}');
                    crate::text::push_chars(&mut s, &local);
                    assert(s@ =~= seq!['{'] + u@ + seq!['}'] + local@);
                    s
                },
                None => string_from(&local),
            },
            None => {
                let empty: Vec<char> = Vec::new();
                assert(empty@ =~= Seq::<char>::empty());
                match ns_lookup(ns, &empty) {
                    Some(u) => {
                        let mut s = String::new();
                        push_char(&mut s, '{');
                        push_str(&mut s, u.as_str());
                        push_char(&mut s, '}');
                        push_str(&mut s, name);
                        assert(s@ =~= seq!['{'] + u@ + seq!['}'] + name@);
                        s
                    },
                    None => to_owned(name),
                }
            },
        }
    }

/// Resolve an element name to Clark notation with the in-scope bindings;
/// used for start and end tags alike so structural matching is consistent.
pub fn resolved_clark(name: &str, prefixes: &Vec<(String, String)>) -> (r: String)
    ensures
        r@ == spec_name_to_clark(name@, ns_view(prefixes@)),
{
    name_to_clark(name, prefixes)
}


// ---------------------------------------------------------------- outcomes

/// Props the server computes; setting or removing them is refused with
/// `403 Forbidden` in their own propstat. Names are in Clark notation.
pub open spec fn protected_props() -> Seq<Seq<char>> {
    seq![
        "{DAV:}getetag"@,
        "{DAV:}getcontentlength"@,
        "{DAV:}getlastmodified"@,
        "{DAV:}getcontenttype"@,
        "{DAV:}resourcetype"@,
        "{DAV:}displayname"@,
        "{http://owncloud.org/ns}id"@,
        "{http://owncloud.org/ns}permissions"@,
        "{http://owncloud.org/ns}size"@,
    ]
}

/// The protected props, in order.
pub fn protected_props_list() -> (r: Vec<&'static str>)
    ensures
        r@.map_values(|s: &str| s@) == protected_props(),
{
    let mut v: Vec<&'static str> = Vec::new();
    v.push("{DAV:}getetag");
    v.push("{DAV:}getcontentlength");
    v.push("{DAV:}getlastmodified");
    v.push("{DAV:}getcontenttype");
    v.push("{DAV:}resourcetype");
    v.push("{DAV:}displayname");
    v.push("{http://owncloud.org/ns}id");
    v.push("{http://owncloud.org/ns}permissions");
    v.push("{http://owncloud.org/ns}size");
    assert(v@.map_values(|s: &str| s@) =~= protected_props());
    v
}

/// Whether a prop may not be changed by PROPPATCH.
pub fn is_protected(name: &str) -> (r: bool)
    ensures
        r == protected_props().contains(name@),
{
    let list = protected_props_list();
    let ghost pv = list@.map_values(|s: &str| s@);
    let mut i: usize = 0;
    while i < list.len()
        invariant
            i <= list@.len(),
            pv == list@.map_values(|s: &str| s@),
            pv == protected_props(),
            forall|k: int| 0 <= k < i ==> pv[k] != name@,
        decreases list@.len() - i,
    {
        if str_eq(list[i], name) {
            assert(pv[i as int] == name@);
            return true;
        }
        i = i + 1;
    }
    false
}

/// The status line of one operation's outcome.
pub open spec fn op_status(name: Seq<char>) -> Seq<char> {
    if protected_props().contains(name) {
        "HTTP/1.1 403 Forbidden"@
    } else {
        "HTTP/1.1 200 OK"@
    }
}

/// The prop name an operation is about.
pub open spec fn op_name(o: PropOpView) -> Seq<char> {
    match o {
        PropOpView::SetProp(n, _) => n,
        PropOpView::RemoveProp(n) => n,
    }
}

/// What the handler does with an operation: refuse a protected prop
/// (`None`), otherwise store or delete it (`Some`), then answer with its
/// status line.
pub fn op_outcome(op: &PropOp) -> (r: (String, &'static str))
    ensures
        r.0@ == op_name(op_view(*op)),
        r.1@ == op_status(op_name(op_view(*op))),
{
    let name = match op {
        PropOp::SetProp { name, .. } => name,
        PropOp::RemoveProp { name } => name,
    };
    if is_protected(name.as_str()) {
        (to_owned(name.as_str()), "HTTP/1.1 403 Forbidden")
    } else {
        (to_owned(name.as_str()), "HTTP/1.1 200 OK")
    }
}

/// Render a Clark name as a prefixed tag for the answer: `DAV:`,
/// `http://owncloud.org/ns` and `http://nextcloud.org/ns` become `d:`,
/// `oc:` and `nc:`; another namespace leaves the local name; a name that is
/// not `{...}...` is kept as it is.
pub open spec fn spec_clark_to_prefixed_tag(name: Seq<char>) -> Seq<char> {
    match strip_prefix(name, seq!['{']) {
        Some(rest) => match crate::text::index_of(rest, '}') {
            Some(close) => {
                let ns = rest.subrange(0, close);
                let local = rest.subrange(close + 1, rest.len() as int);
                if ns == "DAV:"@ {
                    seq!['d', ':'] + local
                } else if ns == "http://owncloud.org/ns"@ {
                    seq!['o', 'c', ':'] + local
                } else if ns == "http://nextcloud.org/ns"@ {
                    seq!['n', 'c', ':'] + local
                } else {
                    local
                }
            },
            None => name,
        },
        None => name,
    }
}

/// The prefix the answer body uses for a namespace URI: `d:`, `oc:` or
/// `nc:` for the three namespaces the body declares, none for any other.
pub open spec fn answer_prefix(uri: Seq<char>) -> Seq<char> {
    if uri == "DAV:"@ {
        seq!['d', ':']
    } else if uri == "http://owncloud.org/ns"@ {
        seq!['o', 'c', ':']
    } else if uri == "http://nextcloud.org/ns"@ {
        seq!['n', 'c', ':']
    } else {
        seq![]
    }
}

/// A request property `p:local`, whose prefix `p` (without `:`) is bound
/// to `uri` (a URI without `}`), is named in the answer as `local` under
/// the body's own prefix for `uri`: `d:`, `oc:` or `nc:` for the DAV,
/// ownCloud and Nextcloud namespaces whatever prefix the request chose,
/// and bare for any other namespace.
pub proof fn lemma_prefixed_name_round_trip(
    p: Seq<char>,
    local: Seq<char>,
    uri: Seq<char>,
    bindings: Seq<(Seq<char>, Seq<char>)>,
)
    requires
        !crate::text::has_char(p, ':'),
        !crate::text::has_char(uri, '}'),
        ns_get(bindings, p) == Some(uri),
    ensures
        spec_clark_to_prefixed_tag(spec_name_to_clark(p + seq![':'] + local, bindings))
            == answer_prefix(uri) + local,
{
    let name = p + seq![':'] + local;
    assert(name.subrange(0, p.len() as int) =~= p);
    crate::text::lemma_index_of_is(name, ':', p.len() as int);
    assert(name.subrange(p.len() as int + 1, name.len() as int) =~= local);
    let clark = seq!['{'] + uri + seq!['}'] + local;
    assert(spec_name_to_clark(name, bindings) == clark);
    let rest = uri + seq!['}'] + local;
    assert(clark.subrange(0, 1) =~= seq!['{']);
    assert(clark.subrange(1, clark.len() as int) =~= rest);
    assert(strip_prefix(clark, seq!['{']) == Some(rest));
    assert(rest.subrange(0, uri.len() as int) =~= uri);
    crate::text::lemma_index_of_is(rest, '}', uri.len() as int);
    assert(rest.subrange(uri.len() as int + 1, rest.len() as int) =~= local);
    reveal_strlit("DAV:");
    reveal_strlit("http://owncloud.org/ns");
    reveal_strlit("http://nextcloud.org/ns");
    if uri != "DAV:"@ && uri != "http://owncloud.org/ns"@ && uri != "http://nextcloud.org/ns"@ {
        assert(answer_prefix(uri) + local =~= local);
    }
}

/// The round trip of `name_to_clark` and `clark_to_prefixed_tag` on a
/// request property name: `q:local`, with `q` (without `:`) bound to one of
/// the DAV, ownCloud and Nextcloud namespaces, comes back as `p:local`
/// with the answer body's own prefix `p` for that namespace (`d`, `oc` or
/// `nc`), whatever prefix the request chose.
pub proof fn lemma_known_namespace_round_trip(
    q: Seq<char>,
    local: Seq<char>,
    uri: Seq<char>,
    p: Seq<char>,
)
    requires
        !crate::text::has_char(q, ':'),
        (uri == "DAV:"@ && p == "d"@) || (uri == "http://owncloud.org/ns"@ && p == "oc"@) || (uri
            == "http://nextcloud.org/ns"@ && p == "nc"@),
    ensures
        spec_clark_to_prefixed_tag(spec_name_to_clark(q + seq![':'] + local, seq![(q, uri)])) == p
            + seq![':'] + local,
{
    reveal_strlit("d");
    reveal_strlit("oc");
    reveal_strlit("nc");
    reveal_strlit("DAV:");
    reveal_strlit("http://owncloud.org/ns");
    reveal_strlit("http://nextcloud.org/ns");
    let b = seq![(q, uri)];
    assert(b.drop_last() =~= Seq::<(Seq<char>, Seq<char>)>::empty());
    assert(ns_get(b, q) == Some(uri));
    assert(!crate::text::has_char(uri, '}')) by {
        if uri == "DAV:"@ {
            assert(uri =~= seq!['D', 'A', 'V', ':']);
        }
    }
    lemma_prefixed_name_round_trip(q, local, uri, b);
    let tag = spec_clark_to_prefixed_tag(spec_name_to_clark(q + seq![':'] + local, b));
    assert(tag == answer_prefix(uri) + local);
    assert("DAV:"@.len() != "http://owncloud.org/ns"@.len());
    assert("DAV:"@.len() != "http://nextcloud.org/ns"@.len());
    assert("http://owncloud.org/ns"@[7] != "http://nextcloud.org/ns"@[7]);
    assert(answer_prefix(uri) =~= p + seq![':']);
    assert(answer_prefix(uri) + local =~= p + seq![':'] + local);
}

/// A Clark name in any other namespace (one without `}`) is answered by
/// its bare local name.
pub proof fn lemma_other_namespace_bare(uri: Seq<char>, local: Seq<char>)
    requires
        !crate::text::has_char(uri, '}'),
        uri != "DAV:"@,
        uri != "http://owncloud.org/ns"@,
        uri != "http://nextcloud.org/ns"@,
    ensures
        spec_clark_to_prefixed_tag(seq!['{'] + uri + seq!['}'] + local) == local,
{
    let clark = seq!['{'] + uri + seq!['}'] + local;
    let rest = uri + seq!['}'] + local;
    assert(clark.subrange(0, 1) =~= seq!['{']);
    assert(clark.subrange(1, clark.len() as int) =~= rest);
    assert(rest.subrange(0, uri.len() as int) =~= uri);
    crate::text::lemma_index_of_is(rest, '}', uri.len() as int);
    assert(rest.subrange(uri.len() as int + 1, rest.len() as int) =~= local);
}

/// A name that is not in Clark notation (`{uri}local`) is rendered as it
/// stands.
pub proof fn lemma_plain_name_unchanged(name: Seq<char>)
    requires
        !(crate::text::has_prefix(name, seq!['{']) && crate::text::has_char(name, '}')),
    ensures
        spec_clark_to_prefixed_tag(name) == name,
{
    if crate::text::has_prefix(name, seq!['{']) {
        let rest = name.subrange(1, name.len() as int);
        crate::text::lemma_index_of(rest, '}');
        match crate::text::index_of(rest, '}') {
            Some(i) => {
                assert(name[i + 1] == rest[i]);
            },
            None => {},
        }
    }
}

/// Render a Clark-notation name as a prefixed tag for the answer body.
pub fn clark_to_prefixed_tag(name: &str) -> (r: String)
    ensures
        r@ == spec_clark_to_prefixed_tag(name@),
{
    let nc = chars_of(name);
    let mut brace: Vec<char> = Vec::new();
    brace.push('{');
    assert(brace@ =~= seq!['{']);
    let rest = match strip_prefix_chars(&nc, &brace) {
        Some(r) => r,
        None => return to_owned(name),
    };
    let n: usize = rest.len();
    let close = match find(&rest, '}') {
        Some(c) => c,
        None => return to_owned(name),
    };
    assert(close < n);
    let ns = string_from(&slice_chars(&rest, 0, close));
    let local = slice_chars(&rest, close + 1, n);
    let mut out = String::new();
    if str_eq(ns.as_str(), "DAV:") {
        push_char(&mut out, 'd');
        push_char(&mut out, ':');
    } else if str_eq(ns.as_str(), "http://owncloud.org/ns") {
        push_char(&mut out, 'o');
        push_char(&mut out, 'c');
        push_char(&mut out, ':');
    } else if str_eq(ns.as_str(), "http://nextcloud.org/ns") {
        push_char(&mut out, 'n');
        push_char(&mut out, 'c');
        push_char(&mut out, ':');
    }
    crate::text::push_chars(&mut out, &local);
    out
}

/// The per-prop propstats of the answer.
pub open spec fn outcome_propstats(results: Seq<(Seq<char>, Seq<char>)>) -> Seq<char>
    decreases results.len(),
{
    if results.len() == 0 {
        seq![]
    } else {
        outcome_propstats(results.drop_last()) + propstat_xml(
            results.last().1,
            leaf(spec_clark_to_prefixed_tag(results.last().0), seq![]),
        )
    }
}

/// The 207 body: one response for `href` with one propstat per prop,
/// each carrying the prop as an empty prefixed element and its status.
pub fn proppatch_body(href: &str, results: &Vec<(String, &'static str)>) -> (r: String)
    ensures
        r@ == multistatus_doc(
            response_xml(
                href@,
                outcome_propstats(results@.map_values(|p: (String, &str)| (p.0@, p.1@))),
            ),
        ),
{
    let ghost rv = results@.map_values(|p: (String, &str)| (p.0@, p.1@));
    let mut d = XmlDoc::new();
    d.response_start(href);
    let ghost head = d@;
    let mut i: usize = 0;
    while i < results.len()
        invariant
            i <= results@.len(),
            rv == results@.map_values(|p: (String, &str)| (p.0@, p.1@)),
            d@ == head + outcome_propstats(rv.subrange(0, i as int)),
        decreases results@.len() - i,
    {
        let ghost before = d@;
        let tag = clark_to_prefixed_tag(results[i].0.as_str());
        d.propstat_start();
        d.leaf(tag.as_str(), "");
        d.propstat_end(results[i].1);
        proof {
            let s = rv.subrange(0, i + 1);
            assert(s.drop_last() =~= rv.subrange(0, i as int));
            assert(s.last() == (results@[i as int].0@, results@[i as int].1@));
            assert(""@ =~= Seq::<char>::empty()) by {
                reveal_strlit("");
            }
            assert(d@ =~= before + propstat_xml(s.last().1, leaf(spec_clark_to_prefixed_tag(s.last().0), seq![])));
        }
        i = i + 1;
    }
    d.end("d:response");
    assert(rv.subrange(0, rv.len() as int) =~= rv);
    let ghost props = outcome_propstats(rv);
    assert(d@ =~= response_xml(href@, props));
    let body = d.into_string();
    multistatus(body.as_str())
}

/// The href of the answer: `/remote.php/dav/files/<uid><path>`.
pub fn proppatch_href(uid: &str, user_path: &str) -> (r: String)
    ensures
        r@ == "/remote.php/dav/files/"@ + uid@ + user_path@,
{
    let mut s = to_owned("/remote.php/dav/files/");
    push_str(&mut s, uid);
    push_str(&mut s, user_path);
    s
}

// ---------------------------------------------------------------- state machine

/// The parser's state between events.
pub struct PatchParser {
    mode: Option<PatchMode>,
    name: Option<String>,
    value: Option<String>,
    ns: Vec<(String, String)>,
    ops: Vec<PropOp>,
}

/// The view of a parser state.
pub open spec fn ns_view(ns: Seq<(String, String)>) -> Seq<(Seq<char>, Seq<char>)> {
    ns.map_values(|p: (String, String)| (p.0@, p.1@))
}

impl PatchParser {
    /// The view of the parser state.
    pub closed spec fn state(&self) -> PatchStateView {
        PatchStateView {
            mode: self.mode,
            name: match self.name {
                Some(n) => Some(n@),
                None => None,
            },
            value: match self.value {
                Some(v) => Some(v@),
                None => None,
            },
            ns: ns_view(self.ns@),
            ops: ops_view(self.ops@),
        }
    }

    /// The state before the first event.
    pub fn new() -> (r: PatchParser)
        ensures
            r.state() == patch_init(),
    {
        let r = PatchParser { mode: None, name: None, value: None, ns: Vec::new(), ops: Vec::new() };
        assert(r.state().ns =~= Seq::<(Seq<char>, Seq<char>)>::empty());
        assert(r.state().ops =~= Seq::<PropOpView>::empty());
        r
    }

    /// The operations collected so far.
    pub fn into_ops(self) -> (r: Vec<PropOp>)
        ensures
            ops_view(r@) == self.state().ops,
    {
        self.ops
    }

    /// Exec `spec_name_to_clark` with the current bindings.
    pub fn name_to_clark(&self, name: &str) -> (r: String)
        ensures
            r@ == spec_name_to_clark(name@, self.state().ns),
    {
        name_to_clark(name, &self.ns)
    }

    fn capture(&mut self, attrs: &Vec<Option<(Vec<u8>, Vec<u8>)>>) -> (r: Result<(), DavError>)
        ensures
            match capture_xmlns(old(self).state().ns, attrs_view(attrs@)) {
                Ok(ns) => r is Ok && final(self).state() == PatchStateView { ns, ..old(self).state() },
                Err(m) => r matches Err(DavError::BadRequest(n)) && n@ == m,
            },
    {
        let ghost av = attrs_view(attrs@);
        let mut i: usize = 0;
        assert(av.subrange(0, av.len() as int) =~= av);
        while i < attrs.len()
            invariant
                i <= attrs@.len(),
                av == attrs_view(attrs@),
                self.mode == old(self).mode,
                self.name == old(self).name,
                self.value == old(self).value,
                self.ops == old(self).ops,
                capture_xmlns(old(self).state().ns, av) == capture_xmlns(
                    self.state().ns,
                    av.subrange(i as int, av.len() as int),
                ),
            decreases attrs@.len() - i,
        {
            let ghost rest = av.subrange(i as int, av.len() as int);
            assert(rest.drop_first() =~= av.subrange(i + 1, av.len() as int));
            match &attrs[i] {
                None => {},
                Some((k, v)) => {
                    let ks = match string_from_utf8(k.as_slice()) {
                        Some(s) => s,
                        None => return Err(DavError::BadRequest(to_owned("non-utf8 attr"))),
                    };
                    let vs = match string_from_utf8(v.as_slice()) {
                        Some(s) => s,
                        None => return Err(DavError::BadRequest(to_owned("non-utf8 attr value"))),
                    };
                    let kc = chars_of(ks.as_str());
                    let xmlns_colon = chars_of("xmlns:");
                    let ghost before = self.ns@;
                    match strip_prefix_chars(&kc, &xmlns_colon) {
                        Some(p) => {
                            self.ns.push((string_from(&p), vs));
                            assert(ns_view(self.ns@) =~= ns_view(before).push((p@, vs@)));
                        },
                        None => {
                            if str_eq(ks.as_str(), "xmlns") {
                                self.ns.push((String::new(), vs));
                                assert(ns_view(self.ns@) =~= ns_view(before).push((seq![], vs@)));
                            }
                        },
                    }
                },
            }
            i = i + 1;
        }
        proof {
            assert(av.subrange(av.len() as int, av.len() as int) =~= Seq::<Option<(Seq<u8>, Seq<u8>)>>::empty());
            assert(self.state() =~= PatchStateView { ns: self.state().ns, ..old(self).state() });
        }
        Ok(())
    }

    /// Feed one event. Returns `true` at end of input; errors are the
    /// request's 400 answer.
    pub fn step(&mut self, tok: &XmlToken) -> (r: Result<bool, DavError>)
        ensures
            match token_view(*tok) {
                XmlEvent::Eof => r == Ok::<bool, DavError>(true) && final(self).state() == old(self).state(),
                XmlEvent::Error(m) => r matches Err(DavError::BadRequest(n)) && n@ == "xml parse: "@ + m,
                ev => match patch_step(old(self).state(), ev) {
                    Ok(st) => r == Ok::<bool, DavError>(false) && final(self).state() == st,
                    Err(m) => r matches Err(DavError::BadRequest(n)) && n@ == m,
                },
            },
    {
        proof {
            reveal_strlit("non-utf8 prop name");
        }
        match tok {
            XmlToken::Eof => Ok(true),
            XmlToken::Error(m) => Err(DavError::BadRequest(concat("xml parse: ", m.as_str()))),
            XmlToken::Other => Ok(false),
            XmlToken::Text(b) => {
                if self.value.is_some() {
                    match string_from_utf8(b.as_slice()) {
                        Some(t) => {
                            let mut v = self.value.take().unwrap();
                            push_str(&mut v, t.as_str());
                            self.value = Some(v);
                        },
                        None => {},
                    }
                }
                Ok(false)
            },
            XmlToken::Open { self_closing: false, name, attrs } => {
                let raw = match string_from_utf8(name.as_slice()) {
                    Some(s) => s,
                    None => return Err(DavError::BadRequest(to_owned("non-utf8 prop name"))),
                };
                let ghost st0 = self.state();
                self.capture(attrs)?;
                let c = self.name_to_clark(raw.as_str());
                if str_eq(c.as_str(), "{DAV:}set") {
                    self.mode = Some(PatchMode::Setting);
                } else if str_eq(c.as_str(), "{DAV:}remove") {
                    self.mode = Some(PatchMode::Removing);
                } else if str_eq(c.as_str(), "{DAV:}prop") || str_eq(c.as_str(), "{DAV:}propertyupdate") {
                } else if self.mode.is_some() && self.name.is_none() {
                    self.name = Some(c);
                    self.value = Some(String::new());
                }
                Ok(false)
            },
            XmlToken::Open { self_closing: true, name, attrs } => {
                let raw = match string_from_utf8(name.as_slice()) {
                    Some(s) => s,
                    None => return Err(DavError::BadRequest(to_owned("non-utf8 prop name"))),
                };
                self.capture(attrs)?;
                let c = self.name_to_clark(raw.as_str());
                if str_eq(c.as_str(), "{DAV:}set") || str_eq(c.as_str(), "{DAV:}remove") || str_eq(
                    c.as_str(),
                    "{DAV:}prop",
                ) || str_eq(c.as_str(), "{DAV:}propertyupdate") {
                } else {
                    let ghost before = self.ops@;
                    match self.mode {
                        Some(PatchMode::Setting) => {
                            self.ops.push(PropOp::SetProp { name: c, value: None });
                            assert(ops_view(self.ops@) =~= ops_view(before).push(
                                op_view(self.ops@.last()),
                            ));
                        },
                        Some(PatchMode::Removing) => {
                            self.ops.push(PropOp::RemoveProp { name: c });
                            assert(ops_view(self.ops@) =~= ops_view(before).push(
                                op_view(self.ops@.last()),
                            ));
                        },
                        None => {},
                    }
                }
                Ok(false)
            },
            XmlToken::End { name } => {
                let raw = match string_from_utf8(name.as_slice()) {
                    Some(s) => s,
                    None => return Err(DavError::BadRequest(to_owned("non-utf8 prop name"))),
                };
                let c = self.name_to_clark(raw.as_str());
                if str_eq(c.as_str(), "{DAV:}set") || str_eq(c.as_str(), "{DAV:}remove") {
                    self.mode = None;
                } else if str_eq(c.as_str(), "{DAV:}prop") || str_eq(c.as_str(), "{DAV:}propertyupdate") {
                } else if self.name.is_some() {
                    let nm = self.name.take().unwrap();
                    let val = match self.value.take() {
                        Some(v) => if chars_of(v.as_str()).len() > 0 {
                            Some(v)
                        } else {
                            None
                        },
                        None => None,
                    };
                    let ghost before = self.ops@;
                    match self.mode {
                        Some(PatchMode::Setting) => {
                            self.ops.push(PropOp::SetProp { name: nm, value: val });
                            assert(ops_view(self.ops@) =~= ops_view(before).push(
                                op_view(self.ops@.last()),
                            ));
                        },
                        Some(PatchMode::Removing) => {
                            self.ops.push(PropOp::RemoveProp { name: nm });
                            assert(ops_view(self.ops@) =~= ops_view(before).push(
                                op_view(self.ops@.last()),
                            ));
                        },
                        None => {},
                    }
                }
                Ok(false)
            },
        }
    }
}

/// Parse a list of events (the part of the parser that does not read).
pub fn parse_tokens(tokens: &Vec<XmlToken>) -> (r: Result<Vec<PropOp>, DavError>)
    ensures
        match patch_events(patch_init(), tokens@.map_values(|t: XmlToken| token_view(t))) {
            Ok(ops) => r matches Ok(v) && ops_view(v@) == ops,
            Err(m) => r matches Err(DavError::BadRequest(n)) && n@ == m,
        },
{
    let ghost evs = tokens@.map_values(|t: XmlToken| token_view(t));
    let mut p = PatchParser::new();
    let mut i: usize = 0;
    assert(evs.subrange(0, evs.len() as int) =~= evs);
    while i < tokens.len()
        invariant
            i <= tokens@.len(),
            evs == tokens@.map_values(|t: XmlToken| token_view(t)),
            patch_events(patch_init(), evs) == patch_events(p.state(), evs.subrange(i as int, evs.len() as int)),
        decreases tokens@.len() - i,
    {
        let ghost rest = evs.subrange(i as int, evs.len() as int);
        assert(rest[0] == token_view(tokens@[i as int]));
        assert(rest.drop_first() =~= evs.subrange(i + 1, evs.len() as int));
        let done = p.step(&tokens[i])?;
        if done {
            return Ok(p.into_ops());
        }
        i = i + 1;
    }
    Ok(p.into_ops())
}

/// Parse the PROPPATCH request body.
pub fn parse_body(body: &[u8]) -> (r: Result<Vec<PropOp>, DavError>)
    requires
        body@.len() < usize::MAX,
    ensures
        match spec_parse_body(body@) {
            Ok(ops) => r matches Ok(v) && ops_view(v@) == ops,
            Err(m) => r matches Err(DavError::BadRequest(n)) && n@ == m,
        },
{
    let mut reader = xml_reader(body);
    let mut p = PatchParser::new();
    let n: usize = body.len() + 1;
    let ghost evs = body_events(body@, 0, n as nat);
    let mut i: usize = 0;
    assert(evs.subrange(0, evs.len() as int) =~= evs);
    while i < n
        invariant
            i <= n,
            n == body@.len() + 1,
            evs == body_events(body@, 0, n as nat),
            reader_source(reader) == body@,
            reader_count(reader) == i,
            i <= body@.len(),
            forall|j: int| 0 <= j < i ==> !is_end_event(#[trigger] evs[j]),
            patch_events(patch_init(), evs) == patch_events(p.state(), evs.subrange(i as int, n as int)),
        decreases n - i,
    {
        let ghost rest = evs.subrange(i as int, n as int);
        proof {
            assert forall|j: nat| j < i implies !is_end_event(
                #[trigger] xml_event_at(body@, j),
            ) by {
                assert(evs[j as int] == xml_event_at(body@, j));
            }
        }
        let tok = xml_read_event(&mut reader);
        assert(rest[0] == token_view(tok));
        assert(rest.drop_first() =~= evs.subrange(i + 1, n as int));
        let done = p.step(&tok)?;
        if done {
            return Ok(p.into_ops());
        }
        assert(!is_end_event(evs[i as int]));
        i = i + 1;
    }
    Ok(p.into_ops())
}

} // verus!
