//! XML for DAV responses, written with `quick_xml::Writer`.
//!
//! Every event is rendered by the writer; the library strings the rendered
//! events together. All helpers emit prefixed names (`d:`, `oc:`, `nc:`); the
//! outer `<d:multistatus>` declares the three namespaces so children can use
//! any of them.

use crate::text::push_str;
use quick_xml::events::{BytesDecl, BytesEnd, BytesStart, BytesText, Event};
use vstd::prelude::*;

verus! {

/// XML escaping of text content and attribute values: `<`, `>`, `&`, `'`
/// and `"` become `&lt;`, `&gt;`, `&amp;`, `&apos;` and `&quot;`.
pub open spec fn xml_escape(s: Seq<char>) -> Seq<char>
    decreases s.len(),
{
    if s.len() == 0 {
        seq![]
    } else {
        let c = s[0];
        let e = if c == '<' {
            "&lt;"@
        } else if c == '>' {
            "&gt;"@
        } else if c == '&' {
            "&amp;"@
        } else if c == '\'' {
            "&apos;"@
        } else if c == '"' {
            "&quot;"@
        } else {
            seq![c]
        };
        e + xml_escape(s.drop_first())
    }
}

/// `<name>`.
pub open spec fn open_tag(name: Seq<char>) -> Seq<char> {
    seq!['<'] + name + seq!['>']
}

/// `</name>`.
pub open spec fn close_tag(name: Seq<char>) -> Seq<char> {
    seq!['<', '/'] + name + seq!['>']
}

/// `<name/>`.
pub open spec fn empty_tag(name: Seq<char>) -> Seq<char> {
    seq!['<'] + name + seq!['/', '>']
}

/// `<name>escaped text</name>`.
pub open spec fn leaf(name: Seq<char>, text: Seq<char>) -> Seq<char> {
    open_tag(name) + xml_escape(text) + close_tag(name)
}

/// The XML declaration the writer emits.
pub open spec fn decl_text() -> Seq<char> {
    "<?xml version=\"1.0\" encoding=\"utf-8\"?>"@
}

/// The opening `<d:multistatus>` tag with its namespace declarations.
pub open spec fn multistatus_open() -> Seq<char> {
    "<d:multistatus xmlns:d=\"DAV:\" xmlns:oc=\"http://owncloud.org/ns\" xmlns:nc=\"http://nextcloud.org/ns\">"@
}

/// A whole `<d:multistatus>` document around the given responses.
pub open spec fn multistatus_doc(responses: Seq<char>) -> Seq<char> {
    decl_text() + multistatus_open() + responses + close_tag("d:multistatus"@)
}

/// One `<d:response>` with its href and propstat blocks.
pub open spec fn response_xml(href: Seq<char>, propstats: Seq<char>) -> Seq<char> {
    open_tag("d:response"@) + leaf("d:href"@, href) + propstats + close_tag("d:response"@)
}

/// One `<d:propstat>`: the props, then the status line.
pub open spec fn propstat_xml(status: Seq<char>, props: Seq<char>) -> Seq<char> {
    open_tag("d:propstat"@) + open_tag("d:prop"@) + props + close_tag("d:prop"@) + leaf(
        "d:status"@,
        status,
    ) + close_tag("d:propstat"@)
}

// ---------------------------------------------------------------- writer events

/// `Writer::write_event(Event::Decl(BytesDecl::new("1.0", Some("utf-8"), None)))`
/// writes `<?xml version="1.0" encoding="utf-8"?>`.
#[verifier::external_body]
fn render_decl() -> (r: String)
    ensures
        r@ == decl_text(),
{
    let mut w = quick_xml::Writer::new(Vec::new());
    let _ = w.write_event(Event::Decl(BytesDecl::new("1.0", Some("utf-8"), None)));
    String::from_utf8(w.into_inner()).unwrap_or_default()
}

/// `Writer::write_event(Event::Start(..))` of `d:multistatus` with the three
/// `xmlns` attributes pushed in order; attribute values are escaped (none of
/// these needs it).
#[verifier::external_body]
fn render_multistatus_open() -> (r: String)
    ensures
        r@ == multistatus_open(),
{
    let mut start = BytesStart::new("d:multistatus");
    start.push_attribute(("xmlns:d", "DAV:"));
    start.push_attribute(("xmlns:oc", "http://owncloud.org/ns"));
    start.push_attribute(("xmlns:nc", "http://nextcloud.org/ns"));
    let mut w = quick_xml::Writer::new(Vec::new());
    let _ = w.write_event(Event::Start(start));
    String::from_utf8(w.into_inner()).unwrap_or_default()
}

/// `Writer::write_event(Event::Start(BytesStart::new(name)))` writes `<name>`.
#[verifier::external_body]
fn render_start(name: &str) -> (r: String)
    ensures
        r@ == open_tag(name@),
{
    let mut w = quick_xml::Writer::new(Vec::new());
    let _ = w.write_event(Event::Start(BytesStart::new(name)));
    String::from_utf8(w.into_inner()).unwrap_or_default()
}

/// `Writer::write_event(Event::End(BytesEnd::new(name)))` writes `</name>`.
#[verifier::external_body]
fn render_end(name: &str) -> (r: String)
    ensures
        r@ == close_tag(name@),
{
    let mut w = quick_xml::Writer::new(Vec::new());
    let _ = w.write_event(Event::End(BytesEnd::new(name)));
    String::from_utf8(w.into_inner()).unwrap_or_default()
}

/// `Writer::write_event(Event::Empty(BytesStart::new(name)))` writes `<name/>`.
#[verifier::external_body]
fn render_empty(name: &str) -> (r: String)
    ensures
        r@ == empty_tag(name@),
{
    let mut w = quick_xml::Writer::new(Vec::new());
    let _ = w.write_event(Event::Empty(BytesStart::new(name)));
    String::from_utf8(w.into_inner()).unwrap_or_default()
}

/// `Writer::write_event(Event::Text(BytesText::new(text)))` writes the text
/// escaped by `quick_xml::escape::escape`.
#[verifier::external_body]
fn render_text(text: &str) -> (r: String)
    ensures
        r@ == xml_escape(text@),
{
    let mut w = quick_xml::Writer::new(Vec::new());
    let _ = w.write_event(Event::Text(BytesText::new(text)));
    String::from_utf8(w.into_inner()).unwrap_or_default()
}

// ---------------------------------------------------------------- document builder

/// An XML document under construction.
pub struct XmlDoc {
    text: String,
}

impl View for XmlDoc {
    type V = Seq<char>;

    closed spec fn view(&self) -> Seq<char> {
        self.text@
    }
}

impl XmlDoc {
    /// An empty document.
    pub fn new() -> (r: XmlDoc)
        ensures
            r@ == Seq::<char>::empty(),
    {
        XmlDoc { text: String::new() }
    }

    /// The text written so far.
    pub fn into_string(self) -> (r: String)
        ensures
            r@ == self@,
    {
        self.text
    }

    /// Write the XML declaration.
    pub fn decl(&mut self)
        ensures
            final(self)@ == old(self)@ + decl_text(),
    {
        let s = render_decl();
        push_str(&mut self.text, s.as_str());
    }

    /// Write the opening `<d:multistatus ...>` with its namespaces.
    pub fn multistatus_start(&mut self)
        ensures
            final(self)@ == old(self)@ + multistatus_open(),
    {
        let s = render_multistatus_open();
        push_str(&mut self.text, s.as_str());
    }

    /// Write `<name>`.
    pub fn start(&mut self, name: &str)
        ensures
            final(self)@ == old(self)@ + open_tag(name@),
    {
        let s = render_start(name);
        push_str(&mut self.text, s.as_str());
    }

    /// Write `</name>`.
    pub fn end(&mut self, name: &str)
        ensures
            final(self)@ == old(self)@ + close_tag(name@),
    {
        let s = render_end(name);
        push_str(&mut self.text, s.as_str());
    }

    /// Write `<name/>`.
    pub fn empty(&mut self, name: &str)
        ensures
            final(self)@ == old(self)@ + empty_tag(name@),
    {
        let s = render_empty(name);
        push_str(&mut self.text, s.as_str());
    }

    /// Write escaped text.
    pub fn text(&mut self, text: &str)
        ensures
            final(self)@ == old(self)@ + xml_escape(text@),
    {
        let s = render_text(text);
        push_str(&mut self.text, s.as_str());
    }

    /// Write a leaf element with text content.
    pub fn leaf(&mut self, name: &str, text: &str)
        ensures
            final(self)@ == old(self)@ + leaf(name@, text@),
    {
        self.start(name);
        self.text(text);
        self.end(name);
        assert(self@ =~= old(self)@ + leaf(name@, text@));
    }

    /// Open `<d:response>` and write its `<d:href>`.
    pub fn response_start(&mut self, href: &str)
        ensures
            final(self)@ == old(self)@ + open_tag("d:response"@) + leaf("d:href"@, href@),
    {
        self.start("d:response");
        self.leaf("d:href", href);
    }

    /// Open `<d:propstat><d:prop>`.
    pub fn propstat_start(&mut self)
        ensures
            final(self)@ == old(self)@ + open_tag("d:propstat"@) + open_tag("d:prop"@),
    {
        self.start("d:propstat");
        self.start("d:prop");
    }

    /// Close `</d:prop>`, write the status line and close `</d:propstat>`.
    pub fn propstat_end(&mut self, status: &str)
        ensures
            final(self)@ == old(self)@ + close_tag("d:prop"@) + leaf("d:status"@, status@)
                + close_tag("d:propstat"@),
    {
        self.end("d:prop");
        self.leaf("d:status", status);
        self.end("d:propstat");
    }
}

/// A `<d:multistatus>` document around already rendered responses.
pub fn multistatus(responses: &str) -> (r: String)
    ensures
        r@ == multistatus_doc(responses@),
{
    let mut d = XmlDoc::new();
    d.decl();
    d.multistatus_start();
    push_str(&mut d.text, responses);
    d.end("d:multistatus");
    assert(d@ =~= multistatus_doc(responses@));
    d.into_string()
}


/// Write a `<d:response>`: the escaped href, then the already written
/// propstat blocks.
pub fn write_response(d: &mut XmlDoc, href: &str, propstats: &str)
    ensures
        final(d)@ == old(d)@ + response_xml(href@, propstats@),
{
    d.response_start(href);
    push_str(&mut d.text, propstats);
    d.end("d:response");
    assert(d@ =~= old(d)@ + response_xml(href@, propstats@));
}

/// Write a `<d:propstat>`: the already written props, then the status line.
pub fn write_propstat(d: &mut XmlDoc, status: &str, props: &str)
    ensures
        final(d)@ == old(d)@ + propstat_xml(status@, props@),
{
    d.propstat_start();
    push_str(&mut d.text, props);
    d.propstat_end(status);
    assert(d@ =~= old(d)@ + propstat_xml(status@, props@));
}

/// Write `<name>escaped text</name>`.
pub fn write_leaf(d: &mut XmlDoc, name: &str, text: &str)
    ensures
        final(d)@ == old(d)@ + leaf(name@, text@),
{
    d.leaf(name, text);
}

/// Write `<name/>`.
pub fn write_empty(d: &mut XmlDoc, name: &str)
    ensures
        final(d)@ == old(d)@ + empty_tag(name@),
{
    d.empty(name);
}

} // verus!
