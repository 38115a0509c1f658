//! PROPFIND over the trash bin (`/remote.php/dav/trashbin/{uid}/trash/`)
//! and over the versions of a file (`/remote.php/dav/versions/{uid}/{fileid}/`).
//!
//! Both collections list their entries at Depth 1 and infinity (the
//! default) and only themselves at Depth 0. A trashed entry carries its
//! size (files), deletion time, type, name, original location and deletion
//! timestamp; a version its size, time, name and a generic content type.

use crate::codec::{ends_in_parent, http_date, http_date_limit, http_date_text, path_file_name, path_file_name_of, percent_encode_bytes};
use crate::dav_error::DavError;
use crate::headers::{parse_depth, spec_parse_depth, Depth, HeaderMap};
use crate::text::{chars_of, decimal, fmt_i64, fmt_u64, push_char, push_chars, push_str, signed_decimal, str_eq, string_from, to_owned, trim_end_char, trim_end_chars, trim_start_char, trim_start_chars};
use crate::trashbin::encode_segment;
use crate::xml::{close_tag, empty_tag, leaf, multistatus, multistatus_doc, open_tag, propstat_xml, response_xml, XmlDoc};
use vstd::prelude::*;
use vstd::utf8::encode_utf8;

verus! {

/// Whether a listing PROPFIND includes the entries: the `Depth` (default
/// infinity) is 1 or infinity. A malformed `Depth` is a bad request.
pub fn listing_depth(headers: &HeaderMap) -> (r: Result<bool, DavError>)
    ensures
        match spec_parse_depth(headers@, Depth::Infinity) {
            Ok(d) => r == Ok::<bool, DavError>(d != Depth::Zero),
            Err(m) => r matches Err(DavError::BadRequest(n)) && n@ == m,
        },
{
    match parse_depth(headers, Depth::Infinity) {
        Ok(d) => Ok(match d {
            Depth::Zero => false,
            _ => true,
        }),
        Err(e) => Err(e),
    }
}

/// Seconds since the epoch, negatives read as 0.
pub open spec fn clamp_secs(t: i64) -> u64 {
    if t < 0 {
        0
    } else {
        t as u64
    }
}

fn clamp_secs_exec(t: i64) -> (r: u64)
    ensures
        r == clamp_secs(t),
{
    if t < 0 {
        0
    } else {
        t as u64
    }
}

/// The propstat of a collection named `name`.
pub open spec fn collection_props(name: Seq<char>) -> Seq<char> {
    open_tag("d:resourcetype"@) + empty_tag("d:collection"@) + close_tag("d:resourcetype"@) + leaf(
        "d:displayname"@,
        name,
    )
}

fn write_collection_response(d: &mut XmlDoc, href: &str, name: &str)
    ensures
        final(d)@ == old(d)@ + response_xml(
            href@,
            propstat_xml("HTTP/1.1 200 OK"@, collection_props(name@)),
        ),
{
    let ghost start = d@;
    d.response_start(href);
    d.propstat_start();
    d.start("d:resourcetype");
    d.empty("d:collection");
    d.end("d:resourcetype");
    d.leaf("d:displayname", name);
    d.propstat_end("HTTP/1.1 200 OK");
    d.end("d:response");
    proof {
        reveal_strlit("HTTP/1.1 200 OK");
    }
    assert(d@ =~= start + response_xml(
        href@,
        propstat_xml("HTTP/1.1 200 OK"@, collection_props(name@)),
    ));
}

// ---------------------------------------------------------------- trash bin

/// A trashed entry, as far as the listing goes.
#[derive(Debug, Clone)]
pub struct TrashItem {
    pub basename: String,
    /// `d<secs>[_<n>]`.
    pub suffix: String,
    /// The folder it was deleted from.
    pub location: String,
    pub deleted_at: i64,
    pub is_dir: bool,
}

/// Where a trashed entry lived: `/<name>` from the root, else
/// `<location without trailing slashes>/<name>`.
pub open spec fn spec_original_location(location: Seq<char>, basename: Seq<char>) -> Seq<char> {
    if location == "/"@ {
        seq!['/'] + basename
    } else {
        trim_end_char(location, '/') + seq!['/'] + basename
    }
}

/// The trailing copies of `c` counted by `trail_count` are exactly the
/// run of `c` at the end: all of them are `c`, and what comes before does
/// not end in `c`.
proof fn lemma_trail_count(s: Seq<char>, c: char)
    ensures
        crate::text::trail_count(s, c) <= s.len(),
        forall|i: int| s.len() - crate::text::trail_count(s, c) <= i < s.len() ==> #[trigger] s[i] == c,
        crate::text::trail_count(s, c) < s.len() ==> s[s.len() - crate::text::trail_count(s, c) - 1]
            != c,
    decreases s.len(),
{
    if s.len() > 0 && s.last() == c {
        lemma_trail_count(s.drop_last(), c);
        assert forall|i: int| s.len() - crate::text::trail_count(s, c) <= i < s.len() implies #[trigger] s[i]
            == c by {
            if i < s.len() - 1 {
                assert(s[i] == s.drop_last()[i]);
            }
        }
        if crate::text::trail_count(s, c) < s.len() {
            let k = s.len() - crate::text::trail_count(s, c) - 1;
            assert(s[k] == s.drop_last()[k]);
        }
    }
}

/// Where a trashed entry lived, in terms of its folder and name: the
/// name preceded by `/`, after the folder with its trailing slashes taken
/// off (so the root `/` gives `/<name>`). Put precisely: the result ends in
/// `/` and the name, and what comes before is a prefix of the location
/// that does not end in `/` and that only slashes follow in the location.
pub proof fn lemma_original_location(location: Seq<char>, basename: Seq<char>)
    ensures
        ({
            let r = spec_original_location(location, basename);
            let pre_len = r.len() - basename.len() - 1;
            &&& pre_len >= 0
            &&& r.subrange(pre_len, r.len() as int) == seq!['/'] + basename
            &&& pre_len <= location.len()
            &&& r.subrange(0, pre_len) == location.subrange(0, pre_len)
            &&& forall|i: int| pre_len <= i < location.len() ==> #[trigger] location[i] == '/'
            &&& pre_len > 0 ==> location[pre_len - 1] != '/'
        }),
{
    reveal_strlit("/");
    lemma_trail_count(location, '/');
    let r = spec_original_location(location, basename);
    let t = trim_end_char(location, '/');
    if location == "/"@ {
        assert(location.len() == 1 && location[0] == '/');
        assert(r.subrange(0, r.len() as int) =~= seq!['/'] + basename);
        assert(r.subrange(0, 0) =~= location.subrange(0, 0));
    } else {
        assert(r =~= t + (seq!['/'] + basename));
        assert(r.subrange(t.len() as int, r.len() as int) =~= seq!['/'] + basename);
        assert(r.subrange(0, t.len() as int) =~= t);
    }
}

/// Where a trashed entry lived.
pub fn original_location(location: &str, basename: &str) -> (r: String)
    ensures
        r@ == spec_original_location(location@, basename@),
{
    let mut s = String::new();
    if str_eq(location, "/") {
        push_char(&mut s, '/');
        push_str(&mut s, basename);
    } else {
        let lc = chars_of(location);
        let t = trim_end_chars(&lc, '/');
        push_chars(&mut s, &t);
        push_char(&mut s, '/');
        push_str(&mut s, basename);
    }
    s
}

/// The props of a trashed entry (`size`: the stored file's length, when
/// known; never shown for a folder).
pub open spec fn trash_item_props(e: TrashItem, size: Option<u64>) -> Seq<char> {
    (if !e.is_dir && size is Some {
        leaf("d:getcontentlength"@, decimal(size->0 as nat))
    } else {
        seq![]
    }) + leaf("d:getlastmodified"@, http_date_text(clamp_secs(e.deleted_at))) + open_tag(
        "d:resourcetype"@,
    ) + (if e.is_dir {
        empty_tag("d:collection"@)
    } else {
        seq![]
    }) + close_tag("d:resourcetype"@) + leaf("d:displayname"@, e.basename@) + leaf(
        "nc:trashbin-original-location"@,
        spec_original_location(e.location@, e.basename@),
    ) + leaf("nc:trashbin-deletion-time"@, signed_decimal(e.deleted_at as int))
}

/// The href of a trashed entry: its stored name `<basename>.<suffix>`
/// percent-encoded under the user's trash collection.
pub open spec fn trash_item_href(uid: Seq<char>, e: TrashItem) -> Seq<char> {
    "/remote.php/dav/trashbin/"@ + uid + "/trash/"@ + percent_encode_bytes(
        encode_utf8(e.basename@ + seq!['.'] + e.suffix@),
    )
}

/// The `<d:response>` of a trashed entry.
pub open spec fn trash_item_response(uid: Seq<char>, e: TrashItem, size: Option<u64>) -> Seq<char> {
    response_xml(trash_item_href(uid, e), propstat_xml("HTTP/1.1 200 OK"@, trash_item_props(e, size)))
}

/// The responses of trashed entries, in order.
pub open spec fn trash_items_responses(uid: Seq<char>, items: Seq<(TrashItem, Option<u64>)>) -> Seq<char>
    decreases items.len(),
{
    if items.len() == 0 {
        seq![]
    } else {
        trash_items_responses(uid, items.drop_last()) + trash_item_response(
            uid,
            items.last().0,
            items.last().1,
        )
    }
}

/// Whether every deletion time can be rendered as an HTTP date.
pub open spec fn trash_dates_ok(items: Seq<(TrashItem, Option<u64>)>) -> bool {
    forall|i: int| 0 <= i < items.len() ==> clamp_secs(#[trigger] items[i].0.deleted_at) < http_date_limit()
}

fn trash_item_href_exec(uid: &str, e: &TrashItem) -> (r: String)
    ensures
        r@ == trash_item_href(uid@, *e),
{
    let mut name = to_owned(e.basename.as_str());
    push_char(&mut name, '.');
    push_str(&mut name, e.suffix.as_str());
    assert(name@ =~= e.basename@ + seq!['.'] + e.suffix@);
    let mut href = to_owned("/remote.php/dav/trashbin/");
    push_str(&mut href, uid);
    push_str(&mut href, "/trash/");
    let seg = encode_segment(name.as_str());
    push_str(&mut href, seg.as_str());
    proof {
        reveal_strlit("/remote.php/dav/trashbin/");
        reveal_strlit("/trash/");
    }
    assert(href@ =~= trash_item_href(uid@, *e));
    href
}

fn write_trash_props(d: &mut XmlDoc, e: &TrashItem, size: Option<u64>)
    requires
        clamp_secs(e.deleted_at) < http_date_limit(),
    ensures
        final(d)@ == old(d)@ + trash_item_props(*e, size),
{
    let ghost p0 = d@;
    if !e.is_dir {
        match size {
            Some(sz) => {
                let t = string_from(&fmt_u64(sz));
                d.leaf("d:getcontentlength", t.as_str());
            },
            None => {},
        }
    }
    let ghost p1 = d@;
    assert(p1 =~= p0 + (if !e.is_dir && size is Some {
        leaf("d:getcontentlength"@, decimal(size->0 as nat))
    } else {
        seq![]
    }));
    let date = http_date(clamp_secs_exec(e.deleted_at));
    d.leaf("d:getlastmodified", date.as_str());
    d.start("d:resourcetype");
    if e.is_dir {
        d.empty("d:collection");
    }
    d.end("d:resourcetype");
    let ghost p2 = d@;
    assert(p2 =~= p1 + leaf("d:getlastmodified"@, http_date_text(clamp_secs(e.deleted_at)))
        + open_tag("d:resourcetype"@) + (if e.is_dir {
        empty_tag("d:collection"@)
    } else {
        seq![]
    }) + close_tag("d:resourcetype"@));
    d.leaf("d:displayname", e.basename.as_str());
    let loc = original_location(e.location.as_str(), e.basename.as_str());
    d.leaf("nc:trashbin-original-location", loc.as_str());
    let when = string_from(&fmt_i64(e.deleted_at));
    d.leaf("nc:trashbin-deletion-time", when.as_str());
    assert(d@ =~= p0 + trash_item_props(*e, size));
}

#[verifier::rlimit(40)]
fn write_trash_item(d: &mut XmlDoc, uid: &str, e: &TrashItem, size: Option<u64>)
    requires
        clamp_secs(e.deleted_at) < http_date_limit(),
    ensures
        final(d)@ == old(d)@ + trash_item_response(uid@, *e, size),
{
    let ghost start = d@;
    let href = trash_item_href_exec(uid, e);
    d.response_start(href.as_str());
    d.propstat_start();
    write_trash_props(d, e, size);
    d.propstat_end("HTTP/1.1 200 OK");
    d.end("d:response");
    proof {
        reveal_strlit("HTTP/1.1 200 OK");
    }
    assert(d@ =~= start + trash_item_response(uid@, *e, size));
}

/// The multistatus of a trash-bin PROPFIND: the collection (named `trash`)
/// and, when listed, each entry with its size.
pub open spec fn spec_trash_root_body(uid: Seq<char>, items: Seq<(TrashItem, Option<u64>)>) -> Seq<char> {
    multistatus_doc(
        response_xml(
            "/remote.php/dav/trashbin/"@ + uid + "/trash/"@,
            propstat_xml("HTTP/1.1 200 OK"@, collection_props("trash"@)),
        ) + trash_items_responses(uid, items),
    )
}

/// The PROPFIND body of a user's trash collection (the items are empty
/// when the depth does not list them).
#[verifier::rlimit(40)]
pub fn trash_root_body(uid: &str, items: &Vec<(TrashItem, Option<u64>)>) -> (r: String)
    requires
        trash_dates_ok(items@),
    ensures
        r@ == spec_trash_root_body(uid@, items@),
{
    let mut d = XmlDoc::new();
    let mut root = to_owned("/remote.php/dav/trashbin/");
    push_str(&mut root, uid);
    push_str(&mut root, "/trash/");
    proof {
        reveal_strlit("/remote.php/dav/trashbin/");
        reveal_strlit("/trash/");
    }
    write_collection_response(&mut d, root.as_str(), "trash");
    let ghost head = d@;
    let mut i: usize = 0;
    while i < items.len()
        invariant
            i <= items@.len(),
            trash_dates_ok(items@),
            d@ == head + trash_items_responses(uid@, items@.subrange(0, i as int)),
        decreases items@.len() - i,
    {
        let (e, size) = &items[i];
        assert(clamp_secs(items@[i as int].0.deleted_at) < http_date_limit());
        write_trash_item(&mut d, uid, e, *size);
        assert(items@.subrange(0, i + 1).drop_last() =~= items@.subrange(0, i as int));
        i = i + 1;
    }
    assert(items@.subrange(0, i as int) =~= items@);
    let responses = d.into_string();
    proof {
        reveal_strlit("trash");
    }
    multistatus(responses.as_str())
}

/// The PROPFIND body of one trashed entry.
pub fn trash_entry_body(uid: &str, e: &TrashItem, size: Option<u64>) -> (r: String)
    requires
        clamp_secs(e.deleted_at) < http_date_limit(),
    ensures
        r@ == multistatus_doc(trash_item_response(uid@, *e, size)),
{
    let mut d = XmlDoc::new();
    write_trash_item(&mut d, uid, e, size);
    let responses = d.into_string();
    multistatus(responses.as_str())
}

// ---------------------------------------------------------------- versions

/// A stored version of a file, as far as the listing goes.
#[derive(Debug, Clone)]
pub struct VersionItem {
    pub size: i64,
    pub version_mtime: i64,
    /// The file's path when the version was taken.
    pub path: String,
    /// The final component of that path, as shown (see [`version_display_name`]).
    pub display_name: String,
}

/// The name shown for a path: its final component when there is one,
/// otherwise the path itself.
pub fn display_or_path(file_name: Option<String>, path: &str) -> (r: String)
    ensures
        match file_name {
            Some(n) => r@ == n@,
            None => r@ == path@,
        },
{
    match file_name {
        Some(n) => n,
        None => to_owned(path),
    }
}

/// The name a version is shown under: the final component of its path
/// (without leading slashes) as the platform reads it, or the whole path
/// when it has none (as when the path terminates in `..`).
pub fn version_display_name(path: &str) -> (r: String)
    ensures
        r@ == match path_file_name_of(trim_start_char(path@, '/')) {
            Some(n) => n,
            None => path@,
        },
        ends_in_parent(trim_start_char(path@, '/')) ==> r@ == path@,
{
    let pc = chars_of(path);
    let rel = string_from(&trim_start_chars(&pc, '/'));
    display_or_path(path_file_name(rel.as_str()), path)
}

/// The stored file name of a version from the final component of its path
/// (when there is one), or an internal error naming the path.
pub fn basename_or_error(file_name: Option<String>, path: &str) -> (r: Result<String, DavError>)
    ensures
        match file_name {
            Some(n) => r matches Ok(x) && x@ == n@,
            None => r matches Err(DavError::Internal(m)) && m@ == "versions: malformed path "@
                + path@,
        },
{
    match file_name {
        Some(n) => Ok(n),
        None => Err(DavError::Internal(crate::text::concat("versions: malformed path ", path))),
    }
}

/// The file name a version is stored under: the final component of its
/// path (without leading slashes) as the platform reads it, or an internal
/// error naming the path when it has none.
pub fn version_basename(path: &str) -> (r: Result<String, DavError>)
    ensures
        match path_file_name_of(trim_start_char(path@, '/')) {
            Some(n) => r matches Ok(x) && x@ == n,
            None => r matches Err(DavError::Internal(m)) && m@ == "versions: malformed path "@
                + path@,
        },
        ends_in_parent(trim_start_char(path@, '/')) ==> r is Err,
{
    let pc = chars_of(path);
    let rel = string_from(&trim_start_chars(&pc, '/'));
    basename_or_error(path_file_name(rel.as_str()), path)
}

/// The props of a version.
pub open spec fn version_props(e: VersionItem) -> Seq<char> {
    leaf("d:getcontentlength"@, signed_decimal(e.size as int)) + leaf(
        "d:getlastmodified"@,
        http_date_text(clamp_secs(e.version_mtime)),
    ) + open_tag("d:resourcetype"@) + close_tag("d:resourcetype"@) + leaf(
        "d:displayname"@,
        e.display_name@,
    ) + leaf("d:getcontenttype"@, "application/octet-stream"@)
}

/// The collection of a file's versions: `/remote.php/dav/versions/<uid>/<fileid>/`.
pub open spec fn versions_root_href(uid: Seq<char>, fileid: i64) -> Seq<char> {
    "/remote.php/dav/versions/"@ + uid + seq!['/'] + signed_decimal(fileid as int) + seq!['/']
}

/// The `<d:response>` of a version, named by its mtime under the collection.
pub open spec fn version_response(uid: Seq<char>, fileid: i64, e: VersionItem) -> Seq<char> {
    response_xml(
        versions_root_href(uid, fileid) + signed_decimal(e.version_mtime as int),
        propstat_xml("HTTP/1.1 200 OK"@, version_props(e)),
    )
}

/// The responses of versions, in order.
pub open spec fn versions_responses(uid: Seq<char>, fileid: i64, items: Seq<VersionItem>) -> Seq<char>
    decreases items.len(),
{
    if items.len() == 0 {
        seq![]
    } else {
        versions_responses(uid, fileid, items.drop_last()) + version_response(uid, fileid, items.last())
    }
}

/// Whether every version time can be rendered as an HTTP date.
pub open spec fn version_dates_ok(items: Seq<VersionItem>) -> bool {
    forall|i: int| 0 <= i < items.len() ==> clamp_secs(#[trigger] items[i].version_mtime) < http_date_limit()
}

fn versions_root_href_exec(uid: &str, fileid: i64) -> (r: String)
    ensures
        r@ == versions_root_href(uid@, fileid),
{
    let mut s = to_owned("/remote.php/dav/versions/");
    push_str(&mut s, uid);
    push_char(&mut s, '/');
    push_chars(&mut s, &fmt_i64(fileid));
    push_char(&mut s, '/');
    proof {
        reveal_strlit("/remote.php/dav/versions/");
    }
    assert(s@ =~= versions_root_href(uid@, fileid));
    s
}

#[verifier::rlimit(40)]
fn write_version(d: &mut XmlDoc, uid: &str, fileid: i64, e: &VersionItem)
    requires
        clamp_secs(e.version_mtime) < http_date_limit(),
    ensures
        final(d)@ == old(d)@ + version_response(uid@, fileid, *e),
{
    let ghost start = d@;
    let mut href = versions_root_href_exec(uid, fileid);
    push_chars(&mut href, &fmt_i64(e.version_mtime));
    d.response_start(href.as_str());
    d.propstat_start();
    let ghost p0 = d@;
    let size = string_from(&fmt_i64(e.size));
    d.leaf("d:getcontentlength", size.as_str());
    let date = http_date(clamp_secs_exec(e.version_mtime));
    d.leaf("d:getlastmodified", date.as_str());
    d.start("d:resourcetype");
    d.end("d:resourcetype");
    d.leaf("d:displayname", e.display_name.as_str());
    d.leaf("d:getcontenttype", "application/octet-stream");
    assert(d@ =~= p0 + version_props(*e));
    d.propstat_end("HTTP/1.1 200 OK");
    d.end("d:response");
    proof {
        reveal_strlit("HTTP/1.1 200 OK");
    }
    assert(d@ =~= start + version_response(uid@, fileid, *e));
}

/// The multistatus of a versions PROPFIND: the collection (named by the
/// file id) and, when listed, each version.
pub open spec fn spec_versions_root_body(uid: Seq<char>, fileid: i64, items: Seq<VersionItem>) -> Seq<char> {
    multistatus_doc(
        response_xml(
            versions_root_href(uid, fileid),
            propstat_xml("HTTP/1.1 200 OK"@, collection_props(signed_decimal(fileid as int))),
        ) + versions_responses(uid, fileid, items),
    )
}

/// The PROPFIND body of a file's versions collection (the items are empty
/// when the depth does not list them).
#[verifier::rlimit(40)]
pub fn versions_root_body(uid: &str, fileid: i64, items: &Vec<VersionItem>) -> (r: String)
    requires
        version_dates_ok(items@),
    ensures
        r@ == spec_versions_root_body(uid@, fileid, items@),
{
    let mut d = XmlDoc::new();
    let root = versions_root_href_exec(uid, fileid);
    let name = string_from(&fmt_i64(fileid));
    write_collection_response(&mut d, root.as_str(), name.as_str());
    let ghost head = d@;
    let mut i: usize = 0;
    while i < items.len()
        invariant
            i <= items@.len(),
            version_dates_ok(items@),
            d@ == head + versions_responses(uid@, fileid, items@.subrange(0, i as int)),
        decreases items@.len() - i,
    {
        assert(clamp_secs(items@[i as int].version_mtime) < http_date_limit());
        write_version(&mut d, uid, fileid, &items[i]);
        assert(items@.subrange(0, i + 1).drop_last() =~= items@.subrange(0, i as int));
        i = i + 1;
    }
    assert(items@.subrange(0, i as int) =~= items@);
    let responses = d.into_string();
    multistatus(responses.as_str())
}

/// The version of a file taken at `version_mtime`: the first in the list
/// with that time, or 404.
pub fn find_version(items: &Vec<VersionItem>, version_mtime: i64) -> (r: Result<usize, DavError>)
    ensures
        match r {
            Ok(i) => i < items@.len() && items@[i as int].version_mtime == version_mtime && forall|
                k: int,
            | 0 <= k < i ==> #[trigger] items@[k].version_mtime != version_mtime,
            Err(e) => e == DavError::NotFound && forall|k: int|
                0 <= k < items@.len() ==> #[trigger] items@[k].version_mtime != version_mtime,
        },
{
    let mut i: usize = 0;
    while i < items.len()
        invariant
            i <= items@.len(),
            forall|k: int| 0 <= k < i ==> #[trigger] items@[k].version_mtime != version_mtime,
        decreases items@.len() - i,
    {
        if items[i].version_mtime == version_mtime {
            return Ok(i);
        }
        i = i + 1;
    }
    Err(DavError::NotFound)
}

/// The PROPFIND body of one version.
pub fn version_entry_body(uid: &str, fileid: i64, e: &VersionItem) -> (r: String)
    requires
        clamp_secs(e.version_mtime) < http_date_limit(),
    ensures
        r@ == multistatus_doc(version_response(uid@, fileid, *e)),
{
    let mut d = XmlDoc::new();
    write_version(&mut d, uid, fileid, e);
    let responses = d.into_string();
    multistatus(responses.as_str())
}

/// The headers of a version download: a generic content type and the
/// stored size.
pub fn version_download_headers(size: i64) -> (r: Vec<(String, String)>)
    ensures
        crate::dav_error::headers_view(r@) == seq![
            ("content-type"@, "application/octet-stream"@),
            ("content-length"@, signed_decimal(size as int)),
        ],
{
    let mut hs: Vec<(String, String)> = Vec::new();
    hs.push((to_owned("content-type"), to_owned("application/octet-stream")));
    hs.push((to_owned("content-length"), string_from(&fmt_i64(size))));
    assert(crate::dav_error::headers_view(hs@) =~= seq![
        ("content-type"@, "application/octet-stream"@),
        ("content-length"@, signed_decimal(size as int)),
    ]);
    hs
}

} // verus!
