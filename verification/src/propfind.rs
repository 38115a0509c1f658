//! PROPFIND: the 207 Multi-Status body with the ten live props of each
//! resource. Depth 0 is the resource only; Depth 1 adds its children when it
//! is a directory; Depth infinity is refused with `propfind-finite-depth`.
//!
//! Every response carries the same ten props whatever the request body
//! selects. The resources themselves (their metadata, cache ids and
//! favorites) are read from storage by the caller and arrive as plain values.

use crate::codec::{http_date, http_date_limit, http_date_text};
use crate::dav_error::{headers_view, DavError, Reply};
use crate::headers::{parse_depth, spec_parse_depth, Depth, HeaderMap};
use crate::text::{decimal, fmt_i64_padded, fmt_u64, padded_signed_decimal, push_char, push_str, str_eq, string_from, to_owned};
use crate::xml::{close_tag, empty_tag, leaf, multistatus, multistatus_doc, open_tag, propstat_xml, response_xml, XmlDoc};
use vstd::prelude::*;

verus! {

/// Kind of a filesystem entry.
#[derive(Debug, Clone, Copy, PartialEq, Eq, Structural)]
pub enum FileKind {
    File,
    Directory,
}

/// Permission bitmap of an entry (Nextcloud numbering).
#[derive(Debug, Clone, Copy, PartialEq, Eq, Structural)]
pub struct Permissions {
    pub bits: u32,
}

/// Read access.
pub const PERM_READ: u32 = 1;
/// Update (write) access.
pub const PERM_UPDATE: u32 = 2;
/// Create children.
pub const PERM_CREATE: u32 = 4;
/// Delete.
pub const PERM_DELETE: u32 = 8;
/// Re-share.
pub const PERM_SHARE: u32 = 16;

impl Permissions {
    /// A bitmap from raw bits.
    pub fn new(bits: u32) -> (r: Permissions)
        ensures
            r.bits == bits,
    {
        Permissions { bits }
    }

    /// Every permission.
    pub fn full() -> (r: Permissions)
        ensures
            r.bits == 31,
    {
        Permissions { bits: 31 }
    }

    /// Read only.
    pub fn readonly() -> (r: Permissions)
        ensures
            r.bits == PERM_READ,
    {
        Permissions { bits: PERM_READ }
    }

    /// Whether every bit of `other` is set.
    pub fn contains(&self, other: Permissions) -> (r: bool)
        ensures
            r == (self.bits & other.bits == other.bits),
    {
        self.bits & other.bits == other.bits
    }
}

/// Whether bit `b` is set.
pub open spec fn has_perm(p: Permissions, b: u32) -> bool {
    p.bits & b == b
}

/// The Nextcloud letter string of a permission bitmap: `R` share, `D`
/// delete, `NVW` update, `C` create, and `K` after `C` for directories.
/// Read access has no letter.
pub open spec fn spec_permission_str(p: Permissions, kind: FileKind) -> Seq<char> {
    (if has_perm(p, PERM_SHARE) {
        seq!['R']
    } else {
        seq![]
    }) + (if has_perm(p, PERM_DELETE) {
        seq!['D']
    } else {
        seq![]
    }) + (if has_perm(p, PERM_UPDATE) {
        seq!['N', 'V', 'W']
    } else {
        seq![]
    }) + (if has_perm(p, PERM_CREATE) {
        if kind == FileKind::Directory {
            seq!['C', 'K']
        } else {
            seq!['C']
        }
    } else {
        seq![]
    })
}

/// The place of a permission letter in the order clients pattern-match:
/// `R D N V W C K`; any other character has no place (7).
pub open spec fn letter_rank(c: char) -> int {
    if c == 'R' {
        0
    } else if c == 'D' {
        1
    } else if c == 'N' {
        2
    } else if c == 'V' {
        3
    } else if c == 'W' {
        4
    } else if c == 'C' {
        5
    } else if c == 'K' {
        6
    } else {
        7
    }
}

/// Whether the characters of `s` are permission letters with places in
/// `[lo, hi)`, in strictly increasing order.
pub open spec fn letters_in_order(s: Seq<char>, lo: int, hi: int) -> bool {
    &&& forall|i: int| 0 <= i < s.len() ==> lo <= #[trigger] letter_rank(s[i]) < hi
    &&& forall|i: int, j: int|
        0 <= i < j < s.len() ==> #[trigger] letter_rank(s[i]) < #[trigger] letter_rank(s[j])
}

proof fn lemma_concat_contains(a: Seq<char>, b: Seq<char>, c: char)
    ensures
        (a + b).contains(c) <==> a.contains(c) || b.contains(c),
{
    if (a + b).contains(c) {
        let i = choose|i: int| 0 <= i < (a + b).len() && (a + b)[i] == c;
        if i < a.len() {
            assert(a[i] == c);
        } else {
            assert(b[i - a.len()] == c);
        }
    }
    if a.contains(c) {
        let i = choose|i: int| 0 <= i < a.len() && a[i] == c;
        assert((a + b)[i] == c);
    }
    if b.contains(c) {
        let i = choose|i: int| 0 <= i < b.len() && b[i] == c;
        assert((a + b)[a.len() + i] == c);
    }
}

proof fn lemma_concat_in_order(a: Seq<char>, b: Seq<char>, lo: int, mid: int, hi: int)
    requires
        lo <= mid <= hi,
        letters_in_order(a, lo, mid),
        letters_in_order(b, mid, hi),
    ensures
        letters_in_order(a + b, lo, hi),
{
    let s = a + b;
    assert forall|i: int| 0 <= i < s.len() implies lo <= #[trigger] letter_rank(s[i]) < hi by {
        if i < a.len() {
            assert(s[i] == a[i]);
        } else {
            assert(s[i] == b[i - a.len()]);
        }
    }
    assert forall|i: int, j: int| 0 <= i < j < s.len() implies #[trigger] letter_rank(s[i])
        < #[trigger] letter_rank(s[j]) by {
        if j < a.len() {
            assert(s[i] == a[i] && s[j] == a[j]);
        } else if i >= a.len() {
            assert(s[i] == b[i - a.len()] && s[j] == b[j - a.len()]);
        } else {
            assert(s[i] == a[i] && s[j] == b[j - a.len()]);
            assert(letter_rank(a[i]) < mid);
            assert(mid <= letter_rank(b[j - a.len()]));
        }
    }
}

/// The letters of a permission string: `R` exactly when the share bit is
/// set, `D` exactly with delete, `N`, `V` and `W` exactly with update, `C`
/// exactly with create, `K` exactly with create on a directory; each
/// letter depends on its own bit only, read access has none, and the
/// letters come in the order `R D N V W C K`, each at most once.
pub proof fn lemma_permission_letters(p: Permissions, kind: FileKind)
    ensures
        spec_permission_str(p, kind).contains('R') <==> p.bits & PERM_SHARE == PERM_SHARE,
        spec_permission_str(p, kind).contains('D') <==> p.bits & PERM_DELETE == PERM_DELETE,
        spec_permission_str(p, kind).contains('N') <==> p.bits & PERM_UPDATE == PERM_UPDATE,
        spec_permission_str(p, kind).contains('V') <==> p.bits & PERM_UPDATE == PERM_UPDATE,
        spec_permission_str(p, kind).contains('W') <==> p.bits & PERM_UPDATE == PERM_UPDATE,
        spec_permission_str(p, kind).contains('C') <==> p.bits & PERM_CREATE == PERM_CREATE,
        spec_permission_str(p, kind).contains('K') <==> (p.bits & PERM_CREATE == PERM_CREATE
            && kind == FileKind::Directory),
        letters_in_order(spec_permission_str(p, kind), 0, 7),
{
    let a: Seq<char> = if has_perm(p, PERM_SHARE) { seq!['R'] } else { seq![] };
    let b: Seq<char> = if has_perm(p, PERM_DELETE) { seq!['D'] } else { seq![] };
    let c: Seq<char> = if has_perm(p, PERM_UPDATE) { seq!['N', 'V', 'W'] } else { seq![] };
    let d: Seq<char> = if has_perm(p, PERM_CREATE) {
        if kind == FileKind::Directory {
            seq!['C', 'K']
        } else {
            seq!['C']
        }
    } else {
        seq![]
    };
    let s = spec_permission_str(p, kind);
    assert(s == a + b + c + d);
    assert(letters_in_order(a, 0, 1));
    assert(letters_in_order(b, 1, 2));
    assert(letters_in_order(c, 2, 5)) by {
        if has_perm(p, PERM_UPDATE) {
            assert(c[0] == 'N' && c[1] == 'V' && c[2] == 'W');
        }
    }
    assert(letters_in_order(d, 5, 7)) by {
        if has_perm(p, PERM_CREATE) && kind == FileKind::Directory {
            assert(d[0] == 'C' && d[1] == 'K');
        }
    }
    lemma_concat_in_order(a, b, 0, 1, 2);
    lemma_concat_in_order(a + b, c, 0, 2, 5);
    lemma_concat_in_order(a + b + c, d, 0, 5, 7);
    assert forall|x: char| #[trigger] s.contains(x) <==> (a.contains(x) || b.contains(x)
        || c.contains(x) || d.contains(x)) by {
        lemma_concat_contains(a, b, x);
        lemma_concat_contains(a + b, c, x);
        lemma_concat_contains(a + b + c, d, x);
    }
    // which piece can hold which letter, by its places
    assert forall|x: char| a.contains(x) <==> (x == 'R' && has_perm(p, PERM_SHARE)) by {
        if has_perm(p, PERM_SHARE) && x == 'R' {
            assert(a[0] == x);
        }
    }
    assert forall|x: char| b.contains(x) <==> (x == 'D' && has_perm(p, PERM_DELETE)) by {
        if has_perm(p, PERM_DELETE) && x == 'D' {
            assert(b[0] == x);
        }
    }
    assert forall|x: char| c.contains(x) <==> ((x == 'N' || x == 'V' || x == 'W') && has_perm(
        p,
        PERM_UPDATE,
    )) by {
        if has_perm(p, PERM_UPDATE) {
            if x == 'N' {
                assert(c[0] == x);
            } else if x == 'V' {
                assert(c[1] == x);
            } else if x == 'W' {
                assert(c[2] == x);
            } else if c.contains(x) {
                let i = choose|i: int| 0 <= i < c.len() && c[i] == x;
                assert(i == 0 || i == 1 || i == 2);
            }
        }
    }
    assert forall|x: char| d.contains(x) <==> (has_perm(p, PERM_CREATE) && (x == 'C' || (x == 'K'
        && kind == FileKind::Directory))) by {
        if has_perm(p, PERM_CREATE) {
            if x == 'C' {
                assert(d[0] == x);
            } else if x == 'K' && kind == FileKind::Directory {
                assert(d[1] == x);
            } else if d.contains(x) {
                let i = choose|i: int| 0 <= i < d.len() && d[i] == x;
                assert(i == 0 || i == 1);
            }
        }
    }
    assert(s.contains('R') == a.contains('R'));
}

/// Encode the permission bitmap as the letter string desktop clients
/// pattern-match (the order matters).
pub fn permission_str(p: Permissions, kind: FileKind) -> (r: String)
    ensures
        r@ == spec_permission_str(p, kind),
{
    let mut s = String::new();
    if p.contains(Permissions::new(PERM_SHARE)) {
        push_char(&mut s, 'R');
    }
    let ghost a = s@;
    if p.contains(Permissions::new(PERM_DELETE)) {
        push_char(&mut s, 'D');
    }
    let ghost b = s@;
    if p.contains(Permissions::new(PERM_UPDATE)) {
        push_char(&mut s, 'N');
        push_char(&mut s, 'V');
        push_char(&mut s, 'W');
    }
    let ghost c = s@;
    if p.contains(Permissions::new(PERM_CREATE)) {
        push_char(&mut s, 'C');
        if kind == FileKind::Directory {
            push_char(&mut s, 'K');
        }
    }
    assert(s@ =~= spec_permission_str(p, kind));
    s
}

/// `{fileid:020}{instanceid}`.
pub open spec fn spec_oc_id(fileid: i64, instanceid: Seq<char>) -> Seq<char> {
    padded_signed_decimal(fileid as int, 20) + instanceid
}

/// Build the `oc:id` value: zero-padded fileid + per-installation instance
/// identifier. Stable across renames; clients use it for cross-host
/// deduplication.
pub fn oc_id(fileid: i64, instanceid: &str) -> (r: String)
    ensures
        r@ == spec_oc_id(fileid, instanceid@),
{
    let digits = fmt_i64_padded(fileid, 20);
    let mut s = string_from(&digits);
    push_str(&mut s, instanceid);
    s
}

/// The href of a resource: `prefix/label/` for the root (trailing slash so
/// clients detect the collection), `prefix/label<path>` otherwise.
pub open spec fn spec_href_for(prefix: Seq<char>, label: Seq<char>, path: Seq<char>, is_root: bool) -> Seq<char> {
    if is_root {
        prefix + seq!['/'] + label + seq!['/']
    } else {
        prefix + seq!['/'] + label + path
    }
}

/// Build the href value for a response entry.
pub fn href_for(prefix: &str, label: &str, path: &str, is_root: bool) -> (r: String)
    ensures
        r@ == spec_href_for(prefix@, label@, path@, is_root),
{
    let mut s = to_owned(prefix);
    push_char(&mut s, '/');
    push_str(&mut s, label);
    if is_root {
        push_char(&mut s, '/');
    } else {
        push_str(&mut s, path);
    }
    s
}

/// Which surface a PROPFIND answers for: the href prefix up to but not
/// including `/{root_label}/` (`/remote.php/dav/files` for the authed
/// surface, `/public.php/dav/files` for public links), the root segment
/// (the user id, or the link token), and the instance id used in `oc:id`.
#[derive(Debug, Clone)]
pub struct PropfindContext {
    pub href_prefix: String,
    pub root_label: String,
    pub instanceid: String,
}

/// One resource of a PROPFIND answer, as read from storage.
#[derive(Debug, Clone)]
pub struct PropfindEntry {
    /// The user path (`/` for the root).
    pub path: String,
    /// Whether the path is the root.
    pub is_root: bool,
    /// The last path segment.
    pub basename: String,
    pub kind: FileKind,
    pub size: u64,
    pub mimetype: String,
    pub etag: String,
    /// Modification time, seconds since the epoch.
    pub mtime_secs: u64,
    /// Cache row id (0 when the cache has no row).
    pub fileid: i64,
    pub permissions: Permissions,
    /// The owner-relative cache path favorites are stored under.
    pub cache_path: String,
}

/// The favorite flag stored for a cache path: the last answer for that
/// path, `0` when there is none or it holds no value.
pub open spec fn favorite_for(favorites: Seq<(Seq<char>, Option<Seq<char>>)>, path: Seq<char>) -> Seq<
    char,
>
    decreases favorites.len(),
{
    if favorites.len() == 0 {
        "0"@
    } else if favorites.last().0 == path {
        match favorites.last().1 {
            Some(v) => v,
            None => "0"@,
        }
    } else {
        favorite_for(favorites.drop_last(), path)
    }
}

/// The view of the favorites answer.
pub open spec fn favorites_view(f: Seq<(String, Option<String>)>) -> Seq<(Seq<char>, Option<Seq<char>>)> {
    f.map_values(
        |p: (String, Option<String>)|
            (
                p.0@,
                match p.1 {
                    Some(v) => Some(v@),
                    None => None,
                },
            ),
    )
}

/// Look up the favorite flag of a cache path.
pub fn favorite_of(favorites: &Vec<(String, Option<String>)>, path: &str) -> (r: String)
    ensures
        r@ == favorite_for(favorites_view(favorites@), path@),
{
    let ghost fv = favorites_view(favorites@);
    let mut k: usize = favorites.len();
    assert(fv.subrange(0, fv.len() as int) =~= fv);
    while k > 0
        invariant
            k <= favorites@.len(),
            fv == favorites_view(favorites@),
            favorite_for(fv, path@) == favorite_for(fv.subrange(0, k as int), path@),
        decreases k,
    {
        let ghost pre = fv.subrange(0, k as int);
        assert(pre.last() == fv[k - 1]);
        assert(fv[k - 1] == (favorites@[k - 1].0@, match favorites@[k - 1].1 {
            Some(v) => Some(v@),
            None => None,
        }));
        assert(pre.drop_last() =~= fv.subrange(0, k - 1));
        if str_eq(favorites[k - 1].0.as_str(), path) {
            return match &favorites[k - 1].1 {
                Some(v) => to_owned(v.as_str()),
                None => to_owned("0"),
            };
        }
        k = k - 1;
    }
    proof {
        reveal_strlit("0");
    }
    to_owned("0")
}

/// The ten props of one resource, in response order.
pub open spec fn entry_props(
    e: PropfindEntry,
    root_label: Seq<char>,
    instanceid: Seq<char>,
    favorite: Seq<char>,
) -> Seq<char> {
    (if e.kind == FileKind::File {
        leaf("d:getcontentlength"@, decimal(e.size as nat)) + leaf("d:getcontenttype"@, e.mimetype@)
    } else {
        seq![]
    }) + leaf("d:getetag"@, seq!['"'] + e.etag@ + seq!['"']) + leaf(
        "d:getlastmodified"@,
        http_date_text(e.mtime_secs),
    ) + open_tag("d:resourcetype"@) + (if e.kind == FileKind::Directory {
        empty_tag("d:collection"@)
    } else {
        seq![]
    }) + close_tag("d:resourcetype"@) + leaf(
        "d:displayname"@,
        if e.is_root {
            root_label
        } else {
            e.basename@
        },
    ) + leaf("oc:id"@, spec_oc_id(e.fileid, instanceid)) + leaf(
        "oc:permissions"@,
        spec_permission_str(e.permissions, e.kind),
    ) + leaf("oc:size"@, decimal(e.size as nat)) + leaf("oc:favorite"@, favorite)
}

/// The `<d:response>` of one resource.
pub open spec fn entry_response(
    ctx: PropfindContext,
    e: PropfindEntry,
    favorites: Seq<(Seq<char>, Option<Seq<char>>)>,
) -> Seq<char> {
    response_xml(
        spec_href_for(ctx.href_prefix@, ctx.root_label@, e.path@, e.is_root),
        propstat_xml(
            "HTTP/1.1 200 OK"@,
            entry_props(e, ctx.root_label@, ctx.instanceid@, favorite_for(favorites, e.cache_path@)),
        ),
    )
}

/// The responses of a list of resources, in order.
pub open spec fn entries_responses(
    ctx: PropfindContext,
    entries: Seq<PropfindEntry>,
    favorites: Seq<(Seq<char>, Option<Seq<char>>)>,
) -> Seq<char>
    decreases entries.len(),
{
    if entries.len() == 0 {
        seq![]
    } else {
        entries_responses(ctx, entries.drop_last(), favorites) + entry_response(
            ctx,
            entries.last(),
            favorites,
        )
    }
}

#[verifier::rlimit(60)]
#[verifier::spinoff_prover]
fn write_entry_props(
    d: &mut XmlDoc,
    e: &PropfindEntry,
    root_label: &str,
    instanceid: &str,
    favorite: &str,
)
    requires
        e.mtime_secs < http_date_limit(),
    ensures
        final(d)@ == old(d)@ + entry_props(*e, root_label@, instanceid@, favorite@),
{
    let ghost start = d@;
    if e.kind == FileKind::File {
        let size = string_from(&fmt_u64(e.size));
        d.leaf("d:getcontentlength", size.as_str());
        d.leaf("d:getcontenttype", e.mimetype.as_str());
    }
    let ghost p1 = if e.kind == FileKind::File {
        leaf("d:getcontentlength"@, decimal(e.size as nat)) + leaf("d:getcontenttype"@, e.mimetype@)
    } else {
        seq![]
    };
    assert(d@ =~= start + p1);
    let mut etag = String::new();
    push_char(&mut etag, '"');
    push_str(&mut etag, e.etag.as_str());
    push_char(&mut etag, '"');
    d.leaf("d:getetag", etag.as_str());
    let ghost p2 = p1 + leaf("d:getetag"@, seq!['"'] + e.etag@ + seq!['"']);
    assert(etag@ =~= seq!['"'] + e.etag@ + seq!['"']);
    assert(d@ =~= start + p2);
    let date = http_date(e.mtime_secs);
    d.leaf("d:getlastmodified", date.as_str());
    let ghost p3 = p2 + leaf("d:getlastmodified"@, http_date_text(e.mtime_secs));
    assert(d@ =~= start + p3);
    d.start("d:resourcetype");
    if e.kind == FileKind::Directory {
        d.empty("d:collection");
    }
    d.end("d:resourcetype");
    let ghost p4 = p3 + open_tag("d:resourcetype"@) + (if e.kind == FileKind::Directory {
        empty_tag("d:collection"@)
    } else {
        seq![]
    }) + close_tag("d:resourcetype"@);
    assert(d@ =~= start + p4);
    if e.is_root {
        d.leaf("d:displayname", root_label);
    } else {
        d.leaf("d:displayname", e.basename.as_str());
    }
    let ghost p5 = p4 + leaf(
        "d:displayname"@,
        if e.is_root {
            root_label@
        } else {
            e.basename@
        },
    );
    assert(d@ =~= start + p5);
    let id = oc_id(e.fileid, instanceid);
    d.leaf("oc:id", id.as_str());
    let ghost p6 = p5 + leaf("oc:id"@, spec_oc_id(e.fileid, instanceid@));
    assert(d@ =~= start + p6);
    let perms = permission_str(e.permissions, e.kind);
    d.leaf("oc:permissions", perms.as_str());
    let ghost p7 = p6 + leaf("oc:permissions"@, spec_permission_str(e.permissions, e.kind));
    assert(d@ =~= start + p7);
    let size2 = string_from(&fmt_u64(e.size));
    d.leaf("oc:size", size2.as_str());
    let ghost p8 = p7 + leaf("oc:size"@, decimal(e.size as nat));
    assert(d@ =~= start + p8);
    d.leaf("oc:favorite", favorite);
    let ghost p9 = p8 + leaf("oc:favorite"@, favorite@);
    assert(d@ =~= start + p9);
    assert(p9 == entry_props(*e, root_label@, instanceid@, favorite@));
}

/// Write the `<d:response>` of one resource.
#[verifier::rlimit(40)]
#[verifier::spinoff_prover]
fn write_entry_response(
    d: &mut XmlDoc,
    ctx: &PropfindContext,
    e: &PropfindEntry,
    favorites: &Vec<(String, Option<String>)>,
)
    requires
        e.mtime_secs < http_date_limit(),
    ensures
        final(d)@ == old(d)@ + entry_response(*ctx, *e, favorites_view(favorites@)),
{
    let ghost start = d@;
    let href = href_for(ctx.href_prefix.as_str(), ctx.root_label.as_str(), e.path.as_str(), e.is_root);
    let fav = favorite_of(favorites, e.cache_path.as_str());
    d.response_start(href.as_str());
    let ghost a = d@;
    d.propstat_start();
    let ghost b = d@;
    write_entry_props(d, e, ctx.root_label.as_str(), ctx.instanceid.as_str(), fav.as_str());
    let ghost c = d@;
    d.propstat_end("HTTP/1.1 200 OK");
    let ghost f = d@;
    d.end("d:response");
    proof {
        let props = entry_props(*e, ctx.root_label@, ctx.instanceid@, fav@);
        assert(f =~= a + propstat_xml("HTTP/1.1 200 OK"@, props));
        assert(d@ =~= start + entry_response(*ctx, *e, favorites_view(favorites@)));
    }
}

/// The 207 Multi-Status body for the given resources.
pub fn propfind_body(
    ctx: &PropfindContext,
    entries: &Vec<PropfindEntry>,
    favorites: &Vec<(String, Option<String>)>,
) -> (r: String)
    requires
        forall|i: int| 0 <= i < entries@.len() ==> #[trigger] entries@[i].mtime_secs
            < http_date_limit(),
    ensures
        r@ == multistatus_doc(entries_responses(*ctx, entries@, favorites_view(favorites@))),
{
    let ghost fv = favorites_view(favorites@);
    let mut d = XmlDoc::new();
    let mut i: usize = 0;
    while i < entries.len()
        invariant
            i <= entries@.len(),
            fv == favorites_view(favorites@),
            forall|k: int| 0 <= k < entries@.len() ==> #[trigger] entries@[k].mtime_secs
                < http_date_limit(),
            d@ == entries_responses(*ctx, entries@.subrange(0, i as int), fv),
        decreases entries@.len() - i,
    {
        let e = &entries[i];
        write_entry_response(&mut d, ctx, e, favorites);
        proof {
            let s = entries@.subrange(0, i + 1);
            assert(s.drop_last() =~= entries@.subrange(0, i as int));
            assert(s.last() == *e);
        }
        i = i + 1;
    }
    assert(entries@.subrange(0, entries@.len() as int) =~= entries@);
    let body = d.into_string();
    multistatus(body.as_str())
}

/// The depth a PROPFIND answers with (default 1); `infinity` is refused
/// with `propfind-finite-depth`, and a malformed header with 400.
pub fn propfind_depth(headers: &HeaderMap) -> (r: Result<Depth, DavError>)
    ensures
        match spec_parse_depth(headers@, Depth::One) {
            Ok(Depth::Infinity) => r matches Err(DavError::PropfindFiniteDepth),
            Ok(d) => r == Ok::<Depth, DavError>(d),
            Err(m) => r matches Err(DavError::BadRequest(n)) && n@ == m,
        },
{
    match parse_depth(headers, Depth::One) {
        Ok(Depth::Infinity) => Err(DavError::PropfindFiniteDepth),
        Ok(d) => Ok(d),
        Err(e) => Err(e),
    }
}

/// Whether the children of the resource are listed: Depth 1 on a directory.
pub fn lists_children(depth: Depth, kind: FileKind) -> (r: bool)
    ensures
        r == (depth == Depth::One && kind == FileKind::Directory),
{
    depth == Depth::One && kind == FileKind::Directory
}

/// The resources a PROPFIND answers for, in order: the target, then its
/// children when they are listed (Depth 1 on a directory).
pub open spec fn propfind_listing(
    target: PropfindEntry,
    children: Seq<PropfindEntry>,
    depth: Depth,
) -> Seq<PropfindEntry> {
    if depth == Depth::One && target.kind == FileKind::Directory {
        seq![target] + children
    } else {
        seq![target]
    }
}

/// The responses of a listing that starts with `first` are the response of
/// `first` followed by those of the rest: the first `<d:response>` of a
/// PROPFIND answer is the target's own.
#[verifier::rlimit(40)]
pub proof fn lemma_first_response(
    ctx: PropfindContext,
    first: PropfindEntry,
    rest: Seq<PropfindEntry>,
    favorites: Seq<(Seq<char>, Option<Seq<char>>)>,
)
    ensures
        entries_responses(ctx, seq![first] + rest, favorites) == entry_response(ctx, first, favorites)
            + entries_responses(ctx, rest, favorites),
    decreases rest.len(),
{
    if rest.len() == 0 {
        assert(seq![first] + rest =~= seq![first]);
        assert(seq![first].drop_last() =~= Seq::<PropfindEntry>::empty());
        assert(entries_responses(ctx, Seq::<PropfindEntry>::empty(), favorites) == Seq::<char>::empty());
        assert(entry_response(ctx, first, favorites) + Seq::<char>::empty() =~= entry_response(
            ctx,
            first,
            favorites,
        ));
    } else {
        let all = seq![first] + rest;
        assert(all.drop_last() =~= seq![first] + rest.drop_last());
        assert(all.last() == rest.last());
        lemma_first_response(ctx, first, rest.drop_last(), favorites);
        assert(entries_responses(ctx, all, favorites) == entries_responses(ctx, all.drop_last(), favorites)
            + entry_response(ctx, all.last(), favorites));
        assert(entries_responses(ctx, rest, favorites) == entries_responses(ctx, rest.drop_last(), favorites)
            + entry_response(ctx, rest.last(), favorites));
        let a = entry_response(ctx, first, favorites);
        let b = entries_responses(ctx, rest.drop_last(), favorites);
        let c = entry_response(ctx, rest.last(), favorites);
        assert((a + b) + c =~= a + (b + c));
    }
}

/// The 207 Multi-Status body of a PROPFIND on `target`: one response for
/// the target, followed, on Depth 1 for a directory, by one response per
/// child in the order given; the children are ignored otherwise.
pub fn propfind_listing_body(
    ctx: &PropfindContext,
    target: PropfindEntry,
    children: Vec<PropfindEntry>,
    depth: Depth,
    favorites: &Vec<(String, Option<String>)>,
) -> (r: String)
    requires
        target.mtime_secs < http_date_limit(),
        depth == Depth::One && target.kind == FileKind::Directory ==> forall|i: int|
            0 <= i < children@.len() ==> #[trigger] children@[i].mtime_secs < http_date_limit(),
    ensures
        r@ == multistatus_doc(
            entries_responses(*ctx, propfind_listing(target, children@, depth), favorites_view(favorites@)),
        ),
        propfind_listing(target, children@, depth).len() == if depth == Depth::One && target.kind
            == FileKind::Directory {
            1 + children@.len()
        } else {
            1
        },
        propfind_listing(target, children@, depth)[0] == target,
        r@ == multistatus_doc(
            entry_response(*ctx, target, favorites_view(favorites@)) + entries_responses(
                *ctx,
                if depth == Depth::One && target.kind == FileKind::Directory {
                    children@
                } else {
                    Seq::<PropfindEntry>::empty()
                },
                favorites_view(favorites@),
            ),
        ),
{
    let ghost listing = propfind_listing(target, children@, depth);
    let listed = lists_children(depth, target.kind);
    let mut entries: Vec<PropfindEntry> = Vec::new();
    entries.push(target);
    if listed {
        let mut rest = children;
        entries.append(&mut rest);
    }
    assert(entries@ =~= listing);
    proof {
        let rest = if listed {
            children@
        } else {
            Seq::<PropfindEntry>::empty()
        };
        assert(listing =~= seq![target] + rest);
        lemma_first_response(*ctx, target, rest, favorites_view(favorites@));
    }
    propfind_body(ctx, &entries, favorites)
}

/// The 207 reply carrying a multistatus body.
pub fn multistatus_reply(body: String) -> (r: Reply)
    ensures
        r.status == 207,
        r.body@ == body@,
        headers_view(r.headers@) == seq![("content-type"@, "application/xml; charset=utf-8"@)],
{
    let mut headers: Vec<(String, String)> = Vec::new();
    headers.push((to_owned("content-type"), to_owned("application/xml; charset=utf-8")));
    let r = Reply { status: 207, headers, body };
    assert(headers_view(r.headers@) =~= seq![("content-type"@, "application/xml; charset=utf-8"@)]);
    r
}

} // verus!
