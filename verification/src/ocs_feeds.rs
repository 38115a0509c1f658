//! The paginated OCS feeds and the share endpoints: activity
//! (`/apps/activity/api/v2/activity`), unified search
//! (`/search/providers/files/search`) and shares
//! (`/apps/files_sharing/api/v1/shares`).
//!
//! Pages are capped (activity 30 by default, at most 100; search 20, at
//! most 50; never below 1). The search cursor is the base64 (no padding) of
//! `<rank>|<fileid>` of the last hit; the rank is a float and is written
//! and read by the caller. The stores behind the feeds are consulted
//! between these decisions.

use crate::codec::{b64nopad_decode, b64nopad_decoding, b64nopad_encode, b64nopad_encoding, parse_ymd, string_from_utf8, ymd_date};
use crate::text::{chars_of, fmt_i64, has_char, lemma_index_of_is, parse_i64, push_char, push_chars, push_str, signed_decimal, spec_parse_i64, split_once, split_once_chars, str_eq, string_from, to_owned, all_digits, decimal, digits_value, is_digit};
use vstd::prelude::*;
use vstd::utf8::{decode_utf8, encode_utf8, valid_utf8};

verus! {

broadcast use vstd::utf8::encode_utf8_valid_utf8, vstd::utf8::encode_utf8_decode_utf8;

/// `limit.unwrap_or(default).clamp(1, max)`.
pub open spec fn spec_page_limit(limit: Option<i64>, default: i64, max: i64) -> i64 {
    let l = match limit {
        Some(x) => x,
        None => default,
    };
    if l < 1 {
        1
    } else if l > max {
        max
    } else {
        l
    }
}

fn page_limit(limit: Option<i64>, default: i64, max: i64) -> (r: i64)
    requires
        1 <= max,
    ensures
        r == spec_page_limit(limit, default, max),
{
    let l = match limit {
        Some(x) => x,
        None => default,
    };
    if l < 1 {
        1
    } else if l > max {
        max
    } else {
        l
    }
}

/// The page size of the activity feed: 30 by default, within `[1, 100]`.
pub fn activity_limit(limit: Option<i64>) -> (r: i64)
    ensures
        r == spec_page_limit(limit, 30, 100),
{
    page_limit(limit, 30, 100)
}

/// The `next_since` of an activity page: the id of its last (oldest) row,
/// none for an empty page.
pub fn next_since(ids: &Vec<i64>) -> (r: Option<i64>)
    ensures
        ids@.len() == 0 ==> r is None,
        ids@.len() > 0 ==> r == Some(ids@.last()),
{
    if ids.len() == 0 {
        None
    } else {
        Some(ids[ids.len() - 1])
    }
}

// ---------------------------------------------------------------- search

/// The page size of a search: 20 by default, within `[1, 50]`.
pub fn search_limit(limit: Option<i64>) -> (r: i64)
    ensures
        r == spec_page_limit(limit, 20, 50),
{
    page_limit(limit, 20, 50)
}

/// Whether a search page is the last one: it holds fewer hits than asked.
pub fn is_last_page(hits: usize, limit: i64) -> (r: bool)
    ensures
        r == (hits < limit),
{
    if limit <= 0 {
        false
    } else {
        (hits as u64) < (limit as u64)
    }
}

/// `<rank>|<fileid>`.
pub open spec fn cursor_payload(rank: Seq<char>, fileid: i64) -> Seq<char> {
    rank + seq!['|'] + signed_decimal(fileid as int)
}

/// The cursor of a hit, from its rank as written by the caller.
pub fn encode_cursor(rank: &str, fileid: i64) -> (r: String)
    ensures
        r@ == b64nopad_encoding(encode_utf8(cursor_payload(rank@, fileid))),
        b64nopad_decoding(r@) == Some(encode_utf8(cursor_payload(rank@, fileid))),
{
    let mut p = to_owned(rank);
    push_char(&mut p, '|');
    push_chars(&mut p, &fmt_i64(fileid));
    assert(p@ =~= cursor_payload(rank@, fileid));
    b64nopad_encode(p.as_str().as_bytes())
}

/// What a cursor holds: the rank text and the file id, or the tag of the
/// first thing wrong (`b64`, `utf8`, `split`, `fileid`). The rank text is
/// parsed as a float by the caller.
pub open spec fn spec_cursor_fields(s: Seq<char>) -> Result<(Seq<char>, i64), Seq<char>> {
    match b64nopad_decoding(s) {
        None => Err("b64"@),
        Some(b) => if !valid_utf8(b) {
            Err("utf8"@)
        } else {
            match split_once(decode_utf8(b), '|') {
                None => Err("split"@),
                Some((a, f)) => match spec_parse_i64(f) {
                    None => Err("fileid"@),
                    Some(id) => Ok((a, id)),
                },
            }
        },
    }
}

/// Open a cursor.
pub fn cursor_fields(s: &str) -> (r: Result<(String, i64), &'static str>)
    ensures
        match spec_cursor_fields(s@) {
            Ok((a, id)) => r matches Ok((x, y)) && x@ == a && y == id,
            Err(tag) => r matches Err(t) && t@ == tag,
        },
{
    proof {
        reveal_strlit("b64");
        reveal_strlit("utf8");
        reveal_strlit("split");
        reveal_strlit("fileid");
    }
    let raw = match b64nopad_decode(s) {
        Some(b) => b,
        None => return Err("b64"),
    };
    let text = match string_from_utf8(raw.as_slice()) {
        Some(t) => t,
        None => return Err("utf8"),
    };
    let tc = chars_of(text.as_str());
    let (a, f) = match split_once_chars(&tc, '|') {
        Some(p) => p,
        None => return Err("split"),
    };
    match parse_i64(&f) {
        Some(id) => Ok((string_from(&a), id)),
        None => Err("fileid"),
    }
}

pub(crate) proof fn lemma_decimal_digits(n: nat)
    ensures
        decimal(n).len() > 0,
        all_digits(decimal(n)),
        digits_value(decimal(n)) == n,
    decreases n,
{
    if n >= 10 {
        lemma_decimal_digits(n / 10);
        let d = decimal(n / 10);
        let s = d.push(crate::text::digit_char(n % 10));
        assert(s.drop_last() =~= d);
        assert(s.last() == crate::text::digit_char(n % 10));
        assert((s.last() as nat - '0' as nat) as nat == n % 10);
        assert(n == (n / 10) * 10 + n % 10);
        assert(decimal(n) == s);
        assert(digits_value(s) == digits_value(s.drop_last()) * 10 + (s.last() as nat - '0' as nat) as nat);
        assert(digits_value(s) == n);
        assert forall|i: int| 0 <= i < s.len() implies is_digit(#[trigger] s[i]) by {
            if i < d.len() {
                assert(s[i] == d[i]);
            }
        }
    } else {
        let s = decimal(n);
        assert(s.drop_last() =~= Seq::<char>::empty());
        assert(s.last() == crate::text::digit_char(n));
        assert((s.last() as nat - '0' as nat) as nat == n);
        assert(digits_value(s.drop_last()) == 0);
        assert(digits_value(s) == n);
    }
}

proof fn lemma_parse_signed_decimal(n: i64)
    ensures
        spec_parse_i64(signed_decimal(n as int)) == Some(n),
{
    if n < 0 {
        let k = (-(n as int)) as nat;
        lemma_decimal_digits(k);
        let s = signed_decimal(n as int);
        assert(s.drop_first() =~= decimal(k));
    } else {
        lemma_decimal_digits(n as nat);
        let s = decimal(n as nat);
        assert(is_digit(s[0]));
    }
}

/// A cursor opens to the rank text and file id it was made of: whatever
/// text decodes to the payload of `(rank, fileid)` (as a cursor written by
/// [`encode_cursor`] does) opens to them, ranks being written without `|`.
pub proof fn lemma_cursor_roundtrip(cursor: Seq<char>, rank: Seq<char>, fileid: i64)
    requires
        !has_char(rank, '|'),
        b64nopad_decoding(cursor) == Some(encode_utf8(cursor_payload(rank, fileid))),
    ensures
        spec_cursor_fields(cursor) == Ok::<(Seq<char>, i64), Seq<char>>((rank, fileid)),
{
    let p = cursor_payload(rank, fileid);
    assert(valid_utf8(encode_utf8(p)));
    assert(decode_utf8(encode_utf8(p)) == p);
    let i = rank.len() as int;
    assert(p[i] == '|');
    assert(p.subrange(0, i) =~= rank);
    lemma_index_of_is(p, '|', i);
    assert(p.subrange(i + 1, p.len() as int) =~= signed_decimal(fileid as int));
    lemma_parse_signed_decimal(fileid);
}

// ---------------------------------------------------------------- search hits

/// A search hit, as far as the reply goes.
#[derive(Debug, Clone)]
pub struct SearchHitFields {
    pub basename: String,
    /// The hit's path in the user's tree (with its leading `/`).
    pub path: String,
    pub fileid: i64,
    pub mime: String,
    pub size: i64,
    pub mtime: i64,
}

/// One entry of a search reply, in the unified-search provider shape.
#[derive(Debug, Clone)]
pub struct SearchEntry {
    pub thumbnail_url: String,
    pub title: String,
    pub subline: String,
    pub resource_url: String,
    pub icon: String,
    pub rounded: bool,
    pub fileid: String,
    pub mime: String,
    pub size: String,
    pub mtime: String,
}

/// The entry of a hit: titled by its name, sublined by its path, linking
/// to `/files<path>`, with its numbers as decimal text (Nextcloud sends
/// them as strings).
pub fn hit_to_entry(h: &SearchHitFields) -> (r: SearchEntry)
    ensures
        r.thumbnail_url@.len() == 0,
        r.title@ == h.basename@,
        r.subline@ == h.path@,
        r.resource_url@ == "/files"@ + h.path@,
        r.icon@.len() == 0,
        !r.rounded,
        r.fileid@ == signed_decimal(h.fileid as int),
        r.mime@ == h.mime@,
        r.size@ == signed_decimal(h.size as int),
        r.mtime@ == signed_decimal(h.mtime as int),
{
    let mut url = to_owned("/files");
    push_str(&mut url, h.path.as_str());
    proof {
        reveal_strlit("/files");
    }
    SearchEntry {
        thumbnail_url: String::new(),
        title: to_owned(h.basename.as_str()),
        subline: to_owned(h.path.as_str()),
        resource_url: url,
        icon: String::new(),
        rounded: false,
        fileid: string_from(&fmt_i64(h.fileid)),
        mime: to_owned(h.mime.as_str()),
        size: string_from(&fmt_i64(h.size)),
        mtime: string_from(&fmt_i64(h.mtime)),
    }
}

/// What a search request does before the index is asked.
#[derive(Debug)]
pub enum SearchPlan {
    /// An empty query: no entries, no cursor, last page.
    Empty,
    /// A cursor that does not open: 400 `bad cursor`.
    BadCursor,
    /// Ask the index for `limit` hits after the cursor's (rank text, file id).
    Run { limit: i64, cursor: Option<(String, i64)> },
}

/// Plan a search from its query, page size and cursor.
pub fn search_plan(query: &str, limit: Option<i64>, cursor: Option<&str>) -> (r: SearchPlan)
    ensures
        query@.len() == 0 ==> r is Empty,
        query@.len() > 0 ==> match cursor {
            None => r matches SearchPlan::Run { limit: l, cursor: c } && l == spec_page_limit(
                limit,
                20,
                50,
            ) && c is None,
            Some(t) => match spec_cursor_fields(t@) {
                Err(_) => r is BadCursor,
                Ok((a, id)) => r matches SearchPlan::Run { limit: l, cursor: c } && l
                    == spec_page_limit(limit, 20, 50) && (c matches Some((x, y)) && x@ == a && y
                    == id),
            },
        },
{
    if chars_of(query).len() == 0 {
        return SearchPlan::Empty;
    }
    let l = search_limit(limit);
    match cursor {
        None => SearchPlan::Run { limit: l, cursor: None },
        Some(t) => match cursor_fields(t) {
            Ok(c) => SearchPlan::Run { limit: l, cursor: Some(c) },
            Err(_) => SearchPlan::BadCursor,
        },
    }
}

// ---------------------------------------------------------------- shares

/// The kind of a share, as far as visibility goes.
#[derive(Debug, Clone, Copy, PartialEq, Eq, Structural)]
pub enum ShareKind {
    User,
    Group,
    /// Links and every other kind.
    Other,
}

/// Whether `x` is among `names`.
pub open spec fn names_have(names: Seq<Seq<char>>, x: Seq<char>) -> bool {
    exists|i: int| 0 <= i < names.len() && #[trigger] names[i] == x
}

fn names_contain(names: &Vec<String>, x: &str) -> (r: bool)
    ensures
        r == names_have(names@.map_values(|s: String| s@), x@),
{
    let ghost nv = names@.map_values(|s: String| s@);
    let mut i: usize = 0;
    while i < names.len()
        invariant
            i <= names@.len(),
            nv == names@.map_values(|s: String| s@),
            forall|k: int| 0 <= k < i ==> #[trigger] nv[k] != x@,
        decreases names@.len() - i,
    {
        assert(nv[i as int] == names@[i as int]@);
        if str_eq(names[i].as_str(), x) {
            return true;
        }
        i = i + 1;
    }
    false
}

/// Whether a share is visible to the requester: its owner, its direct
/// recipient, a member of its recipient group, or an admin. Others get a
/// 404, not a 403, so that a share's existence does not leak.
pub open spec fn spec_share_visible(
    requester: Seq<char>,
    owner: Seq<char>,
    kind: ShareKind,
    share_with: Option<Seq<char>>,
    requester_groups: Option<Seq<Seq<char>>>,
    is_admin: bool,
) -> bool {
    ||| owner == requester
    ||| kind == ShareKind::User && share_with == Some(requester)
    ||| (kind == ShareKind::Group && share_with is Some && requester_groups is Some && names_have(
        requester_groups->0,
        share_with->0,
    ))
    ||| is_admin
}

/// Whether a share is visible to the requester (`requester_groups`: the
/// requester's groups, `None` when they could not be read; `is_admin`:
/// false when that could not be read).
pub fn share_visible(
    requester: &str,
    owner: &str,
    kind: ShareKind,
    share_with: Option<&str>,
    requester_groups: &Option<Vec<String>>,
    is_admin: bool,
) -> (r: bool)
    ensures
        r == spec_share_visible(
            requester@,
            owner@,
            kind,
            match share_with {
                Some(s) => Some(s@),
                None => None,
            },
            match requester_groups {
                Some(g) => Some(g@.map_values(|x: String| x@)),
                None => None,
            },
            is_admin,
        ),
{
    if str_eq(owner, requester) {
        return true;
    }
    let direct = match (kind, share_with) {
        (ShareKind::User, Some(s)) => str_eq(s, requester),
        _ => false,
    };
    if direct {
        return true;
    }
    let in_group = match (kind, share_with, requester_groups) {
        (ShareKind::Group, Some(gname), Some(groups)) => names_contain(groups, gname),
        _ => false,
    };
    in_group || is_admin
}

/// Which shares a listing reads.
#[derive(Debug)]
pub enum ShareListPlan {
    /// `subfiles=true` is refused as not implemented.
    NotImplemented,
    /// The caller's shares of the item at this path of their home.
    ByPath(String),
    /// Shares others made with the caller.
    Incoming,
    /// Shares the caller made.
    Outgoing,
}

/// Plan a share listing from its query.
pub fn share_list_plan(path: Option<String>, shared_with_me: Option<bool>, subfiles: Option<bool>) -> (r:
    ShareListPlan)
    ensures
        subfiles == Some(true) ==> r is NotImplemented,
        subfiles != Some(true) ==> match path {
            Some(p) => r matches ShareListPlan::ByPath(q) && q@ == p@,
            None => if shared_with_me == Some(true) {
                r is Incoming
            } else {
                r is Outgoing
            },
        },
{
    if subfiles == Some(true) {
        return ShareListPlan::NotImplemented;
    }
    match path {
        Some(p) => ShareListPlan::ByPath(p),
        None => if shared_with_me == Some(true) {
            ShareListPlan::Incoming
        } else {
            ShareListPlan::Outgoing
        },
    }
}

/// The expiry an update asks for: none when absent, else a `YYYY-MM-DD`
/// date (year, month, day); a text that is not such a date refuses the
/// update (as bad permissions).
pub fn expire_date(raw: &Option<String>) -> (r: Result<Option<(i32, u32, u32)>, ()>)
    ensures
        match raw {
            None => r == Ok::<Option<(i32, u32, u32)>, ()>(None),
            Some(s) => match ymd_date(s@) {
                Some(d) => r == Ok::<Option<(i32, u32, u32)>, ()>(Some(d)),
                None => r is Err,
            },
        },
{
    match raw {
        None => Ok(None),
        Some(s) => match parse_ymd(s.as_str()) {
            Some(d) => Ok(Some(d)),
            None => Err(()),
        },
    }
}

} // verus!
