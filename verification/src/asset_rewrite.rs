//! Rewrites the asset hrefs of server-rendered HTML.
//!
//! The UI bundler replaces each asset reference with its hashed bundled URL
//! (`/assets/app-dxh<hash>.css`) in the WebAssembly build only; the server
//! build keeps the original absolute source path. At startup the server
//! reads the bundler's manifest (`source path → bundled path`); on every
//! `text/html` response each source path is replaced with
//! `/assets/<bundled path>`. Without a manifest the rewrite does nothing.

use crate::codec::string_from_utf8;
use crate::text::{
    chars_of, concat, contains, contains_chars, has_prefix, replace_chars, starts_with, str_eq,
    str_replace, string_from, to_owned,
};
use vstd::prelude::*;
use vstd::utf8::{decode_utf8, encode_utf8, valid_utf8};

verus! {

/// Largest HTML body buffered for rewriting, in bytes.
pub const MAX_REWRITE_BYTES: usize = 4194304;

/// Substitution table: `source path → served URL`, each source at most once.
#[derive(Debug)]
pub struct AssetRewriteMap {
    entries: Vec<(String, String)>,
}

/// The `(source, URL)` pairs of a table's entries.
pub open spec fn pairs_view(e: Seq<(String, String)>) -> Seq<(Seq<char>, Seq<char>)> {
    e.map_values(|p: (String, String)| (p.0@, p.1@))
}

impl View for AssetRewriteMap {
    type V = Seq<(Seq<char>, Seq<char>)>;

    closed spec fn view(&self) -> Seq<(Seq<char>, Seq<char>)> {
        pairs_view(self.entries@)
    }
}

/// Whether no source path occurs twice.
pub open spec fn distinct_sources(m: Seq<(Seq<char>, Seq<char>)>) -> bool {
    forall|i: int, j: int| 0 <= i < j < m.len() ==> m[i].0 != m[j].0
}

/// The URL stored for `src`, if any.
pub open spec fn rewrite_target(m: Seq<(Seq<char>, Seq<char>)>, src: Seq<char>) -> Option<Seq<char>>
    decreases m.len(),
{
    if m.len() == 0 {
        None
    } else if m[0].0 == src {
        Some(m[0].1)
    } else {
        rewrite_target(m.drop_first(), src)
    }
}

/// Apply every substitution of `m` to `text`, in table order: each source
/// that occurs in the text at that point is replaced by its URL everywhere.
pub open spec fn rewrite_all(text: Seq<char>, m: Seq<(Seq<char>, Seq<char>)>) -> Seq<char>
    decreases m.len(),
{
    if m.len() == 0 {
        text
    } else {
        let t = if contains(text, m[0].0) {
            str_replace(text, m[0].0, m[0].1)
        } else {
            text
        };
        rewrite_all(t, m.drop_first())
    }
}

proof fn lemma_target_push(
    m: Seq<(Seq<char>, Seq<char>)>,
    e: (Seq<char>, Seq<char>),
    s: Seq<char>,
)
    ensures
        rewrite_target(m.push(e), s) == (match rewrite_target(m, s) {
            Some(v) => Some(v),
            None => if e.0 == s {
                Some(e.1)
            } else {
                None
            },
        }),
    decreases m.len(),
{
    let mp = m.push(e);
    if m.len() > 0 {
        lemma_target_push(m.drop_first(), e, s);
        assert(mp.drop_first() =~= m.drop_first().push(e));
        assert(mp[0] == m[0]);
        if m[0].0 == s {
            assert(rewrite_target(mp, s) == Some(m[0].1));
        } else {
            assert(rewrite_target(mp, s) == rewrite_target(mp.drop_first(), s));
        }
    } else {
        assert(mp.drop_first() =~= Seq::<(Seq<char>, Seq<char>)>::empty());
        assert(mp[0] == e);
        assert(rewrite_target(mp.drop_first(), s) is None);
    }
}

proof fn lemma_target_absent(m: Seq<(Seq<char>, Seq<char>)>, s: Seq<char>)
    requires
        forall|k: int| 0 <= k < m.len() ==> m[k].0 != s,
    ensures
        rewrite_target(m, s) is None,
    decreases m.len(),
{
    if m.len() > 0 {
        lemma_target_absent(m.drop_first(), s);
    }
}

impl AssetRewriteMap {
    /// No source path occurs twice in a table.
    #[verifier::type_invariant]
    spec fn sources_distinct(self) -> bool {
        distinct_sources(pairs_view(self.entries@))
    }

    /// Empty map — the rewrite is a no-op.
    pub fn empty() -> (r: AssetRewriteMap)
        ensures
            r@ == Seq::<(Seq<char>, Seq<char>)>::empty(),
    {
        let entries: Vec<(String, String)> = Vec::new();
        assert(pairs_view(entries@) =~= Seq::<(Seq<char>, Seq<char>)>::empty());
        AssetRewriteMap { entries }
    }

    /// True if there are no substitutions to apply (the body is then not
    /// buffered at all).
    pub fn is_empty(&self) -> (r: bool)
        ensures
            r == (self@.len() == 0),
    {
        self.entries.len() == 0
    }

    /// The URL for `src`, if the table has one.
    pub fn get(&self, src: &str) -> (r: Option<&str>)
        ensures
            match r {
                Some(v) => rewrite_target(self@, src@) == Some(v@),
                None => rewrite_target(self@, src@) is None,
            },
    {
        let mut i: usize = 0;
        assert(self@.subrange(0, self@.len() as int) =~= self@);
        while i < self.entries.len()
            invariant
                i <= self.entries@.len(),
                rewrite_target(self@, src@) == rewrite_target(self@.subrange(i as int, self@.len() as int), src@),
            decreases self.entries@.len() - i,
        {
            let ghost rest = self@.subrange(i as int, self@.len() as int);
            assert(rest[0] == (self.entries@[i as int].0@, self.entries@[i as int].1@));
            if str_eq(self.entries[i].0.as_str(), src) {
                return Some(self.entries[i].1.as_str());
            }
            assert(rest.drop_first() =~= self@.subrange(i + 1, self@.len() as int));
            i = i + 1;
        }
        None
    }

    /// Record `url` for `src`, replacing an earlier URL for the same source.
    pub fn insert(&mut self, src: &str, url: &str)
        ensures
            distinct_sources(final(self)@),
            rewrite_target(final(self)@, src@) == Some(url@),
            forall|s: Seq<char>|
                s != src@ ==> #[trigger] rewrite_target(final(self)@, s) == rewrite_target(
                    old(self)@,
                    s,
                ),
    {
        proof {
            use_type_invariant(&*self);
        }
        let ghost before = self@;
        let mut entries: Vec<(String, String)> = Vec::new();
        std::mem::swap(&mut entries, &mut self.entries);
        assert(pairs_view(entries@) == before);
        let mut i: usize = 0;
        let mut at: Option<usize> = None;
        while i < entries.len()
            invariant_except_break
                at is None,
            invariant
                i <= entries@.len(),
                pairs_view(entries@) == before,
                distinct_sources(before),
                forall|k: int| 0 <= k < i ==> #[trigger] before[k].0 != src@,
            ensures
                pairs_view(entries@) == before,
                match at {
                    Some(j) => j < before.len() && before[j as int].0 == src@ && forall|k: int|
                        0 <= k < j ==> #[trigger] before[k].0 != src@,
                    None => forall|k: int| 0 <= k < before.len() ==> #[trigger] before[k].0 != src@,
                },
            decreases entries@.len() - i,
        {
            assert(before[i as int] == (entries@[i as int].0@, entries@[i as int].1@));
            if str_eq(entries[i].0.as_str(), src) {
                at = Some(i);
                break;
            }
            i = i + 1;
        }
        match at {
            Some(j) => {
                let ghost before_e = entries@;
                let ghost idx = j as int;
                entries.set(j, (to_owned(src), to_owned(url)));
                proof {
                    assert forall|k: int| 0 <= k < before.len() implies #[trigger] pairs_view(
                        entries@,
                    )[k] == before.update(idx, (src@, url@))[k] by {
                        assert(pairs_view(entries@)[k] == (entries@[k].0@, entries@[k].1@));
                        assert(before[k] == (before_e[k].0@, before_e[k].1@));
                    }
                    assert(pairs_view(entries@) =~= before.update(idx, (src@, url@)));
                    lemma_target_update(before, idx, src@, url@);
                }
            },
            None => {
                entries.push((to_owned(src), to_owned(url)));
                proof {
                    assert(pairs_view(entries@) =~= before.push((src@, url@)));
                    assert forall|s: Seq<char>| true implies #[trigger] rewrite_target(
                        pairs_view(entries@),
                        s,
                    ) == (match rewrite_target(before, s) {
                        Some(v) => Some(v),
                        None => if src@ == s {
                            Some(url@)
                        } else {
                            None
                        },
                    }) by {
                        lemma_target_push(before, (src@, url@), s);
                    }
                    lemma_target_absent(before, src@);
                }
            },
        }
        self.entries = entries;
    }

    /// Build the table from a parsed manifest: each source maps to
    /// `/assets/<bundled path>` of its first build-output entry; sources
    /// without entries are skipped; a later duplicate source wins.
    pub fn from_manifest(assets: Vec<(String, Vec<String>)>) -> (r: AssetRewriteMap)
        ensures
            distinct_sources(r@),
            forall|s: Seq<char>|
                #![trigger rewrite_target(r@, s)]
                rewrite_target(r@, s) == manifest_target(
                    assets@.map_values(|p: (String, Vec<String>)| (p.0@, p.1@.map_values(|b: String| b@))),
                    s,
                ),
    {
        let ghost view = assets@.map_values(|p: (String, Vec<String>)| (p.0@, p.1@.map_values(|b: String| b@)));
        let mut m = AssetRewriteMap::empty();
        let mut i: usize = 0;
        while i < assets.len()
            invariant
                i <= assets@.len(),
                view == assets@.map_values(|p: (String, Vec<String>)| (p.0@, p.1@.map_values(|b: String| b@))),
                distinct_sources(m@),
                forall|s: Seq<char>|
                    #![trigger rewrite_target(m@, s)]
                    rewrite_target(m@, s) == manifest_target(view.subrange(0, i as int), s),
            decreases assets@.len() - i,
        {
            let (src, bundles) = (&assets[i].0, &assets[i].1);
            proof {
                assert(view[i as int] == (src@, bundles@.map_values(|b: String| b@)));
                assert(view.subrange(0, i + 1).drop_last() =~= view.subrange(0, i as int));
            }
            if bundles.len() > 0 {
                let url = concat("/assets/", bundles[0].as_str());
                m.insert(src.as_str(), url.as_str());
            }
            i = i + 1;
        }
        assert(view.subrange(0, assets@.len() as int) =~= view);
        proof {
            use_type_invariant(&m);
        }
        m
    }
}

/// The URL a manifest gives a source: from the last entry for that source
/// with at least one bundled path, `/assets/` followed by its first one.
pub open spec fn manifest_target(assets: Seq<(Seq<char>, Seq<Seq<char>>)>, s: Seq<char>) -> Option<
    Seq<char>,
>
    decreases assets.len(),
{
    if assets.len() == 0 {
        None
    } else {
        let last = assets.last();
        if last.0 == s && last.1.len() > 0 {
            Some("/assets/"@ + last.1[0])
        } else {
            manifest_target(assets.drop_last(), s)
        }
    }
}

proof fn lemma_target_update(
    m: Seq<(Seq<char>, Seq<char>)>,
    idx: int,
    src: Seq<char>,
    url: Seq<char>,
)
    requires
        0 <= idx < m.len(),
        m[idx].0 == src,
        forall|k: int| 0 <= k < idx ==> m[k].0 != src,
        distinct_sources(m),
    ensures
        distinct_sources(m.update(idx, (src, url))),
        rewrite_target(m.update(idx, (src, url)), src) == Some(url),
        forall|s: Seq<char>|
            s != src ==> #[trigger] rewrite_target(m.update(idx, (src, url)), s) == rewrite_target(
                m,
                s,
            ),
    decreases idx,
{
    let u = m.update(idx, (src, url));
    assert forall|i: int, j: int| 0 <= i < j < u.len() implies u[i].0 != u[j].0 by {
        assert(u[i].0 == m[i].0);
        assert(u[j].0 == m[j].0);
    }
    if idx > 0 {
        assert(u.drop_first() =~= m.drop_first().update(idx - 1, (src, url)));
        assert forall|i: int, j: int|
            0 <= i < j < m.drop_first().len() implies m.drop_first()[i].0 != m.drop_first()[j].0 by {
            assert(m.drop_first()[i] == m[i + 1]);
            assert(m.drop_first()[j] == m[j + 1]);
        }
        lemma_target_update(m.drop_first(), idx - 1, src, url);
        assert(u[0] == m[0]);
        assert forall|s: Seq<char>| s != src implies #[trigger] rewrite_target(u, s)
            == rewrite_target(m, s) by {
            if m[0].0 != s {
                assert(rewrite_target(u, s) == rewrite_target(u.drop_first(), s));
                assert(rewrite_target(m, s) == rewrite_target(m.drop_first(), s));
            }
        }
    } else {
        assert(u.drop_first() =~= m.drop_first());
        assert forall|s: Seq<char>| s != src implies #[trigger] rewrite_target(u, s)
            == rewrite_target(m, s) by {
            assert(rewrite_target(u, s) == rewrite_target(u.drop_first(), s));
            assert(rewrite_target(m, s) == rewrite_target(m.drop_first(), s));
        }
    }
}

/// Whether a response `Content-Type` is HTML.
pub open spec fn spec_is_html(ct: Option<Seq<char>>) -> bool {
    match ct {
        Some(s) => has_prefix(s, "text/html"@),
        None => false,
    }
}

/// Whether a response `Content-Type` value is `text/html...`.
pub fn is_html(ct: Option<&str>) -> (r: bool)
    ensures
        r == spec_is_html(
            match ct {
                Some(s) => Some(s@),
                None => None,
            },
        ),
{
    match ct {
        Some(s) => {
            let sc = chars_of(s);
            let p = chars_of("text/html");
            starts_with(&sc, &p)
        },
        None => false,
    }
}

/// `tower` layer constructor.
#[derive(Debug, Clone)]
pub struct AssetRewriteLayer {
    pub map: AssetRewriteMap,
}

impl AssetRewriteLayer {
    pub fn new(map: AssetRewriteMap) -> (r: AssetRewriteLayer)
        ensures
            r.map@ == map@,
    {
        AssetRewriteLayer { map }
    }

    /// Wrap an inner service.
    pub fn layer<S>(&self, inner: S) -> (r: AssetRewrite<S>)
        ensures
            r.inner == inner,
            r.map@ == self.map@,
    {
        AssetRewrite { inner, map: self.map.clone_map() }
    }
}

impl AssetRewriteMap {
    /// A copy of the table.
    pub fn clone_map(&self) -> (r: AssetRewriteMap)
        ensures
            r@ == self@,
    {
        proof {
            use_type_invariant(self);
        }
        let mut entries: Vec<(String, String)> = Vec::new();
        let mut i: usize = 0;
        while i < self.entries.len()
            invariant
                i <= self.entries@.len(),
                entries@.len() == i,
                forall|j: int| 0 <= j < i ==> #[trigger] entries@[j].0@ == self.entries@[j].0@
                    && entries@[j].1@ == self.entries@[j].1@,
            decreases self.entries@.len() - i,
        {
            entries.push((to_owned(self.entries[i].0.as_str()), to_owned(self.entries[i].1.as_str())));
            i = i + 1;
        }
        assert forall|j: int| 0 <= j < self@.len() implies #[trigger] pairs_view(entries@)[j]
            == self@[j] by {
            assert(pairs_view(entries@)[j] == (entries@[j].0@, entries@[j].1@));
            assert(self@[j] == (self.entries@[j].0@, self.entries@[j].1@));
        }
        assert(pairs_view(entries@) =~= self@);
        AssetRewriteMap { entries }
    }
}

impl Default for AssetRewriteMap {
    /// The empty table.
    fn default() -> (r: AssetRewriteMap)
        ensures
            r@ == Seq::<(Seq<char>, Seq<char>)>::empty(),
    {
        AssetRewriteMap::empty()
    }
}

impl Clone for AssetRewriteMap {
    /// A copy of the table (`clone_map`).
    fn clone(&self) -> (r: AssetRewriteMap)
        ensures
            r@ == self@,
    {
        self.clone_map()
    }
}

/// The rewriting service produced by [`AssetRewriteLayer`].
#[derive(Debug, Clone)]
pub struct AssetRewrite<S> {
    pub inner: S,
    pub map: AssetRewriteMap,
}

/// Whether a response is rewritten at all: only HTML, and only when the
/// table is not empty.
pub fn should_rewrite(map: &AssetRewriteMap, ct: Option<&str>) -> (r: bool)
    ensures
        r == (map@.len() > 0 && spec_is_html(
            match ct {
                Some(s) => Some(s@),
                None => None,
            },
        )),
{
    !map.is_empty() && is_html(ct)
}

/// Apply the table to HTML text.
pub fn rewrite_text(map: &AssetRewriteMap, text: &str) -> (r: String)
    ensures
        r@ == rewrite_all(text@, map@),
{
    let mut t = chars_of(text);
    let mut i: usize = 0;
    assert(map@.subrange(0, map@.len() as int) =~= map@);
    while i < map.entries.len()
        invariant
            i <= map.entries@.len(),
            rewrite_all(text@, map@) == rewrite_all(t@, map@.subrange(i as int, map@.len() as int)),
        decreases map.entries@.len() - i,
    {
        let ghost rest = map@.subrange(i as int, map@.len() as int);
        assert(rest[0] == (map.entries@[i as int].0@, map.entries@[i as int].1@));
        assert(rest.drop_first() =~= map@.subrange(i + 1, map@.len() as int));
        let src = chars_of(map.entries[i].0.as_str());
        let url = chars_of(map.entries[i].1.as_str());
        if contains_chars(&t, &src) {
            t = replace_chars(&t, &src, &url);
        }
        i = i + 1;
    }
    assert(map@.subrange(map@.len() as int, map@.len() as int) =~= Seq::<(Seq<char>, Seq<char>)>::empty());
    string_from(&t)
}

/// Rewrite a buffered HTML body: UTF-8 text is rewritten (`Ok`), other
/// bytes are handed back unchanged (`Err`).
pub fn rewrite_body(map: &AssetRewriteMap, body: Vec<u8>) -> (r: Result<String, Vec<u8>>)
    ensures
        match r {
            Ok(s) => valid_utf8(body@) && s@ == rewrite_all(decode_utf8(body@), map@),
            Err(b) => !valid_utf8(body@) && b@ == body@,
        },
{
    match string_from_utf8(body.as_slice()) {
        Some(text) => Ok(rewrite_text(map, text.as_str())),
        None => Err(body),
    }
}

/// What the rewriting service hands on for one buffered HTML response.
#[derive(Debug)]
pub struct RewrittenBody {
    /// The body bytes to send.
    pub body: Vec<u8>,
    /// Whether the response's `content-length` header is removed (the body
    /// length changed, so it is recomputed downstream).
    pub drop_content_length: bool,
}

/// The body of an HTML response after rewriting. `buffered` is the body as
/// read, `None` when it could not be read. A body that cannot be read or is
/// larger than `MAX_REWRITE_BYTES` is replaced by an empty one; a body that
/// is not UTF-8 is handed on unchanged; UTF-8 text is rewritten, and then
/// the stale `content-length` is removed. Headers are otherwise kept, and
/// the status is never touched.
pub fn rewrite_response(map: &AssetRewriteMap, buffered: Option<Vec<u8>>) -> (r: RewrittenBody)
    ensures
        match buffered {
            None => r.body@.len() == 0 && !r.drop_content_length,
            Some(b) => if b@.len() > MAX_REWRITE_BYTES {
                r.body@.len() == 0 && !r.drop_content_length
            } else if valid_utf8(b@) {
                r.body@ == encode_utf8(rewrite_all(decode_utf8(b@), map@)) && r.drop_content_length
            } else {
                r.body@ == b@ && !r.drop_content_length
            },
        },
{
    match buffered {
        None => RewrittenBody { body: Vec::new(), drop_content_length: false },
        Some(b) => {
            if b.len() > MAX_REWRITE_BYTES {
                RewrittenBody { body: Vec::new(), drop_content_length: false }
            } else {
                match rewrite_body(map, b) {
                    Ok(text) => RewrittenBody {
                        body: vstd::slice::slice_to_vec(text.as_str().as_bytes()),
                        drop_content_length: true,
                    },
                    Err(bytes) => RewrittenBody { body: bytes, drop_content_length: false },
                }
            }
        },
    }
}

} // verus!
