//! The browser-facing public-link surface under `/s/{token}`: the gates
//! every handler applies (password gate, permission bit), the download
//! plan (whole file or one byte range), upload names (safety and
//! `name (N).ext` collision resolution), the password unlock flow, and the
//! mapping of view errors to plain-text replies.
//!
//! The link's auth context, its storage view and the rate limiter are
//! consulted between these decisions.

use crate::codec::{header_value_ok, http_date, http_date_limit, http_date_text};
use crate::dav_error::{header_if_valid, headers_view, text_plain, FileCacheErrorKind, FsError, FsErrorKind, Reply, StorageErrorKind};
use crate::headers::{header_lookup, lemma_lower_literal, spec_parse_range, parse_range, HeaderMap};
use crate::text::{before_char, before_char_chars, chars_of, concat, decimal, fmt_u64, has_prefix, push_char, push_chars, push_str, slice_chars, string_from, to_owned, trim, trim_chars};
use vstd::prelude::*;

verus! {


// ---------------------------------------------------------------- extensions

/// Position of the last `.` in `s[..k]` that is not the first character.
pub open spec fn last_inner_dot(s: Seq<char>, k: int) -> Option<int>
    decreases k,
{
    if k <= 1 {
        None
    } else if s[k - 1] == '.' {
        Some(k - 1)
    } else {
        last_inner_dot(s, k - 1)
    }
}

/// `(stem, extension)`: split at the last `.` that is not the first
/// character; no such `.` means no extension.
pub open spec fn spec_split_ext(s: Seq<char>) -> (Seq<char>, Option<Seq<char>>) {
    match last_inner_dot(s, s.len() as int) {
        Some(i) => (s.subrange(0, i), Some(s.subrange(i + 1, s.len() as int))),
        None => (s, None),
    }
}

proof fn lemma_last_inner_dot_range(s: Seq<char>, k: int)
    requires
        k <= s.len(),
    ensures
        last_inner_dot(s, k) matches Some(i) ==> 0 < i < k && s[i] == '.',
    decreases k,
{
    if k > 1 && s[k - 1] != '.' {
        lemma_last_inner_dot_range(s, k - 1);
    }
}

/// Split a filename into `(stem, Some(extension))` for the last `.`-segment,
/// or `(name, None)` for files without an extension. Dotfiles (`.hidden`)
/// are treated as having no extension (the leading dot is part of the stem).
pub fn split_ext(name: &str) -> (r: (String, Option<String>))
    ensures
        r.0@ == spec_split_ext(name@).0,
        match r.1 {
            Some(e) => spec_split_ext(name@).1 == Some(e@),
            None => spec_split_ext(name@).1 is None,
        },
{
    let s = chars_of(name);
    let n: usize = s.len();
    let mut k: usize = n;
    while k > 1
        invariant
            k <= n,
            n == s@.len(),
            s@ == name@,
            last_inner_dot(s@, n as int) == last_inner_dot(s@, k as int),
        decreases k,
    {
        if s[k - 1] == '.' {
            let i = k - 1;
            assert(last_inner_dot(s@, k as int) == Some(i as int));
            return (string_from(&slice_chars(&s, 0, i)), Some(string_from(&slice_chars(&s, i + 1, n))));
        }
        k = k - 1;
    }
    (string_from(&s), None)
}

// ---------------------------------------------------------------- safe names

/// `char::is_control`: the Unicode `Cc` category, U+0000..=U+001F and
/// U+007F..=U+009F.
pub open spec fn is_control(c: char) -> bool {
    c <= '\u{1f}' || ('\u{7f}' <= c && c <= '\u{9f}')
}

/// Characters an upload file name may not contain.
pub open spec fn forbidden_name_char(c: char) -> bool {
    c == '/' || c == '\\' || c == '\0' || is_control(c)
}

/// A name usable as a single path segment: not empty, not starting with
/// `..`, and free of `/`, `\`, NUL and control characters.
pub open spec fn spec_is_safe_filename(s: Seq<char>) -> bool {
    &&& s.len() > 0
    &&& !has_prefix(s, seq!['.', '.'])
    &&& forall|i: int| 0 <= i < s.len() ==> !forbidden_name_char(#[trigger] s[i])
}

/// True iff the filename is safe to use as a single-segment path. Rejects:
/// empty, contains `/`, `\`, `\0`, control chars, starts with `..`.
/// Sanitization happens before any storage interaction so a path like
/// `../../../etc/passwd` never reaches the filesystem.
pub fn is_safe_filename(s: &str) -> (r: bool)
    ensures
        r == spec_is_safe_filename(s@),
{
    let cs = chars_of(s);
    assert(cs@ == s@);
    if cs.len() == 0 {
        return false;
    }
    if cs.len() >= 2 && cs[0] == '.' && cs[1] == '.' {
        assert(cs@.subrange(0, 2) =~= seq!['.', '.']);
        return false;
    }
    assert(!has_prefix(cs@, seq!['.', '.'])) by {
        if has_prefix(cs@, seq!['.', '.']) {
            assert(cs@.subrange(0, 2)[0] == cs@[0]);
            assert(cs@.subrange(0, 2)[1] == cs@[1]);
        }
    }
    let mut i: usize = 0;
    while i < cs.len()
        invariant
            i <= cs@.len(),
            cs@ == s@,
            forall|k: int| 0 <= k < i ==> !forbidden_name_char(#[trigger] cs@[k]),
        decreases cs@.len() - i,
    {
        let c = cs[i];
        if c == '/' || c == '\\' || c == '\0' || c <= '\u{1f}' || ('\u{7f}' <= c && c <= '\u{9f}') {
            assert(forbidden_name_char(s@[i as int]));
            return false;
        }
        i = i + 1;
    }
    true
}

// ---------------------------------------------------------------- client address

/// The client address used for rate limiting: the first entry of
/// `X-Forwarded-For`, trimmed, or `direct` when the header is absent or
/// that entry is empty.
pub open spec fn spec_client_ip(h: Seq<(Seq<char>, Seq<char>)>) -> Seq<char> {
    match header_lookup(h, "x-forwarded-for"@) {
        None => "direct"@,
        Some(v) => {
            let first = trim(before_char(v, ','));
            if first.len() > 0 {
                first
            } else {
                "direct"@
            }
        },
    }
}

/// Best-effort client IP extraction. The trusted-proxy layer rewrites
/// `X-Forwarded-For` upstream, so the first value is the client to
/// rate-limit against; without the header all direct connections share
/// the `direct` bucket.
pub fn client_ip(headers: &HeaderMap) -> (r: String)
    ensures
        r@ == spec_client_ip(headers@),
{
    proof {
        reveal_strlit("x-forwarded-for");
        lemma_lower_literal("x-forwarded-for"@);
    }
    match headers.get("x-forwarded-for") {
        None => to_owned("direct"),
        Some(v) => {
            let cs = chars_of(v);
            let first = crate::text::before_char_chars(&cs, ',');
            let t = trim_chars(&first);
            if t.len() > 0 {
                string_from(&t)
            } else {
                to_owned("direct")
            }
        },
    }
}

} // verus!

verus! {

// ---------------------------------------------------------------- replies

/// A plain-text reply: the status, the body, and its text content type.
pub fn text_reply(status: u16, body: &str) -> (r: Reply)
    ensures
        r.status == status,
        r.body@ == body@,
        headers_view(r.headers@) == text_plain(),
{
    crate::dav_error::text_reply(status, to_owned(body))
}

/// A reply of a bare status: no headers, no body.
pub fn status_reply(status: u16) -> (r: Reply)
    ensures
        r.status == status,
        r.body@.len() == 0,
        r.headers@.len() == 0,
{
    Reply { status, headers: Vec::new(), body: String::new() }
}

/// Status and body of the plain-text reply for a view error.
pub open spec fn spec_fs_err_reply(e: FsError) -> (u16, Seq<char>) {
    match e.kind {
        FsErrorKind::NotFound => (404, seq![]),
        FsErrorKind::InvalidPath(m) => (400, m@),
        FsErrorKind::CrossMount => (502, seq![]),
        FsErrorKind::MountNotFound => (404, seq![]),
        FsErrorKind::Storage(se) => match se.kind {
            StorageErrorKind::NotFound => (404, seq![]),
            StorageErrorKind::PermissionDenied => (403, seq![]),
            StorageErrorKind::AlreadyExists => (409, seq![]),
            StorageErrorKind::NotEmpty => (409, seq![]),
            StorageErrorKind::InvalidPath(m) => (400, m@),
            StorageErrorKind::Other => (500, "storage error: "@ + se.message@),
        },
        FsErrorKind::FileCache(fe) => match fe.kind {
            FileCacheErrorKind::NotFound => (404, seq![]),
            _ => (500, "filecache error: "@ + fe.message@),
        },
        FsErrorKind::Upload(m) => (500, m@),
        FsErrorKind::Forbidden => (403, seq![]),
        FsErrorKind::Conflict => (409, seq![]),
        FsErrorKind::Unsupported => (405, seq![]),
        FsErrorKind::CrossStorage => (502, seq![]),
        FsErrorKind::Trash(m) => (500, m@),
    }
}

/// Map a view error to a plain-text reply (the surface is browser-facing;
/// the page does its own error rendering).
pub fn fs_err_to_response(err: &FsError) -> (r: Reply)
    ensures
        r.status == spec_fs_err_reply(*err).0,
        r.body@ == spec_fs_err_reply(*err).1,
        headers_view(r.headers@) == text_plain(),
{
    proof {
        reveal_strlit("");
    }
    match &err.kind {
        FsErrorKind::NotFound => text_reply(404, ""),
        FsErrorKind::InvalidPath(m) => text_reply(400, m.as_str()),
        FsErrorKind::CrossMount => text_reply(502, ""),
        FsErrorKind::MountNotFound => text_reply(404, ""),
        FsErrorKind::Storage(se) => match &se.kind {
            StorageErrorKind::NotFound => text_reply(404, ""),
            StorageErrorKind::PermissionDenied => text_reply(403, ""),
            StorageErrorKind::AlreadyExists => text_reply(409, ""),
            StorageErrorKind::NotEmpty => text_reply(409, ""),
            StorageErrorKind::InvalidPath(m) => text_reply(400, m.as_str()),
            StorageErrorKind::Other => text_reply(500, concat("storage error: ", se.message.as_str()).as_str()),
        },
        FsErrorKind::FileCache(fe) => match &fe.kind {
            FileCacheErrorKind::NotFound => text_reply(404, ""),
            _ => text_reply(500, concat("filecache error: ", fe.message.as_str()).as_str()),
        },
        FsErrorKind::Upload(m) => text_reply(500, m.as_str()),
        FsErrorKind::Forbidden => text_reply(403, ""),
        FsErrorKind::Conflict => text_reply(409, ""),
        FsErrorKind::Unsupported => text_reply(405, ""),
        FsErrorKind::CrossStorage => text_reply(502, ""),
        FsErrorKind::Trash(m) => text_reply(500, m.as_str()),
    }
}

/// Whether a view error means "no such entry".
pub open spec fn spec_is_not_found(e: FsError) -> bool {
    match e.kind {
        FsErrorKind::NotFound => true,
        FsErrorKind::Storage(se) => se.kind == StorageErrorKind::NotFound,
        FsErrorKind::FileCache(fe) => fe.kind == FileCacheErrorKind::NotFound,
        _ => false,
    }
}

/// Whether a view error means "no such entry" (in the view, the storage or the cache).
pub fn is_not_found(e: &FsError) -> (r: bool)
    ensures
        r == spec_is_not_found(*e),
{
    match &e.kind {
        FsErrorKind::NotFound => true,
        FsErrorKind::Storage(se) => match se.kind {
            StorageErrorKind::NotFound => true,
            _ => false,
        },
        FsErrorKind::FileCache(fe) => match fe.kind {
            FileCacheErrorKind::NotFound => true,
            _ => false,
        },
        _ => false,
    }
}

// ---------------------------------------------------------------- gates

/// The 403 every handler answers first: `password_required` while the
/// link's password gate is in force, then `denied` when the link lacks the
/// permission the handler needs.
pub fn link_gate(password_gate_required: bool, permitted: bool, denied: &str) -> (r: Option<Reply>)
    ensures
        password_gate_required ==> (r matches Some(x) && x.status == 403 && x.body@
            == "password_required"@ && headers_view(x.headers@) == text_plain()),
        !password_gate_required && !permitted ==> (r matches Some(x) && x.status == 403 && x.body@
            == denied@ && headers_view(x.headers@) == text_plain()),
        !password_gate_required && permitted ==> r is None,
{
    if password_gate_required {
        return Some(text_reply(403, "password_required"));
    }
    if !permitted {
        return Some(text_reply(403, denied));
    }
    None
}

/// The first check of a link download, on the link alone: 403
/// `password_required` while the password gate is in force, then 403
/// `read_not_permitted` when the link lacks the read bit (file-drop links
/// are upload-only); `None` lets the download go on to its path.
pub fn download_gate(password_gate_required: bool, read_permitted: bool) -> (r: Option<Reply>)
    ensures
        password_gate_required ==> (r matches Some(x) && x.status == 403 && x.body@
            == "password_required"@ && headers_view(x.headers@) == text_plain()),
        !password_gate_required && !read_permitted ==> (r matches Some(x) && x.status == 403
            && x.body@ == "read_not_permitted"@ && headers_view(x.headers@) == text_plain()),
        !password_gate_required && read_permitted ==> r is None,
{
    link_gate(password_gate_required, read_permitted, "read_not_permitted")
}

/// The 429 of a throttled client, with `Retry-After`.
pub fn throttled_reply(retry_after_secs: u64) -> (r: Reply)
    ensures
        r.status == 429,
        r.body@.len() == 0,
        headers_view(r.headers@) == text_plain() + seq![
            ("retry-after"@, decimal(retry_after_secs as nat)),
        ],
{
    let mut headers: Vec<(String, String)> = Vec::new();
    headers.push((to_owned("retry-after"), string_from(&fmt_u64(retry_after_secs))));
    assert(headers_view(headers@) =~= seq![("retry-after"@, decimal(retry_after_secs as nat))]);
    crate::dav_error::text_reply_with(429, String::new(), headers)
}

// ---------------------------------------------------------------- download

/// How a file is sent: the status, the byte count, the `Content-Range`
/// value and the byte range read (none for the whole file).
#[derive(Debug, Clone)]
pub struct DownloadPlan {
    pub status: u16,
    pub content_length: u64,
    pub content_range: Option<String>,
    pub range: Option<std::ops::Range<u64>>,
}

/// `bytes <start>-<end - 1>/<size>`.
pub open spec fn content_range_text(start: u64, end: u64, size: u64) -> Seq<char> {
    "bytes "@ + decimal(start as nat) + seq!['-'] + decimal((end - 1) as nat) + seq!['/'] + decimal(
        size as nat,
    )
}

/// Plan a public download of an entry of `size` bytes: a directory is 400
/// `is a directory`; an unsatisfiable `Range` is 416 with
/// `Content-Range: bytes */<size>`; no range sends the whole file (200);
/// one range sends that slice (206).
pub fn download_plan(is_dir: bool, size: u64, headers: &HeaderMap) -> (r: Result<DownloadPlan, Reply>)
    ensures
        is_dir ==> (r matches Err(x) && x.status == 400 && x.body@ == "is a directory"@
            && headers_view(x.headers@) == text_plain()),
        !is_dir ==> match spec_parse_range(headers@, size) {
            None => r matches Err(x) && x.status == 416 && x.body@.len() == 0 && headers_view(
                x.headers@,
            ) == text_plain() + seq![("content-range"@, "bytes */"@ + decimal(size as nat))],
            Some(None) => r matches Ok(p) && p.status == 200 && p.content_length == size
                && p.content_range is None && p.range is None,
            Some(Some((a, b))) => r matches Ok(p) && p.status == 206 && p.content_length == b - a
                && (p.content_range matches Some(c) && c@ == content_range_text(a, b, size))
                && (p.range matches Some(g) && g.start == a && g.end == b),
        },
{
    if is_dir {
        return Err(text_reply(400, "is a directory"));
    }
    match parse_range(headers, size) {
        Err(_) => {
            let mut v = to_owned("bytes */");
            push_chars(&mut v, &fmt_u64(size));
            let mut hs: Vec<(String, String)> = Vec::new();
            hs.push((to_owned("content-range"), v));
            assert(headers_view(hs@) =~= seq![("content-range"@, "bytes */"@ + decimal(size as nat))]);
            Err(crate::dav_error::text_reply_with(416, String::new(), hs))
        },
        Ok(None) => Ok(DownloadPlan { status: 200, content_length: size, content_range: None, range: None }),
        Ok(Some(g)) => {
            let mut cr = to_owned("bytes ");
            push_chars(&mut cr, &fmt_u64(g.start));
            push_char(&mut cr, '-');
            push_chars(&mut cr, &fmt_u64(g.end - 1));
            push_char(&mut cr, '/');
            push_chars(&mut cr, &fmt_u64(size));
            assert(cr@ =~= content_range_text(g.start, g.end, size));
            Ok(DownloadPlan {
                status: 206,
                content_length: g.end - g.start,
                content_range: Some(cr),
                range: Some(g),
            })
        },
    }
}

/// The headers of a download reply: length, type, quoted etag, last
/// modification, `Accept-Ranges: bytes`, then the range when there is one.
pub open spec fn spec_download_headers(
    plan: DownloadPlan,
    mimetype: Seq<char>,
    etag: Seq<char>,
    mtime_secs: u64,
) -> Seq<(Seq<char>, Seq<char>)> {
    seq![
        ("content-length"@, decimal(plan.content_length as nat)),
        ("content-type"@, mimetype),
        ("etag"@, seq!['"'] + etag + seq!['"']),
        ("last-modified"@, http_date_text(mtime_secs)),
        ("accept-ranges"@, "bytes"@),
    ] + match plan.content_range {
        Some(c) => seq![("content-range"@, c@)],
        None => seq![],
    }
}

/// The headers of a download reply.
pub fn download_headers(plan: &DownloadPlan, mimetype: &str, etag: &str, mtime_secs: u64) -> (r: Vec<
    (String, String),
>)
    requires
        mtime_secs < http_date_limit(),
    ensures
        headers_view(r@) == spec_download_headers(*plan, mimetype@, etag@, mtime_secs),
{
    let mut hs: Vec<(String, String)> = Vec::new();
    hs.push((to_owned("content-length"), string_from(&fmt_u64(plan.content_length))));
    hs.push((to_owned("content-type"), to_owned(mimetype)));
    let mut quoted = String::new();
    push_char(&mut quoted, '"');
    push_str(&mut quoted, etag);
    push_char(&mut quoted, '"');
    assert(quoted@ =~= seq!['"'] + etag@ + seq!['"']);
    hs.push((to_owned("etag"), quoted));
    hs.push((to_owned("last-modified"), http_date(mtime_secs)));
    hs.push((to_owned("accept-ranges"), to_owned("bytes")));
    match &plan.content_range {
        Some(c) => hs.push((to_owned("content-range"), to_owned(c.as_str()))),
        None => {},
    }
    let ghost want = spec_download_headers(*plan, mimetype@, etag@, mtime_secs);
    assert(headers_view(hs@).len() == want.len());
    assert forall|k: int| 0 <= k < want.len() implies #[trigger] headers_view(hs@)[k] == want[k] by {
        assert(headers_view(hs@)[k] == (hs@[k].0@, hs@[k].1@));
    }
    assert(headers_view(hs@) =~= want);
    hs
}

// ---------------------------------------------------------------- upload names

/// How many ` (N)` suffixes an upload tries before giving up.
pub const MAX_COLLISION_SUFFIX: u32 = 50;

/// The name tried for the `i`-th collision: `stem (i).ext`, or `stem (i)`.
pub open spec fn spec_collision_candidate(name: Seq<char>, i: u32) -> Seq<char> {
    let (stem, ext) = spec_split_ext(name);
    match ext {
        Some(e) => stem + " ("@ + decimal(i as nat) + ")."@ + e,
        None => stem + " ("@ + decimal(i as nat) + ")"@,
    }
}

/// The name tried for the `i`-th collision of `name`.
pub fn collision_candidate(name: &str, i: u32) -> (r: String)
    ensures
        r@ == spec_collision_candidate(name@, i),
{
    let (stem, ext) = split_ext(name);
    let mut s = stem;
    push_str(&mut s, " (");
    push_chars(&mut s, &fmt_u64(i as u64));
    match ext {
        Some(e) => {
            push_str(&mut s, ").");
            push_str(&mut s, e.as_str());
        },
        None => {
            push_str(&mut s, ")");
        },
    }
    s
}

/// Resolving an upload name against existing entries: the name itself is
/// looked up first, then `stem (1).ext` up to `stem (50).ext`.
#[derive(Debug, Clone)]
pub struct CollisionSearch {
    pub name: String,
    /// 0 while the plain name is being looked up, then the suffix tried.
    pub tried: u32,
}

/// What the search asks for next.
#[derive(Debug, Clone)]
pub enum CollisionStep {
    /// Look this name up in the link's folder.
    Probe(String),
    /// The name to store the upload under.
    Use(String),
    /// Give up with this reply.
    Fail(Reply),
}

impl CollisionSearch {
    /// Start with the name as given; the first probe is the name itself.
    pub fn new(name: &str) -> (r: (CollisionSearch, String))
        ensures
            r.0.name@ == name@,
            r.0.tried == 0,
            r.1@ == name@,
    {
        (CollisionSearch { name: to_owned(name), tried: 0 }, to_owned(name))
    }

    /// The name being probed.
    pub open spec fn probing(&self) -> Seq<char> {
        if self.tried == 0 {
            self.name@
        } else {
            spec_collision_candidate(self.name@, self.tried)
        }
    }

    /// Advance on the lookup of the probed name: a free name is used, an
    /// existing one moves to the next suffix (409 after the fiftieth), any
    /// other lookup error ends the upload with its reply.
    pub fn step(&mut self, lookup: Result<(), FsError>) -> (r: CollisionStep)
        requires
            old(self).tried <= MAX_COLLISION_SUFFIX,
        ensures
            final(self).name == old(self).name,
            final(self).tried <= MAX_COLLISION_SUFFIX,
            match lookup {
                Err(e) => if spec_is_not_found(e) {
                    r matches CollisionStep::Use(n) && n@ == old(self).probing()
                } else {
                    r matches CollisionStep::Fail(x) && x.status == spec_fs_err_reply(e).0 && x.body@
                        == spec_fs_err_reply(e).1 && headers_view(x.headers@) == text_plain()
                },
                Ok(()) => if old(self).tried < MAX_COLLISION_SUFFIX {
                    final(self).tried == old(self).tried + 1 && (r matches CollisionStep::Probe(n)
                        && n@ == final(self).probing())
                } else {
                    r matches CollisionStep::Fail(x) && x.status == 409 && x.body@
                        == "too many name collisions"@ && headers_view(x.headers@) == text_plain()
                },
            },
    {
        match lookup {
            Err(e) => {
                if is_not_found(&e) {
                    if self.tried == 0 {
                        CollisionStep::Use(to_owned(self.name.as_str()))
                    } else {
                        CollisionStep::Use(collision_candidate(self.name.as_str(), self.tried))
                    }
                } else {
                    CollisionStep::Fail(fs_err_to_response(&e))
                }
            },
            Ok(()) => {
                if self.tried < MAX_COLLISION_SUFFIX {
                    self.tried = self.tried + 1;
                    CollisionStep::Probe(collision_candidate(self.name.as_str(), self.tried))
                } else {
                    CollisionStep::Fail(text_reply(409, "too many name collisions"))
                }
            },
        }
    }
}

/// The checks an upload passes before touching storage: the link guard (create
/// permission), a safe file name (400 `invalid filename`), then the
/// per-client rate limit (`throttle` is the limiter's retry delay).
pub fn upload_gate(
    password_gate_required: bool,
    create_permitted: bool,
    filename: &str,
    throttle: Option<u64>,
) -> (r: Option<Reply>)
    ensures
        password_gate_required ==> (r matches Some(x) && x.status == 403 && x.body@
            == "password_required"@ && headers_view(x.headers@) == text_plain()),
        !password_gate_required && !create_permitted ==> (r matches Some(x) && x.status == 403
            && x.body@ == "create_not_permitted"@ && headers_view(x.headers@) == text_plain()),
        !password_gate_required && create_permitted && !spec_is_safe_filename(filename@) ==> (
        r matches Some(x) && x.status == 400 && x.body@ == "invalid filename"@
            && headers_view(x.headers@) == text_plain()),
        !password_gate_required && create_permitted && spec_is_safe_filename(filename@) ==> match throttle {
            Some(s) => r matches Some(x) && x.status == 429 && headers_view(x.headers@)
                == text_plain() + seq![("retry-after"@, decimal(s as nat))],
            None => r is None,
        },
{
    match link_gate(password_gate_required, create_permitted, "create_not_permitted") {
        Some(x) => return Some(x),
        None => {},
    }
    if !is_safe_filename(filename) {
        return Some(text_reply(400, "invalid filename"));
    }
    match throttle {
        Some(s) => Some(throttled_reply(s)),
        None => None,
    }
}

// ---------------------------------------------------------------- unlock

/// Lifetime of the unlock cookie, in seconds (one hour).
pub const UNLOCK_COOKIE_TTL_SECS: i64 = 3600;

/// Whether the configured public protocol is `https` (ASCII case ignored).
pub open spec fn spec_is_https(protocol: Option<Seq<char>>) -> bool {
    match protocol {
        Some(p) => crate::headers::lower(p) == "https"@,
        None => false,
    }
}

/// Whether the configured public protocol is `https`, ignoring ASCII case.
pub fn is_https(protocol: &Option<String>) -> (r: bool)
    ensures
        r == spec_is_https(
            match protocol {
                Some(p) => Some(p@),
                None => None,
            },
        ),
{
    match protocol {
        Some(p) => {
            let l = crate::headers::lower_exec(p.as_str());
            crate::text::str_eq(l.as_str(), "https")
        },
        None => false,
    }
}

/// `<name>=<value>; Path=/; Max-Age=3600; HttpOnly; [Secure; ]SameSite=Lax`.
pub open spec fn spec_unlock_cookie(name: Seq<char>, value: Seq<char>, secure: bool) -> Seq<char> {
    name + seq!['='] + value + "; Path=/; Max-Age=3600; HttpOnly;"@ + (if secure {
        " Secure;"@
    } else {
        seq![]
    }) + " SameSite=Lax"@
}

/// Whether instant `a` lies before instant `b`; an instant is seconds since
/// the epoch and the nanoseconds within that second.
pub open spec fn instant_before(a: (i64, u32), b: (i64, u32)) -> bool {
    a.0 < b.0 || (a.0 == b.0 && a.1 < b.1)
}

/// Whether a link with the given expiration has expired at `now`: only a
/// link with an expiration strictly before `now`.
pub open spec fn spec_link_expired(expiration: Option<(i64, u32)>, now: (i64, u32)) -> bool {
    match expiration {
        Some(e) => instant_before(e, now),
        None => false,
    }
}

/// Exec `spec_link_expired`.
pub fn link_expired(expiration: Option<(i64, u32)>, now: (i64, u32)) -> (r: bool)
    ensures
        r == spec_link_expired(expiration, now),
{
    match expiration {
        Some(e) => e.0 < now.0 || (e.0 == now.0 && e.1 < now.1),
        None => false,
    }
}

/// Where a password unlock stands.
#[derive(Debug, Clone, Copy, PartialEq, Eq, Structural)]
pub enum UnlockPhase {
    CheckingRate,
    LookingUp,
    Verifying,
    Signing,
    Done,
}

/// What the link store and the clock said.
#[derive(Debug)]
pub enum UnlockEvent {
    /// The rate limiter's retry delay when the token is throttled.
    RateChecked(Option<u64>),
    /// The link row (its expiration, if any, and its password hash;
    /// `Ok(None)` for no such link; `Err` when the lookup failed), and the
    /// clock reading it is judged at.
    LookedUp(Result<Option<(Option<(i64, u32)>, Option<String>)>, ()>, (i64, u32)),
    /// Whether the password matches the hash.
    PasswordChecked(bool),
    /// The signed unlock cookie: its name and value.
    Signed { name: String, value: String },
}

/// What to do next.
#[derive(Debug)]
pub enum UnlockAction {
    CheckRate,
    Lookup,
    VerifyPassword { hash: String },
    /// Sign an unlock cookie valid for an hour from now.
    SignCookie,
    Respond(Reply),
}

/// `POST /s/{token}/unlock` in progress.
#[derive(Debug, Clone)]
pub struct Unlock {
    pub phase: UnlockPhase,
    pub token: String,
    pub secure: bool,
}

/// Whether an event is the one the phase waits for.
pub open spec fn unlock_event_fits(phase: UnlockPhase, ev: UnlockEvent) -> bool {
    match phase {
        UnlockPhase::CheckingRate => ev is RateChecked,
        UnlockPhase::LookingUp => ev is LookedUp,
        UnlockPhase::Verifying => ev is PasswordChecked,
        UnlockPhase::Signing => ev is Signed,
        UnlockPhase::Done => false,
    }
}

impl Unlock {
    /// Start an unlock of `token` (`token_valid`: whether it parses as a
    /// link token; `secure`: whether the cookie is HTTPS-only). An invalid
    /// token is 404 at once.
    pub fn new(token: &str, token_valid: bool, secure: bool) -> (r: (Unlock, UnlockAction))
        ensures
            r.0.token@ == token@,
            r.0.secure == secure,
            !token_valid ==> r.0.phase == UnlockPhase::Done && (r.1 matches UnlockAction::Respond(x)
                && x.status == 404 && x.body@.len() == 0 && headers_view(x.headers@) == text_plain()),
            token_valid ==> r.0.phase == UnlockPhase::CheckingRate && r.1 is CheckRate,
    {
        proof {
            reveal_strlit("");
        }
        if !token_valid {
            return (
                Unlock { phase: UnlockPhase::Done, token: to_owned(token), secure },
                UnlockAction::Respond(text_reply(404, "")),
            );
        }
        (Unlock { phase: UnlockPhase::CheckingRate, token: to_owned(token), secure }, UnlockAction::CheckRate)
    }

    /// Advance on an event.
    pub fn step(&mut self, ev: UnlockEvent) -> (r: UnlockAction)
        requires
            unlock_event_fits(old(self).phase, ev),
        ensures
            final(self).token == old(self).token,
            final(self).secure == old(self).secure,
            match ev {
                UnlockEvent::RateChecked(Some(s)) => final(self).phase == UnlockPhase::Done && (
                r matches UnlockAction::Respond(x) && x.status == 429 && headers_view(x.headers@)
                    == text_plain() + seq![("retry-after"@, decimal(s as nat))]),
                UnlockEvent::RateChecked(None) => final(self).phase == UnlockPhase::LookingUp
                    && r is Lookup,
                UnlockEvent::LookedUp(Err(_), _) => final(self).phase == UnlockPhase::Done && (
                r matches UnlockAction::Respond(x) && x.status == 500 && x.body@.len() == 0
                    && headers_view(x.headers@) == text_plain()),
                UnlockEvent::LookedUp(Ok(None), _) => final(self).phase == UnlockPhase::Done && (
                r matches UnlockAction::Respond(x) && x.status == 404 && x.body@.len() == 0
                    && headers_view(x.headers@) == text_plain()),
                UnlockEvent::LookedUp(Ok(Some((expiration, hash))), now) => if spec_link_expired(
                    expiration,
                    now,
                ) {
                    final(self).phase == UnlockPhase::Done && (r matches UnlockAction::Respond(x)
                        && x.status == 404 && x.body@.len() == 0 && headers_view(x.headers@) == text_plain())
                } else {
                    match hash {
                        None => final(self).phase == UnlockPhase::Done && (r matches UnlockAction::Respond(x)
                            && x.status == 400 && x.body@ == "link has no password"@
                            && headers_view(x.headers@) == text_plain()),
                        Some(h) => final(self).phase == UnlockPhase::Verifying && (r matches UnlockAction::VerifyPassword {
                            hash,
                        } && hash@ == h@),
                    }
                },
                UnlockEvent::PasswordChecked(false) => final(self).phase == UnlockPhase::Done && (
                r matches UnlockAction::Respond(x) && x.status == 401 && x.body@ == "wrong password"@
                    && headers_view(x.headers@) == text_plain()),
                UnlockEvent::PasswordChecked(true) => final(self).phase == UnlockPhase::Signing
                    && r is SignCookie,
                UnlockEvent::Signed { name, value } => final(self).phase == UnlockPhase::Done && (
                r matches UnlockAction::Respond(x) && x.status == 303 && x.body@.len() == 0
                    && headers_view(x.headers@) == text_plain() + header_if_valid(
                    "set-cookie"@,
                    spec_unlock_cookie(name@, value@, old(self).secure),
                ) + header_if_valid("location"@, "/s/"@ + old(self).token@)),
            },
    {
        proof {
            reveal_strlit("");
        }
        match ev {
            UnlockEvent::RateChecked(Some(s)) => {
                self.phase = UnlockPhase::Done;
                UnlockAction::Respond(throttled_reply(s))
            },
            UnlockEvent::RateChecked(None) => {
                self.phase = UnlockPhase::LookingUp;
                UnlockAction::Lookup
            },
            UnlockEvent::LookedUp(Err(_), _) => {
                self.phase = UnlockPhase::Done;
                UnlockAction::Respond(text_reply(500, ""))
            },
            UnlockEvent::LookedUp(Ok(None), _) => {
                self.phase = UnlockPhase::Done;
                UnlockAction::Respond(text_reply(404, ""))
            },
            UnlockEvent::LookedUp(Ok(Some((expiration, hash))), now) => {
                if link_expired(expiration, now) {
                    self.phase = UnlockPhase::Done;
                    return UnlockAction::Respond(text_reply(404, ""));
                }
                match hash {
                    None => {
                        self.phase = UnlockPhase::Done;
                        UnlockAction::Respond(text_reply(400, "link has no password"))
                    },
                    Some(h) => {
                        self.phase = UnlockPhase::Verifying;
                        UnlockAction::VerifyPassword { hash: h }
                    },
                }
            },
            UnlockEvent::PasswordChecked(ok) => {
                if !ok {
                    self.phase = UnlockPhase::Done;
                    return UnlockAction::Respond(text_reply(401, "wrong password"));
                }
                self.phase = UnlockPhase::Signing;
                UnlockAction::SignCookie
            },
            UnlockEvent::Signed { name, value } => {
                let mut c = to_owned(name.as_str());
                push_char(&mut c, '=');
                push_str(&mut c, value.as_str());
                push_str(&mut c, "; Path=/; Max-Age=3600; HttpOnly;");
                if self.secure {
                    push_str(&mut c, " Secure;");
                }
                push_str(&mut c, " SameSite=Lax");
                assert(c@ =~= spec_unlock_cookie(name@, value@, self.secure));
                let mut loc = to_owned("/s/");
                push_str(&mut loc, self.token.as_str());
                let mut hs: Vec<(String, String)> = Vec::new();
                let c_ok = header_value_ok(c.as_str());
                let loc_ok = header_value_ok(loc.as_str());
                if c_ok {
                    hs.push((to_owned("set-cookie"), c));
                }
                if loc_ok {
                    hs.push((to_owned("location"), loc));
                }
                assert(headers_view(hs@) =~= header_if_valid(
                    "set-cookie"@,
                    spec_unlock_cookie(name@, value@, self.secure),
                ) + header_if_valid("location"@, "/s/"@ + self.token@));
                let x = crate::dav_error::text_reply_with(303, String::new(), hs);
                assert(headers_view(x.headers@) =~= text_plain() + header_if_valid(
                    "set-cookie"@,
                    spec_unlock_cookie(name@, value@, self.secure),
                ) + header_if_valid("location"@, "/s/"@ + self.token@));
                self.phase = UnlockPhase::Done;
                UnlockAction::Respond(x)
            },
        }
    }
}

} // verus!
