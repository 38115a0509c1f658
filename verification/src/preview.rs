//! Thumbnails: `GET /api/files/preview/{fileid}?size=N` for signed-in users
//! and `GET /s/{token}/preview/{*path}?size=N` for public links.
//!
//! Both surfaces end the same way: a provider must exist for the file's
//! type, the requested size is snapped up to the size ladder, the
//! composite etag `"<etag>-<size>"` answers `If-None-Match` with 304, the
//! preview is rendered (or taken from the cache) and served as JPEG. The
//! decisions between those steps are made by [`PreviewFlow`]; the preview
//! backend and the storage view are consulted in between.

use crate::codec::header_value_ok;
use crate::dav_error::{header_if_valid, headers_view, text_plain, FsError, Reply};
use crate::headers::{header_lookup, lemma_lower_literal, HeaderMap};
use crate::public_link::{fs_err_to_response, link_gate, spec_fs_err_reply, status_reply, text_reply};
use crate::text::{
    chars_of, decimal, fmt_u64, push_char, push_chars, push_str, str_eq, string_from,
    strip_prefix, strip_prefix_chars, to_owned, trim_start_char, trim_start_chars,
};
use vstd::prelude::*;

verus! {

/// Size asked for when the query gives none.
pub fn default_size() -> (r: u32)
    ensures
        r == 64,
{
    64
}

/// Query of the preview endpoints.
#[derive(Debug, Clone, Copy)]
pub struct PreviewQuery {
    pub size: u32,
}

/// Why rendering a preview failed.
#[derive(Debug, Clone, PartialEq, Eq)]
pub enum PreviewFailure {
    SizeOutOfRange,
    Unsupported,
    SourceTooLarge,
    SourceNotFound,
    /// Anything else, rendered.
    Other(String),
}

/// The status of a render failure.
pub open spec fn spec_failure_status(f: PreviewFailure) -> u16 {
    match f {
        PreviewFailure::SizeOutOfRange => 400,
        PreviewFailure::Unsupported => 415,
        PreviewFailure::SourceTooLarge => 413,
        PreviewFailure::SourceNotFound => 404,
        PreviewFailure::Other(_) => 500,
    }
}

/// `"<etag>-<size>"`, quotes included.
pub open spec fn spec_composite_etag(etag: Seq<char>, size: u32) -> Seq<char> {
    seq!['"'] + etag + seq!['-'] + decimal(size as nat) + seq!['"']
}

/// The etag of a preview: the file's etag and the snapped size.
pub fn composite_etag(etag: &str, size: u32) -> (r: String)
    ensures
        r@ == spec_composite_etag(etag@, size),
{
    let mut s = String::new();
    push_char(&mut s, '"');
    push_str(&mut s, etag);
    push_char(&mut s, '-');
    push_chars(&mut s, &fmt_u64(size as u64));
    push_char(&mut s, '"');
    s
}

/// The headers of a served preview: JPEG, its length, its etag (when it is
/// a valid header value), and a private one-day cache lifetime.
pub open spec fn spec_preview_headers(len: u64, etag: Seq<char>) -> Seq<(Seq<char>, Seq<char>)> {
    seq![("content-type"@, "image/jpeg"@), ("content-length"@, decimal(len as nat))]
        + header_if_valid("etag"@, etag) + seq![("cache-control"@, "private, max-age=86400"@)]
}

/// Where a preview request stands once the file's cache row is known.
#[derive(Debug, Clone, Copy, PartialEq, Eq, Structural)]
pub enum PreviewPhase {
    Snapping,
    Rendering,
    Serving,
    Done,
}

/// What the preview backend said.
#[derive(Debug)]
pub enum PreviewEvent {
    /// The size snapped up to the ladder, or `Err` when out of range.
    Snapped(Result<u32, ()>),
    /// The rendered (or cached) preview, or why it could not be made.
    Rendered(Result<(), PreviewFailure>),
    /// The length of the cached preview file, or `Err` when it cannot be read.
    Opened(Result<u64, ()>),
}

/// What to do next.
#[derive(Debug)]
pub enum PreviewAction {
    /// Snap the requested size up to the ladder.
    Snap(u32),
    /// Render the preview (or take it from the cache).
    Render,
    /// Open the cached preview file.
    Open,
    /// Answer with this reply; `stream_body` says whether the preview file
    /// is its body.
    Respond { reply: Reply, stream_body: bool },
}

/// The common part of both preview endpoints.
#[derive(Debug, Clone)]
pub struct PreviewFlow {
    pub phase: PreviewPhase,
    pub etag: String,
    pub if_none_match: Option<String>,
    pub composite: String,
}

/// Whether an event is the one the phase waits for.
pub open spec fn preview_event_fits(phase: PreviewPhase, ev: PreviewEvent) -> bool {
    match phase {
        PreviewPhase::Snapping => ev is Snapped,
        PreviewPhase::Rendering => ev is Rendered,
        PreviewPhase::Serving => ev is Opened,
        PreviewPhase::Done => false,
    }
}

impl PreviewFlow {
    /// Start once the cache row is known: without a provider for its type
    /// the answer is 415; otherwise the requested size is snapped.
    pub fn start(provider_found: bool, etag: &str, requested_size: u32, headers: &HeaderMap) -> (r: (
        PreviewFlow,
        PreviewAction,
    ))
        ensures
            r.0.etag@ == etag@,
            match r.0.if_none_match {
                Some(v) => header_lookup(headers@, "if-none-match"@) == Some(v@),
                None => header_lookup(headers@, "if-none-match"@) is None,
            },
            !provider_found ==> r.0.phase == PreviewPhase::Done && (r.1 matches PreviewAction::Respond {
                reply,
                stream_body,
            } && reply.status == 415 && reply.body@.len() == 0 && headers_view(reply.headers@)
                == text_plain()
                && !stream_body),
            provider_found ==> r.0.phase == PreviewPhase::Snapping && r.1 == PreviewAction::Snap(
                requested_size,
            ),
    {
        proof {
            reveal_strlit("");
            reveal_strlit("if-none-match");
            lemma_lower_literal("if-none-match"@);
        }
        let inm = match headers.get("if-none-match") {
            Some(v) => Some(to_owned(v)),
            None => None,
        };
        let flow = PreviewFlow {
            phase: if provider_found {
                PreviewPhase::Snapping
            } else {
                PreviewPhase::Done
            },
            etag: to_owned(etag),
            if_none_match: inm,
            composite: String::new(),
        };
        if !provider_found {
            return (flow, PreviewAction::Respond { reply: text_reply(415, ""), stream_body: false });
        }
        (flow, PreviewAction::Snap(requested_size))
    }

    /// Advance on an event.
    pub fn step(&mut self, ev: PreviewEvent) -> (r: PreviewAction)
        requires
            preview_event_fits(old(self).phase, ev),
        ensures
            final(self).etag == old(self).etag,
            final(self).if_none_match == old(self).if_none_match,
            match ev {
                PreviewEvent::Snapped(Err(_)) => final(self).phase == PreviewPhase::Done && (
                r matches PreviewAction::Respond { reply, stream_body } && reply.status == 400
                    && reply.body@.len() == 0 && !stream_body),
                PreviewEvent::Snapped(Ok(s)) => final(self).composite@ == spec_composite_etag(
                    old(self).etag@,
                    s,
                ) && if (old(self).if_none_match matches Some(v) && v@ == spec_composite_etag(
                    old(self).etag@,
                    s,
                )) {
                    final(self).phase == PreviewPhase::Done && (r matches PreviewAction::Respond {
                        reply,
                        stream_body,
                    } && reply.status == 304 && reply.body@.len() == 0 && reply.headers@.len() == 0
                        && !stream_body)
                } else {
                    final(self).phase == PreviewPhase::Rendering && r is Render
                },
                PreviewEvent::Rendered(Err(f)) => final(self).phase == PreviewPhase::Done && (
                r matches PreviewAction::Respond { reply, stream_body } && reply.status
                    == spec_failure_status(f) && reply.body@.len() == 0 && !stream_body),
                PreviewEvent::Rendered(Ok(())) => final(self).phase == PreviewPhase::Serving
                    && r is Open,
                PreviewEvent::Opened(Err(_)) => final(self).phase == PreviewPhase::Done && (
                r matches PreviewAction::Respond { reply, stream_body } && reply.status == 500
                    && reply.body@.len() == 0 && !stream_body),
                PreviewEvent::Opened(Ok(len)) => final(self).phase == PreviewPhase::Done && (
                r matches PreviewAction::Respond { reply, stream_body } && reply.status == 200
                    && stream_body && headers_view(reply.headers@) == spec_preview_headers(
                    len,
                    old(self).composite@,
                )),
            },
    {
        proof {
            reveal_strlit("");
        }
        match ev {
            PreviewEvent::Snapped(Err(_)) => {
                self.phase = PreviewPhase::Done;
                PreviewAction::Respond { reply: text_reply(400, ""), stream_body: false }
            },
            PreviewEvent::Snapped(Ok(s)) => {
                self.composite = composite_etag(self.etag.as_str(), s);
                let hit = match &self.if_none_match {
                    Some(v) => str_eq(v.as_str(), self.composite.as_str()),
                    None => false,
                };
                if hit {
                    self.phase = PreviewPhase::Done;
                    PreviewAction::Respond { reply: status_reply(304), stream_body: false }
                } else {
                    self.phase = PreviewPhase::Rendering;
                    PreviewAction::Render
                }
            },
            PreviewEvent::Rendered(Err(f)) => {
                self.phase = PreviewPhase::Done;
                let status: u16 = match f {
                    PreviewFailure::SizeOutOfRange => 400,
                    PreviewFailure::Unsupported => 415,
                    PreviewFailure::SourceTooLarge => 413,
                    PreviewFailure::SourceNotFound => 404,
                    PreviewFailure::Other(_) => 500,
                };
                PreviewAction::Respond { reply: text_reply(status, ""), stream_body: false }
            },
            PreviewEvent::Rendered(Ok(())) => {
                self.phase = PreviewPhase::Serving;
                PreviewAction::Open
            },
            PreviewEvent::Opened(Err(_)) => {
                self.phase = PreviewPhase::Done;
                PreviewAction::Respond { reply: text_reply(500, ""), stream_body: false }
            },
            PreviewEvent::Opened(Ok(len)) => {
                let mut hs: Vec<(String, String)> = Vec::new();
                hs.push((to_owned("content-type"), to_owned("image/jpeg")));
                hs.push((to_owned("content-length"), string_from(&fmt_u64(len))));
                if header_value_ok(self.composite.as_str()) {
                    hs.push((to_owned("etag"), to_owned(self.composite.as_str())));
                }
                hs.push((to_owned("cache-control"), to_owned("private, max-age=86400")));
                let reply = Reply { status: 200, headers: hs, body: String::new() };
                assert(headers_view(reply.headers@) =~= spec_preview_headers(len, self.composite@));
                self.phase = PreviewPhase::Done;
                PreviewAction::Respond { reply, stream_body: true }
            },
        }
    }
}

// ---------------------------------------------------------------- public link surface

/// The user path a public preview asks for: `/` followed by the captured
/// path without its leading slashes.
pub fn public_preview_path(raw: &str) -> (r: String)
    ensures
        r@ == seq!['/'] + trim_start_char(raw@, '/'),
{
    let rc = chars_of(raw);
    let t = trim_start_chars(&rc, '/');
    let mut s = String::new();
    push_char(&mut s, '/');
    push_chars(&mut s, &t);
    s
}

/// The first check of a public preview, on the link alone and before the
/// path is parsed or storage is touched: 403 `password_required` while the
/// password gate is in force, then 403 `read_not_granted` when the link
/// lacks the read bit; `None` lets the preview proceed.
pub fn public_preview_gate(password_gate_required: bool, read_permitted: bool) -> (r: Option<Reply>)
    ensures
        password_gate_required ==> (r matches Some(x) && x.status == 403 && x.body@
            == "password_required"@ && headers_view(x.headers@) == text_plain()),
        !password_gate_required && !read_permitted ==> (r matches Some(x) && x.status == 403
            && x.body@ == "read_not_granted"@ && headers_view(x.headers@) == text_plain()),
        !password_gate_required && read_permitted ==> r is None,
{
    link_gate(password_gate_required, read_permitted, "read_not_granted")
}

/// The checks of a public preview after its gate passed and before the
/// cache row is looked up: a valid path (400 `invalid path`, and storage is
/// not touched), then the entry's metadata (its view error's reply) and
/// that it is a file (400 `not a file`).
pub fn public_preview_target(path_valid: bool, stat: Result<bool, FsError>) -> (r: Option<Reply>)
    ensures
        !path_valid ==> (r matches Some(x) && x.status == 400 && x.body@ == "invalid path"@
            && headers_view(x.headers@) == text_plain()),
        path_valid ==> match stat {
            Err(e) => r matches Some(x) && x.status == spec_fs_err_reply(e).0 && x.body@
                == spec_fs_err_reply(e).1 && headers_view(x.headers@) == text_plain(),
            Ok(false) => r matches Some(x) && x.status == 400 && x.body@ == "not a file"@
                && headers_view(x.headers@) == text_plain(),
            Ok(true) => r is None,
        },
{
    if !path_valid {
        return Some(text_reply(400, "invalid path"));
    }
    match stat {
        Err(e) => Some(fs_err_to_response(&e)),
        Ok(false) => Some(text_reply(400, "not a file")),
        Ok(true) => None,
    }
}

/// The reply for a cache-row lookup that found nothing (404) or failed (500).
pub fn row_lookup_reply(found: Result<bool, ()>) -> (r: Option<Reply>)
    ensures
        found == Ok::<bool, ()>(true) ==> r is None,
        found == Ok::<bool, ()>(false) ==> (r matches Some(x) && x.status == 404 && x.body@.len() == 0
            && headers_view(x.headers@) == text_plain()),
        found is Err ==> (r matches Some(x) && x.status == 500 && x.body@.len() == 0
            && headers_view(x.headers@) == text_plain()),
{
    proof {
        reveal_strlit("");
    }
    match found {
        Ok(true) => None,
        Ok(false) => Some(text_reply(404, "")),
        Err(_) => Some(text_reply(500, "")),
    }
}

// ---------------------------------------------------------------- signed-in surface

/// A mount of the user's view, as far as locating a cache row goes.
#[derive(Debug, Clone)]
pub struct MountInfo {
    /// The id of the mounted storage.
    pub storage_id: String,
    /// For a shared subtree, the owner-relative path it exposes.
    pub inner_owner_path: Option<String>,
    /// Where the mount sits in the user's tree (without leading `/`).
    pub path_prefix: String,
    pub prefix_is_root: bool,
}

/// The view of a mount.
pub struct MountView {
    pub storage_id: Seq<char>,
    pub inner_owner_path: Option<Seq<char>>,
    pub path_prefix: Seq<char>,
    pub prefix_is_root: bool,
}

/// The view of a mount.
pub open spec fn mount_view(m: MountInfo) -> MountView {
    MountView {
        storage_id: m.storage_id@,
        inner_owner_path: match m.inner_owner_path {
            Some(p) => Some(p@),
            None => None,
        },
        path_prefix: m.path_prefix@,
        prefix_is_root: m.prefix_is_root,
    }
}

/// The user path of a suffix under a mount.
pub open spec fn mounted_path(m: MountView, suffix: Seq<char>) -> Seq<char> {
    if m.prefix_is_root {
        if suffix.len() == 0 {
            seq!['/']
        } else {
            seq!['/'] + suffix
        }
    } else if suffix.len() == 0 {
        seq!['/'] + m.path_prefix
    } else {
        seq!['/'] + m.path_prefix + seq!['/'] + suffix
    }
}

/// The user path of a cache row (storage id, path, whether the path is the
/// storage root): the first mount of that storage decides; a shared
/// subtree only covers rows under its owner path (others try the next
/// mount). `None` when no mount covers the row.
pub open spec fn spec_user_path_for_row(
    mounts: Seq<MountView>,
    storage_id: Seq<char>,
    path: Seq<char>,
    path_is_root: bool,
) -> Option<Seq<char>>
    decreases mounts.len(),
{
    if mounts.len() == 0 {
        None
    } else {
        let m = mounts[0];
        if m.storage_id != storage_id {
            spec_user_path_for_row(mounts.drop_first(), storage_id, path, path_is_root)
        } else {
            match m.inner_owner_path {
                Some(owner) => {
                    let suffix = if owner.len() == 0 {
                        Some(path)
                    } else if path == owner {
                        Some(seq![])
                    } else {
                        strip_prefix(path, owner + seq!['/'])
                    };
                    match suffix {
                        Some(sfx) => Some(mounted_path(m, sfx)),
                        None => spec_user_path_for_row(
                            mounts.drop_first(),
                            storage_id,
                            path,
                            path_is_root,
                        ),
                    }
                },
                None => Some(
                    if path_is_root {
                        seq!['/']
                    } else {
                        seq!['/'] + path
                    },
                ),
            }
        }
    }
}

fn mounted_path_exec(m: &MountInfo, suffix: &[char]) -> (r: String)
    ensures
        r@ == mounted_path(mount_view(*m), suffix@),
{
    let mut s = String::new();
    push_char(&mut s, '/');
    if m.prefix_is_root {
        push_chars(&mut s, suffix);
    } else {
        push_str(&mut s, m.path_prefix.as_str());
        if suffix.len() > 0 {
            push_char(&mut s, '/');
            push_chars(&mut s, suffix);
        }
    }
    assert(s@ =~= mounted_path(mount_view(*m), suffix@));
    s
}

/// Locate a cache row in the user's tree (the user-path text; the caller
/// validates it as a path).
pub fn user_path_for_row(mounts: &Vec<MountInfo>, storage_id: &str, path: &str, path_is_root: bool) -> (r:
    Option<String>)
    ensures
        match r {
            Some(p) => spec_user_path_for_row(
                mounts@.map_values(|m: MountInfo| mount_view(m)),
                storage_id@,
                path@,
                path_is_root,
            ) == Some(p@),
            None => spec_user_path_for_row(
                mounts@.map_values(|m: MountInfo| mount_view(m)),
                storage_id@,
                path@,
                path_is_root,
            ) is None,
        },
{
    let ghost mv = mounts@.map_values(|m: MountInfo| mount_view(m));
    let pc = chars_of(path);
    let mut i: usize = 0;
    assert(mv.subrange(0, mv.len() as int) =~= mv);
    while i < mounts.len()
        invariant
            i <= mounts@.len(),
            pc@ == path@,
            mv == mounts@.map_values(|m: MountInfo| mount_view(m)),
            spec_user_path_for_row(mv, storage_id@, path@, path_is_root) == spec_user_path_for_row(
                mv.subrange(i as int, mv.len() as int),
                storage_id@,
                path@,
                path_is_root,
            ),
        decreases mounts@.len() - i,
    {
        let ghost rest = mv.subrange(i as int, mv.len() as int);
        assert(rest[0] == mount_view(mounts@[i as int]));
        assert(rest.drop_first() =~= mv.subrange(i + 1, mv.len() as int));
        let m = &mounts[i];
        if str_eq(m.storage_id.as_str(), storage_id) {
            match &m.inner_owner_path {
                Some(owner) => {
                    let oc = chars_of(owner.as_str());
                    if oc.len() == 0 {
                        return Some(mounted_path_exec(m, &pc));
                    }
                    if str_eq(path, owner.as_str()) {
                        let e: Vec<char> = Vec::new();
                        assert(e@ =~= Seq::<char>::empty());
                        return Some(mounted_path_exec(m, &e));
                    }
                    let mut with_slash = oc;
                    with_slash.push('/');
                    assert(with_slash@ =~= owner@ + seq!['/']);
                    match strip_prefix_chars(&pc, &with_slash) {
                        Some(sfx) => return Some(mounted_path_exec(m, &sfx)),
                        None => {},
                    }
                },
                None => {
                    if path_is_root {
                        proof {
                            reveal_strlit("/");
                        }
                        return Some(to_owned("/"));
                    }
                    let mut s = String::new();
                    push_char(&mut s, '/');
                    push_str(&mut s, path);
                    return Some(s);
                },
            }
        }
        i = i + 1;
    }
    None
}

/// Whether one of the mounts surfaces the storage `storage_id`.
pub open spec fn spec_storage_mounted(mounts: Seq<MountView>, storage_id: Seq<char>) -> bool {
    exists|i: int| 0 <= i < mounts.len() && #[trigger] mounts[i].storage_id == storage_id
}

/// Whether one of the user's mounts surfaces the storage `storage_id`.
pub fn storage_mounted(mounts: &Vec<MountInfo>, storage_id: &str) -> (r: bool)
    ensures
        r == spec_storage_mounted(mounts@.map_values(|m: MountInfo| mount_view(m)), storage_id@),
{
    let ghost mv = mounts@.map_values(|m: MountInfo| mount_view(m));
    let mut i: usize = 0;
    while i < mounts.len()
        invariant
            i <= mounts@.len(),
            mv == mounts@.map_values(|m: MountInfo| mount_view(m)),
            forall|k: int| 0 <= k < i ==> #[trigger] mv[k].storage_id != storage_id@,
        decreases mounts@.len() - i,
    {
        assert(mv[i as int] == mount_view(mounts@[i as int]));
        if str_eq(mounts[i].storage_id.as_str(), storage_id) {
            assert(mv[i as int].storage_id == storage_id@);
            assert(mv.len() == mounts@.len());
            return true;
        }
        i = i + 1;
    }
    false
}

/// The checks of a signed-in preview before the provider is chosen: a
/// valid user id (else 500); the cache row, given by its storage id (404
/// when unknown, 500 when the lookup failed); the user's mounts (500 when
/// the view cannot be built); and that one of those mounts surfaces the
/// row's storage (else 404: the file is not the user's, and a 404 does not
/// tell whether the id exists).
pub fn file_preview_entry(
    uid_valid: bool,
    row_storage: Result<Option<&str>, ()>,
    mounts: Result<&Vec<MountInfo>, ()>,
) -> (r: Option<Reply>)
    ensures
        !uid_valid ==> (r matches Some(x) && x.status == 500 && x.body@.len() == 0 && headers_view(x.headers@) == text_plain()),
        uid_valid && row_storage == Ok::<Option<&str>, ()>(None) ==> (r matches Some(x) && x.status
            == 404 && x.body@.len() == 0 && headers_view(x.headers@) == text_plain()),
        uid_valid && row_storage is Err ==> (r matches Some(x) && x.status == 500 && x.body@.len()
            == 0 && headers_view(x.headers@) == text_plain()),
        uid_valid && (row_storage matches Ok(Some(_))) && mounts is Err ==> (r matches Some(x)
            && x.status == 500 && x.body@.len() == 0 && headers_view(x.headers@) == text_plain()),
        uid_valid ==> match (row_storage, mounts) {
            (Ok(Some(sid)), Ok(ms)) => if spec_storage_mounted(
                ms@.map_values(|m: MountInfo| mount_view(m)),
                sid@,
            ) {
                r is None
            } else {
                r matches Some(x) && x.status == 404 && x.body@.len() == 0 && headers_view(x.headers@) == text_plain()
            },
            _ => true,
        },
{
    proof {
        reveal_strlit("");
    }
    if !uid_valid {
        return Some(text_reply(500, ""));
    }
    let sid = match row_storage {
        Ok(Some(sid)) => sid,
        Ok(None) => return row_lookup_reply(Ok(false)),
        Err(_) => return row_lookup_reply(Err(())),
    };
    let ms = match mounts {
        Ok(ms) => ms,
        Err(_) => return Some(text_reply(500, "")),
    };
    if !storage_mounted(ms, sid) {
        return Some(text_reply(404, ""));
    }
    None
}

} // verus!
