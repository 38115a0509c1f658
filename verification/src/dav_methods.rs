//! How the WebDAV surfaces dispatch a request: the files surface
//! (`/dav/files/{user}/{*path}`), the trash bin (`/dav/trashbin/{uid}/...`),
//! the versions (`/dav/versions/{uid}/{fileid}/...`) and the public-link
//! surface (`/public.php/dav/files/{token}/...`).
//!
//! Each surface refuses a user other than the signed-in one, answers
//! `OPTIONS` with its capabilities, routes the methods it implements and
//! answers 405 with its `Allow` list for the others. The conditional-write
//! rules of `PUT` and the shape of a `GET` reply are here too; the view does
//! the reading and writing.

use crate::auth::AuthenticatedUser;
use crate::codec::{spec_url_decode, url_decode, url_decode_error_text};
use crate::dav_error::{headers_view, text_plain, text_reply_with, DavError, Reply};
use crate::headers::{if_match_view, parse_range, spec_parse_range, HeaderMap, IfMatch};
use crate::public_link::{content_range_text, DownloadPlan};
use crate::text::{chars_of, concat, push_char, push_chars, push_str, str_eq, to_owned};
use crate::versions::{parse_fileid, parse_version_mtime, spec_parse_nonneg_id};
use vstd::prelude::*;

verus! {

/// Methods of the files surface.
pub const FILES_ALLOW: &'static str =
    "OPTIONS, GET, HEAD, PUT, MKCOL, DELETE, MOVE, COPY, PROPFIND, PROPPATCH, LOCK, UNLOCK";

/// Methods of the trash-bin surface.
pub const TRASH_ALLOW: &'static str = "OPTIONS, PROPFIND, DELETE, MOVE";

/// Methods of the versions surface.
pub const VERSIONS_ALLOW: &'static str = "OPTIONS, PROPFIND, GET, COPY";

/// Methods of the public-link surface.
pub const PUBLIC_ALLOW: &'static str = "OPTIONS, GET, HEAD, PUT, MKCOL, DELETE, PROPFIND";

/// The capability reply to `OPTIONS`: 200, the surface's `Allow` list,
/// `DAV: 1, 2, 3` and `MS-Author-Via: DAV`.
pub fn capability_reply(allow: &str) -> (r: Reply)
    ensures
        r.status == 200,
        r.body@.len() == 0,
        headers_view(r.headers@) == text_plain() + seq![
            ("allow"@, allow@),
            ("dav"@, "1, 2, 3"@),
            ("ms-author-via"@, "DAV"@),
        ],
{
    let mut hs: Vec<(String, String)> = Vec::new();
    hs.push((to_owned("allow"), to_owned(allow)));
    hs.push((to_owned("dav"), to_owned("1, 2, 3")));
    hs.push((to_owned("ms-author-via"), to_owned("DAV")));
    assert(headers_view(hs@) =~= seq![
        ("allow"@, allow@),
        ("dav"@, "1, 2, 3"@),
        ("ms-author-via"@, "DAV"@),
    ]);
    text_reply_with(200, String::new(), hs)
}

/// The reply to a method the surface does not implement: 405 with its
/// `Allow` list.
pub fn method_not_allowed(allow: &str) -> (r: Reply)
    ensures
        r.status == 405,
        r.body@.len() == 0,
        headers_view(r.headers@) == text_plain() + seq![("allow"@, allow@)],
{
    let mut hs: Vec<(String, String)> = Vec::new();
    hs.push((to_owned("allow"), to_owned(allow)));
    assert(headers_view(hs@) =~= seq![("allow"@, allow@)]);
    text_reply_with(405, String::new(), hs)
}

/// An HTTP method as the WebDAV surfaces tell them apart (method names are
/// case-sensitive).
#[derive(Debug, Clone, Copy, PartialEq, Eq, Structural)]
pub enum DavMethod {
    Options,
    Get,
    Head,
    Put,
    Mkcol,
    Delete,
    Move,
    Copy,
    Propfind,
    Proppatch,
    Lock,
    Unlock,
    Other,
}

/// The method a name stands for.
pub open spec fn spec_dav_method(name: Seq<char>) -> DavMethod {
    if name == "OPTIONS"@ {
        DavMethod::Options
    } else if name == "GET"@ {
        DavMethod::Get
    } else if name == "HEAD"@ {
        DavMethod::Head
    } else if name == "PUT"@ {
        DavMethod::Put
    } else if name == "MKCOL"@ {
        DavMethod::Mkcol
    } else if name == "DELETE"@ {
        DavMethod::Delete
    } else if name == "MOVE"@ {
        DavMethod::Move
    } else if name == "COPY"@ {
        DavMethod::Copy
    } else if name == "PROPFIND"@ {
        DavMethod::Propfind
    } else if name == "PROPPATCH"@ {
        DavMethod::Proppatch
    } else if name == "LOCK"@ {
        DavMethod::Lock
    } else if name == "UNLOCK"@ {
        DavMethod::Unlock
    } else {
        DavMethod::Other
    }
}

/// The method a name stands for.
pub fn dav_method(name: &str) -> (r: DavMethod)
    ensures
        r == spec_dav_method(name@),
{
    if str_eq(name, "OPTIONS") {
        DavMethod::Options
    } else if str_eq(name, "GET") {
        DavMethod::Get
    } else if str_eq(name, "HEAD") {
        DavMethod::Head
    } else if str_eq(name, "PUT") {
        DavMethod::Put
    } else if str_eq(name, "MKCOL") {
        DavMethod::Mkcol
    } else if str_eq(name, "DELETE") {
        DavMethod::Delete
    } else if str_eq(name, "MOVE") {
        DavMethod::Move
    } else if str_eq(name, "COPY") {
        DavMethod::Copy
    } else if str_eq(name, "PROPFIND") {
        DavMethod::Propfind
    } else if str_eq(name, "PROPPATCH") {
        DavMethod::Proppatch
    } else if str_eq(name, "LOCK") {
        DavMethod::Lock
    } else if str_eq(name, "UNLOCK") {
        DavMethod::Unlock
    } else {
        DavMethod::Other
    }
}

// ---------------------------------------------------------------- files surface

/// Resolve `/files/{user}/{*path}`: the URL's user must be the signed-in
/// one (else 403); `uid_error` is the rendered reason the URL's user id is
/// invalid, if it is (400 `invalid user id: ...`). An empty path is the
/// root (`None`); otherwise the path is percent-decoded (400 `invalid url
/// encoding: ...` when the result is not UTF-8) and prefixed with `/`,
/// ready to be validated as a user path.
pub fn resolve_target(
    authed: &AuthenticatedUser,
    url_user: &str,
    url_path: &str,
    uid_error: Option<String>,
) -> (r: Result<Option<String>, DavError>)
    ensures
        url_user@ != authed.user_id@ ==> r == Err::<Option<String>, DavError>(DavError::Forbidden),
        url_user@ == authed.user_id@ ==> match uid_error {
            Some(e) => r matches Err(DavError::BadRequest(m)) && m@ == "invalid user id: "@ + e@,
            None => if url_path@.len() == 0 {
                r == Ok::<Option<String>, DavError>(None)
            } else {
                match spec_url_decode(url_path@) {
                    Some(d) => r matches Ok(Some(p)) && p@ == seq!['/'] + d,
                    None => r matches Err(DavError::BadRequest(m)) && m@ == "invalid url encoding: "@
                        + url_decode_error_text(url_path@),
                }
            },
        },
{
    if !str_eq(url_user, authed.user_id.as_str()) {
        return Err(DavError::Forbidden);
    }
    match uid_error {
        Some(e) => return Err(DavError::BadRequest(concat("invalid user id: ", e.as_str()))),
        None => {},
    }
    if chars_of(url_path).len() == 0 {
        return Ok(None);
    }
    match url_decode(url_path) {
        Ok(d) => {
            let mut p = String::new();
            push_char(&mut p, '/');
            push_str(&mut p, d.as_str());
            Ok(Some(p))
        },
        Err(e) => Err(DavError::BadRequest(concat("invalid url encoding: ", e.as_str()))),
    }
}

/// A resolved path after its validation as a user path (`path_error`: the
/// rendered reason it was refused, if it was): the path itself, or 400
/// `invalid path: <reason>`.
pub fn checked_user_path(path: String, path_error: Option<String>) -> (r: Result<String, DavError>)
    ensures
        match path_error {
            None => r matches Ok(p) && p@ == path@,
            Some(e) => r matches Err(DavError::BadRequest(m)) && m@ == "invalid path: "@ + e@,
        },
{
    match path_error {
        None => Ok(path),
        Some(e) => Err(DavError::BadRequest(concat("invalid path: ", e.as_str()))),
    }
}

/// What the files surface does with a method.
#[derive(Debug)]
pub enum FilesRoute {
    /// Answer the capability reply.
    Capability,
    /// Send the file (`head_only`: headers without the body).
    Get { head_only: bool },
    Put,
    Mkcol,
    Delete,
    Move,
    Copy,
    Propfind,
    Proppatch,
    /// Refuse with this error.
    Refuse(DavError),
    /// Answer 405 with the `Allow` list.
    NotAllowed,
}

/// The route of a method on the files surface. `LOCK` and `UNLOCK` are
/// refused as bad requests (`<method> not yet implemented`).
pub fn files_route(method: &str) -> (r: FilesRoute)
    ensures
        match spec_dav_method(method@) {
            DavMethod::Options => r == FilesRoute::Capability,
            DavMethod::Get => r == (FilesRoute::Get { head_only: false }),
            DavMethod::Head => r == (FilesRoute::Get { head_only: true }),
            DavMethod::Put => r == FilesRoute::Put,
            DavMethod::Mkcol => r == FilesRoute::Mkcol,
            DavMethod::Delete => r == FilesRoute::Delete,
            DavMethod::Move => r == FilesRoute::Move,
            DavMethod::Copy => r == FilesRoute::Copy,
            DavMethod::Propfind => r == FilesRoute::Propfind,
            DavMethod::Proppatch => r == FilesRoute::Proppatch,
            DavMethod::Lock | DavMethod::Unlock => r matches FilesRoute::Refuse(DavError::BadRequest(m))
                && m@ == method@ + " not yet implemented"@,
            DavMethod::Other => r == FilesRoute::NotAllowed,
        },
{
    match dav_method(method) {
        DavMethod::Options => FilesRoute::Capability,
        DavMethod::Get => FilesRoute::Get { head_only: false },
        DavMethod::Head => FilesRoute::Get { head_only: true },
        DavMethod::Put => FilesRoute::Put,
        DavMethod::Mkcol => FilesRoute::Mkcol,
        DavMethod::Delete => FilesRoute::Delete,
        DavMethod::Move => FilesRoute::Move,
        DavMethod::Copy => FilesRoute::Copy,
        DavMethod::Propfind => FilesRoute::Propfind,
        DavMethod::Proppatch => FilesRoute::Proppatch,
        DavMethod::Lock | DavMethod::Unlock => FilesRoute::Refuse(
            DavError::BadRequest(concat(method, " not yet implemented")),
        ),
        DavMethod::Other => FilesRoute::NotAllowed,
    }
}

/// Plan a `GET`/`HEAD` of an entry of `size` bytes: a directory is a bad
/// request (`GET on a directory`), an unsatisfiable `Range` is refused, no
/// range sends the whole file (200), one range its slice (206).
pub fn get_plan(is_dir: bool, size: u64, headers: &HeaderMap) -> (r: Result<DownloadPlan, DavError>)
    ensures
        is_dir ==> (r matches Err(DavError::BadRequest(m)) && m@ == "GET on a directory"@),
        !is_dir ==> match spec_parse_range(headers@, size) {
            None => r == Err::<DownloadPlan, DavError>(
                DavError::RangeNotSatisfiable { file_size: size },
            ),
            Some(None) => r matches Ok(p) && p.status == 200 && p.content_length == size
                && p.content_range is None && p.range is None,
            Some(Some((a, b))) => r matches Ok(p) && p.status == 206 && p.content_length == b - a
                && (p.content_range matches Some(c) && c@ == content_range_text(a, b, size))
                && (p.range matches Some(g) && g.start == a && g.end == b),
        },
{
    if is_dir {
        return Err(DavError::BadRequest(to_owned("GET on a directory")));
    }
    match parse_range(headers, size) {
        Err(e) => Err(e),
        Ok(None) => Ok(DownloadPlan { status: 200, content_length: size, content_range: None, range: None }),
        Ok(Some(g)) => {
            proof {
                reveal_strlit("bytes ");
            }
            let mut cr = to_owned("bytes ");
            push_chars(&mut cr, &crate::text::fmt_u64(g.start));
            push_char(&mut cr, '-');
            push_chars(&mut cr, &crate::text::fmt_u64(g.end - 1));
            push_char(&mut cr, '/');
            push_chars(&mut cr, &crate::text::fmt_u64(size));
            assert(cr@ =~= content_range_text(g.start, g.end, size));
            Ok(
                DownloadPlan {
                    status: 206,
                    content_length: g.end - g.start,
                    content_range: Some(cr),
                    range: Some(g),
                },
            )
        },
    }
}

/// The conditional-write rules of `PUT`, given the target's current etag
/// (`None` when it does not exist): `If-Match: *` needs an existing target,
/// `If-Match: "<etag>"` an existing target with that etag, and
/// `If-None-Match: *` a missing one. Any violation is 412.
pub open spec fn spec_put_allowed(
    if_match: Option<Option<Seq<char>>>,
    if_none_match_star: bool,
    existing: Option<Seq<char>>,
) -> bool {
    &&& match if_match {
        Some(None) => existing is Some,
        Some(Some(want)) => existing == Some(want),
        None => true,
    }
    &&& !(if_none_match_star && existing is Some)
}

/// Check the `PUT` preconditions against the target's current etag.
pub fn put_precondition(if_match: &IfMatch, if_none_match_star: bool, existing_etag: Option<&str>) -> (r:
    Result<(), DavError>)
    ensures
        spec_put_allowed(
            if_match_view(*if_match),
            if_none_match_star,
            match existing_etag {
                Some(e) => Some(e@),
                None => None,
            },
        ) ==> r is Ok,
        !spec_put_allowed(
            if_match_view(*if_match),
            if_none_match_star,
            match existing_etag {
                Some(e) => Some(e@),
                None => None,
            },
        ) ==> r == Err::<(), DavError>(DavError::PreconditionFailed),
{
    match if_match {
        IfMatch::Wildcard => {
            if existing_etag.is_none() {
                return Err(DavError::PreconditionFailed);
            }
        },
        IfMatch::Etag(want) => match existing_etag {
            Some(e) => {
                if !str_eq(e, want.as_str()) {
                    return Err(DavError::PreconditionFailed);
                }
            },
            None => return Err(DavError::PreconditionFailed),
        },
        IfMatch::Absent => {},
    }
    if if_none_match_star && existing_etag.is_some() {
        return Err(DavError::PreconditionFailed);
    }
    Ok(())
}

/// The status of a successful `PUT`: 204 over an existing file, 201 for a
/// new one.
pub fn put_status(existed: bool) -> (r: u16)
    ensures
        r == if existed {
            204u16
        } else {
            201u16
        },
{
    if existed {
        204
    } else {
        201
    }
}

// ---------------------------------------------------------------- trash bin

/// What the trash-bin surface does with a method.
#[derive(Debug, Clone, Copy, PartialEq, Eq, Structural)]
pub enum TrashRoute {
    Capability,
    Propfind,
    /// Delete the entry for good.
    Purge,
    /// Restore the entry (`MOVE`).
    Restore,
    NotAllowed,
}

/// The route of a method on the trash bin of `uid`, on the collection or
/// (`entry`) on one trashed entry. Another user's trash bin is 403.
pub fn trash_route(authed: &AuthenticatedUser, uid: &str, method: &str, entry: bool) -> (r: Result<
    TrashRoute,
    DavError,
>)
    ensures
        uid@ != authed.user_id@ ==> r == Err::<TrashRoute, DavError>(DavError::Forbidden),
        uid@ == authed.user_id@ ==> r == Ok::<TrashRoute, DavError>(
            match spec_dav_method(method@) {
                DavMethod::Options => TrashRoute::Capability,
                DavMethod::Propfind => TrashRoute::Propfind,
                DavMethod::Delete => if entry {
                    TrashRoute::Purge
                } else {
                    TrashRoute::NotAllowed
                },
                DavMethod::Move => if entry {
                    TrashRoute::Restore
                } else {
                    TrashRoute::NotAllowed
                },
                _ => TrashRoute::NotAllowed,
            },
        ),
{
    if !str_eq(uid, authed.user_id.as_str()) {
        return Err(DavError::Forbidden);
    }
    let route = match dav_method(method) {
        DavMethod::Options => TrashRoute::Capability,
        DavMethod::Propfind => TrashRoute::Propfind,
        DavMethod::Delete => if entry {
            TrashRoute::Purge
        } else {
            TrashRoute::NotAllowed
        },
        DavMethod::Move => if entry {
            TrashRoute::Restore
        } else {
            TrashRoute::NotAllowed
        },
        _ => TrashRoute::NotAllowed,
    };
    Ok(route)
}

// ---------------------------------------------------------------- versions

/// What the versions surface does with a method.
#[derive(Debug, Clone, Copy, PartialEq, Eq, Structural)]
pub enum VersionsRoute {
    Capability,
    Propfind,
    /// Send the version's content.
    Download,
    /// Restore the version (`COPY`).
    Restore,
    NotAllowed,
}

/// The route of a method on `/{uid}/{fileid}` or (with a version mtime)
/// `/{uid}/{fileid}/{version_mtime}`, with the parsed ids. Another user's
/// versions are 403; an id that is not a non-negative integer is 404.
pub fn versions_route(
    authed: &AuthenticatedUser,
    uid: &str,
    fileid: &str,
    version_mtime: Option<&str>,
    method: &str,
) -> (r: Result<(i64, Option<i64>, VersionsRoute), DavError>)
    ensures
        uid@ != authed.user_id@ ==> r == Err::<(i64, Option<i64>, VersionsRoute), DavError>(
            DavError::Forbidden,
        ),
        uid@ == authed.user_id@ && spec_parse_nonneg_id(fileid@) is None ==> r == Err::<
            (i64, Option<i64>, VersionsRoute),
            DavError,
        >(DavError::NotFound),
        uid@ == authed.user_id@ && spec_parse_nonneg_id(fileid@) is Some ==> match version_mtime {
            None => r matches Ok((f, v, route)) && Some(f) == spec_parse_nonneg_id(fileid@) && v is None
                && route == match spec_dav_method(method@) {
                DavMethod::Options => VersionsRoute::Capability,
                DavMethod::Propfind => VersionsRoute::Propfind,
                _ => VersionsRoute::NotAllowed,
            },
            Some(m) => match spec_parse_nonneg_id(m@) {
                None => r == Err::<(i64, Option<i64>, VersionsRoute), DavError>(DavError::NotFound),
                Some(mt) => r matches Ok((f, v, route)) && Some(f) == spec_parse_nonneg_id(fileid@)
                    && v == Some(mt) && route == match spec_dav_method(method@) {
                    DavMethod::Options => VersionsRoute::Capability,
                    DavMethod::Propfind => VersionsRoute::Propfind,
                    DavMethod::Get => VersionsRoute::Download,
                    DavMethod::Copy => VersionsRoute::Restore,
                    _ => VersionsRoute::NotAllowed,
                },
            },
        },
{
    if !str_eq(uid, authed.user_id.as_str()) {
        return Err(DavError::Forbidden);
    }
    let f = match parse_fileid(fileid) {
        Ok(f) => f,
        Err(e) => return Err(e),
    };
    let m = dav_method(method);
    match version_mtime {
        None => {
            let route = match m {
                DavMethod::Options => VersionsRoute::Capability,
                DavMethod::Propfind => VersionsRoute::Propfind,
                _ => VersionsRoute::NotAllowed,
            };
            Ok((f, None, route))
        },
        Some(vm) => {
            let v = match parse_version_mtime(vm) {
                Ok(v) => v,
                Err(e) => return Err(e),
            };
            let route = match m {
                DavMethod::Options => VersionsRoute::Capability,
                DavMethod::Propfind => VersionsRoute::Propfind,
                DavMethod::Get => VersionsRoute::Download,
                DavMethod::Copy => VersionsRoute::Restore,
                _ => VersionsRoute::NotAllowed,
            };
            Ok((f, Some(v), route))
        },
    }
}

// ---------------------------------------------------------------- public-link surface

/// The prefix of the hrefs of the public-link surface.
pub const PUBLIC_HREF_PREFIX: &'static str = "/public.php/dav/files";

/// The reply of a public DAV request before its path is looked at: while
/// the link's password gate is in force, 401 with a Basic challenge
/// (realm `public-link`); an `OPTIONS` probe gets the capability reply.
pub fn public_dav_entry(password_gate_required: bool, method: &str) -> (r: Option<Reply>)
    ensures
        password_gate_required ==> (r matches Some(x) && x.status == 401 && x.body@.len() == 0
            && headers_view(x.headers@) == text_plain() + seq![
            ("www-authenticate"@, "Basic realm=\"public-link\""@),
        ]),
        !password_gate_required && spec_dav_method(method@) == DavMethod::Options ==> (r matches Some(
            x,
        ) && x.status == 200 && headers_view(x.headers@) == text_plain() + seq![
            ("allow"@, PUBLIC_ALLOW@),
            ("dav"@, "1, 2, 3"@),
            ("ms-author-via"@, "DAV"@),
        ]),
        !password_gate_required && spec_dav_method(method@) != DavMethod::Options ==> r is None,
{
    if password_gate_required {
        let mut hs: Vec<(String, String)> = Vec::new();
        hs.push((to_owned("www-authenticate"), to_owned("Basic realm=\"public-link\"")));
        assert(headers_view(hs@) =~= seq![
            ("www-authenticate"@, "Basic realm=\"public-link\""@),
        ]);
        return Some(text_reply_with(401, String::new(), hs));
    }
    match dav_method(method) {
        DavMethod::Options => Some(capability_reply(PUBLIC_ALLOW)),
        _ => None,
    }
}

/// The user path a public DAV request names: `/` followed by the captured
/// path (`/` for the link root), ready to be validated.
pub fn public_dav_path(raw: &str) -> (r: String)
    ensures
        r@ == seq!['/'] + raw@,
{
    let mut s = String::new();
    push_char(&mut s, '/');
    push_str(&mut s, raw);
    s
}

/// What the public-link surface does with a method.
#[derive(Debug, Clone, Copy, PartialEq, Eq, Structural)]
pub enum PublicDavRoute {
    Get { head_only: bool },
    Put,
    Delete,
    Mkcol,
    Propfind,
    /// 403 with an empty body: the link does not grant reading.
    ReadDenied,
    NotAllowed,
}

/// The route of a (non-`OPTIONS`) method on the public-link surface:
/// reading needs the link's read bit, and so does a `PROPFIND` below the
/// link root.
pub fn public_dav_route(method: &str, can_read: bool, path_is_root: bool) -> (r: PublicDavRoute)
    ensures
        r == match spec_dav_method(method@) {
            DavMethod::Get => if can_read {
                PublicDavRoute::Get { head_only: false }
            } else {
                PublicDavRoute::ReadDenied
            },
            DavMethod::Head => if can_read {
                PublicDavRoute::Get { head_only: true }
            } else {
                PublicDavRoute::ReadDenied
            },
            DavMethod::Put => PublicDavRoute::Put,
            DavMethod::Delete => PublicDavRoute::Delete,
            DavMethod::Mkcol => PublicDavRoute::Mkcol,
            DavMethod::Propfind => if !can_read && !path_is_root {
                PublicDavRoute::ReadDenied
            } else {
                PublicDavRoute::Propfind
            },
            _ => PublicDavRoute::NotAllowed,
        },
{
    match dav_method(method) {
        DavMethod::Get => if can_read {
            PublicDavRoute::Get { head_only: false }
        } else {
            PublicDavRoute::ReadDenied
        },
        DavMethod::Head => if can_read {
            PublicDavRoute::Get { head_only: true }
        } else {
            PublicDavRoute::ReadDenied
        },
        DavMethod::Put => PublicDavRoute::Put,
        DavMethod::Delete => PublicDavRoute::Delete,
        DavMethod::Mkcol => PublicDavRoute::Mkcol,
        DavMethod::Propfind => if !can_read && !path_is_root {
            PublicDavRoute::ReadDenied
        } else {
            PublicDavRoute::Propfind
        },
        _ => PublicDavRoute::NotAllowed,
    }
}

} // verus!
