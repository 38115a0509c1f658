//! Folder archives: `GET /api/files/zip/{*path}` for signed-in users and
//! `GET /s/{token}/zip/{*path}` for public links.
//!
//! Both surfaces resolve the directory, refuse a file (400) or a missing
//! entry (404), walk the tree against the configured caps before a byte is
//! sent (413 with the overflow when over), and only then stream the
//! archive. The archive writer and the cap walk are the zip backend's; the
//! decisions around them are here.

use crate::codec::{header_value_ok, percent_encode_bytes, spec_header_value_ok, url_encode};
use crate::dav_error::{headers_view, text_plain, FsError, Reply};
use crate::public_link::{
    fs_err_to_response, is_not_found, link_gate, spec_fs_err_reply, spec_is_not_found, text_reply,
};
use crate::text::{
    after_last, after_last_char, chars_of, push_char, push_chars, push_str, string_from, to_owned,
    trim_end_char, trim_end_chars, trim_start_char, trim_start_chars,
};
use vstd::prelude::*;
use vstd::utf8::encode_utf8;

verus! {

/// The user path a zip request names: `/` followed by the captured path
/// without its leading slashes (`/` for the trailing-slash form).
pub fn zip_user_path(raw_path: &str) -> (r: String)
    ensures
        r@ == seq!['/'] + trim_start_char(raw_path@, '/'),
{
    let rc = chars_of(raw_path);
    let t = trim_start_chars(&rc, '/');
    let mut s = String::new();
    push_char(&mut s, '/');
    push_chars(&mut s, &t);
    s
}

/// A path without its leading and trailing slashes.
pub open spec fn bare(p: Seq<char>) -> Seq<char> {
    trim_end_char(trim_start_char(p, '/'), '/')
}

fn bare_exec(p: &str) -> (r: Vec<char>)
    ensures
        r@ == bare(p@),
{
    let pc = chars_of(p);
    let t = trim_start_chars(&pc, '/');
    trim_end_chars(&t, '/')
}

/// The archive name of the signed-in surface: the last segment of the user
/// path, or `fallback` (the user id) for the home root.
pub open spec fn spec_basename_for_zip(user_path: Seq<char>, fallback: Seq<char>) -> Seq<char> {
    let t = bare(user_path);
    if t.len() == 0 {
        fallback
    } else if after_last(t, '/').len() == 0 {
        fallback
    } else {
        after_last(t, '/')
    }
}

/// Archive name for the signed-in surface (`<uid>` for the home root).
pub fn basename_for_zip(user_path: &str, fallback: &str) -> (r: String)
    ensures
        r@ == spec_basename_for_zip(user_path@, fallback@),
{
    let t = bare_exec(user_path);
    if t.len() == 0 {
        return to_owned(fallback);
    }
    let last = after_last_char(&t, '/');
    if last.len() == 0 {
        return to_owned(fallback);
    }
    string_from(&last)
}

/// The archive name of the public surface: the name the zip backend gives
/// the requested directory when it has one; else the last segment of the
/// linked folder's owner path; else the token (a link on the owner's home).
pub open spec fn spec_public_zip_basename(from_user: Seq<char>, owner_path: Seq<char>, token: Seq<char>) -> Seq<char> {
    let stripped = bare(owner_path);
    if from_user.len() > 0 {
        from_user
    } else if stripped.len() == 0 {
        token
    } else if after_last(stripped, '/').len() > 0 {
        after_last(stripped, '/')
    } else {
        stripped
    }
}

/// Archive name for the public surface; `from_user` is the zip backend's
/// root name of the requested directory (empty at the link root).
pub fn public_zip_basename(from_user: &str, owner_path: &str, token: &str) -> (r: String)
    ensures
        r@ == spec_public_zip_basename(from_user@, owner_path@, token@),
{
    if chars_of(from_user).len() > 0 {
        return to_owned(from_user);
    }
    let stripped = bare_exec(owner_path);
    if stripped.len() == 0 {
        return to_owned(token);
    }
    let last = after_last_char(&stripped, '/');
    if last.len() > 0 {
        string_from(&last)
    } else {
        string_from(&stripped)
    }
}

/// The ASCII stand-in of a name: ASCII alphanumerics and `.-_` kept, every
/// other character `_`.
pub open spec fn safe_ascii(s: Seq<char>) -> Seq<char> {
    s.map_values(
        |c: char|
            if ('0' <= c <= '9') || ('a' <= c <= 'z') || ('A' <= c <= 'Z') || c == '.' || c == '-'
                || c == '_' {
                c
            } else {
                '_'
            },
    )
}

/// RFC 6266 dual form:
/// `attachment; filename="<ascii>.zip"; filename*=UTF-8''<percent-encoded>.zip`.
pub open spec fn spec_disposition(name: Seq<char>) -> Seq<char> {
    "attachment; filename=\""@ + safe_ascii(name) + ".zip\"; filename*=UTF-8''"@
        + percent_encode_bytes(encode_utf8(name)) + ".zip"@
}

/// The `Content-Disposition` of a public archive; plain `attachment` should
/// the dual form not be a valid header value.
pub open spec fn spec_zip_disposition(name: Seq<char>) -> Seq<char> {
    if spec_header_value_ok(spec_disposition(name)) {
        spec_disposition(name)
    } else {
        "attachment"@
    }
}

/// The headers of a streamed public archive.
pub fn public_zip_headers(basename: &str) -> (r: Vec<(String, String)>)
    ensures
        headers_view(r@) == seq![
            ("content-type"@, "application/zip"@),
            ("content-disposition"@, spec_zip_disposition(basename@)),
        ],
{
    let bc = chars_of(basename);
    let mut ascii: Vec<char> = Vec::new();
    let mut i: usize = 0;
    while i < bc.len()
        invariant
            i <= bc@.len(),
            bc@ == basename@,
            ascii@ == safe_ascii(bc@.subrange(0, i as int)),
        decreases bc@.len() - i,
    {
        let c = bc[i];
        let keep = ('0' <= c && c <= '9') || ('a' <= c && c <= 'z') || ('A' <= c && c <= 'Z') || c
            == '.' || c == '-' || c == '_';
        if keep {
            ascii.push(c);
        } else {
            ascii.push('_');
        }
        assert(bc@.subrange(0, i + 1) =~= bc@.subrange(0, i as int).push(c));
        assert(ascii@ =~= safe_ascii(bc@.subrange(0, i + 1)));
        i = i + 1;
    }
    assert(bc@.subrange(0, i as int) =~= bc@);
    let pct = url_encode(basename);
    let mut disp = to_owned("attachment; filename=\"");
    push_chars(&mut disp, &ascii);
    push_str(&mut disp, ".zip\"; filename*=UTF-8''");
    push_str(&mut disp, pct.as_str());
    push_str(&mut disp, ".zip");
    proof {
        reveal_strlit("attachment; filename=\"");
        reveal_strlit(".zip\"; filename*=UTF-8''");
        reveal_strlit(".zip");
    }
    assert(disp@ =~= spec_disposition(basename@));
    let value = if header_value_ok(disp.as_str()) {
        disp
    } else {
        to_owned("attachment")
    };
    let mut hs: Vec<(String, String)> = Vec::new();
    hs.push((to_owned("content-type"), to_owned("application/zip")));
    hs.push((to_owned("content-disposition"), value));
    assert(headers_view(hs@) =~= seq![
        ("content-type"@, "application/zip"@),
        ("content-disposition"@, spec_zip_disposition(basename@)),
    ]);
    hs
}

// ---------------------------------------------------------------- the request

/// Where a zip request stands.
#[derive(Debug, Clone, Copy, PartialEq, Eq, Structural)]
pub enum ZipPhase {
    BuildingView,
    Statting,
    Walking,
    Done,
}

/// What the pre-walk against the caps found.
#[derive(Debug, Clone, Copy)]
pub enum ZipWalk {
    /// Within the caps.
    Fits,
    /// Over a cap: the entries and bytes counted.
    TooLarge { count: u64, bytes: u64 },
    /// The view failed during the walk.
    Failed,
}

/// What the view said.
#[derive(Debug)]
pub enum ZipEvent {
    /// The view for the request, or why it could not be built.
    ViewBuilt(Result<(), FsError>),
    /// Whether the target is a directory, or why it could not be read.
    Statted(Result<bool, FsError>),
    Walked(ZipWalk),
}

/// What to do next.
#[derive(Debug)]
pub enum ZipAction {
    /// Build the view (the user's, or the link's subtree).
    BuildView,
    /// Read the target's metadata.
    Stat,
    /// Walk the tree against the caps.
    Walk,
    /// Answer 200 and stream the archive.
    Stream,
    /// Answer 413 with the overflow and the caps.
    OverCap { count: u64, bytes: u64 },
    Respond(Reply),
}

/// A zip request, on either surface.
#[derive(Debug, Clone, Copy)]
pub struct ZipFlow {
    pub phase: ZipPhase,
    /// Whether this is the public-link surface (view errors are then the
    /// view's own replies rather than a bare 500).
    pub public: bool,
}

/// Whether an event is the one the phase waits for.
pub open spec fn zip_event_fits(phase: ZipPhase, ev: ZipEvent) -> bool {
    match phase {
        ZipPhase::BuildingView => ev is ViewBuilt,
        ZipPhase::Statting => ev is Statted,
        ZipPhase::Walking => ev is Walked,
        ZipPhase::Done => false,
    }
}

/// The reply for a view error on a surface: the view's own reply on the
/// public one, a bare 500 on the signed-in one.
pub open spec fn view_error_reply(public: bool, e: FsError) -> (u16, Seq<char>) {
    if public {
        spec_fs_err_reply(e)
    } else {
        (500, seq![])
    }
}

impl ZipFlow {
    /// Start a zip request. `public_gate` is, on the public surface, whether
    /// the password gate is in force and whether the link grants read
    /// (`password_required` / `read_not_permitted`, both 403); `path_valid`
    /// whether the requested user path is a valid path (else 400
    /// `invalid path`).
    pub fn start(public_gate: Option<(bool, bool)>, path_valid: bool) -> (r: (ZipFlow, ZipAction))
        ensures
            r.0.public == public_gate is Some,
            match public_gate {
                Some((gate, read)) if gate => r.0.phase == ZipPhase::Done && (r.1 matches ZipAction::Respond(
                    x,
                ) && x.status == 403 && x.body@ == "password_required"@ && headers_view(x.headers@) == text_plain()),
                Some((gate, read)) if !read => r.0.phase == ZipPhase::Done && (r.1 matches ZipAction::Respond(
                    x,
                ) && x.status == 403 && x.body@ == "read_not_permitted"@ && headers_view(x.headers@) == text_plain()),
                _ => if !path_valid {
                    r.0.phase == ZipPhase::Done && (r.1 matches ZipAction::Respond(x) && x.status
                        == 400 && x.body@ == "invalid path"@ && headers_view(x.headers@) == text_plain())
                } else {
                    r.0.phase == ZipPhase::BuildingView && r.1 is BuildView
                },
            },
    {
        let public = public_gate.is_some();
        match public_gate {
            Some((gate, read)) => match link_gate(gate, read, "read_not_permitted") {
                Some(x) => return (ZipFlow { phase: ZipPhase::Done, public }, ZipAction::Respond(x)),
                None => {},
            },
            None => {},
        }
        if !path_valid {
            return (
                ZipFlow { phase: ZipPhase::Done, public },
                ZipAction::Respond(text_reply(400, "invalid path")),
            );
        }
        (ZipFlow { phase: ZipPhase::BuildingView, public }, ZipAction::BuildView)
    }

    /// Advance on an event.
    pub fn step(&mut self, ev: ZipEvent) -> (r: ZipAction)
        requires
            zip_event_fits(old(self).phase, ev),
        ensures
            final(self).public == old(self).public,
            match ev {
                ZipEvent::ViewBuilt(Err(e)) => final(self).phase == ZipPhase::Done && (
                r matches ZipAction::Respond(x) && x.status == view_error_reply(old(self).public, e).0
                    && x.body@ == view_error_reply(old(self).public, e).1),
                ZipEvent::ViewBuilt(Ok(())) => final(self).phase == ZipPhase::Statting && r is Stat,
                ZipEvent::Statted(Ok(true)) => final(self).phase == ZipPhase::Walking && r is Walk,
                ZipEvent::Statted(Ok(false)) => final(self).phase == ZipPhase::Done && (
                r matches ZipAction::Respond(x) && x.status == 400 && x.body@ == "not a directory"@
                    && headers_view(x.headers@) == text_plain()),
                ZipEvent::Statted(Err(e)) => final(self).phase == ZipPhase::Done && (
                r matches ZipAction::Respond(x) && headers_view(x.headers@) == text_plain() && if spec_is_not_found(e) {
                    x.status == 404 && x.body@.len() == 0
                } else {
                    x.status == view_error_reply(old(self).public, e).0 && x.body@
                        == view_error_reply(old(self).public, e).1
                }),
                ZipEvent::Walked(ZipWalk::Fits) => final(self).phase == ZipPhase::Done && r is Stream,
                ZipEvent::Walked(ZipWalk::TooLarge { count, bytes }) => final(self).phase
                    == ZipPhase::Done && r == (ZipAction::OverCap { count, bytes }),
                ZipEvent::Walked(ZipWalk::Failed) => final(self).phase == ZipPhase::Done && (
                r matches ZipAction::Respond(x) && x.status == 500 && x.body@.len() == 0
                    && headers_view(x.headers@) == text_plain()),
            },
    {
        proof {
            reveal_strlit("");
        }
        match ev {
            ZipEvent::ViewBuilt(Err(e)) => {
                self.phase = ZipPhase::Done;
                if self.public {
                    ZipAction::Respond(fs_err_to_response(&e))
                } else {
                    ZipAction::Respond(text_reply(500, ""))
                }
            },
            ZipEvent::ViewBuilt(Ok(())) => {
                self.phase = ZipPhase::Statting;
                ZipAction::Stat
            },
            ZipEvent::Statted(Ok(is_dir)) => {
                if is_dir {
                    self.phase = ZipPhase::Walking;
                    ZipAction::Walk
                } else {
                    self.phase = ZipPhase::Done;
                    ZipAction::Respond(text_reply(400, "not a directory"))
                }
            },
            ZipEvent::Statted(Err(e)) => {
                self.phase = ZipPhase::Done;
                if is_not_found(&e) {
                    ZipAction::Respond(text_reply(404, ""))
                } else if self.public {
                    ZipAction::Respond(fs_err_to_response(&e))
                } else {
                    ZipAction::Respond(text_reply(500, ""))
                }
            },
            ZipEvent::Walked(w) => {
                self.phase = ZipPhase::Done;
                match w {
                    ZipWalk::Fits => ZipAction::Stream,
                    ZipWalk::TooLarge { count, bytes } => ZipAction::OverCap { count, bytes },
                    ZipWalk::Failed => ZipAction::Respond(text_reply(500, "")),
                }
            },
        }
    }
}

} // verus!
