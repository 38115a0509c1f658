//! WebDAV `MOVE` and `COPY` on the files surface, and the chunked uploads
//! (`/dav/uploads/{user}/{upload}`: `MKCOL` begins, `PUT` a part, `MOVE`
//! assembles, `DELETE` aborts).
//!
//! A transfer's destination must stay in the caller's own files; an
//! existing destination is only replaced under `Overwrite: T` (the
//! default), and the request answers 204 when it replaced one, 201 when it
//! created it. The dead properties follow the resource. The lock store, the
//! view and the property store are consulted between these decisions.

use crate::codec::{header_value_ok, spec_header_value_ok, spec_url_decode, url_decode, url_decode_error_text};
use crate::dav_error::{headers_view, text_plain, text_reply_with, DavError, Reply};
use crate::headers::{
    header_lookup, lemma_lower_literal, parse_destination_files, parse_overwrite,
    spec_parse_destination_files, spec_parse_overwrite, HeaderMap,
};
use crate::text::{chars_of, concat, push_char, push_str, str_eq, string_from, to_owned, trim_start_char, trim_start_chars};
use vstd::prelude::*;

verus! {

/// Resolve the `Destination` of a transfer or an upload for `uid`: the
/// header must name one of that user's files (else 403); its path is
/// percent-decoded (a non-UTF-8 result is 400 with `label` and the reason)
/// and prefixed with `/`, ready to be validated. A missing or malformed
/// header is 400.
pub fn destination_for(headers: &HeaderMap, uid: &str, label: &str) -> (r: Result<String, DavError>)
    ensures
        match spec_parse_destination_files(headers@) {
            Err(m) => r matches Err(DavError::BadRequest(n)) && n@ == m,
            Ok((u, p)) => if u != uid@ {
                r matches Err(DavError::Forbidden)
            } else {
                match spec_url_decode(p) {
                    Some(d) => r matches Ok(t) && t@ == seq!['/'] + d,
                    None => r matches Err(DavError::BadRequest(n)) && n@ == label@
                        + url_decode_error_text(p),
                }
            },
        },
{
    let (to_user, to_path) = match parse_destination_files(headers) {
        Ok(x) => x,
        Err(e) => return Err(e),
    };
    if !str_eq(to_user.as_str(), uid) {
        return Err(DavError::Forbidden);
    }
    match url_decode(to_path.as_str()) {
        Ok(d) => {
            let mut s = String::new();
            push_char(&mut s, '/');
            push_str(&mut s, d.as_str());
            Ok(s)
        },
        Err(e) => Err(DavError::BadRequest(concat(label, e.as_str()))),
    }
}

/// The status of a finished transfer: 204 when it replaced the
/// destination, 201 when it created it.
pub open spec fn transfer_status(replaced: bool) -> u16 {
    if replaced {
        204
    } else {
        201
    }
}

/// Where a `MOVE` or `COPY` stands.
#[derive(Debug, Clone, Copy, PartialEq, Eq, Structural)]
pub enum TransferPhase {
    /// Waiting for the lock gate (source and destination for a move, the
    /// destination for a copy).
    CheckingLocks,
    /// Waiting to learn whether the destination exists.
    Statting,
    /// Waiting for the view to move or copy.
    Transferring,
    /// Waiting for the dead properties to follow.
    MovingProps,
    Done,
}

/// What the lock gate, the view and the property store said.
#[derive(Debug)]
pub enum TransferEvent {
    LocksChecked(Result<(), DavError>),
    /// Whether the destination exists.
    DestStatted(bool),
    Transferred(Result<(), DavError>),
    PropsMoved(Result<(), DavError>),
}

/// What to do next.
#[derive(Debug)]
pub enum TransferAction {
    /// Run the lock gate.
    CheckLocks,
    /// Look the destination up.
    StatDest,
    /// Move or copy; `replace`: the destination exists and is replaced (a
    /// forced rename, or delete then copy).
    Transfer { replace: bool },
    /// Make the dead properties of `from` follow to `to` (storage paths,
    /// without leading slashes).
    MoveProps { from: String, to: String },
    Fail(DavError),
    /// Answer with this status and an empty body.
    Respond(u16),
}

/// A `MOVE` (`is_move`) or `COPY` in progress.
#[derive(Debug, Clone)]
pub struct TransferFlow {
    pub phase: TransferPhase,
    pub is_move: bool,
    /// The source user path.
    pub from: String,
    /// The destination user path.
    pub to: String,
    /// Whether `Overwrite` allows replacing an existing destination.
    pub overwrite: bool,
    /// Whether the destination existed.
    pub replaced: bool,
}

/// Whether an event is the one the phase waits for.
pub open spec fn transfer_event_fits(phase: TransferPhase, ev: TransferEvent) -> bool {
    match phase {
        TransferPhase::CheckingLocks => ev is LocksChecked,
        TransferPhase::Statting => ev is DestStatted,
        TransferPhase::Transferring => ev is Transferred,
        TransferPhase::MovingProps => ev is PropsMoved,
        TransferPhase::Done => false,
    }
}

impl TransferFlow {
    /// Start a transfer of `from` (already resolved) for `uid`: the
    /// destination is resolved (the caller then validates it as a user path,
    /// 400 `invalid path: <reason>` otherwise), `Overwrite` is read, and the
    /// lock gate runs next.
    pub fn start(
        is_move: bool,
        uid: &str,
        from: &str,
        headers: &HeaderMap,
    ) -> (r: Result<TransferFlow, DavError>)
        ensures
            match spec_parse_destination_files(headers@) {
                Err(m) => r matches Err(DavError::BadRequest(n)) && n@ == m,
                Ok((u, p)) => if u != uid@ {
                    r matches Err(DavError::Forbidden)
                } else {
                    match spec_url_decode(p) {
                        None => r matches Err(DavError::BadRequest(n)) && n@
                            == "invalid url encoding: "@ + url_decode_error_text(p),
                        Some(d) => match spec_parse_overwrite(headers@) {
                            Err(m) => r matches Err(DavError::BadRequest(n)) && n@ == m,
                            Ok(o) => r matches Ok(f) && f.phase == TransferPhase::CheckingLocks
                                && f.is_move == is_move && f.from@ == from@ && f.to@ == seq!['/']
                                + d && f.overwrite == o && !f.replaced,
                        },
                    }
                },
            },
    {
        let to = match destination_for(headers, uid, "invalid url encoding: ") {
            Ok(t) => t,
            Err(e) => return Err(e),
        };
        let overwrite = match parse_overwrite(headers) {
            Ok(o) => o,
            Err(e) => return Err(e),
        };
        Ok(
            TransferFlow {
                phase: TransferPhase::CheckingLocks,
                is_move,
                from: to_owned(from),
                to,
                overwrite,
                replaced: false,
            },
        )
    }

    /// The user paths the lock gate checks, in order, before anything is
    /// written: a MOVE clears both the source (it is removed) and the
    /// destination (it is written); a COPY only the destination.
    pub fn lock_targets(&self) -> (r: Vec<String>)
        ensures
            r@.map_values(|p: String| p@) == if self.is_move {
                seq![self.from@, self.to@]
            } else {
                seq![self.to@]
            },
    {
        let mut r: Vec<String> = Vec::new();
        if self.is_move {
            r.push(to_owned(self.from.as_str()));
        }
        r.push(to_owned(self.to.as_str()));
        assert(r@.map_values(|p: String| p@) =~= if self.is_move {
            seq![self.from@, self.to@]
        } else {
            seq![self.to@]
        });
        r
    }

    /// Advance on an event. An existing destination without `Overwrite` is
    /// 412 and nothing is written.
    pub fn step(&mut self, ev: TransferEvent) -> (r: TransferAction)
        requires
            transfer_event_fits(old(self).phase, ev),
        ensures
            final(self).is_move == old(self).is_move,
            final(self).from == old(self).from,
            final(self).to == old(self).to,
            final(self).overwrite == old(self).overwrite,
            match ev {
                TransferEvent::LocksChecked(Err(e)) | TransferEvent::Transferred(Err(e))
                | TransferEvent::PropsMoved(Err(e)) => final(self).phase == TransferPhase::Done
                    && r == TransferAction::Fail(e),
                TransferEvent::LocksChecked(Ok(())) => final(self).phase == TransferPhase::Statting
                    && r is StatDest,
                TransferEvent::DestStatted(existed) => if existed && !old(self).overwrite {
                    final(self).phase == TransferPhase::Done && r == TransferAction::Fail(
                        DavError::PreconditionFailed,
                    )
                } else {
                    final(self).phase == TransferPhase::Transferring && final(self).replaced
                        == existed && r == (TransferAction::Transfer { replace: existed })
                },
                TransferEvent::Transferred(Ok(())) => final(self).phase
                    == TransferPhase::MovingProps && (r matches TransferAction::MoveProps { from, to }
                    && from@ == trim_start_char(old(self).from@, '/') && to@ == trim_start_char(
                    old(self).to@,
                    '/',
                )),
                TransferEvent::PropsMoved(Ok(())) => final(self).phase == TransferPhase::Done && r
                    == TransferAction::Respond(transfer_status(old(self).replaced)),
            },
    {
        match ev {
            TransferEvent::LocksChecked(Err(e)) | TransferEvent::Transferred(Err(e))
            | TransferEvent::PropsMoved(Err(e)) => {
                self.phase = TransferPhase::Done;
                TransferAction::Fail(e)
            },
            TransferEvent::LocksChecked(Ok(())) => {
                self.phase = TransferPhase::Statting;
                TransferAction::StatDest
            },
            TransferEvent::DestStatted(existed) => {
                if existed && !self.overwrite {
                    self.phase = TransferPhase::Done;
                    return TransferAction::Fail(DavError::PreconditionFailed);
                }
                self.phase = TransferPhase::Transferring;
                self.replaced = existed;
                TransferAction::Transfer { replace: existed }
            },
            TransferEvent::Transferred(Ok(())) => {
                self.phase = TransferPhase::MovingProps;
                let fc = chars_of(self.from.as_str());
                let tc = chars_of(self.to.as_str());
                TransferAction::MoveProps {
                    from: string_from(&trim_start_chars(&fc, '/')),
                    to: string_from(&trim_start_chars(&tc, '/')),
                }
            },
            TransferEvent::PropsMoved(Ok(())) => {
                self.phase = TransferPhase::Done;
                TransferAction::Respond(if self.replaced {
                    204
                } else {
                    201
                })
            },
        }
    }
}

// ---------------------------------------------------------------- chunked uploads

/// The guard of every upload request: the URL's user must be the signed-in
/// one (403); `uid_error` is the rendered reason the user id is invalid, if
/// it is (400 `invalid uid: ...`).
pub fn upload_user_check(authed_user: &str, url_user: &str, uid_error: Option<String>) -> (r: Result<(), DavError>)
    ensures
        url_user@ != authed_user@ ==> r matches Err(DavError::Forbidden),
        url_user@ == authed_user@ ==> match uid_error {
            Some(e) => r matches Err(DavError::BadRequest(m)) && m@ == "invalid uid: "@ + e@,
            None => r is Ok,
        },
{
    if !str_eq(url_user, authed_user) {
        return Err(DavError::Forbidden);
    }
    match uid_error {
        Some(e) => Err(DavError::BadRequest(concat("invalid uid: ", e.as_str()))),
        None => Ok(()),
    }
}

/// The destination of an upload (begun or assembled): as for a transfer,
/// with `invalid encoding: ` for a path that does not decode.
pub fn upload_destination(headers: &HeaderMap, url_user: &str) -> (r: Result<String, DavError>)
    ensures
        match spec_parse_destination_files(headers@) {
            Err(m) => r matches Err(DavError::BadRequest(n)) && n@ == m,
            Ok((u, p)) => if u != url_user@ {
                r matches Err(DavError::Forbidden)
            } else {
                match spec_url_decode(p) {
                    Some(d) => r matches Ok(t) && t@ == seq!['/'] + d,
                    None => r matches Err(DavError::BadRequest(n)) && n@ == "invalid encoding: "@
                        + url_decode_error_text(p),
                }
            },
        },
{
    destination_for(headers, url_user, "invalid encoding: ")
}

/// The part tags an assembly names, as the JSON text of the
/// `X-Crabcloud-Part-Tags` header (400 when it is missing).
pub fn upload_part_tags(headers: &HeaderMap) -> (r: Result<String, DavError>)
    ensures
        match header_lookup(headers@, "x-crabcloud-part-tags"@) {
            Some(v) => r matches Ok(t) && t@ == v,
            None => r matches Err(DavError::BadRequest(m)) && m@ == "missing X-Crabcloud-Part-Tags"@,
        },
{
    proof {
        reveal_strlit("x-crabcloud-part-tags");
        lemma_lower_literal("x-crabcloud-part-tags"@);
    }
    match headers.get("x-crabcloud-part-tags") {
        Some(v) => Ok(to_owned(v)),
        None => Err(DavError::BadRequest(to_owned("missing X-Crabcloud-Part-Tags"))),
    }
}

/// The reply to a stored part or an assembled upload: 201 with the etag
/// (quoted for an assembled file), or an internal error when the etag is
/// not a valid header value.
pub fn upload_etag_reply(etag: &str, quoted: bool) -> (r: Result<Reply, DavError>)
    ensures
        ({
            let v = if quoted {
                seq!['"'] + etag@ + seq!['"']
            } else {
                etag@
            };
            if spec_header_value_ok(v) {
                r matches Ok(x) && x.status == 201 && x.body@.len() == 0 && headers_view(x.headers@)
                    == text_plain() + seq![("etag"@, v)]
            } else {
                r matches Err(DavError::Internal(m)) && m@
                    == "invalid etag header: failed to parse header value"@
            }
        }),
{
    let mut v = String::new();
    if quoted {
        push_char(&mut v, '"');
        push_str(&mut v, etag);
        push_char(&mut v, '"');
    } else {
        push_str(&mut v, etag);
    }
    assert(v@ =~= if quoted {
        seq!['"'] + etag@ + seq!['"']
    } else {
        etag@
    });
    if !header_value_ok(v.as_str()) {
        proof {
            reveal_strlit("invalid etag header: failed to parse header value");
        }
        return Err(DavError::Internal(to_owned("invalid etag header: failed to parse header value")));
    }
    let ghost vv = v@;
    let mut hs: Vec<(String, String)> = Vec::new();
    hs.push((to_owned("etag"), v));
    assert(headers_view(hs@) =~= seq![("etag"@, vv)]);
    Ok(text_reply_with(201, String::new(), hs))
}

} // verus!
