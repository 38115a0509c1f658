//! WebDAV `LOCK` / `UNLOCK` and the lock gate of the mutating methods.
//!
//! Locks are exclusive write locks keyed by `files/<uid>/<path>` (the root
//! is `files/<uid>`). A mutation is refused with 423 when the resource, or
//! an ancestor locked with depth infinity, holds a lock whose token the
//! request's `If:` header does not submit; an ancestor locked with depth 0
//! never blocks its descendants. The lock store is consulted between these
//! decisions.

use crate::codec::{is_hyphenated_uuid, spec_header_value_ok, string_from_utf8, unix_now_secs, uuid_v4_text};
use crate::dav_error::{headers_view, text_plain, text_reply, DavError, Reply};
use crate::headers::{parse_depth, spec_parse_depth, Depth, HeaderMap};
use crate::text::{chars_of, concat, fmt_i64, push_char, push_chars, push_str, signed_decimal, str_eq, to_owned, trim_start_char, trim_start_chars};
use crate::xml::{leaf, multistatus, multistatus_doc, propstat_xml, response_xml, XmlDoc};
use vstd::prelude::*;
use vstd::utf8::{decode_utf8, valid_utf8};

verus! {

/// The lock-store key of a user path: `files/<uid>` for the root,
/// `files/<uid>/<path without leading slashes>` otherwise.
pub open spec fn spec_lock_key(uid: Seq<char>, user_path: Seq<char>) -> Seq<char> {
    let p = trim_start_char(user_path, '/');
    if p.len() == 0 {
        "files/"@ + uid
    } else {
        "files/"@ + uid + seq!['/'] + p
    }
}

/// The lock-store key of a user path.
pub fn lock_key(uid: &str, user_path: &str) -> (r: String)
    ensures
        r@ == spec_lock_key(uid@, user_path@),
{
    let pc = chars_of(user_path);
    let p = trim_start_chars(&pc, '/');
    let mut s = concat("files/", uid);
    if p.len() > 0 {
        push_char(&mut s, '/');
        push_chars(&mut s, &p);
    }
    proof {
        reveal_strlit("files/");
    }
    s
}

/// The current time in whole seconds since the Unix epoch, as the lock
/// store keeps expiry times (0 when the clock reads before the epoch).
pub fn now_unix() -> (r: i64) {
    let s = unix_now_secs();
    #[verifier::truncate]
    (s as i64)
}

/// A lock held in the store: its depth (`0` or `infinity`) and token.
#[derive(Debug, Clone)]
pub struct LockInfo {
    pub depth: String,
    pub token: String,
}

/// Whether one of the submitted tokens is `token`.
pub open spec fn submitted_has(submitted: Seq<String>, token: Seq<char>) -> bool {
    exists|i: int| 0 <= i < submitted.len() && (#[trigger] submitted[i])@ == token
}

/// Whether a lock blocks a mutation: a lock on the resource itself always
/// does, one on an ancestor only with depth infinity; either way only when
/// the request does not submit its token.
pub open spec fn spec_lock_blocks(lock: Option<LockInfo>, is_self: bool, submitted: Seq<String>) -> bool {
    match lock {
        None => false,
        Some(l) => (is_self || l.depth@ == "infinity"@) && !submitted_has(submitted, l.token@),
    }
}

fn has_token(submitted: &Vec<String>, token: &str) -> (r: bool)
    ensures
        r == submitted_has(submitted@, token@),
{
    let mut i: usize = 0;
    while i < submitted.len()
        invariant
            i <= submitted@.len(),
            forall|k: int| 0 <= k < i ==> (#[trigger] submitted@[k])@ != token@,
        decreases submitted@.len() - i,
    {
        if str_eq(submitted[i].as_str(), token) {
            return true;
        }
        i = i + 1;
    }
    false
}

/// One step of the lock gate: the lock found (or not) on the resource
/// (`is_self`) or on one of its ancestors. The check runs over the resource
/// and then each ancestor up to the root, and refuses with 423 at the first
/// lock that blocks.
pub fn lock_check_step(lock: &Option<LockInfo>, is_self: bool, submitted: &Vec<String>) -> (r: Result<
    (),
    DavError,
>)
    ensures
        spec_lock_blocks(*lock, is_self, submitted@) ==> r == Err::<(), DavError>(DavError::Locked),
        !spec_lock_blocks(*lock, is_self, submitted@) ==> r is Ok,
{
    match lock {
        None => Ok(()),
        Some(l) => {
            let applies = is_self || str_eq(l.depth.as_str(), "infinity");
            if applies && !has_token(submitted, l.token.as_str()) {
                Err(DavError::Locked)
            } else {
                Ok(())
            }
        },
    }
}

/// The outcome of the lock gate over the lock-store lookups of the
/// resource (first) and of its ancestors up to the root, from position
/// `start` on: the first failed lookup, or 423 at the first lock that
/// blocks, or success.
pub open spec fn spec_lock_check(
    lookups: Seq<Result<Option<LockInfo>, DavError>>,
    submitted: Seq<String>,
    start: int,
) -> Result<(), DavError>
    decreases lookups.len() - start,
{
    if start < 0 || start >= lookups.len() {
        Ok(())
    } else {
        match lookups[start] {
            Err(e) => Err(e),
            Ok(l) => if spec_lock_blocks(l, start == 0, submitted) {
                Err(DavError::Locked)
            } else {
                spec_lock_check(lookups, submitted, start + 1)
            },
        }
    }
}

/// The lock gate of a mutation, over the lookups of the resource (first)
/// and of each ancestor up to the root, in that order.
#[verifier::loop_isolation(false)]
pub fn lock_check(lookups: Vec<Result<Option<LockInfo>, DavError>>, submitted: &Vec<String>) -> (r:
    Result<(), DavError>)
    ensures
        r == spec_lock_check(lookups@, submitted@, 0),
{
    let ghost all = lookups@;
    let n: usize = lookups.len();
    let mut rest = lookups;
    let mut i: usize = 0;
    while rest.len() > 0
        invariant
            all.len() == n,
            i <= all.len(),
            rest@ == all.subrange(i as int, all.len() as int),
            spec_lock_check(all, submitted@, 0) == spec_lock_check(all, submitted@, i as int),
        decreases rest@.len(),
    {
        assert(rest@.len() == all.len() - i);
        let item = rest.remove(0);
        assert(item == all[i as int]);
        match item {
            Err(e) => {
                assert(spec_lock_check(all, submitted@, i as int) == Err::<(), DavError>(e));
                return Err(e);
            },
            Ok(l) => {
                match lock_check_step(&l, i == 0, submitted) {
                    Err(e) => {
                        assert(spec_lock_check(all, submitted@, i as int) == Err::<(), DavError>(
                            DavError::Locked,
                        ));
                        return Err(e);
                    },
                    Ok(()) => {},
                }
            },
        }
        assert(rest@ =~= all.subrange(i + 1, all.len() as int));
        i = i + 1;
    }
    Ok(())
}

/// Lookups that all succeed without a blocking lock leave the outcome to
/// the positions after them.
proof fn lemma_lock_check_skip(
    lookups: Seq<Result<Option<LockInfo>, DavError>>,
    submitted: Seq<String>,
    start: int,
    k: int,
)
    requires
        0 <= start <= k <= lookups.len(),
        forall|j: int| start <= j < k ==> (#[trigger] lookups[j] matches Ok(l) && !spec_lock_blocks(
            l,
            j == 0,
            submitted,
        )),
    ensures
        spec_lock_check(lookups, submitted, start) == spec_lock_check(lookups, submitted, k),
    decreases k - start,
{
    if start < k {
        assert(lookups[start] matches Ok(l) && !spec_lock_blocks(l, start == 0, submitted));
        lemma_lock_check_skip(lookups, submitted, start + 1, k);
    }
}

/// The lock check over the lookups of a resource (position 0) and of its
/// ancestors up to the root (positions 1 on), at every depth of the tree:
/// - when every lookup succeeds and no lock blocks, the mutation passes;
/// - otherwise the first position that fails or blocks decides: its lookup
///   error, or 423 `Locked`;
/// - in particular, when all positions before `k` found no lock, an
///   ancestor at any `k >= 1` holding a depth-infinity lock whose token was
///   not submitted refuses the mutation with 423, as does any lock on the
///   resource itself whose token was not submitted.
pub proof fn lemma_lock_check_outcome(
    lookups: Seq<Result<Option<LockInfo>, DavError>>,
    submitted: Seq<String>,
    k: int,
)
    requires
        0 <= k <= lookups.len(),
    ensures
        k == lookups.len() && (forall|j: int| 0 <= j < k ==> (#[trigger] lookups[j] matches Ok(l)
            && !spec_lock_blocks(l, j == 0, submitted))) ==> spec_lock_check(lookups, submitted, 0)
            == Ok::<(), DavError>(()),
        k < lookups.len() && (forall|j: int| 0 <= j < k ==> (#[trigger] lookups[j] matches Ok(l)
            && !spec_lock_blocks(l, j == 0, submitted))) ==> match lookups[k] {
            Err(e) => spec_lock_check(lookups, submitted, 0) == Err::<(), DavError>(e),
            Ok(l) => spec_lock_blocks(l, k == 0, submitted) ==> spec_lock_check(lookups, submitted, 0)
                == Err::<(), DavError>(DavError::Locked),
        },
        k < lookups.len() && (forall|j: int| 0 <= j < k ==> #[trigger] lookups[j] == Ok::<
            Option<LockInfo>,
            DavError,
        >(None)) && (lookups[k] matches Ok(Some(l)) && (k == 0 || l.depth@ == "infinity"@)
            && !submitted_has(submitted, l.token@)) ==> spec_lock_check(lookups, submitted, 0)
            == Err::<(), DavError>(DavError::Locked),
{
    if forall|j: int| 0 <= j < k ==> (#[trigger] lookups[j] matches Ok(l) && !spec_lock_blocks(
        l,
        j == 0,
        submitted,
    )) {
        lemma_lock_check_skip(lookups, submitted, 0, k);
    }
    if forall|j: int| 0 <= j < k ==> #[trigger] lookups[j] == Ok::<Option<LockInfo>, DavError>(None) {
        assert forall|j: int| 0 <= j < k implies (#[trigger] lookups[j] matches Ok(l)
            && !spec_lock_blocks(l, j == 0, submitted)) by {
            assert(lookups[j] == Ok::<Option<LockInfo>, DavError>(None));
        }
        lemma_lock_check_skip(lookups, submitted, 0, k);
    }
}

/// An ancestor locked with depth 0 never blocks a descendant.
pub proof fn lemma_depth_zero_ancestor_never_blocks(l: LockInfo, submitted: Seq<String>)
    requires
        l.depth@ == "0"@,
    ensures
        !spec_lock_blocks(Some(l), false, submitted),
{
    reveal_strlit("0");
    reveal_strlit("infinity");
    assert(l.depth@.len() != "infinity"@.len());
}

/// The depth a `LOCK` takes: `Depth` 0 or 1 lock the resource only (`0`),
/// infinity its subtree (`infinity`). The default is 0; a malformed header
/// is a bad request.
pub fn lock_depth(headers: &HeaderMap) -> (r: Result<&'static str, DavError>)
    ensures
        match spec_parse_depth(headers@, Depth::Zero) {
            Ok(Depth::Infinity) => r matches Ok(s) && s@ == "infinity"@,
            Ok(_) => r matches Ok(s) && s@ == "0"@,
            Err(m) => r matches Err(DavError::BadRequest(n)) && n@ == m,
        },
{
    match parse_depth(headers, Depth::Zero) {
        Ok(Depth::Infinity) => Ok("infinity"),
        Ok(_) => Ok("0"),
        Err(e) => Err(e),
    }
}

/// Whether a token has the form `urn:uuid:<hyphenated lowercase uuid>`.
pub open spec fn is_lock_token(t: Seq<char>) -> bool {
    t.len() == 45 && t.subrange(0, 9) == "urn:uuid:"@ && is_hyphenated_uuid(t.subrange(9, 45))
}

/// A lock token is a valid header value inside angle brackets.
pub proof fn lemma_lock_token_header_ok(t: Seq<char>)
    requires
        is_lock_token(t),
    ensures
        spec_header_value_ok(seq!['<'] + t + seq!['>']),
{
    reveal_strlit("urn:uuid:");
    let h = seq!['<'] + t + seq!['>'];
    assert forall|i: int| 0 <= i < h.len() implies crate::codec::header_value_char_ok(#[trigger] h[i]) by {
        if 1 <= i < 10 {
            assert(h[i] == t.subrange(0, 9)[i - 1]);
        } else if 10 <= i < 46 {
            assert(h[i] == t.subrange(9, 45)[i - 10]);
            assert(is_hyphenated_uuid(t.subrange(9, 45)));
        }
    }
}

/// A fresh lock token: `urn:uuid:` and a random UUID.
pub fn new_lock_token() -> (r: String)
    ensures
        is_lock_token(r@),
{
    let u = uuid_v4_text();
    let r = concat("urn:uuid:", u.as_str());
    proof {
        reveal_strlit("urn:uuid:");
        assert(r@.subrange(0, 9) =~= "urn:uuid:"@);
        assert(r@.subrange(9, 45) =~= u@);
    }
    r
}

/// The owner blob of a `LOCK`: the request body as text when it is UTF-8
/// (kept opaque, never parsed); a body that could not be read is a bad
/// request (`lock body: <reason>`).
pub fn lock_owner(body: Result<Vec<u8>, String>) -> (r: Result<Option<String>, DavError>)
    ensures
        match body {
            Err(e) => r matches Err(DavError::BadRequest(m)) && m@ == "lock body: "@ + e@,
            Ok(b) => r matches Ok(o) && (o is Some <==> valid_utf8(b@)) && (o matches Some(s) ==> s@
                == decode_utf8(b@)),
        },
{
    match body {
        Err(e) => Err(DavError::BadRequest(concat("lock body: ", e.as_str()))),
        Ok(b) => Ok(string_from_utf8(b.as_slice())),
    }
}

/// The lock discovery of a granted lock.
pub open spec fn lock_props(depth: Seq<char>, ttl_secs: i64, token: Seq<char>, href: Seq<char>) -> Seq<char> {
    leaf("d:locktype"@, seq![]) + leaf("d:lockscope"@, seq![]) + leaf("d:depth"@, depth) + leaf(
        "d:timeout"@,
        "Second-"@ + signed_decimal(ttl_secs as int),
    ) + leaf("d:locktoken"@, token) + leaf("d:lockroot"@, href)
}

/// The href of a locked resource: `/remote.php/dav/files/<uid><path>`.
pub open spec fn lock_href(uid: Seq<char>, user_path: Seq<char>) -> Seq<char> {
    "/remote.php/dav/files/"@ + uid + user_path
}

/// The body of a granted lock.
pub open spec fn spec_lock_body(uid: Seq<char>, user_path: Seq<char>, depth: Seq<char>, ttl_secs: i64, token: Seq<char>) -> Seq<char> {
    multistatus_doc(
        response_xml(
            lock_href(uid, user_path),
            propstat_xml(
                "HTTP/1.1 200 OK"@,
                lock_props(depth, ttl_secs, token, lock_href(uid, user_path)),
            ),
        ),
    )
}

/// The reply to a granted lock: 200, an XML lock discovery, and the token
/// in `Lock-Token: <token>`.
pub fn lock_reply(uid: &str, user_path: &str, depth: &str, ttl_secs: i64, token: &str) -> (r: Reply)
    requires
        spec_header_value_ok(seq!['<'] + token@ + seq!['>']),
    ensures
        r.status == 200,
        r.body@ == spec_lock_body(uid@, user_path@, depth@, ttl_secs, token@),
        headers_view(r.headers@) == seq![
            ("content-type"@, "application/xml; charset=utf-8"@),
            ("lock-token"@, seq!['<'] + token@ + seq!['>']),
        ],
{
    let mut href = to_owned("/remote.php/dav/files/");
    push_str(&mut href, uid);
    push_str(&mut href, user_path);
    proof {
        reveal_strlit("/remote.php/dav/files/");
        reveal_strlit("Second-");
        reveal_strlit("HTTP/1.1 200 OK");
    }
    assert(href@ =~= lock_href(uid@, user_path@));
    let mut d = XmlDoc::new();
    d.response_start(href.as_str());
    d.propstat_start();
    let ghost p0 = d@;
    d.leaf("d:locktype", "");
    d.leaf("d:lockscope", "");
    d.leaf("d:depth", depth);
    let mut timeout = to_owned("Second-");
    push_chars(&mut timeout, &fmt_i64(ttl_secs));
    d.leaf("d:timeout", timeout.as_str());
    d.leaf("d:locktoken", token);
    d.leaf("d:lockroot", href.as_str());
    proof {
        reveal_strlit("");
    }
    assert(d@ =~= p0 + lock_props(depth@, ttl_secs, token@, href@));
    d.propstat_end("HTTP/1.1 200 OK");
    d.end("d:response");
    let body = multistatus(d.into_string().as_str());
    let mut lt = String::new();
    push_char(&mut lt, '<');
    push_str(&mut lt, token);
    push_char(&mut lt, '>');
    assert(lt@ =~= seq!['<'] + token@ + seq!['>']);
    let mut hs: Vec<(String, String)> = Vec::new();
    hs.push((to_owned("content-type"), to_owned("application/xml; charset=utf-8")));
    hs.push((to_owned("lock-token"), lt));
    let reply = Reply { status: 200, headers: hs, body };
    assert(headers_view(reply.headers@) =~= seq![
        ("content-type"@, "application/xml; charset=utf-8"@),
        ("lock-token"@, seq!['<'] + token@ + seq!['>']),
    ]);
    reply
}

/// A `LOCK` on a resource that is already locked needs the held lock's
/// token among the submitted ones (else 423).
pub fn lock_acquire_check(current: &Option<LockInfo>, submitted: &Vec<String>) -> (r: Result<(), DavError>)
    ensures
        spec_lock_blocks(*current, true, submitted@) ==> r == Err::<(), DavError>(DavError::Locked),
        !spec_lock_blocks(*current, true, submitted@) ==> r is Ok,
{
    lock_check_step(current, true, submitted)
}

/// The reply to an `UNLOCK` (`token_given`: the request names a lock token;
/// `released`: the store removed a lock of the resource with it): 409
/// unless both, otherwise 204.
pub fn release(token_given: bool, released: bool) -> (r: Result<Reply, DavError>)
    ensures
        !token_given || !released ==> r == Err::<Reply, DavError>(DavError::Conflict),
        token_given && released ==> (r matches Ok(x) && x.status == 204 && x.body@.len() == 0
            && headers_view(x.headers@) == text_plain()),
{
    if !token_given || !released {
        return Err(DavError::Conflict);
    }
    Ok(text_reply(204, String::new()))
}


// ---------------------------------------------------------------- LOCK

/// Where a `LOCK` stands.
#[derive(Debug, Clone, Copy, PartialEq, Eq, Structural)]
pub enum AcquirePhase {
    /// Waiting for the resource's metadata (it must exist).
    Statting,
    /// Waiting for the lock the resource holds now, if any.
    LookingUp,
    /// Waiting for the request body (the lock owner).
    ReadingBody,
    /// Waiting for the store to record the lock.
    Acquiring,
    Done,
}

/// What the view, the lock store and the request said.
#[derive(Debug)]
pub enum AcquireEvent {
    Statted(Result<(), DavError>),
    Found(Result<Option<LockInfo>, DavError>),
    /// The body, or why it could not be read.
    BodyRead(Result<Vec<u8>, String>),
    Acquired(Result<(), DavError>),
}

/// What to do next.
#[derive(Debug)]
pub enum AcquireAction {
    Stat,
    /// Look up the lock held under this key.
    LookUp(String),
    ReadBody,
    /// Record an exclusive lock: key, token, depth, owner blob, and the
    /// expiry (`now + ttl`, computed by the store's caller).
    Acquire { key: String, token: String, depth: String, owner: Option<String> },
    Fail(DavError),
    Respond(Reply),
}

/// A `LOCK` on `user_path` of `uid`, with the tokens the request submits,
/// the timeout it asks for, and the fresh token it would be granted.
#[derive(Debug)]
pub struct AcquireFlow {
    pub phase: AcquirePhase,
    pub uid: String,
    pub user_path: String,
    pub submitted: Vec<String>,
    /// The lock depth the request asks for (`0` or `infinity`), or the bad
    /// request its `Depth` header makes.
    pub depth: Result<String, String>,
    pub ttl_secs: i64,
    pub token: String,
}

/// Whether an event is the one the phase waits for.
pub open spec fn acquire_event_fits(phase: AcquirePhase, ev: AcquireEvent) -> bool {
    match phase {
        AcquirePhase::Statting => ev is Statted,
        AcquirePhase::LookingUp => ev is Found,
        AcquirePhase::ReadingBody => ev is BodyRead,
        AcquirePhase::Acquiring => ev is Acquired,
        AcquirePhase::Done => false,
    }
}

impl AcquireFlow {
    /// Start a `LOCK`: the resource is looked up first; its `Depth` is read
    /// now and judged once the held lock allows the request.
    pub fn start(uid: &str, user_path: &str, headers: &HeaderMap, submitted: Vec<String>, ttl_secs: i64) -> (r: (AcquireFlow, AcquireAction))
        ensures
            r.0.phase == AcquirePhase::Statting,
            r.1 is Stat,
            r.0.uid@ == uid@,
            r.0.user_path@ == user_path@,
            r.0.submitted@ == submitted@,
            r.0.ttl_secs == ttl_secs,
            is_lock_token(r.0.token@),
            match spec_parse_depth(headers@, Depth::Zero) {
                Err(m) => r.0.depth matches Err(n) && n@ == m,
                Ok(d) => r.0.depth matches Ok(x) && x@ == if d == Depth::Infinity {
                    "infinity"@
                } else {
                    "0"@
                },
            },
    {
        let depth = match lock_depth(headers) {
            Ok(d) => Ok(to_owned(d)),
            Err(DavError::BadRequest(m)) => Err(m),
            Err(_) => Err(String::new()),
        };
        let token = new_lock_token();
        (
            AcquireFlow {
                phase: AcquirePhase::Statting,
                uid: to_owned(uid),
                user_path: to_owned(user_path),
                submitted,
                depth,
                ttl_secs,
                token,
            },
            AcquireAction::Stat,
        )
    }

    /// Advance on an event: a missing resource or a store failure ends the
    /// request with its error; a lock held under another token is 423; an
    /// unreadable body is a bad request; once recorded, the lock discovery
    /// is answered.
    pub fn step(&mut self, ev: AcquireEvent) -> (r: AcquireAction)
        requires
            acquire_event_fits(old(self).phase, ev),
            is_lock_token(old(self).token@),
            (old(self).phase == AcquirePhase::ReadingBody || old(self).phase
                == AcquirePhase::Acquiring) ==> old(self).depth is Ok,
        ensures
            final(self).uid == old(self).uid,
            final(self).user_path == old(self).user_path,
            final(self).token == old(self).token,
            final(self).depth == old(self).depth,
            final(self).ttl_secs == old(self).ttl_secs,
            final(self).submitted == old(self).submitted,
            match ev {
                AcquireEvent::Statted(Err(e)) | AcquireEvent::Found(Err(e)) | AcquireEvent::Acquired(
                    Err(e),
                ) => final(self).phase == AcquirePhase::Done && r == AcquireAction::Fail(e),
                AcquireEvent::Statted(Ok(())) => final(self).phase == AcquirePhase::LookingUp && (
                r matches AcquireAction::LookUp(k) && k@ == spec_lock_key(old(self).uid@, old(self).user_path@)),
                AcquireEvent::Found(Ok(l)) => if spec_lock_blocks(l, true, old(self).submitted@) {
                    final(self).phase == AcquirePhase::Done && r == AcquireAction::Fail(DavError::Locked)
                } else {
                    match old(self).depth {
                        Err(m) => final(self).phase == AcquirePhase::Done && (
                        r matches AcquireAction::Fail(DavError::BadRequest(n)) && n@ == m@),
                        Ok(_) => final(self).phase == AcquirePhase::ReadingBody && r is ReadBody,
                    }
                },
                AcquireEvent::BodyRead(Err(e)) => final(self).phase == AcquirePhase::Done && (
                r matches AcquireAction::Fail(DavError::BadRequest(m)) && m@ == "lock body: "@ + e@),
                AcquireEvent::BodyRead(Ok(b)) => final(self).phase == AcquirePhase::Acquiring && (
                r matches AcquireAction::Acquire { key, token, depth, owner } && key@ == spec_lock_key(
                    old(self).uid@,
                    old(self).user_path@,
                ) && token@ == old(self).token@ && (old(self).depth matches Ok(x) ==> depth@ == x@) && (owner is Some
                    <==> valid_utf8(b@)) && (owner matches Some(o) ==> o@ == decode_utf8(b@))),
                AcquireEvent::Acquired(Ok(())) => final(self).phase == AcquirePhase::Done && (
                r matches AcquireAction::Respond(x) && x.status == 200 && (old(self).depth matches Ok(
                    d,
                ) ==> x.body@ == spec_lock_body(
                    old(self).uid@,
                    old(self).user_path@,
                    d@,
                    old(self).ttl_secs,
                    old(self).token@,
                )) && headers_view(x.headers@) == seq![
                    ("content-type"@, "application/xml; charset=utf-8"@),
                    ("lock-token"@, seq!['<'] + old(self).token@ + seq!['>']),
                ]),
            },
    {
        match ev {
            AcquireEvent::Statted(Err(e)) | AcquireEvent::Found(Err(e)) | AcquireEvent::Acquired(
                Err(e),
            ) => {
                self.phase = AcquirePhase::Done;
                AcquireAction::Fail(e)
            },
            AcquireEvent::Statted(Ok(())) => {
                self.phase = AcquirePhase::LookingUp;
                AcquireAction::LookUp(lock_key(self.uid.as_str(), self.user_path.as_str()))
            },
            AcquireEvent::Found(Ok(l)) => match lock_acquire_check(&l, &self.submitted) {
                Err(e) => {
                    self.phase = AcquirePhase::Done;
                    AcquireAction::Fail(e)
                },
                Ok(()) => match &self.depth {
                    Err(m) => {
                        self.phase = AcquirePhase::Done;
                        AcquireAction::Fail(DavError::BadRequest(to_owned(m.as_str())))
                    },
                    Ok(_) => {
                        self.phase = AcquirePhase::ReadingBody;
                        AcquireAction::ReadBody
                    },
                },
            },
            AcquireEvent::BodyRead(body) => match lock_owner(body) {
                Err(e) => {
                    self.phase = AcquirePhase::Done;
                    AcquireAction::Fail(e)
                },
                Ok(owner) => {
                    self.phase = AcquirePhase::Acquiring;
                    AcquireAction::Acquire {
                        key: lock_key(self.uid.as_str(), self.user_path.as_str()),
                        token: to_owned(self.token.as_str()),
                        depth: match &self.depth {
                            Ok(d) => to_owned(d.as_str()),
                            Err(_) => String::new(),
                        },
                        owner,
                    }
                },
            },
            AcquireEvent::Acquired(Ok(())) => {
                self.phase = AcquirePhase::Done;
                proof {
                    lemma_lock_token_header_ok(self.token@);
                }
                let depth = match &self.depth {
                    Ok(d) => d.as_str(),
                    Err(_) => "0",
                };
                AcquireAction::Respond(
                    lock_reply(
                        self.uid.as_str(),
                        self.user_path.as_str(),
                        depth,
                        self.ttl_secs,
                        self.token.as_str(),
                    ),
                )
            },
        }
    }
}

} // verus!
