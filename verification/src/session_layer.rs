//! The session middleware's decisions: which token's ephemeral blob a
//! request loads, where the blob is saved once the response is done, and the
//! `Set-Cookie` value a pending cookie mutation turns into. The blob store is
//! the shared cache; its keys are scoped by instance id and token row id.

use crate::auth::{AuthContext, AuthMethod};
use crate::session::{encode_cookie, spec_encode_cookie, Session};
use crate::session::is_lower_hex_of_len;
use crate::text::{decimal, fmt_i64, fmt_u64, push_chars, push_str, signed_decimal, to_owned};
use vstd::prelude::*;

verus! {

/// Name of the session cookie (Nextcloud-compatible).
pub const COOKIE_NAME: &'static str = "oc_sessionPassphrase";

/// Idle lifetime of the ephemeral session blob, in seconds (sliding on save).
pub const SESSION_IDLE_TTL_SECS: u64 = 1800;

/// Pending-cookie action: a handler can stash [`PendingCookie::Install`] to mint
/// a fresh cookie once the response is done, or [`PendingCookie::Destroy`]
/// to clear it.
#[derive(Debug, Clone, PartialEq, Eq)]
pub enum PendingCookie {
    /// Mint a fresh cookie carrying `raw_token` as the opaque payload.
    Install {
        /// Plaintext token to embed (HMAC-signed by the layer).
        raw_token: String,
        /// Auth-token row id this cookie binds to; the session blob is
        /// saved under it so it survives the cookie swap.
        token_id: i64,
        /// `Max-Age` cookie attribute, in seconds.
        max_age_secs: u64,
    },
    /// Emit a `Set-Cookie` that clears the cookie on the client.
    Destroy,
}

/// The token whose blob a request loads: only session-cookie requests have
/// ephemeral state.
pub open spec fn spec_session_token(ctx: Option<AuthContext>) -> Option<i64> {
    match ctx {
        Some(c) => if c.method == AuthMethod::Session {
            Some(c.token_id)
        } else {
            None
        },
        None => None,
    }
}

/// The token id of a session-cookie request (`None` for anonymous and
/// header-authenticated requests).
pub fn session_token(ctx: Option<&AuthContext>) -> (r: Option<i64>)
    ensures
        r == spec_session_token(
            match ctx {
                Some(c) => Some(*c),
                None => None,
            },
        ),
{
    match ctx {
        Some(c) => if c.method == AuthMethod::Session {
            Some(c.token_id)
        } else {
            None
        },
        None => None,
    }
}

/// Where the blob is saved: a freshly set cookie moves it to the new token
/// (login, password-change rotation); a destroyed cookie saves nothing;
/// otherwise it stays under the request's token.
pub fn save_target(pending: &Option<PendingCookie>, request_token: Option<i64>) -> (r: Option<i64>)
    ensures
        r == match pending {
            Some(PendingCookie::Install { token_id, .. }) => Some(*token_id),
            Some(PendingCookie::Destroy) => None,
            None => request_token,
        },
{
    match pending {
        Some(PendingCookie::Install { token_id, .. }) => Some(*token_id),
        Some(PendingCookie::Destroy) => None,
        None => request_token,
    }
}

/// Whose blob is deleted: the request's token, when the cookie is destroyed.
pub fn destroy_target(pending: &Option<PendingCookie>, request_token: Option<i64>) -> (r: Option<i64>)
    ensures
        r == match pending {
            Some(PendingCookie::Destroy) => request_token,
            _ => None,
        },
{
    match pending {
        Some(PendingCookie::Destroy) => request_token,
        _ => None,
    }
}

/// `oc_sessionPassphrase=<value>; Path=/; HttpOnly; SameSite=Lax; Max-Age=<n>`,
/// with `; Secure` when the cookie must only travel over HTTPS.
pub open spec fn spec_set_cookie(value: Seq<char>, secure: bool, max_age: u64) -> Seq<char> {
    "oc_sessionPassphrase="@ + value + "; Path=/; HttpOnly; SameSite=Lax; Max-Age="@ + decimal(
        max_age as nat,
    ) + if secure {
        "; Secure"@
    } else {
        seq![]
    }
}

/// The `Set-Cookie` value that installs a cookie.
pub fn make_set_cookie(value: &str, secure: bool, max_age: u64) -> (r: String)
    ensures
        r@ == spec_set_cookie(value@, secure, max_age),
{
    let mut s = to_owned("oc_sessionPassphrase=");
    push_str(&mut s, value);
    push_str(&mut s, "; Path=/; HttpOnly; SameSite=Lax; Max-Age=");
    push_chars(&mut s, &fmt_u64(max_age));
    if secure {
        push_str(&mut s, "; Secure");
    }
    proof {
        reveal_strlit("; Secure");
        assert(seq![] =~= Seq::<char>::empty());
    }
    assert(s@ =~= spec_set_cookie(value@, secure, max_age));
    s
}

/// The `Set-Cookie` value that clears the cookie (`Max-Age=0`).
pub open spec fn spec_destroy_cookie(secure: bool) -> Seq<char> {
    "oc_sessionPassphrase=; Path=/; HttpOnly; SameSite=Lax; Max-Age=0"@ + if secure {
        "; Secure"@
    } else {
        seq![]
    }
}

/// The `Set-Cookie` value that clears the cookie.
pub fn make_destroy_cookie(secure: bool) -> (r: String)
    ensures
        r@ == spec_destroy_cookie(secure),
{
    let mut s = to_owned("oc_sessionPassphrase=; Path=/; HttpOnly; SameSite=Lax; Max-Age=0");
    if secure {
        push_str(&mut s, "; Secure");
    }
    assert(s@ =~= spec_destroy_cookie(secure));
    s
}

/// The `Set-Cookie` header a pending mutation produces: a signed cookie
/// for `Set`, the clearing cookie for `Destroy`.
pub fn pending_set_cookie(pending: &PendingCookie, secret: &[u8], secure: bool) -> (r: String)
    ensures
        r@ == match pending {
            PendingCookie::Install { raw_token, max_age_secs, .. } => spec_set_cookie(
                spec_encode_cookie(raw_token@, secret@),
                secure,
                *max_age_secs,
            ),
            PendingCookie::Destroy => spec_destroy_cookie(secure),
        },
{
    match pending {
        PendingCookie::Install { raw_token, max_age_secs, .. } => {
            let value = encode_cookie(raw_token.as_str(), secret);
            make_set_cookie(value.as_str(), secure, *max_age_secs)
        },
        PendingCookie::Destroy => make_destroy_cookie(secure),
    }
}

/// The cache key of a token's session blob: `<instance>:session_blob:<token id>`.
pub open spec fn spec_session_key(instance_id: Seq<char>, token_id: i64) -> Seq<char> {
    instance_id + ":session_blob:"@ + signed_decimal(token_id as int)
}

/// The cache key of a token's session blob.
pub fn session_key(instance_id: &str, token_id: i64) -> (r: String)
    ensures
        r@ == spec_session_key(instance_id@, token_id),
{
    let mut s = to_owned(instance_id);
    push_str(&mut s, ":session_blob:");
    push_chars(&mut s, &fmt_i64(token_id));
    s
}


// ---------------------------------------------------------------- store, layer, handle

/// The session-blob store: the cache keys of one instance. Reading and
/// writing the blobs is the cache's work.
#[derive(Debug, Clone)]
pub struct SessionStore {
    pub instance_id: String,
}

impl SessionStore {
    /// A store scoped to an instance id.
    pub fn new(instance_id: &str) -> (r: SessionStore)
        ensures
            r.instance_id@ == instance_id@,
    {
        SessionStore { instance_id: to_owned(instance_id) }
    }

    /// The cache key of a token's blob.
    pub fn key_for_token(&self, token_id: i64) -> (r: String)
        ensures
            r@ == spec_session_key(self.instance_id@, token_id),
    {
        session_key(self.instance_id.as_str(), token_id)
    }
}

/// The session layer: the blob store, the cookie signing secret, and whether
/// cookies are marked `Secure`.
#[derive(Debug, Clone)]
pub struct SessionLayer {
    pub store: SessionStore,
    pub secret: Vec<u8>,
    pub secure: bool,
}

/// The session middleware around an inner service.
#[derive(Debug, Clone)]
pub struct SessionMiddleware<S> {
    pub inner: S,
    pub store: SessionStore,
    pub secret: Vec<u8>,
    pub secure: bool,
}

impl SessionLayer {
    /// A layer over a store, signing cookies with `secret`.
    pub fn new(store: SessionStore, secret: &[u8], secure: bool) -> (r: SessionLayer)
        ensures
            r.store.instance_id@ == store.instance_id@,
            r.secret@ == secret@,
            r.secure == secure,
    {
        let mut k: Vec<u8> = Vec::new();
        let mut i: usize = 0;
        while i < secret.len()
            invariant
                i <= secret@.len(),
                k@ == secret@.subrange(0, i as int),
            decreases secret@.len() - i,
        {
            k.push(secret[i]);
            i = i + 1;
        }
        assert(secret@.subrange(0, i as int) =~= secret@);
        SessionLayer { store, secret: k, secure }
    }

    /// Wrap an inner service.
    pub fn layer<S>(&self, inner: S) -> (r: SessionMiddleware<S>)
        ensures
            r.inner == inner,
            r.store.instance_id@ == self.store.instance_id@,
            r.secret@ == self.secret@,
            r.secure == self.secure,
    {
        let l = SessionLayer::new(SessionStore::new(self.store.instance_id.as_str()), self.secret.as_slice(), self.secure);
        SessionMiddleware { inner, store: l.store, secret: l.secret, secure: l.secure }
    }
}

/// The session the inner service sees. For a session-cookie request
/// (`token` is `Some`) it is the blob loaded for that token; when the load
/// found nothing or failed, a default session (fresh random CSRF token, no
/// user). Without a token nothing is loaded (`loaded` is not looked at) and
/// the session is a new one.
pub fn initial_session<E>(token: Option<i64>, loaded: Result<Option<Session>, E>) -> (r: Session)
    ensures
        match (token, loaded) {
            (Some(_), Ok(Some(s))) => r == s,
            _ => r.user_id is None && is_lower_hex_of_len(r.csrf_token@, 64) && !r.two_factor_passed,
        },
{
    match token {
        Some(_) => match loaded {
            Ok(Some(s)) => s,
            _ => Session::default(),
        },
        None => Session::new(),
    }
}

/// A copy of a session, field by field.
pub fn copy_session(s: &Session) -> (r: Session)
    ensures
        r.user_id is Some <==> s.user_id is Some,
        r.user_id matches Some(a) ==> (s.user_id matches Some(b) && a@ == b@),
        r.csrf_token@ == s.csrf_token@,
        r.last_activity == s.last_activity,
        r.two_factor_passed == s.two_factor_passed,
{
    Session {
        user_id: match &s.user_id {
            Some(u) => Some(to_owned(u.as_str())),
            None => None,
        },
        csrf_token: to_owned(s.csrf_token.as_str()),
        last_activity: s.last_activity,
        two_factor_passed: s.two_factor_passed,
    }
}

/// The per-request session handle a handler works on: the token the blob
/// belongs to (session-cookie requests only), the session, and the cookie
/// mutation to apply once the response is done.
#[derive(Debug)]
pub struct SessionHandle {
    pub token_id: Option<i64>,
    pub session: Session,
    pub pending_cookie: Option<PendingCookie>,
}

impl SessionHandle {
    /// A handle over a loaded (or fresh) session, with no pending cookie.
    pub fn new(token_id: Option<i64>, session: Session) -> (r: SessionHandle)
        ensures
            r.token_id == token_id,
            r.session == session,
            r.pending_cookie is None,
    {
        SessionHandle { token_id, session, pending_cookie: None }
    }

    /// A copy of the session.
    pub fn read(&self) -> (r: Session)
        ensures
            r.user_id is Some <==> self.session.user_id is Some,
            r.user_id matches Some(a) ==> (self.session.user_id matches Some(b) && a@ == b@),
            r.csrf_token@ == self.session.csrf_token@,
            r.last_activity == self.session.last_activity,
            r.two_factor_passed == self.session.two_factor_passed,
    {
        copy_session(&self.session)
    }

    /// A copy of the session; always available here (the handle is not
    /// shared).
    pub fn try_read_snapshot(&self) -> (r: Option<Session>)
        ensures
            r matches Some(x) && x.csrf_token@ == self.session.csrf_token@ && x.last_activity
                == self.session.last_activity && x.two_factor_passed == self.session.two_factor_passed,
    {
        Some(copy_session(&self.session))
    }

    /// Apply a change to the session.
    pub fn mutate<F: FnOnce(Session) -> Session>(&mut self, f: F)
        requires
            f.requires((old(self).session,)),
        ensures
            f.ensures((old(self).session,), final(self).session),
            final(self).token_id == old(self).token_id,
            final(self).pending_cookie == old(self).pending_cookie,
    {
        let mut taken = Session {
            user_id: None,
            csrf_token: String::new(),
            last_activity: 0,
            two_factor_passed: false,
        };
        std::mem::swap(&mut taken, &mut self.session);
        self.session = f(taken);
    }

    /// Stash the cookie mutation to apply once the response is done.
    pub fn set_pending_cookie(&mut self, p: PendingCookie)
        ensures
            final(self).pending_cookie == Some(p),
            final(self).token_id == old(self).token_id,
            final(self).session == old(self).session,
    {
        self.pending_cookie = Some(p);
    }
}

} // verus!
