//! Authentication: the per-request `AuthContext`, the extractors handlers
//! read it through, and the decisions of the authentication middleware.
//!
//! The middleware tries three arms, first hit wins: `Authorization: Bearer`,
//! `Authorization: Basic`, then the session cookie. The header arms fail
//! loud (a present but invalid credential is answered 401); the cookie arm
//! fails quiet (a bad cookie is treated as no cookie). Looking a token up in
//! the app-password store happens between these decisions, outside this crate;
//! its answer comes back as a [`TokenRow`].

use crate::codec::{b64std_decode, b64std_decoding, ct_eq};
use crate::dav_error::Reply;
use crate::headers::{header_lookup, lemma_lower_literal, HeaderMap};
use crate::session::{decode_cookie, spec_decode_cookie};
use crate::text::{split_all, chars_of, has_prefix, slice_chars, split_once, split_once_chars, starts_with, string_from, to_owned, trim, trim_chars};
use vstd::prelude::*;
use vstd::utf8::{decode_utf8, encode_utf8, valid_utf8};

verus! {

/// How a request was authenticated.
#[derive(Debug, Clone, Copy, PartialEq, Eq, Structural)]
pub enum AuthMethod {
    /// Cookie-backed browser session.
    Session,
    /// `Authorization: Bearer <token>`.
    Bearer,
    /// `Authorization: Basic <b64(uid:token)>`.
    Basic,
}

/// Per-request authentication context, attached to the request when one of
/// the three auth arms succeeds.
#[derive(Debug, Clone)]
pub struct AuthContext {
    /// Authenticated user id.
    pub user_id: String,
    /// Which arm matched.
    pub method: AuthMethod,
    /// Primary key of the backing auth-token row.
    pub token_id: i64,
    /// What the user typed at login (Session) or the row's login name
    /// (Bearer / Basic).
    pub login_name: String,
    /// `remember` checkbox state at login. Only meaningful for Session tokens.
    pub remember: bool,
}

/// Kind of an auth-token row.
#[derive(Debug, Clone, Copy, PartialEq, Eq, Structural)]
pub enum TokenKind {
    /// Minted at login for a browser session.
    Session,
    /// A long-lived app password (Bearer / Basic).
    AppPassword,
}

/// An auth-token row as the app-password store returns it for a verified token.
#[derive(Debug, Clone)]
pub struct TokenRow {
    pub id: i64,
    pub uid: String,
    pub login_name: String,
    pub remember: bool,
    pub kind: TokenKind,
}

/// Extractor that resolves the authenticated user from the request's
/// `AuthContext`. Fails with [`UnauthorizedRejection`] (401) when the auth
/// middleware did not attach one.
#[derive(Debug, Clone)]
pub struct AuthenticatedUser {
    /// Identifier of the authenticated user.
    pub user_id: String,
    /// Method used to authenticate the request.
    pub auth_method: AuthMethod,
}

/// Rejection produced when `AuthenticatedUser` fails to resolve; renders as HTTP 401.
#[derive(Debug, Clone, Copy, PartialEq, Eq, Structural)]
pub struct UnauthorizedRejection;

/// `Option<AuthenticatedUser>`-style extractor for handlers that serve both
/// anonymous and authenticated callers.
#[derive(Debug, Clone)]
pub struct OptionalUser(pub Option<AuthenticatedUser>);

/// Extractor for an authenticated user who is in the `admin` group.
#[derive(Debug, Clone)]
pub struct AdminUser(pub AuthenticatedUser);

/// Why an admin-only request was refused.
#[derive(Debug, Clone, PartialEq, Eq)]
pub enum AdminRejection {
    /// No authenticated user, or a user id that is not valid: 401.
    Unauthorized,
    /// Authenticated but not in the `admin` group: 403.
    Forbidden,
    /// The group lookup failed; carries the backend's message: 500.
    Backend(String),
}

impl UnauthorizedRejection {
    /// The 401 reply with body `unauthorized`.
    pub fn into_reply(self) -> (r: Reply)
        ensures
            r.status == 401,
            r.body@ == "unauthorized"@,
            crate::dav_error::headers_view(r.headers@) == crate::dav_error::text_plain(),
    {
        crate::dav_error::text_reply(401, to_owned("unauthorized"))
    }
}

impl AuthenticatedUser {
    /// Resolve from the request's auth context: its user id and method.
    pub fn from_context(ctx: Option<&AuthContext>) -> (r: Result<
        AuthenticatedUser,
        UnauthorizedRejection,
    >)
        ensures
            match ctx {
                None => r is Err,
                Some(c) => r matches Ok(u) && u.user_id@ == c.user_id@ && u.auth_method
                    == c.method,
            },
    {
        match ctx {
            None => Err(UnauthorizedRejection),
            Some(c) => Ok(
                AuthenticatedUser { user_id: to_owned(c.user_id.as_str()), auth_method: c.method },
            ),
        }
    }
}

impl OptionalUser {
    /// `Some` user exactly when the request carries an auth context.
    pub fn from_context(ctx: Option<&AuthContext>) -> (r: OptionalUser)
        ensures
            match ctx {
                None => r.0 is None,
                Some(c) => r.0 matches Some(u) && u.user_id@ == c.user_id@ && u.auth_method
                    == c.method,
            },
    {
        match AuthenticatedUser::from_context(ctx) {
            Ok(u) => OptionalUser(Some(u)),
            Err(_) => OptionalUser(None),
        }
    }
}

impl AdminUser {
    /// The admin decision once the user id has been validated and the
    /// group store consulted: `uid_valid` tells whether the user id is a
    /// valid user id, `is_admin` is the store's answer (or its error).
    pub fn decide(
        authed: Result<AuthenticatedUser, UnauthorizedRejection>,
        uid_valid: bool,
        is_admin: Result<bool, String>,
    ) -> (r: Result<AdminUser, AdminRejection>)
        ensures
            match authed {
                Err(_) => r == Err::<AdminUser, AdminRejection>(AdminRejection::Unauthorized),
                Ok(u) => if !uid_valid {
                    r == Err::<AdminUser, AdminRejection>(AdminRejection::Unauthorized)
                } else {
                    match is_admin {
                        Err(m) => r matches Err(AdminRejection::Backend(n)) && n@ == m@,
                        Ok(false) => r == Err::<AdminUser, AdminRejection>(
                            AdminRejection::Forbidden,
                        ),
                        Ok(true) => r matches Ok(a) && a.0 == u,
                    }
                },
            },
    {
        let u = match authed {
            Err(_) => return Err(AdminRejection::Unauthorized),
            Ok(u) => u,
        };
        if !uid_valid {
            return Err(AdminRejection::Unauthorized);
        }
        match is_admin {
            Err(m) => Err(AdminRejection::Backend(m)),
            Ok(false) => Err(AdminRejection::Forbidden),
            Ok(true) => Ok(AdminUser(u)),
        }
    }
}

// ---------------------------------------------------------------- middleware arms

/// What an `Authorization` arm found in the header.
#[derive(Debug, Clone)]
pub enum ArmInput {
    /// The arm does not apply; try the next one.
    NoInput,
    /// The header is for this arm but unusable; answer 401.
    Rejected,
    /// A token to verify, and for Basic the user id it must belong to.
    Credentials { token: String, expected_uid: Option<String> },
}

/// Outcome of one arm after the token was looked up.
#[derive(Debug, Clone)]
pub enum ArmOutcome {
    Authenticated(AuthContext),
    /// The arm's input was present but invalid; respond 401.
    HeaderRejected,
    /// The arm had nothing to offer; continue to the next arm.
    NoInput,
}

/// Whether `h` starts with one of two scheme prefixes.
pub open spec fn has_scheme(h: Seq<char>, a: Seq<char>, b: Seq<char>) -> bool {
    has_prefix(h, a) || has_prefix(h, b)
}

/// The Bearer arm's reading of the `Authorization` header.
pub open spec fn spec_bearer_input(header: Option<Seq<char>>) -> Option<Option<Seq<char>>> {
    match header {
        Some(h) => if has_scheme(h, "Bearer "@, "bearer "@) {
            let raw = trim(h.subrange(7, h.len() as int));
            if raw.len() == 0 {
                Some(None)
            } else {
                Some(Some(raw))
            }
        } else {
            None
        },
        None => None,
    }
}

/// The view of an arm input: `None` for no input, `Some(None)` for a
/// rejected header, `Some(Some((token, expected uid)))` for credentials.
pub open spec fn arm_input_view(a: ArmInput) -> Option<Option<(Seq<char>, Option<Seq<char>>)>> {
    match a {
        ArmInput::NoInput => None,
        ArmInput::Rejected => Some(None),
        ArmInput::Credentials { token, expected_uid } => Some(
            Some(
                (
                    token@,
                    match expected_uid {
                        Some(u) => Some(u@),
                        None => None,
                    },
                ),
            ),
        ),
    }
}

/// Bearer arm: a header starting with `Bearer ` (or `bearer `) carries the
/// token after the scheme, trimmed; an empty token is rejected.
pub fn bearer_input(header: Option<&str>) -> (r: ArmInput)
    ensures
        arm_input_view(r) == (match spec_bearer_input(
            match header {
                Some(h) => Some(h@),
                None => None,
            },
        ) {
            None => None,
            Some(None) => Some(None),
            Some(Some(t)) => Some(Some((t, None::<Seq<char>>))),
        }),
{
    proof {
        reveal_strlit("Bearer ");
        reveal_strlit("bearer ");
    }
    let h = match header {
        Some(h) => h,
        None => return ArmInput::NoInput,
    };
    let hc = chars_of(h);
    let p1 = chars_of("Bearer ");
    let p2 = chars_of("bearer ");
    if !(starts_with(&hc, &p1) || starts_with(&hc, &p2)) {
        return ArmInput::NoInput;
    }
    let rest = slice_chars(&hc, 7, hc.len());
    let raw = trim_chars(&rest);
    if raw.len() == 0 {
        return ArmInput::Rejected;
    }
    ArmInput::Credentials { token: string_from(&raw), expected_uid: None }
}

/// The Basic arm's reading of the `Authorization` header: the trimmed
/// base64 (standard alphabet) after `Basic `/`basic ` must decode to UTF-8
/// text `<uid>:<token>` with a non-empty token.
pub open spec fn spec_basic_input(header: Option<Seq<char>>) -> Option<
    Option<(Seq<char>, Seq<char>)>,
> {
    match header {
        Some(h) => if has_scheme(h, "Basic "@, "basic "@) {
            match b64std_decoding(trim(h.subrange(6, h.len() as int))) {
                None => Some(None),
                Some(bytes) => if !valid_utf8(bytes) {
                    Some(None)
                } else {
                    match split_once(decode_utf8(bytes), ':') {
                        None => Some(None),
                        Some((uid, token)) => if token.len() == 0 {
                            Some(None)
                        } else {
                            Some(Some((token, uid)))
                        },
                    }
                },
            }
        } else {
            None
        },
        None => None,
    }
}

/// Basic arm: decode `Basic <b64(uid:token)>`; any failure to decode, a
/// missing `:` or an empty token rejects the header.
pub fn basic_input(header: Option<&str>) -> (r: ArmInput)
    ensures
        arm_input_view(r) == (match spec_basic_input(
            match header {
                Some(h) => Some(h@),
                None => None,
            },
        ) {
            None => None,
            Some(None) => Some(None),
            Some(Some((t, u))) => Some(Some((t, Some(u)))),
        }),
{
    proof {
        reveal_strlit("Basic ");
        reveal_strlit("basic ");
    }
    let h = match header {
        Some(h) => h,
        None => return ArmInput::NoInput,
    };
    let hc = chars_of(h);
    let p1 = chars_of("Basic ");
    let p2 = chars_of("basic ");
    if !(starts_with(&hc, &p1) || starts_with(&hc, &p2)) {
        return ArmInput::NoInput;
    }
    let rest = slice_chars(&hc, 6, hc.len());
    let b64 = string_from(&trim_chars(&rest));
    let decoded = match b64std_decode(b64.as_str()) {
        Some(d) => d,
        None => return ArmInput::Rejected,
    };
    let s = match crate::codec::string_from_utf8(decoded.as_slice()) {
        Some(s) => s,
        None => return ArmInput::Rejected,
    };
    let sc = chars_of(s.as_str());
    match split_once_chars(&sc, ':') {
        None => ArmInput::Rejected,
        Some((uid, token)) => {
            if token.len() == 0 {
                ArmInput::Rejected
            } else {
                ArmInput::Credentials {
                    token: string_from(&token),
                    expected_uid: Some(string_from(&uid)),
                }
            }
        },
    }
}

/// The context a verified token row yields for `method`, when its user id
/// matches the expected one (Basic) byte for byte.
pub open spec fn context_allowed(row: TokenRow, expected_uid: Option<Seq<char>>) -> bool {
    match expected_uid {
        None => true,
        Some(u) => encode_utf8(row.uid@) == encode_utf8(u),
    }
}

/// Finish a header arm once the token store has answered: `None` (token
/// not found or unusable) rejects the header; a Basic row for another user
/// than the one in the header rejects it too (compared in constant time).
pub fn header_arm_outcome(
    input: &ArmInput,
    method: AuthMethod,
    row: Option<TokenRow>,
) -> (r: ArmOutcome)
    ensures
        match input {
            ArmInput::NoInput => r is NoInput,
            ArmInput::Rejected => r is HeaderRejected,
            ArmInput::Credentials { token: _, expected_uid } => match row {
                None => r is HeaderRejected,
                Some(w) => if context_allowed(
                    w,
                    match expected_uid {
                        Some(u) => Some(u@),
                        None => None,
                    },
                ) {
                    r matches ArmOutcome::Authenticated(c) && c.user_id@ == w.uid@ && c.method
                        == method && c.token_id == w.id && c.login_name@ == w.login_name@
                        && c.remember == w.remember
                } else {
                    r is HeaderRejected
                },
            },
        },
{
    match input {
        ArmInput::NoInput => ArmOutcome::NoInput,
        ArmInput::Rejected => ArmOutcome::HeaderRejected,
        ArmInput::Credentials { token: _, expected_uid } => match row {
            None => ArmOutcome::HeaderRejected,
            Some(w) => {
                if let Some(u) = expected_uid {
                    if !ct_eq(w.uid.as_str().as_bytes(), u.as_str().as_bytes()) {
                        return ArmOutcome::HeaderRejected;
                    }
                }
                ArmOutcome::Authenticated(
                    AuthContext {
                        user_id: w.uid,
                        method,
                        token_id: w.id,
                        login_name: w.login_name,
                        remember: w.remember,
                    },
                )
            },
        },
    }
}

/// The cookie arm: the signed cookie's payload is the token to look up
/// (`None` when there is no cookie or its signature does not verify).
pub fn cookie_token(raw: Option<&str>, secret: &[u8]) -> (r: Option<String>)
    ensures
        match raw {
            None => r is None,
            Some(v) => match spec_decode_cookie(v@, secret@) {
                Ok(t) => r matches Some(s) && s@ == t,
                Err(_) => r is None,
            },
        },
{
    match raw {
        None => None,
        Some(v) => match decode_cookie(v, secret) {
            Ok(t) => Some(t),
            Err(_) => None,
        },
    }
}

/// Finish the cookie arm: only a session-kind row authenticates; anything
/// else falls through to anonymous.
pub fn cookie_arm_outcome(row: Option<TokenRow>) -> (r: ArmOutcome)
    ensures
        match row {
            Some(w) => if w.kind == TokenKind::Session {
                r matches ArmOutcome::Authenticated(c) && c.user_id@ == w.uid@ && c.method
                    == AuthMethod::Session && c.token_id == w.id && c.login_name@
                    == w.login_name@ && c.remember == w.remember
            } else {
                r is NoInput
            },
            None => r is NoInput,
        },
{
    match row {
        Some(w) => {
            if w.kind == TokenKind::Session {
                ArmOutcome::Authenticated(
                    AuthContext {
                        user_id: w.uid,
                        method: AuthMethod::Session,
                        token_id: w.id,
                        login_name: w.login_name,
                        remember: w.remember,
                    },
                )
            } else {
                ArmOutcome::NoInput
            }
        },
        None => ArmOutcome::NoInput,
    }
}

/// What the middleware does with a request.
#[derive(Debug, Clone)]
pub enum AuthVerdict {
    /// Attach the context and run the handler.
    Attach(AuthContext),
    /// Run the handler without a context.
    Anonymous,
    /// Answer 401 without running the handler.
    Unauthorized,
}

/// Arm precedence: Bearer, then Basic, then the cookie; the first arm with
/// input decides. A rejected header is 401; a cookie never is.
/// Only the arms up to the deciding one are read.
pub fn resolve_auth(bearer: ArmOutcome, basic: ArmOutcome, cookie: ArmOutcome) -> (r: AuthVerdict)
    ensures
        match bearer {
            ArmOutcome::Authenticated(c) => r matches AuthVerdict::Attach(d) && d == c,
            ArmOutcome::HeaderRejected => r is Unauthorized,
            ArmOutcome::NoInput => match basic {
                ArmOutcome::Authenticated(c) => r matches AuthVerdict::Attach(d) && d == c,
                ArmOutcome::HeaderRejected => r is Unauthorized,
                ArmOutcome::NoInput => match cookie {
                    ArmOutcome::Authenticated(c) => r matches AuthVerdict::Attach(d) && d == c,
                    _ => r is Anonymous,
                },
            },
        },
{
    match bearer {
        ArmOutcome::Authenticated(c) => AuthVerdict::Attach(c),
        ArmOutcome::HeaderRejected => AuthVerdict::Unauthorized,
        ArmOutcome::NoInput => match basic {
            ArmOutcome::Authenticated(c) => AuthVerdict::Attach(c),
            ArmOutcome::HeaderRejected => AuthVerdict::Unauthorized,
            ArmOutcome::NoInput => match cookie {
                ArmOutcome::Authenticated(c) => AuthVerdict::Attach(c),
                _ => AuthVerdict::Anonymous,
            },
        },
    }
}

/// The first `name=value` piece of a `Cookie` header (pieces split at `;`
/// and trimmed) whose name is `name`.
pub open spec fn cookie_lookup(pieces: Seq<Seq<char>>, name: Seq<char>) -> Option<Seq<char>>
    decreases pieces.len(),
{
    if pieces.len() == 0 {
        None
    } else {
        match split_once(trim(pieces[0]), '=') {
            Some((k, v)) => if k == name {
                Some(v)
            } else {
                cookie_lookup(pieces.drop_first(), name)
            },
            None => cookie_lookup(pieces.drop_first(), name),
        }
    }
}

/// The value of cookie `name` in the request's `Cookie` header.
pub open spec fn spec_cookie_value(h: Seq<(Seq<char>, Seq<char>)>, name: Seq<char>) -> Option<
    Seq<char>,
> {
    match header_lookup(h, "cookie"@) {
        None => None,
        Some(raw) => cookie_lookup(split_all(raw, ';'), name),
    }
}

/// Extract the value of cookie `name` from the `Cookie` header.
pub fn extract_cookie_value(headers: &HeaderMap, name: &str) -> (r: Option<String>)
    ensures
        match r {
            Some(v) => spec_cookie_value(headers@, name@) == Some(v@),
            None => spec_cookie_value(headers@, name@) is None,
        },
{
    proof {
        reveal_strlit("cookie");
        lemma_lower_literal("cookie"@);
    }
    let raw = match headers.get("cookie") {
        Some(v) => v,
        None => return None,
    };
    let nc = chars_of(name);
    let mut rest = chars_of(raw);
    loop
        invariant
            nc@ == name@,
            spec_cookie_value(headers@, name@) == cookie_lookup(split_all(rest@, ';'), name@),
        decreases rest@.len(),
    {
        let n: usize = rest.len();
        let (piece, next, last) = match crate::text::find(&rest, ';') {
            Some(i) => {
                assert(i < n);
                (slice_chars(&rest, 0, i), slice_chars(&rest, i + 1, n), false)
            },
            None => (slice_chars(&rest, 0, n), Vec::new(), true),
        };
        let ghost pieces = split_all(rest@, ';');
        proof {
            if last {
                assert(piece@ =~= rest@);
                assert(pieces == seq![rest@]);
            } else {
                assert(pieces == seq![piece@] + split_all(next@, ';'));
                assert(pieces.drop_first() =~= split_all(next@, ';'));
            }
            assert(pieces[0] == piece@);
        }
        let t = trim_chars(&piece);
        match split_once_chars(&t, '=') {
            Some((k, v)) => {
                if crate::text::chars_eq(&k, &nc) {
                    return Some(string_from(&v));
                }
                assert(cookie_lookup(pieces, name@) == cookie_lookup(pieces.drop_first(), name@));
            },
            None => {
                assert(cookie_lookup(pieces, name@) == cookie_lookup(pieces.drop_first(), name@));
            },
        }
        if last {
            proof {
                assert(pieces.drop_first() =~= Seq::<Seq<char>>::empty());
                assert(cookie_lookup(pieces.drop_first(), name@) is None);
            }
            return None;
        }
        rest = next;
    }
}


// ---------------------------------------------------------------- layer

/// The authentication layer: it keeps the secret the session cookie is
/// signed with; the token store is consulted by the server.
#[derive(Debug, Clone)]
pub struct AuthLayer {
    pub cookie_secret: Vec<u8>,
}

/// The authentication middleware around an inner service.
#[derive(Debug, Clone)]
pub struct AuthMiddleware<S> {
    pub inner: S,
    pub cookie_secret: Vec<u8>,
}

fn copy_bytes(b: &[u8]) -> (r: Vec<u8>)
    ensures
        r@ == b@,
{
    let mut k: Vec<u8> = Vec::new();
    let mut i: usize = 0;
    while i < b.len()
        invariant
            i <= b@.len(),
            k@ == b@.subrange(0, i as int),
        decreases b@.len() - i,
    {
        k.push(b[i]);
        i = i + 1;
    }
    assert(b@.subrange(0, i as int) =~= b@);
    k
}

impl AuthLayer {
    /// A layer verifying session cookies with `cookie_secret`.
    pub fn new(cookie_secret: &[u8]) -> (r: AuthLayer)
        ensures
            r.cookie_secret@ == cookie_secret@,
    {
        AuthLayer { cookie_secret: copy_bytes(cookie_secret) }
    }

    /// Wrap an inner service.
    pub fn layer<S>(&self, inner: S) -> (r: AuthMiddleware<S>)
        ensures
            r.inner == inner,
            r.cookie_secret@ == self.cookie_secret@,
    {
        AuthMiddleware { inner, cookie_secret: copy_bytes(self.cookie_secret.as_slice()) }
    }
}

} // verus!
