//! `GET` / `PUT /ocs/v2.php/cloud/user` — the authenticated user's own record.
//!
//! `PUT` takes a `key`/`value`/`currentpassword` form and applies one
//! change (password, display name or email) after checking the current
//! password. A password change is only allowed from a browser session
//! (Bearer / Basic callers get 403, decided before the password is checked
//! so a stolen token cannot probe it); it keeps the caller logged in by
//! minting a fresh session token, revoking every other session of the
//! user, rotating the CSRF token and swapping the cookie.
//!
//! The user store, the token store and the session are consulted between
//! the steps of [`PutSelf`]; each step says what to do next.

use crate::admin_users::{change_view, spec_user_change, user_change, UserChange};
use crate::auth::AuthMethod;
use crate::ocs::CoreError;
use crate::session_layer::PendingCookie;
use crate::text::{str_eq, to_owned};
use vstd::prelude::*;

verus! {

/// Body of `PUT /cloud/user`.
#[derive(Debug, Clone)]
pub struct PutForm {
    pub key: String,
    pub value: String,
    pub currentpassword: String,
}

/// The caller's own record as `GET /cloud/user` returns it.
#[derive(Debug, Clone)]
pub struct UserPayload {
    pub id: String,
    pub display_name: String,
    pub email: Option<String>,
    pub groups: Vec<String>,
    pub enabled: bool,
    pub last_login: u64,
}

/// Where a `PUT /cloud/user` request stands.
#[derive(Debug, Clone, Copy, PartialEq, Eq, Structural)]
pub enum PutSelfPhase {
    Start,
    Verifying,
    Applying,
    Minting,
    Rotating,
    Done,
}

/// What happened since the last step.
#[derive(Debug)]
pub enum PutSelfEvent {
    /// The request arrived; `Some` carries the rendered reason the caller's
    /// user id is not a valid user id.
    Begin(Option<String>),
    /// Whether `currentpassword` is the user's password.
    Verified(bool),
    /// The store applied the change, or failed with this message.
    Applied(Result<(), String>),
    /// A fresh session token `(row id, raw token)`; `None` when the server
    /// has no token store; or the store's error.
    Minted(Result<Option<(i64, String)>, String>),
    /// Other sessions revoked, CSRF rotated, cookie swap requested.
    Rotated,
}

/// What to do next.
#[derive(Debug)]
pub enum PutSelfAction {
    /// Check the current password.
    VerifyPassword { password: String },
    /// Apply the change to the user record.
    Apply(UserChange),
    /// Mint a session token for the caller.
    MintSession { login_name: String, remember: bool },
    /// Revoke every other session of the user (best effort), rotate the
    /// CSRF token, and stash the cookie swap.
    RevokeOthersAndRotate { keep_token_id: i64, cookie: PendingCookie },
    /// Answer: `Ok` is a 200 with an empty payload.
    Respond(Result<(), CoreError>),
}

/// A `PUT /cloud/user` request in progress.
#[derive(Debug, Clone)]
pub struct PutSelf {
    pub phase: PutSelfPhase,
    pub form: PutForm,
    pub method: AuthMethod,
    pub login_name: String,
    pub remember: bool,
    pub change: Option<UserChange>,
}

/// Lifetime of the cookie minted after a password change, in seconds.
pub const ROTATED_COOKIE_MAX_AGE: u64 = 1800;

/// Whether an event is one the phase waits for.
pub open spec fn event_fits(phase: PutSelfPhase, ev: PutSelfEvent) -> bool {
    match phase {
        PutSelfPhase::Start => ev is Begin,
        PutSelfPhase::Verifying => ev is Verified,
        PutSelfPhase::Applying => ev is Applied,
        PutSelfPhase::Minting => ev is Minted,
        PutSelfPhase::Rotating => ev is Rotated,
        PutSelfPhase::Done => false,
    }
}

impl PutSelf {
    /// A request with its form and the caller's auth context.
    pub fn new(form: PutForm, method: AuthMethod, login_name: String, remember: bool) -> (r: PutSelf)
        ensures
            r.phase == PutSelfPhase::Start,
            r.form == form,
            r.method == method,
            r.login_name == login_name,
            r.remember == remember,
            r.change is None,
    {
        PutSelf { phase: PutSelfPhase::Start, form, method, login_name, remember, change: None }
    }

    /// Advance on an event and say what to do next.
    pub fn step(&mut self, ev: PutSelfEvent) -> (r: PutSelfAction)
        requires
            event_fits(old(self).phase, ev),
        ensures
            final(self).form == old(self).form,
            final(self).method == old(self).method,
            final(self).login_name == old(self).login_name,
            final(self).remember == old(self).remember,
            match old(self).phase {
                PutSelfPhase::Start => match ev {
                    PutSelfEvent::Begin(Some(e)) => final(self).phase == PutSelfPhase::Done && (
                    r matches PutSelfAction::Respond(Err(CoreError::Users(n))) && n@ == e@),
                    _ => if old(self).form.key@ == "password"@ && old(self).method
                        != AuthMethod::Session {
                        final(self).phase == PutSelfPhase::Done && r matches PutSelfAction::Respond(
                            Err(CoreError::Forbidden),
                        )
                    } else {
                        final(self).phase == PutSelfPhase::Verifying && (r matches PutSelfAction::VerifyPassword { password }
                            && password@ == old(self).form.currentpassword@)
                    },
                },
                PutSelfPhase::Verifying => match ev {
                    PutSelfEvent::Verified(false) => final(self).phase == PutSelfPhase::Done
                        && r matches PutSelfAction::Respond(Err(CoreError::Unauthorized)),
                    _ => match spec_user_change(old(self).form.key@, old(self).form.value@) {
                        Ok(c) => final(self).phase == PutSelfPhase::Applying && (r matches PutSelfAction::Apply(
                            x,
                        ) && change_view(x) == c) && (final(self).change matches Some(y)
                            && change_view(y) == c),
                        Err(m) => final(self).phase == PutSelfPhase::Done && (r matches PutSelfAction::Respond(
                            Err(CoreError::BadRequest(n)),
                        ) && n@ == m),
                    },
                },
                PutSelfPhase::Applying => match ev {
                    PutSelfEvent::Applied(Err(m)) => final(self).phase == PutSelfPhase::Done && (
                    r matches PutSelfAction::Respond(Err(CoreError::Users(n))) && n@ == m@),
                    _ => if old(self).change matches Some(UserChange::Password(_)) {
                        final(self).phase == PutSelfPhase::Minting && (r matches PutSelfAction::MintSession {
                            login_name,
                            remember,
                        } && login_name@ == old(self).login_name@ && remember
                            == old(self).remember)
                    } else {
                        final(self).phase == PutSelfPhase::Done && r matches PutSelfAction::Respond(
                            Ok(()),
                        )
                    },
                },
                PutSelfPhase::Minting => match ev {
                    PutSelfEvent::Minted(Err(m)) => final(self).phase == PutSelfPhase::Done && (r matches PutSelfAction::Respond(
                        Err(CoreError::Users(n)),
                    ) && n@ == m@),
                    PutSelfEvent::Minted(Ok(Some((id, raw)))) => final(self).phase
                        == PutSelfPhase::Rotating && (r matches PutSelfAction::RevokeOthersAndRotate {
                        keep_token_id,
                        cookie: PendingCookie::Install { raw_token, token_id, max_age_secs },
                    } && keep_token_id == id && token_id == id && raw_token@ == raw@
                        && max_age_secs == ROTATED_COOKIE_MAX_AGE),
                    _ => final(self).phase == PutSelfPhase::Done && r matches PutSelfAction::Respond(
                        Ok(()),
                    ),
                },
                _ => final(self).phase == PutSelfPhase::Done && r matches PutSelfAction::Respond(
                    Ok(()),
                ),
            },
    {
        match self.phase {
            PutSelfPhase::Start => {
                if let PutSelfEvent::Begin(Some(e)) = ev {
                    self.phase = PutSelfPhase::Done;
                    return PutSelfAction::Respond(Err(CoreError::Users(e)));
                }
                if str_eq(self.form.key.as_str(), "password") && self.method != AuthMethod::Session {
                    self.phase = PutSelfPhase::Done;
                    return PutSelfAction::Respond(Err(CoreError::Forbidden));
                }
                self.phase = PutSelfPhase::Verifying;
                PutSelfAction::VerifyPassword {
                    password: to_owned(self.form.currentpassword.as_str()),
                }
            },
            PutSelfPhase::Verifying => {
                match ev {
                    PutSelfEvent::Verified(false) => {
                        self.phase = PutSelfPhase::Done;
                        return PutSelfAction::Respond(Err(CoreError::Unauthorized));
                    },
                    _ => {},
                }
                match user_change(self.form.key.as_str(), self.form.value.as_str()) {
                    Ok(c) => {
                        self.phase = PutSelfPhase::Applying;
                        self.change = Some(c.clone_change());
                        PutSelfAction::Apply(c)
                    },
                    Err(e) => {
                        self.phase = PutSelfPhase::Done;
                        PutSelfAction::Respond(Err(e))
                    },
                }
            },
            PutSelfPhase::Applying => {
                match ev {
                    PutSelfEvent::Applied(Err(m)) => {
                        self.phase = PutSelfPhase::Done;
                        return PutSelfAction::Respond(Err(CoreError::Users(m)));
                    },
                    _ => {},
                }
                match &self.change {
                    Some(UserChange::Password(_)) => {
                        self.phase = PutSelfPhase::Minting;
                        PutSelfAction::MintSession {
                            login_name: to_owned(self.login_name.as_str()),
                            remember: self.remember,
                        }
                    },
                    _ => {
                        self.phase = PutSelfPhase::Done;
                        PutSelfAction::Respond(Ok(()))
                    },
                }
            },
            PutSelfPhase::Minting => {
                match ev {
                    PutSelfEvent::Minted(Err(m)) => {
                        self.phase = PutSelfPhase::Done;
                        PutSelfAction::Respond(Err(CoreError::Users(m)))
                    },
                    PutSelfEvent::Minted(Ok(Some((id, raw)))) => {
                        self.phase = PutSelfPhase::Rotating;
                        PutSelfAction::RevokeOthersAndRotate {
                            keep_token_id: id,
                            cookie: PendingCookie::Install {
                                raw_token: raw,
                                token_id: id,
                                max_age_secs: ROTATED_COOKIE_MAX_AGE,
                            },
                        }
                    },
                    _ => {
                        self.phase = PutSelfPhase::Done;
                        PutSelfAction::Respond(Ok(()))
                    },
                }
            },
            _ => {
                self.phase = PutSelfPhase::Done;
                PutSelfAction::Respond(Ok(()))
            },
        }
    }
}

impl UserChange {
    /// A copy of the change.
    pub fn clone_change(&self) -> (r: UserChange)
        ensures
            change_view(r) == change_view(*self),
    {
        match self {
            UserChange::Password(v) => UserChange::Password(to_owned(v.as_str())),
            UserChange::DisplayName(v) => UserChange::DisplayName(to_owned(v.as_str())),
            UserChange::Email(Some(v)) => UserChange::Email(Some(to_owned(v.as_str()))),
            UserChange::Email(None) => UserChange::Email(None),
        }
    }
}

/// Minting an app password from the browser bridge is only for session
/// callers (Bearer / Basic get 403).
pub fn app_password_guard(method: AuthMethod) -> (r: Result<(), CoreError>)
    ensures
        method == AuthMethod::Session ==> r is Ok,
        method != AuthMethod::Session ==> r == Err::<(), CoreError>(CoreError::Forbidden),
{
    if method == AuthMethod::Session {
        Ok(())
    } else {
        Err(CoreError::Forbidden)
    }
}

} // verus!
