//! `POST /index.php/login` — bootstrap-admin login with a form-encoded
//! `username` and `password`, checked with bcrypt. On success the session
//! records the user, its CSRF token is rotated, and the browser is sent to
//! `/` with a 303.

use crate::codec::{bcrypt_error_text, bcrypt_outcome, bcrypt_verify};
use crate::dav_error::{headers_view, text_plain, text_reply_with, Reply};
use crate::ocs::CoreError;
use crate::session::{is_lower_hex_of_len, Session};
use crate::text::{concat, str_eq, to_owned};
use vstd::prelude::*;

verus! {

/// Login form body.
#[derive(Debug, Clone)]
pub struct LoginForm {
    pub username: String,
    pub password: String,
}

/// The configured bootstrap admin.
#[derive(Debug, Clone)]
pub struct BootstrapAdmin {
    pub username: String,
    pub password_hash: String,
}

/// Check the credentials and, on success, log the session in.
pub fn login(admin: &Option<BootstrapAdmin>, form: &LoginForm, session: &mut Session) -> (r: Result<
    Reply,
    CoreError,
>)
    ensures
        match admin {
            None => r == Err::<Reply, CoreError>(CoreError::Unauthorized) && *final(session)
                == *old(session),
            Some(a) => if a.username@ != form.username@ {
                r == Err::<Reply, CoreError>(CoreError::Unauthorized) && *final(session)
                    == *old(session)
            } else {
                match bcrypt_outcome(form.password@, a.password_hash@) {
                    None => (r matches Err(CoreError::Internal(m)) && m@ == "bcrypt verify: "@
                        + bcrypt_error_text(form.password@, a.password_hash@)) && *final(session)
                        == *old(session),
                    Some(false) => r == Err::<Reply, CoreError>(CoreError::Unauthorized)
                        && *final(session) == *old(session),
                    Some(true) => (r matches Ok(reply) && reply.status == 303 && reply.body@.len()
                        == 0 && headers_view(reply.headers@) == text_plain() + seq![("location"@, "/"@)])
                        && (final(session).user_id matches Some(u) && u@ == form.username@)
                        && is_lower_hex_of_len(final(session).csrf_token@, 64)
                        && final(session).last_activity == old(session).last_activity
                        && final(session).two_factor_passed == old(session).two_factor_passed,
                }
            },
        },
{
    let a = match admin {
        None => return Err(CoreError::Unauthorized),
        Some(a) => a,
    };
    if !str_eq(a.username.as_str(), form.username.as_str()) {
        return Err(CoreError::Unauthorized);
    }
    let ok = match bcrypt_verify(form.password.as_str(), a.password_hash.as_str()) {
        Ok(b) => b,
        Err(e) => return Err(CoreError::Internal(concat("bcrypt verify: ", e.as_str()))),
    };
    if !ok {
        return Err(CoreError::Unauthorized);
    }
    session.user_id = Some(to_owned(form.username.as_str()));
    session.rotate_csrf();
    let mut headers: Vec<(String, String)> = Vec::new();
    headers.push((to_owned("location"), to_owned("/")));
    assert(headers_view(headers@) =~= seq![("location"@, "/"@)]);
    Ok(text_reply_with(303, String::new(), headers))
}

} // verus!
