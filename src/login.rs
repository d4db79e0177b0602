//! Logging in with the password, which opens a session carried by a cookie.

use vstd::prelude::*;
use vstd::string::*;

use crate::config::{AuthConfig, SessionExpiry};
use crate::datastore::{create_step, is_create_error, DatastoreError};
use crate::passwords::{password_check, PasswordChecker};
use crate::sessions::SessionManager;
use crate::token::{token_of_text, SECRET_SIZE};

verus! {

/// The body of a login request.
pub struct LoginForm {
    pub password: String,
}

/// The session cookie to set after a login.
pub struct SessionCookie {
    pub name: String,
    pub value: String,
    pub path: String,
    /// Whether the cookie carries `SameSite=Lax`.
    pub same_site_lax: bool,
    pub http_only: bool,
    pub secure: bool,
    pub domain: Option<String>,
    /// The max-age in nanoseconds, set under a `Duration` policy only.
    pub max_age_nanos: Option<u128>,
}

/// The max-age that a policy gives the session cookie.
pub open spec fn max_age_of(expiry: SessionExpiry) -> Option<u128> {
    match expiry {
        SessionExpiry::Duration(d) => Some(d),
        _ => None,
    }
}

/// The cookie that carries `token` under the configured name and domain:
/// for the path "/", `SameSite=Lax`, `HttpOnly` and `Secure`, with a max-age
/// under a `Duration` policy only.
pub fn create_session_cookie(config: &AuthConfig, token: String) -> (r: SessionCookie)
    ensures
        r.name@ == config.session_cookie_name@,
        r.value@ == token@,
        r.path@ == "/"@,
        r.same_site_lax,
        r.http_only,
        r.secure,
        match config.session_cookie_domain {
            Some(d) => r.domain is Some && r.domain->Some_0@ == d@,
            None => r.domain is None,
        },
        r.max_age_nanos == max_age_of(config.session_expiry),
{
    let domain = match &config.session_cookie_domain {
        Some(d) => Some(d.clone()),
        None => None,
    };
    let max_age_nanos = match config.session_expiry {
        SessionExpiry::Duration(d) => Some(d),
        _ => None,
    };
    SessionCookie {
        name: config.session_cookie_name.clone(),
        value: token,
        path: String::from_str("/"),
        same_site_lax: true,
        http_only: true,
        secure: true,
        domain,
        max_age_nanos,
    }
}

/// Handles a login: a wrong password gives `None` and opens nothing; the
/// right one opens a session and gives the cookie that carries its token.
pub fn login(
    checker: &mut PasswordChecker,
    manager: &mut SessionManager,
    config: &AuthConfig,
    form: &LoginForm,
) -> (r: Result<Option<SessionCookie>, DatastoreError>)
    ensures
        ({
            let (ok, cache) = password_check(old(checker)@, form.password@, config.password);
            &&& final(checker)@ == cache
            &&& !ok ==> r is Ok && r->Ok_0 is None && *final(manager) == *old(manager)
            &&& ok && r is Ok ==> r->Ok_0 is Some
            &&& ok && old(manager).datastore.is_memory() && old(manager).datastore.view().0
                < u64::MAX ==> r is Ok && r->Ok_0 is Some
            &&& r is Err ==> ok && is_create_error(r->Err_0)
        }),
        final(manager).expiry == old(manager).expiry,
        final(manager).datastore.is_memory() == old(manager).datastore.is_memory(),
        r is Ok && r->Ok_0 is Some ==> ({
            let cookie = r->Ok_0->Some_0;
            &&& cookie.name@ == config.session_cookie_name@
            &&& cookie.max_age_nanos == max_age_of(config.session_expiry)
            &&& cookie.path@ == "/"@ && cookie.same_site_lax && cookie.http_only && cookie.secure
            &&& match config.session_cookie_domain {
                Some(d) => cookie.domain is Some && cookie.domain->Some_0@ == d@,
                None => cookie.domain is None,
            }
            &&& token_of_text(cookie.value@) matches Some((id, secret)) && secret.len()
                == SECRET_SIZE && (old(manager).datastore.is_memory() ==> exists|now: u128|
                #[trigger] create_step(old(manager).datastore.view(), (secret, now)) == (
                    Some(id),
                    final(manager).datastore.view(),
                ))
        }),
{
    if !checker.check_password(form.password.as_str(), &config.password) {
        return Ok(None);
    }
    let ghost before = *manager;
    let token = manager.create_session()?;
    let text = token.encode();
    proof {
        if before.datastore.is_memory() {
            let now = choose|now: u128|
                {
                    let (id, v) = #[trigger] create_step(
                        before.datastore.view(),
                        (token.secret@, now),
                    );
                    final(manager).datastore.view() == v && id == Some(token.id.0)
                };
            assert(create_step(before.datastore.view(), (token.secret@, now)) == (
                Some(token.id.0),
                manager.datastore.view(),
            ));
        }
    }
    Ok(Some(create_session_cookie(config, text)))
}

} // verus!
