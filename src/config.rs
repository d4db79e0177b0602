//! The operator's configuration, supplied once at startup.

use vstd::prelude::*;
use vstd::string::*;

use crate::passwords::Password;
use crate::text::{chars_of, contains_char, contains_pair, has_pair};

verus! {

/// Four weeks, in nanoseconds: the default lifetime of a session.
pub const FOUR_WEEKS_NANOS: u128 = 2_419_200_000_000_000;

/// When sessions end.
#[derive(Clone, Copy, Debug, PartialEq, Eq, Structural)]
pub enum SessionExpiry {
    /// Sessions never expire.
    Never,
    /// Sessions end when the browser's own session ends; the cookie carries
    /// no max-age and the server keeps no deadline.
    SessionScoped,
    /// Sessions older than this many nanoseconds are invalid.
    Duration(u128),
}

/// The authentication settings.
#[derive(Clone)]
pub struct AuthConfig {
    pub password: Password,
    pub allow_basic: bool,
    pub allow_bearer: bool,
    pub allow_session: bool,
    pub session_cookie_name: String,
    pub session_cookie_domain: Option<String>,
    pub session_expiry: SessionExpiry,
}

impl AuthConfig {
    /// The name of the session cookie unless configured otherwise.
    pub const DEFAULT_SESSION_COOKIE_NAME: &'static str = "dumb-auth-session";

    /// Sessions only, a cookie named `DEFAULT_SESSION_COOKIE_NAME` with no
    /// domain, and sessions that last four weeks.
    pub fn default(password: Password) -> (r: AuthConfig)
        ensures
            r.password == password,
            !r.allow_basic,
            !r.allow_bearer,
            r.allow_session,
            r.session_cookie_name@ == "dumb-auth-session"@,
            r.session_cookie_domain is None,
            r.session_expiry == SessionExpiry::Duration(FOUR_WEEKS_NANOS),
    {
        AuthConfig {
            password,
            allow_basic: false,
            allow_bearer: false,
            allow_session: true,
            session_cookie_name: String::from_str(AuthConfig::DEFAULT_SESSION_COOKIE_NAME),
            session_cookie_domain: None,
            session_expiry: SessionExpiry::Duration(FOUR_WEEKS_NANOS),
        }
    }
}

/// The whole configuration: where the public routes live, and the
/// authentication settings.
#[derive(Clone)]
pub struct AppConfig {
    pub public_path: String,
    pub auth_config: AuthConfig,
}

impl AppConfig {
    /// The base path of the public routes unless configured otherwise.
    pub const DEFAULT_PUBLIC_PATH: &'static str = "/auth";

    /// The given settings, with public routes under `DEFAULT_PUBLIC_PATH`.
    pub fn default(auth_config: AuthConfig) -> (r: AppConfig)
        ensures
            r.public_path@ == "/auth"@,
            r.auth_config == auth_config,
    {
        AppConfig {
            public_path: String::from_str(AppConfig::DEFAULT_PUBLIC_PATH),
            auth_config,
        }
    }
}

/// What is wrong with a base path, if anything: it must be non-empty, start
/// with '/', not end with '/' (unless it is "/"), and hold no "//", '.', '{'
/// or '}'.
pub open spec fn base_path_error(s: Seq<char>) -> Option<Seq<char>> {
    if s.len() == 0 {
        Some("base path must not be empty"@)
    } else if s[0] != '/' {
        Some("base path must start with '/'"@)
    } else if s.len() > 1 && s.last() == '/' {
        Some("base path must not end with '/'"@)
    } else if has_pair(s, '/') {
        Some("base path must not contain '//'"@)
    } else if s.contains('.') {
        Some("base path must not contain '.'"@)
    } else if s.contains('{') {
        Some("base path must not contain '{'"@)
    } else if s.contains('}') {
        Some("base path must not contain '}'"@)
    } else {
        None
    }
}

/// Checks a base path for the public routes; see `base_path_error`.
pub fn parse_base_path(s: &str) -> (r: Result<String, String>)
    ensures
        match base_path_error(s@) {
            Some(msg) => r is Err && r->Err_0@ == msg,
            None => r is Ok && r->Ok_0@ == s@,
        },
{
    let cs = chars_of(s);
    let n = cs.len();
    if n == 0 {
        Err(String::from_str("base path must not be empty"))
    } else if cs[0] != '/' {
        Err(String::from_str("base path must start with '/'"))
    } else if n > 1 && cs[n - 1] == '/' {
        Err(String::from_str("base path must not end with '/'"))
    } else if contains_pair(&cs, '/') {
        Err(String::from_str("base path must not contain '//'"))
    } else if contains_char(&cs, '.') {
        Err(String::from_str("base path must not contain '.'"))
    } else if contains_char(&cs, '{') {
        Err(String::from_str("base path must not contain '{'"))
    } else if contains_char(&cs, '}') {
        Err(String::from_str("base path must not contain '}'"))
    } else {
        Ok(String::from_str(s))
    }
}


/// A password file's contents without one final line ending ("\n" or
/// "\r\n").
pub open spec fn without_line_ending(s: Seq<char>) -> Seq<char> {
    if s.len() > 0 && s.last() == '\n' {
        let t = s.drop_last();
        if t.len() > 0 && t.last() == '\r' {
            t.drop_last()
        } else {
            t
        }
    } else {
        s
    }
}

/// Drops one final line ending from a password file's contents.
pub fn trim_line_ending(s: &str) -> (r: String)
    ensures
        r@ == without_line_ending(s@),
{
    let n = s.unicode_len();
    if n > 0 && s.get_char(n - 1) == '\n' {
        if n > 1 && s.get_char(n - 2) == '\r' {
            let r = String::from_str(s.substring_char(0, n - 2));
            assert(r@ =~= without_line_ending(s@));
            r
        } else {
            let r = String::from_str(s.substring_char(0, n - 1));
            assert(r@ =~= without_line_ending(s@));
            r
        }
    } else {
        String::from_str(s)
    }
}


/// Whether a configured password is an empty plaintext.
pub open spec fn is_empty_plain(password: Password) -> bool {
    password matches Password::Plain(p) && p@.len() == 0
}

/// Accepts a configured password unless it is an empty plaintext.
pub fn validate_password(password: Password) -> (r: Result<Password, String>)
    ensures
        is_empty_plain(password) ==> r is Err && r->Err_0@ == "Password cannot be empty"@,
        !is_empty_plain(password) ==> r is Ok && r->Ok_0 == password,
{
    let empty = match &password {
        Password::Plain(p) => p.as_str().unicode_len() == 0,
        Password::Hash(_) => false,
    };
    if empty {
        Err(String::from_str("Password cannot be empty"))
    } else {
        Ok(password)
    }
}

} // verus!
