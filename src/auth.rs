//! The authentication methods (Basic, Bearer, session) and the
//! authenticator that runs them in order.

use vstd::prelude::*;
use vstd::string::*;

use crate::config::AuthConfig;
use crate::datastore::{DatastoreError, StoreState};
use crate::headers::{all_values, first_value, Headers, HeadersView};
use crate::passwords::{password_check, PasswordChecker};
use crate::sessions::{check_step, now_nanos, SessionManager};
use crate::text::{chars_of, eq_ignore_ascii_case, header_value_ok, is_header_value, range_eq_ignore_ascii_case};
use crate::token::token_of_text;

verus! {

/// The challenge sent when Basic credentials are missing or wrong.
pub const BASIC_CHALLENGE: &'static str = "Basic realm=\"dumb-auth\"";

/// The challenge sent when no Bearer token is presented.
pub const BEARER_CHALLENGE: &'static str = "Bearer realm=\"dumb-auth\"";

/// The challenge sent when a wrong Bearer token is presented.
pub const BEARER_INVALID_CHALLENGE: &'static str =
    "Bearer realm=\"dumb-auth\", error=\"invalid_token\"";

/// The outcome of authenticating a request: whether it is allowed, and the
/// headers to send with a refusal.
pub struct AuthResult {
    pub valid: bool,
    pub response_headers: Option<Headers>,
}

/// An outcome as a value.
pub type AuthView = (bool, Option<HeadersView>);

impl View for AuthResult {
    type V = AuthView;

    open spec fn view(&self) -> AuthView {
        (
            self.valid,
            match self.response_headers {
                Some(h) => Some(h@),
                None => None,
            },
        )
    }
}

/// An outcome with one more header.
pub open spec fn add_header(v: AuthView, name: Seq<char>, value: Seq<char>) -> AuthView {
    (
        v.0,
        Some(
            match v.1 {
                Some(h) => h,
                None => Seq::empty(),
            }.push((name, value)),
        ),
    )
}

/// A refusal carrying one header.
pub open spec fn refusal_with(name: Seq<char>, value: Seq<char>) -> AuthView {
    (false, Some(seq![(name, value)]))
}

impl AuthResult {
    /// Allowed, with no headers.
    pub fn valid() -> (r: AuthResult)
        ensures
            r@ == (true, None::<HeadersView>),
    {
        AuthResult { valid: true, response_headers: None }
    }

    /// Refused, with no headers.
    pub fn invalid() -> (r: AuthResult)
        ensures
            r@ == (false, None::<HeadersView>),
    {
        AuthResult { valid: false, response_headers: None }
    }

    /// The same outcome with the header `name: value` added after the others.
    pub fn with_header(self, name: &str, value: String) -> (r: AuthResult)
        ensures
            r@ == add_header(self@, name@, value@),
    {
        let mut headers = match self.response_headers {
            Some(h) => h,
            None => Headers::new(),
        };
        headers.append(name, value);
        AuthResult { valid: self.valid, response_headers: Some(headers) }
    }
}

/// The password of HTTP Basic credentials in an `Authorization` value.
pub uninterp spec fn basic_password_of(value: Seq<char>) -> Option<Seq<char>>;

/// Whether a character may stand in header text: visible ASCII, a space or
/// a tab.
pub open spec fn is_header_text_char(c: char) -> bool {
    (' ' <= c && c <= '~') || c == '\t'
}

/// The text without its leading spaces and tabs.
pub open spec fn trim_leading_blanks(s: Seq<char>) -> Seq<char>
    decreases s.len(),
{
    if s.len() > 0 && (s[0] == ' ' || s[0] == '\t') {
        trim_leading_blanks(s.drop_first())
    } else {
        s
    }
}

/// The token of HTTP Bearer credentials in an `Authorization` value: the
/// value must be header text and start with "Bearer" (in any case) and a
/// space; the token is the rest without leading blanks.
pub open spec fn bearer_token_of(value: Seq<char>) -> Option<Seq<char>> {
    if value.len() > 6 && eq_ignore_ascii_case(value.subrange(0, 6), "Bearer"@) && value[6] == ' '
        && forall|i: int| 0 <= i < value.len() ==> is_header_text_char(#[trigger] value[i]) {
        Some(trim_leading_blanks(value.subrange(7, value.len() as int)))
    } else {
        None
    }
}

/// The value of the cookie `name` among `Cookie` header values.
pub uninterp spec fn cookie_value_of(values: Seq<Seq<char>>, name: Seq<char>) -> Option<Seq<char>>;

/// An uppercase hexadecimal digit.
pub open spec fn hex_digit(n: u8) -> char {
    if n < 10 {
        (n + 48) as char
    } else {
        (n + 55) as char
    }
}

/// One byte in form-urlencoded text: ASCII letters, digits and `*-._` stay,
/// a space becomes `+`, any other byte `%XX`.
pub open spec fn form_byte(b: u8) -> Seq<char> {
    if (48 <= b <= 57) || (65 <= b <= 90) || (97 <= b <= 122) || b == 42 || b == 45 || b == 46 || b
        == 95 {
        seq![b as char]
    } else if b == 32 {
        seq!['+']
    } else {
        seq!['%', hex_digit(b / 16), hex_digit(b % 16)]
    }
}

/// Bytes in form-urlencoded text.
pub open spec fn form_bytes(bs: Seq<u8>) -> Seq<char>
    decreases bs.len(),
{
    if bs.len() == 0 {
        Seq::empty()
    } else {
        form_byte(bs[0]) + form_bytes(bs.drop_first())
    }
}

/// The form-urlencoded serialization of the single pair `key=value`: the
/// UTF-8 bytes of each, encoded, joined by `=`.
pub open spec fn form_pair_of(key: Seq<char>, value: Seq<char>) -> Seq<char> {
    form_bytes(vstd::utf8::encode_utf8(key)) + "="@ + form_bytes(vstd::utf8::encode_utf8(value))
}

/// Relies on the headers crate (through axum-extra): the `Header` decoding of
/// `Authorization<Basic>` from one value, and its `password`. A value that
/// is not a valid header value holds no credentials.
#[verifier::external_body]
fn decode_basic(value: &str) -> (r: Option<String>)
    ensures
        match r {
            Some(p) => basic_password_of(value@) == Some(p@),
            None => basic_password_of(value@) is None,
        },
{
    let value = axum::http::HeaderValue::from_str(value).ok()?;
    <axum_extra::headers::Authorization<axum_extra::headers::authorization::Basic> as axum_extra::headers::Header>::decode(
        &mut std::iter::once(&value),
    ).ok().map(|credentials| credentials.password().to_string())
}

/// Relies on the headers crate (through axum-extra): the `Header` decoding of
/// `Authorization<Bearer>` from one value (the scheme, compared ignoring
/// ASCII case, then a space; the value must pass `HeaderValue::to_str`), and
/// its `token`, the rest after "Bearer " with `trim_start`. A value that is
/// not a valid header value holds no token.
#[verifier::external_body]
fn decode_bearer(value: &str) -> (r: Option<String>)
    ensures
        match r {
            Some(t) => bearer_token_of(value@) == Some(t@),
            None => bearer_token_of(value@) is None,
        },
{
    let value = axum::http::HeaderValue::from_str(value).ok()?;
    <axum_extra::headers::Authorization<axum_extra::headers::authorization::Bearer> as axum_extra::headers::Header>::decode(
        &mut std::iter::once(&value),
    ).ok().map(|credentials| credentials.token().to_string())
}

/// Relies on the headers crate (through axum-extra): the `Header` decoding of
/// `Cookie` from all `Cookie` values, and its `get`. Values that are not
/// valid header values hold no cookies.
#[verifier::external_body]
fn lookup_cookie(values: &Vec<String>, name: &str) -> (r: Option<String>)
    ensures
        match r {
            Some(v) => cookie_value_of(values@.map_values(|s: String| s@), name@) == Some(v@),
            None => cookie_value_of(values@.map_values(|s: String| s@), name@) is None,
        },
{
    let values = values.iter().map(|v| axum::http::HeaderValue::from_str(v)).collect::<Result<
        Vec<_>,
        _,
    >>().ok()?;
    <axum_extra::headers::Cookie as axum_extra::headers::Header>::decode(&mut values.iter()).ok()?.get(
        name,
    ).map(|v| v.to_string())
}

/// Relies on form_urlencoded's `Serializer::append_pair` and `finish`, from an
/// empty string (no separator is added before the first pair): the name,
/// `=`, the value, each through `byte_serialize` on its UTF-8 bytes.
#[verifier::external_body]
fn encode_form_pair(key: &str, value: &str) -> (r: String)
    ensures
        r@ == form_pair_of(key@, value@),
{
    form_urlencoded::Serializer::new(String::new()).append_pair(key, value).finish()
}

/// Whether `c` ends a media type inside an `Accept` value.
pub open spec fn is_media_end(c: char) -> bool {
    c == ',' || c == ';'
}

/// `s[i..e]` is the media type of a directive of the `Accept` value `s`: `i`
/// starts the value or follows a ',', and `e` is the first ',' or ';' from
/// `i` on, or the end.
pub open spec fn media_span(s: Seq<char>, i: int, e: int) -> bool {
    &&& 0 <= i <= e <= s.len()
    &&& (i == 0 || s[i - 1] == ',')
    &&& forall|k: int| i <= k < e ==> !is_media_end(#[trigger] s[k])
    &&& (e == s.len() || is_media_end(s[e]))
}

/// Whether an `Accept` value names `text/html` (in any case) as the media
/// type of one of its directives.
pub open spec fn accepts_html(s: Seq<char>) -> bool {
    exists|i: int, e: int|
        #[trigger] media_span(s, i, e) && eq_ignore_ascii_case(s.subrange(i, e), "text/html"@)
}

/// Whether the client is a browser, by the request's first `Accept` value.
pub open spec fn wants_html(h: HeadersView) -> bool {
    match first_value(h, "accept"@) {
        Some(a) => accepts_html(a),
        None => false,
    }
}

/// Whether an `Accept` value names `text/html`; see `accepts_html`.
pub fn accepts_html_value(accept: &str) -> (r: bool)
    ensures
        r == accepts_html(accept@),
{
    let s = chars_of(accept);
    let html = chars_of("text/html");
    let n = s.len();
    let mut pos: usize = 0;
    loop
        invariant
            s@ == accept@,
            html@ == "text/html"@,
            n == s@.len(),
            pos <= n,
            pos == 0 || s@[pos - 1] == ',',
            forall|i: int, e: int|
                #[trigger] media_span(s@, i, e) && i < pos ==> !eq_ignore_ascii_case(
                    s@.subrange(i, e),
                    "text/html"@,
                ),
        decreases n - pos,
    {
        let mut e: usize = pos;
        while e < n && !(s[e] == ',' || s[e] == ';')
            invariant
                pos <= e <= n,
                n == s@.len(),
                forall|k: int| pos <= k < e ==> !is_media_end(#[trigger] s@[k]),
            decreases n - e,
        {
            e = e + 1;
        }
        assert(media_span(s@, pos as int, e as int));
        if range_eq_ignore_ascii_case(&s, pos, e, &html) {
            return true;
        }
        let mut c: usize = e;
        while c < n && s[c] != ','
            invariant
                e <= c <= n,
                n == s@.len(),
                forall|k: int| e <= k < c ==> #[trigger] s@[k] != ',',
            decreases n - c,
        {
            c = c + 1;
        }
        assert forall|i: int, f: int|
            #[trigger] media_span(s@, i, f) && i <= c implies !eq_ignore_ascii_case(
                s@.subrange(i, f),
                "text/html"@,
            ) by {
            if i == pos {
                if f < e {
                    assert(is_media_end(s@[f]));
                } else if f > e {
                    assert(is_media_end(s@[e as int]));
                }
            } else if i > pos {
                assert(s@[i - 1] == ',');
                if i - 1 < e {
                    assert(!is_media_end(s@[i - 1]));
                }
            }
        }
        if c == n {
            assert forall|i: int, f: int| #[trigger] media_span(s@, i, f) implies !eq_ignore_ascii_case(
                s@.subrange(i, f),
                "text/html"@,
            ) by {
                if i > c {
                    assert(i <= n);
                }
            }
            return false;
        }
        pos = c + 1;
    }
}

/// Whether a request comes from a browser, by its first `Accept` value; one
/// without that header is not.
pub fn should_redirect(headers: &Headers) -> (r: bool)
    ensures
        r == wants_html(headers@),
{
    match headers.get("accept") {
        Some(a) => accepts_html_value(a.as_str()),
        None => false,
    }
}

/// The login page's location: `<path>/login?redirect_to=<original URI>`,
/// the URI form-encoded; `<path>/login` if that is no header value; none if
/// neither is.
pub open spec fn login_location_of(public_path: Seq<char>, original_uri: Seq<char>) -> Option<
    Seq<char>,
> {
    let full = public_path + "/login?"@ + form_pair_of("redirect_to"@, original_uri);
    let bare = public_path + "/login"@;
    if is_header_value(full) {
        Some(full)
    } else if is_header_value(bare) {
        Some(bare)
    } else {
        None
    }
}

/// The login page's location; see `login_location_of`.
pub fn login_location(public_path: &str, original_uri: &str) -> (r: Option<String>)
    ensures
        match login_location_of(public_path@, original_uri@) {
            Some(l) => r is Some && r->Some_0@ == l,
            None => r is None,
        },
{
    let query = encode_form_pair("redirect_to", original_uri);
    let full = String::from_str(public_path).concat("/login?").concat(query.as_str());
    if header_value_ok(full.as_str()) {
        return Some(full);
    }
    let bare = String::from_str(public_path).concat("/login");
    if header_value_ok(bare.as_str()) {
        Some(bare)
    } else {
        None
    }
}


/// The password in the request's Basic credentials, if any: from the first
/// `Authorization` value.
pub open spec fn basic_credential(h: HeadersView) -> Option<Seq<char>> {
    match first_value(h, "authorization"@) {
        Some(v) => basic_password_of(v),
        None => None,
    }
}

/// The token in the request's Bearer credentials, if any: from the first
/// `Authorization` value.
pub open spec fn bearer_credential(h: HeadersView) -> Option<Seq<char>> {
    match first_value(h, "authorization"@) {
        Some(v) => bearer_token_of(v),
        None => None,
    }
}

/// The value of the session cookie `name` in the request, if any.
pub open spec fn session_cookie(h: HeadersView, name: Seq<char>) -> Option<Seq<char>> {
    cookie_value_of(all_values(h, "cookie"@), name)
}

/// Basic: valid when the credentials' password checks out; otherwise a
/// refusal with the Basic challenge. Returns the cache afterwards too.
pub open spec fn basic_outcome(
    cache: Seq<(Seq<char>, Seq<char>)>,
    config: AuthConfig,
    h: HeadersView,
) -> (AuthView, Seq<(Seq<char>, Seq<char>)>) {
    match basic_credential(h) {
        Some(pw) => {
            let (ok, after) = password_check(cache, pw, config.password);
            if ok {
                ((true, None), after)
            } else {
                (refusal_with("www-authenticate"@, BASIC_CHALLENGE@), after)
            }
        },
        None => (refusal_with("www-authenticate"@, BASIC_CHALLENGE@), cache),
    }
}

/// Bearer: valid when the token checks out as the password; a wrong token
/// is refused with the `invalid_token` challenge, a missing one with the
/// plain Bearer challenge.
pub open spec fn bearer_outcome(
    cache: Seq<(Seq<char>, Seq<char>)>,
    config: AuthConfig,
    h: HeadersView,
) -> (AuthView, Seq<(Seq<char>, Seq<char>)>) {
    match bearer_credential(h) {
        Some(t) => {
            let (ok, after) = password_check(cache, t, config.password);
            if ok {
                ((true, None), after)
            } else {
                (refusal_with("www-authenticate"@, BEARER_INVALID_CHALLENGE@), after)
            }
        },
        None => (refusal_with("www-authenticate"@, BEARER_CHALLENGE@), cache),
    }
}

/// Session: valid when the session manager accepted the cookie
/// (`session_valid`); otherwise a refusal, which sends a browser to the
/// login page.
pub open spec fn session_outcome(
    public_path: Seq<char>,
    original_uri: Seq<char>,
    h: HeadersView,
    session_valid: bool,
) -> AuthView {
    if session_valid {
        (true, None)
    } else if wants_html(h) {
        match login_location_of(public_path, original_uri) {
            Some(l) => refusal_with("location"@, l),
            None => (false, None),
        }
    } else {
        (false, None)
    }
}

/// The headers gathered so far, with those of a refusal added after them.
pub open spec fn merge_headers(acc: Option<HeadersView>, v: AuthView) -> Option<HeadersView> {
    match v.1 {
        None => acc,
        Some(more) => match acc {
            Some(a) => Some(a + more),
            None => Some(more),
        },
    }
}

/// Running the enabled methods in the order Basic, Bearer, session: the
/// first valid outcome is the answer, as it is; if none is valid, a refusal
/// with the headers of all refusals, in that order. A disabled method is
/// skipped. `session_valid` is the session manager's verdict on the cookie.
pub open spec fn authenticate_outcome(
    cache: Seq<(Seq<char>, Seq<char>)>,
    config: AuthConfig,
    public_path: Seq<char>,
    original_uri: Seq<char>,
    h: HeadersView,
    session_valid: bool,
) -> (AuthView, Seq<(Seq<char>, Seq<char>)>) {
    let (b, c1) = if config.allow_basic {
        basic_outcome(cache, config, h)
    } else {
        ((false, None), cache)
    };
    let (t, c2) = if config.allow_bearer {
        bearer_outcome(c1, config, h)
    } else {
        ((false, None), c1)
    };
    let s = if config.allow_session {
        session_outcome(public_path, original_uri, h, session_valid)
    } else {
        (false, None)
    };
    if b.0 {
        (b, c1)
    } else if t.0 {
        (t, c2)
    } else if s.0 {
        (s, c2)
    } else {
        ((false, merge_headers(merge_headers(merge_headers(None, b), t), s)), c2)
    }
}

/// Whether the session method runs: it is enabled, and neither enabled
/// method before it accepted the request.
pub open spec fn reaches_session(
    cache: Seq<(Seq<char>, Seq<char>)>,
    config: AuthConfig,
    h: HeadersView,
) -> bool {
    let (b, c1) = basic_outcome(cache, config, h);
    &&& config.allow_session
    &&& !(config.allow_basic && b.0)
    &&& !(config.allow_bearer && bearer_outcome(
        if config.allow_basic {
            c1
        } else {
            cache
        },
        config,
        h,
    ).0.0)
}

/// The session manager's verdict on a request's cookie: a request without
/// the cookie is not valid and changes nothing.
pub open spec fn cookie_verdict(
    v: StoreState,
    cookie: Option<Seq<char>>,
    expiry: crate::config::SessionExpiry,
    now: u128,
) -> (bool, StoreState) {
    match cookie {
        Some(t) => check_step(v, token_of_text(t), expiry, now),
        None => (false, v),
    }
}

/// HTTP Basic authentication; only the password is checked.
pub struct BasicAuth;

impl BasicAuth {
    pub fn new() -> (r: BasicAuth) {
        BasicAuth
    }

    /// Whether the operator enabled this method.
    pub fn is_allowed(&self, config: &AuthConfig) -> (r: bool)
        ensures
            r == config.allow_basic,
    {
        config.allow_basic
    }

    /// See `basic_outcome`.
    pub fn verify(&self, checker: &mut PasswordChecker, config: &AuthConfig, headers: &Headers) -> (r:
        AuthResult)
        ensures
            (r@, final(checker)@) == basic_outcome(old(checker)@, *config, headers@),
    {
        let password = match headers.get("authorization") {
            Some(v) => decode_basic(v.as_str()),
            None => None,
        };
        if let Some(password) = password {
            if checker.check_password(password.as_str(), &config.password) {
                return AuthResult::valid();
            }
        }
        AuthResult::invalid().with_header("www-authenticate", String::from_str(BASIC_CHALLENGE))
    }
}

/// HTTP Bearer authentication; the token is checked as the password.
pub struct BearerAuth;

impl BearerAuth {
    pub fn new() -> (r: BearerAuth) {
        BearerAuth
    }

    /// Whether the operator enabled this method.
    pub fn is_allowed(&self, config: &AuthConfig) -> (r: bool)
        ensures
            r == config.allow_bearer,
    {
        config.allow_bearer
    }

    /// See `bearer_outcome`.
    pub fn verify(&self, checker: &mut PasswordChecker, config: &AuthConfig, headers: &Headers) -> (r:
        AuthResult)
        ensures
            (r@, final(checker)@) == bearer_outcome(old(checker)@, *config, headers@),
    {
        let token = match headers.get("authorization") {
            Some(v) => decode_bearer(v.as_str()),
            None => None,
        };
        match token {
            Some(token) => {
                if checker.check_password(token.as_str(), &config.password) {
                    AuthResult::valid()
                } else {
                    AuthResult::invalid().with_header(
                        "www-authenticate",
                        String::from_str(BEARER_INVALID_CHALLENGE),
                    )
                }
            },
            None => AuthResult::invalid().with_header(
                "www-authenticate",
                String::from_str(BEARER_CHALLENGE),
            ),
        }
    }
}

/// Interactive sessions, carried by a cookie.
pub struct SessionAuth {
    pub public_path: String,
}

impl SessionAuth {
    /// Sends browsers to the login page under `public_path`.
    pub fn new(public_path: String) -> (r: SessionAuth)
        ensures
            r.public_path == public_path,
    {
        SessionAuth { public_path }
    }

    /// Whether the operator enabled this method.
    pub fn is_allowed(&self, config: &AuthConfig) -> (r: bool)
        ensures
            r == config.allow_session,
    {
        config.allow_session
    }

    /// See `session_outcome`; the cookie is checked at `now`.
    pub fn verify_at(
        &self,
        manager: &mut SessionManager,
        config: &AuthConfig,
        original_uri: &str,
        headers: &Headers,
        now: u128,
    ) -> (r: Result<AuthResult, DatastoreError>)
        ensures
            final(manager).expiry == old(manager).expiry,
            final(manager).datastore.is_memory() == old(manager).datastore.is_memory(),
            r is Ok ==> exists|valid: bool|
                {
                    &&& r->Ok_0@ == #[trigger] session_outcome(
                        self.public_path@,
                        original_uri@,
                        headers@,
                        valid,
                    )
                    &&& valid ==> session_cookie(headers@, config.session_cookie_name@) is Some
                },
            old(manager).datastore.is_memory() ==> ({
                let (valid, v) = cookie_verdict(
                    old(manager).datastore.view(),
                    session_cookie(headers@, config.session_cookie_name@),
                    old(manager).expiry,
                    now,
                );
                &&& r is Ok
                &&& r->Ok_0@ == session_outcome(self.public_path@, original_uri@, headers@, valid)
                &&& final(manager).datastore.view() == v
            }),
            session_cookie(headers@, config.session_cookie_name@) is None ==> r is Ok && *final(
            manager) == *old(manager),
            r is Err ==> session_cookie(headers@, config.session_cookie_name@) is Some && !old(
            manager).datastore.is_memory() && (r->Err_0 is HeedError || r->Err_0 is Corrupt),
    {
        let values = headers.get_all("cookie");
        proof {
            assert(values@.map_values(|s: String| s@) == all_values(headers@, "cookie"@));
        }
        let checked = match lookup_cookie(&values, config.session_cookie_name.as_str()) {
            Some(token) => manager.check_session_at(token.as_str(), now),
            None => Ok(false),
        };
        self.outcome_after_check(checked, original_uri, headers)
    }

    /// Goes on from the session manager's answer on the cookie: a failed
    /// check is returned as it is; otherwise `session_outcome` on the
    /// verdict.
    pub fn outcome_after_check(
        &self,
        checked: Result<bool, DatastoreError>,
        original_uri: &str,
        headers: &Headers,
    ) -> (r: Result<AuthResult, DatastoreError>)
        ensures
            match checked {
                Err(e) => r == Err::<AuthResult, DatastoreError>(e),
                Ok(valid) => r is Ok && r->Ok_0@ == session_outcome(
                    self.public_path@,
                    original_uri@,
                    headers@,
                    valid,
                ),
            },
    {
        let valid = match checked {
            Err(e) => {
                return Err(e);
            },
            Ok(v) => v,
        };
        let result = if valid {
            AuthResult::valid()
        } else if should_redirect(headers) {
            match login_location(self.public_path.as_str(), original_uri) {
                Some(location) => AuthResult::invalid().with_header("location", location),
                None => AuthResult::invalid(),
            }
        } else {
            AuthResult::invalid()
        };
        Ok(result)
    }
}


/// Adds the headers of a refusal to those gathered so far.
fn append_result(all: &mut Option<Headers>, result: AuthResult)
    ensures
        match *final(all) {
            Some(h) => Some(h@),
            None => None::<HeadersView>,
        } == merge_headers(
            match *old(all) {
                Some(h) => Some(h@),
                None => None,
            },
            result@,
        ),
{
    if let Some(headers) = result.response_headers {
        let mut acc = None;
        std::mem::swap(&mut acc, all);
        match acc {
            Some(mut existing) => {
                existing.extend(headers);
                *all = Some(existing);
            },
            None => {
                *all = Some(headers);
            },
        }
    }
}

/// Runs the enabled methods in order and combines their outcomes.
pub struct Authenticator {
    pub basic: BasicAuth,
    pub bearer: BearerAuth,
    pub session: SessionAuth,
    pub password_checker: PasswordChecker,
    pub session_manager: SessionManager,
}

impl Authenticator {
    /// An authenticator whose login page lives under `public_path`.
    pub fn new(
        public_path: String,
        password_checker: PasswordChecker,
        session_manager: SessionManager,
    ) -> (r: Authenticator)
        ensures
            r.session.public_path == public_path,
            r.password_checker == password_checker,
            r.session_manager == session_manager,
    {
        Authenticator {
            basic: BasicAuth::new(),
            bearer: BearerAuth::new(),
            session: SessionAuth::new(public_path),
            password_checker,
            session_manager,
        }
    }

    /// See `authenticate_outcome`; session cookies are checked at `now`. A
    /// datastore error ends the run at once.
    pub fn authenticate_at(
        &mut self,
        config: &AuthConfig,
        original_uri: &str,
        headers: &Headers,
        now: u128,
    ) -> (r: Result<AuthResult, DatastoreError>)
        ensures
            final(self).session.public_path == old(self).session.public_path,
            final(self).session_manager.expiry == old(self).session_manager.expiry,
            final(self).session_manager.datastore.is_memory() == old(
                self,
            ).session_manager.datastore.is_memory(),
            r is Ok ==> exists|valid: bool|
                {
                    &&& (r->Ok_0@, final(self).password_checker@) == #[trigger] authenticate_outcome(
                        old(self).password_checker@,
                        *config,
                        old(self).session.public_path@,
                        original_uri@,
                        headers@,
                        valid,
                    )
                    &&& valid ==> session_cookie(headers@, config.session_cookie_name@) is Some
                },
            old(self).session_manager.datastore.is_memory() ==> ({
                let reached = reaches_session(old(self).password_checker@, *config, headers@);
                let (valid, v) = cookie_verdict(
                    old(self).session_manager.datastore.view(),
                    session_cookie(headers@, config.session_cookie_name@),
                    old(self).session_manager.expiry,
                    now,
                );
                &&& r is Ok
                &&& (r->Ok_0@, final(self).password_checker@) == authenticate_outcome(
                    old(self).password_checker@,
                    *config,
                    old(self).session.public_path@,
                    original_uri@,
                    headers@,
                    reached && valid,
                )
                &&& final(self).session_manager.datastore.view() == if reached {
                    v
                } else {
                    old(self).session_manager.datastore.view()
                }
            }),
            !reaches_session(old(self).password_checker@, *config, headers@) ==> r is Ok
                && final(self).session_manager == old(self).session_manager,
            r is Err ==> reaches_session(old(self).password_checker@, *config, headers@) && !old(
            self).session_manager.datastore.is_memory() && (r->Err_0 is HeedError || r->Err_0 is Corrupt),
    {
        let ghost cache0 = self.password_checker@;
        let mut all: Option<Headers> = None;
        if self.basic.is_allowed(config) {
            let result = self.basic.verify(&mut self.password_checker, config, headers);
            if result.valid {
                proof {
                    assert((result@, self.password_checker@) == authenticate_outcome(
                        cache0,
                        *config,
                        self.session.public_path@,
                        original_uri@,
                        headers@,
                        false,
                    ));
                }
                return Ok(result);
            }
            append_result(&mut all, result);
        }
        if self.bearer.is_allowed(config) {
            let result = self.bearer.verify(&mut self.password_checker, config, headers);
            if result.valid {
                proof {
                    assert((result@, self.password_checker@) == authenticate_outcome(
                        cache0,
                        *config,
                        self.session.public_path@,
                        original_uri@,
                        headers@,
                        false,
                    ));
                }
                return Ok(result);
            }
            append_result(&mut all, result);
        }
        let ghost mut valid = false;
        if self.session.is_allowed(config) {
            let result = self.session.verify_at(
                &mut self.session_manager,
                config,
                original_uri,
                headers,
                now,
            )?;
            proof {
                let w = choose|w: bool|
                    {
                        &&& result@ == #[trigger] session_outcome(
                            self.session.public_path@,
                            original_uri@,
                            headers@,
                            w,
                        )
                        &&& w ==> session_cookie(headers@, config.session_cookie_name@) is Some
                    };
                valid = w;
            }
            if result.valid {
                proof {
                    assert((result@, self.password_checker@) == authenticate_outcome(
                        cache0,
                        *config,
                        self.session.public_path@,
                        original_uri@,
                        headers@,
                        valid,
                    ));
                }
                return Ok(result);
            }
            append_result(&mut all, result);
        }
        let result = AuthResult { valid: false, response_headers: all };
        proof {
            assert((result@, self.password_checker@) == authenticate_outcome(
                cache0,
                *config,
                self.session.public_path@,
                original_uri@,
                headers@,
                valid,
            ));
        }
        Ok(result)
    }

    /// Authenticates a request at the current time; see `authenticate_at`.
    pub fn authenticate(&mut self, config: &AuthConfig, original_uri: &str, headers: &Headers) -> (r:
        Result<AuthResult, DatastoreError>)
        ensures
            r is Ok ==> exists|valid: bool|
                {
                    &&& (r->Ok_0@, final(self).password_checker@) == #[trigger] authenticate_outcome(
                        old(self).password_checker@,
                        *config,
                        old(self).session.public_path@,
                        original_uri@,
                        headers@,
                        valid,
                    )
                    &&& valid ==> session_cookie(headers@, config.session_cookie_name@) is Some
                },
            !reaches_session(old(self).password_checker@, *config, headers@) ==> r is Ok
                && final(self).session_manager == old(self).session_manager,
            r is Err ==> reaches_session(old(self).password_checker@, *config, headers@) && !old(
            self).session_manager.datastore.is_memory() && (r->Err_0 is HeedError || r->Err_0 is Corrupt),
            old(self).session_manager.datastore.is_memory() ==> r is Ok && exists|now: u128|
                {
                    let reached = reaches_session(old(self).password_checker@, *config, headers@);
                    let (valid, v) = #[trigger] cookie_verdict(
                        old(self).session_manager.datastore.view(),
                        session_cookie(headers@, config.session_cookie_name@),
                        old(self).session_manager.expiry,
                        now,
                    );
                    &&& (r->Ok_0@, final(self).password_checker@) == authenticate_outcome(
                        old(self).password_checker@,
                        *config,
                        old(self).session.public_path@,
                        original_uri@,
                        headers@,
                        reached && valid,
                    )
                    &&& final(self).session_manager.datastore.view() == if reached {
                        v
                    } else {
                        old(self).session_manager.datastore.view()
                    }
                },
    {
        let now = now_nanos();
        let r = self.authenticate_at(config, original_uri, headers, now);
        proof {
            let _ = cookie_verdict(
                old(self).session_manager.datastore.view(),
                session_cookie(headers@, config.session_cookie_name@),
                old(self).session_manager.expiry,
                now,
            );
        }
        r
    }
}

} // verus!
