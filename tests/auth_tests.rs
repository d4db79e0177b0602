use base64ct::{Base64, Encoding};
use dumb_auth::auth::{login_location, should_redirect, AuthResult, Authenticator, SessionAuth};
use dumb_auth::datastore::DatastoreError;
use dumb_auth::config::{AppConfig, AuthConfig};
use dumb_auth::datastore::Datastore;
use dumb_auth::headers::Headers;
use dumb_auth::login::{login, LoginForm};
use dumb_auth::passwords::{Password, PasswordChecker};
use dumb_auth::sessions::SessionManager;

const PASSWORD: &str = "hunter2";
const ORIGINAL_URI: &str = "/original?uri&query=param";
const ORIGINAL_URI_ENCODED: &str = "%2Foriginal%3Furi%26query%3Dparam";

fn setup(basic: bool, bearer: bool, session: bool) -> (AppConfig, Authenticator) {
    let mut config = AppConfig::default(AuthConfig::default(Password::Plain(PASSWORD.to_string())));
    config.auth_config.allow_basic = basic;
    config.auth_config.allow_bearer = bearer;
    config.auth_config.allow_session = session;
    let manager = SessionManager::new(config.auth_config.session_expiry, Datastore::new_in_memory());
    let auth = Authenticator::new(config.public_path.clone(), PasswordChecker::new(), manager);
    (config, auth)
}

fn request(pairs: &[(&str, &str)]) -> Headers {
    let mut h = Headers::new();
    for (k, v) in pairs {
        h.append(k, v.to_string());
    }
    h
}

fn basic(user: &str, password: Option<&str>) -> String {
    let creds = format!("{}:{}", user, password.unwrap_or(""));
    format!("Basic {}", Base64::encode_string(creds.as_bytes()))
}

fn values(result: &AuthResult, name: &str) -> Vec<String> {
    match &result.response_headers {
        Some(h) => h.get_all(name),
        None => vec![],
    }
}

fn check(auth: &mut Authenticator, config: &AppConfig, headers: &Headers) -> AuthResult {
    auth.authenticate(&config.auth_config, ORIGINAL_URI, headers).unwrap()
}

#[test]
fn basic_returns_401_with_no_auth() {
    let (config, mut auth) = setup(true, false, true);
    let r = check(&mut auth, &config, &request(&[]));
    assert!(!r.valid);
    assert_eq!(values(&r, "www-authenticate"), vec!["Basic realm=\"dumb-auth\"".to_string()]);
}

#[test]
fn returns_401_with_no_password() {
    let (config, mut auth) = setup(true, false, true);
    let r = check(&mut auth, &config, &request(&[("authorization", &basic("user", None))]));
    assert!(!r.valid);
    assert_eq!(values(&r, "www-authenticate"), vec!["Basic realm=\"dumb-auth\"".to_string()]);
}

#[test]
fn basic_returns_401_with_incorrect_password() {
    let (config, mut auth) = setup(true, false, true);
    let r = check(&mut auth, &config, &request(&[("authorization", &basic("user", Some("invalid")))]));
    assert!(!r.valid);
    assert_eq!(values(&r, "www-authenticate"), vec!["Basic realm=\"dumb-auth\"".to_string()]);
}

#[test]
fn basic_returns_200_with_correct_password() {
    let (config, mut auth) = setup(true, false, true);
    let r = check(&mut auth, &config, &request(&[("authorization", &basic("user", Some(PASSWORD)))]));
    assert!(r.valid);
    assert!(values(&r, "www-authenticate").is_empty());
}

#[test]
fn bearer_returns_401_with_no_auth() {
    let (config, mut auth) = setup(false, true, true);
    let r = check(&mut auth, &config, &request(&[]));
    assert!(!r.valid);
    assert_eq!(values(&r, "www-authenticate"), vec!["Bearer realm=\"dumb-auth\"".to_string()]);
}

#[test]
fn bearer_returns_401_with_incorrect_password() {
    let (config, mut auth) = setup(false, true, true);
    let r = check(&mut auth, &config, &request(&[("authorization", "Bearer invalid")]));
    assert!(!r.valid);
    assert_eq!(
        values(&r, "www-authenticate"),
        vec!["Bearer realm=\"dumb-auth\", error=\"invalid_token\"".to_string()]
    );
}

#[test]
fn bearer_returns_200_with_correct_password() {
    let (config, mut auth) = setup(false, true, true);
    let r = check(&mut auth, &config, &request(&[("authorization", "Bearer hunter2")]));
    assert!(r.valid);
    assert!(values(&r, "www-authenticate").is_empty());
}

#[test]
fn basic_and_bearer_challenges_are_both_sent() {
    let (config, mut auth) = setup(true, true, false);
    let r = check(&mut auth, &config, &request(&[]));
    assert!(!r.valid);
    assert_eq!(
        values(&r, "www-authenticate"),
        vec!["Basic realm=\"dumb-auth\"".to_string(), "Bearer realm=\"dumb-auth\"".to_string()]
    );
}

#[test]
fn no_method_enabled_is_invalid_without_headers() {
    let (config, mut auth) = setup(false, false, false);
    let r = check(&mut auth, &config, &request(&[("authorization", "Bearer hunter2")]));
    assert!(!r.valid);
    assert!(r.response_headers.is_none());
}

#[test]
fn redirects_browser_to_login_when_no_session() {
    let (config, mut auth) = setup(false, false, true);
    let r = check(&mut auth, &config, &request(&[("accept", "text/html")]));
    assert!(!r.valid);
    assert_eq!(
        values(&r, "location"),
        vec![format!("/auth/login?redirect_to={}", ORIGINAL_URI_ENCODED)]
    );
    assert!(values(&r, "www-authenticate").is_empty());
}

#[test]
fn redirects_browser_to_login_when_session_invalid() {
    let (config, mut auth) = setup(false, false, true);
    let cookie = format!("{}=invalid", AuthConfig::DEFAULT_SESSION_COOKIE_NAME);
    let r = check(&mut auth, &config, &request(&[("accept", "text/html"), ("cookie", &cookie)]));
    assert!(!r.valid);
    assert_eq!(
        values(&r, "location"),
        vec![format!("/auth/login?redirect_to={}", ORIGINAL_URI_ENCODED)]
    );
    assert!(values(&r, "www-authenticate").is_empty());
}

#[test]
fn returns_401_when_non_browser() {
    let (config, mut auth) = setup(false, false, true);
    let r = check(&mut auth, &config, &request(&[]));
    assert!(!r.valid);
    assert!(values(&r, "location").is_empty());
    assert!(values(&r, "www-authenticate").is_empty());
}

#[test]
fn session_login_returns_401_with_incorrect_password() {
    let (config, mut auth) = setup(false, false, true);
    let form = LoginForm { password: "invalid".to_string() };
    let cookie = login(&mut auth.password_checker, &mut auth.session_manager, &config.auth_config, &form)
        .unwrap();
    assert!(cookie.is_none());
}

#[test]
fn session_login_grants_session_with_correct_password() {
    let (config, mut auth) = setup(false, false, true);
    let form = LoginForm { password: PASSWORD.to_string() };
    let cookie = login(&mut auth.password_checker, &mut auth.session_manager, &config.auth_config, &form)
        .unwrap()
        .unwrap();
    assert_eq!(cookie.name, AuthConfig::DEFAULT_SESSION_COOKIE_NAME);
    assert_eq!(cookie.path, "/");
    assert!(cookie.same_site_lax && cookie.http_only && cookie.secure);
    assert_eq!(cookie.max_age_nanos, Some(2_419_200_000_000_000));
    assert!(cookie.domain.is_none());

    let header = format!("{}={}", cookie.name, cookie.value);
    let r = check(&mut auth, &config, &request(&[("cookie", &header)]));
    assert!(r.valid);
    assert!(values(&r, "location").is_empty());
    assert!(values(&r, "www-authenticate").is_empty());
}

#[test]
fn session_cookie_found_among_other_cookies() {
    let (config, mut auth) = setup(false, false, true);
    let form = LoginForm { password: PASSWORD.to_string() };
    let cookie = login(&mut auth.password_checker, &mut auth.session_manager, &config.auth_config, &form)
        .unwrap()
        .unwrap();
    let header = format!("other=1; {}={}", cookie.name, cookie.value);
    let r = check(&mut auth, &config, &request(&[("cookie", "a=b"), ("cookie", &header)]));
    assert!(r.valid);
}

#[test]
fn should_redirect_reads_media_types() {
    assert!(should_redirect(&request(&[("accept", "text/html")])));
    assert!(should_redirect(&request(&[("accept", "application/json,TEXT/HTML;q=0.9")])));
    assert!(should_redirect(&request(&[("accept", "text/plain;q=1,text/html")])));
    assert!(!should_redirect(&request(&[("accept", "*/*")])));
    assert!(!should_redirect(&request(&[("accept", "text/plain;text/html")])));
    assert!(!should_redirect(&request(&[("accept", "application/xhtml+xml, text/htm")])));
    assert!(!should_redirect(&request(&[])));
}

#[test]
fn login_location_encodes_the_original_uri() {
    assert_eq!(
        login_location("/auth", ORIGINAL_URI).unwrap(),
        format!("/auth/login?redirect_to={}", ORIGINAL_URI_ENCODED)
    );
    assert_eq!(login_location("/p", "a b").unwrap(), "/p/login?redirect_to=a+b");
    assert_eq!(login_location("/p\n", "x").unwrap_or_default(), "");
}

#[test]
fn session_errors_are_not_refusals() {
    let session = SessionAuth::new("/auth".to_string());
    let headers = request(&[("accept", "text/html")]);
    let failed = session.outcome_after_check(Err(DatastoreError::Corrupt), ORIGINAL_URI, &headers);
    assert!(matches!(failed, Err(DatastoreError::Corrupt)));
    let refused = session.outcome_after_check(Ok(false), ORIGINAL_URI, &headers).unwrap();
    assert!(!refused.valid);
    assert_eq!(values(&refused, "location").len(), 1);
    assert!(session.outcome_after_check(Ok(true), ORIGINAL_URI, &headers).unwrap().valid);
}
