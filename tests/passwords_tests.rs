use dumb_auth::config::{parse_base_path, trim_line_ending, validate_password};
use dumb_auth::passwords::{hash_password, Password, PasswordChecker};

#[test]
fn plain_password_checks() {
    let mut checker = PasswordChecker::new();
    let configured = Password::Plain("hunter2".to_string());
    assert!(checker.check_password("hunter2", &configured));
    assert!(!checker.check_password("hunter3", &configured));
    assert!(!checker.check_password("", &configured));
}

#[test]
fn hashed_password_checks_twice_and_fresh() {
    let hash = hash_password("hunter2").unwrap();
    assert!(hash.starts_with("$argon2id$"));
    let configured = Password::Hash(hash.clone());
    let mut checker = PasswordChecker::new();
    assert!(checker.check_password("hunter2", &configured));
    assert!(checker.check_password("hunter2", &configured));
    assert!(!checker.check_password("hunter3", &configured));
    let mut fresh = PasswordChecker::new();
    assert!(fresh.check_password("hunter2", &configured));
}

#[test]
fn wrong_password_is_not_cached() {
    let hash = hash_password("hunter2").unwrap();
    let configured = Password::Hash(hash);
    let mut checker = PasswordChecker::new();
    assert!(!checker.check_password("nope", &configured));
    assert!(checker.check_password("hunter2", &configured));
}

#[test]
fn unparsable_hash_accepts_nothing() {
    let mut checker = PasswordChecker::new();
    let configured = Password::Hash("not a hash".to_string());
    assert!(!checker.check_password("not a hash", &configured));
}

#[test]
fn two_hashes_of_one_password_differ() {
    let a = hash_password("pw").unwrap();
    let b = hash_password("pw").unwrap();
    assert_ne!(a, b);
}

#[test]
fn base_paths() {
    assert_eq!(parse_base_path("/auth"), Ok("/auth".to_string()));
    assert_eq!(parse_base_path("/"), Ok("/".to_string()));
    assert_eq!(parse_base_path("/a/b"), Ok("/a/b".to_string()));
    assert_eq!(parse_base_path(""), Err("base path must not be empty".to_string()));
    assert_eq!(parse_base_path("auth"), Err("base path must start with '/'".to_string()));
    assert_eq!(parse_base_path("/auth/"), Err("base path must not end with '/'".to_string()));
    assert_eq!(parse_base_path("/a//b"), Err("base path must not contain '//'".to_string()));
    assert_eq!(parse_base_path("/a.b"), Err("base path must not contain '.'".to_string()));
    assert_eq!(parse_base_path("/a{b"), Err("base path must not contain '{'".to_string()));
    assert_eq!(parse_base_path("/a}b"), Err("base path must not contain '}'".to_string()));
}

#[test]
fn password_file_line_endings() {
    assert_eq!(trim_line_ending("hunter2\n"), "hunter2");
    assert_eq!(trim_line_ending("hunter2\r\n"), "hunter2");
    assert_eq!(trim_line_ending("hunter2\n\n"), "hunter2\n");
    assert_eq!(trim_line_ending("hunter2\r"), "hunter2\r");
    assert_eq!(trim_line_ending("hunter2"), "hunter2");
    assert_eq!(trim_line_ending("\n"), "");
    assert_eq!(trim_line_ending(""), "");
}

#[test]
fn empty_plain_password_is_refused() {
    assert_eq!(
        validate_password(Password::Plain(String::new())).err(),
        Some("Password cannot be empty".to_string())
    );
    assert!(validate_password(Password::Plain("x".to_string())).is_ok());
    assert!(validate_password(Password::Hash(String::new())).is_ok());
}
