use dumb_auth::datastore::lmdb::{
    check_metadata, decode_record, encode_record, initial_metadata, next_session_id, MARKER, VERSION,
};
use dumb_auth::config::SessionExpiry;
use dumb_auth::datastore::{Datastore, DatastoreError, InMemoryDatastore};
use dumb_auth::sessions::{record_verdict, verdict_after_delete, verdict_after_read, SessionManager};
use dumb_auth::token::{
    ct_eq, verify_password, DecodeSessionTokenError, SessionData, SessionId, SessionSecret,
    SessionToken,
};

const HOUR: u128 = 3_600_000_000_000;

#[test]
fn created_session_checks_valid() {
    let mut manager = SessionManager::new(SessionExpiry::Duration(HOUR), Datastore::new_in_memory());
    let token = manager.create_session().unwrap();
    assert_eq!(token.secret.0.len(), 32);
    assert_eq!(token.id, SessionId(1));
    assert!(manager.check_session(&token.encode()).unwrap());
    assert!(manager.check_session(&token.encode()).unwrap());
}

#[test]
fn ids_count_up_from_one() {
    let mut manager = SessionManager::new(SessionExpiry::Never, Datastore::new_in_memory());
    let a = manager.create_session().unwrap();
    let b = manager.create_session().unwrap();
    assert_eq!(a.id, SessionId(1));
    assert_eq!(b.id, SessionId(2));
    assert!(!a.secret.verify(&b.secret));
}

#[test]
fn tampered_secret_is_invalid() {
    let mut manager = SessionManager::new(SessionExpiry::Never, Datastore::new_in_memory());
    let token = manager.create_session().unwrap();
    for bit in [0usize, 7, 100, 255] {
        let mut secret = token.secret.0.clone();
        secret[bit / 8] ^= 1 << (bit % 8);
        let forged = SessionToken { id: token.id, secret: SessionSecret(secret) };
        assert!(!manager.check_session(&forged.encode()).unwrap());
    }
    assert!(manager.check_session(&token.encode()).unwrap());
}

#[test]
fn unknown_id_is_invalid() {
    let mut manager = SessionManager::new(SessionExpiry::Never, Datastore::new_in_memory());
    let token = manager.create_session().unwrap();
    let other = SessionToken { id: SessionId(99), secret: token.secret.copy() };
    assert!(!manager.check_session(&other.encode()).unwrap());
}

#[test]
fn malformed_tokens_are_invalid() {
    let mut manager = SessionManager::new(SessionExpiry::Never, Datastore::new_in_memory());
    manager.create_session().unwrap();
    assert!(!manager.check_session("invalid").unwrap());
    assert!(!manager.check_session("").unwrap());
    assert!(!manager.check_session("!!!!").unwrap());
}

#[test]
fn expired_session_is_invalid_and_deleted() {
    let mut manager = SessionManager::new(SessionExpiry::Duration(HOUR), Datastore::new_in_memory());
    let token = manager.create_session_with(SessionSecret(vec![9u8; 32]), 1_000).unwrap();
    let text = token.encode();
    assert!(manager.check_session_at(&text, 1_000 + HOUR - 1).unwrap());
    assert!(!manager.check_session_at(&text, 1_000 + HOUR + 1).unwrap());
    assert!(manager.datastore.read_session(token.id).unwrap().is_none());
    assert!(!manager.check_session_at(&text, 1_000).unwrap());
}

#[test]
fn expiry_at_exactly_the_duration() {
    let mut manager = SessionManager::new(SessionExpiry::Duration(HOUR), Datastore::new_in_memory());
    let token = manager.create_session_with(SessionSecret(vec![1u8; 32]), 0).unwrap();
    assert!(!manager.check_session_at(&token.encode(), HOUR).unwrap());
}

#[test]
fn clock_before_creation_counts_as_no_time() {
    let mut manager = SessionManager::new(SessionExpiry::Duration(HOUR), Datastore::new_in_memory());
    let token = manager.create_session_with(SessionSecret(vec![1u8; 32]), 5 * HOUR).unwrap();
    assert!(manager.check_session_at(&token.encode(), 0).unwrap());
}

#[test]
fn scoped_and_never_sessions_do_not_expire() {
    for expiry in [SessionExpiry::Never, SessionExpiry::SessionScoped] {
        let mut manager = SessionManager::new(expiry, Datastore::new_in_memory());
        let token = manager.create_session_with(SessionSecret(vec![1u8; 32]), 0).unwrap();
        assert!(manager.check_session_at(&token.encode(), u128::MAX).unwrap());
    }
}

#[test]
fn token_text_round_trip() {
    let token = SessionToken { id: SessionId(0x0102030405060708), secret: SessionSecret(vec![3u8; 32]) };
    assert_eq!(
        token.to_bytes()[..8].to_vec(),
        vec![1u8, 2, 3, 4, 5, 6, 7, 8]
    );
    let text = token.encode();
    assert_eq!(text.len(), 54);
    let back = SessionToken::decode(&text).unwrap();
    assert_eq!(back.id, token.id);
    assert_eq!(back.secret.0, token.secret.0);
}

#[test]
fn decode_errors() {
    assert!(matches!(
        SessionToken::decode("a*b"),
        Err(DecodeSessionTokenError::Base64Error(_))
    ));
    assert!(matches!(
        SessionToken::decode("AAAA"),
        Err(DecodeSessionTokenError::InvalidLength)
    ));
}

#[test]
fn from_bytes_needs_forty_bytes() {
    assert!(SessionToken::from_bytes(&[0u8; 39]).is_none());
    assert!(SessionToken::from_bytes(&[0u8; 41]).is_none());
    let t = SessionToken::from_bytes(&[0u8; 40]).unwrap();
    assert_eq!(t.id, SessionId(0));
}

#[test]
fn memory_store_create_read_delete() {
    let mut store = InMemoryDatastore::new();
    let id = store
        .create_session(SessionData { secret: SessionSecret(vec![4, 5]), created: 77 })
        .unwrap();
    assert_eq!(id, SessionId(1));
    let read = store.read_session(id).unwrap();
    assert_eq!(read.secret.0, vec![4, 5]);
    assert_eq!(read.created, 77);
    assert!(store.read_session(SessionId(2)).is_none());
    assert!(store.delete_session(id));
    assert!(!store.delete_session(id));
    assert!(store.read_session(id).is_none());
    let next = store
        .create_session(SessionData { secret: SessionSecret(vec![]), created: 0 })
        .unwrap();
    assert_eq!(next, SessionId(2));
}

#[test]
fn datastore_errors_are_distinct() {
    let e = DatastoreError::UnknownVersion(2);
    assert!(matches!(e, DatastoreError::UnknownVersion(2)));
}

#[test]
fn constant_time_comparisons() {
    assert!(ct_eq(&[1, 2, 3], &[1, 2, 3]));
    assert!(!ct_eq(&[1, 2, 3], &[1, 2, 4]));
    assert!(!ct_eq(&[1, 2], &[1, 2, 3]));
    assert!(verify_password("hunter2", "hunter2"));
    assert!(!verify_password("hunter2", "hunter3"));
    assert!(!verify_password("", "x"));
}

#[test]
fn record_bytes_round_trip() {
    let data = SessionData {
        secret: SessionSecret(vec![7u8; 32]),
        created: 5 * 1_000_000_000 + 42,
    };
    let bytes = encode_record(&data).unwrap();
    assert_eq!(bytes.len(), 8 + 32 + 12);
    assert_eq!(bytes[..8].to_vec(), vec![32u8, 0, 0, 0, 0, 0, 0, 0]);
    assert_eq!(bytes[40..48].to_vec(), vec![5u8, 0, 0, 0, 0, 0, 0, 0]);
    assert_eq!(bytes[48..].to_vec(), vec![42u8, 0, 0, 0]);
    let back = decode_record(&bytes).unwrap();
    assert_eq!(back.secret.0, data.secret.0);
    assert_eq!(back.created, data.created);
    assert!(decode_record(&bytes[..bytes.len() - 1]).is_none());
    assert!(decode_record(&[]).is_none());
    let mut longer = bytes.clone();
    longer.push(9);
    assert_eq!(decode_record(&longer).unwrap().created, data.created);
}

#[test]
fn record_nanoseconds_carry() {
    let mut bytes = vec![0u8; 8];
    bytes.extend_from_slice(&1u64.to_le_bytes());
    bytes.extend_from_slice(&1_500_000_000u32.to_le_bytes());
    let data = decode_record(&bytes).unwrap();
    assert!(data.secret.0.is_empty());
    assert_eq!(data.created, 2_500_000_000);
}

#[test]
fn record_time_out_of_range() {
    let data = SessionData { secret: SessionSecret(vec![]), created: u128::MAX };
    assert!(encode_record(&data).is_none());
}

#[test]
fn counter_decisions() {
    assert!(matches!(next_session_id(None), Err(DatastoreError::Corrupt)));
    assert!(matches!(next_session_id(Some(u64::MAX)), Err(DatastoreError::IdsExhausted)));
    assert!(matches!(next_session_id(Some(1)), Ok((1, 2))));
    assert_eq!(initial_metadata(), (MARKER, 1, 1));
}

#[test]
fn record_verdicts() {
    let token = SessionToken { id: SessionId(1), secret: SessionSecret(vec![1u8; 32]) };
    let stored = Some(SessionData { secret: SessionSecret(vec![1u8; 32]), created: 10 });
    let other = Some(SessionData { secret: SessionSecret(vec![2u8; 32]), created: 10 });
    assert_eq!(record_verdict(&None, &token, SessionExpiry::Never, 0), (false, false));
    assert_eq!(record_verdict(&other, &token, SessionExpiry::Never, 0), (false, false));
    assert_eq!(record_verdict(&stored, &token, SessionExpiry::Never, 99), (true, false));
    assert_eq!(record_verdict(&stored, &token, SessionExpiry::Duration(5), 14), (true, false));
    assert_eq!(record_verdict(&stored, &token, SessionExpiry::Duration(5), 15), (false, true));
}

#[test]
fn metadata_checks() {
    assert!(check_metadata(Some(MARKER), Some(VERSION), Some(1), true).is_ok());
    assert!(matches!(
        check_metadata(None, Some(VERSION), Some(1), true),
        Err(DatastoreError::UnrecognizedFormat)
    ));
    assert!(matches!(
        check_metadata(Some(MARKER + 1), Some(VERSION), Some(1), true),
        Err(DatastoreError::UnrecognizedFormat)
    ));
    assert!(matches!(
        check_metadata(Some(MARKER), Some(2), Some(1), true),
        Err(DatastoreError::UnknownVersion(2))
    ));
    assert!(matches!(
        check_metadata(Some(MARKER), None, Some(1), true),
        Err(DatastoreError::Corrupt)
    ));
    assert!(matches!(
        check_metadata(Some(MARKER), Some(VERSION), None, true),
        Err(DatastoreError::Corrupt)
    ));
    assert!(matches!(
        check_metadata(Some(MARKER), Some(VERSION), Some(1), false),
        Err(DatastoreError::Corrupt)
    ));
    assert_eq!(MARKER.to_be_bytes(), *b"dumbauth");
}

#[test]
fn store_errors_pass_through_the_check() {
    let token = SessionToken { id: SessionId(1), secret: SessionSecret(vec![1u8; 32]) };
    let failed = verdict_after_read(Err(DatastoreError::Corrupt), &token, SessionExpiry::Never, 0);
    assert!(matches!(failed, Err(DatastoreError::Corrupt)));
    let found = Some(SessionData { secret: SessionSecret(vec![1u8; 32]), created: 0 });
    assert!(matches!(
        verdict_after_read(Ok(found), &token, SessionExpiry::Never, 0),
        Ok((true, false))
    ));
    assert!(matches!(verdict_after_delete(Err(DatastoreError::Corrupt)), Err(DatastoreError::Corrupt)));
    assert!(matches!(verdict_after_delete(Ok(true)), Ok(false)));
}

#[test]
fn token_text_is_url_safe() {
    let token = SessionToken { id: SessionId(u64::MAX), secret: SessionSecret(vec![0xffu8; 32]) };
    let text = token.encode();
    assert!(text.chars().all(|c| c.is_ascii_alphanumeric() || c == '-' || c == '_'));
}
