//! Issuing session tokens and checking them against the datastore.

use vstd::prelude::*;

use crate::config::SessionExpiry;
use crate::datastore::{
    create_step, delete_step, is_create_error, record_fits, Datastore, DatastoreError, Record,
    StoreState,
};
use crate::token::{token_of_text, SessionData, SessionSecret, SessionToken, SECRET_SIZE};

verus! {

/// Time from `created` to `now`; none when the clock reads earlier than the
/// creation.
pub open spec fn elapsed(created: u128, now: u128) -> u128 {
    if now >= created {
        (now - created) as u128
    } else {
        0
    }
}

/// Whether a session created at `created` has expired at `now`.
pub open spec fn is_expired(expiry: SessionExpiry, created: u128, now: u128) -> bool {
    match expiry {
        SessionExpiry::Duration(d) => elapsed(created, now) >= d,
        _ => false,
    }
}

/// The verdict on the record found for a token's id: whether the token is
/// valid, and whether the record is to be removed. Valid exactly when there
/// is a record, its secret equals the token's, and it has not expired; an
/// expired record is removed.
pub open spec fn record_verdict_of(
    record: Option<Record>,
    secret: Seq<u8>,
    expiry: SessionExpiry,
    now: u128,
) -> (bool, bool) {
    match record {
        None => (false, false),
        Some((stored, created)) => if stored != secret {
            (false, false)
        } else if is_expired(expiry, created, now) {
            (false, true)
        } else {
            (true, false)
        },
    }
}

/// Checking a token (as decoded, if it decodes) against a store at time
/// `now`: whether it is valid, and the store afterwards; see
/// `record_verdict_of`.
pub open spec fn check_step(
    v: StoreState,
    token: Option<(u64, Seq<u8>)>,
    expiry: SessionExpiry,
    now: u128,
) -> (bool, StoreState) {
    match token {
        None => (false, v),
        Some((id, secret)) => {
            let record = if v.1.contains_key(id) {
                Some(v.1[id])
            } else {
                None
            };
            let (valid, remove) = record_verdict_of(record, secret, expiry, now);
            (valid, if remove {
                delete_step(v, id).1
            } else {
                v
            })
        },
    }
}

/// The verdict on the record read for `token`'s id; see
/// `record_verdict_of`. The secrets are compared in constant time.
pub fn record_verdict(
    record: &Option<SessionData>,
    token: &SessionToken,
    expiry: SessionExpiry,
    now: u128,
) -> (r: (bool, bool))
    ensures
        r == record_verdict_of(
            match record {
                Some(d) => Some(d@),
                None => None,
            },
            token.secret@,
            expiry,
            now,
        ),
{
    let data = match record {
        Some(d) => d,
        None => {
            return (false, false);
        },
    };
    if !data.secret.verify(&token.secret) {
        return (false, false);
    }
    match expiry {
        SessionExpiry::Duration(d) => {
            let age: u128 = if now >= data.created {
                now - data.created
            } else {
                0
            };
            if age >= d {
                (false, true)
            } else {
                (true, false)
            }
        },
        _ => (true, false),
    }
}

/// A session just created is valid when its token is checked right after:
/// at a time no earlier than its creation and, under a `Duration` policy,
/// less than that duration later. `token` is the text of the returned token,
/// which reads back as its id and secret.
pub proof fn lemma_created_session_is_valid(
    v: StoreState,
    secret: Seq<u8>,
    created: u128,
    expiry: SessionExpiry,
    now: u128,
    token: Seq<char>,
)
    requires
        v.0 < u64::MAX,
        secret.len() == SECRET_SIZE,
        created <= now,
        expiry matches SessionExpiry::Duration(d) ==> now - created < d,
        token_of_text(token) == Some((v.0, secret)),
    ensures
        ({
            let (id, after) = create_step(v, (secret, created));
            &&& id == Some(v.0)
            &&& check_step(after, token_of_text(token), expiry, now) == (true, after)
        }),
{
}

/// A token whose id names a stored session but whose secret differs from
/// the stored one, in any way, is invalid, and the check changes nothing.
pub proof fn lemma_wrong_secret_is_invalid(
    v: StoreState,
    id: u64,
    secret: Seq<u8>,
    expiry: SessionExpiry,
    now: u128,
)
    requires
        v.1.contains_key(id),
        secret != v.1[id].0,
    ensures
        check_step(v, Some((id, secret)), expiry, now) == (false, v),
{
}

/// Under a `Duration(d)` policy, a session created more than `d` before the
/// check is invalid, and its record is gone afterwards.
pub proof fn lemma_expired_session_is_removed(v: StoreState, id: u64, d: u128, now: u128)
    requires
        v.1.contains_key(id),
        elapsed(v.1[id].1, now) > d,
    ensures
        ({
            let (valid, after) = check_step(v, Some((id, v.1[id].0)), SessionExpiry::Duration(d), now);
            &&& !valid
            &&& !after.1.contains_key(id)
            &&& after.0 == v.0
        }),
{
}

/// Goes on from the store's answer to reading the token's record: a failed
/// read is returned as it is; otherwise the verdict of `record_verdict`.
pub fn verdict_after_read(
    read: Result<Option<SessionData>, DatastoreError>,
    token: &SessionToken,
    expiry: SessionExpiry,
    now: u128,
) -> (r: Result<(bool, bool), DatastoreError>)
    ensures
        match read {
            Err(e) => r == Err::<(bool, bool), DatastoreError>(e),
            Ok(record) => r == Ok::<(bool, bool), DatastoreError>(
                record_verdict_of(
                    match record {
                        Some(d) => Some(d@),
                        None => None,
                    },
                    token.secret@,
                    expiry,
                    now,
                ),
            ),
        },
{
    match read {
        Err(e) => Err(e),
        Ok(record) => Ok(record_verdict(&record, token, expiry, now)),
    }
}

/// Goes on from the store's answer to removing an expired record: a failed
/// removal is returned as it is; otherwise the token is invalid.
pub fn verdict_after_delete(deleted: Result<bool, DatastoreError>) -> (r: Result<bool, DatastoreError>)
    ensures
        match deleted {
            Err(e) => r == Err::<bool, DatastoreError>(e),
            Ok(_) => r == Ok::<bool, DatastoreError>(false),
        },
{
    match deleted {
        Err(e) => Err(e),
        Ok(_) => Ok(false),
    }
}

/// Relies on std's `SystemTime::now`: the wall-clock time in nanoseconds
/// since the Unix epoch (0 for a clock set before it).
#[verifier::external_body]
pub(crate) fn now_nanos() -> (r: u128) {
    std::time::SystemTime::now().duration_since(std::time::UNIX_EPOCH).map(|d| d.as_nanos()).unwrap_or(0)
}

/// Issues and checks session tokens; owns the expiry policy and the store.
pub struct SessionManager {
    pub expiry: SessionExpiry,
    pub datastore: Datastore,
}

impl SessionManager {
    /// A manager over `datastore` with the policy `expiry`.
    pub fn new(expiry: SessionExpiry, datastore: Datastore) -> (r: SessionManager)
        ensures
            r.expiry == expiry,
            r.datastore == datastore,
    {
        SessionManager { expiry, datastore }
    }

    /// Stores a session with `secret`, created at `now`, and returns its
    /// token.
    pub fn create_session_with(&mut self, secret: SessionSecret, now: u128) -> (r: Result<
        SessionToken,
        DatastoreError,
    >)
        ensures
            final(self).expiry == old(self).expiry,
            final(self).datastore.is_memory() == old(self).datastore.is_memory(),
            r is Ok ==> r->Ok_0.secret@ == secret@,
            r is Err ==> is_create_error(r->Err_0),
            r is Err && r->Err_0 is TimeOutOfRange ==> !old(self).datastore.is_memory()
                && !record_fits((secret@, now)),
            old(self).datastore.is_memory() ==> ({
                let (id, v) = create_step(old(self).datastore.view(), (secret@, now));
                &&& final(self).datastore.view() == v
                &&& match id {
                    Some(n) => r is Ok && r->Ok_0.id.0 == n,
                    None => r is Err && r->Err_0 is IdsExhausted,
                }
            }),
    {
        let data = SessionData { secret: secret.copy(), created: now };
        let id = self.datastore.create_session(data)?;
        Ok(SessionToken { id, secret })
    }

    /// Stores a session with a fresh random secret, created now, and returns
    /// its token.
    pub fn create_session(&mut self) -> (r: Result<SessionToken, DatastoreError>)
        ensures
            final(self).expiry == old(self).expiry,
            final(self).datastore.is_memory() == old(self).datastore.is_memory(),
            r is Ok ==> r->Ok_0.secret@.len() == SECRET_SIZE,
            r is Err ==> is_create_error(r->Err_0),
            r is Err && r->Err_0 is TimeOutOfRange ==> !old(self).datastore.is_memory() && exists|
                secret: Seq<u8>,
                now: u128,
            | !#[trigger] record_fits((secret, now)),
            old(self).datastore.is_memory() ==> (r is Ok <==> old(self).datastore.view().0
                < u64::MAX),
            old(self).datastore.is_memory() && r is Err ==> r->Err_0 is IdsExhausted
                && final(self).datastore.view() == old(self).datastore.view(),
            old(self).datastore.is_memory() && r is Ok ==> exists|now: u128|
                #[trigger] create_step(old(self).datastore.view(), (r->Ok_0.secret@, now)) == (
                    Some(r->Ok_0.id.0),
                    final(self).datastore.view(),
                ),
    {
        let secret = SessionSecret::generate();
        let now = now_nanos();
        let r = self.create_session_with(secret, now);
        proof {
            let (id, v) = create_step(old(self).datastore.view(), (r->Ok_0.secret@, now));
            assert(r is Ok && old(self).datastore.is_memory() ==> final(self).datastore.view() == v
                && id == Some(r->Ok_0.id.0));
            assert(r is Ok && old(self).datastore.is_memory() ==> create_step(
                old(self).datastore.view(),
                (r->Ok_0.secret@, now),
            ) == (Some(r->Ok_0.id.0), final(self).datastore.view()));
        }
        r
    }

    /// Checks a token at time `now`; see `check_step`. A text that is not a
    /// token is invalid, not an error.
    pub fn check_session_at(&mut self, token: &str, now: u128) -> (r: Result<bool, DatastoreError>)
        ensures
            final(self).expiry == old(self).expiry,
            final(self).datastore.is_memory() == old(self).datastore.is_memory(),
            r == Ok::<bool, DatastoreError>(true) ==> token_of_text(token@) is Some,
            token_of_text(token@) is None ==> r == Ok::<bool, DatastoreError>(false) && *final(self)
                == *old(self),
            r is Err ==> token_of_text(token@) is Some && !old(self).datastore.is_memory() && (
            r->Err_0 is HeedError || r->Err_0 is Corrupt),
            old(self).datastore.is_memory() ==> ({
                let (valid, v) = check_step(
                    old(self).datastore.view(),
                    token_of_text(token@),
                    old(self).expiry,
                    now,
                );
                r == Ok::<bool, DatastoreError>(valid) && final(self).datastore.view() == v
            }),
    {
        let token = match SessionToken::decode(token) {
            Ok(t) => t,
            Err(_) => {
                return Ok(false);
            },
        };
        let read = self.datastore.read_session(token.id);
        let (valid, remove) = verdict_after_read(read, &token, self.expiry, now)?;
        if remove {
            let deleted = self.datastore.delete_session(token.id);
            return verdict_after_delete(deleted);
        }
        Ok(valid)
    }

    /// Checks a token at the current time; see `check_session_at`.
    pub fn check_session(&mut self, token: &str) -> (r: Result<bool, DatastoreError>)
        ensures
            final(self).expiry == old(self).expiry,
            final(self).datastore.is_memory() == old(self).datastore.is_memory(),
            r == Ok::<bool, DatastoreError>(true) ==> token_of_text(token@) is Some,
            token_of_text(token@) is None ==> r == Ok::<bool, DatastoreError>(false) && *final(self)
                == *old(self),
            r is Err ==> token_of_text(token@) is Some && !old(self).datastore.is_memory() && (
            r->Err_0 is HeedError || r->Err_0 is Corrupt),
            old(self).datastore.is_memory() ==> exists|now: u128|
                {
                    let (valid, v) = #[trigger] check_step(
                        old(self).datastore.view(),
                        token_of_text(token@),
                        old(self).expiry,
                        now,
                    );
                    r == Ok::<bool, DatastoreError>(valid) && final(self).datastore.view() == v
                },
    {
        let now = now_nanos();
        self.check_session_at(token, now)
    }
}

} // verus!
