//! Storage of session records behind one contract, with an in-memory backend
//! and one on an embedded transactional key-value store.

use vstd::prelude::*;

pub mod lmdb;
pub mod memory;

pub use self::lmdb::{is_create_error, record_fits, record_of_bytes, Schema};
pub use self::memory::InMemoryDatastore;

use crate::token::{SessionData, SessionId};

verus! {

/// A stored record, as a value: the secret's bytes and the creation time.
pub type Record = (Seq<u8>, u128);

/// The state of a store: the id the next session gets, and the records by
/// id.
pub type StoreState = (u64, Map<u64, Record>);

/// Storing a record: it gets the next id, and the counter advances; when
/// every id has been used nothing changes and no id is given.
pub open spec fn create_step(v: StoreState, data: Record) -> (Option<u64>, StoreState) {
    if v.0 < u64::MAX {
        (Some(v.0), ((v.0 + 1) as u64, v.1.insert(v.0, data)))
    } else {
        (None, v)
    }
}

/// Removing a record: whether there was one, and the store without it.
pub open spec fn delete_step(v: StoreState, id: u64) -> (bool, StoreState) {
    (v.1.contains_key(id), (v.0, v.1.remove(id)))
}

/// An id is never handed out twice: of two stores one after the other, the
/// second gets a larger id, and removing records leaves the counter alone.
pub proof fn lemma_ids_never_repeat(v: StoreState, first: Record, second: Record, removed: u64)
    ensures
        ({
            let (a, v1) = create_step(v, first);
            let (b, v2) = create_step(delete_step(v1, removed).1, second);
            a is Some && b is Some ==> a->Some_0 < b->Some_0
        }),
{
}

/// Why a datastore operation failed.
#[derive(Debug)]
pub enum DatastoreError {
    /// The storage engine reported an error.
    HeedError(heed::Error),
    /// The file does not carry this store's marker.
    UnrecognizedFormat,
    /// The file carries a format version this store does not read.
    UnknownVersion(u64),
    /// Metadata or a record that the format requires is missing or malformed.
    Corrupt,
    /// Every session id has been handed out.
    IdsExhausted,
    /// A creation time too far from the epoch to be stored.
    TimeOutOfRange,
}

#[verifier::external_type_specification]
#[verifier::external_body]
pub struct ExHeedError(heed::Error);

/// Where reads of the embedded store run: on the calling task, or on a
/// worker thread of a pool.
#[derive(Clone, Copy, Debug, PartialEq, Eq, Structural)]
pub enum ReadMode {
    Sync,
    Async,
}

impl Default for ReadMode {
    fn default() -> (r: ReadMode)
        ensures
            r == ReadMode::Sync,
    {
        ReadMode::Sync
    }
}

/// Where writes of the embedded store run: on the calling task, on a worker
/// thread of a pool, or on one dedicated writer thread reached by a channel.
#[derive(Clone, Copy, Debug, PartialEq, Eq, Structural)]
pub enum WriteMode {
    Sync,
    Async,
    AsyncThread,
}

impl Default for WriteMode {
    fn default() -> (r: WriteMode)
        ensures
            r == WriteMode::AsyncThread,
    {
        WriteMode::AsyncThread
    }
}

/// A datastore: one of the two backends, chosen when it is set up.
pub enum Datastore {
    InMemory(InMemoryDatastore),
    Lmdb(Schema),
}

impl Datastore {
    /// Whether the store is held in memory, where its state is known.
    pub open spec fn is_memory(&self) -> bool {
        self is InMemory
    }

    /// The state of an in-memory store. The state of a file is not known
    /// here, so for the embedded store this is left unspecified.
    pub open spec fn view(&self) -> StoreState {
        match self {
            Datastore::InMemory(m) => m.view(),
            Datastore::Lmdb(_) => arbitrary(),
        }
    }

    /// An empty in-memory store.
    pub fn new_in_memory() -> (r: Datastore)
        ensures
            r.is_memory(),
            r.view() == (1u64, Map::<u64, Record>::empty()),
    {
        Datastore::InMemory(InMemoryDatastore::new())
    }

    /// A store on an opened file of the embedded store.
    pub fn from_schema(schema: Schema) -> (r: Datastore)
        ensures
            !r.is_memory(),
    {
        Datastore::Lmdb(schema)
    }

    /// Allocates the next id and stores `data` under it, as one unit.
    pub fn create_session(&mut self, data: SessionData) -> (r: Result<SessionId, DatastoreError>)
        ensures
            final(self).is_memory() == old(self).is_memory(),
            old(self).is_memory() ==> ({
                let (id, v) = create_step(old(self).view(), data@);
                &&& final(self).view() == v
                &&& match id {
                    Some(n) => r == Ok::<SessionId, DatastoreError>(SessionId(n)),
                    None => r is Err && r->Err_0 is IdsExhausted,
                }
            }),
            r is Ok ==> r->Ok_0.0 < u64::MAX,
            r is Err ==> is_create_error(r->Err_0),
            r is Err && r->Err_0 is TimeOutOfRange ==> !old(self).is_memory() && !record_fits(
                data@,
            ),
    {
        match self {
            Datastore::InMemory(m) => m.create_session(data),
            Datastore::Lmdb(s) => s.create_session(&data),
        }
    }

    /// The record stored under `id`, if any. No side effects.
    pub fn read_session(&self, id: SessionId) -> (r: Result<Option<SessionData>, DatastoreError>)
        ensures
            self.is_memory() ==> r is Ok && match r->Ok_0 {
                Some(d) => self.view().1.contains_key(id.0) && d@ == self.view().1[id.0],
                None => !self.view().1.contains_key(id.0),
            },
            !self.is_memory() ==> (r matches Ok(Some(d)) ==> exists|b: Seq<u8>| record_of_bytes(b)
                == Some(d@)),
            r is Err ==> !self.is_memory() && (r->Err_0 is HeedError || r->Err_0 is Corrupt),
    {
        match self {
            Datastore::InMemory(m) => Ok(m.read_session(id)),
            Datastore::Lmdb(s) => s.read_session(id),
        }
    }

    /// Removes the record stored under `id`; true when there was one.
    pub fn delete_session(&mut self, id: SessionId) -> (r: Result<bool, DatastoreError>)
        ensures
            final(self).is_memory() == old(self).is_memory(),
            old(self).is_memory() ==> ({
                let (existed, v) = delete_step(old(self).view(), id.0);
                r == Ok::<bool, DatastoreError>(existed) && final(self).view() == v
            }),
            r is Err ==> !old(self).is_memory() && r->Err_0 is HeedError,
    {
        match self {
            Datastore::InMemory(m) => Ok(m.delete_session(id)),
            Datastore::Lmdb(s) => s.delete_session(id),
        }
    }
}

} // verus!
