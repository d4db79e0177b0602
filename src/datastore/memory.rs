//! A datastore held in memory: a map from id to record and a counter.

use std::collections::HashMap;
use vstd::prelude::*;

use crate::datastore::{DatastoreError, Record, StoreState};
use crate::token::{SessionData, SessionId};

verus! {

broadcast use vstd::std_specs::hash::group_hash_axioms;

/// Sessions kept in memory; ids count up from 1 and are never reused.
pub struct InMemoryDatastore {
    counter: u64,
    sessions: HashMap<u64, SessionData>,
}

impl InMemoryDatastore {
    /// The id that the next session gets.
    pub closed spec fn next_id(&self) -> u64 {
        self.counter
    }

    /// The records held, by id.
    pub closed spec fn records(&self) -> Map<u64, Record> {
        Map::new(|k: u64| self.sessions@.contains_key(k), |k: u64| self.sessions@[k]@)
    }

    /// The id counter and the records, as one value.
    pub open spec fn view(&self) -> StoreState {
        (self.next_id(), self.records())
    }

    /// Every id held is below the counter, which starts at 1.
    #[verifier::type_invariant]
    spec fn wf(&self) -> bool {
        &&& self.counter >= 1
        &&& forall|k: u64| #[trigger] self.sessions@.contains_key(k) ==> k < self.counter
    }

    /// An empty store whose first id is 1.
    pub fn new() -> (r: InMemoryDatastore)
        ensures
            r.next_id() == 1,
            r.records() == Map::<u64, Record>::empty(),
    {
        let r = InMemoryDatastore { counter: 1, sessions: HashMap::new() };
        assert(r.records() =~= Map::<u64, Record>::empty());
        r
    }

    /// Stores `data` under the next id and returns that id. Fails, storing
    /// nothing, only when every id has been used.
    pub fn create_session(&mut self, data: SessionData) -> (r: Result<SessionId, DatastoreError>)
        ensures
            old(self).next_id() >= 1,
            old(self).next_id() < u64::MAX ==> {
                &&& r == Ok::<SessionId, DatastoreError>(SessionId(old(self).next_id()))
                &&& final(self).next_id() == old(self).next_id() + 1
                &&& final(self).records() == old(self).records().insert(old(self).next_id(), data@)
            },
            old(self).next_id() == u64::MAX ==> r is Err && r->Err_0 is IdsExhausted
                && final(self).next_id() == old(self).next_id() && final(self).records() == old(
                self,
            ).records(),
    {
        proof {
            use_type_invariant(&*self);
        }
        if self.counter == u64::MAX {
            return Err(DatastoreError::IdsExhausted);
        }
        let id = self.counter;
        let ghost old_records = self.records();
        let ghost v = data@;
        let mut sessions: HashMap<u64, SessionData> = HashMap::new();
        std::mem::swap(&mut sessions, &mut self.sessions);
        sessions.insert(id, data);
        self.counter = id + 1;
        self.sessions = sessions;
        assert(self.records() =~= old_records.insert(id, v));
        Ok(SessionId(id))
    }

    /// The record stored under `id`, if any.
    pub fn read_session(&self, id: SessionId) -> (r: Option<SessionData>)
        ensures
            match r {
                Some(d) => self.records().contains_key(id.0) && d@ == self.records()[id.0],
                None => !self.records().contains_key(id.0),
            },
    {
        match self.sessions.get(&id.0) {
            Some(d) => Some(d.copy()),
            None => None,
        }
    }

    /// Removes the record stored under `id`; true when there was one.
    pub fn delete_session(&mut self, id: SessionId) -> (r: bool)
        ensures
            r == old(self).records().contains_key(id.0),
            final(self).records() == old(self).records().remove(id.0),
            final(self).next_id() == old(self).next_id(),
    {
        proof {
            use_type_invariant(&*self);
        }
        let ghost old_records = self.records();
        let mut sessions: HashMap<u64, SessionData> = HashMap::new();
        std::mem::swap(&mut sessions, &mut self.sessions);
        let removed = sessions.remove(&id.0);
        self.sessions = sessions;
        assert(self.records() =~= old_records.remove(id.0));
        removed.is_some()
    }
}

impl Default for InMemoryDatastore {
    fn default() -> (r: InMemoryDatastore)
        ensures
            r.next_id() == 1,
            r.records() == Map::<u64, Record>::empty(),
    {
        InMemoryDatastore::new()
    }
}

} // verus!
