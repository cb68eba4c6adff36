//! The stream ledger: every stream ever opened, under its identifier, and
//! the counter that hands out identifiers.

use std::collections::HashMap;
use vstd::prelude::*;
use vstd::std_specs::hash::*;
use crate::error::StreamError;
use crate::stream::{Stream, StreamRecord};

verus! {

broadcast use vstd::std_specs::hash::group_hash_axioms;

/// What holds of the records of every ledger: each is valid and is kept
/// under its own identifier.
pub open spec fn records_valid(records: Map<u64, StreamRecord>) -> bool {
    forall|id: u64| #[trigger]
        records.contains_key(id) ==> records[id].valid() && records[id].id == id
}

/// The streams of an engine, each under its identifier, and the number of
/// identifiers handed out so far. Records are added and rewritten, never
/// removed.
pub struct StreamLedger {
    records: HashMap<u64, Stream>,
    issued: u64,
}

impl View for StreamLedger {
    type V = Map<u64, StreamRecord>;

    closed spec fn view(&self) -> Map<u64, StreamRecord> {
        plain(self.records@)
    }
}

/// The records of `streams` as plain data.
spec fn plain(streams: Map<u64, Stream>) -> Map<u64, StreamRecord> {
    Map::new(|id: u64| streams.contains_key(id), |id: u64| streams[id]@)
}

impl StreamLedger {
    /// What holds of every `StreamLedger` there is: its records are valid,
    /// each under its own identifier.
    #[verifier::type_invariant]
    pub open spec fn well_formed(self) -> bool {
        records_valid(self@)
    }

    /// The last identifier handed out; zero before the first.
    pub closed spec fn last_issued(&self) -> u64 {
        self.issued
    }

    /// A ledger without streams that has handed out no identifier.
    pub fn new() -> (ledger: StreamLedger)
        ensures
            ledger@ == Map::<u64, StreamRecord>::empty(),
            ledger.last_issued() == 0,
    {
        StreamLedger::resume(0)
    }

    /// A ledger without streams whose counter stands where an earlier one
    /// left it, to take stored records back in.
    pub fn resume(issued: u64) -> (ledger: StreamLedger)
        ensures
            ledger@ == Map::<u64, StreamRecord>::empty(),
            ledger.last_issued() == issued,
    {
        let ledger = StreamLedger { records: HashMap::new(), issued };
        assert(ledger@ =~= Map::<u64, StreamRecord>::empty());
        ledger
    }

    /// The last identifier handed out; zero before the first.
    pub fn issued(&self) -> (issued: u64)
        ensures
            issued == self.last_issued(),
    {
        self.issued
    }

    /// Hands out a fresh identifier: one more than the last, so the first
    /// is 1 and each is greater than all before it.
    pub fn next_id(&mut self) -> (id: u64)
        requires
            old(self).last_issued() < u64::MAX,
        ensures
            id == old(self).last_issued() + 1,
            final(self).last_issued() == id,
            final(self)@ == old(self)@,
    {
        proof {
            use_type_invariant(&*self);
        }
        self.issued = self.issued + 1;
        self.issued
    }

    /// Whether a stream is recorded under `id`.
    pub fn contains(&self, id: u64) -> (found: bool)
        ensures
            found == self@.contains_key(id),
    {
        self.records.contains_key(&id)
    }

    /// Records a new stream under its identifier. Refuses with
    /// `DuplicateId` where one is recorded there already.
    pub fn insert(&mut self, stream: Stream) -> (inserted: Result<(), StreamError>)
        ensures
            final(self).last_issued() == old(self).last_issued(),
            old(self)@.contains_key(stream@.id) ==> inserted == Err::<(), StreamError>(
                StreamError::DuplicateId,
            ) && final(self)@ == old(self)@,
            !old(self)@.contains_key(stream@.id) ==> inserted == Ok::<(), StreamError>(())
                && final(self)@ == old(self)@.insert(stream@.id, stream@),
    {
        let id = stream.record().id;
        if self.records.contains_key(&id) {
            return Err(StreamError::DuplicateId);
        }
        self.put(id, stream);
        Ok(())
    }

    /// The stream recorded under `id`, or `StreamNotFound`.
    pub fn get(&self, id: u64) -> (found: Result<Stream, StreamError>)
        ensures
            self@.contains_key(id) ==> found is Ok && found->Ok_0@ == self@[id],
            !self@.contains_key(id) ==> found == Err::<Stream, StreamError>(
                StreamError::StreamNotFound,
            ),
    {
        match self.records.get(&id) {
            Some(stream) => Ok(*stream),
            None => Err(StreamError::StreamNotFound),
        }
    }

    /// Puts `stream` in the place of the record under `id`. The new record
    /// has to keep the terms of the old one, identifier included. Refuses
    /// with `StreamNotFound` where nothing is recorded under `id`.
    pub fn update(&mut self, id: u64, stream: Stream) -> (updated: Result<(), StreamError>)
        requires
            old(self)@.contains_key(id) ==> stream@.same_terms(old(self)@[id]),
        ensures
            final(self).last_issued() == old(self).last_issued(),
            old(self)@.contains_key(id) ==> updated == Ok::<(), StreamError>(()) && final(self)@
                == old(self)@.insert(id, stream@),
            !old(self)@.contains_key(id) ==> updated == Err::<(), StreamError>(
                StreamError::StreamNotFound,
            ) && final(self)@ == old(self)@,
    {
        proof {
            use_type_invariant(&*self);
        }
        if !self.records.contains_key(&id) {
            return Err(StreamError::StreamNotFound);
        }
        self.put(id, stream);
        Ok(())
    }

    /// Stores `stream` under `id`, which is its own identifier.
    fn put(&mut self, id: u64, stream: Stream)
        requires
            id == stream@.id,
        ensures
            final(self).last_issued() == old(self).last_issued(),
            final(self)@ == old(self)@.insert(id, stream@),
    {
        proof {
            use_type_invariant(&*self);
            use_type_invariant(&stream);
        }
        let mut records = HashMap::new();
        std::mem::swap(&mut records, &mut self.records);
        records.insert(id, stream);
        assert(plain(records@) =~= old(self)@.insert(id, stream@));
        self.records = records;
    }
}

} // verus!
