//! The escrow record store: one record per bounty identifier.
//!
//! A record is created once, read as a whole and written back as a whole.

use std::collections::HashMap;
use vstd::prelude::*;
use crate::escrow::{Escrow, EscrowView};
use crate::types::Error;

verus! {

broadcast use vstd::std_specs::hash::group_hash_axioms;

/// The escrow records, keyed by bounty identifier.
#[derive(Clone, Debug, PartialEq, Eq)]
pub struct EscrowStore {
    pub records: HashMap<u64, Escrow>,
}

impl View for EscrowStore {
    type V = Map<u64, EscrowView>;

    open spec fn view(&self) -> Map<u64, EscrowView> {
        Map::new(|id: u64| self.records@.contains_key(id), |id: u64| self.records@[id]@)
    }
}

impl EscrowStore {
    /// Every record is well formed.
    pub open spec fn wf(&self) -> bool {
        forall|id: u64| #[trigger] self@.contains_key(id) ==> self@[id].wf()
    }

    /// The empty store.
    pub fn new() -> (store: EscrowStore)
        ensures
            store@ == Map::<u64, EscrowView>::empty(),
            store.wf(),
    {
        let store = EscrowStore { records: HashMap::new() };
        proof {
            assert(store@ =~= Map::<u64, EscrowView>::empty());
        }
        store
    }

    /// Whether there is a record for `bounty_id`.
    pub fn contains(&self, bounty_id: u64) -> (b: bool)
        ensures
            b == self@.contains_key(bounty_id),
    {
        self.records.contains_key(&bounty_id)
    }

    /// The record of `bounty_id`.
    pub fn get(&self, bounty_id: u64) -> (r: Result<&Escrow, Error>)
        ensures
            match r {
                Ok(escrow) => self@.contains_key(bounty_id) && escrow@ == self@[bounty_id],
                Err(e) => !self@.contains_key(bounty_id) && e == Error::BountyNotFound,
            },
    {
        match self.records.get(&bounty_id) {
            Some(escrow) => Ok(escrow),
            None => Err(Error::BountyNotFound),
        }
    }

    /// Stores the first record of `bounty_id`. Where there is one already,
    /// nothing is stored.
    pub fn create(&mut self, bounty_id: u64, escrow: Escrow) -> (r: Result<(), Error>)
        ensures
            old(self)@.contains_key(bounty_id) ==> r == Err::<(), Error>(Error::BountyExists)
                && final(self)@ == old(self)@,
            !old(self)@.contains_key(bounty_id) ==> r == Ok::<(), Error>(()) && final(self)@ == old(
                self,
            )@.insert(bounty_id, escrow@),
    {
        if self.records.contains_key(&bounty_id) {
            return Err(Error::BountyExists);
        }
        self.records.insert(bounty_id, escrow);
        proof {
            assert(self@ =~= old(self)@.insert(bounty_id, escrow@));
        }
        Ok(())
    }

    /// Stores `escrow` as the record of `bounty_id`, in place of any that is
    /// there.
    pub fn update(&mut self, bounty_id: u64, escrow: Escrow)
        ensures
            final(self)@ == old(self)@.insert(bounty_id, escrow@),
    {
        self.records.insert(bounty_id, escrow);
        proof {
            assert(self@ =~= old(self)@.insert(bounty_id, escrow@));
        }
    }

    /// Takes the record of `bounty_id` out of the store, to be put back with
    /// `update`.
    pub fn take(&mut self, bounty_id: u64) -> (r: Result<Escrow, Error>)
        ensures
            match r {
                Ok(escrow) => {
                    &&& old(self)@.contains_key(bounty_id)
                    &&& escrow@ == old(self)@[bounty_id]
                    &&& final(self)@ == old(self)@.remove(bounty_id)
                },
                Err(e) => {
                    &&& !old(self)@.contains_key(bounty_id)
                    &&& e == Error::BountyNotFound
                    &&& final(self)@ == old(self)@
                },
            },
    {
        match self.records.remove(&bounty_id) {
            Some(escrow) => {
                proof {
                    assert(self@ =~= old(self)@.remove(bounty_id));
                }
                Ok(escrow)
            },
            None => {
                proof {
                    assert(self@ =~= old(self)@);
                }
                Err(Error::BountyNotFound)
            },
        }
    }
}

} // verus!
