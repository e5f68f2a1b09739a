//! The transaction index: remembers the amount and owner of every deposit
//! and withdrawal ever applied, together with its current dispute status,
//! so that a later dispute, resolve or chargeback can recover them.

use std::collections::HashMap;

use vstd::prelude::*;

verus! {

broadcast use vstd::std_specs::hash::group_hash_axioms;

/// Where a recorded transaction stands in the dispute lifecycle.
/// The only legal transitions are `Undisputed` to `Open` (on dispute),
/// `Open` to `Resolved` (on resolve) and `Open` to `ChargedBack`
/// (on chargeback); anything else is rejected.
#[derive(Clone, Copy, Debug, Eq, PartialEq, Structural)]
pub enum DisputeStatus {
    Undisputed,
    Open,
    Resolved,
    ChargedBack,
}

/// What the index remembers of one deposit or withdrawal.
#[derive(Clone, Copy, Debug, Eq, PartialEq, Structural)]
pub struct IndexedTransaction {
    /// The recorded amount, in units of one ten-thousandth.
    pub amount: i64,
    /// The client that owns the recorded transaction.
    pub client: u16,
    /// The current dispute status.
    pub status: DisputeStatus,
}

/// Mapping from transaction id to the record of the original deposit or
/// withdrawal. Entries are never removed: a transaction stays disputable
/// for the lifetime of a run.
pub struct TransactionIndex {
    entries: HashMap<u32, IndexedTransaction>,
}

impl View for TransactionIndex {
    type V = Map<u32, IndexedTransaction>;

    closed spec fn view(&self) -> Map<u32, IndexedTransaction> {
        self.entries@
    }
}

impl TransactionIndex {
    /// Create an empty index.
    pub fn new() -> (r: Self)
        ensures
            r@ == Map::<u32, IndexedTransaction>::empty(),
    {
        TransactionIndex { entries: HashMap::new() }
    }

    /// Look up the record of `id`, if any was ever made.
    pub fn lookup(&self, id: u32) -> (r: Option<IndexedTransaction>)
        ensures
            match r {
                Some(e) => self@.contains_key(id) && e == self@[id],
                None => !self@.contains_key(id),
            },
    {
        match self.entries.get(&id) {
            Some(e) => Some(*e),
            None => None,
        }
    }

    /// Record a fresh deposit or withdrawal under `id`, with status
    /// `Undisputed`. An id already recorded is refused and nothing changes:
    /// duplicate ids must not overwrite history.
    pub fn record(&mut self, id: u32, client: u16, amount: i64) -> (r: bool)
        ensures
            r == !old(self)@.contains_key(id),
            final(self)@ == if old(self)@.contains_key(id) {
                old(self)@
            } else {
                old(self)@.insert(
                    id,
                    IndexedTransaction { amount, client, status: DisputeStatus::Undisputed },
                )
            },
    {
        if self.entries.contains_key(&id) {
            return false;
        }
        self.entries.insert(
            id,
            IndexedTransaction { amount, client, status: DisputeStatus::Undisputed },
        );
        true
    }

    /// Move `id` from `Undisputed` to `Open`. Refused, with nothing
    /// changed, if `id` was never recorded or stands in any other status.
    pub fn mark_disputed(&mut self, id: u32) -> (r: bool)
        ensures
            r == (old(self)@.contains_key(id) && old(self)@[id].status
                == DisputeStatus::Undisputed),
            final(self)@ == if old(self)@.contains_key(id) && old(self)@[id].status
                == DisputeStatus::Undisputed {
                old(self)@.insert(
                    id,
                    IndexedTransaction { status: DisputeStatus::Open, ..old(self)@[id] },
                )
            } else {
                old(self)@
            },
    {
        self.set_status(id, DisputeStatus::Undisputed, DisputeStatus::Open)
    }

    /// Move `id` from `Open` to `Resolved`. Refused, with nothing changed,
    /// if `id` was never recorded or is not under open dispute.
    pub fn mark_resolved(&mut self, id: u32) -> (r: bool)
        ensures
            r == (old(self)@.contains_key(id) && old(self)@[id].status == DisputeStatus::Open),
            final(self)@ == if old(self)@.contains_key(id) && old(self)@[id].status
                == DisputeStatus::Open {
                old(self)@.insert(
                    id,
                    IndexedTransaction { status: DisputeStatus::Resolved, ..old(self)@[id] },
                )
            } else {
                old(self)@
            },
    {
        self.set_status(id, DisputeStatus::Open, DisputeStatus::Resolved)
    }

    /// Move `id` from `Open` to `ChargedBack`. Refused, with nothing
    /// changed, if `id` was never recorded or is not under open dispute.
    pub fn mark_chargedback(&mut self, id: u32) -> (r: bool)
        ensures
            r == (old(self)@.contains_key(id) && old(self)@[id].status == DisputeStatus::Open),
            final(self)@ == if old(self)@.contains_key(id) && old(self)@[id].status
                == DisputeStatus::Open {
                old(self)@.insert(
                    id,
                    IndexedTransaction { status: DisputeStatus::ChargedBack, ..old(self)@[id] },
                )
            } else {
                old(self)@
            },
    {
        self.set_status(id, DisputeStatus::Open, DisputeStatus::ChargedBack)
    }

    /// Advance the status of `id` from `from` to `to`, validating that the
    /// record exists and currently stands at `from`.
    fn set_status(&mut self, id: u32, from: DisputeStatus, to: DisputeStatus) -> (r: bool)
        ensures
            r == (old(self)@.contains_key(id) && old(self)@[id].status == from),
            final(self)@ == if old(self)@.contains_key(id) && old(self)@[id].status == from {
                old(self)@.insert(id, IndexedTransaction { status: to, ..old(self)@[id] })
            } else {
                old(self)@
            },
    {
        match self.entries.get(&id) {
            Some(e) => {
                if e.status == from {
                    let updated = IndexedTransaction { status: to, ..*e };
                    self.entries.insert(id, updated);
                    true
                } else {
                    false
                }
            },
            None => false,
        }
    }
}

} // verus!
