//! Per-client account state, the engine-facing twin of `Balance`.
//!
//! It shares `Balance`'s mathematical model, so one body of spec functions
//! (`commit_spec`, `op_outcome`) states the behaviour of both.

use vstd::prelude::*;

use crate::balance::{Balance, BalanceView, commit_spec, empty_balance};
use crate::transaction::TransactionType;

verus! {

/// Per-client account: available, held and total funds and the lock flag.
/// Amounts count units of one ten-thousandth.
#[derive(Clone, Copy, Debug)]
pub struct Account {
    pub client: u16,
    pub available: i64,
    pub held: i64,
    pub total: i64,
    pub is_locked: bool,
}

impl View for Account {
    type V = BalanceView;

    open spec fn view(&self) -> BalanceView {
        BalanceView {
            client: self.client,
            available: self.available as int,
            held: self.held as int,
            total: self.total as int,
            locked: self.is_locked,
        }
    }
}

impl Account {
    /// Create a new account for a `client`: no funds, not locked.
    pub fn new(client: u16) -> (r: Self)
        ensures
            r@ == empty_balance(client),
    {
        Self { client, available: 0, held: 0, total: 0, is_locked: false }
    }

    /// Commit a transaction to the account. A locked account ignores
    /// everything; otherwise the transaction kind selects one of the five
    /// adjustments. The bookkeeping invariant is preserved.
    pub fn commit(&mut self, transaction_type: TransactionType, amount: i64)
        ensures
            final(self)@ == commit_spec(old(self)@, transaction_type, amount as int),
            old(self)@.wf() ==> final(self)@.wf(),
    {
        let mut funds = Balance {
            client: self.client,
            available: self.available,
            held: self.held,
            total: self.total,
            is_locked: self.is_locked,
        };
        funds.commit(transaction_type, amount);
        self.available = funds.available;
        self.held = funds.held;
        self.total = funds.total;
        self.is_locked = funds.is_locked;
    }
}

} // verus!
