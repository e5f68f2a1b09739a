//! Input records: one transaction as delivered by the external decoder.

use vstd::prelude::*;

verus! {

/// The five kinds of transaction the ledger understands.
#[derive(Clone, Copy, Debug, Eq, PartialEq, Structural)]
pub enum TransactionType {
    /// Credit to the client's asset account. Increases available and total funds.
    Deposit,
    /// Debit to the client's asset account. Decreases available and total funds.
    Withdrawal,
    /// Client's claim to an erroneous charge. Decreases available, increases held,
    /// and maintains total funds.
    Dispute,
    /// Finalizes a dispute by committing the disputed transaction. Decreases held,
    /// increases available, and maintains total funds.
    Resolve,
    /// Finalizes a dispute by reversing the disputed transaction. Decreases held and
    /// total funds. Locks the account.
    Chargeback,
}

/// One decoded input record.
///
/// `amount` counts units of one ten-thousandth and is present only for
/// deposits and withdrawals; dispute, resolve and chargeback records refer
/// to the amount of the transaction that `id` names.
#[derive(Clone, Copy, Debug, Eq, PartialEq, Structural)]
pub struct Transaction {
    pub amount: Option<i64>,
    pub id: u32,
    pub client: u16,
    pub ty: TransactionType,
}

} // verus!
