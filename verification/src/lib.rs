//! A single-pass payment ledger: applies an ordered stream of per-client
//! transactions (deposit, withdrawal, dispute, resolve, chargeback) and
//! maintains a balance snapshot per client.
//!
//! Amounts are fixed-point integers counting units of one ten-thousandth
//! (four fractional digits); callers that read decimal text convert to and
//! from these units at the boundary.

use vstd::prelude::*;

pub mod account;
pub mod balance;
pub mod book;
pub mod engine;
pub mod index;
pub mod laws;
pub mod prelude;
pub mod transaction;

verus! {

/// Errors surfaced by the surrounding tooling; the ledger core itself never
/// fails on bad input (offending transactions are ignored).
pub enum PaymentEngineError {
    Usage,
    Csv(String),
    Unknown,
}

pub type PaymentEngineResult<T> = core::result::Result<T, PaymentEngineError>;

/// What became of one transaction. Every kind of bad input is a silent
/// no-op for the ledger; the variant records why nothing happened.
#[derive(Clone, Copy, Debug, Eq, PartialEq, Structural)]
pub enum Outcome {
    /// The transaction changed the ledger.
    Applied,
    /// The account is locked; locked accounts reject all further activity.
    IgnoredLockedAccount,
    /// A withdrawal asked for more than the available funds.
    IgnoredInsufficientFunds,
    /// Applying the amount would leave a field outside the representable range.
    IgnoredOutOfRange,
    /// A deposit or withdrawal without an amount, or a dispute, resolve or
    /// chargeback carrying one: the latter three derive their amount from
    /// the indexed original transaction and must not bring their own.
    IgnoredMalformed,
    /// A deposit or withdrawal reusing an already recorded transaction id.
    IgnoredDuplicateId,
    /// A dispute, resolve or chargeback naming an id never recorded.
    IgnoredUnknownReference,
    /// A dispute, resolve or chargeback naming another client's transaction.
    IgnoredClientMismatch,
    /// A dispute of an already disputed transaction, or a resolve or
    /// chargeback of a transaction not currently under open dispute.
    IgnoredInvalidDisputeTransition,
}

} // verus!
