//! Convenient re-exports of the library's main items.

pub use crate::PaymentEngineError;
pub use crate::PaymentEngineResult;
pub use crate::balance::Balance;
pub use crate::transaction::Transaction;
pub use crate::transaction::TransactionType;
