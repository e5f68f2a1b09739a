//! One client's funds state and its five atomic adjustments.
//!
//! The executable type is `Balance`; its mathematical model is
//! `BalanceView`, whose fields are unbounded integers. Every operation is
//! specified by `commit_spec` and `op_outcome` over the model, so callers
//! reason about exact integer arithmetic while the executable code guards
//! the machine representation.

use vstd::prelude::*;

use crate::Outcome;
use crate::transaction::TransactionType;

verus! {

/// Mathematical model of one client's funds, in units of one ten-thousandth.
pub struct BalanceView {
    pub client: u16,
    pub available: int,
    pub held: int,
    pub total: int,
    pub locked: bool,
}

impl BalanceView {
    /// The bookkeeping invariant: the full asset position splits exactly into
    /// the withdrawable part and the part frozen by open disputes.
    pub open spec fn wf(self) -> bool {
        self.total == self.available + self.held
    }

    /// All three fields fit the machine representation; true of every
    /// balance the executable code can hold.
    pub open spec fn in_range(self) -> bool {
        fits(self.available) && fits(self.held) && fits(self.total)
    }
}

/// The state of a freshly created account: no funds, not locked.
pub open spec fn empty_balance(client: u16) -> BalanceView {
    BalanceView { client, available: 0, held: 0, total: 0, locked: false }
}

/// Whether an exact amount of units fits the machine representation.
pub open spec fn fits(x: int) -> bool {
    i64::MIN <= x <= i64::MAX
}

/// A deposit changes available and total; both new values must fit.
pub open spec fn can_deposit(b: BalanceView, amount: int) -> bool {
    fits(b.available + amount) && fits(b.total + amount)
}

/// A withdrawal changes available and total; both new values must fit.
pub open spec fn can_withdraw(b: BalanceView, amount: int) -> bool {
    fits(b.available - amount) && fits(b.total - amount)
}

/// A dispute moves the amount from available to held.
pub open spec fn can_dispute(b: BalanceView, amount: int) -> bool {
    fits(b.available - amount) && fits(b.held + amount)
}

/// A resolve moves the amount from held back to available.
pub open spec fn can_resolve(b: BalanceView, amount: int) -> bool {
    fits(b.held - amount) && fits(b.available + amount)
}

/// A chargeback removes the amount from held and from total.
pub open spec fn can_chargeback(b: BalanceView, amount: int) -> bool {
    fits(b.held - amount) && fits(b.total - amount)
}

/// Why an operation on a balance applies or is ignored. A locked account
/// ignores everything; a withdrawal beyond the available funds is refused;
/// an amount whose application would not fit the representation is refused.
pub open spec fn op_outcome(b: BalanceView, ty: TransactionType, amount: int) -> Outcome {
    if b.locked {
        Outcome::IgnoredLockedAccount
    } else {
        match ty {
            TransactionType::Deposit => if can_deposit(b, amount) {
                Outcome::Applied
            } else {
                Outcome::IgnoredOutOfRange
            },
            TransactionType::Withdrawal => if amount > b.available {
                Outcome::IgnoredInsufficientFunds
            } else if can_withdraw(b, amount) {
                Outcome::Applied
            } else {
                Outcome::IgnoredOutOfRange
            },
            TransactionType::Dispute => if can_dispute(b, amount) {
                Outcome::Applied
            } else {
                Outcome::IgnoredOutOfRange
            },
            TransactionType::Resolve => if can_resolve(b, amount) {
                Outcome::Applied
            } else {
                Outcome::IgnoredOutOfRange
            },
            TransactionType::Chargeback => if can_chargeback(b, amount) {
                Outcome::Applied
            } else {
                Outcome::IgnoredOutOfRange
            },
        }
    }
}

/// The result of an operation that applies, over the mathematical model.
pub open spec fn op_applied(b: BalanceView, ty: TransactionType, amount: int) -> BalanceView {
    match ty {
        TransactionType::Deposit => BalanceView {
            available: b.available + amount,
            total: b.total + amount,
            ..b
        },
        TransactionType::Withdrawal => BalanceView {
            available: b.available - amount,
            total: b.total - amount,
            ..b
        },
        TransactionType::Dispute => BalanceView {
            available: b.available - amount,
            held: b.held + amount,
            ..b
        },
        TransactionType::Resolve => BalanceView {
            held: b.held - amount,
            available: b.available + amount,
            ..b
        },
        TransactionType::Chargeback => BalanceView {
            held: b.held - amount,
            total: b.total - amount,
            ..b
        },
    }
}

/// The full meaning of committing one operation: the applied result where
/// the operation applies, the unchanged balance everywhere else.
pub open spec fn commit_spec(b: BalanceView, ty: TransactionType, amount: int) -> BalanceView {
    if op_outcome(b, ty, amount) == Outcome::Applied {
        op_applied(b, ty, amount)
    } else {
        b
    }
}

/// Committing any operation preserves the bookkeeping invariant: each
/// operation either leaves the balance unchanged or shifts one amount
/// between fields so that total still equals available plus held.
pub proof fn lemma_commit_preserves_wf(b: BalanceView, ty: TransactionType, amount: int)
    requires
        b.wf(),
    ensures
        commit_spec(b, ty, amount).wf(),
{
}

/// Per-client funds state: available, held and total funds and the lock flag.
/// Amounts count units of one ten-thousandth.
#[derive(Clone, Copy, Debug)]
pub struct Balance {
    pub client: u16,
    pub available: i64,
    pub held: i64,
    pub total: i64,
    pub is_locked: bool,
}

impl View for Balance {
    type V = BalanceView;

    open spec fn view(&self) -> BalanceView {
        BalanceView {
            client: self.client,
            available: self.available as int,
            held: self.held as int,
            total: self.total as int,
            locked: self.is_locked,
        }
    }
}

impl Balance {
    /// Create a new, empty, unlocked balance for `client`.
    pub fn new(client: u16) -> (r: Self)
        ensures
            r@ == empty_balance(client),
    {
        Self { client, available: 0, held: 0, total: 0, is_locked: false }
    }

    /// Credit to the client's asset account: increases available and total.
    pub fn deposit(&mut self, amount: i64) -> (r: Outcome)
        ensures
            final(self)@ == commit_spec(old(self)@, TransactionType::Deposit, amount as int),
            r == op_outcome(old(self)@, TransactionType::Deposit, amount as int),
    {
        if self.is_locked {
            return Outcome::IgnoredLockedAccount;
        }
        match (self.available.checked_add(amount), self.total.checked_add(amount)) {
            (Some(av), Some(to)) => {
                self.available = av;
                self.total = to;
                Outcome::Applied
            },
            _ => Outcome::IgnoredOutOfRange,
        }
    }

    /// Debit to the client's asset account: decreases available and total.
    /// Refused, leaving the balance unchanged, if the amount exceeds the
    /// available funds.
    pub fn withdraw(&mut self, amount: i64) -> (r: Outcome)
        ensures
            final(self)@ == commit_spec(old(self)@, TransactionType::Withdrawal, amount as int),
            r == op_outcome(old(self)@, TransactionType::Withdrawal, amount as int),
    {
        if self.is_locked {
            return Outcome::IgnoredLockedAccount;
        }
        if amount > self.available {
            return Outcome::IgnoredInsufficientFunds;
        }
        match (self.available.checked_sub(amount), self.total.checked_sub(amount)) {
            (Some(av), Some(to)) => {
                self.available = av;
                self.total = to;
                Outcome::Applied
            },
            _ => Outcome::IgnoredOutOfRange,
        }
    }

    /// Open a claim against an earlier transaction: moves the amount from
    /// available into held; total is maintained. Available may go negative
    /// here, since the disputed funds may already have been withdrawn.
    pub fn dispute(&mut self, amount: i64) -> (r: Outcome)
        ensures
            final(self)@ == commit_spec(old(self)@, TransactionType::Dispute, amount as int),
            r == op_outcome(old(self)@, TransactionType::Dispute, amount as int),
    {
        if self.is_locked {
            return Outcome::IgnoredLockedAccount;
        }
        match (self.available.checked_sub(amount), self.held.checked_add(amount)) {
            (Some(av), Some(he)) => {
                self.available = av;
                self.held = he;
                Outcome::Applied
            },
            _ => Outcome::IgnoredOutOfRange,
        }
    }

    /// Close a dispute in the client's favour: moves the amount from held
    /// back to available; total is maintained.
    pub fn resolve(&mut self, amount: i64) -> (r: Outcome)
        ensures
            final(self)@ == commit_spec(old(self)@, TransactionType::Resolve, amount as int),
            r == op_outcome(old(self)@, TransactionType::Resolve, amount as int),
    {
        if self.is_locked {
            return Outcome::IgnoredLockedAccount;
        }
        match (self.held.checked_sub(amount), self.available.checked_add(amount)) {
            (Some(he), Some(av)) => {
                self.held = he;
                self.available = av;
                Outcome::Applied
            },
            _ => Outcome::IgnoredOutOfRange,
        }
    }

    /// Close a dispute by reversing the disputed transaction: removes the
    /// amount from held and from total. The caller must additionally lock
    /// the account: a chargeback always freezes it.
    pub fn chargeback(&mut self, amount: i64) -> (r: Outcome)
        ensures
            final(self)@ == commit_spec(old(self)@, TransactionType::Chargeback, amount as int),
            r == op_outcome(old(self)@, TransactionType::Chargeback, amount as int),
    {
        if self.is_locked {
            return Outcome::IgnoredLockedAccount;
        }
        match (self.held.checked_sub(amount), self.total.checked_sub(amount)) {
            (Some(he), Some(to)) => {
                self.held = he;
                self.total = to;
                Outcome::Applied
            },
            _ => Outcome::IgnoredOutOfRange,
        }
    }

    /// Commit one transaction of the given kind to this balance. A locked
    /// balance ignores everything; otherwise the kind selects which of the
    /// five adjustments runs. The bookkeeping invariant is preserved.
    pub fn commit(&mut self, transaction_type: TransactionType, amount: i64)
        ensures
            final(self)@ == commit_spec(old(self)@, transaction_type, amount as int),
            old(self)@.wf() ==> final(self)@.wf(),
    {
        if self.is_locked {
            return;
        }
        match transaction_type {
            TransactionType::Withdrawal => {
                self.withdraw(amount);
            },
            TransactionType::Deposit => {
                self.deposit(amount);
            },
            TransactionType::Dispute => {
                self.dispute(amount);
            },
            TransactionType::Resolve => {
                self.resolve(amount);
            },
            TransactionType::Chargeback => {
                self.chargeback(amount);
            },
        }
    }
}

} // verus!
