//! The ledger engine: drives a one-pass application of the transaction
//! stream against the account book and the transaction index, in input
//! order, enforcing the sequencing rules.
//!
//! The whole behaviour is stated by the spec function `step`: applying one
//! transaction is exactly one `step` over the mathematical model, and
//! applying a stream is `run_spec`, the left-to-right fold of `step`.

use vstd::prelude::*;

use crate::Outcome;
use crate::balance::{Balance, BalanceView, op_applied, op_outcome};
use crate::book::{AccountBook, BookView, create_if_absent, empty_book, with_balance};
use crate::index::{DisputeStatus, IndexedTransaction, TransactionIndex};
use crate::transaction::{Transaction, TransactionType};

verus! {

/// Mathematical model of the whole ledger: the account book and the
/// transaction index.
#[verifier::ext_equal]
pub struct LedgerView {
    pub book: BookView,
    pub index: Map<u32, IndexedTransaction>,
}

/// The ledger invariant: the book is structurally sound and every balance
/// satisfies its bookkeeping invariant and fits the machine representation.
pub open spec fn ledger_wf(s: LedgerView) -> bool {
    &&& s.book.wf()
    &&& forall|c: u16| s.book.accounts.contains_key(c) ==> ((#[trigger] s.book.accounts[c]).wf()
        && s.book.accounts[c].in_range())
}

/// The ledger before any transaction: no accounts, no recorded transactions.
pub open spec fn init_ledger() -> LedgerView {
    LedgerView { book: empty_book(), index: Map::empty() }
}

/// The dispute status a referencing transaction demands of its target:
/// a dispute needs an undisputed record, a resolve or chargeback needs an
/// open dispute.
pub open spec fn required_status(ty: TransactionType) -> DisputeStatus {
    if ty == TransactionType::Dispute {
        DisputeStatus::Undisputed
    } else {
        DisputeStatus::Open
    }
}

/// The dispute status a referencing transaction leaves behind when it
/// applies.
pub open spec fn next_status(ty: TransactionType) -> DisputeStatus {
    match ty {
        TransactionType::Dispute => DisputeStatus::Open,
        TransactionType::Resolve => DisputeStatus::Resolved,
        _ => DisputeStatus::ChargedBack,
    }
}

/// One deposit or withdrawal against an existing, unlocked account.
/// A missing amount is malformed; an already recorded id is refused.
/// Otherwise the transaction is recorded first, at status `Undisputed`,
/// and the funds adjustment is then attempted; a refused adjustment
/// (insufficient funds, unrepresentable result) leaves the balances
/// untouched but the record in place.
pub open spec fn funds_step(s: LedgerView, t: Transaction) -> (LedgerView, Outcome) {
    let b = s.book.accounts[t.client];
    match t.amount {
        Option::None => (s, Outcome::IgnoredMalformed),
        Option::Some(a) => if s.index.contains_key(t.id) {
            (s, Outcome::IgnoredDuplicateId)
        } else {
            let recorded = s.index.insert(
                t.id,
                IndexedTransaction { amount: a, client: t.client, status: DisputeStatus::Undisputed },
            );
            let o = op_outcome(b, t.ty, a as int);
            if o == Outcome::Applied {
                (
                    LedgerView {
                        book: with_balance(s.book, op_applied(b, t.ty, a as int)),
                        index: recorded,
                    },
                    o,
                )
            } else {
                (LedgerView { book: s.book, index: recorded }, o)
            }
        },
    }
}

/// One dispute, resolve or chargeback against an existing, unlocked
/// account. The referenced record must exist, belong to the same client,
/// and stand in the demanded dispute status; otherwise the transaction is
/// ignored. When it applies, the record advances to the next status, the
/// recorded amount adjusts the balance, and a chargeback locks the account.
pub open spec fn reference_step(s: LedgerView, t: Transaction) -> (LedgerView, Outcome) {
    if t.amount is Some {
        (s, Outcome::IgnoredMalformed)
    } else if !s.index.contains_key(t.id) {
        (s, Outcome::IgnoredUnknownReference)
    } else {
        let e = s.index[t.id];
        if e.client != t.client {
            (s, Outcome::IgnoredClientMismatch)
        } else if e.status != required_status(t.ty) {
            (s, Outcome::IgnoredInvalidDisputeTransition)
        } else {
            let b = s.book.accounts[t.client];
            let o = op_outcome(b, t.ty, e.amount as int);
            if o == Outcome::Applied {
                let adjusted = op_applied(b, t.ty, e.amount as int);
                let settled = if t.ty == TransactionType::Chargeback {
                    BalanceView { locked: true, ..adjusted }
                } else {
                    adjusted
                };
                (
                    LedgerView {
                        book: with_balance(s.book, settled),
                        index: s.index.insert(
                            t.id,
                            IndexedTransaction { status: next_status(t.ty), ..e },
                        ),
                    },
                    Outcome::Applied,
                )
            } else {
                (s, o)
            }
        }
    }
}

/// Dispatch on the transaction kind, for an existing, unlocked account.
pub open spec fn dispatch(s: LedgerView, t: Transaction) -> (LedgerView, Outcome) {
    match t.ty {
        TransactionType::Deposit | TransactionType::Withdrawal => funds_step(s, t),
        _ => reference_step(s, t),
    }
}

/// The meaning of applying one transaction to the ledger: the client's
/// account is created on first sight, a locked account ignores the
/// transaction entirely, and otherwise the kind decides.
pub open spec fn step(s: LedgerView, t: Transaction) -> (LedgerView, Outcome) {
    let s1 = LedgerView { book: create_if_absent(s.book, t.client), ..s };
    if s1.book.accounts[t.client].locked {
        (s1, Outcome::IgnoredLockedAccount)
    } else {
        dispatch(s1, t)
    }
}

/// The meaning of applying a whole stream, first transaction first.
pub open spec fn run_spec(s: LedgerView, ts: Seq<Transaction>) -> LedgerView
    decreases ts.len(),
{
    if ts.len() == 0 {
        s
    } else {
        run_spec(step(s, ts[0]).0, ts.drop_first())
    }
}

/// The single-writer, single-pass ledger: owns the account book and the
/// transaction index and applies transactions in arrival order.
pub struct LedgerEngine {
    book: AccountBook,
    index: TransactionIndex,
}

impl View for LedgerEngine {
    type V = LedgerView;

    closed spec fn view(&self) -> LedgerView {
        LedgerView { book: self.book@, index: self.index@ }
    }
}

impl LedgerEngine {
    /// The ledger invariant, established at creation and preserved by
    /// every transaction.
    pub open spec fn wf(&self) -> bool {
        ledger_wf(self@)
    }

    /// Create an engine with no accounts and no recorded transactions.
    pub fn new() -> (r: Self)
        ensures
            r@ == init_ledger(),
            r.wf(),
    {
        let engine = LedgerEngine { book: AccountBook::new(), index: TransactionIndex::new() };
        proof {
            assert(engine@ =~= init_ledger());
        }
        engine
    }

    /// Apply one transaction: exactly one `step` over the model. Bad input
    /// of every kind is ignored, with the outcome saying why; the ledger
    /// invariant is preserved.
    pub fn apply(&mut self, t: Transaction) -> (r: Outcome)
        requires
            old(self).wf(),
        ensures
            final(self).wf(),
            final(self)@ == step(old(self)@, t).0,
            r == step(old(self)@, t).1,
    {
        let bal = self.book.ensure_account(t.client);
        proof {
            let s1 = LedgerView { book: create_if_absent(old(self)@.book, t.client), ..old(self)@ };
            assert(self@ =~= s1);
            assert forall|c: u16| self@.book.accounts.contains_key(c)
                implies ((#[trigger] self@.book.accounts[c]).wf()
                && self@.book.accounts[c].in_range()) by {
                if c != t.client || old(self)@.book.accounts.contains_key(c) {
                    assert(old(self)@.book.accounts.contains_key(c));
                }
            }
        }
        if bal.is_locked {
            return Outcome::IgnoredLockedAccount;
        }
        match t.ty {
            TransactionType::Deposit | TransactionType::Withdrawal => self.apply_funds(t, bal),
            _ => self.apply_reference(t, bal),
        }
    }

    /// A deposit or withdrawal: record, then adjust the funds.
    fn apply_funds(&mut self, t: Transaction, bal: Balance) -> (r: Outcome)
        requires
            old(self).wf(),
            old(self)@.book.accounts.contains_key(t.client),
            bal@ == old(self)@.book.accounts[t.client],
            !bal@.locked,
            t.ty == TransactionType::Deposit || t.ty == TransactionType::Withdrawal,
        ensures
            final(self).wf(),
            final(self)@ == funds_step(old(self)@, t).0,
            r == funds_step(old(self)@, t).1,
    {
        let amount = match t.amount {
            Some(a) => a,
            None => {
                return Outcome::IgnoredMalformed;
            },
        };
        if !self.index.record(t.id, t.client, amount) {
            return Outcome::IgnoredDuplicateId;
        }
        let mut bal = bal;
        let o = if matches!(t.ty, TransactionType::Deposit) {
            bal.deposit(amount)
        } else {
            bal.withdraw(amount)
        };
        if o == Outcome::Applied {
            self.book.put(bal);
            proof {
                self.lemma_balances_wf_after_put(old(self)@, bal@, t.client);
            }
        }
        proof {
            assert(self@ =~= funds_step(old(self)@, t).0);
        }
        o
    }

    /// A dispute, resolve or chargeback: validate the reference, advance
    /// its status, adjust the funds; a chargeback locks the account.
    fn apply_reference(&mut self, t: Transaction, bal: Balance) -> (r: Outcome)
        requires
            old(self).wf(),
            old(self)@.book.accounts.contains_key(t.client),
            bal@ == old(self)@.book.accounts[t.client],
            !bal@.locked,
            t.ty == TransactionType::Dispute || t.ty == TransactionType::Resolve || t.ty
                == TransactionType::Chargeback,
        ensures
            final(self).wf(),
            final(self)@ == reference_step(old(self)@, t).0,
            r == reference_step(old(self)@, t).1,
    {
        if t.amount.is_some() {
            return Outcome::IgnoredMalformed;
        }
        let entry = match self.index.lookup(t.id) {
            Some(e) => e,
            None => {
                return Outcome::IgnoredUnknownReference;
            },
        };
        if entry.client != t.client {
            return Outcome::IgnoredClientMismatch;
        }
        let mut bal = bal;
        match t.ty {
            TransactionType::Dispute => {
                if entry.status != DisputeStatus::Undisputed {
                    return Outcome::IgnoredInvalidDisputeTransition;
                }
                let o = bal.dispute(entry.amount);
                if o == Outcome::Applied {
                    self.index.mark_disputed(t.id);
                    self.book.put(bal);
                    proof {
                        self.lemma_balances_wf_after_put(old(self)@, bal@, t.client);
                    }
                }
                proof {
                    assert(self@ =~= reference_step(old(self)@, t).0);
                }
                o
            },
            TransactionType::Resolve => {
                if entry.status != DisputeStatus::Open {
                    return Outcome::IgnoredInvalidDisputeTransition;
                }
                let o = bal.resolve(entry.amount);
                if o == Outcome::Applied {
                    self.index.mark_resolved(t.id);
                    self.book.put(bal);
                    proof {
                        self.lemma_balances_wf_after_put(old(self)@, bal@, t.client);
                    }
                }
                proof {
                    assert(self@ =~= reference_step(old(self)@, t).0);
                }
                o
            },
            _ => {
                if entry.status != DisputeStatus::Open {
                    return Outcome::IgnoredInvalidDisputeTransition;
                }
                let o = bal.chargeback(entry.amount);
                if o == Outcome::Applied {
                    bal.is_locked = true;
                    self.index.mark_chargedback(t.id);
                    self.book.put(bal);
                    proof {
                        self.lemma_balances_wf_after_put(old(self)@, bal@, t.client);
                    }
                }
                proof {
                    assert(self@ =~= reference_step(old(self)@, t).0);
                }
                o
            },
        }
    }

    /// After writing back one well-formed, representable balance, every
    /// balance in the book is still well-formed and representable.
    proof fn lemma_balances_wf_after_put(&self, s: LedgerView, b: BalanceView, client: u16)
        requires
            ledger_wf(s),
            b.wf(),
            b.in_range(),
            b.client == client,
            self@.book.accounts == s.book.accounts.insert(client, b),
        ensures
            forall|c: u16| self@.book.accounts.contains_key(c)
                ==> ((#[trigger] self@.book.accounts[c]).wf()
                && self@.book.accounts[c].in_range()),
    {
        assert forall|c: u16| self@.book.accounts.contains_key(c)
            implies ((#[trigger] self@.book.accounts[c]).wf()
            && self@.book.accounts[c].in_range()) by {
            if c != client {
                assert(s.book.accounts.contains_key(c));
            }
        }
    }

    /// Read the balance of `client`, if that client has appeared.
    pub fn balance_of(&self, client: u16) -> (r: Option<Balance>)
        ensures
            match r {
                Some(b) => self@.book.accounts.contains_key(client) && b@
                    == self@.book.accounts[client],
                None => !self@.book.accounts.contains_key(client),
            },
    {
        self.book.get(client)
    }

    /// The clients that have appeared, in order of first appearance.
    pub fn clients(&self) -> (r: &Vec<u16>)
        ensures
            r@ == self@.book.order,
    {
        self.book.clients()
    }

    /// The final snapshot: one balance per client, in order of first
    /// appearance.
    pub fn snapshot(&self) -> (rows: Vec<Balance>)
        requires
            self.wf(),
        ensures
            rows@.len() == self@.book.order.len(),
            forall|i: int| 0 <= i < rows@.len() ==> (#[trigger] rows@[i])@
                == self@.book.accounts[self@.book.order[i]],
    {
        let clients = self.book.clients();
        let n: usize = clients.len();
        let mut rows: Vec<Balance> = Vec::new();
        let mut i: usize = 0;
        while i < n
            invariant
                self.wf(),
                n == self@.book.order.len(),
                clients@ == self@.book.order,
                i <= n,
                rows@.len() == i,
                forall|j: int| 0 <= j < i as int ==> (#[trigger] rows@[j])@
                    == self@.book.accounts[self@.book.order[j]],
            decreases n - i,
        {
            match self.book.get(clients[i]) {
                Some(b) => {
                    rows.push(b);
                },
                None => {
                    proof {
                        assert(self@.book.accounts.contains_key(self@.book.order[i as int]));
                        assert(false);
                    }
                },
            }
            i = i + 1;
        }
        rows
    }

    /// Apply a whole stream of transactions, in order, to a fresh engine:
    /// the fold of `step` over the stream.
    pub fn run(transactions: &Vec<Transaction>) -> (r: LedgerEngine)
        ensures
            r.wf(),
            r@ == run_spec(init_ledger(), transactions@),
    {
        let mut engine = LedgerEngine::new();
        let n: usize = transactions.len();
        let mut i: usize = 0;
        while i < n
            invariant
                engine.wf(),
                n == transactions@.len(),
                i <= n,
                engine@ == run_spec(init_ledger(), transactions@.take(i as int)),
            decreases n - i,
        {
            let ghost prefix = transactions@.take(i as int);
            engine.apply(transactions[i]);
            proof {
                assert(transactions@.take(i + 1) =~= prefix.push(transactions@[i as int]));
                lemma_run_spec_snoc(init_ledger(), prefix, transactions@[i as int]);
            }
            i = i + 1;
        }
        proof {
            assert(transactions@.take(n as int) =~= transactions@);
        }
        engine
    }
}

/// Folding one more transaction onto the end of a stream is one `step`
/// after folding the stream.
pub proof fn lemma_run_spec_snoc(s: LedgerView, ts: Seq<Transaction>, t: Transaction)
    ensures
        run_spec(s, ts.push(t)) == step(run_spec(s, ts), t).0,
    decreases ts.len(),
{
    if ts.len() == 0 {
        assert(ts.push(t)[0] == t);
        assert(ts.push(t).drop_first() =~= Seq::<Transaction>::empty());
        assert(run_spec(s, ts) == s);
        assert(run_spec(step(s, t).0, ts.push(t).drop_first()) == step(s, t).0);
        assert(run_spec(s, ts.push(t)) == run_spec(step(s, t).0, ts.push(t).drop_first()));
    } else {
        assert(ts.push(t)[0] == ts[0]);
        assert(ts.push(t).drop_first() =~= ts.drop_first().push(t));
        lemma_run_spec_snoc(step(s, ts[0]).0, ts.drop_first(), t);
        assert(run_spec(s, ts.push(t)) == run_spec(step(s, ts[0]).0, ts.drop_first().push(t)));
        assert(run_spec(s, ts) == run_spec(step(s, ts[0]).0, ts.drop_first()));
    }
}

} // verus!
