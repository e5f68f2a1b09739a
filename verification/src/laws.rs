//! The ledger's laws: properties that hold of every transaction stream,
//! stated and proved once and for all over the mathematical model. Each
//! law speaks of the spec-level transition `step`, which every executable
//! application of a transaction is proved to follow exactly.

use vstd::prelude::*;

use crate::Outcome;
use crate::balance::{BalanceView, commit_spec, empty_balance, fits, op_applied, op_outcome};
use crate::book::{create_if_absent, lemma_create_if_absent_wf, lemma_with_balance_wf,
    with_balance};
use crate::engine::{LedgerView, ledger_wf, next_status, required_status, run_spec, step};
use crate::index::{DisputeStatus, IndexedTransaction};
use crate::transaction::{Transaction, TransactionType};

verus! {

/// The balance a client holds in a ledger state, counting a client never
/// seen as a fresh empty balance.
pub open spec fn account_of(s: LedgerView, client: u16) -> BalanceView {
    if s.book.accounts.contains_key(client) {
        s.book.accounts[client]
    } else {
        empty_balance(client)
    }
}

/// A deposit record for `amount` under transaction id `id`.
pub open spec fn deposit_tx(client: u16, id: u32, amount: i64) -> Transaction {
    Transaction { amount: Some(amount), id, client, ty: TransactionType::Deposit }
}

/// A dispute of transaction id `id`.
pub open spec fn dispute_tx(client: u16, id: u32) -> Transaction {
    Transaction { amount: None, id, client, ty: TransactionType::Dispute }
}

/// A resolve of transaction id `id`.
pub open spec fn resolve_tx(client: u16, id: u32) -> Transaction {
    Transaction { amount: None, id, client, ty: TransactionType::Resolve }
}

/// A chargeback of transaction id `id`.
pub open spec fn chargeback_tx(client: u16, id: u32) -> Transaction {
    Transaction { amount: None, id, client, ty: TransactionType::Chargeback }
}

/// After a well-formed balance is written back for one client, every
/// balance in the resulting ledger is well-formed and representable.
proof fn lemma_ledger_wf_with_balance(
    s: LedgerView,
    b: BalanceView,
    index: Map<u32, IndexedTransaction>,
)
    requires
        ledger_wf(s),
        b.wf(),
        b.in_range(),
        s.book.accounts.contains_key(b.client),
    ensures
        ledger_wf(LedgerView { book: with_balance(s.book, b), index }),
{
    lemma_with_balance_wf(s.book, b);
    let v2 = with_balance(s.book, b);
    assert forall|c: u16| v2.accounts.contains_key(c)
        implies ((#[trigger] v2.accounts[c]).wf() && v2.accounts[c].in_range()) by {
        if c != b.client {
            assert(s.book.accounts.contains_key(c));
        }
    }
}

/// Invariant preservation: after any transaction, every client's balance
/// still satisfies `total == available + held`, stays representable, and
/// the book stays structurally sound.
pub proof fn lemma_step_preserves_invariant(s: LedgerView, t: Transaction)
    requires
        ledger_wf(s),
    ensures
        ledger_wf(step(s, t).0),
{
    let s1 = LedgerView { book: create_if_absent(s.book, t.client), ..s };
    lemma_create_if_absent_wf(s.book, t.client);
    assert forall|c: u16| s1.book.accounts.contains_key(c)
        implies ((#[trigger] s1.book.accounts[c]).wf() && s1.book.accounts[c].in_range()) by {
        if s.book.accounts.contains_key(c) {
            assert(s.book.accounts[c].wf());
        }
    }
    assert(ledger_wf(s1));
    let b = s1.book.accounts[t.client];
    if !b.locked {
        match t.ty {
            TransactionType::Deposit | TransactionType::Withdrawal => {
                match t.amount {
                    Option::Some(a) => {
                        if !s1.index.contains_key(t.id) {
                            let recorded = s1.index.insert(
                                t.id,
                                IndexedTransaction {
                                    amount: a,
                                    client: t.client,
                                    status: DisputeStatus::Undisputed,
                                },
                            );
                            if op_outcome(b, t.ty, a as int) == Outcome::Applied {
                                let b2 = op_applied(b, t.ty, a as int);
                                lemma_ledger_wf_with_balance(
                                    LedgerView { index: recorded, ..s1 },
                                    b2,
                                    recorded,
                                );
                            }
                        }
                    },
                    Option::None => {},
                }
            },
            _ => {
                if t.amount is None && s1.index.contains_key(t.id) {
                    let e = s1.index[t.id];
                    if e.client == t.client && e.status == required_status(t.ty) {
                        if op_outcome(b, t.ty, e.amount as int) == Outcome::Applied {
                            let adjusted = op_applied(b, t.ty, e.amount as int);
                            let settled = if t.ty == TransactionType::Chargeback {
                                BalanceView { locked: true, ..adjusted }
                            } else {
                                adjusted
                            };
                            lemma_ledger_wf_with_balance(
                                s1,
                                settled,
                                s1.index.insert(
                                    t.id,
                                    IndexedTransaction { status: next_status(t.ty), ..e },
                                ),
                            );
                        }
                    }
                }
            },
        }
    }
}

/// Invariant preservation over a whole stream: applying any sequence of
/// transactions to a well-formed ledger leaves a well-formed ledger.
pub proof fn lemma_run_preserves_invariant(s: LedgerView, ts: Seq<Transaction>)
    requires
        ledger_wf(s),
    ensures
        ledger_wf(run_spec(s, ts)),
    decreases ts.len(),
{
    if ts.len() > 0 {
        lemma_step_preserves_invariant(s, ts[0]);
        lemma_run_preserves_invariant(step(s, ts[0]).0, ts.drop_first());
    }
}

/// Non-negativity under direct operations: a withdrawal either leaves the
/// balance exactly as it was (in particular whenever it asks for more than
/// the available funds), or it applies and the remaining available funds
/// are exactly the old funds less the amount, which is not negative.
pub proof fn lemma_withdrawal_never_negative(b: BalanceView, amount: int)
    ensures
        amount > b.available ==> commit_spec(b, TransactionType::Withdrawal, amount) == b,
        op_outcome(b, TransactionType::Withdrawal, amount) != Outcome::Applied
            ==> commit_spec(b, TransactionType::Withdrawal, amount) == b,
        op_outcome(b, TransactionType::Withdrawal, amount) == Outcome::Applied ==> {
            let b2 = commit_spec(b, TransactionType::Withdrawal, amount);
            &&& b2.available == b.available - amount
            &&& b2.available >= 0
            &&& b2.total == b.total - amount
            &&& b2.held == b.held
            &&& b2.locked == b.locked
        },
{
}

/// Lock finality: once a client's account is locked, no transaction
/// whatsoever changes that client's balance again (and in particular it
/// stays locked).
pub proof fn lemma_lock_finality(s: LedgerView, t: Transaction, client: u16)
    requires
        ledger_wf(s),
        s.book.accounts.contains_key(client),
        s.book.accounts[client].locked,
    ensures
        step(s, t).0.book.accounts.contains_key(client),
        step(s, t).0.book.accounts[client] == s.book.accounts[client],
{
    let s1 = LedgerView { book: create_if_absent(s.book, t.client), ..s };
    assert(s1.book.accounts[client] == s.book.accounts[client]);
    if t.client != client {
        let b = s1.book.accounts[t.client];
        assert(b.client == t.client);
    }
}

/// Unknown reference ignored: a dispute, resolve or chargeback naming a
/// transaction id never recorded changes no balance and records nothing;
/// at most the referencing client's empty account springs into being.
pub proof fn lemma_unknown_reference_ignored(s: LedgerView, t: Transaction)
    requires
        t.ty == TransactionType::Dispute || t.ty == TransactionType::Resolve || t.ty
            == TransactionType::Chargeback,
        !s.index.contains_key(t.id),
    ensures
        step(s, t).0.index == s.index,
        forall|c: u16| s.book.accounts.contains_key(c)
            ==> step(s, t).0.book.accounts.contains_key(c) && step(s, t).0.book.accounts[c]
            == s.book.accounts[c],
{
}

/// Double dispute rejected: disputing the same transaction twice in a row
/// leaves the ledger exactly as the single dispute left it.
pub proof fn lemma_double_dispute(s: LedgerView, t: Transaction)
    requires
        ledger_wf(s),
        t.ty == TransactionType::Dispute,
    ensures
        step(step(s, t).0, t).0 == step(s, t).0,
{
    let s1 = step(s, t).0;
    let s2 = step(s1, t).0;
    assert(s1.book.accounts.contains_key(t.client));
    assert(create_if_absent(s1.book, t.client) == s1.book);
    if !s1.book.accounts[t.client].locked {
        assert(s2 =~= s1);
    }
}

/// Dispute then resolve round-trip: depositing an amount, disputing that
/// deposit, and resolving the dispute returns available and held to their
/// pre-dispute values, with total unchanged throughout.
pub proof fn lemma_dispute_resolve_round_trip(s: LedgerView, client: u16, id: u32, amount: i64)
    requires
        ledger_wf(s),
        !s.index.contains_key(id),
        !account_of(s, client).locked,
        fits(account_of(s, client).available + amount),
        fits(account_of(s, client).total + amount),
        fits(account_of(s, client).held + amount),
    ensures
        ({
            let s1 = step(s, deposit_tx(client, id, amount)).0;
            let s2 = step(s1, dispute_tx(client, id)).0;
            let s3 = step(s2, resolve_tx(client, id)).0;
            &&& step(s, deposit_tx(client, id, amount)).1 == Outcome::Applied
            &&& step(s1, dispute_tx(client, id)).1 == Outcome::Applied
            &&& step(s2, resolve_tx(client, id)).1 == Outcome::Applied
            &&& s2.book.accounts[client].total == s1.book.accounts[client].total
            &&& s3.book.accounts[client] == s1.book.accounts[client]
        }),
{
    let b0 = account_of(s, client);
    if s.book.accounts.contains_key(client) {
        assert(b0.wf() && b0.in_range());
    }
    let s1 = step(s, deposit_tx(client, id, amount)).0;
    assert(s1.book.accounts[client] == op_applied(b0, TransactionType::Deposit, amount as int));
    let s2 = step(s1, dispute_tx(client, id)).0;
    let s3 = step(s2, resolve_tx(client, id)).0;
    assert(s3.book.accounts[client] == s1.book.accounts[client]);
}

/// Dispute then chargeback: depositing an amount, disputing that deposit,
/// and charging it back removes the amount from total again, returns held
/// and available to their pre-deposit values, and locks the account.
pub proof fn lemma_dispute_chargeback(s: LedgerView, client: u16, id: u32, amount: i64)
    requires
        ledger_wf(s),
        !s.index.contains_key(id),
        !account_of(s, client).locked,
        fits(account_of(s, client).available + amount),
        fits(account_of(s, client).total + amount),
        fits(account_of(s, client).held + amount),
    ensures
        ({
            let s1 = step(s, deposit_tx(client, id, amount)).0;
            let s2 = step(s1, dispute_tx(client, id)).0;
            let s3 = step(s2, chargeback_tx(client, id)).0;
            let b3 = s3.book.accounts[client];
            &&& step(s, deposit_tx(client, id, amount)).1 == Outcome::Applied
            &&& step(s1, dispute_tx(client, id)).1 == Outcome::Applied
            &&& step(s2, chargeback_tx(client, id)).1 == Outcome::Applied
            &&& b3.total == s1.book.accounts[client].total - amount
            &&& b3.total == account_of(s, client).total
            &&& b3.held == account_of(s, client).held
            &&& b3.available == account_of(s, client).available
            &&& b3.locked
        }),
{
    let b0 = account_of(s, client);
    if s.book.accounts.contains_key(client) {
        assert(b0.wf() && b0.in_range());
    }
    let s1 = step(s, deposit_tx(client, id, amount)).0;
    assert(s1.book.accounts[client] == op_applied(b0, TransactionType::Deposit, amount as int));
    let s2 = step(s1, dispute_tx(client, id)).0;
    let s3 = step(s2, chargeback_tx(client, id)).0;
}

} // verus!

