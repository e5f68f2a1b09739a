//! End-to-end tests of the ledger engine: the sequencing rules, the
//! dispute lifecycle, and the reasons transactions are ignored. Amounts
//! are units of one ten-thousandth, so 10.0 is written 100000.

use payment_engine::Outcome;
use payment_engine::engine::LedgerEngine;
use payment_engine::index::{DisputeStatus, TransactionIndex};
use payment_engine::transaction::{Transaction, TransactionType};

fn deposit(client: u16, id: u32, amount: i64) -> Transaction {
    Transaction { amount: Some(amount), id, client, ty: TransactionType::Deposit }
}

fn withdrawal(client: u16, id: u32, amount: i64) -> Transaction {
    Transaction { amount: Some(amount), id, client, ty: TransactionType::Withdrawal }
}

fn dispute(client: u16, id: u32) -> Transaction {
    Transaction { amount: None, id, client, ty: TransactionType::Dispute }
}

fn resolve(client: u16, id: u32) -> Transaction {
    Transaction { amount: None, id, client, ty: TransactionType::Resolve }
}

fn chargeback(client: u16, id: u32) -> Transaction {
    Transaction { amount: None, id, client, ty: TransactionType::Chargeback }
}

#[test]
fn test_end_to_end_example() {
    let rows = vec![
        deposit(1, 1, 100000),    // deposit,1,1,10.0
        deposit(2, 2, 50000),     // deposit,2,2,5.0
        deposit(1, 3, 40000),     // deposit,1,3,4.0
        withdrawal(1, 4, 20000),  // withdrawal,1,4,2.0
        dispute(1, 1),            // dispute,1,1
    ];
    let engine = LedgerEngine::run(&rows);

    // Client 1 deposited 10.0 and 4.0, withdrew 2.0, and then disputed the
    // 10.0 deposit, which freezes that amount from available into held.
    let one = engine.balance_of(1).unwrap();
    assert_eq!(one.available, 20000); // 2.0
    assert_eq!(one.held, 100000); // 10.0
    assert_eq!(one.total, 120000); // 12.0
    assert!(!one.is_locked);

    let two = engine.balance_of(2).unwrap();
    assert_eq!(two.available, 50000); // 5.0
    assert_eq!(two.held, 0);
    assert_eq!(two.total, 50000); // 5.0
    assert!(!two.is_locked);
}

#[test]
fn test_end_to_end_chargeback_locks() {
    let rows = vec![
        deposit(1, 1, 100000),
        deposit(2, 2, 50000),
        deposit(1, 3, 40000),
        withdrawal(1, 4, 20000),
        dispute(1, 1),
        chargeback(1, 1), // chargeback,1,1
    ];
    let mut engine = LedgerEngine::run(&rows);

    // The chargeback reverses the disputed 10.0 deposit and locks the account.
    let one = engine.balance_of(1).unwrap();
    assert_eq!(one.available, 20000); // 2.0
    assert_eq!(one.held, 0);
    assert_eq!(one.total, 20000); // 2.0
    assert!(one.is_locked);

    // A following deposit must be ignored: the account is locked.
    let outcome = engine.apply(deposit(1, 5, 1000000)); // deposit,1,5,100.0
    assert_eq!(outcome, Outcome::IgnoredLockedAccount);
    let one = engine.balance_of(1).unwrap();
    assert_eq!(one.available, 20000);
    assert_eq!(one.held, 0);
    assert_eq!(one.total, 20000);
    assert!(one.is_locked);
}

#[test]
fn test_dispute_resolve_round_trip() {
    let mut engine = LedgerEngine::new();
    assert_eq!(engine.apply(deposit(7, 1, 250000)), Outcome::Applied);
    let before = engine.balance_of(7).unwrap();

    assert_eq!(engine.apply(dispute(7, 1)), Outcome::Applied);
    let during = engine.balance_of(7).unwrap();
    assert_eq!(during.available, 0);
    assert_eq!(during.held, 250000);
    assert_eq!(during.total, before.total);

    assert_eq!(engine.apply(resolve(7, 1)), Outcome::Applied);
    let after = engine.balance_of(7).unwrap();
    assert_eq!(after.available, before.available);
    assert_eq!(after.held, before.held);
    assert_eq!(after.total, before.total);
    assert!(!after.is_locked);
}

#[test]
fn test_dispute_chargeback_removes_total_and_locks() {
    let mut engine = LedgerEngine::new();
    assert_eq!(engine.apply(deposit(7, 1, 250000)), Outcome::Applied);
    let before = engine.balance_of(7).unwrap();

    assert_eq!(engine.apply(dispute(7, 1)), Outcome::Applied);
    assert_eq!(engine.apply(chargeback(7, 1)), Outcome::Applied);

    let after = engine.balance_of(7).unwrap();
    assert_eq!(after.total, before.total - 250000);
    assert_eq!(after.held, 0);
    assert_eq!(after.available, 0);
    assert!(after.is_locked);
}

#[test]
fn test_unknown_reference_ignored() {
    let mut engine = LedgerEngine::new();
    assert_eq!(engine.apply(deposit(1, 1, 100000)), Outcome::Applied);
    let before = engine.balance_of(1).unwrap();

    assert_eq!(engine.apply(resolve(1, 99)), Outcome::IgnoredUnknownReference);
    assert_eq!(engine.apply(chargeback(1, 99)), Outcome::IgnoredUnknownReference);
    assert_eq!(engine.apply(dispute(1, 99)), Outcome::IgnoredUnknownReference);

    let after = engine.balance_of(1).unwrap();
    assert_eq!(after.available, before.available);
    assert_eq!(after.held, before.held);
    assert_eq!(after.total, before.total);
    assert_eq!(after.is_locked, before.is_locked);
}

#[test]
fn test_double_dispute_ignored() {
    let mut engine = LedgerEngine::new();
    assert_eq!(engine.apply(deposit(1, 1, 100000)), Outcome::Applied);
    assert_eq!(engine.apply(dispute(1, 1)), Outcome::Applied);
    let once = engine.balance_of(1).unwrap();

    assert_eq!(engine.apply(dispute(1, 1)), Outcome::IgnoredInvalidDisputeTransition);
    let twice = engine.balance_of(1).unwrap();
    assert_eq!(twice.available, once.available);
    assert_eq!(twice.held, once.held);
    assert_eq!(twice.total, once.total);
    assert_eq!(twice.is_locked, once.is_locked);
}

#[test]
fn test_resolve_without_open_dispute_ignored() {
    let mut engine = LedgerEngine::new();
    assert_eq!(engine.apply(deposit(1, 1, 100000)), Outcome::Applied);
    // Never disputed: resolve and chargeback demand an open dispute.
    assert_eq!(engine.apply(resolve(1, 1)), Outcome::IgnoredInvalidDisputeTransition);
    assert_eq!(engine.apply(chargeback(1, 1)), Outcome::IgnoredInvalidDisputeTransition);
    // Already resolved: a second resolve is also out of sequence.
    assert_eq!(engine.apply(dispute(1, 1)), Outcome::Applied);
    assert_eq!(engine.apply(resolve(1, 1)), Outcome::Applied);
    assert_eq!(engine.apply(resolve(1, 1)), Outcome::IgnoredInvalidDisputeTransition);

    let one = engine.balance_of(1).unwrap();
    assert_eq!(one.available, 100000);
    assert_eq!(one.held, 0);
    assert_eq!(one.total, 100000);
}

#[test]
fn test_cross_client_dispute_ignored() {
    let mut engine = LedgerEngine::new();
    assert_eq!(engine.apply(deposit(1, 1, 100000)), Outcome::Applied);
    assert_eq!(engine.apply(dispute(2, 1)), Outcome::IgnoredClientMismatch);

    let one = engine.balance_of(1).unwrap();
    assert_eq!(one.available, 100000);
    assert_eq!(one.held, 0);
}

#[test]
fn test_missing_amount_ignored() {
    let mut engine = LedgerEngine::new();
    let malformed = Transaction { amount: None, id: 1, client: 1, ty: TransactionType::Deposit };
    assert_eq!(engine.apply(malformed), Outcome::IgnoredMalformed);
    // Nothing was recorded under id 1, so a fresh deposit may still use it.
    assert_eq!(engine.apply(deposit(1, 1, 50000)), Outcome::Applied);
}

#[test]
fn test_duplicate_id_ignored() {
    let mut engine = LedgerEngine::new();
    assert_eq!(engine.apply(deposit(1, 1, 100000)), Outcome::Applied);
    assert_eq!(engine.apply(deposit(1, 1, 100000)), Outcome::IgnoredDuplicateId);

    let one = engine.balance_of(1).unwrap();
    assert_eq!(one.available, 100000);
    assert_eq!(one.total, 100000);
}

#[test]
fn test_insufficient_funds_outcome() {
    let mut engine = LedgerEngine::new();
    assert_eq!(engine.apply(deposit(1, 1, 50000)), Outcome::Applied);
    assert_eq!(engine.apply(withdrawal(1, 2, 100000)), Outcome::IgnoredInsufficientFunds);

    let one = engine.balance_of(1).unwrap();
    assert_eq!(one.available, 50000);
    assert_eq!(one.total, 50000);
}

#[test]
fn test_out_of_range_deposit_ignored() {
    let mut engine = LedgerEngine::new();
    assert_eq!(engine.apply(deposit(1, 1, i64::MAX)), Outcome::Applied);
    assert_eq!(engine.apply(deposit(1, 2, 1)), Outcome::IgnoredOutOfRange);

    let one = engine.balance_of(1).unwrap();
    assert_eq!(one.available, i64::MAX);
    assert_eq!(one.total, i64::MAX);
}

#[test]
fn test_dispute_of_withdrawal() {
    let mut engine = LedgerEngine::new();
    assert_eq!(engine.apply(deposit(1, 1, 100000)), Outcome::Applied);
    assert_eq!(engine.apply(withdrawal(1, 2, 30000)), Outcome::Applied);
    assert_eq!(engine.apply(dispute(1, 2)), Outcome::Applied);

    let one = engine.balance_of(1).unwrap();
    assert_eq!(one.available, 40000);
    assert_eq!(one.held, 30000);
    assert_eq!(one.total, 70000);
}

#[test]
fn test_dispute_can_drive_available_negative() {
    let mut engine = LedgerEngine::new();
    assert_eq!(engine.apply(deposit(1, 1, 100000)), Outcome::Applied);
    assert_eq!(engine.apply(withdrawal(1, 2, 80000)), Outcome::Applied);
    // Disputing the historical deposit freezes more than is available now.
    assert_eq!(engine.apply(dispute(1, 1)), Outcome::Applied);

    let one = engine.balance_of(1).unwrap();
    assert_eq!(one.available, -80000);
    assert_eq!(one.held, 100000);
    assert_eq!(one.total, 20000);
}

#[test]
fn test_snapshot_order_of_first_appearance() {
    let rows = vec![
        deposit(5, 1, 10000),
        deposit(3, 2, 20000),
        deposit(5, 3, 30000),
        deposit(9, 4, 40000),
    ];
    let engine = LedgerEngine::run(&rows);
    assert_eq!(engine.clients().clone(), vec![5, 3, 9]);

    let snapshot = engine.snapshot();
    assert_eq!(snapshot.len(), 3);
    assert_eq!(snapshot[0].client, 5);
    assert_eq!(snapshot[0].total, 40000);
    assert_eq!(snapshot[1].client, 3);
    assert_eq!(snapshot[1].total, 20000);
    assert_eq!(snapshot[2].client, 9);
    assert_eq!(snapshot[2].total, 40000);
}

#[test]
fn test_index_records_and_transitions() {
    let mut index = TransactionIndex::new();
    assert!(index.record(1, 10, 50000));
    // A duplicate id must not overwrite history.
    assert!(!index.record(1, 11, 99999));

    let entry = index.lookup(1).unwrap();
    assert_eq!(entry.amount, 50000);
    assert_eq!(entry.client, 10);
    assert_eq!(entry.status, DisputeStatus::Undisputed);

    // Only Undisputed -> Open -> Resolved/ChargedBack are legal.
    assert!(!index.mark_resolved(1));
    assert!(!index.mark_chargedback(1));
    assert!(index.mark_disputed(1));
    assert!(!index.mark_disputed(1));
    assert!(index.mark_resolved(1));
    assert!(!index.mark_chargedback(1));
    assert_eq!(index.lookup(1).unwrap().status, DisputeStatus::Resolved);

    assert!(index.lookup(2).is_none());
}
