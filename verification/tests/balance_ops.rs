//! Tests of the `Balance` entity: the five adjustments, the lock, and the
//! bookkeeping invariant. Amounts are units of one ten-thousandth.

use payment_engine::balance::Balance;
use payment_engine::transaction::TransactionType;

#[test]
fn test_new_balance() {
    let balance = Balance::new(123);
    assert_eq!(balance.client, 123);
    assert_eq!(balance.available, 0);
    assert_eq!(balance.held, 0);
    assert_eq!(balance.total, 0);
    assert!(!balance.is_locked);
}

#[test]
fn balance_test_deposit() {
    let mut balance = Balance::new(1);
    balance.commit(TransactionType::Deposit, 1005000); // 100.5000

    assert_eq!(balance.available, 1005000);
    assert_eq!(balance.held, 0);
    assert_eq!(balance.total, 1005000);
}

#[test]
fn balance_test_withdrawal_sufficient_funds() {
    let mut balance = Balance::new(1);
    balance.commit(TransactionType::Deposit, 1000000); // 100.0000
    balance.commit(TransactionType::Withdrawal, 500000); // 50.0000

    assert_eq!(balance.available, 500000);
    assert_eq!(balance.held, 0);
    assert_eq!(balance.total, 500000);
}

#[test]
fn balance_test_withdrawal_insufficient_funds() {
    let mut balance = Balance::new(1);
    balance.commit(TransactionType::Deposit, 500000); // 50.0000
    balance.commit(TransactionType::Withdrawal, 1000000); // 100.0000

    // Should remain unchanged due to insufficient funds
    assert_eq!(balance.available, 500000);
    assert_eq!(balance.held, 0);
    assert_eq!(balance.total, 500000);
}

#[test]
fn balance_test_dispute() {
    let mut balance = Balance::new(1);
    balance.commit(TransactionType::Deposit, 1000000); // 100.0000
    balance.commit(TransactionType::Dispute, 300000); // 30.0000

    assert_eq!(balance.available, 700000); // 70.0000
    assert_eq!(balance.held, 300000); // 30.0000
    assert_eq!(balance.total, 1000000); // 100.0000
}

#[test]
fn balance_test_resolve() {
    let mut balance = Balance::new(1);
    balance.commit(TransactionType::Deposit, 1000000); // 100.0000
    balance.commit(TransactionType::Dispute, 300000); // 30.0000
    balance.commit(TransactionType::Resolve, 300000); // 30.0000

    assert_eq!(balance.available, 1000000); // 100.0000
    assert_eq!(balance.held, 0);
    assert_eq!(balance.total, 1000000); // 100.0000
}

#[test]
fn balance_test_chargeback() {
    let mut balance = Balance::new(1);
    balance.commit(TransactionType::Deposit, 1000000); // 100.0000
    balance.commit(TransactionType::Dispute, 300000); // 30.0000
    balance.commit(TransactionType::Chargeback, 300000); // 30.0000

    assert_eq!(balance.available, 700000); // 70.0000
    assert_eq!(balance.held, 0);
    assert_eq!(balance.total, 700000); // 70.0000
}

#[test]
fn balance_test_locked_account_ignores_transactions() {
    let mut balance = Balance::new(1);
    balance.commit(TransactionType::Deposit, 1000000); // 100.0000
    balance.commit(TransactionType::Dispute, 300000); // 30.0000
    balance.commit(TransactionType::Chargeback, 300000); // 30.0000

    // After chargeback, balance should be locked (this would typically be set externally)
    balance.is_locked = true;

    let available_before = balance.available;
    let held_before = balance.held;
    let total_before = balance.total;

    // These should all be ignored due to locked balance
    balance.commit(TransactionType::Deposit, 500000);
    balance.commit(TransactionType::Withdrawal, 100000);
    balance.commit(TransactionType::Dispute, 100000);
    balance.commit(TransactionType::Resolve, 100000);

    assert_eq!(balance.available, available_before);
    assert_eq!(balance.held, held_before);
    assert_eq!(balance.total, total_before);
}

#[test]
fn balance_test_multiple_transactions() {
    let mut balance = Balance::new(1);

    // Multiple deposits
    balance.commit(TransactionType::Deposit, 500000); // 50.0000
    balance.commit(TransactionType::Deposit, 250000); // 25.0000
    balance.commit(TransactionType::Deposit, 250000); // 25.0000

    assert_eq!(balance.total, 1000000); // 100.0000
    assert_eq!(balance.available, 1000000); // 100.0000

    // Withdrawal
    balance.commit(TransactionType::Withdrawal, 150000); // 15.0000

    assert_eq!(balance.total, 850000); // 85.0000
    assert_eq!(balance.available, 850000); // 85.0000

    // Dispute
    balance.commit(TransactionType::Dispute, 200000); // 20.0000

    assert_eq!(balance.total, 850000); // 85.0000
    assert_eq!(balance.available, 650000); // 65.0000
    assert_eq!(balance.held, 200000); // 20.0000
}

#[test]
fn test_balance_invariants() {
    let mut balance = Balance::new(1);

    // Test that total == available + held always holds
    balance.commit(TransactionType::Deposit, 1000000);
    assert_eq!(balance.total, balance.available + balance.held);

    balance.commit(TransactionType::Dispute, 300000);
    assert_eq!(balance.total, balance.available + balance.held);

    balance.commit(TransactionType::Resolve, 300000);
    assert_eq!(balance.total, balance.available + balance.held);

    balance.commit(TransactionType::Dispute, 200000);
    assert_eq!(balance.total, balance.available + balance.held);

    balance.commit(TransactionType::Chargeback, 200000);
    assert_eq!(balance.total, balance.available + balance.held);
}

#[test]
fn balance_test_zero_amount_transactions() {
    let mut balance = Balance::new(1);
    balance.commit(TransactionType::Deposit, 500000); // 50.0000

    let original_available = balance.available;
    let original_held = balance.held;
    let original_total = balance.total;

    // Zero amount transactions should not change anything
    balance.commit(TransactionType::Deposit, 0);
    balance.commit(TransactionType::Withdrawal, 0);
    balance.commit(TransactionType::Dispute, 0);
    balance.commit(TransactionType::Resolve, 0);
    balance.commit(TransactionType::Chargeback, 0);

    assert_eq!(balance.available, original_available);
    assert_eq!(balance.held, original_held);
    assert_eq!(balance.total, original_total);
}

#[test]
fn balance_test_precision_handling() {
    let mut balance = Balance::new(1);

    // Test with 4 decimal places
    balance.commit(TransactionType::Deposit, 123456); // 12.3456

    assert_eq!(balance.available, 123456);
    assert_eq!(balance.total, 123456);

    balance.commit(TransactionType::Withdrawal, 3456); // 0.3456

    assert_eq!(balance.available, 120000); // 12.0000
    assert_eq!(balance.total, 120000);
}
