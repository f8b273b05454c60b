use std::collections::HashMap;

use txp::account::{Account, AccountError};
use txp::{Transaction, TxType, MONEY_SCALE};

fn units(whole: i64) -> i64 {
    whole * MONEY_SCALE
}

fn stored_deposit(amount: i64, in_dispute: bool) -> Transaction {
    Transaction { tx_type: TxType::Deposit, client_id: 1, tx_id: 1, amount, in_dispute }
}

#[test]
fn account_default() {
    let a = Account::default();
    assert_eq!(a.client_id, 0);
    assert_eq!(a.available_amount, 0);
    assert_eq!(a.held_amount, 0);
    assert_eq!(a.total_amount, 0);
    assert_eq!(a.is_locked, false);
}

#[test]
fn account_deposit() {
    let mut a = Account { client_id: 1, total_amount: 0, held_amount: 0, available_amount: 0, is_locked: false };
    let a1 = a.deposit(units(5)).unwrap();
    a = Account { client_id: 1, total_amount: units(5), held_amount: 0, available_amount: units(5), is_locked: false };
    assert_eq!(a, a1);
}

#[test]
fn account_withdrawal() {
    let mut a = Account {
        client_id: 1,
        total_amount: units(15),
        held_amount: units(5),
        available_amount: units(10),
        is_locked: false,
    };
    let a1 = a.withdrawal(units(5)).unwrap();
    a = Account {
        client_id: 1,
        total_amount: units(10),
        held_amount: units(5),
        available_amount: units(5),
        is_locked: false,
    };
    assert_eq!(a, a1);
}

#[test]
fn account_dispute() {
    let mut a = Account {
        client_id: 1,
        available_amount: units(10),
        held_amount: units(5),
        total_amount: units(15),
        is_locked: false,
    };
    let mut history = HashMap::<u32, Transaction>::new();
    history.insert(1, stored_deposit(units(10), false));
    let a1 = a.dispute(1, &mut history).unwrap();
    a = Account { client_id: 1, available_amount: 0, held_amount: units(15), total_amount: units(15), is_locked: false };
    assert_eq!(a, a1);
    assert!(history[&1].in_dispute);
}

#[test]
fn account_resolve() {
    let mut a = Account { client_id: 1, available_amount: 0, held_amount: units(15), total_amount: units(15), is_locked: false };
    let mut history = HashMap::<u32, Transaction>::new();
    history.insert(1, stored_deposit(units(10), true));
    let a1 = a.resolve(1, &mut history).unwrap();
    a = Account {
        client_id: 1,
        available_amount: units(10),
        held_amount: units(5),
        total_amount: units(15),
        is_locked: false,
    };
    assert_eq!(a, a1);
    assert!(!history[&1].in_dispute);
}

#[test]
fn account_chargeback() {
    let mut a = Account {
        client_id: 1,
        available_amount: units(10),
        held_amount: units(15),
        total_amount: units(25),
        is_locked: false,
    };
    let mut history = HashMap::<u32, Transaction>::new();
    history.insert(1, stored_deposit(units(10), true));
    let a1 = a.chargeback(1, &mut history).unwrap();
    a = Account {
        client_id: 1,
        available_amount: units(10),
        held_amount: units(5),
        total_amount: units(15),
        is_locked: true,
    };
    assert_eq!(a, a1);
    assert!(!history[&1].in_dispute);
}

#[test]
fn new_account_is_zero_and_unlocked() {
    let a = Account::new(7);
    assert_eq!(a, Account { client_id: 7, available_amount: 0, held_amount: 0, total_amount: 0, is_locked: false });
}

#[test]
fn locked_account_rejects_everything() {
    let a = Account { client_id: 3, available_amount: units(2), held_amount: 0, total_amount: units(2), is_locked: true };
    let mut history = HashMap::<u32, Transaction>::new();
    history.insert(1, stored_deposit(units(2), true));
    assert_eq!(a.deposit(units(1)), Err(AccountError::Frozen(3)));
    assert_eq!(a.withdrawal(units(1)), Err(AccountError::Frozen(3)));
    assert_eq!(a.dispute(1, &mut history), Err(AccountError::Frozen(3)));
    assert_eq!(a.resolve(1, &mut history), Err(AccountError::Frozen(3)));
    assert_eq!(a.chargeback(1, &mut history), Err(AccountError::Frozen(3)));
    assert!(history[&1].in_dispute);
}

#[test]
fn withdrawal_beyond_available_is_rejected() {
    let a = Account { client_id: 2, available_amount: units(5), held_amount: 0, total_amount: units(5), is_locked: false };
    assert_eq!(a.withdrawal(units(20)), Err(AccountError::InssuficientFundsForWithdrawal(2)));
    assert_eq!(a.withdrawal(units(5)).unwrap().available_amount, 0);
}

#[test]
fn unknown_and_undisputed_references_are_rejected() {
    let a = Account::new(1);
    let mut history = HashMap::<u32, Transaction>::new();
    assert_eq!(a.dispute(9, &mut history), Err(AccountError::NoTxForDispute(9)));
    assert_eq!(a.resolve(9, &mut history), Err(AccountError::NoTxForDispute(9)));
    assert_eq!(a.chargeback(9, &mut history), Err(AccountError::NoTxForDispute(9)));
    history.insert(1, stored_deposit(units(1), false));
    assert_eq!(a.resolve(1, &mut history), Err(AccountError::TxNotInDispute(1)));
    assert_eq!(a.chargeback(1, &mut history), Err(AccountError::TxNotInDispute(1)));
    assert!(!history[&1].in_dispute);
}

#[test]
fn overflowing_deposit_is_rejected() {
    let a = Account { client_id: 4, available_amount: i64::MAX, held_amount: 0, total_amount: i64::MAX, is_locked: false };
    assert_eq!(a.deposit(1), Err(AccountError::AmountOverflow(4)));
    let b = Account { client_id: 4, available_amount: 10, held_amount: i64::MAX - 10, total_amount: i64::MAX, is_locked: false };
    assert_eq!(b.deposit(1), Err(AccountError::AmountOverflow(4)));
}

#[test]
fn repeated_dispute_holds_the_amount_again() {
    let a = Account { client_id: 1, available_amount: units(10), held_amount: 0, total_amount: units(10), is_locked: false };
    let mut history = HashMap::<u32, Transaction>::new();
    history.insert(1, stored_deposit(units(10), false));
    let a1 = a.dispute(1, &mut history).unwrap();
    let a2 = a1.dispute(1, &mut history).unwrap();
    assert_eq!(a2.available_amount, -units(10));
    assert_eq!(a2.held_amount, units(20));
    assert_eq!(a2.total_amount, units(10));
}

#[test]
fn process_transaction_dispatches_on_kind() {
    let a = Account::new(1);
    let mut history = HashMap::<u32, Transaction>::new();
    let dep = Transaction { tx_type: TxType::Deposit, client_id: 1, tx_id: 1, amount: units(3), in_dispute: false };
    let a1 = a.process_transaction(&dep, &mut history).unwrap();
    assert_eq!(a1.available_amount, units(3));
    history.insert(1, dep);
    let dis = Transaction { tx_type: TxType::Dispute, client_id: 1, tx_id: 1, amount: 0, in_dispute: false };
    let a2 = a1.process_transaction(&dis, &mut history).unwrap();
    assert_eq!((a2.available_amount, a2.held_amount, a2.total_amount), (0, units(3), units(3)));
    assert!(history[&1].in_dispute);
}
