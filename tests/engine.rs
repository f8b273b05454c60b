use txp::account::{Account, AccountError};
use txp::tx::{ActorAction, AccountActor, Route, TxProcessor};
use txp::{Transaction, TxType, MONEY_SCALE};

fn tx(tx_type: TxType, client_id: u16, tx_id: u32, amount: i64) -> Transaction {
    Transaction { tx_type, client_id, tx_id, amount, in_dispute: false }
}

fn units(whole: i64) -> i64 {
    whole * MONEY_SCALE
}

fn row(a: &Account) -> String {
    String::from_utf8(a.to_row()).unwrap()
}

fn balances(a: &Account) -> (i64, i64, i64, bool) {
    (a.available_amount, a.held_amount, a.total_amount, a.is_locked)
}

#[test]
fn process_transaction() {
    let txs = vec![tx(TxType::Deposit, 1, 1, units(1))];
    let out = TxProcessor::process_all(&txs);
    assert_eq!(out.len(), 1);
    assert_eq!(format!("{}\n", row(&out[0])), "1,1.0000,0.0000,1.0000,false\n");
}

#[test]
fn dispute_moves_funds_to_held() {
    let mut actor = AccountActor::new(1);
    assert_eq!(actor.handle(Some(tx(TxType::Deposit, 1, 1, units(10)))), ActorAction::Applied);
    assert_eq!(actor.handle(Some(tx(TxType::Dispute, 1, 1, 0))), ActorAction::Applied);
    assert_eq!(balances(&actor.account()), (0, units(10), units(10), false));
}

#[test]
fn resolve_releases_held_funds() {
    let mut actor = AccountActor::new(1);
    actor.handle(Some(tx(TxType::Deposit, 1, 1, units(10))));
    actor.handle(Some(tx(TxType::Dispute, 1, 1, 0)));
    assert_eq!(actor.handle(Some(tx(TxType::Resolve, 1, 1, 0))), ActorAction::Applied);
    assert_eq!(balances(&actor.account()), (units(10), 0, units(10), false));
}

#[test]
fn chargeback_removes_funds_and_locks() {
    let mut actor = AccountActor::new(1);
    actor.handle(Some(tx(TxType::Deposit, 1, 1, units(10))));
    actor.handle(Some(tx(TxType::Dispute, 1, 1, 0)));
    assert_eq!(actor.handle(Some(tx(TxType::Chargeback, 1, 1, 0))), ActorAction::Applied);
    assert_eq!(balances(&actor.account()), (0, 0, 0, true));
}

#[test]
fn rejected_withdrawal_keeps_balance() {
    let mut actor = AccountActor::new(2);
    actor.handle(Some(tx(TxType::Deposit, 2, 2, units(5))));
    let before = actor.account();
    assert_eq!(
        actor.handle(Some(tx(TxType::Withdrawal, 2, 3, units(20)))),
        ActorAction::Rejected(AccountError::InssuficientFundsForWithdrawal(2))
    );
    assert_eq!(actor.account(), before);
    assert_eq!(actor.handle(None), ActorAction::Finished(before));
    assert_eq!(balances(&before), (units(5), 0, units(5), false));
}

#[test]
fn unknown_reference_is_reported() {
    let mut actor = AccountActor::new(1);
    actor.handle(Some(tx(TxType::Deposit, 1, 1, units(4))));
    let before = actor.account();
    for kind in [TxType::Dispute, TxType::Resolve, TxType::Chargeback] {
        assert_eq!(actor.handle(Some(tx(kind, 1, 77, 0))), ActorAction::Rejected(AccountError::NoTxForDispute(77)));
        assert_eq!(actor.account(), before);
    }
    // the deposit is still disputable: the ledger was left as it was
    assert_eq!(actor.handle(Some(tx(TxType::Dispute, 1, 1, 0))), ActorAction::Applied);
}

#[test]
fn locked_account_does_not_change() {
    let mut actor = AccountActor::new(1);
    actor.handle(Some(tx(TxType::Deposit, 1, 1, units(10))));
    actor.handle(Some(tx(TxType::Deposit, 1, 2, units(3))));
    actor.handle(Some(tx(TxType::Dispute, 1, 1, 0)));
    actor.handle(Some(tx(TxType::Chargeback, 1, 1, 0)));
    let locked = actor.account();
    assert_eq!(balances(&locked), (units(3), 0, units(3), true));
    assert_eq!(actor.handle(Some(tx(TxType::Deposit, 1, 5, units(1)))), ActorAction::Rejected(AccountError::Frozen(1)));
    assert_eq!(actor.handle(Some(tx(TxType::Withdrawal, 1, 6, units(1)))), ActorAction::Rejected(AccountError::Frozen(1)));
    assert_eq!(actor.handle(Some(tx(TxType::Dispute, 1, 2, 0))), ActorAction::Rejected(AccountError::Frozen(1)));
    assert_eq!(actor.account(), locked);
}

#[test]
fn failed_deposit_is_not_recorded() {
    let mut actor = AccountActor::new(1);
    actor.handle(Some(tx(TxType::Deposit, 1, 1, i64::MAX)));
    assert_eq!(
        actor.handle(Some(tx(TxType::Deposit, 1, 2, 1))),
        ActorAction::Rejected(AccountError::AmountOverflow(1))
    );
    assert_eq!(actor.handle(Some(tx(TxType::Dispute, 1, 2, 0))), ActorAction::Rejected(AccountError::NoTxForDispute(2)));
}

#[test]
fn totals_stay_balanced() {
    let mut actor = AccountActor::new(1);
    let steps = [
        tx(TxType::Deposit, 1, 1, 12345),
        tx(TxType::Withdrawal, 1, 2, 2345),
        tx(TxType::Dispute, 1, 1, 0),
        tx(TxType::Dispute, 1, 2, 0),
        tx(TxType::Resolve, 1, 2, 0),
        tx(TxType::Withdrawal, 1, 3, 99999),
        tx(TxType::Chargeback, 1, 1, 0),
    ];
    for t in steps {
        actor.handle(Some(t));
        let a = actor.account();
        assert_eq!(a.total_amount, a.available_amount + a.held_amount);
    }
}

#[test]
fn interleaving_does_not_change_client_results() {
    let a = vec![
        tx(TxType::Deposit, 1, 1, units(10)),
        tx(TxType::Deposit, 2, 2, units(7)),
        tx(TxType::Dispute, 1, 1, 0),
        tx(TxType::Withdrawal, 2, 3, units(2)),
        tx(TxType::Resolve, 1, 1, 0),
    ];
    let b = vec![
        tx(TxType::Deposit, 2, 2, units(7)),
        tx(TxType::Withdrawal, 2, 3, units(2)),
        tx(TxType::Deposit, 1, 1, units(10)),
        tx(TxType::Dispute, 1, 1, 0),
        tx(TxType::Resolve, 1, 1, 0),
    ];
    let ra = TxProcessor::process_all(&a);
    let rb = TxProcessor::process_all(&b);
    assert_eq!(ra.len(), 2);
    assert_eq!(ra[0], rb[1]);
    assert_eq!(ra[1], rb[0]);
    assert_eq!(balances(&ra[0]), (units(10), 0, units(10), false));
    assert_eq!(balances(&ra[1]), (units(5), 0, units(5), false));
}

#[test]
fn process_all_of_nothing_is_empty() {
    assert!(TxProcessor::process_all(&Vec::new()).is_empty());
}

#[test]
fn router_spawns_once_per_client() {
    let mut router = TxProcessor::new();
    assert_eq!(router.route(&tx(TxType::Deposit, 5, 1, 1)), Route::Spawn(5));
    assert_eq!(router.route(&tx(TxType::Deposit, 3, 2, 1)), Route::Spawn(3));
    assert_eq!(router.route(&tx(TxType::Withdrawal, 5, 3, 1)), Route::Forward(5));
    assert_eq!(router.clients(), vec![5, 3]);
}
