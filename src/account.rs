//! The account state machine: five transitions over an account and the
//! ledger of its past deposits and withdrawals.
use std::collections::HashMap;
use vstd::prelude::*;

use crate::{ClientId, Money, Transaction, TxId, TxType};

verus! {

/// Why a transaction was not applied to an account. Each one leaves the
/// account and its ledger as they were.
#[derive(Clone, Copy, Debug, PartialEq, Eq, Structural)]
pub enum AccountError {
    /// The account is locked: no transaction applies to it any more.
    Frozen(ClientId),
    /// A withdrawal asked for more than the available funds.
    InssuficientFundsForWithdrawal(ClientId),
    /// A dispute, resolve or chargeback named a transaction absent from the ledger.
    NoTxForDispute(TxId),
    /// A resolve or chargeback named a transaction that is not disputed.
    TxNotInDispute(TxId),
    /// A balance would leave the range of `Money`.
    AmountOverflow(ClientId),
}

/// The balances and lock status of one client.
#[derive(Clone, Copy, Debug, PartialEq, Eq, Structural)]
pub struct Account {
    pub client_id: ClientId,
    /// Funds available for trading, staking or withdrawal.
    pub available_amount: Money,
    /// Funds held because of an open dispute.
    pub held_amount: Money,
    /// Always `available_amount + held_amount`.
    pub total_amount: Money,
    pub is_locked: bool,
}

/// `x` is representable as `Money`.
pub open spec fn fits_money(x: int) -> bool {
    i64::MIN <= x <= i64::MAX
}

/// The account with the given balances, its total recomputed; an overflow
/// error where a balance or the total leaves the range of `Money`.
pub open spec fn balanced(
    client_id: ClientId,
    available: int,
    held: int,
    is_locked: bool,
) -> Result<Account, AccountError> {
    if fits_money(available) && fits_money(held) && fits_money(available + held) {
        Ok(
            Account {
                client_id,
                available_amount: available as i64,
                held_amount: held as i64,
                total_amount: (available + held) as i64,
                is_locked,
            },
        )
    } else {
        Err(AccountError::AmountOverflow(client_id))
    }
}

impl Account {
    /// The account invariant: the total is the sum of available and held funds.
    pub open spec fn wf(&self) -> bool {
        self.total_amount == self.available_amount + self.held_amount
    }

    /// A fresh account: all amounts zero, unlocked.
    pub open spec fn spec_new(client_id: ClientId) -> Account {
        Account {
            client_id,
            available_amount: 0,
            held_amount: 0,
            total_amount: 0,
            is_locked: false,
        }
    }

    pub open spec fn spec_deposit(self, amount: Money) -> Result<Account, AccountError> {
        if self.is_locked {
            Err(AccountError::Frozen(self.client_id))
        } else {
            balanced(self.client_id, self.available_amount + amount, self.held_amount as int, false)
        }
    }

    pub open spec fn spec_withdrawal(self, amount: Money) -> Result<Account, AccountError> {
        if self.is_locked {
            Err(AccountError::Frozen(self.client_id))
        } else if self.available_amount < amount {
            Err(AccountError::InssuficientFundsForWithdrawal(self.client_id))
        } else {
            balanced(self.client_id, self.available_amount - amount, self.held_amount as int, false)
        }
    }

    pub open spec fn spec_dispute(self, tx_id: TxId, ledger: Map<TxId, Transaction>) -> Result<
        Account,
        AccountError,
    > {
        if self.is_locked {
            Err(AccountError::Frozen(self.client_id))
        } else if !ledger.contains_key(tx_id) {
            Err(AccountError::NoTxForDispute(tx_id))
        } else {
            let amount = ledger[tx_id].amount;
            balanced(
                self.client_id,
                self.available_amount - amount,
                self.held_amount + amount,
                false,
            )
        }
    }

    pub open spec fn spec_resolve(self, tx_id: TxId, ledger: Map<TxId, Transaction>) -> Result<
        Account,
        AccountError,
    > {
        if self.is_locked {
            Err(AccountError::Frozen(self.client_id))
        } else if !ledger.contains_key(tx_id) {
            Err(AccountError::NoTxForDispute(tx_id))
        } else if !ledger[tx_id].in_dispute {
            Err(AccountError::TxNotInDispute(tx_id))
        } else {
            let amount = ledger[tx_id].amount;
            balanced(
                self.client_id,
                self.available_amount + amount,
                self.held_amount - amount,
                false,
            )
        }
    }

    pub open spec fn spec_chargeback(self, tx_id: TxId, ledger: Map<TxId, Transaction>) -> Result<
        Account,
        AccountError,
    > {
        if self.is_locked {
            Err(AccountError::Frozen(self.client_id))
        } else if !ledger.contains_key(tx_id) {
            Err(AccountError::NoTxForDispute(tx_id))
        } else if !ledger[tx_id].in_dispute {
            Err(AccountError::TxNotInDispute(tx_id))
        } else {
            let amount = ledger[tx_id].amount;
            balanced(self.client_id, self.available_amount as int, self.held_amount - amount, true)
        }
    }

    /// The outcome of applying `t` to this account with ledger `ledger`.
    pub open spec fn spec_process(self, t: Transaction, ledger: Map<TxId, Transaction>) -> Result<
        Account,
        AccountError,
    > {
        match t.tx_type {
            TxType::Deposit => self.spec_deposit(t.amount),
            TxType::Withdrawal => self.spec_withdrawal(t.amount),
            TxType::Dispute => self.spec_dispute(t.tx_id, ledger),
            TxType::Resolve => self.spec_resolve(t.tx_id, ledger),
            TxType::Chargeback => self.spec_chargeback(t.tx_id, ledger),
        }
    }
}

/// `ledger` with the dispute mark of entry `tx_id` set to `flag`.
pub open spec fn marked(ledger: Map<TxId, Transaction>, tx_id: TxId, flag: bool) -> Map<
    TxId,
    Transaction,
> {
    ledger.insert(tx_id, Transaction { in_dispute: flag, ..ledger[tx_id] })
}

/// The ledger after `t` was applied with outcome `outcome`: a successful
/// dispute marks the referenced entry disputed, a successful resolve or
/// chargeback clears the mark; nothing else changes it.
pub open spec fn ledger_after(
    t: Transaction,
    ledger: Map<TxId, Transaction>,
    outcome: Result<Account, AccountError>,
) -> Map<TxId, Transaction> {
    if outcome is Ok && ledger.contains_key(t.tx_id) {
        match t.tx_type {
            TxType::Dispute => marked(ledger, t.tx_id, true),
            TxType::Resolve | TxType::Chargeback => marked(ledger, t.tx_id, false),
            _ => ledger,
        }
    } else {
        ledger
    }
}

/// Builds the account with the given balances, or the overflow error,
/// exactly as `balanced` says.
fn build_account(client_id: ClientId, available: i128, held: i128, is_locked: bool) -> (r: Result<
    Account,
    AccountError,
>)
    requires
        -0x1_0000_0000_0000_0000 <= available <= 0x1_0000_0000_0000_0000,
        -0x1_0000_0000_0000_0000 <= held <= 0x1_0000_0000_0000_0000,
    ensures
        r == balanced(client_id, available as int, held as int, is_locked),
{
    let lo = i64::MIN as i128;
    let hi = i64::MAX as i128;
    let total = available + held;
    if lo <= available && available <= hi && lo <= held && held <= hi && lo <= total && total
        <= hi {
        Ok(
            Account {
                client_id,
                available_amount: available as i64,
                held_amount: held as i64,
                total_amount: total as i64,
                is_locked,
            },
        )
    } else {
        Err(AccountError::AmountOverflow(client_id))
    }
}

impl Default for Account {
    fn default() -> (r: Account)
        ensures
            r == Account::spec_new(0),
    {
        Account::new(0)
    }
}

impl Account {
    /// A fresh account for `client_id`: all amounts zero, unlocked.
    pub fn new(client_id: ClientId) -> (r: Account)
        ensures
            r == Account::spec_new(client_id),
            r.wf(),
    {
        Account {
            client_id,
            available_amount: 0,
            held_amount: 0,
            total_amount: 0,
            is_locked: false,
        }
    }

    /// Applies `t` to this account. The ledger `history` holds the account's
    /// past deposits and withdrawals; a dispute, resolve or chargeback that
    /// succeeds updates the dispute mark of the entry it names.
    pub fn process_transaction(&self, t: &Transaction, history: &mut HashMap<TxId, Transaction>) -> (r:
        Result<Account, AccountError>)
        ensures
            r == self.spec_process(*t, old(history)@),
            final(history)@ == ledger_after(*t, old(history)@, r),
            r matches Ok(a) ==> a.wf() && a.client_id == self.client_id,
    {
        match t.tx_type {
            TxType::Deposit => self.deposit(t.amount),
            TxType::Withdrawal => self.withdrawal(t.amount),
            TxType::Dispute => self.dispute(t.tx_id, history),
            TxType::Resolve => self.resolve(t.tx_id, history),
            TxType::Chargeback => self.chargeback(t.tx_id, history),
        }
    }

    /// Credits `amount` to the available funds.
    pub fn deposit(&self, amount: Money) -> (r: Result<Account, AccountError>)
        ensures
            r == self.spec_deposit(amount),
    {
        if self.is_locked {
            Err(AccountError::Frozen(self.client_id))
        } else {
            build_account(
                self.client_id,
                self.available_amount as i128 + amount as i128,
                self.held_amount as i128,
                false,
            )
        }
    }

    /// Debits `amount` from the available funds, if they suffice.
    pub fn withdrawal(&self, amount: Money) -> (r: Result<Account, AccountError>)
        ensures
            r == self.spec_withdrawal(amount),
    {
        if self.is_locked {
            Err(AccountError::Frozen(self.client_id))
        } else if self.available_amount < amount {
            Err(AccountError::InssuficientFundsForWithdrawal(self.client_id))
        } else {
            build_account(
                self.client_id,
                self.available_amount as i128 - amount as i128,
                self.held_amount as i128,
                false,
            )
        }
    }

    /// Moves the amount of ledger entry `tx_id` from available to held funds
    /// and marks the entry disputed.
    pub fn dispute(&self, tx_id: TxId, history: &mut HashMap<TxId, Transaction>) -> (r: Result<
        Account,
        AccountError,
    >)
        ensures
            r == self.spec_dispute(tx_id, old(history)@),
            final(history)@ == if r is Ok {
                marked(old(history)@, tx_id, true)
            } else {
                old(history)@
            },
    {
        if self.is_locked {
            return Err(AccountError::Frozen(self.client_id));
        }
        match history.get(&tx_id) {
            Some(entry) => {
                let e = *entry;
                let r = build_account(
                    self.client_id,
                    self.available_amount as i128 - e.amount as i128,
                    self.held_amount as i128 + e.amount as i128,
                    false,
                );
                if r.is_ok() {
                    history.insert(tx_id, Transaction { in_dispute: true, ..e });
                }
                r
            },
            None => Err(AccountError::NoTxForDispute(tx_id)),
        }
    }

    /// Releases the held amount of disputed ledger entry `tx_id` back to the
    /// available funds and clears its dispute mark.
    pub fn resolve(&self, tx_id: TxId, history: &mut HashMap<TxId, Transaction>) -> (r: Result<
        Account,
        AccountError,
    >)
        ensures
            r == self.spec_resolve(tx_id, old(history)@),
            final(history)@ == if r is Ok {
                marked(old(history)@, tx_id, false)
            } else {
                old(history)@
            },
    {
        if self.is_locked {
            return Err(AccountError::Frozen(self.client_id));
        }
        match history.get(&tx_id) {
            Some(entry) => {
                let e = *entry;
                if !e.in_dispute {
                    return Err(AccountError::TxNotInDispute(tx_id));
                }
                let r = build_account(
                    self.client_id,
                    self.available_amount as i128 + e.amount as i128,
                    self.held_amount as i128 - e.amount as i128,
                    false,
                );
                if r.is_ok() {
                    history.insert(tx_id, Transaction { in_dispute: false, ..e });
                }
                r
            },
            None => Err(AccountError::NoTxForDispute(tx_id)),
        }
    }

    /// Removes the held amount of disputed ledger entry `tx_id` from the
    /// account, clears its dispute mark and locks the account.
    pub fn chargeback(&self, tx_id: TxId, history: &mut HashMap<TxId, Transaction>) -> (r: Result<
        Account,
        AccountError,
    >)
        ensures
            r == self.spec_chargeback(tx_id, old(history)@),
            final(history)@ == if r is Ok {
                marked(old(history)@, tx_id, false)
            } else {
                old(history)@
            },
    {
        if self.is_locked {
            return Err(AccountError::Frozen(self.client_id));
        }
        match history.get(&tx_id) {
            Some(entry) => {
                let e = *entry;
                if !e.in_dispute {
                    return Err(AccountError::TxNotInDispute(tx_id));
                }
                let r = build_account(
                    self.client_id,
                    self.available_amount as i128,
                    self.held_amount as i128 - e.amount as i128,
                    true,
                );
                if r.is_ok() {
                    history.insert(tx_id, Transaction { in_dispute: false, ..e });
                }
                r
            },
            None => Err(AccountError::NoTxForDispute(tx_id)),
        }
    }
}

} // verus!
