//! Per-client transaction engine: an account state machine, the actor that
//! owns one account and its ledger, and the dispatcher's routing decisions.
use vstd::prelude::*;

pub mod account;
pub mod csv;
pub mod lemmas;
pub mod tx;

verus! {

/// Identifies exactly one account.
pub type ClientId = u16;

/// Identifies one deposit or withdrawal within a run.
pub type TxId = u32;

/// A fixed-point amount: one unit is one ten-thousandth of a currency unit.
pub type Money = i64;

/// Number of `Money` units in one currency unit (four fractional digits).
pub const MONEY_SCALE: i64 = 10000;

/// The kind of a transaction.
#[derive(Clone, Copy, Debug, PartialEq, Eq, Structural)]
pub enum TxType {
    Deposit,
    Withdrawal,
    Dispute,
    Resolve,
    Chargeback,
}

/// One typed transaction record.
///
/// `amount` is meaningful for deposits and withdrawals only; dispute, resolve
/// and chargeback use the amount stored in the ledger for `tx_id`.
/// `in_dispute` is the ledger flag of a stored deposit or withdrawal.
#[derive(Clone, Copy, Debug, PartialEq, Eq, Structural)]
pub struct Transaction {
    pub tx_type: TxType,
    pub client_id: ClientId,
    pub tx_id: TxId,
    pub amount: Money,
    pub in_dispute: bool,
}

impl Transaction {
    /// Deposits and withdrawals are kept in the ledger; the other kinds only
    /// refer to them.
    pub open spec fn is_recorded_kind(&self) -> bool {
        self.tx_type == TxType::Deposit || self.tx_type == TxType::Withdrawal
    }

    pub fn is_recordable(&self) -> (r: bool)
        ensures
            r == self.is_recorded_kind(),
    {
        match self.tx_type {
            TxType::Deposit | TxType::Withdrawal => true,
            _ => false,
        }
    }
}

} // verus!
