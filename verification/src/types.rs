//! Data model: account balances, stored deposits and their dispute state,
//! and the per-client snapshot row produced by the engine.

use vstd::prelude::*;

verus! {

/// The five kinds of input record.
#[derive(Debug, Clone, Copy, PartialEq, Eq, Structural)]
pub enum TransactionType {
    Deposit,
    Withdrawal,
    Dispute,
    Resolve,
    Chargeback,
}

/// One input record: a transaction type, the client it concerns, a
/// transaction identifier, and a decimal amount (present only for
/// deposits and withdrawals).
#[derive(Debug, Clone, Copy)]
pub struct Transaction {
    pub tx_type: TransactionType,
    pub client: u16,
    pub tx: u32,
    pub amount: Option<rust_decimal::Decimal>,
}

/// What the engine reads of an input record: the decimal amount reduced
/// to its fixed-point value, with absent and non-positive amounts both
/// mapped to `None` (either is rejected outright).
pub struct RecordView {
    pub tx_type: TransactionType,
    pub client: u16,
    pub tx: u32,
    pub amount: Option<i64>,
}

/// The amount of a record as the engine reads it: `None` when absent or
/// when the decimal is not strictly positive, else its fixed-point value.
pub open spec fn amount_view(a: Option<rust_decimal::Decimal>) -> Option<i64> {
    match a {
        Option::None => Option::None,
        Option::Some(d) => if crate::fixed::decimal_pos(d) {
            Option::Some(crate::fixed::fixed_of(d))
        } else {
            Option::None
        },
    }
}

impl View for Transaction {
    type V = RecordView;

    /// The record as the engine reads it.
    open spec fn view(&self) -> RecordView {
        RecordView {
            tx_type: self.tx_type,
            client: self.client,
            tx: self.tx,
            amount: amount_view(self.amount),
        }
    }
}

/// The dispute lifecycle of a stored deposit. `Undisputed` is the default
/// (never disputed, or returned to good standing by a resolve); `Disputed`
/// means the funds are currently held; `ChargedBack` is terminal.
#[derive(Debug, Clone, Copy, PartialEq, Eq, Structural)]
pub enum DisputeState {
    Undisputed,
    Disputed,
    ChargedBack,
}

/// A deposit retained so that it can later be disputed. Only accepted
/// deposits are stored; withdrawals can never be disputed.
#[derive(Debug, Clone, Copy, PartialEq, Eq, Structural)]
pub struct StoredTransaction {
    pub client: u16,
    pub amount: i64,
    pub dispute_state: DisputeState,
}

/// One client's balances. `available` is spendable, `held` is frozen
/// pending dispute resolution, and `locked` is set permanently by a
/// successful chargeback.
#[derive(Debug, Clone, Copy, PartialEq, Eq, Structural)]
pub struct Account {
    pub available: i64,
    pub held: i64,
    pub locked: bool,
}

impl Default for Account {
    /// A fresh account: zero balances, not locked.
    fn default() -> (r: Account)
        ensures
            r == (Account { available: 0, held: 0, locked: false }),
    {
        Account { available: 0, held: 0, locked: false }
    }
}

impl Account {
    /// Total funds: `available + held`, clamped to the `i64` range.
    pub fn total(&self) -> (r: i64)
        ensures
            r as int == crate::fixed::spec_sat_add(self.available as int, self.held as int),
    {
        crate::fixed::sat_add(self.available, self.held)
    }
}

/// One row of the final balance snapshot, with the derived total.
#[derive(Debug, Clone, Copy, PartialEq, Eq, Structural)]
pub struct AccountOutput {
    pub client: u16,
    pub available: i64,
    pub held: i64,
    pub total: i64,
    pub locked: bool,
}

} // verus!
