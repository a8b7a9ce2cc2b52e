//! The per-account prepaid storage balances that the ledger debits and
//! credits as a caller's durable state grows and shrinks.

use vstd::prelude::*;

verus! {

/// A prepaid storage balance: `total` is the cumulative amount ever
/// deposited, `available` the currently spendable part.
#[derive(Clone, Copy, Debug, PartialEq, Eq, Structural)]
pub struct StorageBalance {
    pub total: u128,
    pub available: u128,
}

/// The deposit bounds the ledger advertises: a smallest accepted deposit
/// and, optionally, a largest one.
#[derive(Clone, Copy, Debug)]
pub struct StorageBalanceBounds {
    pub min: u128,
    pub max: Option<u128>,
}

/// One registered account: its identity and its balance.
#[derive(Debug)]
pub struct AccountEntry {
    pub account_id: String,
    pub balance: StorageBalance,
}

impl Clone for AccountEntry {
    fn clone(&self) -> (res: Self)
        ensures
            res == *self,
    {
        AccountEntry { account_id: self.account_id.clone(), balance: self.balance }
    }
}

} // verus!
