//! The account registry surface: registration by deposit, balance queries,
//! withdrawal, and unregistration. Balances here are what the ledger
//! debits and credits.

use vstd::prelude::*;
use crate::cal_storage::find_account;
use crate::model::{acct_index, acct_key, lemma_key_index_absent};
use crate::storage::{AccountEntry, StorageBalance, StorageBalanceBounds};
use crate::{Contract, ContractError, MIN_STORAGE_BALANCE};

verus! {

/// The registration transition: a first deposit creates the account with
/// `total == available == amount`; a later one tops both up. Arithmetic
/// that cannot be represented is a hard failure.
pub open spec fn spec_register(a: Seq<AccountEntry>, account: String, amount: u128) -> Result<
    Seq<AccountEntry>,
    ContractError,
> {
    let i = acct_index(a, account@);
    if i < 0 {
        Ok(
            a.push(
                AccountEntry {
                    account_id: account,
                    balance: StorageBalance { total: amount, available: amount },
                },
            ),
        )
    } else if a[i].balance.available + amount > u128::MAX || a[i].balance.total + amount
        > u128::MAX {
        Err(ContractError::Overflow)
    } else {
        Ok(
            a.update(
                i,
                AccountEntry {
                    account_id: a[i].account_id,
                    balance: StorageBalance {
                        total: (a[i].balance.total + amount) as u128,
                        available: (a[i].balance.available + amount) as u128,
                    },
                },
            ),
        )
    }
}

impl Contract {
    /// Whether `account_id` holds a registered storage account.
    pub fn is_registered(&self, account_id: String) -> (res: bool)
        ensures
            res == self.spec_registered(account_id@),
    {
        match find_account(&self.accounts, &account_id) {
            Some(_) => true,
            None => false,
        }
    }

    /// Register `account_id` with `amount`, or top its balances up.
    pub fn internal_register_account(&mut self, account_id: &String, amount: &u128) -> (res:
        Result<(), ContractError>)
        requires
            old(self).wf(),
        ensures
            final(self).wf(),
            final(self).queued_data == old(self).queued_data,
            final(self).account_storage_usage == old(self).account_storage_usage,
            final(self).same_config(*old(self)),
            match spec_register(old(self).accounts@, *account_id, *amount) {
                Ok(a2) => res is Ok && final(self).accounts@ == a2,
                Err(e) => res == Err::<(), ContractError>(e) && *final(self) == *old(self),
            },
    {
        let ghost a0 = self.accounts@;
        match find_account(&self.accounts, account_id) {
            None => {
                self.accounts.push(
                    AccountEntry {
                        account_id: account_id.clone(),
                        balance: StorageBalance { total: *amount, available: *amount },
                    },
                );
                proof {
                    lemma_key_index_absent(a0, acct_key(), account_id@);
                    assert(forall|k: int| 0 <= k < a0.len() ==> self.accounts@[k] == a0[k]);
                }
                Ok(())
            },
            Some(i) => {
                let available: u128 = match self.accounts[i].balance.available.checked_add(
                    *amount,
                ) {
                    Some(v) => v,
                    None => {
                        return Err(ContractError::Overflow);
                    },
                };
                let total: u128 = match self.accounts[i].balance.total.checked_add(*amount) {
                    Some(v) => v,
                    None => {
                        return Err(ContractError::Overflow);
                    },
                };
                let entry = self.accounts.remove(i);
                self.accounts.insert(
                    i,
                    AccountEntry {
                        account_id: entry.account_id,
                        balance: StorageBalance { total, available },
                    },
                );
                proof {
                    assert(self.accounts@ =~= a0.update(
                        i as int,
                        AccountEntry {
                            account_id: a0[i as int].account_id,
                            balance: StorageBalance { total, available },
                        },
                    ));
                    assert(forall|k: int|
                        0 <= k < self.accounts@.len() ==> (#[trigger] self.accounts@[k]).account_id@
                            == a0[k].account_id@);
                }
                Ok(())
            },
        }
    }

    /// The balance of `account_id`, if registered.
    fn internal_storage_balance_of(&self, account_id: &String) -> (res: Option<StorageBalance>)
        ensures
            res is Some <==> self.spec_registered(account_id@),
            res is Some ==> res->0 == self.spec_balance(account_id@),
    {
        match find_account(&self.accounts, account_id) {
            Some(i) => Some(self.accounts[i].balance),
            None => None,
        }
    }

    /// Deposit `amount` for `account_id` (the caller itself when absent).
    /// The deposit must reach the advertised minimum.
    pub fn storage_deposit(
        &mut self,
        account_id: Option<String>,
        registration_only: Option<bool>,
        caller: String,
        amount: u128,
    ) -> (res: Result<StorageBalance, ContractError>)
        requires
            old(self).wf(),
            amount >= MIN_STORAGE_BALANCE,
        ensures
            final(self).wf(),
            final(self).queued_data == old(self).queued_data,
            final(self).account_storage_usage == old(self).account_storage_usage,
            final(self).same_config(*old(self)),
            ({
                let target = if account_id is Some {
                    account_id->0
                } else {
                    caller
                };
                match spec_register(old(self).accounts@, target, amount) {
                    Ok(a2) => res is Ok && final(self).accounts@ == a2 && res->Ok_0 == a2[
                        acct_index(a2, target@)
                    ].balance,
                    Err(e) => res == Err::<StorageBalance, ContractError>(e) && *final(self)
                        == *old(self),
                }
            }),
    {
        let _ = registration_only;
        let target: String = match account_id {
            Some(a) => a,
            None => caller,
        };
        match self.internal_register_account(&target, &amount) {
            Err(e) => Err(e),
            Ok(()) => {
                proof {
                    let a2 = self.accounts@;
                    let a0 = old(self).accounts@;
                    let i0 = acct_index(a0, target@);
                    lemma_key_index_absent(a2, acct_key(), target@);
                    if i0 < 0 {
                        assert(a2[a0.len() as int].account_id@ == target@);
                    } else {
                        crate::model::lemma_key_index_bounds(a0, acct_key(), target@);
                        assert(a2[i0].account_id@ == target@);
                    }
                }
                match self.internal_storage_balance_of(&target) {
                    Some(b) => Ok(b),
                    None => {
                        proof {
                            assert(false);
                        }
                        Err(ContractError::NotFound)
                    },
                }
            },
        }
    }

    /// A withdrawal request: the basic scheme keeps the whole balance
    /// locked, so any positive amount overdraws; a zero or absent amount
    /// just reports the balance back.
    pub fn storage_withdraw(&mut self, caller: String, amount: Option<u128>) -> (res: Result<
        StorageBalance,
        ContractError,
    >)
        requires
            old(self).wf(),
        ensures
            *final(self) == *old(self),
            match res {
                Ok(b) => old(self).spec_registered(caller@) && b == old(self).spec_balance(caller@)
                    && (amount is Some ==> amount->0 == 0),
                Err(e) => if !old(self).spec_registered(caller@) {
                    e == ContractError::NotFound
                } else {
                    e == ContractError::Overdraft && amount is Some && amount->0 > 0
                },
            },
    {
        match self.internal_storage_balance_of(&caller) {
            None => Err(ContractError::NotFound),
            Some(b) => match amount {
                Some(a) if a > 0 => Err(ContractError::Overdraft),
                _ => Ok(b),
            },
        }
    }

    /// Drop `caller`'s account. With a positive available balance the
    /// caller must pass `force`; the host refunds what is returned here.
    pub fn internal_storage_unregister(&mut self, caller: String, force: Option<bool>) -> (res:
        Option<(String, u128)>)
        requires
            old(self).wf(),
            old(self).spec_registered(caller@) && old(self).spec_balance(caller@).available > 0
                ==> force == Some(true),
        ensures
            final(self).wf(),
            final(self).queued_data == old(self).queued_data,
            final(self).account_storage_usage == old(self).account_storage_usage,
            final(self).same_config(*old(self)),
            match res {
                Some(p) => old(self).spec_registered(caller@) && p.0 == caller && p.1 == old(
                    self,
                ).spec_balance(caller@).available && final(self).accounts@ == old(self).accounts@
                    .remove(acct_index(old(self).accounts@, caller@)),
                None => !old(self).spec_registered(caller@) && *final(self) == *old(self),
            },
    {
        let ghost a0 = self.accounts@;
        match find_account(&self.accounts, &caller) {
            None => None,
            Some(i) => {
                let available: u128 = self.accounts[i].balance.available;
                let forced: bool = match force {
                    Some(b) => b,
                    None => false,
                };
                if available == 0 || forced {
                    self.accounts.remove(i);
                    proof {
                        assert(forall|a: int, b: int|
                            0 <= a < b < self.accounts@.len() ==> (
                            #[trigger] self.accounts@[a]).account_id@ != (
                            #[trigger] self.accounts@[b]).account_id@) by {
                            assert(forall|k: int|
                                0 <= k < self.accounts@.len() ==> self.accounts@[k] == (if k < i
                                    as int {
                                    a0[k]
                                } else {
                                    a0[k + 1]
                                }));
                        }
                    }
                    Some((caller, available))
                } else {
                    proof {
                        assert(false);
                    }
                    None
                }
            },
        }
    }

    /// Drop `caller`'s account; report whether one existed.
    pub fn storage_unregister(&mut self, caller: String, force: Option<bool>) -> (res: bool)
        requires
            old(self).wf(),
            old(self).spec_registered(caller@) && old(self).spec_balance(caller@).available > 0
                ==> force == Some(true),
        ensures
            final(self).wf(),
            final(self).queued_data == old(self).queued_data,
            final(self).account_storage_usage == old(self).account_storage_usage,
            final(self).same_config(*old(self)),
            res == old(self).spec_registered(caller@),
            res ==> final(self).accounts@ == old(self).accounts@.remove(
                acct_index(old(self).accounts@, caller@),
            ),
            !res ==> *final(self) == *old(self),
    {
        match self.internal_storage_unregister(caller, force) {
            Some(_) => true,
            None => false,
        }
    }

    /// The deposit bounds: the configured minimum, with no maximum.
    pub fn storage_balance_bounds(&self) -> (res: StorageBalanceBounds)
        ensures
            res.min == MIN_STORAGE_BALANCE,
            res.max is None,
    {
        StorageBalanceBounds { min: MIN_STORAGE_BALANCE, max: None }
    }

    /// The balance of `account_id`, if registered.
    pub fn storage_balance_of(&self, account_id: String) -> (res: Option<StorageBalance>)
        ensures
            res is Some <==> self.spec_registered(account_id@),
            res is Some ==> res->0 == self.spec_balance(account_id@),
    {
        self.internal_storage_balance_of(&account_id)
    }
}

} // verus!
