//! The storage-quota ledger: converts a byte-footprint delta into a cost at
//! the configured byte-cost rate and debits or credits the paying account's
//! prepaid balance, refusing debits that would overdraw it.

use vstd::prelude::*;
use crate::model::{acct_index, lemma_key_index_absent, lemma_key_index_first, acct_key};
use crate::storage::{AccountEntry, StorageBalance};
use crate::{Contract, ContractError, STORAGE_BYTE_COST};

verus! {

/// `e` with its available balance replaced.
pub open spec fn with_available(e: AccountEntry, av: int) -> AccountEntry {
    AccountEntry {
        account_id: e.account_id,
        balance: StorageBalance { total: e.balance.total, available: av as u128 },
    }
}

/// The ledger transition for a footprint that moved from `init` to
/// `current` bytes, charged to account `id`: either the new account list
/// and byte total, or the error that aborts the enclosing operation.
/// Growth debits `delta * STORAGE_BYTE_COST` from the available balance;
/// shrinkage credits the same. Arithmetic that cannot be represented is a
/// hard failure, and a debit past the available balance is an overdraft —
/// an unregistered account covers no debit, so charging one overdraws too.
/// A credit to an unregistered account is forfeited: the bytes are freed
/// and the running total falls, but no balance receives the refund.
pub open spec fn charge_outcome(
    a: Seq<AccountEntry>,
    usage: u64,
    init: int,
    current: int,
    id: Seq<char>,
) -> Result<(Seq<AccountEntry>, u64), ContractError> {
    let i = acct_index(a, id);
    if init < current {
        let delta = current - init;
        if usage + delta > u64::MAX {
            Err(ContractError::Overflow)
        } else if i < 0 {
            Err(ContractError::Overdraft)
        } else {
            let cost = delta * (STORAGE_BYTE_COST as int);
            if a[i].balance.available < cost {
                Err(ContractError::Overdraft)
            } else {
                Ok(
                    (
                        a.update(i, with_available(a[i], a[i].balance.available - cost)),
                        (usage + delta) as u64,
                    ),
                )
            }
        }
    } else {
        let delta = init - current;
        if usage < delta {
            Err(ContractError::Overflow)
        } else if i < 0 {
            Ok((a, (usage - delta) as u64))
        } else {
            let cost = delta * (STORAGE_BYTE_COST as int);
            if a[i].balance.available + cost > u128::MAX {
                Err(ContractError::Overflow)
            } else {
                Ok(
                    (
                        a.update(i, with_available(a[i], a[i].balance.available + cost)),
                        (usage - delta) as u64,
                    ),
                )
            }
        }
    }
}

/// Bounded factors give a bounded product.
pub proof fn lemma_mul_le(x: int, y: int, xb: int, yb: int)
    requires
        0 <= x <= xb,
        0 <= y <= yb,
    ensures
        x * y <= xb * yb,
{
    assert(x * y <= xb * yb) by (nonlinear_arith)
        requires
            0 <= x <= xb,
            0 <= y <= yb,
    ;
}

/// Position of the first entry for `id`, matching `acct_index`.
pub fn find_account(a: &Vec<AccountEntry>, id: &String) -> (res: Option<usize>)
    ensures
        res is Some <==> acct_index(a@, id@) >= 0,
        res is Some ==> res->0 == acct_index(a@, id@) && res->0 < a@.len() && a@[
            res->0 as int
        ].account_id@ == id@,
{
    let mut k: usize = 0;
    while k < a.len()
        invariant
            k <= a@.len(),
            forall|j: int| 0 <= j < k ==> (#[trigger] a@[j]).account_id@ != id@,
        decreases a@.len() - k,
    {
        if a[k].account_id == *id {
            proof {
                lemma_key_index_first(a@, acct_key(), id@, k as int);
            }
            return Some(k);
        }
        k += 1;
    }
    proof {
        lemma_key_index_absent(a@, acct_key(), id@);
    }
    None
}

impl Contract {
    /// Charge the footprint move from `init_storage` to `current_storage`
    /// bytes against `account_id`. On any error the whole state is exactly
    /// as it was.
    pub fn cal_storage(
        &mut self,
        init_storage: u64,
        current_storage: u64,
        account_id: &String,
    ) -> (res: Result<(), ContractError>)
        requires
            old(self).wf(),
        ensures
            final(self).wf(),
            final(self).queued_data == old(self).queued_data,
            final(self).same_config(*old(self)),
            match charge_outcome(
                old(self).accounts@,
                old(self).account_storage_usage,
                init_storage as int,
                current_storage as int,
                account_id@,
            ) {
                Ok((a2, u2)) => res is Ok && final(self).accounts@ == a2
                    && final(self).account_storage_usage == u2,
                Err(e) => res == Err::<(), ContractError>(e) && final(self).accounts == old(
                    self,
                ).accounts && final(self).account_storage_usage == old(self).account_storage_usage,
            },
    {
        let ghost a0 = self.accounts@;
        if init_storage < current_storage {
            let delta: u64 = current_storage - init_storage;
            let new_usage: u64 = match self.account_storage_usage.checked_add(delta) {
                Some(v) => v,
                None => {
                    return Err(ContractError::Overflow);
                },
            };
            let idx: usize = match find_account(&self.accounts, account_id) {
                Some(i) => i,
                None => {
                    return Err(ContractError::Overdraft);
                },
            };
            proof {
                lemma_mul_le(delta as int, STORAGE_BYTE_COST as int, u64::MAX as int, u64::MAX as int);
                assert((u64::MAX as int) * (u64::MAX as int) <= u128::MAX as int);
            }
            let cost: u128 = (delta as u128) * (STORAGE_BYTE_COST as u128);
            let available: u128 = self.accounts[idx].balance.available;
            let new_available: u128 = match available.checked_sub(cost) {
                Some(v) => v,
                None => {
                    return Err(ContractError::Overdraft);
                },
            };
            let entry = self.accounts.remove(idx);
            let total: u128 = entry.balance.total;
            self.accounts.insert(
                idx,
                AccountEntry {
                    account_id: entry.account_id,
                    balance: StorageBalance { total, available: new_available },
                },
            );
            self.account_storage_usage = new_usage;
            proof {
                assert(self.accounts@ =~= a0.update(
                    idx as int,
                    with_available(a0[idx as int], a0[idx as int].balance.available - cost),
                ));
                assert(forall|i: int|
                    0 <= i < self.accounts@.len() ==> (#[trigger] self.accounts@[i]).account_id@
                        == a0[i].account_id@);
            }
            Ok(())
        } else {
            let delta: u64 = init_storage - current_storage;
            let new_usage: u64 = match self.account_storage_usage.checked_sub(delta) {
                Some(v) => v,
                None => {
                    return Err(ContractError::Overflow);
                },
            };
            let idx: usize = match find_account(&self.accounts, account_id) {
                Some(i) => i,
                None => {
                    self.account_storage_usage = new_usage;
                    return Ok(());
                },
            };
            proof {
                lemma_mul_le(delta as int, STORAGE_BYTE_COST as int, u64::MAX as int, u64::MAX as int);
                assert((u64::MAX as int) * (u64::MAX as int) <= u128::MAX as int);
            }
            let cost: u128 = (delta as u128) * (STORAGE_BYTE_COST as u128);
            let available: u128 = self.accounts[idx].balance.available;
            let new_available: u128 = match available.checked_add(cost) {
                Some(v) => v,
                None => {
                    return Err(ContractError::Overflow);
                },
            };
            let entry = self.accounts.remove(idx);
            let total: u128 = entry.balance.total;
            self.accounts.insert(
                idx,
                AccountEntry {
                    account_id: entry.account_id,
                    balance: StorageBalance { total, available: new_available },
                },
            );
            self.account_storage_usage = new_usage;
            proof {
                assert(self.accounts@ =~= a0.update(
                    idx as int,
                    with_available(a0[idx as int], a0[idx as int].balance.available + cost),
                ));
                assert(forall|i: int|
                    0 <= i < self.accounts@.len() ==> (#[trigger] self.accounts@[i]).account_id@
                        == a0[i].account_id@);
            }
            Ok(())
        }
    }
}

} // verus!
