//! An oracle request queue with bounded polling, backed by a storage-quota
//! ledger: every byte of durable state a caller creates is debited from a
//! prepaid per-account balance, and credited back when the state is freed.
//!
//! The queue holds requests for externally fetched resources. A caller
//! creates a request (paying a fee and the storage cost), an external
//! fulfiller later attaches a result value, and callers retrieve the value
//! through a chain of short, bounded polling steps instead of a blocking
//! wait. All state is held explicitly in a [`Contract`] value; ambient
//! context (caller identity, attached deposit, current time, a random seed)
//! is passed in by the host.

use vstd::prelude::*;

pub mod cal_storage;
pub mod codec;
pub mod data;
pub mod impl_storage;
pub mod laws;
pub mod model;
pub mod poll;
pub mod storage;

pub use crate::data::OracleData;
pub use crate::storage::{AccountEntry, StorageBalance, StorageBalanceBounds};

use crate::model::{acct_index, req_index, total_footprint, unique_account_ids, unique_req_ids};

verus! {

/// One whole unit of the currency balances are denominated in.
pub const ONE_NEAR: u128 = 1_000_000_000_000_000_000_000_000;

/// Cost, in currency units, of one byte of durable storage.
pub const STORAGE_BYTE_COST: u64 = 10_000_000_000_000_000_000;

/// Smallest deposit accepted when registering or topping up an account.
pub const MIN_STORAGE_BALANCE: u128 = ONE_NEAR / 1000;

/// A polling chain gives up once its iteration counter exceeds this cap.
pub const MAX_ITERATIONS: u32 = 15;

/// Fixed per-record storage overhead, in bytes, beyond the record's strings.
pub const RECORD_OVERHEAD: u64 = 40;

/// How an operation on the queue or the ledger can fail. Any `Err` leaves
/// the whole state exactly as it was: no partial effects persist.
#[derive(Clone, Copy, Debug, PartialEq, Eq, Structural)]
pub enum ContractError {
    /// The deposit attached to a creation call is below the configured fee.
    InsufficientFee,
    /// The submitted payload does not parse as structured data.
    MalformedPayload,
    /// No request with the given id on fulfill, poll or query by id; on
    /// the registry surface, a withdrawal by a caller with no registered
    /// account.
    NotFound,
    /// The storage debit would exceed the account's available balance; an
    /// unregistered account covers no debit, so charging one overdraws.
    Overdraft,
    /// Fixed-width arithmetic on a balance or a byte total cannot represent
    /// the result; a hard failure, never silently saturated.
    Overflow,
}

/// The whole system state: the request queue, the account ledger, the
/// running byte total, and configuration. All operations take the state
/// explicitly; there are no ambient globals.
#[derive(Debug)]
pub struct Contract {
    pub owner_id: String,
    /// The oracle request queue, in stable insertion order, keyed by id.
    pub queued_data: Vec<OracleData>,
    /// The per-account prepaid storage balances.
    pub accounts: Vec<AccountEntry>,
    /// Running total of accounted bytes across all accounts.
    pub account_storage_usage: u64,
    /// Declared but never consulted on fulfill or delete: a known
    /// authorization gap, kept as such rather than silently closed.
    pub whitelisted: Vec<String>,
    /// Smallest deposit a creation call must attach.
    pub fee_per_call: u128,
}

impl Contract {
    /// Structural well-formedness: request ids unique, a return value
    /// present exactly when the request is executed, account ids unique.
    pub open spec fn wf(self) -> bool {
        &&& unique_req_ids(self.queued_data@)
        &&& forall|i: int|
            0 <= i < self.queued_data@.len() ==> ((#[trigger] self.queued_data@[i]).executed
                <==> self.queued_data@[i].return_value is Some)
        &&& unique_account_ids(self.accounts@)
    }

    /// The running byte total agrees with the queue's accounted footprint.
    pub open spec fn usage_consistent(self) -> bool {
        self.account_storage_usage == total_footprint(self.queued_data@)
    }

    pub open spec fn inv(self) -> bool {
        self.wf() && self.usage_consistent()
    }

    pub open spec fn spec_has_request(self, id: Seq<char>) -> bool {
        req_index(self.queued_data@, id) >= 0
    }

    pub open spec fn spec_request(self, id: Seq<char>) -> OracleData {
        self.queued_data@[req_index(self.queued_data@, id)]
    }

    pub open spec fn spec_registered(self, id: Seq<char>) -> bool {
        acct_index(self.accounts@, id) >= 0
    }

    pub open spec fn spec_balance(self, id: Seq<char>) -> StorageBalance {
        self.accounts@[acct_index(self.accounts@, id)].balance
    }

    /// Frame condition: configuration fields are untouched.
    pub open spec fn same_config(self, other: Contract) -> bool {
        &&& self.owner_id == other.owner_id
        &&& self.whitelisted == other.whitelisted
        &&& self.fee_per_call == other.fee_per_call
    }

    pub fn new(owner_id: String) -> (res: Contract)
        ensures
            res.owner_id == owner_id,
            res.queued_data@ =~= Seq::<OracleData>::empty(),
            res.accounts@ =~= Seq::<AccountEntry>::empty(),
            res.account_storage_usage == 0,
            res.whitelisted@ =~= Seq::<String>::empty(),
            res.fee_per_call == ONE_NEAR / 100,
            res.inv(),
    {
        Contract {
            owner_id,
            queued_data: Vec::new(),
            accounts: Vec::new(),
            account_storage_usage: 0,
            whitelisted: Vec::new(),
            fee_per_call: ONE_NEAR / 100,
        }
    }

    /// The ownership gate: whether `caller` is the configured owner. A host
    /// rejects an owner-guarded call when this is false.
    pub fn assert_owner(&self, caller: &String) -> (res: bool)
        ensures
            res == (caller@ == self.owner_id@),
    {
        self.owner_id == *caller
    }
}

} // verus!
