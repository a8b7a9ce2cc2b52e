//! The oracle request record.

use vstd::prelude::*;
use vstd::string::StrSliceExecFns;
use crate::cal_storage::charge_outcome;
use crate::codec::{canonicalize_payload, is_hex_char, json_canon, make_request_id, request_id};
use crate::model::{
    lemma_key_index_absent, lemma_key_index_first, lemma_member_footprint_le,
    lemma_total_footprint_push, lemma_total_footprint_remove, lemma_total_footprint_update,
    record_footprint, req_index, req_key,
};
use crate::{Contract, ContractError, RECORD_OVERHEAD};

verus! {

/// One queued oracle request: a caller's ask for an externally fetched
/// resource, pending until a fulfiller attaches a return value.
#[derive(Debug)]
pub struct OracleData {
    /// Unique identifier, derived from a random seed and the creator.
    pub id: String,
    /// The resource to fetch.
    pub url: String,
    /// The submitted payload, re-serialized to its canonical form.
    pub data: String,
    /// Creation time, in milliseconds.
    pub timestamp: u64,
    /// Whether a fulfiller has responded.
    pub executed: bool,
    /// The fulfilled value; present exactly when `executed` is set.
    pub return_value: Option<String>,
    /// The account that paid for and owns this request.
    pub creator: String,
}

impl Clone for OracleData {
    fn clone(&self) -> (res: Self)
        ensures
            res == *self,
    {
        OracleData {
            id: self.id.clone(),
            url: self.url.clone(),
            data: self.data.clone(),
            timestamp: self.timestamp,
            executed: self.executed,
            return_value: match &self.return_value {
                Some(v) => Some(v.clone()),
                None => None,
            },
            creator: self.creator.clone(),
        }
    }
}

/// The accounted byte footprint of one request, or `None` when the sum
/// does not fit a `u64`.
pub fn record_bytes(r: &OracleData) -> (res: Option<u64>)
    ensures
        res is Some <==> record_footprint(*r) <= u64::MAX,
        res is Some ==> res->0 == record_footprint(*r),
{
    let id_len: usize = r.id.as_str().unicode_len();
    let url_len: usize = r.url.as_str().unicode_len();
    let data_len: usize = r.data.as_str().unicode_len();
    let creator_len: usize = r.creator.as_str().unicode_len();
    let value_len: usize = match &r.return_value {
        Some(v) => v.as_str().unicode_len(),
        None => 0,
    };
    let a = match RECORD_OVERHEAD.checked_add(id_len as u64) {
        Some(v) => v,
        None => {
            return None;
        },
    };
    let b = match a.checked_add(url_len as u64) {
        Some(v) => v,
        None => {
            return None;
        },
    };
    let c = match b.checked_add(data_len as u64) {
        Some(v) => v,
        None => {
            return None;
        },
    };
    let d = match c.checked_add(creator_len as u64) {
        Some(v) => v,
        None => {
            return None;
        },
    };
    match d.checked_add(value_len as u64) {
        Some(v) => Some(v),
        None => None,
    }
}

/// Position of the first request with id `id`, matching `req_index`.
pub fn find_request(q: &Vec<OracleData>, id: &String) -> (res: Option<usize>)
    ensures
        res is Some <==> req_index(q@, id@) >= 0,
        res is Some ==> res->0 == req_index(q@, id@) && res->0 < q@.len() && q@[
            res->0 as int
        ].id@ == id@,
{
    let mut k: usize = 0;
    while k < q.len()
        invariant
            k <= q@.len(),
            forall|j: int| 0 <= j < k ==> (#[trigger] q@[j]).id@ != id@,
        decreases q@.len() - k,
    {
        if q[k].id == *id {
            proof {
                lemma_key_index_first(q@, req_key(), id@, k as int);
            }
            return Some(k);
        }
        k += 1;
    }
    proof {
        lemma_key_index_absent(q@, req_key(), id@);
    }
    None
}

/// The effective pagination offset: an explicit value, or 0.
pub open spec fn spec_offset(from_index: Option<u64>) -> int {
    if from_index is Some {
        from_index->0 as int
    } else {
        0
    }
}

/// The effective pagination limit: an explicit value, or 50.
pub open spec fn spec_limit(limit: Option<u64>) -> int {
    if limit is Some {
        limit->0 as int
    } else {
        50
    }
}

/// First position of the listing window, clamped to the queue's length.
pub open spec fn page_start(len: int, off: int) -> int {
    if off < len {
        off
    } else {
        len
    }
}

/// One past the last position of the listing window.
pub open spec fn page_end(len: int, off: int, lim: int) -> int {
    if off + lim < len {
        off + lim
    } else {
        len
    }
}

/// Requests whose url is `url`.
pub open spec fn url_pred(url: String) -> spec_fn(OracleData) -> bool {
    |x: OracleData| x.url@ == url@
}

/// Requests whose executed flag is `executed`.
pub open spec fn executed_pred(executed: bool) -> spec_fn(OracleData) -> bool {
    |x: OracleData| x.executed == executed
}

/// `e` with a fulfillment value attached.
pub open spec fn fulfilled_entry(e: OracleData, v: String) -> OracleData {
    OracleData {
        id: e.id,
        url: e.url,
        data: e.data,
        timestamp: e.timestamp,
        executed: true,
        return_value: Some(v),
        creator: e.creator,
    }
}

/// The fulfillment transition: mark the request executed, attach the
/// value, and charge the record's byte-footprint delta to its creator
/// through the ledger. Re-fulfillment overwrites, so the delta may be a
/// credit; a missing request is fatal.
pub open spec fn spec_fulfill(
    q: Seq<OracleData>,
    a: Seq<crate::storage::AccountEntry>,
    usage: u64,
    id: Seq<char>,
    v: String,
) -> Result<
    (Seq<OracleData>, Seq<crate::storage::AccountEntry>, u64, OracleData),
    ContractError,
> {
    let i = req_index(q, id);
    if i < 0 {
        Err(ContractError::NotFound)
    } else {
        let e2 = fulfilled_entry(q[i], v);
        let target = usage - record_footprint(q[i]) + record_footprint(e2);
        if record_footprint(e2) > u64::MAX || target > u64::MAX {
            Err(ContractError::Overflow)
        } else {
            match charge_outcome(a, usage, usage as int, target, q[i].creator@) {
                Ok((a2, u2)) => Ok((q.update(i, e2), a2, u2, e2)),
                Err(e) => Err(e),
            }
        }
    }
}

/// The deletion transition: remove the request and credit its accounted
/// footprint back to its creator through the ledger. A missing id is
/// reported in the `bool`, not as an error; a creator no longer
/// registered forfeits the credit, which is no error either.
pub open spec fn spec_delete(
    q: Seq<OracleData>,
    a: Seq<crate::storage::AccountEntry>,
    usage: u64,
    id: Seq<char>,
) -> Result<(Seq<OracleData>, Seq<crate::storage::AccountEntry>, u64, bool), ContractError> {
    let i = req_index(q, id);
    if i < 0 {
        Ok((q, a, usage, false))
    } else {
        match charge_outcome(
            a,
            usage,
            usage as int,
            usage - record_footprint(q[i]),
            q[i].creator@,
        ) {
            Ok((a2, u2)) => Ok((q.remove(i), a2, u2, true)),
            Err(e) => Err(e),
        }
    }
}

/// The batch fulfillment transition: fulfill each (id, value) pair in
/// order, stopping at the first missing id; per the step atomicity model
/// an abort discards the whole batch's effects.
pub open spec fn spec_fulfill_batch(
    q: Seq<OracleData>,
    a: Seq<crate::storage::AccountEntry>,
    usage: u64,
    ids: Seq<String>,
    vals: Seq<String>,
    n: int,
) -> Result<(Seq<OracleData>, Seq<crate::storage::AccountEntry>, u64), ContractError>
    decreases n,
{
    if n <= 0 {
        Ok((q, a, usage))
    } else {
        match spec_fulfill_batch(q, a, usage, ids, vals, n - 1) {
            Err(e) => Err(e),
            Ok((q1, a1, u1)) => match spec_fulfill(q1, a1, u1, ids[n - 1]@, vals[n - 1]) {
                Err(e) => Err(e),
                Ok((q2, a2, u2, _)) => Ok((q2, a2, u2)),
            },
        }
    }
}

pub proof fn lemma_fulfill_batch_err(
    q: Seq<OracleData>,
    a: Seq<crate::storage::AccountEntry>,
    usage: u64,
    ids: Seq<String>,
    vals: Seq<String>,
    n: int,
    m: int,
)
    requires
        n <= m,
        spec_fulfill_batch(q, a, usage, ids, vals, n) is Err,
    ensures
        spec_fulfill_batch(q, a, usage, ids, vals, m) == spec_fulfill_batch(
            q,
            a,
            usage,
            ids,
            vals,
            n,
        ),
    decreases m - n,
{
    if m > n {
        lemma_fulfill_batch_err(q, a, usage, ids, vals, n, m - 1);
    }
}

/// The batch deletion transition: delete each id in order, stopping at the
/// first missing one; an abort discards the whole batch's effects.
pub open spec fn spec_delete_batch(
    q: Seq<OracleData>,
    a: Seq<crate::storage::AccountEntry>,
    usage: u64,
    ids: Seq<String>,
    n: int,
) -> Result<(Seq<OracleData>, Seq<crate::storage::AccountEntry>, u64), ContractError>
    decreases n,
{
    if n <= 0 {
        Ok((q, a, usage))
    } else {
        match spec_delete_batch(q, a, usage, ids, n - 1) {
            Err(e) => Err(e),
            Ok((q1, a1, u1)) => match spec_delete(q1, a1, u1, ids[n - 1]@) {
                Err(e) => Err(e),
                Ok((q2, a2, u2, existed)) => if existed {
                    Ok((q2, a2, u2))
                } else {
                    Err(ContractError::NotFound)
                },
            },
        }
    }
}

pub proof fn lemma_delete_batch_err(
    q: Seq<OracleData>,
    a: Seq<crate::storage::AccountEntry>,
    usage: u64,
    ids: Seq<String>,
    n: int,
    m: int,
)
    requires
        n <= m,
        spec_delete_batch(q, a, usage, ids, n) is Err,
    ensures
        spec_delete_batch(q, a, usage, ids, m) == spec_delete_batch(q, a, usage, ids, n),
    decreases m - n,
{
    if m > n {
        lemma_delete_batch_err(q, a, usage, ids, n, m - 1);
    }
}

/// An element-wise copy whose view equals the source vector's.
pub fn clone_requests(v: &Vec<OracleData>) -> (res: Vec<OracleData>)
    ensures
        res@ == v@,
{
    let mut res: Vec<OracleData> = Vec::new();
    let mut i: usize = 0;
    while i < v.len()
        invariant
            i <= v@.len(),
            res@.len() == i,
            forall|j: int| 0 <= j < i ==> res@[j] == v@[j],
        decreases v@.len() - i,
    {
        res.push(v[i].clone());
        i += 1;
    }
    proof {
        assert(res@ =~= v@);
    }
    res
}

/// An element-wise copy whose view equals the source vector's.
pub fn clone_accounts(v: &Vec<crate::storage::AccountEntry>) -> (res: Vec<
    crate::storage::AccountEntry,
>)
    ensures
        res@ == v@,
{
    let mut res: Vec<crate::storage::AccountEntry> = Vec::new();
    let mut i: usize = 0;
    while i < v.len()
        invariant
            i <= v@.len(),
            res@.len() == i,
            forall|j: int| 0 <= j < i ==> res@[j] == v@[j],
        decreases v@.len() - i,
    {
        res.push(v[i].clone());
        i += 1;
    }
    proof {
        assert(res@ =~= v@);
    }
    res
}

/// What a successfully created request looks like.
pub open spec fn created_entry_ok(
    r: OracleData,
    url: String,
    data: String,
    creator: String,
    timestamp_ms: u64,
    seed: Seq<u8>,
) -> bool {
    &&& r.id@ == request_id(seed, creator@)
    &&& r.id@.len() == 64
    &&& forall|i: int| 0 <= i < 64 ==> is_hex_char(#[trigger] r.id@[i])
    &&& r.url == url
    &&& json_canon(data@) is Some
    &&& r.data@ == json_canon(data@)->0
    &&& r.timestamp == timestamp_ms
    &&& r.executed == false
    &&& r.return_value is None
    &&& r.creator == creator
}

/// The creation transition from `pre` to `post` with result `res`: the
/// payload is canonicalized or rejected, the new record's footprint is
/// priced through the ledger against the creator, and the record is stored
/// under its derived id (replacing a record that already carried that id).
/// Every error leaves `post == pre`.
pub open spec fn create_transition(
    pre: Contract,
    post: Contract,
    res: Result<OracleData, ContractError>,
    url: String,
    data: String,
    creator: String,
    timestamp_ms: u64,
    seed: Seq<u8>,
) -> bool {
    let id = request_id(seed, creator@);
    let canon = json_canon(data@);
    if canon is None {
        res == Err::<OracleData, ContractError>(ContractError::MalformedPayload) && post == pre
    } else {
        let i = req_index(pre.queued_data@, id);
        let new_foot = RECORD_OVERHEAD + id.len() + url@.len() + canon->0.len() + creator@.len();
        let init = pre.account_storage_usage;
        let target = if i >= 0 {
            init - record_footprint(pre.queued_data@[i]) + new_foot
        } else {
            init + new_foot
        };
        if new_foot > u64::MAX || target > u64::MAX {
            res == Err::<OracleData, ContractError>(ContractError::Overflow) && post == pre
        } else {
            match charge_outcome(pre.accounts@, init, init as int, target, creator@) {
                Err(e) => res == Err::<OracleData, ContractError>(e) && post == pre,
                Ok((a2, u2)) => {
                    &&& res is Ok
                    &&& created_entry_ok(res->Ok_0, url, data, creator, timestamp_ms, seed)
                    &&& post.accounts@ == a2
                    &&& post.account_storage_usage == u2
                    &&& post.queued_data@ == (if i >= 0 {
                        pre.queued_data@.update(i, res->Ok_0)
                    } else {
                        pre.queued_data@.push(res->Ok_0)
                    })
                    &&& post.same_config(pre)
                },
            }
        }
    }
}

/// The listing window over a queue of `len` entries: clamped start and end.
fn page_bounds(len: usize, from_index: Option<u64>, limit: Option<u64>) -> (res: (usize, usize))
    ensures
        res.0 as int == page_start(len as int, spec_offset(from_index)),
        res.1 as int == page_end(len as int, spec_offset(from_index), spec_limit(limit)),
{
    let off: u64 = match from_index {
        Some(v) => v,
        None => 0,
    };
    let lim: u64 = match limit {
        Some(v) => v,
        None => 50,
    };
    let start: usize = if off >= len as u64 {
        len
    } else {
        off as usize
    };
    let remaining: usize = len - start;
    let take: usize = if lim >= remaining as u64 {
        remaining
    } else {
        lim as usize
    };
    (start, start + take)
}

impl Contract {
    /// All queued requests within the listing window, in the queue's
    /// stable insertion order.
    pub fn get_queued_data(&self, from_index: Option<u64>, limit: Option<u64>) -> (res: Vec<
        OracleData,
    >)
        ensures
            res@ == self.queued_data@.subrange(
                page_start(self.queued_data@.len() as int, spec_offset(from_index)),
                page_end(
                    self.queued_data@.len() as int,
                    spec_offset(from_index),
                    spec_limit(limit),
                ),
            ),
    {
        let (start, end) = page_bounds(self.queued_data.len(), from_index, limit);
        let mut res: Vec<OracleData> = Vec::new();
        let mut i: usize = start;
        while i < end
            invariant
                start <= i <= end <= self.queued_data@.len(),
                res@ == self.queued_data@.subrange(start as int, i as int),
            decreases end - i,
        {
            res.push(self.queued_data[i].clone());
            proof {
                assert(self.queued_data@.subrange(start as int, i + 1 as int)
                    =~= self.queued_data@.subrange(start as int, i as int).push(
                    self.queued_data@[i as int],
                ));
            }
            i += 1;
        }
        proof {
            assert(res@ =~= self.queued_data@.subrange(start as int, end as int));
        }
        res
    }

    /// The request with id `id`, if the queue holds one.
    pub fn get_queued_data_by_id(&self, id: String) -> (res: Option<OracleData>)
        ensures
            res is Some <==> self.spec_has_request(id@),
            res is Some ==> res->0 == self.queued_data@[req_index(self.queued_data@, id@)],
    {
        match find_request(&self.queued_data, &id) {
            Some(i) => Some(self.queued_data[i].clone()),
            None => None,
        }
    }

    /// The requests for `url` among the listing window's entries, in order.
    /// The window is cut out of the whole queue first; the url test applies
    /// within it.
    pub fn get_queued_data_by_url(
        &self,
        url: String,
        from_index: Option<u64>,
        limit: Option<u64>,
    ) -> (res: Vec<OracleData>)
        ensures
            res@ == self.queued_data@.subrange(
                page_start(self.queued_data@.len() as int, spec_offset(from_index)),
                page_end(
                    self.queued_data@.len() as int,
                    spec_offset(from_index),
                    spec_limit(limit),
                ),
            ).filter(url_pred(url)),
    {
        let (start, end) = page_bounds(self.queued_data.len(), from_index, limit);
        let mut res: Vec<OracleData> = Vec::new();
        let mut i: usize = start;
        proof {
            reveal(Seq::filter);
        }
        while i < end
            invariant
                start <= i <= end <= self.queued_data@.len(),
                res@ == self.queued_data@.subrange(start as int, i as int).filter(url_pred(url)),
            decreases end - i,
        {
            proof {
                reveal(Seq::filter);
                assert(self.queued_data@.subrange(start as int, i + 1 as int).drop_last()
                    =~= self.queued_data@.subrange(start as int, i as int));
                assert(self.queued_data@.subrange(start as int, i + 1 as int).last()
                    == self.queued_data@[i as int]);
            }
            if self.queued_data[i].url == url {
                res.push(self.queued_data[i].clone());
            }
            i += 1;
        }
        proof {
            reveal(Seq::filter);
            assert(self.queued_data@.subrange(start as int, end as int) =~= self.queued_data@
                .subrange(
                page_start(self.queued_data@.len() as int, spec_offset(from_index)),
                page_end(
                    self.queued_data@.len() as int,
                    spec_offset(from_index),
                    spec_limit(limit),
                ),
            ));
        }
        res
    }

    /// The requests whose executed flag is `executed` among the listing
    /// window's entries, in order.
    pub fn get_queued_data_by_executed(
        &self,
        executed: bool,
        from_index: Option<u64>,
        limit: Option<u64>,
    ) -> (res: Vec<OracleData>)
        ensures
            res@ == self.queued_data@.subrange(
                page_start(self.queued_data@.len() as int, spec_offset(from_index)),
                page_end(
                    self.queued_data@.len() as int,
                    spec_offset(from_index),
                    spec_limit(limit),
                ),
            ).filter(executed_pred(executed)),
    {
        let (start, end) = page_bounds(self.queued_data.len(), from_index, limit);
        let mut res: Vec<OracleData> = Vec::new();
        let mut i: usize = start;
        proof {
            reveal(Seq::filter);
        }
        while i < end
            invariant
                start <= i <= end <= self.queued_data@.len(),
                res@ == self.queued_data@.subrange(start as int, i as int).filter(
                    executed_pred(executed),
                ),
            decreases end - i,
        {
            proof {
                reveal(Seq::filter);
                assert(self.queued_data@.subrange(start as int, i + 1 as int).drop_last()
                    =~= self.queued_data@.subrange(start as int, i as int));
                assert(self.queued_data@.subrange(start as int, i + 1 as int).last()
                    == self.queued_data@[i as int]);
            }
            if self.queued_data[i].executed == executed {
                res.push(self.queued_data[i].clone());
            }
            i += 1;
        }
        proof {
            reveal(Seq::filter);
            assert(self.queued_data@.subrange(start as int, end as int) =~= self.queued_data@
                .subrange(
                page_start(self.queued_data@.len() as int, spec_offset(from_index)),
                page_end(
                    self.queued_data@.len() as int,
                    spec_offset(from_index),
                    spec_limit(limit),
                ),
            ));
        }
        res
    }

    /// Create a request without a fee gate: validate and canonicalize the
    /// payload, derive a fresh id from the seed and the creator, store the
    /// record, and charge the creator's prepaid balance for its footprint.
    pub fn internal_create_oracle(
        &mut self,
        url: String,
        data: String,
        creator: String,
        timestamp_ms: u64,
        seed: Vec<u8>,
    ) -> (res: Result<OracleData, ContractError>)
        requires
            old(self).inv(),
        ensures
            final(self).inv(),
            create_transition(
                *old(self),
                *final(self),
                res,
                url,
                data,
                creator,
                timestamp_ms,
                seed@,
            ),
    {
        let canon: String = match canonicalize_payload(data.as_str()) {
            Some(c) => c,
            None => {
                return Err(ContractError::MalformedPayload);
            },
        };
        let id: String = make_request_id(&seed, creator.as_str());
        let entry = OracleData {
            id,
            url,
            data: canon,
            timestamp: timestamp_ms,
            executed: false,
            return_value: None,
            creator: creator.clone(),
        };
        let new_foot: u64 = match record_bytes(&entry) {
            Some(b) => b,
            None => {
                return Err(ContractError::Overflow);
            },
        };
        let init: u64 = self.account_storage_usage;
        let opt_idx = find_request(&self.queued_data, &entry.id);
        let base: u64 = match opt_idx {
            Some(i) => {
                proof {
                    lemma_member_footprint_le(self.queued_data@, i as int);
                }
                let old_foot: u64 = match record_bytes(&self.queued_data[i]) {
                    Some(b) => b,
                    None => {
                        return Err(ContractError::Overflow);
                    },
                };
                init - old_foot
            },
            None => init,
        };
        let target: u64 = match base.checked_add(new_foot) {
            Some(t) => t,
            None => {
                return Err(ContractError::Overflow);
            },
        };
        match self.cal_storage(init, target, &entry.creator) {
            Ok(()) => {},
            Err(e) => {
                return Err(e);
            },
        }
        let ghost q0 = self.queued_data@;
        let stored = entry.clone();
        match opt_idx {
            Some(i) => {
                self.queued_data.remove(i);
                self.queued_data.insert(i, stored);
                proof {
                    assert(self.queued_data@ =~= q0.update(i as int, entry));
                    lemma_total_footprint_update(q0, i as int, entry);
                    assert(forall|k: int|
                        0 <= k < self.queued_data@.len() ==> (#[trigger] self.queued_data@[k]).id@
                            == q0[k].id@);
                }
            },
            None => {
                self.queued_data.push(stored);
                proof {
                    lemma_total_footprint_push(q0, entry);
                    lemma_key_index_absent(q0, req_key(), entry.id@);
                    assert(forall|k: int|
                        0 <= k < q0.len() ==> self.queued_data@[k] == q0[k]);
                }
            },
        }
        Ok(entry)
    }

    /// Create a request; the attached deposit must reach the configured
    /// per-call fee before anything is attempted.
    pub fn create_oracle(
        &mut self,
        url: String,
        data: String,
        creator: String,
        attached_deposit: u128,
        timestamp_ms: u64,
        seed: Vec<u8>,
    ) -> (res: Result<OracleData, ContractError>)
        requires
            old(self).inv(),
        ensures
            final(self).inv(),
            attached_deposit < old(self).fee_per_call ==> res == Err::<OracleData, ContractError>(
                ContractError::InsufficientFee,
            ) && *final(self) == *old(self),
            attached_deposit >= old(self).fee_per_call ==> create_transition(
                *old(self),
                *final(self),
                res,
                url,
                data,
                creator,
                timestamp_ms,
                seed@,
            ),
    {
        if attached_deposit < self.fee_per_call {
            return Err(ContractError::InsufficientFee);
        }
        self.internal_create_oracle(url, data, creator, timestamp_ms, seed)
    }

    /// Mark the request executed, attach the fulfilled value, and charge
    /// the stored record's byte-footprint delta to its creator through the
    /// ledger. No authorization gate: any caller may fulfill any request —
    /// a known gap, kept rather than silently closed.
    pub fn execute_oracle(&mut self, id: String, return_value: String) -> (res: Result<
        OracleData,
        ContractError,
    >)
        requires
            old(self).inv(),
        ensures
            final(self).inv(),
            final(self).same_config(*old(self)),
            match spec_fulfill(
                old(self).queued_data@,
                old(self).accounts@,
                old(self).account_storage_usage,
                id@,
                return_value,
            ) {
                Ok((q2, a2, u2, e2)) => res == Ok::<OracleData, ContractError>(e2)
                    && final(self).queued_data@ == q2 && final(self).accounts@ == a2
                    && final(self).account_storage_usage == u2,
                Err(e) => res == Err::<OracleData, ContractError>(e) && *final(self) == *old(self),
            },
    {
        let idx: usize = match find_request(&self.queued_data, &id) {
            Some(i) => i,
            None => {
                return Err(ContractError::NotFound);
            },
        };
        proof {
            lemma_member_footprint_le(self.queued_data@, idx as int);
        }
        let old_foot: u64 = match record_bytes(&self.queued_data[idx]) {
            Some(b) => b,
            None => {
                return Err(ContractError::Overflow);
            },
        };
        let mut entry = self.queued_data[idx].clone();
        entry.executed = true;
        entry.return_value = Some(return_value);
        let new_foot: u64 = match record_bytes(&entry) {
            Some(b) => b,
            None => {
                return Err(ContractError::Overflow);
            },
        };
        let init: u64 = self.account_storage_usage;
        let base: u64 = init - old_foot;
        let target: u64 = match base.checked_add(new_foot) {
            Some(t) => t,
            None => {
                return Err(ContractError::Overflow);
            },
        };
        let creator = self.queued_data[idx].creator.clone();
        match self.cal_storage(init, target, &creator) {
            Ok(()) => {},
            Err(e) => {
                return Err(e);
            },
        }
        let ghost q0 = self.queued_data@;
        let stored = entry.clone();
        self.queued_data.remove(idx);
        self.queued_data.insert(idx, stored);
        proof {
            assert(self.queued_data@ =~= q0.update(idx as int, entry));
            lemma_total_footprint_update(q0, idx as int, entry);
            assert(forall|k: int|
                0 <= k < self.queued_data@.len() ==> (#[trigger] self.queued_data@[k]).id@
                    == q0[k].id@);
        }
        Ok(entry)
    }

    /// Fulfill each (id, value) pair in order; the first missing id aborts
    /// the batch and discards every effect it had.
    pub fn execute_oracle_batch(
        &mut self,
        ids: Vec<String>,
        return_values: Vec<String>,
    ) -> (res: Result<(), ContractError>)
        requires
            old(self).inv(),
            ids@.len() == return_values@.len(),
        ensures
            final(self).inv(),
            final(self).same_config(*old(self)),
            match spec_fulfill_batch(
                old(self).queued_data@,
                old(self).accounts@,
                old(self).account_storage_usage,
                ids@,
                return_values@,
                ids@.len() as int,
            ) {
                Ok((q2, a2, u2)) => res is Ok && final(self).queued_data@ == q2
                    && final(self).accounts@ == a2 && final(self).account_storage_usage == u2,
                Err(e) => res == Err::<(), ContractError>(e)
                    && final(self).queued_data@ == old(self).queued_data@
                    && final(self).accounts@ == old(self).accounts@
                    && final(self).account_storage_usage == old(self).account_storage_usage,
            },
    {
        let snap_q = clone_requests(&self.queued_data);
        let snap_a = clone_accounts(&self.accounts);
        let snap_u = self.account_storage_usage;
        let mut k: usize = 0;
        while k < ids.len()
            invariant
                old(self).inv(),
                self.inv(),
                self.same_config(*old(self)),
                self.owner_id == old(self).owner_id,
                self.whitelisted == old(self).whitelisted,
                self.fee_per_call == old(self).fee_per_call,
                k <= ids@.len(),
                ids@.len() == return_values@.len(),
                snap_q@ == old(self).queued_data@,
                snap_a@ == old(self).accounts@,
                snap_u == old(self).account_storage_usage,
                spec_fulfill_batch(
                    old(self).queued_data@,
                    old(self).accounts@,
                    old(self).account_storage_usage,
                    ids@,
                    return_values@,
                    k as int,
                ) == Ok::<
                    (Seq<OracleData>, Seq<crate::storage::AccountEntry>, u64),
                    ContractError,
                >((self.queued_data@, self.accounts@, self.account_storage_usage)),
            decreases ids@.len() - k,
        {
            let id = ids[k].clone();
            let v = return_values[k].clone();
            match self.execute_oracle(id, v) {
                Ok(_) => {},
                Err(e) => {
                    proof {
                        assert(spec_fulfill_batch(
                            old(self).queued_data@,
                            old(self).accounts@,
                            old(self).account_storage_usage,
                            ids@,
                            return_values@,
                            k + 1 as int,
                        ) == Err::<
                            (Seq<OracleData>, Seq<crate::storage::AccountEntry>, u64),
                            ContractError,
                        >(e));
                        lemma_fulfill_batch_err(
                            old(self).queued_data@,
                            old(self).accounts@,
                            old(self).account_storage_usage,
                            ids@,
                            return_values@,
                            k + 1 as int,
                            ids@.len() as int,
                        );
                    }
                    self.queued_data = snap_q;
                    self.accounts = snap_a;
                    self.account_storage_usage = snap_u;
                    return Err(e);
                },
            }
            k += 1;
        }
        Ok(())
    }

    /// Delete each id in order, crediting each record's footprint back to
    /// its creator; the first missing id aborts the batch and discards
    /// every effect it had.
    pub fn delete_oracle_batch(&mut self, ids: Vec<String>) -> (res: Result<(), ContractError>)
        requires
            old(self).inv(),
        ensures
            final(self).inv(),
            final(self).same_config(*old(self)),
            match spec_delete_batch(
                old(self).queued_data@,
                old(self).accounts@,
                old(self).account_storage_usage,
                ids@,
                ids@.len() as int,
            ) {
                Ok((q2, a2, u2)) => res is Ok && final(self).queued_data@ == q2
                    && final(self).accounts@ == a2 && final(self).account_storage_usage == u2,
                Err(e) => res == Err::<(), ContractError>(e)
                    && final(self).queued_data@ == old(self).queued_data@
                    && final(self).accounts@ == old(self).accounts@
                    && final(self).account_storage_usage == old(self).account_storage_usage,
            },
    {
        let snap_q = clone_requests(&self.queued_data);
        let snap_a = clone_accounts(&self.accounts);
        let snap_u = self.account_storage_usage;
        let mut k: usize = 0;
        while k < ids.len()
            invariant
                old(self).inv(),
                self.inv(),
                self.same_config(*old(self)),
                self.owner_id == old(self).owner_id,
                self.whitelisted == old(self).whitelisted,
                self.fee_per_call == old(self).fee_per_call,
                k <= ids@.len(),
                snap_q@ == old(self).queued_data@,
                snap_a@ == old(self).accounts@,
                snap_u == old(self).account_storage_usage,
                spec_delete_batch(
                    old(self).queued_data@,
                    old(self).accounts@,
                    old(self).account_storage_usage,
                    ids@,
                    k as int,
                ) == Ok::<
                    (Seq<OracleData>, Seq<crate::storage::AccountEntry>, u64),
                    ContractError,
                >((self.queued_data@, self.accounts@, self.account_storage_usage)),
            decreases ids@.len() - k,
        {
            let id = ids[k].clone();
            let outcome = self.delete_oracle(id);
            let failed: Option<ContractError> = match outcome {
                Ok(true) => None,
                Ok(false) => Some(ContractError::NotFound),
                Err(e) => Some(e),
            };
            match failed {
                None => {},
                Some(e) => {
                    proof {
                        assert(spec_delete_batch(
                            old(self).queued_data@,
                            old(self).accounts@,
                            old(self).account_storage_usage,
                            ids@,
                            k + 1 as int,
                        ) == Err::<
                            (Seq<OracleData>, Seq<crate::storage::AccountEntry>, u64),
                            ContractError,
                        >(e));
                        lemma_delete_batch_err(
                            old(self).queued_data@,
                            old(self).accounts@,
                            old(self).account_storage_usage,
                            ids@,
                            k + 1 as int,
                            ids@.len() as int,
                        );
                    }
                    self.queued_data = snap_q;
                    self.accounts = snap_a;
                    self.account_storage_usage = snap_u;
                    return Err(e);
                },
            }
            k += 1;
        }
        Ok(())
    }

    /// Remove the request if present and credit its accounted footprint
    /// back to its creator; report whether it existed. No ownership gate —
    /// a known gap, kept rather than silently closed.
    pub fn delete_oracle(&mut self, id: String) -> (res: Result<bool, ContractError>)
        requires
            old(self).inv(),
        ensures
            final(self).inv(),
            final(self).same_config(*old(self)),
            match spec_delete(
                old(self).queued_data@,
                old(self).accounts@,
                old(self).account_storage_usage,
                id@,
            ) {
                Ok((q2, a2, u2, existed)) => res == Ok::<bool, ContractError>(existed)
                    && final(self).queued_data@ == q2 && final(self).accounts@ == a2
                    && final(self).account_storage_usage == u2,
                Err(e) => res == Err::<bool, ContractError>(e) && *final(self) == *old(self),
            },
    {
        let idx: usize = match find_request(&self.queued_data, &id) {
            Some(i) => i,
            None => {
                return Ok(false);
            },
        };
        proof {
            lemma_member_footprint_le(self.queued_data@, idx as int);
        }
        let foot: u64 = match record_bytes(&self.queued_data[idx]) {
            Some(b) => b,
            None => {
                return Err(ContractError::Overflow);
            },
        };
        let init: u64 = self.account_storage_usage;
        let target: u64 = init - foot;
        let creator = self.queued_data[idx].creator.clone();
        match self.cal_storage(init, target, &creator) {
            Ok(()) => {},
            Err(e) => {
                return Err(e);
            },
        }
        let ghost q0 = self.queued_data@;
        self.queued_data.remove(idx);
        proof {
            lemma_total_footprint_remove(q0, idx as int);
            assert(forall|a: int, b: int|
                0 <= a < b < self.queued_data@.len() ==> (#[trigger] self.queued_data@[a]).id@ != (
                #[trigger] self.queued_data@[b]).id@) by {
                assert(forall|k: int|
                    0 <= k < self.queued_data@.len() ==> self.queued_data@[k] == (if k < idx as int {
                        q0[k]
                    } else {
                        q0[k + 1]
                    }));
            }
        }
        Ok(true)
    }
}

} // verus!
