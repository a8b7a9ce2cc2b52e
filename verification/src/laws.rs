//! System-wide laws relating the operations: created requests resolve to
//! their fulfilled value, deletion really removes, storage charges cancel
//! exactly on a create/delete round trip, overdrafts reject creation
//! wholesale, and polling exhausts at exactly the iteration cap.

use vstd::prelude::*;
use crate::data::{
    create_transition, fulfilled_entry, spec_delete, spec_fulfill, OracleData,
};
use crate::model::{
    acct_index, acct_key, lemma_key_index_absent, lemma_key_index_bounds,
    lemma_key_index_same_keys, lemma_key_index_unique, record_footprint, req_index, req_key,
};
use crate::poll::{poll_outcome_ok, spec_poll_step, PollState};
use crate::{Contract, ContractError, MAX_ITERATIONS, STORAGE_BYTE_COST};

verus! {

/// A request just created and then fulfilled with `value` polls to exactly
/// that value, and reads back as executed.
pub proof fn lemma_create_fulfill_poll(
    pre: Contract,
    c1: Contract,
    c2: Contract,
    req: OracleData,
    url: String,
    data: String,
    creator: String,
    timestamp_ms: u64,
    seed: Seq<u8>,
    value: String,
    poll_res: Result<Option<String>, ContractError>,
)
    requires
        pre.inv(),
        c1.wf(),
        create_transition(
            pre,
            c1,
            Ok::<OracleData, ContractError>(req),
            url,
            data,
            creator,
            timestamp_ms,
            seed,
        ),
        ({
            let f = spec_fulfill(
                c1.queued_data@,
                c1.accounts@,
                c1.account_storage_usage,
                req.id@,
                value,
            );
            f is Ok && c2.queued_data@ == f->Ok_0.0
        }),
        poll_outcome_ok(c2, req.id@, poll_res),
    ensures
        poll_res == Ok::<Option<String>, ContractError>(Some(value)),
        c2.spec_has_request(req.id@),
        c2.spec_request(req.id@).executed,
        c2.spec_request(req.id@).return_value == Some(value),
{
    let qpre = pre.queued_data@;
    let q1 = c1.queued_data@;
    let q2 = c2.queued_data@;
    lemma_key_index_bounds(qpre, req_key(), req.id@);
    let ipre = req_index(qpre, req.id@);
    if ipre >= 0 {
        assert(q1 == qpre.update(ipre, req));
        assert(q1[ipre] == req);
        lemma_key_index_unique(q1, req_key(), req.id@, ipre);
    } else {
        assert(q1 == qpre.push(req));
        assert(q1[qpre.len() as int] == req);
        lemma_key_index_unique(q1, req_key(), req.id@, qpre.len() as int);
    }
    let i1 = req_index(q1, req.id@);
    assert(q1[i1] == req);
    assert(q2 == q1.update(i1, fulfilled_entry(req, value)));
    assert(forall|k: int| 0 <= k < q1.len() ==> (#[trigger] q2[k]).id@ == q1[k].id@);
    lemma_key_index_same_keys(q2, q1, req_key(), req.id@);
    assert(req_index(q2, req.id@) == i1);
    assert(q2[i1] == fulfilled_entry(req, value));
}

/// Once deleted, an id is gone: no lookup finds it, so `getById` yields
/// nothing.
pub proof fn lemma_delete_then_absent(
    pre: Contract,
    c2: Contract,
    id: Seq<char>,
)
    requires
        pre.wf(),
        spec_delete(
            pre.queued_data@,
            pre.accounts@,
            pre.account_storage_usage,
            id,
        ) == Ok::<(Seq<OracleData>, Seq<crate::storage::AccountEntry>, u64, bool), ContractError>(
            (c2.queued_data@, c2.accounts@, c2.account_storage_usage, true),
        ),
    ensures
        req_index(c2.queued_data@, id) == -1,
        !c2.spec_has_request(id),
{
    let q = pre.queued_data@;
    let q2 = c2.queued_data@;
    lemma_key_index_bounds(q, req_key(), id);
    let i = req_index(q, id);
    assert(q2 == q.remove(i));
    assert(forall|k: int|
        0 <= k < q2.len() ==> q2[k] == (if k < i {
            q[k]
        } else {
            q[k + 1]
        }));
    assert forall|k: int| 0 <= k < q2.len() implies (#[trigger] q2[k]).id@ != id by {
        if k < i {
            assert(q[k].id@ != q[i].id@);
        } else {
            assert(q[i].id@ != q[k + 1].id@);
        }
    }
    lemma_key_index_absent(q2, req_key(), id);
}

/// The byte-accounting round trip: creating a fresh request and then
/// deleting it restores the queue, every account balance, and the running
/// byte total exactly — the debit and the credit cancel with no residue.
pub proof fn lemma_storage_round_trip(
    pre: Contract,
    c1: Contract,
    c2: Contract,
    req: OracleData,
    url: String,
    data: String,
    creator: String,
    timestamp_ms: u64,
    seed: Seq<u8>,
)
    requires
        pre.inv(),
        c1.wf(),
        req_index(pre.queued_data@, crate::codec::request_id(seed, creator@)) == -1,
        create_transition(
            pre,
            c1,
            Ok::<OracleData, ContractError>(req),
            url,
            data,
            creator,
            timestamp_ms,
            seed,
        ),
        spec_delete(
            c1.queued_data@,
            c1.accounts@,
            c1.account_storage_usage,
            req.id@,
        ) == Ok::<(Seq<OracleData>, Seq<crate::storage::AccountEntry>, u64, bool), ContractError>(
            (c2.queued_data@, c2.accounts@, c2.account_storage_usage, true),
        ),
    ensures
        c2.queued_data@ == pre.queued_data@,
        c2.accounts@ == pre.accounts@,
        c2.account_storage_usage == pre.account_storage_usage,
{
    let qpre = pre.queued_data@;
    let apre = pre.accounts@;
    let upre = pre.account_storage_usage;
    let q1 = c1.queued_data@;
    let a1 = c1.accounts@;
    let u1 = c1.account_storage_usage;
    let b = record_footprint(req);

    // The creation side: a push of `req`, a debit of `b * rate` at the
    // creator's entry, and a byte total raised by `b`.
    assert(q1 == qpre.push(req));
    lemma_key_index_bounds(apre, acct_key(), creator@);
    let j = acct_index(apre, creator@);
    assert(j >= 0);
    let e0 = apre[j];
    let cost = b * (STORAGE_BYTE_COST as int);
    assert(a1 == apre.update(j, crate::cal_storage::with_available(e0, e0.balance.available - cost)));
    assert(u1 == upre + b);

    // The deletion side: the freshly pushed record is the one found.
    assert(q1[qpre.len() as int] == req);
    lemma_key_index_unique(q1, req_key(), req.id@, qpre.len() as int);
    let i1 = req_index(q1, req.id@);
    assert(i1 == qpre.len() as int);
    assert(record_footprint(q1[i1]) == b);
    assert(forall|k: int| 0 <= k < a1.len() ==> (#[trigger] a1[k]).account_id@ == apre[k].account_id@);
    lemma_key_index_same_keys(a1, apre, acct_key(), creator@);
    assert(acct_index(a1, creator@) == j);
    assert(req.creator == creator);

    // The credit restores the debited entry exactly.
    let e1 = a1[j];
    assert(e1.balance.available == e0.balance.available - cost);
    assert(c2.accounts@ == a1.update(j, crate::cal_storage::with_available(e1, e1.balance.available + cost)));
    assert(crate::cal_storage::with_available(e1, e1.balance.available + cost) == e0);
    assert(c2.accounts@ =~= apre);
    assert(c2.queued_data@ == q1.remove(qpre.len() as int));
    assert(c2.queued_data@ =~= qpre);
    assert(c2.account_storage_usage == u1 - b);
}

/// Deletion always answers whether the id existed: a missing id is a
/// plain `false`, a present one is removed and `true` — also when its
/// creator's account is gone, since that credit is forfeited, not an
/// error. The one exception is a credit its creator's balance cannot
/// represent, a hard failure.
pub proof fn lemma_delete_reports_presence(pre: Contract, id: Seq<char>)
    requires
        pre.inv(),
        ({
            let i = req_index(pre.queued_data@, id);
            i >= 0 ==> ({
                let j = acct_index(pre.accounts@, pre.queued_data@[i].creator@);
                j >= 0 ==> pre.accounts@[j].balance.available + record_footprint(
                    pre.queued_data@[i],
                ) * (STORAGE_BYTE_COST as int) <= u128::MAX
            })
        }),
    ensures
        spec_delete(pre.queued_data@, pre.accounts@, pre.account_storage_usage, id) is Ok,
        spec_delete(pre.queued_data@, pre.accounts@, pre.account_storage_usage, id)->Ok_0.3 == (
        req_index(pre.queued_data@, id) >= 0),
{
    let q = pre.queued_data@;
    let i = req_index(q, id);
    if i >= 0 {
        lemma_key_index_bounds(q, req_key(), id);
        crate::model::lemma_member_footprint_le(q, i);
    }
}

/// An available balance below the cost of the request's footprint makes
/// creation fail with an overdraft, and nothing is persisted.
pub proof fn lemma_overdraft_rejects_create(
    pre: Contract,
    post: Contract,
    res: Result<OracleData, ContractError>,
    url: String,
    data: String,
    creator: String,
    timestamp_ms: u64,
    seed: Seq<u8>,
)
    requires
        pre.inv(),
        create_transition(pre, post, res, url, data, creator, timestamp_ms, seed),
        crate::codec::json_canon(data@) is Some,
        req_index(pre.queued_data@, crate::codec::request_id(seed, creator@)) == -1,
        acct_index(pre.accounts@, creator@) >= 0,
        ({
            let foot = crate::RECORD_OVERHEAD + crate::codec::request_id(seed, creator@).len()
                + url@.len() + crate::codec::json_canon(data@)->0.len() + creator@.len();
            pre.account_storage_usage + foot <= u64::MAX && pre.accounts@[acct_index(
                pre.accounts@,
                creator@,
            )].balance.available < foot * (STORAGE_BYTE_COST as int)
        }),
    ensures
        res == Err::<OracleData, ContractError>(ContractError::Overdraft),
        post == pre,
{
}

/// A never-fulfilled request polls to `Pending(it + 1)` for every
/// iteration up to the cap, and to `Exhausted` first — and only — at
/// iteration 16, one past the cap.
pub proof fn lemma_polling_termination(q: Seq<OracleData>, id: Seq<char>)
    requires
        req_index(q, id) >= 0,
        !q[req_index(q, id)].executed,
    ensures
        forall|it: u32|
            it <= MAX_ITERATIONS ==> spec_poll_step(q, id, it) == Ok::<PollState, ContractError>(
                PollState::Pending((it + 1) as u32),
            ),
        spec_poll_step(q, id, (MAX_ITERATIONS + 1) as u32) == Ok::<PollState, ContractError>(
            PollState::Exhausted,
        ),
        forall|it: u32|
            spec_poll_step(q, id, it) == Ok::<PollState, ContractError>(PollState::Exhausted)
                <==> it > MAX_ITERATIONS,
{
}

} // verus!
