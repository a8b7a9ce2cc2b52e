//! The mathematical model behind the queue and the ledger: keyed lookup in
//! a sequence, uniqueness of keys, and the byte footprint of stored
//! requests, with the lemmas the operations' proofs rest on.

use vstd::prelude::*;
use crate::data::OracleData;
use crate::storage::AccountEntry;
use crate::RECORD_OVERHEAD;

verus! {

/// Index of the first element of `s` whose key is `id`, or `-1` if none.
pub open spec fn key_index<T>(s: Seq<T>, key: spec_fn(T) -> Seq<char>, id: Seq<char>) -> int
    decreases s.len(),
{
    if s.len() == 0 {
        -1
    } else if key(s[0]) == id {
        0
    } else {
        let rest = key_index(s.drop_first(), key, id);
        if rest < 0 {
            -1
        } else {
            rest + 1
        }
    }
}

/// No two elements of `s` share a key.
pub open spec fn unique_keys<T>(s: Seq<T>, key: spec_fn(T) -> Seq<char>) -> bool {
    forall|i: int, j: int| 0 <= i < j < s.len() ==> key(s[i]) != key(s[j])
}

pub proof fn lemma_key_index_bounds<T>(s: Seq<T>, key: spec_fn(T) -> Seq<char>, id: Seq<char>)
    ensures
        -1 <= key_index(s, key, id) < s.len(),
        key_index(s, key, id) >= 0 ==> key(s[key_index(s, key, id)]) == id,
    decreases s.len(),
{
    if s.len() != 0 && key(s[0]) != id {
        lemma_key_index_bounds(s.drop_first(), key, id);
    }
}

pub proof fn lemma_key_index_absent<T>(s: Seq<T>, key: spec_fn(T) -> Seq<char>, id: Seq<char>)
    ensures
        (key_index(s, key, id) == -1) <==> (forall|i: int|
            0 <= i < s.len() ==> key(s[i]) != id),
    decreases s.len(),
{
    if s.len() != 0 {
        lemma_key_index_absent(s.drop_first(), key, id);
        assert(forall|i: int| 1 <= i < s.len() ==> s.drop_first()[i - 1] == s[i]);
    }
}

pub proof fn lemma_key_index_unique<T>(
    s: Seq<T>,
    key: spec_fn(T) -> Seq<char>,
    id: Seq<char>,
    i: int,
)
    requires
        unique_keys(s, key),
        0 <= i < s.len(),
        key(s[i]) == id,
    ensures
        key_index(s, key, id) == i,
{
    lemma_key_index_bounds(s, key, id);
    lemma_key_index_absent(s, key, id);
    let r = key_index(s, key, id);
    if r < i {
        assert(key(s[r]) != key(s[i]));
    } else if r > i {
        assert(key(s[i]) != key(s[r]));
    }
}

/// A first match at `i` — nothing before it matches — is what `key_index`
/// finds.
pub proof fn lemma_key_index_first<T>(
    s: Seq<T>,
    key: spec_fn(T) -> Seq<char>,
    id: Seq<char>,
    i: int,
)
    requires
        0 <= i < s.len(),
        key(s[i]) == id,
        forall|j: int| 0 <= j < i ==> key(s[j]) != id,
    ensures
        key_index(s, key, id) == i,
    decreases s.len(),
{
    if i > 0 {
        assert(forall|j: int| 1 <= j < s.len() ==> s.drop_first()[j - 1] == s[j]);
        lemma_key_index_first(s.drop_first(), key, id, i - 1);
    }
}

/// Two sequences with the same keys position by position have the same
/// lookup result.
pub proof fn lemma_key_index_same_keys<T>(
    s1: Seq<T>,
    s2: Seq<T>,
    key: spec_fn(T) -> Seq<char>,
    id: Seq<char>,
)
    requires
        s1.len() == s2.len(),
        forall|i: int| 0 <= i < s1.len() ==> key(s1[i]) == key(s2[i]),
    ensures
        key_index(s1, key, id) == key_index(s2, key, id),
    decreases s1.len(),
{
    if s1.len() != 0 {
        assert(forall|i: int|
            0 <= i < s1.drop_first().len() ==> key(s1.drop_first()[i]) == key(
                s2.drop_first()[i],
            )) by {
            assert(forall|i: int| 1 <= i < s1.len() ==> s1.drop_first()[i - 1] == s1[i]);
            assert(forall|i: int| 1 <= i < s2.len() ==> s2.drop_first()[i - 1] == s2[i]);
        }
        if key(s1[0]) != id {
            lemma_key_index_same_keys(s1.drop_first(), s2.drop_first(), key, id);
        }
    }
}

pub open spec fn req_key() -> spec_fn(OracleData) -> Seq<char> {
    |r: OracleData| r.id@
}

pub open spec fn acct_key() -> spec_fn(AccountEntry) -> Seq<char> {
    |e: AccountEntry| e.account_id@
}

/// Position of the request with id `id`, or `-1` if the queue has none.
pub open spec fn req_index(q: Seq<OracleData>, id: Seq<char>) -> int {
    key_index(q, req_key(), id)
}

/// Position of the account entry for `id`, or `-1` if not registered.
pub open spec fn acct_index(a: Seq<AccountEntry>, id: Seq<char>) -> int {
    key_index(a, acct_key(), id)
}

pub open spec fn unique_req_ids(q: Seq<OracleData>) -> bool {
    unique_keys(q, req_key())
}

pub open spec fn unique_account_ids(a: Seq<AccountEntry>) -> bool {
    unique_keys(a, acct_key())
}

/// The accounted byte footprint of one stored request: a fixed per-record
/// overhead plus its id, url, payload, creator, and fulfilled value if one
/// is attached. Every operation that changes a record's footprint routes
/// the delta through the ledger.
pub open spec fn record_footprint(r: OracleData) -> int {
    RECORD_OVERHEAD + r.id@.len() + r.url@.len() + r.data@.len() + r.creator@.len() + (
    match r.return_value {
        Some(v) => v@.len() as int,
        None => 0,
    })
}

/// The accounted byte footprint of the whole queue.
pub open spec fn total_footprint(q: Seq<OracleData>) -> int
    decreases q.len(),
{
    if q.len() == 0 {
        0
    } else {
        record_footprint(q[0]) + total_footprint(q.drop_first())
    }
}

pub proof fn lemma_total_footprint_push(q: Seq<OracleData>, x: OracleData)
    ensures
        total_footprint(q.push(x)) == total_footprint(q) + record_footprint(x),
    decreases q.len(),
{
    if q.len() == 0 {
        assert(q.push(x)[0] == x);
        assert(q.push(x).drop_first() =~= Seq::<OracleData>::empty());
        assert(total_footprint(Seq::<OracleData>::empty()) == 0);
        assert(total_footprint(q) == 0);
        assert(total_footprint(q.push(x)) == record_footprint(q.push(x)[0]) + total_footprint(
            q.push(x).drop_first(),
        ));
    } else {
        assert(q.push(x)[0] == q[0]);
        assert(q.push(x).drop_first() =~= q.drop_first().push(x));
        lemma_total_footprint_push(q.drop_first(), x);
    }
}

pub proof fn lemma_total_footprint_remove(q: Seq<OracleData>, i: int)
    requires
        0 <= i < q.len(),
    ensures
        total_footprint(q.remove(i)) == total_footprint(q) - record_footprint(q[i]),
    decreases q.len(),
{
    if i == 0 {
        assert(q.remove(0) =~= q.drop_first());
    } else {
        assert(q.remove(i)[0] == q[0]);
        assert(q.remove(i).drop_first() =~= q.drop_first().remove(i - 1));
        lemma_total_footprint_remove(q.drop_first(), i - 1);
    }
}

pub proof fn lemma_total_footprint_update(q: Seq<OracleData>, i: int, x: OracleData)
    requires
        0 <= i < q.len(),
    ensures
        total_footprint(q.update(i, x)) == total_footprint(q) - record_footprint(q[i])
            + record_footprint(x),
    decreases q.len(),
{
    if i == 0 {
        assert(q.update(0, x)[0] == x);
        assert(q.update(0, x).drop_first() =~= q.drop_first());
    } else {
        assert(q.update(i, x)[0] == q[0]);
        assert(q.update(i, x).drop_first() =~= q.drop_first().update(i - 1, x));
        lemma_total_footprint_update(q.drop_first(), i - 1, x);
    }
}

pub proof fn lemma_total_footprint_nonneg(q: Seq<OracleData>)
    ensures
        total_footprint(q) >= 0,
    decreases q.len(),
{
    if q.len() != 0 {
        lemma_total_footprint_nonneg(q.drop_first());
    }
}

pub proof fn lemma_member_footprint_le(q: Seq<OracleData>, i: int)
    requires
        0 <= i < q.len(),
    ensures
        record_footprint(q[i]) <= total_footprint(q),
    decreases q.len(),
{
    if i == 0 {
        lemma_total_footprint_nonneg(q.drop_first());
    } else {
        lemma_member_footprint_le(q.drop_first(), i - 1);
    }
}

} // verus!
