use oracle_queue::poll::PollState;
use oracle_queue::{Contract, ContractError, MIN_STORAGE_BALANCE, ONE_NEAR, STORAGE_BYTE_COST};

fn new_contract() -> Contract {
    Contract::new("owner".to_string())
}

fn deposit(c: &mut Contract, who: &str, amount: u128) {
    c.storage_deposit(Some(who.to_string()), None, who.to_string(), amount)
        .unwrap();
}

fn fee() -> u128 {
    ONE_NEAR / 100
}

fn record_cost(r: &oracle_queue::OracleData) -> u128 {
    let value_chars = match &r.return_value {
        Some(v) => v.chars().count(),
        None => 0,
    };
    let bytes = 40u128
        + r.id.chars().count() as u128
        + r.url.chars().count() as u128
        + r.data.chars().count() as u128
        + r.creator.chars().count() as u128
        + value_chars as u128;
    bytes * STORAGE_BYTE_COST as u128
}

#[test]
fn queue_oracle() {
    let mut contract = Contract::new("alice".to_string());
    deposit(&mut contract, "alice", ONE_NEAR / 10);
    let storage = contract.storage_balance_of("alice".to_string()).unwrap();
    assert_eq!(storage.available, ONE_NEAR / 10);

    let mut payload = serde_json::Map::new();
    payload.insert(
        "id".to_string(),
        serde_json::Value::String("bitcoin".to_string()),
    );
    payload.insert(
        "symbol".to_string(),
        serde_json::Value::String("btc".to_string()),
    );
    payload.insert(
        "name".to_string(),
        serde_json::Value::String("Bitcoin".to_string()),
    );
    let res = contract
        .create_oracle(
            "https://api.coingecko.com/api/v3/simple/price?ids=bitcoin&vs_currencies=usd"
                .to_string(),
            serde_json::Value::Object(payload).to_string(),
            "alice".to_string(),
            ONE_NEAR / 10,
            1,
            vec![7, 8, 9],
        )
        .unwrap();
    let json: serde_json::Value = serde_json::from_str(&res.data).unwrap();
    assert!(json["id"].as_str().unwrap() == "bitcoin");
}

#[test]
fn create_fulfill_poll_returns_value() {
    let mut c = new_contract();
    deposit(&mut c, "alice", ONE_NEAR);
    let req = c
        .create_oracle(
            "https://example.test/a".to_string(),
            "{}".to_string(),
            "alice".to_string(),
            fee(),
            5,
            vec![1],
        )
        .unwrap();
    c.execute_oracle(req.id.clone(), "42".to_string()).unwrap();
    assert_eq!(c.poll(&req.id).unwrap(), Some("42".to_string()));
    let read = c.get_queued_data_by_id(req.id.clone()).unwrap();
    assert!(read.executed);
    assert_eq!(read.return_value, Some("42".to_string()));
}

#[test]
fn delete_then_get_by_id_none() {
    let mut c = new_contract();
    deposit(&mut c, "alice", ONE_NEAR);
    let req = c
        .create_oracle(
            "https://example.test/a".to_string(),
            "{}".to_string(),
            "alice".to_string(),
            fee(),
            5,
            vec![2],
        )
        .unwrap();
    assert_eq!(c.delete_oracle(req.id.clone()).unwrap(), true);
    assert!(c.get_queued_data_by_id(req.id.clone()).is_none());
    assert_eq!(c.delete_oracle(req.id).unwrap(), false);
}

#[test]
fn storage_round_trip_exact() {
    let mut c = new_contract();
    deposit(&mut c, "alice", ONE_NEAR);
    let req = c
        .create_oracle(
            "https://example.test/a".to_string(),
            "{\"k\": 3}".to_string(),
            "alice".to_string(),
            fee(),
            5,
            vec![3],
        )
        .unwrap();
    let mid = c.storage_balance_of("alice".to_string()).unwrap();
    assert_eq!(mid.available, ONE_NEAR - record_cost(&req));
    assert_eq!(c.delete_oracle(req.id).unwrap(), true);
    let after = c.storage_balance_of("alice".to_string()).unwrap();
    assert_eq!(after.available, ONE_NEAR);
    assert_eq!(after.total, ONE_NEAR);
    assert_eq!(c.account_storage_usage, 0);
}

#[test]
fn fulfill_charges_value_bytes_and_delete_credits_them() {
    let mut c = new_contract();
    deposit(&mut c, "alice", ONE_NEAR);
    let req = c
        .create_oracle(
            "https://example.test/a".to_string(),
            "{}".to_string(),
            "alice".to_string(),
            fee(),
            5,
            vec![16],
        )
        .unwrap();
    let after_create = c.storage_balance_of("alice".to_string()).unwrap();
    assert_eq!(after_create.available, ONE_NEAR - record_cost(&req));

    let fulfilled = c.execute_oracle(req.id.clone(), "42".to_string()).unwrap();
    let after_fulfill = c.storage_balance_of("alice".to_string()).unwrap();
    // The two value characters are debited on fulfillment.
    assert_eq!(
        after_fulfill.available,
        ONE_NEAR - record_cost(&fulfilled)
    );
    assert_eq!(
        record_cost(&fulfilled),
        record_cost(&req) + 2 * STORAGE_BYTE_COST as u128
    );

    // Deleting credits the whole accounted record, value included.
    assert_eq!(c.delete_oracle(req.id).unwrap(), true);
    let after_delete = c.storage_balance_of("alice".to_string()).unwrap();
    assert_eq!(after_delete.available, ONE_NEAR);
    assert_eq!(c.account_storage_usage, 0);
}

#[test]
fn refulfill_adjusts_charge_by_delta() {
    let mut c = new_contract();
    deposit(&mut c, "alice", ONE_NEAR);
    let req = c
        .create_oracle(
            "https://example.test/a".to_string(),
            "{}".to_string(),
            "alice".to_string(),
            fee(),
            5,
            vec![17],
        )
        .unwrap();
    c.execute_oracle(req.id.clone(), "4242".to_string()).unwrap();
    let long = c.storage_balance_of("alice".to_string()).unwrap();
    c.execute_oracle(req.id.clone(), "4".to_string()).unwrap();
    let short = c.storage_balance_of("alice".to_string()).unwrap();
    // Overwriting with a value three characters shorter credits them back.
    assert_eq!(short.available, long.available + 3 * STORAGE_BYTE_COST as u128);
    assert_eq!(
        c.get_queued_data_by_id(req.id).unwrap().return_value,
        Some("4".to_string())
    );
}

#[test]
fn fulfill_overdraft_keeps_entry_pending() {
    let mut c = new_contract();
    deposit(&mut c, "alice", 2 * MIN_STORAGE_BALANCE);
    let req = c
        .create_oracle(
            "".to_string(),
            "{}".to_string(),
            "alice".to_string(),
            ONE_NEAR,
            5,
            vec![18],
        )
        .unwrap();
    let value: String = "x".repeat(100);
    let res = c.execute_oracle(req.id.clone(), value);
    assert_eq!(res.unwrap_err(), ContractError::Overdraft);
    let read = c.get_queued_data_by_id(req.id).unwrap();
    assert!(!read.executed);
    assert_eq!(read.return_value, None);
}

#[test]
fn fulfill_after_creator_unregistered_overdrafts() {
    let mut c = new_contract();
    deposit(&mut c, "alice", ONE_NEAR);
    let req = c
        .create_oracle(
            "https://example.test/a".to_string(),
            "{}".to_string(),
            "alice".to_string(),
            fee(),
            5,
            vec![19],
        )
        .unwrap();
    assert!(c.storage_unregister("alice".to_string(), Some(true)));
    // The value's bytes would grow the record, and the creator's vanished
    // balance covers no debit; the request itself is still found.
    let res = c.execute_oracle(req.id.clone(), "42".to_string());
    assert_eq!(res.unwrap_err(), ContractError::Overdraft);
    assert!(!c.get_queued_data_by_id(req.id).unwrap().executed);
}

#[test]
fn delete_after_creator_unregistered_forfeits_credit() {
    let mut c = new_contract();
    deposit(&mut c, "alice", ONE_NEAR);
    let req = c
        .create_oracle(
            "https://example.test/a".to_string(),
            "{}".to_string(),
            "alice".to_string(),
            fee(),
            5,
            vec![21],
        )
        .unwrap();
    assert!(c.storage_unregister("alice".to_string(), Some(true)));
    // Deletion still reports whether the id existed; the credit has no
    // balance to land on and is forfeited, but the bytes are freed.
    assert_eq!(c.delete_oracle(req.id.clone()).unwrap(), true);
    assert!(c.get_queued_data_by_id(req.id).is_none());
    assert_eq!(c.account_storage_usage, 0);
    assert!(!c.is_registered("alice".to_string()));
}

#[test]
fn overdraft_rejects_create() {
    let mut c = new_contract();
    deposit(&mut c, "alice", MIN_STORAGE_BALANCE);
    let res = c.create_oracle(
        "".to_string(),
        "{}".to_string(),
        "alice".to_string(),
        ONE_NEAR,
        5,
        vec![4],
    );
    assert_eq!(res.unwrap_err(), ContractError::Overdraft);
    assert_eq!(c.get_queued_data(None, None).len(), 0);
    let bal = c.storage_balance_of("alice".to_string()).unwrap();
    assert_eq!(bal.available, MIN_STORAGE_BALANCE);
}

#[test]
fn polling_exhausts_at_cap() {
    let mut c = new_contract();
    deposit(&mut c, "alice", ONE_NEAR);
    let req = c
        .create_oracle(
            "https://example.test/a".to_string(),
            "{}".to_string(),
            "alice".to_string(),
            fee(),
            5,
            vec![5],
        )
        .unwrap();
    for it in 0u32..=15 {
        let step = c.loop_await_return(req.id.clone(), it).unwrap();
        assert_eq!(step, PollState::Pending(it + 1));
    }
    let last = c.loop_await_return(req.id.clone(), 16).unwrap();
    assert_eq!(last, PollState::Exhausted);
    assert_eq!(c.poll(&req.id).unwrap(), None);
    assert_eq!(c.loop_await_entry(req.id.clone()).unwrap(), None);
}

#[test]
fn fulfillment_between_steps_resolves_chain() {
    let mut c = new_contract();
    deposit(&mut c, "alice", ONE_NEAR);
    let req = c
        .create_oracle(
            "https://example.test/a".to_string(),
            "{}".to_string(),
            "alice".to_string(),
            fee(),
            5,
            vec![15],
        )
        .unwrap();
    // The chain is under way: steps 0 through 4 each schedule the next.
    for it in 0u32..5 {
        assert_eq!(
            c.loop_await_return(req.id.clone(), it).unwrap(),
            PollState::Pending(it + 1)
        );
    }
    // A fulfiller acts between two scheduled steps; the next step resolves.
    c.execute_oracle(req.id.clone(), "7".to_string()).unwrap();
    assert_eq!(
        c.loop_await_return(req.id.clone(), 5).unwrap(),
        PollState::Resolved("7".to_string())
    );
    assert_eq!(c.loop_await_entry(req.id.clone()).unwrap(), Some("7".to_string()));
}

#[test]
fn pagination_window() {
    let mut c = new_contract();
    deposit(&mut c, "alice", ONE_NEAR);
    let mut ids: Vec<String> = Vec::new();
    for n in 1u8..=5 {
        let req = c
            .create_oracle(
                "https://example.test/a".to_string(),
                "{}".to_string(),
                "alice".to_string(),
                fee(),
                n as u64,
                vec![10, n],
            )
            .unwrap();
        ids.push(req.id);
    }
    let all = c.get_queued_data(None, None);
    assert_eq!(all.len(), 5);
    for (k, r) in all.iter().enumerate() {
        assert_eq!(r.id, ids[k]);
    }
    let window = c.get_queued_data(Some(2), Some(2));
    assert_eq!(window.len(), 2);
    assert_eq!(window[0].id, ids[2]);
    assert_eq!(window[1].id, ids[3]);
    assert_eq!(c.get_queued_data(Some(7), Some(2)).len(), 0);
    assert_eq!(c.get_queued_data(Some(4), Some(50)).len(), 1);
}

#[test]
fn concrete_scenario() {
    let mut c = new_contract();
    deposit(&mut c, "alice", ONE_NEAR);
    let req = c
        .create_oracle(
            "https://example.test/price".to_string(),
            "{}".to_string(),
            "alice".to_string(),
            fee(),
            5,
            vec![6],
        )
        .unwrap();
    assert!(!req.executed);
    assert_eq!(req.return_value, None);
    assert_eq!(req.id.chars().count(), 64);
    assert!(req
        .id
        .chars()
        .all(|ch| ch.is_ascii_hexdigit() && !ch.is_ascii_uppercase()));
    c.execute_oracle(req.id.clone(), "42".to_string()).unwrap();
    let read = c.get_queued_data_by_id(req.id).unwrap();
    assert!(read.executed);
    assert_eq!(read.return_value, Some("42".to_string()));
}

#[test]
fn insufficient_fee_rejected_before_anything() {
    let mut c = new_contract();
    deposit(&mut c, "alice", ONE_NEAR);
    let res = c.create_oracle(
        "https://example.test/a".to_string(),
        "{}".to_string(),
        "alice".to_string(),
        fee() - 1,
        5,
        vec![7],
    );
    assert_eq!(res.unwrap_err(), ContractError::InsufficientFee);
    assert_eq!(c.get_queued_data(None, None).len(), 0);
}

#[test]
fn malformed_payload_rejected() {
    let mut c = new_contract();
    deposit(&mut c, "alice", ONE_NEAR);
    let res = c.create_oracle(
        "https://example.test/a".to_string(),
        "not json at all {".to_string(),
        "alice".to_string(),
        fee(),
        5,
        vec![8],
    );
    assert_eq!(res.unwrap_err(), ContractError::MalformedPayload);
    assert_eq!(c.get_queued_data(None, None).len(), 0);
}

#[test]
fn unregistered_creator_overdrafts() {
    let mut c = new_contract();
    let res = c.create_oracle(
        "https://example.test/a".to_string(),
        "{}".to_string(),
        "nobody".to_string(),
        ONE_NEAR,
        5,
        vec![9],
    );
    // An account that was never registered covers no debit.
    assert_eq!(res.unwrap_err(), ContractError::Overdraft);
    assert_eq!(c.get_queued_data(None, None).len(), 0);
}

#[test]
fn missing_id_not_found() {
    let mut c = new_contract();
    assert_eq!(
        c.execute_oracle("bogus".to_string(), "1".to_string())
            .unwrap_err(),
        ContractError::NotFound
    );
    assert_eq!(
        c.poll(&"bogus".to_string()).unwrap_err(),
        ContractError::NotFound
    );
    assert_eq!(
        c.loop_await_entry("bogus".to_string()).unwrap_err(),
        ContractError::NotFound
    );
    // The step reads the request before consulting the iteration budget:
    // an id the queue never held is fatal even past the cap.
    assert_eq!(
        c.loop_await_return("bogus".to_string(), 17).unwrap_err(),
        ContractError::NotFound
    );
}

#[test]
fn deposit_overflow_is_hard_failure() {
    let mut c = new_contract();
    deposit(&mut c, "alice", u128::MAX);
    let res = c.storage_deposit(
        Some("alice".to_string()),
        None,
        "alice".to_string(),
        MIN_STORAGE_BALANCE,
    );
    assert_eq!(res.unwrap_err(), ContractError::Overflow);
}

#[test]
fn payload_is_canonicalized() {
    let mut c = new_contract();
    deposit(&mut c, "alice", ONE_NEAR);
    let req = c
        .create_oracle(
            "https://example.test/a".to_string(),
            "{ \"a\" : 1 }".to_string(),
            "alice".to_string(),
            fee(),
            5,
            vec![11],
        )
        .unwrap();
    assert_eq!(req.data, "{\"a\":1}");
}

#[test]
fn create_same_seed_replaces_entry() {
    let mut c = new_contract();
    deposit(&mut c, "alice", ONE_NEAR);
    let first = c
        .create_oracle(
            "https://example.test/a".to_string(),
            "{}".to_string(),
            "alice".to_string(),
            fee(),
            5,
            vec![12],
        )
        .unwrap();
    let second = c
        .create_oracle(
            "https://example.test/a".to_string(),
            "{}".to_string(),
            "alice".to_string(),
            fee(),
            9,
            vec![12],
        )
        .unwrap();
    assert_eq!(first.id, second.id);
    assert_eq!(c.get_queued_data(None, None).len(), 1);
    assert_eq!(c.get_queued_data_by_id(first.id).unwrap().timestamp, 9);
    let bal = c.storage_balance_of("alice".to_string()).unwrap();
    assert_eq!(bal.available, ONE_NEAR - record_cost(&second));
}

#[test]
fn distinct_seeds_distinct_ids() {
    let mut c = new_contract();
    deposit(&mut c, "alice", ONE_NEAR);
    let a = c
        .create_oracle(
            "https://example.test/a".to_string(),
            "{}".to_string(),
            "alice".to_string(),
            fee(),
            5,
            vec![13],
        )
        .unwrap();
    let b = c
        .create_oracle(
            "https://example.test/a".to_string(),
            "{}".to_string(),
            "alice".to_string(),
            fee(),
            5,
            vec![14],
        )
        .unwrap();
    assert_ne!(a.id, b.id);
    assert_eq!(c.get_queued_data(None, None).len(), 2);
}
