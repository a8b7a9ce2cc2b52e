use oracle_queue::{Contract, ContractError, MIN_STORAGE_BALANCE, ONE_NEAR};

fn new_contract() -> Contract {
    Contract::new("owner".to_string())
}

fn deposit(c: &mut Contract, who: &str, amount: u128) {
    c.storage_deposit(Some(who.to_string()), None, who.to_string(), amount)
        .unwrap();
}

fn fee() -> u128 {
    ONE_NEAR / 100
}

fn create(c: &mut Contract, n: u8) -> String {
    c.create_oracle(
        "https://example.test/a".to_string(),
        "{}".to_string(),
        "alice".to_string(),
        fee(),
        n as u64,
        vec![20, n],
    )
    .unwrap()
    .id
}

#[test]
fn fulfill_batch_applies_in_order() {
    let mut c = new_contract();
    deposit(&mut c, "alice", ONE_NEAR);
    let id1 = create(&mut c, 1);
    let id2 = create(&mut c, 2);
    c.execute_oracle_batch(
        vec![id1.clone(), id2.clone()],
        vec!["1".to_string(), "2".to_string()],
    )
    .unwrap();
    assert_eq!(
        c.get_queued_data_by_id(id1).unwrap().return_value,
        Some("1".to_string())
    );
    assert_eq!(
        c.get_queued_data_by_id(id2).unwrap().return_value,
        Some("2".to_string())
    );
}

#[test]
fn fulfill_batch_aborts_whole_step_on_missing_id() {
    let mut c = new_contract();
    deposit(&mut c, "alice", ONE_NEAR);
    let id1 = create(&mut c, 1);
    let res = c.execute_oracle_batch(
        vec![id1.clone(), "bogus".to_string()],
        vec!["1".to_string(), "2".to_string()],
    );
    assert_eq!(res.unwrap_err(), ContractError::NotFound);
    let read = c.get_queued_data_by_id(id1).unwrap();
    assert!(!read.executed);
    assert_eq!(read.return_value, None);
}

#[test]
fn delete_batch_removes_and_credits() {
    let mut c = new_contract();
    deposit(&mut c, "alice", ONE_NEAR);
    let id1 = create(&mut c, 1);
    let id2 = create(&mut c, 2);
    c.delete_oracle_batch(vec![id1, id2]).unwrap();
    assert_eq!(c.get_queued_data(None, None).len(), 0);
    let bal = c.storage_balance_of("alice".to_string()).unwrap();
    assert_eq!(bal.available, ONE_NEAR);
    assert_eq!(c.account_storage_usage, 0);
}

#[test]
fn delete_batch_aborts_whole_step_on_missing_id() {
    let mut c = new_contract();
    deposit(&mut c, "alice", ONE_NEAR);
    let id1 = create(&mut c, 1);
    let before = c.storage_balance_of("alice".to_string()).unwrap();
    let res = c.delete_oracle_batch(vec![id1.clone(), "bogus".to_string()]);
    assert_eq!(res.unwrap_err(), ContractError::NotFound);
    assert!(c.get_queued_data_by_id(id1).is_some());
    let after = c.storage_balance_of("alice".to_string()).unwrap();
    assert_eq!(after.available, before.available);
}

#[test]
fn filtered_listings_apply_within_window() {
    let mut c = new_contract();
    deposit(&mut c, "alice", ONE_NEAR);
    let mut ids: Vec<String> = Vec::new();
    for n in 1u8..=3 {
        let url = if n == 3 {
            "https://example.test/b"
        } else {
            "https://example.test/a"
        };
        let req = c
            .create_oracle(
                url.to_string(),
                "{}".to_string(),
                "alice".to_string(),
                fee(),
                n as u64,
                vec![30, n],
            )
            .unwrap();
        ids.push(req.id);
    }
    c.execute_oracle(ids[1].clone(), "v".to_string()).unwrap();

    let by_a = c.get_queued_data_by_url("https://example.test/a".to_string(), None, None);
    assert_eq!(by_a.len(), 2);
    assert_eq!(by_a[0].id, ids[0]);
    assert_eq!(by_a[1].id, ids[1]);

    // The window is cut before the filter applies: position 0 is outside
    // this window, so only one of the two matching requests is seen.
    let by_a_window =
        c.get_queued_data_by_url("https://example.test/a".to_string(), Some(1), Some(2));
    assert_eq!(by_a_window.len(), 1);
    assert_eq!(by_a_window[0].id, ids[1]);

    let executed = c.get_queued_data_by_executed(true, None, None);
    assert_eq!(executed.len(), 1);
    assert_eq!(executed[0].id, ids[1]);
    let pending = c.get_queued_data_by_executed(false, None, None);
    assert_eq!(pending.len(), 2);
}

#[test]
fn storage_surface_behaviour() {
    let mut c = new_contract();
    let bounds = c.storage_balance_bounds();
    assert_eq!(bounds.min, MIN_STORAGE_BALANCE);
    assert!(bounds.max.is_none());

    assert!(!c.is_registered("alice".to_string()));
    assert!(c.storage_balance_of("alice".to_string()).is_none());

    deposit(&mut c, "alice", MIN_STORAGE_BALANCE);
    assert!(c.is_registered("alice".to_string()));
    let bal = c.storage_balance_of("alice".to_string()).unwrap();
    assert_eq!(bal.total, MIN_STORAGE_BALANCE);
    assert_eq!(bal.available, MIN_STORAGE_BALANCE);

    deposit(&mut c, "alice", MIN_STORAGE_BALANCE);
    let topped = c.storage_balance_of("alice".to_string()).unwrap();
    assert_eq!(topped.total, 2 * MIN_STORAGE_BALANCE);
    assert_eq!(topped.available, 2 * MIN_STORAGE_BALANCE);
}

#[test]
fn storage_withdraw_behaviour() {
    let mut c = new_contract();
    assert_eq!(
        c.storage_withdraw("alice".to_string(), None).unwrap_err(),
        ContractError::NotFound
    );
    deposit(&mut c, "alice", MIN_STORAGE_BALANCE);
    let bal = c.storage_withdraw("alice".to_string(), None).unwrap();
    assert_eq!(bal.available, MIN_STORAGE_BALANCE);
    let zero = c.storage_withdraw("alice".to_string(), Some(0)).unwrap();
    assert_eq!(zero.available, MIN_STORAGE_BALANCE);
    assert_eq!(
        c.storage_withdraw("alice".to_string(), Some(1)).unwrap_err(),
        ContractError::Overdraft
    );
}

#[test]
fn storage_unregister_behaviour() {
    let mut c = new_contract();
    assert!(!c.storage_unregister("alice".to_string(), None));
    deposit(&mut c, "alice", MIN_STORAGE_BALANCE);
    let refunded = c
        .internal_storage_unregister("alice".to_string(), Some(true))
        .unwrap();
    assert_eq!(refunded.0, "alice");
    assert_eq!(refunded.1, MIN_STORAGE_BALANCE);
    assert!(!c.is_registered("alice".to_string()));
}

#[test]
fn create_oracle_await_yields_nothing_without_fulfiller() {
    let mut c = new_contract();
    deposit(&mut c, "alice", ONE_NEAR);
    let res = c
        .create_oracle_await(
            "https://example.test/a".to_string(),
            "{}".to_string(),
            "alice".to_string(),
            fee(),
            5,
            vec![40],
        )
        .unwrap();
    assert_eq!(res, None);
    let stored = c.get_queued_data(None, None);
    assert_eq!(stored.len(), 1);
    assert!(!stored[0].executed);
}

#[test]
fn demo_power_stores_demo_request() {
    let mut c = new_contract();
    deposit(&mut c, "alice", ONE_NEAR);
    let res = c
        .demo_power("alice".to_string(), fee(), 5, vec![41])
        .unwrap();
    assert_eq!(res, None);
    let stored = c.get_queued_data_by_url(
        "https://api.coingecko.com/api/v3/simple/price?ids=near&vs_currencies=usd".to_string(),
        None,
        None,
    );
    assert_eq!(stored.len(), 1);
    assert_eq!(stored[0].data, "{}");
}

#[test]
fn demo_callback_reports_success() {
    let mut c = new_contract();
    assert!(c.demo_callback(Some("41.99".to_string())));
    assert!(!c.demo_callback(None));
}

#[test]
fn owner_gate() {
    let c = new_contract();
    assert!(c.assert_owner(&"owner".to_string()));
    assert!(!c.assert_owner(&"alice".to_string()));
}
