use copilot_accounts::models::CopilotAccount;
use copilot_accounts::models::CopilotAccountIndex;
use copilot_accounts::models::CopilotAccountSummary;
use copilot_accounts::errors::StoreError;
use copilot_accounts::ident::account_id_for;
use copilot_accounts::store::CopilotStore;
use copilot_accounts::store::get_current_account;
use copilot_accounts::store::list_accounts;
use copilot_accounts::store::remove_account;
use copilot_accounts::store::remove_accounts;
use copilot_accounts::store::switch_account_at;
use copilot_accounts::store::update_account_tags;
use copilot_accounts::store::upsert_account;
use copilot_accounts::store::upsert_account_at;

fn new_store() -> CopilotStore {
    CopilotStore { index: CopilotAccountIndex::new(), records: Vec::new() }
}

#[test]
fn index_new_defaults() {
    let index = CopilotAccountIndex::new();
    assert_eq!(index.version, "1.0");
    assert!(index.accounts.is_empty());
    assert!(index.current_account_id.is_none());
}

#[test]
fn account_id_is_prefixed_md5_of_lowercased_username() {
    let id = account_id_for("Alice");
    assert_eq!(id, "copilot_6384e2b2184bcbf58eccf10ca7a6563c");
    assert_eq!(account_id_for("ALICE"), id);
    assert_eq!(account_id_for("alice"), id);
    assert_ne!(account_id_for("bob"), id);
}

#[test]
fn upsert_creates_fresh_account() {
    let mut store = new_store();
    let acc = upsert_account_at(
        &mut store,
        "Alice",
        String::from("tokenA"),
        Some(String::from("alice@example.com")),
        Some(String::from("pro")),
        Some(500),
        42,
    );
    assert_eq!(acc.id, "copilot_6384e2b2184bcbf58eccf10ca7a6563c");
    assert_eq!(acc.username, "Alice");
    assert_eq!(acc.token, "tokenA");
    assert_eq!(acc.email.as_deref(), Some("alice@example.com"));
    assert_eq!(acc.plan.as_deref(), Some("pro"));
    assert_eq!(acc.monthly_included_requests, Some(500));
    assert!(acc.quota.is_none());
    assert!(acc.tags.is_none());
    assert_eq!(acc.created_at, 42);
    assert_eq!(acc.last_used, 42);
    assert_eq!(store.index.accounts.len(), 1);
    assert_eq!(store.records.len(), 1);
    assert_eq!(store.index.accounts[0].username, "Alice");
}

#[test]
fn upsert_same_username_casing_yields_one_account() {
    let mut store = new_store();
    upsert_account(&mut store, "Alice", String::from("tokenA"), None, None, None);
    upsert_account(&mut store, "alice", String::from("tokenB"), None, None, None);
    let all = list_accounts(&store);
    assert_eq!(all.len(), 1);
    assert_eq!(all[0].username, "alice");
    assert_eq!(all[0].token, "tokenB");
    assert_eq!(store.index.accounts.len(), 1);
    assert_eq!(store.index.accounts[0].username, "alice");
}

#[test]
fn upsert_keeps_created_at_and_quota_on_reauthentication() {
    let mut store = new_store();
    upsert_account_at(&mut store, "Alice", String::from("tokenA"), None, None, None, 10);
    let acc = upsert_account_at(
        &mut store,
        "ALICE",
        String::from("tokenB"),
        Some(String::from("a@e.com")),
        None,
        None,
        20,
    );
    assert_eq!(acc.created_at, 10);
    assert_eq!(acc.last_used, 20);
    assert_eq!(acc.token, "tokenB");
    assert_eq!(acc.username, "ALICE");
    assert_eq!(store.index.accounts[0].created_at, 10);
    assert_eq!(store.index.accounts[0].last_used, 20);
}

#[test]
fn upsert_recreates_missing_record() {
    let mut store = new_store();
    let acc = upsert_account_at(&mut store, "Alice", String::from("tokenA"), None, None, None, 10);
    store.records.clear();
    let again = upsert_account_at(
        &mut store,
        "Alice",
        String::from("tokenB"),
        None,
        None,
        None,
        30,
    );
    assert_eq!(again.id, acc.id);
    assert_eq!(again.created_at, 30);
    assert_eq!(store.index.accounts.len(), 1);
    assert_eq!(list_accounts(&store).len(), 1);
}

#[test]
fn list_matches_index_after_each_operation() {
    let mut store = new_store();
    let a = upsert_account_at(&mut store, "Alice", String::from("ta"), None, None, None, 1);
    let b = upsert_account_at(&mut store, "Bob", String::from("tb"), None, None, None, 2);
    assert_eq!(list_accounts(&store).len(), store.index.accounts.len());
    switch_account_at(&mut store, a.id.as_str(), 3).unwrap();
    assert_eq!(list_accounts(&store).len(), store.index.accounts.len());
    update_account_tags(&mut store, b.id.as_str(), vec![String::from("work")]).unwrap();
    assert_eq!(list_accounts(&store).len(), store.index.accounts.len());
    remove_account(&mut store, a.id.as_str());
    assert_eq!(list_accounts(&store).len(), store.index.accounts.len());
    assert_eq!(store.index.accounts.len(), 1);
}

#[test]
fn list_skips_summaries_with_missing_records() {
    let mut store = new_store();
    upsert_account_at(&mut store, "Alice", String::from("ta"), None, None, None, 1);
    store.index.accounts.push(CopilotAccountSummary {
        id: String::from("copilot_0000"),
        username: String::from("ghost"),
        created_at: 5,
        last_used: 5,
    });
    assert_eq!(store.index.accounts.len(), 2);
    let all = list_accounts(&store);
    assert_eq!(all.len(), 1);
    assert_eq!(all[0].username, "Alice");
}

#[test]
fn switch_sets_current_and_refreshes_last_used() {
    let mut store = new_store();
    let a = upsert_account_at(&mut store, "Alice", String::from("ta"), None, None, None, 1);
    let b = upsert_account_at(&mut store, "Bob", String::from("tb"), None, None, None, 2);
    let switched = switch_account_at(&mut store, a.id.as_str(), 50).unwrap();
    assert_eq!(switched.id, a.id);
    assert_eq!(switched.last_used, 50);
    assert_eq!(store.index.current_account_id.as_deref(), Some(a.id.as_str()));
    let current = get_current_account(&store).unwrap();
    assert_eq!(current.id, a.id);
    assert_eq!(current.last_used, 50);
    // the prior current account's last_used is untouched
    let switched_b = switch_account_at(&mut store, b.id.as_str(), 60).unwrap();
    assert_eq!(switched_b.last_used, 60);
    let all = list_accounts(&store);
    let alice = all.iter().find(|x| x.id == a.id).unwrap();
    assert_eq!(alice.last_used, 50);
}

#[test]
fn switch_unknown_id_is_not_found() {
    let mut store = new_store();
    let r = switch_account_at(&mut store, "copilot_missing", 5);
    match r {
        Err(StoreError::NotFound { id }) => assert_eq!(id, "copilot_missing"),
        _ => panic!("expected a not-found error"),
    }
    assert!(get_current_account(&store).is_none());
}

#[test]
fn remove_current_account_clears_current() {
    let mut store = new_store();
    let a = upsert_account_at(&mut store, "Alice", String::from("ta"), None, None, None, 1);
    switch_account_at(&mut store, a.id.as_str(), 2).unwrap();
    assert!(get_current_account(&store).is_some());
    remove_account(&mut store, a.id.as_str());
    assert!(store.index.current_account_id.is_none());
    assert!(get_current_account(&store).is_none());
    assert_eq!(list_accounts(&store).len(), 0);
}

#[test]
fn remove_other_account_keeps_current() {
    let mut store = new_store();
    let a = upsert_account_at(&mut store, "Alice", String::from("ta"), None, None, None, 1);
    let b = upsert_account_at(&mut store, "Bob", String::from("tb"), None, None, None, 2);
    switch_account_at(&mut store, a.id.as_str(), 3).unwrap();
    remove_account(&mut store, b.id.as_str());
    assert_eq!(store.index.current_account_id.as_deref(), Some(a.id.as_str()));
    let all = list_accounts(&store);
    assert_eq!(all.len(), 1);
    assert_eq!(all[0].id, a.id);
}

#[test]
fn remove_accounts_removes_each_listed_id() {
    let mut store = new_store();
    let a = upsert_account_at(&mut store, "Alice", String::from("ta"), None, None, None, 1);
    let b = upsert_account_at(&mut store, "Bob", String::from("tb"), None, None, None, 2);
    upsert_account_at(&mut store, "Carol", String::from("tc"), None, None, None, 3);
    remove_accounts(&mut store, &vec![a.id.clone(), b.id.clone()]);
    let all = list_accounts(&store);
    assert_eq!(all.len(), 1);
    assert_eq!(all[0].username, "Carol");
}

#[test]
fn update_tags_fully_replaces_the_tag_set() {
    let mut store = new_store();
    let a = upsert_account_at(&mut store, "Alice", String::from("ta"), None, None, None, 1);
    let first = update_account_tags(
        &mut store,
        a.id.as_str(),
        vec![String::from("work"), String::from("eu")],
    )
    .unwrap();
    assert_eq!(first.tags.as_deref(), Some(&[String::from("work"), String::from("eu")][..]));
    let second = update_account_tags(&mut store, a.id.as_str(), vec![String::from("home")])
        .unwrap();
    assert_eq!(second.tags.as_deref(), Some(&[String::from("home")][..]));
    let all = list_accounts(&store);
    assert_eq!(all[0].tags.as_deref(), Some(&[String::from("home")][..]));
}

#[test]
fn update_tags_unknown_id_is_not_found() {
    let mut store = new_store();
    let r = update_account_tags(&mut store, "copilot_none", vec![String::from("x")]);
    assert!(matches!(r, Err(StoreError::NotFound { .. })));
}

#[test]
fn update_last_used_touches_nothing_else() {
    let mut acc = CopilotAccount::new(
        String::from("copilot_x"),
        String::from("Alice"),
        String::from("tok"),
        None,
        None,
        None,
        7,
    );
    acc.update_last_used(99);
    assert_eq!(acc.last_used, 99);
    assert_eq!(acc.created_at, 7);
    assert_eq!(acc.username, "Alice");
    assert_eq!(acc.token, "tok");
}
