use copilot_accounts::errors::StoreError;
use copilot_accounts::json::JsonValue;
use copilot_accounts::models::CopilotAccountIndex;
use copilot_accounts::models::CopilotQuota;
use copilot_accounts::quota::evaluate_usage_response;
use copilot_accounts::quota::parse_premium_interactions;
use copilot_accounts::quota::quota_fetch_inputs;
use copilot_accounts::store::CopilotStore;
use copilot_accounts::store::apply_refresh_outcomes;
use copilot_accounts::store::list_accounts;
use copilot_accounts::store::store_account_quota;
use copilot_accounts::store::upsert_account_at;

fn obj(entries: Vec<(&str, JsonValue)>) -> JsonValue {
    JsonValue::Object(entries.into_iter().map(|(k, v)| (String::from(k), v)).collect())
}

fn usage_payload(entitlement: i64, remaining: i64) -> JsonValue {
    obj(vec![
        (
            "quota_snapshots",
            obj(vec![(
                "premium_interactions",
                obj(vec![
                    ("entitlement", JsonValue::Int(entitlement)),
                    ("remaining", JsonValue::Int(remaining)),
                ]),
            )]),
        ),
        ("copilot_plan", JsonValue::Str(String::from("pro"))),
        ("quota_reset_date", JsonValue::Str(String::from("2025-02-01"))),
    ])
}

fn ok_quota(payload: &JsonValue, included_override: Option<i64>) -> CopilotQuota {
    evaluate_usage_response(200, "raw-body", payload, included_override).unwrap()
}

#[test]
fn quota_derivation_from_entitlement_and_remaining() {
    let q = ok_quota(&usage_payload(300, 120), None);
    assert_eq!(q.used_requests, 180);
    assert_eq!(q.remaining_requests, Some(120));
    assert_eq!(q.included_requests, Some(300));
    assert_eq!(q.copilot_plan.as_deref(), Some("pro"));
    assert_eq!(q.quota_reset_date.as_deref(), Some("2025-02-01"));
    assert_eq!(q.usage_items_count, 0);
    assert_eq!(q.raw_data.as_deref(), Some("raw-body"));
}

#[test]
fn quota_negative_remaining_clamps_to_zero() {
    let q = ok_quota(&usage_payload(300, -5), None);
    assert_eq!(q.remaining_requests, Some(0));
    assert_eq!(q.used_requests, 305);
}

#[test]
fn quota_used_never_negative() {
    let q = ok_quota(&usage_payload(100, 250), None);
    assert_eq!(q.used_requests, 0);
    assert_eq!(q.remaining_requests, Some(250));
}

#[test]
fn quota_override_wins_over_entitlement() {
    let q = ok_quota(&usage_payload(300, 120), Some(1000));
    assert_eq!(q.included_requests, Some(1000));
    assert_eq!(q.used_requests, 180);
}

#[test]
fn quota_missing_fields_are_hard_failures() {
    let no_snapshots = obj(vec![("copilot_plan", JsonValue::Str(String::from("pro")))]);
    match parse_premium_interactions(&no_snapshots) {
        Err(StoreError::MalformedResponse { field }) => assert_eq!(field, "quota_snapshots"),
        _ => panic!("expected a malformed-response error"),
    }

    let no_premium = obj(vec![("quota_snapshots", obj(vec![]))]);
    match parse_premium_interactions(&no_premium) {
        Err(StoreError::MalformedResponse { field }) => {
            assert_eq!(field, "premium_interactions")
        },
        _ => panic!("expected a malformed-response error"),
    }

    let no_entitlement = obj(vec![(
        "quota_snapshots",
        obj(vec![("premium_interactions", obj(vec![("remaining", JsonValue::Int(1))]))]),
    )]);
    match parse_premium_interactions(&no_entitlement) {
        Err(StoreError::MalformedResponse { field }) => assert_eq!(field, "entitlement"),
        _ => panic!("expected a malformed-response error"),
    }

    let no_remaining = obj(vec![(
        "quota_snapshots",
        obj(vec![("premium_interactions", obj(vec![("entitlement", JsonValue::Int(3))]))]),
    )]);
    match parse_premium_interactions(&no_remaining) {
        Err(StoreError::MalformedResponse { field }) => assert_eq!(field, "remaining"),
        _ => panic!("expected a malformed-response error"),
    }

    // a non-integral number is treated as absent
    let float_remaining = obj(vec![(
        "quota_snapshots",
        obj(vec![(
            "premium_interactions",
            obj(vec![
                ("entitlement", JsonValue::Int(3)),
                ("remaining", JsonValue::Other),
            ]),
        )]),
    )]);
    assert!(matches!(
        parse_premium_interactions(&float_remaining),
        Err(StoreError::MalformedResponse { .. })
    ));
}

#[test]
fn quota_permission_integration_on_the_distinguished_403() {
    let body = obj(vec![(
        "message",
        JsonValue::Str(String::from("Resource not accessible by integration")),
    )]);
    let r = evaluate_usage_response(403, "ignored", &body, None);
    assert!(matches!(r, Err(StoreError::PermissionIntegration)));

    let other = obj(vec![("message", JsonValue::Str(String::from("Forbidden")))]);
    match evaluate_usage_response(403, "forbidden-body", &other, None) {
        Err(StoreError::ProviderError { status, body }) => {
            assert_eq!(status, 403);
            assert_eq!(body, "forbidden-body");
        },
        _ => panic!("expected a provider error"),
    }
}

#[test]
fn quota_provider_error_on_other_statuses() {
    let payload = usage_payload(300, 120);
    match evaluate_usage_response(500, "oops", &payload, None) {
        Err(StoreError::ProviderError { status, body }) => {
            assert_eq!(status, 500);
            assert_eq!(body, "oops");
        },
        _ => panic!("expected a provider error"),
    }
}

#[test]
fn store_account_quota_attaches_snapshot() {
    let mut store = CopilotStore { index: CopilotAccountIndex::new(), records: Vec::new() };
    let a = upsert_account_at(&mut store, "Alice", String::from("ta"), None, None, None, 1);
    let q = ok_quota(&usage_payload(300, 120), None);
    store_account_quota(&mut store, a.id.as_str(), q).unwrap();
    let all = list_accounts(&store);
    let stored = all[0].quota.as_ref().unwrap();
    assert_eq!(stored.used_requests, 180);
    let missing = store_account_quota(
        &mut store,
        "copilot_none",
        ok_quota(&usage_payload(1, 1), None),
    );
    assert!(matches!(missing, Err(StoreError::NotFound { .. })));
}

#[test]
fn quota_fetch_inputs_hand_back_token_and_override() {
    let mut store = CopilotStore { index: CopilotAccountIndex::new(), records: Vec::new() };
    let a = upsert_account_at(
        &mut store,
        "Alice",
        String::from("secret-token"),
        None,
        None,
        Some(750),
        1,
    );
    let (token, over) = quota_fetch_inputs(&store, a.id.as_str()).unwrap();
    assert_eq!(token, "secret-token");
    assert_eq!(over, Some(750));
    assert!(matches!(
        quota_fetch_inputs(&store, "copilot_none"),
        Err(StoreError::NotFound { .. })
    ));
}

#[test]
fn refresh_batch_isolates_the_failing_account() {
    let mut store = CopilotStore { index: CopilotAccountIndex::new(), records: Vec::new() };
    let a = upsert_account_at(&mut store, "Alice", String::from("ta"), None, None, None, 1);
    let b = upsert_account_at(&mut store, "Bob", String::from("bad"), None, None, None, 2);
    let c = upsert_account_at(&mut store, "Carol", String::from("tc"), None, None, None, 3);
    let ids = vec![a.id.clone(), b.id.clone(), c.id.clone()];
    let outcomes: Vec<Result<CopilotQuota, StoreError>> = vec![
        Ok(ok_quota(&usage_payload(300, 120), None)),
        Err(StoreError::ProviderError { status: 401, body: String::from("bad token") }),
        Ok(ok_quota(&usage_payload(300, 250), None)),
    ];
    let results = apply_refresh_outcomes(&mut store, &ids, outcomes);
    assert_eq!(results.len(), 3);
    assert_eq!(results[0].0, a.id);
    assert!(results[0].1.is_ok());
    assert_eq!(results[1].0, b.id);
    assert!(results[1].1.is_err());
    assert_eq!(results[2].0, c.id);
    assert!(results[2].1.is_ok());
    let all = list_accounts(&store);
    let alice = all.iter().find(|x| x.id == a.id).unwrap();
    let bob = all.iter().find(|x| x.id == b.id).unwrap();
    let carol = all.iter().find(|x| x.id == c.id).unwrap();
    assert_eq!(alice.quota.as_ref().unwrap().used_requests, 180);
    assert!(bob.quota.is_none());
    assert_eq!(carol.quota.as_ref().unwrap().used_requests, 50);
}

#[test]
fn json_lookup_takes_the_first_match_and_ignores_non_objects() {
    let doc = obj(vec![
        ("k", JsonValue::Int(1)),
        ("k", JsonValue::Int(2)),
    ]);
    assert_eq!(doc.get_i64("k"), Some(1));
    assert_eq!(doc.get_i64("missing"), None);
    assert_eq!(JsonValue::Null.get_i64("k"), None);
    assert_eq!(JsonValue::Int(3).get_i64("k"), None);
}
