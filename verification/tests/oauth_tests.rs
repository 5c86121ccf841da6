use copilot_accounts::errors::StoreError;
use copilot_accounts::json::JsonValue;
use copilot_accounts::oauth::CopilotDeviceCode;
use copilot_accounts::oauth::DevicePollStatus;
use copilot_accounts::oauth::DeviceTokenResponse;
use copilot_accounts::oauth::check_client_id;
use copilot_accounts::oauth::classify_poll;
use copilot_accounts::oauth::parse_device_code_response;
use copilot_accounts::oauth::parse_device_token_response;
use copilot_accounts::oauth::parse_user_response;
use copilot_accounts::oauth::poll_result_of;
use copilot_accounts::oauth::resolve_client_id;
use copilot_accounts::oauth::to_device_code;

fn obj(entries: Vec<(&str, JsonValue)>) -> JsonValue {
    JsonValue::Object(entries.into_iter().map(|(k, v)| (String::from(k), v)).collect())
}

fn token_response(
    access_token: Option<&str>,
    error: Option<&str>,
    description: Option<&str>,
) -> DeviceTokenResponse {
    DeviceTokenResponse {
        access_token: access_token.map(String::from),
        token_type: None,
        scope: None,
        error: error.map(String::from),
        error_description: description.map(String::from),
    }
}

#[test]
fn poll_status_mapping_is_the_closed_table() {
    assert_eq!(
        classify_poll(&token_response(None, Some("authorization_pending"), None)),
        DevicePollStatus::Pending
    );
    assert_eq!(
        classify_poll(&token_response(None, Some("slow_down"), None)),
        DevicePollStatus::SlowDown
    );
    assert_eq!(
        classify_poll(&token_response(None, Some("expired_token"), None)),
        DevicePollStatus::Expired
    );
    assert_eq!(
        classify_poll(&token_response(None, Some("access_denied"), None)),
        DevicePollStatus::Denied
    );
    assert_eq!(
        classify_poll(&token_response(None, Some("some_new_code"), None)),
        DevicePollStatus::Unknown
    );
    assert_eq!(
        classify_poll(&token_response(Some("gho_abc"), None, None)),
        DevicePollStatus::Granted
    );
    // neither a token nor an error code: the defensive default is pending
    assert_eq!(classify_poll(&token_response(None, None, None)), DevicePollStatus::Pending);
}

#[test]
fn poll_result_prefers_the_description_and_falls_back_to_the_code() {
    let with_description = poll_result_of(token_response(
        None,
        Some("access_denied"),
        Some("The user denied the request."),
    ));
    assert_eq!(with_description.status, DevicePollStatus::Denied);
    assert_eq!(with_description.message.as_deref(), Some("The user denied the request."));
    assert!(with_description.account.is_none());

    let without_description = poll_result_of(token_response(None, Some("slow_down"), None));
    assert_eq!(without_description.message.as_deref(), Some("slow_down"));

    let granted = poll_result_of(token_response(Some("gho_abc"), None, None));
    assert_eq!(granted.status, DevicePollStatus::Granted);
    assert!(granted.message.is_none());
}

#[test]
fn poll_status_labels_match_the_caller_facing_strings() {
    assert_eq!(DevicePollStatus::Granted.as_status_str(), "success");
    assert_eq!(DevicePollStatus::Pending.as_status_str(), "pending");
    assert_eq!(DevicePollStatus::SlowDown.as_status_str(), "slow_down");
    assert_eq!(DevicePollStatus::Expired.as_status_str(), "expired");
    assert_eq!(DevicePollStatus::Denied.as_status_str(), "denied");
    assert_eq!(DevicePollStatus::Unknown.as_status_str(), "error");
}

#[test]
fn resolve_client_id_prefers_a_nonempty_trimmed_override() {
    assert_eq!(resolve_client_id(None), "Iv1.b507a08c87ecfe98");
    assert_eq!(resolve_client_id(Some(String::from("  my-app-id  "))), "my-app-id");
    assert_eq!(resolve_client_id(Some(String::from("   "))), "Iv1.b507a08c87ecfe98");
    assert_eq!(resolve_client_id(Some(String::from(""))), "Iv1.b507a08c87ecfe98");
}

#[test]
fn check_client_id_rejects_blank_ids() {
    assert!(matches!(check_client_id(""), Err(StoreError::ClientIdMissing)));
    assert!(matches!(check_client_id("  \t "), Err(StoreError::ClientIdMissing)));
    assert!(check_client_id("Iv1.b507a08c87ecfe98").is_ok());
}

fn device_code_payload() -> JsonValue {
    obj(vec![
        ("device_code", JsonValue::Str(String::from("dc-123"))),
        ("user_code", JsonValue::Str(String::from("ABCD-1234"))),
        ("verification_uri", JsonValue::Str(String::from("https://github.com/login/device"))),
        ("expires_in", JsonValue::Int(900)),
        ("interval", JsonValue::Int(5)),
    ])
}

#[test]
fn device_code_response_reads_all_fields() {
    let resp = parse_device_code_response(200, "body", &device_code_payload()).unwrap();
    assert_eq!(resp.device_code, "dc-123");
    assert_eq!(resp.user_code, "ABCD-1234");
    assert_eq!(resp.verification_uri, "https://github.com/login/device");
    assert_eq!(resp.expires_in, 900);
    assert_eq!(resp.interval, 5);
    assert!(resp.verification_uri_complete.is_none());
    let projected: CopilotDeviceCode = to_device_code(resp);
    assert_eq!(projected.device_code, "dc-123");
    assert_eq!(projected.interval, 5);
}

#[test]
fn device_code_response_missing_field_is_malformed() {
    let incomplete = obj(vec![
        ("device_code", JsonValue::Str(String::from("dc-123"))),
        ("verification_uri", JsonValue::Str(String::from("u"))),
    ]);
    match parse_device_code_response(200, "body", &incomplete) {
        Err(StoreError::MalformedResponse { field }) => assert_eq!(field, "user_code"),
        _ => panic!("expected a malformed-response error"),
    }
}

#[test]
fn device_code_response_non_success_status_is_a_provider_error() {
    match parse_device_code_response(400, "denied-body", &device_code_payload()) {
        Err(StoreError::ProviderError { status, body }) => {
            assert_eq!(status, 400);
            assert_eq!(body, "denied-body");
        },
        _ => panic!("expected a provider error"),
    }
}

#[test]
fn device_code_response_non_success_status_wins_over_an_incomplete_body() {
    // a real OAuth error body carries none of the device-code fields; the
    // status decides, not the missing fields
    let error_body = obj(vec![(
        "error",
        JsonValue::Str(String::from("unauthorized_client")),
    )]);
    match parse_device_code_response(400, "error-body", &error_body) {
        Err(StoreError::ProviderError { status, body }) => {
            assert_eq!(status, 400);
            assert_eq!(body, "error-body");
        },
        _ => panic!("expected a provider error"),
    }
}

#[test]
fn device_token_response_reads_the_optional_fields() {
    let body = obj(vec![
        ("access_token", JsonValue::Str(String::from("gho_abc"))),
        ("token_type", JsonValue::Str(String::from("bearer"))),
        ("scope", JsonValue::Str(String::from("read:user"))),
    ]);
    let resp = parse_device_token_response(200, "body", &body).unwrap();
    assert_eq!(resp.access_token.as_deref(), Some("gho_abc"));
    assert_eq!(resp.token_type.as_deref(), Some("bearer"));
    assert_eq!(resp.scope.as_deref(), Some("read:user"));
    assert!(resp.error.is_none());
    assert!(resp.error_description.is_none());

    match parse_device_token_response(503, "down", &body) {
        Err(StoreError::ProviderError { status, body }) => {
            assert_eq!(status, 503);
            assert_eq!(body, "down");
        },
        _ => panic!("expected a provider error"),
    }
}

#[test]
fn user_response_requires_the_login() {
    let body = obj(vec![
        ("login", JsonValue::Str(String::from("alice"))),
        ("email", JsonValue::Str(String::from("alice@example.com"))),
    ]);
    let (login, email) = parse_user_response(200, "body", &body).unwrap();
    assert_eq!(login, "alice");
    assert_eq!(email.as_deref(), Some("alice@example.com"));

    let no_login = obj(vec![("email", JsonValue::Str(String::from("a@e.com")))]);
    match parse_user_response(200, "body", &no_login) {
        Err(StoreError::MalformedResponse { field }) => assert_eq!(field, "login"),
        _ => panic!("expected a malformed-response error"),
    }

    match parse_user_response(401, "unauthorized", &body) {
        Err(StoreError::ProviderError { status, body }) => {
            assert_eq!(status, 401);
            assert_eq!(body, "unauthorized");
        },
        _ => panic!("expected a provider error"),
    }
}
