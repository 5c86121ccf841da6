//! The device flow client: client-id resolution, the two provider responses
//! of the OAuth device authorization grant, and the closed status mapping
//! for one poll. The transport performs the HTTP calls and hands in status,
//! raw body text and parsed body.
use vstd::prelude::*;

use crate::errors::StoreError;
use crate::ident::str_eq;
use crate::ident::trim_of;
use crate::ident::trim_string;
use crate::json::JsonValue;
use crate::json::spec_get_i64;
use crate::json::spec_get_str;
use crate::models::CopilotAccount;

verus! {

/// The provider's answer to a device-code request.
pub struct DeviceCodeResponse {
    pub device_code: String,
    pub user_code: String,
    pub verification_uri: String,
    pub expires_in: i64,
    pub interval: i64,
    pub verification_uri_complete: Option<String>,
}

/// The device-code fields handed to the caller driving the flow.
pub struct CopilotDeviceCode {
    pub device_code: String,
    pub user_code: String,
    pub verification_uri: String,
    pub verification_uri_complete: Option<String>,
    pub expires_in: i64,
    pub interval: i64,
}

/// The provider's answer to one token poll; every field is optional.
pub struct DeviceTokenResponse {
    pub access_token: Option<String>,
    pub token_type: Option<String>,
    pub scope: Option<String>,
    pub error: Option<String>,
    pub error_description: Option<String>,
}

/// The closed outcome of one token poll.
#[derive(Clone, Copy, Debug, PartialEq, Eq, Structural)]
pub enum DevicePollStatus {
    /// An access token is present; the caller proceeds to the account upsert.
    Granted,
    /// The user has not decided yet; keep polling.
    Pending,
    /// The provider asks for a longer poll interval.
    SlowDown,
    /// The device code expired before the user decided.
    Expired,
    /// The user denied the request.
    Denied,
    /// An unrecognized provider error code.
    Unknown,
}

/// What one poll reports to the caller.
pub struct CopilotDevicePollResult {
    pub status: DevicePollStatus,
    pub message: Option<String>,
    pub account: Option<CopilotAccount>,
}

/// The built-in OAuth client id, used when no override is supplied.
pub fn default_client_id() -> (r: &'static str)
    ensures
        r@ == "Iv1.b507a08c87ecfe98"@,
{
    "Iv1.b507a08c87ecfe98"
}

/// The one OAuth scope the flow requests.
pub fn default_device_scope() -> (r: &'static str)
    ensures
        r@ == "read:user"@,
{
    "read:user"
}

/// The resolved client id: a non-empty-after-trimming override wins,
/// otherwise the built-in default.
pub open spec fn spec_resolve_client_id(o: Option<Seq<char>>) -> Seq<char> {
    match o {
        Some(v) => if trim_of(v).len() != 0 {
            trim_of(v)
        } else {
            "Iv1.b507a08c87ecfe98"@
        },
        None => "Iv1.b507a08c87ecfe98"@,
    }
}

/// Resolves the OAuth client id from an optional override. The result is
/// never empty: a blank override falls back to the built-in default.
pub fn resolve_client_id(override_client_id: Option<String>) -> (r: String)
    ensures
        r@ == spec_resolve_client_id(override_client_id.deep_view()),
        r@.len() != 0,
{
    proof {
        reveal_strlit("Iv1.b507a08c87ecfe98");
    }
    match override_client_id {
        Some(value) => {
            let trimmed = trim_string(value.as_str());
            if !trimmed.as_str().is_empty() {
                return trimmed;
            }
            default_client_id().to_owned()
        },
        None => default_client_id().to_owned(),
    }
}

/// Rejects a client id that is empty after trimming.
pub fn check_client_id(client_id: &str) -> (r: Result<(), StoreError>)
    ensures
        (r is Ok) <==> trim_of(client_id@).len() != 0,
        (match r {
            Ok(u) => true,
            Err(e) => e is ClientIdMissing,
        }),
{
    let trimmed = trim_string(client_id);
    if trimmed.as_str().is_empty() {
        Err(StoreError::ClientIdMissing)
    } else {
        Ok(())
    }
}

/// The first field missing from a device-code payload, in the order the
/// payload is read.
pub open spec fn spec_device_code_missing(body: JsonValue) -> Seq<char> {
    if spec_get_str(body, "device_code"@) is None {
        "device_code"@
    } else if spec_get_str(body, "user_code"@) is None {
        "user_code"@
    } else if spec_get_str(body, "verification_uri"@) is None {
        "verification_uri"@
    } else if spec_get_i64(body, "expires_in"@) is None {
        "expires_in"@
    } else {
        "interval"@
    }
}

/// Every required device-code field is present.
pub open spec fn spec_device_code_complete(body: JsonValue) -> bool {
    &&& spec_get_str(body, "device_code"@) is Some
    &&& spec_get_str(body, "user_code"@) is Some
    &&& spec_get_str(body, "verification_uri"@) is Some
    &&& spec_get_i64(body, "expires_in"@) is Some
    &&& spec_get_i64(body, "interval"@) is Some
}

/// Reads the provider's device-code answer. A non-success status surfaces as
/// a provider error whatever the body holds; a successful answer missing a
/// required field fails naming that field.
pub fn parse_device_code_response(status: u16, body_text: &str, body: &JsonValue) -> (r: Result<
    DeviceCodeResponse,
    StoreError,
>)
    ensures
        (r is Ok) <==> (200 <= status < 300 && spec_device_code_complete(*body)),
        (match r {
            Ok(d) => {
                &&& Some(d.device_code@) == spec_get_str(*body, "device_code"@)
                &&& Some(d.user_code@) == spec_get_str(*body, "user_code"@)
                &&& Some(d.verification_uri@) == spec_get_str(*body, "verification_uri"@)
                &&& Some(d.expires_in) == spec_get_i64(*body, "expires_in"@)
                &&& Some(d.interval) == spec_get_i64(*body, "interval"@)
                &&& d.verification_uri_complete.deep_view() == spec_get_str(
                    *body,
                    "verification_uri_complete"@,
                )
            },
            Err(e) => if !(200 <= status < 300) {
                e matches StoreError::ProviderError { status: st, body: b } && st == status && b@
                    == body_text@
            } else {
                e matches StoreError::MalformedResponse { field } && field@
                    == spec_device_code_missing(*body)
            },
        }),
{
    if !(status >= 200 && status < 300) {
        return Err(StoreError::ProviderError { status, body: body_text.to_owned() });
    }
    let device_code = (match body.get_string("device_code") {
        Some(v) => v,
        None => {
            return Err(StoreError::MalformedResponse { field: String::from_str("device_code") });
        },
    });
    let user_code = (match body.get_string("user_code") {
        Some(v) => v,
        None => {
            return Err(StoreError::MalformedResponse { field: String::from_str("user_code") });
        },
    });
    let verification_uri = (match body.get_string("verification_uri") {
        Some(v) => v,
        None => {
            return Err(
                StoreError::MalformedResponse { field: String::from_str("verification_uri") },
            );
        },
    });
    let expires_in = (match body.get_i64("expires_in") {
        Some(v) => v,
        None => {
            return Err(StoreError::MalformedResponse { field: String::from_str("expires_in") });
        },
    });
    let interval = (match body.get_i64("interval") {
        Some(v) => v,
        None => {
            return Err(StoreError::MalformedResponse { field: String::from_str("interval") });
        },
    });
    let verification_uri_complete = body.get_string("verification_uri_complete");
    Ok(
        DeviceCodeResponse {
            device_code,
            user_code,
            verification_uri,
            expires_in,
            interval,
            verification_uri_complete,
        },
    )
}

/// Projects a device-code answer onto the caller-facing shape.
pub fn to_device_code(resp: DeviceCodeResponse) -> (r: CopilotDeviceCode)
    ensures
        r.device_code@ == resp.device_code@,
        r.user_code@ == resp.user_code@,
        r.verification_uri@ == resp.verification_uri@,
        r.verification_uri_complete.deep_view() == resp.verification_uri_complete.deep_view(),
        r.expires_in == resp.expires_in,
        r.interval == resp.interval,
{
    CopilotDeviceCode {
        device_code: resp.device_code,
        user_code: resp.user_code,
        verification_uri: resp.verification_uri,
        verification_uri_complete: resp.verification_uri_complete,
        expires_in: resp.expires_in,
        interval: resp.interval,
    }
}

/// Reads the provider's token-poll answer; every field is optional, so only
/// a non-success status fails.
pub fn parse_device_token_response(status: u16, body_text: &str, body: &JsonValue) -> (r: Result<
    DeviceTokenResponse,
    StoreError,
>)
    ensures
        (r is Ok) <==> 200 <= status < 300,
        (match r {
            Ok(t) => {
                &&& t.access_token.deep_view() == spec_get_str(*body, "access_token"@)
                &&& t.token_type.deep_view() == spec_get_str(*body, "token_type"@)
                &&& t.scope.deep_view() == spec_get_str(*body, "scope"@)
                &&& t.error.deep_view() == spec_get_str(*body, "error"@)
                &&& t.error_description.deep_view() == spec_get_str(*body, "error_description"@)
            },
            Err(e) => e matches StoreError::ProviderError { status: st, body: b } && st == status
                && b@ == body_text@,
        }),
{
    if !(status >= 200 && status < 300) {
        return Err(StoreError::ProviderError { status, body: body_text.to_owned() });
    }
    Ok(
        DeviceTokenResponse {
            access_token: body.get_string("access_token"),
            token_type: body.get_string("token_type"),
            scope: body.get_string("scope"),
            error: body.get_string("error"),
            error_description: body.get_string("error_description"),
        },
    )
}

/// The closed status one poll maps to: a present token is granted; a known
/// error code maps to its status; an unrecognized code is unknown; and a
/// response with neither token nor error defaults to pending.
pub open spec fn spec_classify(
    access_token: Option<Seq<char>>,
    error: Option<Seq<char>>,
) -> DevicePollStatus {
    match access_token {
        Some(t) => DevicePollStatus::Granted,
        None => match error {
            Some(e) => if e == "authorization_pending"@ {
                DevicePollStatus::Pending
            } else if e == "slow_down"@ {
                DevicePollStatus::SlowDown
            } else if e == "expired_token"@ {
                DevicePollStatus::Expired
            } else if e == "access_denied"@ {
                DevicePollStatus::Denied
            } else {
                DevicePollStatus::Unknown
            },
            None => DevicePollStatus::Pending,
        },
    }
}

/// The message one poll reports: the provider's description when present,
/// else the raw error code, and nothing when granted or ambiguous.
pub open spec fn spec_poll_message(
    access_token: Option<Seq<char>>,
    error: Option<Seq<char>>,
    description: Option<Seq<char>>,
) -> Option<Seq<char>> {
    match access_token {
        Some(t) => None,
        None => match error {
            Some(e) => (match description {
                Some(d) => Some(d),
                None => Some(e),
            }),
            None => None,
        },
    }
}

/// Classifies one poll answer into the closed status.
pub fn classify_poll(resp: &DeviceTokenResponse) -> (r: DevicePollStatus)
    ensures
        r == spec_classify(resp.access_token.deep_view(), resp.error.deep_view()),
{
    match &resp.access_token {
        Some(t) => DevicePollStatus::Granted,
        None => match &resp.error {
            Some(e) => {
                if str_eq(e.as_str(), "authorization_pending") {
                    DevicePollStatus::Pending
                } else if str_eq(e.as_str(), "slow_down") {
                    DevicePollStatus::SlowDown
                } else if str_eq(e.as_str(), "expired_token") {
                    DevicePollStatus::Expired
                } else if str_eq(e.as_str(), "access_denied") {
                    DevicePollStatus::Denied
                } else {
                    DevicePollStatus::Unknown
                }
            },
            None => DevicePollStatus::Pending,
        },
    }
}

impl DevicePollStatus {
    /// The status label the caller-facing layer shows.
    pub fn as_status_str(&self) -> (r: &'static str)
        ensures
            r@ == (match self {
                DevicePollStatus::Granted => "success"@,
                DevicePollStatus::Pending => "pending"@,
                DevicePollStatus::SlowDown => "slow_down"@,
                DevicePollStatus::Expired => "expired"@,
                DevicePollStatus::Denied => "denied"@,
                DevicePollStatus::Unknown => "error"@,
            }),
    {
        match self {
            DevicePollStatus::Granted => "success",
            DevicePollStatus::Pending => "pending",
            DevicePollStatus::SlowDown => "slow_down",
            DevicePollStatus::Expired => "expired",
            DevicePollStatus::Denied => "denied",
            DevicePollStatus::Unknown => "error",
        }
    }
}

/// Turns one poll answer into the caller-facing result. The account field
/// stays empty: on a granted poll the caller performs the upsert and fills
/// it in.
pub fn poll_result_of(resp: DeviceTokenResponse) -> (r: CopilotDevicePollResult)
    ensures
        r.status == spec_classify(resp.access_token.deep_view(), resp.error.deep_view()),
        r.message.deep_view() == spec_poll_message(
            resp.access_token.deep_view(),
            resp.error.deep_view(),
            resp.error_description.deep_view(),
        ),
        r.account is None,
{
    let status = classify_poll(&resp);
    let message = (match &resp.access_token {
        Some(t) => None,
        None => match resp.error {
            Some(e) => (match resp.error_description {
                Some(d) => Some(d),
                None => Some(e),
            }),
            None => None,
        },
    });
    CopilotDevicePollResult { status, message, account: None }
}

/// Reads the provider's answer about the authenticated user: the login is
/// required, the email optional. Here a non-success status fails first.
pub fn parse_user_response(status: u16, body_text: &str, body: &JsonValue) -> (r: Result<
    (String, Option<String>),
    StoreError,
>)
    ensures
        (r is Ok) <==> (200 <= status < 300 && spec_get_str(*body, "login"@) is Some),
        (match r {
            Ok(p) => Some(p.0@) == spec_get_str(*body, "login"@) && p.1.deep_view()
                == spec_get_str(*body, "email"@),
            Err(e) => if !(200 <= status < 300) {
                e matches StoreError::ProviderError { status: st, body: b } && st == status && b@
                    == body_text@
            } else {
                e matches StoreError::MalformedResponse { field } && field@ == "login"@
            },
        }),
{
    if !(status >= 200 && status < 300) {
        return Err(StoreError::ProviderError { status, body: body_text.to_owned() });
    }
    let login = (match body.get_string("login") {
        Some(v) => v,
        None => {
            return Err(StoreError::MalformedResponse { field: String::from_str("login") });
        },
    });
    let email = body.get_string("email");
    Ok((login, email))
}

} // verus!
