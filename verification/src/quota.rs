//! The quota synchronizer: normalizing the provider's usage payload into a
//! quota snapshot, and the store-facing halves of the refresh operations.
//!
//! The transport hands in the HTTP status, the raw body text and the parsed
//! body; everything from there on is verified.
use vstd::prelude::*;

use crate::errors::StoreError;
use crate::json::JsonValue;
use crate::json::spec_get_i64;
use crate::json::spec_get_object;
use crate::json::spec_get_str;
use crate::models::CopilotQuota;
use crate::models::QuotaView;
use crate::store::CopilotStore;
use crate::store::lookup;

verus! {

/// The nested `quota_snapshots.premium_interactions` object, if present.
pub open spec fn spec_premium(raw: JsonValue) -> Option<JsonValue> {
    match spec_get_object(raw, "quota_snapshots"@) {
        Some(s) => spec_get_object(s, "premium_interactions"@),
        None => None,
    }
}

/// The entitlement reported for premium interactions, if present.
pub open spec fn spec_entitlement(raw: JsonValue) -> Option<i64> {
    match spec_premium(raw) {
        Some(p) => spec_get_i64(p, "entitlement"@),
        None => None,
    }
}

/// The remaining count reported for premium interactions, if present.
pub open spec fn spec_remaining(raw: JsonValue) -> Option<i64> {
    match spec_premium(raw) {
        Some(p) => spec_get_i64(p, "remaining"@),
        None => None,
    }
}

/// The top-level plan name, if present.
pub open spec fn spec_plan(raw: JsonValue) -> Option<Seq<char>> {
    spec_get_str(raw, "copilot_plan"@)
}

/// The top-level quota reset date, if present.
pub open spec fn spec_reset_date(raw: JsonValue) -> Option<Seq<char>> {
    spec_get_str(raw, "quota_reset_date"@)
}

/// The first required field missing from the usage payload, in the order the
/// payload is read.
pub open spec fn spec_missing_field(raw: JsonValue) -> Seq<char> {
    if spec_get_object(raw, "quota_snapshots"@) is None {
        "quota_snapshots"@
    } else if spec_premium(raw) is None {
        "premium_interactions"@
    } else if spec_entitlement(raw) is None {
        "entitlement"@
    } else {
        "remaining"@
    }
}

/// Usage derived from the payload: `max(0, entitlement - remaining)`,
/// saturating at the machine bound.
pub open spec fn spec_used(entitlement: i64, remaining: i64) -> i64 {
    let d = entitlement as int - remaining as int;
    if d <= 0 {
        0i64
    } else if d > i64::MAX as int {
        i64::MAX
    } else {
        d as i64
    }
}

/// A count clamped to be non-negative.
pub open spec fn spec_max0(v: i64) -> i64 {
    if v < 0 {
        0i64
    } else {
        v
    }
}

/// Extracts `quota_snapshots.premium_interactions.{entitlement, remaining}`
/// plus the top-level plan and reset date. A missing required numeric field
/// is a hard failure naming the field, never a zero-fill.
pub fn parse_premium_interactions(raw: &JsonValue) -> (r: Result<
    (i64, i64, Option<String>, Option<String>),
    StoreError,
>)
    ensures
        (r is Ok) <==> (spec_entitlement(*raw) is Some && spec_remaining(*raw) is Some),
        (match r {
            Ok(p) => spec_entitlement(*raw) == Some(p.0) && spec_remaining(*raw) == Some(p.1)
                && p.2.deep_view() == spec_plan(*raw) && p.3.deep_view() == spec_reset_date(*raw),
            Err(e) => e matches StoreError::MalformedResponse { field } && field@
                == spec_missing_field(*raw),
        }),
{
    let snapshots = (match raw.get_object("quota_snapshots") {
        Some(s) => s,
        None => {
            return Err(
                StoreError::MalformedResponse { field: String::from_str("quota_snapshots") },
            );
        },
    });
    let premium = (match snapshots.get_object("premium_interactions") {
        Some(p) => p,
        None => {
            return Err(
                StoreError::MalformedResponse { field: String::from_str("premium_interactions") },
            );
        },
    });
    let entitlement = (match premium.get_i64("entitlement") {
        Some(v) => v,
        None => {
            return Err(StoreError::MalformedResponse { field: String::from_str("entitlement") });
        },
    });
    let remaining = (match premium.get_i64("remaining") {
        Some(v) => v,
        None => {
            return Err(StoreError::MalformedResponse { field: String::from_str("remaining") });
        },
    });
    let plan = raw.get_string("copilot_plan");
    let reset_date = raw.get_string("quota_reset_date");
    Ok((entitlement, remaining, plan, reset_date))
}

/// Normalizes one usage response. Non-success statuses surface as errors —
/// with the distinguished integration-permission kind on the specific 403
/// body message — and a success status yields the derived quota snapshot
/// with the payload retained verbatim.
pub fn evaluate_usage_response(
    status: u16,
    body_text: &str,
    body: &JsonValue,
    included_override: Option<i64>,
) -> (r: Result<CopilotQuota, StoreError>)
    ensures
        (r is Ok) <==> (200 <= status < 300 && spec_entitlement(*body) is Some && spec_remaining(
            *body,
        ) is Some),
        !(200 <= status < 300) ==> (match r {
            Err(e) => if status == 403 && spec_get_str(*body, "message"@) == Some(
                "Resource not accessible by integration"@,
            ) {
                e is PermissionIntegration
            } else {
                e matches StoreError::ProviderError { status: st, body: b } && st == status && b@
                    == body_text@
            },
            Ok(q) => false,
        }),
        (200 <= status < 300) ==> (match r {
            Ok(q) => spec_entitlement(*body) matches Some(ent) && spec_remaining(*body) matches
            Some(rem) && q@ == (QuotaView {
                used_requests: spec_used(ent, rem),
                included_requests: (match included_override {
                    Some(v) => Some(v),
                    None => Some(ent),
                }),
                remaining_requests: Some(spec_max0(rem)),
                usage_items_count: 0,
                copilot_plan: spec_plan(*body),
                quota_reset_date: spec_reset_date(*body),
                raw_data: Some(body_text@),
            }),
            Err(e) => e matches StoreError::MalformedResponse { field } && field@
                == spec_missing_field(*body),
        }),
{
    if !(status >= 200 && status < 300) {
        if status == 403 {
            let integration = (match body.get_string("message") {
                Some(m) => crate::ident::str_eq(
                    m.as_str(),
                    "Resource not accessible by integration",
                ),
                None => false,
            });
            if integration {
                return Err(StoreError::PermissionIntegration);
            }
        }
        return Err(StoreError::ProviderError { status, body: body_text.to_owned() });
    }
    let parsed = parse_premium_interactions(body);
    match parsed {
        Ok(p) => {
            let (entitlement, remaining, plan, reset_date) = p;
            let diff: i128 = entitlement as i128 - remaining as i128;
            let used: i64 = if diff <= 0 {
                0
            } else if diff > i64::MAX as i128 {
                i64::MAX
            } else {
                diff as i64
            };
            let included = (match included_override {
                Some(v) => Some(v),
                None => Some(entitlement),
            });
            let clamped_remaining: i64 = if remaining < 0 {
                0
            } else {
                remaining
            };
            Ok(
                CopilotQuota {
                    used_requests: used,
                    included_requests: included,
                    remaining_requests: Some(clamped_remaining),
                    usage_items_count: 0,
                    copilot_plan: plan,
                    quota_reset_date: reset_date,
                    raw_data: Some(body_text.to_owned()),
                },
            )
        },
        Err(e) => Err(e),
    }
}

/// What a quota refresh for `account_id` must send: the account's token and
/// its stored monthly override. Fails with the not-found kind when the id
/// does not resolve.
pub fn quota_fetch_inputs(store: &CopilotStore, account_id: &str) -> (r: Result<
    (String, Option<i64>),
    StoreError,
>)
    ensures
        (match lookup(store@.records, account_id@) {
            Some(acc) => r matches Ok(p) && p.0@ == acc.token && p.1
                == acc.monthly_included_requests,
            None => r matches Err(e) && (e matches StoreError::NotFound { id } && id@
                == account_id@),
        }),
{
    let found = crate::store::find_record(&store.records, account_id);
    match found {
        Some(i) => {
            proof {
                assert(store.records.deep_view()[i as int] == store.records@[i as int]@);
            }
            Ok((store.records[i].token.clone(), store.records[i].monthly_included_requests))
        },
        None => Err(StoreError::NotFound { id: account_id.to_owned() }),
    }
}

} // verus!
