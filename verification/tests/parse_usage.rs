use copilot_usage::{CopilotUsage, Double, QuotaSnapshot, QuotaUsage, UserResponse};
use serde_json::Value;

fn text(value: &Value) -> Option<String> {
    value.as_str().map(str::to_string)
}

fn number(value: &Value) -> Option<Double> {
    value.as_f64().map(|value| Double { bits: value.to_bits() })
}

fn flag(value: &Value) -> bool {
    value.as_bool().unwrap_or(false)
}

fn parse_usage(body: &[u8]) -> CopilotUsage {
    let parsed: Value = serde_json::from_slice(body).unwrap();
    let mut response =
        UserResponse::new(text(&parsed["copilot_plan"]), text(&parsed["quota_reset_date"]));
    for (id, snapshot) in parsed["quota_snapshots"].as_object().unwrap() {
        response.insert_quota(
            id.clone(),
            QuotaSnapshot {
                unlimited: flag(&snapshot["unlimited"]),
                entitlement: number(&snapshot["entitlement"]),
                remaining: number(&snapshot["remaining"]),
                overage_count: number(&snapshot["overage_count"]),
                overage_permitted: flag(&snapshot["overage_permitted"]),
            },
        );
    }
    response.into_usage()
}

#[test]
fn test_parse_metered_plan() {
    let usage = parse_usage(
        br#"{
            "copilot_plan": "individual",
            "quota_reset_date": "2025-02-15T00:00:00Z",
            "quota_snapshots": {
                "premium_interactions": {
                    "entitlement": 300,
                    "remaining": 240,
                    "percent_remaining": 80,
                    "overage_count": 0,
                    "overage_permitted": false,
                    "unlimited": false
                },
                "chat": { "entitlement": 1000, "remaining": 950, "unlimited": false }
            }
        }"#,
    );

    assert_eq!(usage.plan.as_deref(), Some("individual"));
    assert_eq!(usage.reset_date(), Some("2025-02-15"));
    assert_eq!(
        usage.premium_interactions,
        Some(QuotaUsage {
            used: 60,
            entitlement: 300,
            overage_count: 0,
            overage_permitted: false,
        })
    );
}

#[test]
fn test_parse_rounds_fractional_credits() {
    let usage = parse_usage(
        br#"{
            "quota_snapshots": {
                "premium_interactions": {
                    "entitlement": 300,
                    "remaining": 262.5,
                    "overage_count": 12.5,
                    "overage_permitted": true
                }
            }
        }"#,
    );

    assert_eq!(
        usage.premium_interactions,
        Some(QuotaUsage {
            used: 38,
            entitlement: 300,
            overage_count: 13,
            overage_permitted: true,
        })
    );
}

#[test]
fn test_parse_unlimited_and_free_plans() {
    // Explicit `unlimited` flag.
    let usage = parse_usage(
        br#"{"quota_snapshots": {"premium_interactions": {"unlimited": true, "entitlement": 0}}}"#,
    );
    assert_eq!(usage.premium_interactions, None);

    // Unlimited signalled via a negative entitlement.
    let usage = parse_usage(
        br#"{"quota_snapshots": {"premium_interactions": {"entitlement": -1, "remaining": -1}}}"#,
    );
    assert_eq!(usage.premium_interactions, None);

    // Free plans report `limited_user_quotas` and no premium bucket at all.
    let usage = parse_usage(
        br#"{"copilot_plan": "free", "limited_user_quotas": {"chat": 410}, "quota_snapshots": {}}"#,
    );
    assert_eq!(usage.plan.as_deref(), Some("free"));
    assert_eq!(usage.premium_interactions, None);
}

#[test]
fn test_parse_clamps_negative_remaining_during_overage() {
    let usage = parse_usage(
        br#"{"quota_snapshots": {"premium_interactions": {"entitlement": 300, "remaining": -20, "overage_count": 20}}}"#,
    );

    let premium_interactions = usage.premium_interactions.unwrap();
    assert_eq!(premium_interactions.used, 300);
    assert_eq!(premium_interactions.overage_count, 20);
}
