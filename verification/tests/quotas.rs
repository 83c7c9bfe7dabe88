use copilot_usage::{CopilotUsage, Double, QuotaSnapshot, QuotaUsage, UserResponse};

fn double(value: f64) -> Double {
    Double { bits: value.to_bits() }
}

fn snapshot(entitlement: f64, remaining: Option<f64>) -> QuotaSnapshot {
    QuotaSnapshot {
        unlimited: false,
        entitlement: Some(double(entitlement)),
        remaining: remaining.map(double),
        overage_count: None,
        overage_permitted: false,
    }
}

/// The usage of a quota, computed in the machine's own double precision.
fn reference(
    entitlement: f64,
    remaining: Option<f64>,
    overage_count: Option<f64>,
) -> Option<QuotaUsage> {
    if entitlement <= 0.0 || entitlement == -1.0 {
        return None;
    }
    let remaining = remaining.unwrap_or(entitlement).clamp(0.0, entitlement);
    Some(QuotaUsage {
        used: (entitlement - remaining).round() as u32,
        entitlement: entitlement.round() as u32,
        overage_count: overage_count.unwrap_or(0.0).max(0.0).round() as u32,
        overage_permitted: true,
    })
}

fn agree(entitlement: f64, remaining: Option<f64>, overage_count: Option<f64>) {
    let computed = QuotaSnapshot {
        unlimited: false,
        entitlement: Some(double(entitlement)),
        remaining: remaining.map(double),
        overage_count: overage_count.map(double),
        overage_permitted: true,
    }
    .into_usage();
    assert_eq!(
        computed,
        reference(entitlement, remaining, overage_count),
        "{entitlement:e} {remaining:?} {overage_count:?}"
    );
}

fn next(state: &mut u64) -> u64 {
    *state ^= *state << 13;
    *state ^= *state >> 7;
    *state ^= *state << 17;
    *state
}

#[test]
fn counts_agree_with_machine_arithmetic_on_chosen_numbers() {
    let chosen = [
        0.0,
        -0.0,
        f64::from_bits(1),
        f64::MIN_POSITIVE,
        0.1,
        0.3,
        0.49999999999999994,
        0.5,
        0.5000000000000001,
        0.75,
        1.0,
        1.4999999999999998,
        1.5,
        2.5,
        299.5,
        299.9999999999999,
        300.0,
        300.00000000000006,
        4294967294.5,
        4294967295.0,
        4294967295.4999995,
        4294967295.5,
        4294967296.0,
        4503599627370495.5,
        4503599627370496.0,
        4503599627370497.0,
        9007199254740991.0,
        9007199254740992.0,
        18014398509481984.0,
        18014398509481988.0,
        36028797018963968.0,
        1e17,
        1e300,
        f64::MAX,
        f64::INFINITY,
    ];
    for &entitlement in &chosen {
        for sign in [1.0, -1.0] {
            agree(sign * entitlement, None, Some(sign * entitlement));
            for &remaining in &chosen {
                agree(entitlement, Some(sign * remaining), Some(sign * remaining));
            }
        }
        agree(entitlement, Some(f64::NAN), Some(f64::NAN));
    }
}

#[test]
fn counts_agree_with_machine_arithmetic_on_any_pattern() {
    let mut state: u64 = 0x9e37_79b9_7f4a_7c15;
    for _ in 0..200_000 {
        let entitlement = f64::from_bits(next(&mut state));
        if entitlement.is_nan() {
            continue;
        }
        let remaining = f64::from_bits(next(&mut state));
        let overage_count = f64::from_bits(next(&mut state));
        agree(entitlement, Some(remaining), Some(overage_count));
    }
}

#[test]
fn counts_agree_with_machine_arithmetic_near_real_quotas() {
    let mut state: u64 = 0x2545_f491_4f6c_dd1d;
    for _ in 0..200_000 {
        // Exponents from about 2^-64 to 2^64, and any fraction.
        let near = |bits: u64| f64::from_bits((bits >> 12) | ((959 + (bits & 127)) << 52));
        let entitlement = near(next(&mut state));
        let remaining = near(next(&mut state));
        agree(entitlement, Some(remaining), Some(remaining));
        // Halves and their neighbours.
        let half = (entitlement.min(4e9)).floor() + 0.5;
        for bits in [half.to_bits() - 1, half.to_bits(), half.to_bits() + 1] {
            agree(half, Some(f64::from_bits(bits)), None);
            agree(f64::from_bits(bits), Some(remaining), Some(f64::from_bits(bits)));
            agree(entitlement, Some(f64::from_bits(bits)), None);
        }
    }
}

#[test]
fn rounding_of_the_difference_comes_before_rounding_to_credits() {
    // The exact difference is below 299.5; in double precision it is 299.5.
    let usage = snapshot(300.0, Some(0.5000000000000001)).into_usage().unwrap();
    assert_eq!(usage.used, 300);
    let usage = snapshot(300.0, Some(0.5000000000001)).into_usage().unwrap();
    assert_eq!(usage.used, 299);
}

#[test]
fn quotas_without_entitlement_are_unmetered() {
    let mut missing = snapshot(300.0, None);
    missing.entitlement = None;
    assert_eq!(missing.into_usage(), None);

    let mut unlimited = snapshot(300.0, Some(200.0));
    unlimited.unlimited = true;
    assert_eq!(unlimited.into_usage(), None);

    for entitlement in [0.0, -0.0, -0.5, -1.0, -300.0, f64::NEG_INFINITY] {
        assert_eq!(snapshot(entitlement, Some(1.0)).into_usage(), None);
    }

    // An entitlement that is not a number is not looked at beside the flag.
    let mut flagged = snapshot(f64::NAN, None);
    flagged.unlimited = true;
    assert_eq!(flagged.into_usage(), None);
}

#[test]
fn small_entitlements_are_metered() {
    let usage = snapshot(0.25, None).into_usage().unwrap();
    assert_eq!((usage.used, usage.entitlement), (0, 0));
}

#[test]
fn whole_credits_are_counted_exactly() {
    for entitled in [1u32, 2, 50, 300, 1500, u32::MAX] {
        for left in [0, 1, entitled / 3, entitled / 2, entitled - 1, entitled] {
            let usage = snapshot(entitled as f64, Some(left as f64)).into_usage().unwrap();
            assert_eq!(usage.used, entitled - left);
            assert_eq!(usage.entitlement, entitled);
        }
    }
}

#[test]
fn exhausted_quotas_are_fully_used() {
    for remaining in [0.0, -0.0, -20.0, -1e300, f64::NEG_INFINITY] {
        let usage = snapshot(300.4, Some(remaining)).into_usage().unwrap();
        assert_eq!(usage.used, usage.entitlement);
        assert_eq!(usage.used, 300);
    }
}

#[test]
fn untouched_quotas_are_unused() {
    for remaining in [None, Some(300.0), Some(301.0), Some(f64::INFINITY)] {
        assert_eq!(snapshot(300.0, remaining).into_usage().unwrap().used, 0);
    }
}

#[test]
fn used_grows_as_the_balance_falls() {
    let mut last: u32 = 0;
    for step in 0..1300 {
        let usage = snapshot(300.0, Some(310.0 - step as f64 * 0.25)).into_usage().unwrap();
        assert!(last <= usage.used && usage.used <= usage.entitlement);
        last = usage.used;
    }
    assert_eq!(last, 300);
}

#[test]
fn not_a_number_is_recognized() {
    assert!(double(f64::NAN).is_nan());
    assert!(double(-f64::NAN).is_nan());
    assert!(!double(f64::INFINITY).is_nan());
    assert!(!double(f64::MAX).is_nan());
}

#[test]
fn only_the_premium_quota_is_reported() {
    let mut response = UserResponse::new(Some("business".to_string()), None);
    assert!(!response.has_premium_quota());
    response.insert_quota("chat".to_string(), snapshot(1000.0, Some(950.0)));
    response.insert_quota("completions".to_string(), snapshot(4000.0, Some(0.0)));
    assert!(!response.has_premium_quota());
    response.insert_quota("premium_interactions".to_string(), snapshot(50.0, Some(10.0)));
    assert!(response.has_premium_quota());
    // A later quota of the same id takes the place of the earlier one.
    response.insert_quota("premium_interactions".to_string(), snapshot(300.0, Some(299.0)));
    response.insert_quota("chat".to_string(), snapshot(1.0, Some(0.0)));
    assert_eq!(
        response.into_usage(),
        CopilotUsage {
            plan: Some("business".to_string()),
            resets_on: None,
            premium_interactions: Some(QuotaUsage {
                used: 1,
                entitlement: 300,
                overage_count: 0,
                overage_permitted: false,
            }),
        }
    );
}

#[test]
fn reset_dates_end_before_the_time() {
    let date = |resets_on: Option<&str>| {
        let usage = CopilotUsage {
            plan: None,
            resets_on: resets_on.map(str::to_string),
            premium_interactions: None,
        };
        usage.reset_date().map(str::to_string)
    };
    assert_eq!(date(None), None);
    assert_eq!(date(Some("")), Some(String::new()));
    assert_eq!(date(Some("2025-02-15")), Some("2025-02-15".to_string()));
    assert_eq!(date(Some("2025-02-15T00:00:00Z")), Some("2025-02-15".to_string()));
    assert_eq!(date(Some("T2025T")), Some(String::new()));
    assert_eq!(date(Some("été·TT")), Some("été·".to_string()));
}

#[test]
fn reset_dates_of_timestamps_hold_no_time() {
    let date = |resets_on: &str| {
        let usage = CopilotUsage {
            plan: None,
            resets_on: Some(resets_on.to_string()),
            premium_interactions: None,
        };
        usage.reset_date().unwrap().to_string()
    };
    for timestamp in [
        "2025-02-15T00:00:00Z",
        "2025-02-15t00:00:00z",
        "2025-02-15 00:00:00Z",
        "2025-02-15t23:59:59.999+02:00",
        "2025-02-15t00:00:00",
    ] {
        assert_eq!(date(timestamp), "2025-02-15");
    }
    // What is no timestamp ends at a `T` only.
    for report in ["Oct 15", "2025-02-15t", "2025-02-15t00:00", "2025_02-15t00:00:00z", "soon at"] {
        assert_eq!(date(report), report);
    }
    assert_eq!(date("2025-02-15T00:00"), "2025-02-15");
    assert_eq!(date("Oct 15T"), "Oct 15");
}
