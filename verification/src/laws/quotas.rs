//! Laws of quotas: what is reported of a snapshot, and which snapshot of a response is reported.
use crate::copilot_usage;
use crate::copilot_usage::{CopilotUsage, QuotaSnapshot, UserResponse};
use crate::double;
use crate::double::Number;
use crate::laws::numbers;
use crate::rounding;
use vstd::arithmetic::mul::*;
use vstd::arithmetic::power2::*;
use vstd::prelude::*;

verus! {

/// A snapshot can be read unless it is limited to an entitlement that is not a number.
pub proof fn law_readable(snapshot: QuotaSnapshot)
    ensures
        snapshot.valid() <==> (snapshot.unlimited || snapshot.entitlement is None
            || snapshot.entitlement->0@ != Number::NotANumber),
{
}

/// A usage is reported exactly of a quota that is not flagged as unlimited and has an entitlement
/// above zero.
pub proof fn law_reported_if_limited(snapshot: QuotaSnapshot)
    ensures
        snapshot.usage() is Some <==> (!snapshot.unlimited && (snapshot.entitlement matches Some(
            entitlement,
        ) && match entitlement@ {
            Number::NotANumber => false,
            Number::Infinite { negative } => !negative,
            Number::Finite { units } => units > 0,
        })),
{
}

/// The reported entitlement is the whole number nearest to the snapshot's, whatever the rest of
/// the snapshot says.
pub proof fn law_entitlement_is_rounded(snapshot: QuotaSnapshot)
    ensures
        snapshot.usage() matches Some(usage) ==> match snapshot.entitlement->0@ {
            Number::Finite { units } => numbers::is_nearest_whole(usage.entitlement as int, units),
            _ => usage.entitlement == 0xffff_ffff,
        },
{
    if snapshot.usage() is Some {
        numbers::law_count(snapshot.entitlement->0@);
    }
}

/// A whole entitlement that fits into 32 bits is reported as it is, for every balance.
pub proof fn law_whole_entitlement_is_kept(snapshot: QuotaSnapshot, n: u32)
    requires
        snapshot.entitlement matches Some(entitlement) && entitlement@ == (Number::Finite {
            units: (n as nat * pow2(1074)) as int,
        }),
    ensures
        snapshot.usage() matches Some(usage) ==> usage.entitlement == n,
        snapshot.usage() is Some <==> !snapshot.unlimited && n > 0,
{
    double::lemma_count_of_whole(n as nat);
    lemma_pow2_pos(1074);
    if n == 0 {
        lemma_mul_basics(pow2(1074) as int);
    } else {
        lemma_mul_strictly_positive(n as int, pow2(1074) as int);
    }
}

/// The reported overage is the whole number nearest to the snapshot's: none where there is none,
/// or a negative one, or what is not a number, and the most for an infinite one. Whether it is
/// permitted is reported as it is.
pub proof fn law_overage_is_rounded(snapshot: QuotaSnapshot)
    ensures
        snapshot.usage() matches Some(usage) ==> {
            &&& usage.overage_permitted == snapshot.overage_permitted
            &&& match snapshot.overage_count {
                None => usage.overage_count == 0,
                Some(overage_count) => match overage_count@ {
                    Number::NotANumber => usage.overage_count == 0,
                    Number::Infinite { negative } => usage.overage_count == if negative {
                        0
                    } else {
                        4294967295int
                    },
                    Number::Finite { units } => if units <= 0 {
                        usage.overage_count == 0
                    } else {
                        numbers::is_nearest_whole(usage.overage_count as int, units)
                    },
                },
            }
        },
{
    if snapshot.overage_count is Some {
        numbers::law_count(snapshot.overage_count->0@);
    }
}

/// Of a finite entitlement with a balance between zero and it, the number used is the whole number
/// nearest to their difference in double precision.
pub proof fn law_used_is_rounded_difference(snapshot: QuotaSnapshot, entitled: int, left: int)
    requires
        snapshot.entitlement matches Some(entitlement) && entitlement@ == (Number::Finite {
            units: entitled,
        }),
        snapshot.remaining matches Some(remaining) && remaining@ == (Number::Finite {
            units: left,
        }),
        0 <= left <= entitled,
    ensures
        snapshot.usage() matches Some(usage) ==> exists|difference: int| #[trigger]
            numbers::rounds_to(entitled - left, difference) && numbers::is_nearest_whole(
                usage.used as int,
                difference,
            ),
{
    let (e, r) = (snapshot.entitlement->0@, snapshot.remaining->0@);
    if snapshot.usage() is Some {
        numbers::law_clamped(r, e);
        numbers::law_difference(e, r);
        let d = double::difference(e, r);
        numbers::law_count(d);
        assert(numbers::rounds_to(entitled - left, d->units));
        lemma_pow2_pos(1074);
        assert(d->units == 0 ==> numbers::is_nearest_whole(0, d->units)) by (nonlinear_arith)
            requires
                pow2(1074) > 0,
        ;
    }
}

/// A balance below zero counts as none, one above the entitlement as all of it, and a missing one
/// as all of it too: none of these changes what is used.
pub proof fn law_balance_is_held_in_range(snapshot: QuotaSnapshot, held: QuotaSnapshot)
    requires
        snapshot.unlimited == held.unlimited,
        snapshot.entitlement == held.entitlement,
        snapshot.entitlement matches Some(entitlement) && entitlement@ is Finite,
        held.remaining matches Some(remaining) && remaining@ == (Number::Finite {
            units: match snapshot.remaining {
                None => snapshot.entitlement->0@->units,
                Some(remaining) => match remaining@ {
                    Number::NotANumber => snapshot.entitlement->0@->units,
                    Number::Infinite { negative } => if negative {
                        0
                    } else {
                        snapshot.entitlement->0@->units
                    },
                    Number::Finite { units } => if units < 0 {
                        0
                    } else if units > snapshot.entitlement->0@->units {
                        snapshot.entitlement->0@->units
                    } else {
                        units
                    },
                },
            },
        }),
    ensures
        snapshot.usage() is Some <==> held.usage() is Some,
        snapshot.usage() is Some ==> snapshot.usage()->0.used == held.usage()->0.used,
{
    let e = snapshot.entitlement->0@;
    if snapshot.usage() is Some {
        numbers::law_clamped(held.remaining->0@, e);
        if snapshot.remaining is Some {
            numbers::law_clamped(snapshot.remaining->0@, e);
        } else {
            numbers::law_clamped(e, e);
        }
        if snapshot.remaining is Some && snapshot.remaining->0@ is NotANumber {
            assert(rounding::representable(0)) by {
                lemma_mul_basics(pow2(0) as int);
                assert(0 == 0 * pow2(0));
            }
            rounding::lemma_nearest_exact(0);
        }
    }
}

/// Of an infinite entitlement with a finite balance, or one below all numbers, the most is used;
/// with an infinite or missing balance, or one that is not a number, none.
pub proof fn law_used_of_infinite_entitlement(snapshot: QuotaSnapshot)
    requires
        snapshot.entitlement matches Some(entitlement) && entitlement@ == (Number::Infinite {
            negative: false,
        }),
    ensures
        snapshot.usage() matches Some(usage) ==> usage.used == match snapshot.remaining {
            None => 0,
            Some(remaining) => match remaining@ {
                Number::NotANumber => 0,
                Number::Infinite { negative: false } => 0,
                _ => 4294967295int,
            },
        },
{
}

/// Each reported number depends on its own part of the snapshot: the entitlement and the overage on
/// theirs alone, and the number used on the entitlement and the balance.
pub proof fn law_numbers_have_their_own_source(one: QuotaSnapshot, other: QuotaSnapshot)
    requires
        one.usage() is Some,
        other.usage() is Some,
    ensures
        one.entitlement == other.entitlement ==> one.usage()->0.entitlement
            == other.usage()->0.entitlement,
        one.overage_count == other.overage_count ==> one.usage()->0.overage_count
            == other.usage()->0.overage_count,
        one.overage_permitted == other.overage_permitted ==> one.usage()->0.overage_permitted
            == other.usage()->0.overage_permitted,
        one.entitlement == other.entitlement && one.remaining == other.remaining
            ==> one.usage()->0.used == other.usage()->0.used,
{
}

/// A larger entitlement is never reported as a smaller one, and no more is used than entitled.
pub proof fn law_entitlement_keeps_order(less: QuotaSnapshot, more: QuotaSnapshot)
    requires
        less.usage() is Some,
        more.usage() is Some,
        less.entitlement->0@ matches Number::Finite { units: a } && more.entitlement->0@ matches
            Number::Finite { units: b } && a <= b,
    ensures
        less.usage()->0.entitlement <= more.usage()->0.entitlement,
        less.usage()->0.used <= less.usage()->0.entitlement,
{
    double::lemma_count_ordered(less.entitlement->0@, more.entitlement->0@);
    copilot_usage::law_used_within_entitlement(less);
}

/// What is reported as AI credits is the usage of the response's own quota of that id, also when
/// nothing of it is used, and nothing if there is no such quota.
pub proof fn law_premium_quota_is_reported(
    copilot_plan: Option<Seq<char>>,
    quota_reset_date: Option<Seq<char>>,
    quotas: Map<Seq<char>, QuotaSnapshot>,
)
    ensures
        !quotas.contains_key("premium_interactions"@) ==> copilot_usage::reported_usage(
            copilot_plan,
            quota_reset_date,
            quotas,
        ).premium_interactions is None,
        quotas.contains_key("premium_interactions"@) ==> copilot_usage::reported_usage(
            copilot_plan,
            quota_reset_date,
            quotas,
        ).premium_interactions == quotas["premium_interactions"@].usage(),
{
}

/// A response's premium quota goes unreported only if it is flagged as unlimited, or has no
/// entitlement or none above zero.
pub proof fn law_limited_premium_quota_is_never_dropped(
    copilot_plan: Option<Seq<char>>,
    quota_reset_date: Option<Seq<char>>,
    quotas: Map<Seq<char>, QuotaSnapshot>,
)
    requires
        quotas.contains_key("premium_interactions"@),
        quotas["premium_interactions"@].entitlement matches Some(entitlement)
            ==> entitlement@ != Number::NotANumber,
    ensures
        copilot_usage::reported_usage(
            copilot_plan,
            quota_reset_date,
            quotas,
        ).premium_interactions is None <==> {
            let quota = quotas["premium_interactions"@];
            quota.unlimited || match quota.entitlement {
                None => true,
                Some(entitlement) => match entitlement@ {
                    Number::Infinite { negative } => negative,
                    Number::Finite { units } => units <= 0,
                    Number::NotANumber => false,
                },
            }
        },
{
    law_reported_if_limited(quotas["premium_interactions"@]);
}

/// Plan and reset date are the response's own, whatever its quotas.
pub proof fn law_plan_and_date_are_passed_on(
    copilot_plan: Option<Seq<char>>,
    quota_reset_date: Option<Seq<char>>,
    quotas: Map<Seq<char>, QuotaSnapshot>,
)
    ensures
        copilot_usage::reported_usage(copilot_plan, quota_reset_date, quotas).plan == copilot_plan,
        copilot_usage::reported_usage(copilot_plan, quota_reset_date, quotas).resets_on
            == quota_reset_date,
{
}

/// What a usage and a response hold is what is in their fields.
pub proof fn law_views_show_the_fields(usage: CopilotUsage, response: UserResponse)
    ensures
        usage@.plan is Some <==> usage.plan is Some,
        usage.plan matches Some(plan) ==> usage@.plan == Some(plan@),
        usage@.resets_on is Some <==> usage.resets_on is Some,
        usage.resets_on matches Some(resets_on) ==> usage@.resets_on == Some(resets_on@),
        usage@.premium_interactions == usage.premium_interactions,
        response.quotas() == response.quota_snapshots@,
        copilot_usage::text_of(response.copilot_plan) == match response.copilot_plan {
            Some(plan) => Some(plan@),
            None => None,
        },
        copilot_usage::text_of(response.quota_reset_date) == match response.quota_reset_date {
            Some(date) => Some(date@),
            None => None,
        },
        copilot_usage::PREMIUM_INTERACTIONS_QUOTA_ID@ == "premium_interactions"@,
{
}

} // verus!
