//! The signed-in GitHub Copilot account's usage for the current billing cycle, as the
//! `/copilot_internal/user` endpoint reports it.
use crate::date;
use crate::date::date_of;
use crate::double;
use crate::double::{Double, Number};
use crate::rounding;
use vstd::arithmetic::mul::*;
use vstd::arithmetic::power2::*;
use vstd::hash_map::StringHashMap;
use vstd::prelude::*;

verus! {

/// The quota bucket GitHub bills as "AI credits" (previously "premium requests"). Free plans
/// instead meter the `chat` and `completions` buckets.
pub const PREMIUM_INTERACTIONS_QUOTA_ID: &'static str = "premium_interactions";

#[derive(Debug, Clone, PartialEq)]
pub struct CopilotUsage {
    /// Marketing plan name, e.g. `"free"`, `"individual"`, `"business"`.
    pub plan: Option<String>,
    /// Date the quotas reset, as reported by GitHub. May be a bare `YYYY-MM-DD` or a full
    /// RFC 3339 timestamp depending on the plan.
    pub resets_on: Option<String>,
    /// `None` when the account has no metered AI-credit quota, either because the entitlement is
    /// unlimited or because the plan does not meter it.
    pub premium_interactions: Option<QuotaUsage>,
}

#[derive(Debug, Clone, Copy, PartialEq, Eq, Structural)]
pub struct QuotaUsage {
    pub used: u32,
    pub entitlement: u32,
    /// Usage beyond the entitlement, billed per request.
    pub overage_count: u32,
    pub overage_permitted: bool,
}

/// What a `CopilotUsage` holds.
pub struct UsageModel {
    pub plan: Option<Seq<char>>,
    pub resets_on: Option<Seq<char>>,
    pub premium_interactions: Option<QuotaUsage>,
}

/// What an optional string holds.
pub open spec fn text_of(text: Option<String>) -> Option<Seq<char>> {
    match text {
        Some(text) => Some(text@),
        None => None,
    }
}

impl View for CopilotUsage {
    type V = UsageModel;

    open spec fn view(&self) -> UsageModel {
        UsageModel {
            plan: text_of(self.plan),
            resets_on: text_of(self.resets_on),
            premium_interactions: self.premium_interactions,
        }
    }
}

impl UsageModel {
    /// The reset date without any time component.
    pub open spec fn reset_date(self) -> Option<Seq<char>> {
        match self.resets_on {
            Some(resets_on) => Some(date::date_part(resets_on)),
            None => None,
        }
    }
}

impl CopilotUsage {
    /// The reset date without any time component, for display.
    pub fn reset_date(&self) -> (date: Option<&str>)
        ensures
            date is Some <==> self@.reset_date() is Some,
            date matches Some(date) ==> self@.reset_date() == Some(date@),
    {
        match &self.resets_on {
            Some(resets_on) => Some(date_of(resets_on.as_str())),
            None => None,
        }
    }
}

/// One quota of the account.
///
/// Counts are double-precision numbers on the wire: GitHub charges fractional credits for some
/// models, so a remaining balance of `262.5` is possible.
#[derive(Debug, Clone, Copy)]
pub struct QuotaSnapshot {
    pub unlimited: bool,
    pub entitlement: Option<Double>,
    pub remaining: Option<Double>,
    pub overage_count: Option<Double>,
    pub overage_permitted: bool,
}

impl QuotaSnapshot {
    /// Whether the entitlement, where it matters, is a number.
    pub open spec fn valid(self) -> bool {
        !self.unlimited ==> (self.entitlement matches Some(entitlement)
            ==> !(entitlement@ is NotANumber))
    }

    /// Whether the quota is a limited one. GitHub reports an unlimited entitlement as `-1` rather
    /// than setting the `unlimited` flag on some plans.
    pub open spec fn metered(self) -> bool {
        !self.unlimited && (self.entitlement matches Some(entitlement) && double::positive(
            entitlement@,
        ))
    }

    /// The balance of the quota: all of the entitlement where nothing is reported.
    pub open spec fn balance(self) -> Number {
        match self.remaining {
            Some(remaining) => remaining@,
            None => self.entitlement->0@,
        }
    }

    /// What remains of the entitlement: the balance, but never less than none or more than all.
    pub open spec fn remaining_number(self) -> Number {
        double::clamped(self.balance(), self.entitlement->0@)
    }

    /// The usage that a metered quota amounts to.
    pub open spec fn metered_usage(self) -> QuotaUsage {
        let entitlement = self.entitlement->0@;
        QuotaUsage {
            used: double::count(double::difference(entitlement, self.remaining_number())) as u32,
            entitlement: double::count(entitlement) as u32,
            overage_count: match self.overage_count {
                Some(overage_count) => double::count(overage_count@) as u32,
                None => 0,
            },
            overage_permitted: self.overage_permitted,
        }
    }

    /// The usage of the quota, if it is metered.
    pub open spec fn usage(self) -> Option<QuotaUsage> {
        if self.metered() {
            Some(self.metered_usage())
        } else {
            None
        }
    }

    /// The usage of the quota, or `None` where it is not metered.
    pub fn into_usage(self) -> (usage: Option<QuotaUsage>)
        requires
            self.valid(),
        ensures
            usage == self.usage(),
    {
        if self.unlimited {
            return None;
        }
        let entitlement = match self.entitlement {
            Some(entitlement) => entitlement,
            None => return None,
        };
        if entitlement.at_most_zero() {
            return None;
        }
        // `remaining` can exceed the entitlement or go negative around overage,
        // so clamp before converting.
        let remaining = match self.remaining {
            Some(remaining) => remaining,
            None => entitlement,
        }.clamp(entitlement);
        Some(
            QuotaUsage {
                used: entitlement.difference_count(remaining),
                entitlement: entitlement.count(),
                overage_count: match self.overage_count {
                    Some(overage_count) => overage_count.count(),
                    None => 0,
                },
                overage_permitted: self.overage_permitted,
            },
        )
    }
}

/// What the endpoint answers.
pub struct UserResponse {
    pub copilot_plan: Option<String>,
    pub quota_reset_date: Option<String>,
    pub quota_snapshots: StringHashMap<QuotaSnapshot>,
}

/// The usage that a response with that plan, reset date and quotas reports.
pub open spec fn reported_usage(
    copilot_plan: Option<Seq<char>>,
    quota_reset_date: Option<Seq<char>>,
    quotas: Map<Seq<char>, QuotaSnapshot>,
) -> UsageModel {
    UsageModel {
        plan: copilot_plan,
        resets_on: quota_reset_date,
        premium_interactions: if quotas.contains_key(PREMIUM_INTERACTIONS_QUOTA_ID@) {
            quotas[PREMIUM_INTERACTIONS_QUOTA_ID@].usage()
        } else {
            None
        },
    }
}

impl UserResponse {
    /// The quotas by their ids.
    pub open spec fn quotas(&self) -> Map<Seq<char>, QuotaSnapshot> {
        self.quota_snapshots@
    }

    /// A response without quotas.
    pub fn new(copilot_plan: Option<String>, quota_reset_date: Option<String>) -> (response: Self)
        ensures
            response.copilot_plan == copilot_plan,
            response.quota_reset_date == quota_reset_date,
            response.quotas() == Map::<Seq<char>, QuotaSnapshot>::empty(),
    {
        UserResponse { copilot_plan, quota_reset_date, quota_snapshots: StringHashMap::new() }
    }

    /// Adds a quota, in place of an earlier one with the same id.
    pub fn insert_quota(&mut self, id: String, snapshot: QuotaSnapshot)
        ensures
            final(self).copilot_plan == old(self).copilot_plan,
            final(self).quota_reset_date == old(self).quota_reset_date,
            final(self).quotas() == old(self).quotas().insert(id@, snapshot),
    {
        self.quota_snapshots.insert(id, snapshot);
    }

    /// Whether the quota that is billed as AI credits is reported at all.
    pub fn has_premium_quota(&self) -> (reported: bool)
        ensures
            reported == self.quotas().contains_key(PREMIUM_INTERACTIONS_QUOTA_ID@),
    {
        self.quota_snapshots.contains_key(PREMIUM_INTERACTIONS_QUOTA_ID)
    }

    /// The usage that the response reports.
    pub fn into_usage(self) -> (usage: CopilotUsage)
        requires
            self.quotas().contains_key(PREMIUM_INTERACTIONS_QUOTA_ID@)
                ==> self.quotas()[PREMIUM_INTERACTIONS_QUOTA_ID@].valid(),
        ensures
            usage@ == reported_usage(
                text_of(self.copilot_plan),
                text_of(self.quota_reset_date),
                self.quotas(),
            ),
    {
        let premium_interactions = match self.quota_snapshots.get(PREMIUM_INTERACTIONS_QUOTA_ID) {
            Some(snapshot) => (*snapshot).into_usage(),
            None => None,
        };
        CopilotUsage {
            plan: self.copilot_plan,
            resets_on: self.quota_reset_date,
            premium_interactions,
        }
    }
}

/// What remains is never less than none or more than the entitlement, unless it is no number.
proof fn lemma_remaining_in_range(snapshot: QuotaSnapshot)
    requires
        snapshot.metered(),
    ensures
        snapshot.remaining_number() is NotANumber || (double::at_most(
            double::zero(),
            snapshot.remaining_number(),
        ) && double::at_most(snapshot.remaining_number(), snapshot.entitlement->0@)),
        !(snapshot.remaining_number() matches Number::Infinite { negative: true }),
{
}

/// What is used of a quota never exceeds its entitlement.
pub proof fn law_used_within_entitlement(snapshot: QuotaSnapshot)
    requires
        snapshot.metered(),
    ensures
        snapshot.metered_usage().used <= snapshot.metered_usage().entitlement,
{
    let entitlement = snapshot.entitlement->0@;
    let remaining = snapshot.remaining_number();
    lemma_remaining_in_range(snapshot);
    double::lemma_count_ordered(entitlement, entitlement);
    if entitlement is Finite && remaining is Finite {
        let e = entitlement->units as nat;
        let d = (e - remaining->units) as nat;
        double::lemma_finite_representable(snapshot.entitlement->0);
        rounding::lemma_nearest(d, e);
        double::lemma_count_ordered(double::difference(entitlement, remaining), entitlement);
    }
}

/// Whole credits are counted exactly: of `entitled` credits with `left` remaining, the difference
/// is used.
pub proof fn law_whole_credits(snapshot: QuotaSnapshot, entitled: u32, left: u32)
    requires
        !snapshot.unlimited,
        left <= entitled,
        entitled > 0,
        snapshot.entitlement matches Some(entitlement) && entitlement@ == (Number::Finite {
            units: (entitled as nat * double::one()) as int,
        }),
        snapshot.remaining matches Some(remaining) && remaining@ == (Number::Finite {
            units: (left as nat * double::one()) as int,
        }),
    ensures
        snapshot.usage() matches Some(usage) && usage.used == entitled - left && usage.entitlement
            == entitled,
{
    let one = double::one();
    lemma_pow2_pos(1074);
    lemma_mul_strictly_positive(entitled as int, one as int);
    lemma_mul_inequality(left as int, entitled as int, one as int);
    lemma_mul_nonnegative(left as int, one as int);
    double::lemma_count_of_whole(entitled as nat);
    let used: nat = (entitled - left) as nat;
    double::lemma_count_of_whole(used);
    lemma_mul_is_distributive_sub_other_way(one as int, entitled as int, left as int);
    assert(rounding::representable(used * pow2(1074)));
    rounding::lemma_nearest_exact(used * one);
    assert(snapshot.remaining_number() == (Number::Finite { units: (left * one) as int }));
}

/// When nothing remains, or less than nothing as around overage, the whole entitlement is used.
pub proof fn law_exhausted(snapshot: QuotaSnapshot)
    requires
        snapshot.metered(),
        snapshot.remaining matches Some(remaining) && double::at_most(
            remaining@,
            double::zero(),
        ),
    ensures
        snapshot.metered_usage().used == snapshot.metered_usage().entitlement,
{
    if snapshot.entitlement->0@ is Finite {
        double::lemma_finite_representable(snapshot.entitlement->0);
        rounding::lemma_nearest_exact(snapshot.entitlement->0@->units as nat);
    }
}

/// When the remaining balance is not reported, or is the entitlement or more, nothing is used.
pub proof fn law_unused(snapshot: QuotaSnapshot)
    requires
        snapshot.metered(),
        snapshot.remaining matches Some(remaining) ==> double::at_most(
            snapshot.entitlement->0@,
            remaining@,
        ),
    ensures
        snapshot.metered_usage().used == 0,
{
    assert(rounding::representable(0)) by {
        lemma_mul_basics(pow2(0) as int);
        assert(0 == 0 * pow2(0));
    }
    rounding::lemma_nearest_exact(0);
}

/// The lower the balance of an entitlement, the more of it is used.
pub proof fn law_used_grows(more: QuotaSnapshot, less: QuotaSnapshot)
    requires
        more.metered(),
        less.metered(),
        more.entitlement->0@ == less.entitlement->0@,
        double::at_most(less.balance(), more.balance()),
    ensures
        more.metered_usage().used <= less.metered_usage().used,
{
    let entitlement = more.entitlement->0@;
    let (a, b) = (more.remaining_number(), less.remaining_number());
    lemma_remaining_in_range(more);
    lemma_remaining_in_range(less);
    let (x, y) = (double::difference(entitlement, a), double::difference(entitlement, b));
    if entitlement is Finite {
        rounding::lemma_nearest_ordered(
            (entitlement->units - a->units) as nat,
            (entitlement->units - b->units) as nat,
        );
        double::lemma_count_ordered(x, y);
    }
}

/// Where the difference between entitlement and balance has no more than 53 significant bits,
/// what is used is that difference rounded to the nearest credit, halves up.
pub proof fn law_fractional_credits(snapshot: QuotaSnapshot)
    requires
        snapshot.metered(),
        snapshot.entitlement->0@ is Finite,
        snapshot.remaining_number() is Finite,
        rounding::representable(
            (snapshot.entitlement->0@->units - snapshot.remaining_number()->units) as nat,
        ),
    ensures
        snapshot.metered_usage().used == double::whole(
            (snapshot.entitlement->0@->units - snapshot.remaining_number()->units) as nat,
        ),
{
    let d = (snapshot.entitlement->0@->units - snapshot.remaining_number()->units) as nat;
    lemma_remaining_in_range(snapshot);
    rounding::lemma_nearest_exact(d);
    double::lemma_whole_of_none();
}

/// A quota is unmetered if it is flagged as unlimited, has no entitlement, or has one of zero or
/// below, as the `-1` that stands for an unlimited one.
pub proof fn law_unmetered(snapshot: QuotaSnapshot)
    requires
        snapshot.valid(),
    ensures
        snapshot.usage() is None <==> (snapshot.unlimited || match snapshot.entitlement {
            Some(entitlement) => double::at_most(entitlement@, double::zero()),
            None => true,
        }),
{
}

/// Quotas that are not billed as AI credits do not change what is reported.
pub proof fn law_other_quotas_are_ignored(
    copilot_plan: Option<Seq<char>>,
    quota_reset_date: Option<Seq<char>>,
    quotas: Map<Seq<char>, QuotaSnapshot>,
    id: Seq<char>,
    snapshot: QuotaSnapshot,
)
    requires
        id != PREMIUM_INTERACTIONS_QUOTA_ID@,
    ensures
        reported_usage(copilot_plan, quota_reset_date, quotas.insert(id, snapshot))
            == reported_usage(copilot_plan, quota_reset_date, quotas),
{
}

/// The reset date holds no time: of the two forms that GitHub reports it is the date alone,
/// `YYYY-MM-DD`, whether the time of a timestamp follows a `T`, a `t` or a space.
pub proof fn law_reset_date_has_no_time(usage: UsageModel)
    requires
        usage.resets_on is Some,
        date::starts_with_date(usage.resets_on->0),
        usage.resets_on->0.len() == 10 || date::starts_with_date_and_time(usage.resets_on->0),
    ensures
        usage.reset_date() matches Some(date) && date == usage.resets_on->0.take(10) && date.len()
            == 10 && date::starts_with_date(date),
{
    date::lemma_date_of_documented_forms(usage.resets_on->0);
}

/// Of any report the reset date is what it starts with, has no `T`, and is either all of it or
/// followed by what separates a time.
pub proof fn law_reset_date_starts_the_report(usage: UsageModel)
    requires
        usage.resets_on is Some,
    ensures
        usage.reset_date() matches Some(date) && {
            let report = usage.resets_on->0;
            &&& !date.contains('T')
            &&& date.is_prefix_of(report)
            &&& date == report || date::separates_time(report[date.len() as int])
        },
{
    date::lemma_date_part(usage.resets_on->0);
}

} // verus!
