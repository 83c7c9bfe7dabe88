//! Laws of the indicator: when it polls, what it keeps, what it asks of its host and what it shows.
use crate::copilot_usage::UsageModel;
use crate::laws::texts;
use crate::text;
use crate::usage_indicator;
use crate::usage_indicator::{
    Effects, EffectsModel, FetchModel, FetchResult, IndicatorModel, IndicatorSettings, LogLevel,
    PollAction, PollEvent, PollState, TaskChange, UsageLabel,
};
use vstd::prelude::*;

verus! {

/// The first of these reasons that applies keeps the indicator from polling: AI is off, the
/// indicator is off, nobody is signed in. Without one it polls.
pub proof fn law_first_reason_decides(settings: IndicatorSettings, signed_in: bool)
    ensures
        settings.allowed() <==> !settings.disable_ai && settings.copilot_usage_button,
        ({
            let state = usage_indicator::wanted_state(settings, signed_in);
            &&& state == PollState::AiDisabled <==> settings.disable_ai
            &&& state == PollState::Disabled <==> !settings.disable_ai
                && !settings.copilot_usage_button
            &&& state == PollState::NotSignedIn <==> !settings.disable_ai
                && settings.copilot_usage_button && !signed_in
            &&& state == PollState::Polling <==> !settings.disable_ai
                && settings.copilot_usage_button && signed_in
        }),
{
}

/// After a sync there is a task exactly if the state is to poll; the reading is kept if there is
/// one, and gone otherwise; and the state is the one that was asked for.
pub proof fn law_sync_settles_state(before: IndicatorModel, state: PollState)
    ensures
        ({
            let after = before.synced(state);
            &&& after.poll_state == Some(state)
            &&& after.poll_task <==> state == PollState::Polling
            &&& after.poll_task ==> after.usage == before.usage
            &&& !after.poll_task ==> after.usage is None
        }),
{
}

/// A sync asks for a start exactly if a task is there that was not before, for a stop exactly if
/// one is gone, and else to keep what there is.
pub proof fn law_task_follows_state(before: IndicatorModel, state: PollState)
    ensures
        ({
            let after = before.synced(state);
            let task = before.sync_effects(state).task;
            &&& task == TaskChange::Start <==> !before.poll_task && after.poll_task
            &&& task == TaskChange::Stop <==> before.poll_task && !after.poll_task
            &&& task == TaskChange::Keep <==> before.poll_task == after.poll_task
        }),
{
}

/// A sync asks for a drawing exactly if it takes a task or a reading away.
pub proof fn law_sync_draws_what_goes_away(before: IndicatorModel, state: PollState)
    ensures
        ({
            let after = before.synced(state);
            before.sync_effects(state).notify <==> (before.poll_task && !after.poll_task) || (
            before.usage is Some && after.usage is None)
        }),
{
}

/// A sync is logged exactly if it changes the state, by the reason of the new state: as
/// information if it starts to poll, and for debugging otherwise.
pub proof fn law_sync_logs_the_reason(before: IndicatorModel, state: PollState)
    ensures
        before.sync_effects(state).log is None <==> before.poll_state == Some(state),
        before.sync_effects(state).log matches Some(entry) ==> {
            &&& entry.level == if before.synced(state).poll_task {
                LogLevel::Info
            } else {
                LogLevel::Debug
            }
            &&& entry.message == "GitHub Copilot usage indicator "@ + match state {
                PollState::AiDisabled => "not polling: AI features are disabled"@,
                PollState::Disabled => "not polling: status_bar.copilot_usage_button is disabled"@,
                PollState::NotSignedIn => "not polling: not signed in to GitHub Copilot Chat"@,
                PollState::Polling => "polling for usage"@,
            }
        },
{
}

/// The log gives for each state its own reason.
pub proof fn law_reasons(state: PollState)
    ensures
        state.reason_text() == match state {
            PollState::AiDisabled => "not polling: AI features are disabled"@,
            PollState::Disabled => "not polling: status_bar.copilot_usage_button is disabled"@,
            PollState::NotSignedIn => "not polling: not signed in to GitHub Copilot Chat"@,
            PollState::Polling => "polling for usage"@,
        },
{
}

/// A new indicator has no reading, starts a task exactly if it is enabled and signed in, logs why,
/// and has nothing to draw.
pub proof fn law_new_indicator(settings: IndicatorSettings, signed_in: bool)
    ensures
        ({
            let state = usage_indicator::wanted_state(settings, signed_in);
            let created = IndicatorModel::initial().synced(state);
            let effects = IndicatorModel::initial().sync_effects(state);
            let polls = !settings.disable_ai && settings.copilot_usage_button && signed_in;
            &&& created.usage is None
            &&& created.poll_task <==> polls
            &&& created.poll_state == Some(state)
            &&& effects.task == if polls {
                TaskChange::Start
            } else {
                TaskChange::Keep
            }
            &&& effects.log is Some
            &&& !effects.notify
        }),
{
}

/// While there is a task, a reading takes the place of the last one and is drawn, and is not
/// logged; state and task stay.
pub proof fn law_reading_replaces_the_last(before: IndicatorModel, usage: UsageModel)
    requires
        before.poll_task,
    ensures
        ({
            let after = before.fetched(FetchModel::Fetched(usage));
            let effects = before.fetch_effects(FetchModel::Fetched(usage));
            &&& after.usage == Some(usage)
            &&& after.poll_task
            &&& after.poll_state == before.poll_state
            &&& effects.notify
            &&& effects.log is None
            &&& effects.task == TaskChange::Keep
        }),
{
}

/// A failure changes nothing and draws nothing; while there is a task it is logged as a warning
/// with its reason.
pub proof fn law_failure_is_only_logged(before: IndicatorModel, error: Seq<char>)
    ensures
        ({
            let after = before.fetched(FetchModel::Failed(error));
            let effects = before.fetch_effects(FetchModel::Failed(error));
            &&& after == before
            &&& !effects.notify
            &&& effects.task == TaskChange::Keep
            &&& effects.log is Some <==> before.poll_task
            &&& effects.log matches Some(entry) ==> entry.level == LogLevel::Warn && entry.message
                == "Failed to fetch GitHub Copilot usage: "@ + error
        }),
{
}

/// Without a task, what a fetch brings has no effect at all.
pub proof fn law_late_results_are_dropped(before: IndicatorModel, result: FetchModel)
    requires
        !before.poll_task,
    ensures
        before.fetched(result) == before,
        before.fetch_effects(result) == (EffectsModel {
            log: None,
            notify: false,
            task: TaskChange::Keep,
        }),
{
}

/// In every sequence of events, there is a task exactly in the polling state, and a reading only
/// beside a task.
pub proof fn law_reading_needs_a_task(events: Seq<usage_indicator::IndicatorEvent>)
    ensures
        ({
            let indicator = usage_indicator::after(events);
            &&& indicator.poll_task <==> indicator.poll_state == Some(PollState::Polling)
            &&& indicator.usage is Some ==> indicator.poll_task
        }),
    decreases events.len(),
{
    if events.len() > 0 {
        law_reading_needs_a_task(events.drop_last());
    }
}

/// The polling task fetches when that is due and there is an indicator and a service, ends when
/// one of them is missing or a reading finds no indicator, and else waits five minutes.
pub proof fn law_polling_alternates(event: PollEvent)
    ensures
        ({
            let action = usage_indicator::next_action(event);
            &&& action == PollAction::Fetch <==> event == (PollEvent::FetchDue {
                indicator_alive: true,
                chat_available: true,
            })
            &&& action is Wait <==> event is FetchFailed || event == (PollEvent::FetchSucceeded {
                indicator_alive: true,
            })
            &&& action matches PollAction::Wait { seconds } ==> seconds == 300
        }),
{
}

/// Something is shown exactly if AI is on, the indicator is on, and the last reading has a metered
/// quota.
pub proof fn law_shown_if_metered(indicator: IndicatorModel, settings: IndicatorSettings)
    ensures
        indicator.shown(settings) is Some <==> !settings.disable_ai
            && settings.copilot_usage_button && (indicator.usage matches Some(usage)
            && usage.premium_interactions is Some),
{
}

/// What is shown depends on the reading alone, and not on task or state.
pub proof fn law_shown_is_of_the_reading(
    one: IndicatorModel,
    other: IndicatorModel,
    settings: IndicatorSettings,
)
    requires
        one.usage == other.usage,
    ensures
        one.shown(settings) == other.shown(settings),
{
}

/// Whether `label` is `Copilot Chat: `, the number used, a slash and the entitlement.
pub open spec fn reads_as_label(label: Seq<char>, used: int, entitlement: int) -> bool {
    exists|a: Seq<char>, b: Seq<char>| #[trigger]
        texts::writes(a, used) && #[trigger] texts::writes(b, entitlement) && label
            == "Copilot Chat: "@ + a + "/"@ + b
}

/// Whether `label` says how many of how many AI credits are used.
pub open spec fn reads_as_aria_label(label: Seq<char>, used: int, entitlement: int) -> bool {
    exists|a: Seq<char>, b: Seq<char>| #[trigger]
        texts::writes(a, used) && #[trigger] texts::writes(b, entitlement) && label
            == "GitHub Copilot Chat usage: "@ + a + " of "@ + b + " AI credits"@
}

/// Whether `line` is the line of the tooltip on the usage.
pub open spec fn reads_as_usage_line(line: Seq<char>, used: int, entitlement: int) -> bool {
    exists|a: Seq<char>, b: Seq<char>| #[trigger]
        texts::writes(a, used) && #[trigger] texts::writes(b, entitlement) && line
            == "Usage this cycle: "@ + a + "/"@ + b + " AI credits"@
}

/// The two labels give the number used and then the entitlement of the last reading, in decimal
/// digits that read back as these numbers.
pub proof fn law_labels_read_back(indicator: IndicatorModel, settings: IndicatorSettings)
    ensures
        indicator.shown(settings) matches Some(shown) ==> {
            let quota = indicator.usage->0.premium_interactions->0;
            &&& reads_as_label(shown.label, quota.used as int, quota.entitlement as int)
            &&& reads_as_aria_label(shown.aria_label, quota.used as int, quota.entitlement as int)
        },
{
    if indicator.shown(settings) is Some {
        let shown = indicator.shown(settings)->0;
        let quota = indicator.usage->0.premium_interactions->0;
        let (a, b) = (text::decimal(quota.used as nat), text::decimal(quota.entitlement as nat));
        texts::law_numeral_reads_back(quota.used as nat);
        texts::law_numeral_reads_back(quota.entitlement as nat);
        assert(shown.label == "Copilot Chat: "@ + a + "/"@ + b);
        assert(shown.aria_label == "GitHub Copilot Chat usage: "@ + a + " of "@ + b
            + " AI credits"@);
    }
}

/// The label starts with `Copilot Chat: ` and has one slash after that, with digits alone on either
/// side of it that read as the number used and as the entitlement.
pub proof fn law_label_has_one_slash(label: Seq<char>, used: int, entitlement: int)
    requires
        reads_as_label(label, used, entitlement),
    ensures
        exists|slash: int|
            {
                &&& 14 < slash < label.len() - 1
                &&& #[trigger] label[slash] == '/'
                &&& forall|i: int|
                    14 <= i < label.len() && i != slash ==> '0' <= #[trigger] label[i] <= '9'
                &&& texts::value(label.subrange(14, slash)) == used
                &&& texts::value(label.skip(slash + 1)) == entitlement
            },
        label.take(14) == "Copilot Chat: "@,
{
    reveal_strlit("Copilot Chat: ");
    reveal_strlit("/");
    let (a, b) = choose|a: Seq<char>, b: Seq<char>| #[trigger]
        texts::writes(a, used) && #[trigger] texts::writes(b, entitlement) && label
            == "Copilot Chat: "@ + a + "/"@ + b;
    let slash: int = 14 + a.len() as int;
    assert(label.take(14) =~= "Copilot Chat: "@);
    assert(label.subrange(14, slash) =~= a);
    assert(label.skip(slash + 1) =~= b);
    assert(label[slash] == '/');
    assert forall|i: int| 14 <= i < label.len() && i != slash implies '0' <= #[trigger] label[i]
        <= '9' by {
        if i < slash {
            assert(label[i] == a[i - 14]);
        } else {
            assert(label[i] == b[i - slash - 1]);
        }
    }
}

/// Readings with the same number used and the same entitlement have the same labels, whatever
/// their overage, plan and reset date.
pub proof fn law_labels_depend_on_the_two_numbers(
    one: IndicatorModel,
    other: IndicatorModel,
    settings: IndicatorSettings,
)
    requires
        one.shown(settings) is Some,
        other.shown(settings) is Some,
        one.usage->0.premium_interactions->0.used == other.usage->0.premium_interactions->0.used,
        one.usage->0.premium_interactions->0.entitlement
            == other.usage->0.premium_interactions->0.entitlement,
    ensures
        one.shown(settings)->0.label == other.shown(settings)->0.label,
        one.shown(settings)->0.aria_label == other.shown(settings)->0.aria_label,
{
}

/// The tooltip gives the plan if there is one, the usage, and the reset date if there is one, each
/// on a line of its own.
pub proof fn law_tooltip_lines(indicator: IndicatorModel, settings: IndicatorSettings)
    ensures
        indicator.shown(settings) matches Some(shown) ==> {
            let usage = indicator.usage->0;
            let quota = usage.premium_interactions->0;
            exists|line: Seq<char>| #[trigger]
                reads_as_usage_line(line, quota.used as int, quota.entitlement as int)
                    && shown.meta == match usage.plan {
                    Some(plan) => "Plan: "@ + plan + seq!['\n'],
                    None => Seq::<char>::empty(),
                } + line + match usage.reset_date() {
                    Some(date) => seq!['\n'] + "Resets on "@ + date,
                    None => Seq::<char>::empty(),
                }
        },
{
    if indicator.shown(settings) is Some {
        let shown = indicator.shown(settings)->0;
        let usage = indicator.usage->0;
        let quota = usage.premium_interactions->0;
        let (a, b) = (text::decimal(quota.used as nat), text::decimal(quota.entitlement as nat));
        let line = "Usage this cycle: "@ + a + "/"@ + b + " AI credits"@;
        texts::law_numeral_reads_back(quota.used as nat);
        texts::law_numeral_reads_back(quota.entitlement as nat);
        assert(reads_as_usage_line(line, quota.used as int, quota.entitlement as int));
        let lines = usage_indicator::meta_lines(usage, quota);
        reveal_strlit("\n");
        assert("\n"@ =~= seq!['\n']);
        reveal_with_fuel(text::joined, 4);
        let start = match usage.plan {
            Some(plan) => "Plan: "@ + plan + seq!['\n'],
            None => Seq::<char>::empty(),
        };
        let end = match usage.reset_date() {
            Some(date) => seq!['\n'] + "Resets on "@ + date,
            None => Seq::<char>::empty(),
        };
        assert(text::joined(lines, lines.len()) =~= start + line + end);
    }
}

/// What effects, results and labels hold is what is in their fields.
pub proof fn law_views_show_the_fields(effects: Effects, result: FetchResult, label: UsageLabel)
    ensures
        effects@.notify == effects.notify,
        effects@.task == effects.task,
        effects@.log is Some <==> effects.log is Some,
        effects.log matches Some(entry) ==> effects@.log->0.level == entry.level
            && effects@.log->0.message == entry.message@,
        match result {
            FetchResult::Fetched(usage) => result@ == FetchModel::Fetched(usage@),
            FetchResult::Failed(error) => result@ == FetchModel::Failed(error@),
        },
        label@.label == label.label@,
        label@.aria_label == label.aria_label@,
        label@.meta == label.meta@,
{
}

} // verus!
