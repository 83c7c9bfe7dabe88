use copilot_usage::usage_indicator::{
    hide_setting, is_allowed, poll_step, Effects, FetchResult, IndicatorSettings, LogLevel,
    PollAction, PollEvent, PollState, SettingsContent, StatusBarSettingsContent, TaskChange,
    UsageLabel, REFRESH_INTERVAL_SECS, TOOLTIP_TITLE,
};
use copilot_usage::{CopilotUsage, CopilotUsageIndicator, QuotaUsage};

const ON: IndicatorSettings = IndicatorSettings {
    disable_ai: false,
    copilot_usage_button: true,
};
const AI_OFF: IndicatorSettings = IndicatorSettings {
    disable_ai: true,
    copilot_usage_button: true,
};
const BUTTON_OFF: IndicatorSettings = IndicatorSettings {
    disable_ai: false,
    copilot_usage_button: false,
};
const ALL_OFF: IndicatorSettings = IndicatorSettings {
    disable_ai: true,
    copilot_usage_button: false,
};

fn usage(used: u32) -> CopilotUsage {
    CopilotUsage {
        plan: Some("individual".to_string()),
        resets_on: Some("2025-02-15T00:00:00Z".to_string()),
        premium_interactions: Some(QuotaUsage {
            used,
            entitlement: 300,
            overage_count: 0,
            overage_permitted: false,
        }),
    }
}

fn label(indicator: &CopilotUsageIndicator, settings: IndicatorSettings) -> Option<String> {
    indicator.render(settings).map(|label| label.label)
}

fn logged(effects: &Effects) -> Option<(LogLevel, &str)> {
    effects.log.as_ref().map(|entry| (entry.level, entry.message.as_str()))
}

fn polling() -> CopilotUsageIndicator {
    CopilotUsageIndicator::new(ON, true).0
}

#[test]
fn reasons_name_what_stops_polling() {
    assert_eq!(PollState::AiDisabled.reason(), "not polling: AI features are disabled");
    assert_eq!(
        PollState::Disabled.reason(),
        "not polling: status_bar.copilot_usage_button is disabled"
    );
    assert_eq!(
        PollState::NotSignedIn.reason(),
        "not polling: not signed in to GitHub Copilot Chat"
    );
    assert_eq!(PollState::Polling.reason(), "polling for usage");
}

#[test]
fn only_enabled_indicators_are_allowed() {
    assert!(is_allowed(ON));
    assert!(!is_allowed(AI_OFF));
    assert!(!is_allowed(BUTTON_OFF));
    assert!(!is_allowed(ALL_OFF));
}

#[test]
fn new_indicators_poll_when_enabled_and_signed_in() {
    let expected = [
        (ON, true, LogLevel::Info, "polling for usage", TaskChange::Start),
        (
            ON,
            false,
            LogLevel::Debug,
            "not polling: not signed in to GitHub Copilot Chat",
            TaskChange::Keep,
        ),
        (
            AI_OFF,
            true,
            LogLevel::Debug,
            "not polling: AI features are disabled",
            TaskChange::Keep,
        ),
        (
            BUTTON_OFF,
            false,
            LogLevel::Debug,
            "not polling: status_bar.copilot_usage_button is disabled",
            TaskChange::Keep,
        ),
        (
            ALL_OFF,
            false,
            LogLevel::Debug,
            "not polling: AI features are disabled",
            TaskChange::Keep,
        ),
    ];
    for (settings, signed_in, level, reason, task) in expected {
        let (indicator, effects) = CopilotUsageIndicator::new(settings, signed_in);
        let message = format!("GitHub Copilot usage indicator {reason}");
        assert_eq!(logged(&effects), Some((level, message.as_str())));
        assert!(!effects.notify);
        assert_eq!(effects.task, task);
        assert!(indicator.render(ON).is_none());
    }
}

#[test]
fn syncing_again_does_nothing() {
    for settings in [ON, AI_OFF, BUTTON_OFF, ALL_OFF] {
        for signed_in in [false, true] {
            let (mut indicator, _) = CopilotUsageIndicator::new(settings, signed_in);
            let effects = indicator.sync_polling(settings, signed_in);
            assert_eq!(logged(&effects), None);
            assert!(!effects.notify);
            assert_eq!(effects.task, TaskChange::Keep);
        }
    }
}

#[test]
fn syncing_keeps_the_reading_of_a_running_poll() {
    let mut indicator = polling();
    indicator.finish_fetch(FetchResult::Fetched(usage(60)));
    indicator.sync_polling(ON, true);
    assert_eq!(label(&indicator, ON).as_deref(), Some("Copilot Chat: 60/300"));
}

#[test]
fn signing_out_stops_and_clears() {
    let mut indicator = polling();
    indicator.finish_fetch(FetchResult::Fetched(usage(60)));
    let effects = indicator.sync_polling(ON, false);
    assert_eq!(
        logged(&effects),
        Some((
            LogLevel::Debug,
            "GitHub Copilot usage indicator not polling: not signed in to GitHub Copilot Chat"
        ))
    );
    assert!(effects.notify);
    assert_eq!(effects.task, TaskChange::Stop);
    assert_eq!(label(&indicator, ON), None);

    // Another reason not to poll is logged, but there is nothing left to stop.
    let effects = indicator.sync_polling(AI_OFF, false);
    assert!(effects.log.is_some());
    assert!(!effects.notify);
    assert_eq!(effects.task, TaskChange::Keep);

    // Signing in starts anew, without the old reading.
    let effects = indicator.sync_polling(ON, true);
    assert_eq!(
        logged(&effects),
        Some((LogLevel::Info, "GitHub Copilot usage indicator polling for usage"))
    );
    assert!(!effects.notify);
    assert_eq!(effects.task, TaskChange::Start);
    assert_eq!(label(&indicator, ON), None);
}

#[test]
fn stopping_before_the_first_reading_is_drawn() {
    let mut indicator = polling();
    let effects = indicator.sync_polling(BUTTON_OFF, true);
    assert!(effects.notify);
    assert_eq!(effects.task, TaskChange::Stop);
}

#[test]
fn readings_are_shown() {
    let mut indicator = polling();
    let effects = indicator.finish_fetch(FetchResult::Fetched(usage(60)));
    assert!(effects.notify);
    assert_eq!(logged(&effects), None);
    assert_eq!(effects.task, TaskChange::Keep);
    assert_eq!(label(&indicator, ON).as_deref(), Some("Copilot Chat: 60/300"));
    indicator.finish_fetch(FetchResult::Fetched(usage(61)));
    assert_eq!(label(&indicator, ON).as_deref(), Some("Copilot Chat: 61/300"));
    // Not while the indicator may not run.
    for settings in [AI_OFF, BUTTON_OFF, ALL_OFF] {
        assert_eq!(label(&indicator, settings), None);
    }
}

#[test]
fn failures_keep_the_last_reading() {
    let mut indicator = polling();
    indicator.finish_fetch(FetchResult::Fetched(usage(60)));
    let effects = indicator.finish_fetch(FetchResult::Failed("timed out".to_string()));
    assert!(!effects.notify);
    assert_eq!(
        logged(&effects),
        Some((LogLevel::Warn, "Failed to fetch GitHub Copilot usage: timed out"))
    );
    assert_eq!(effects.task, TaskChange::Keep);
    assert_eq!(label(&indicator, ON).as_deref(), Some("Copilot Chat: 60/300"));
}

#[test]
fn late_results_of_a_stopped_poll_are_dropped() {
    let mut indicator = polling();
    indicator.sync_polling(ON, false);
    for result in [FetchResult::Fetched(usage(60)), FetchResult::Failed("late".to_string())] {
        let effects = indicator.finish_fetch(result);
        assert!(!effects.notify);
        assert_eq!(logged(&effects), None);
        assert_eq!(label(&indicator, ON), None);
    }
}

#[test]
fn labels_spell_out_the_usage() {
    let mut indicator = polling();
    indicator.finish_fetch(FetchResult::Fetched(usage(60)));
    let UsageLabel { label, aria_label, meta } = indicator.render(ON).unwrap();
    assert_eq!(label, "Copilot Chat: 60/300");
    assert_eq!(aria_label, "GitHub Copilot Chat usage: 60 of 300 AI credits");
    assert_eq!(
        meta,
        "Plan: individual\nUsage this cycle: 60/300 AI credits\nResets on 2025-02-15"
    );
    assert_eq!(TOOLTIP_TITLE, "GitHub Copilot Chat Usage");
}

#[test]
fn unknown_plan_and_date_are_left_out() {
    let mut indicator = polling();
    let mut bare = usage(0);
    bare.plan = None;
    bare.resets_on = None;
    indicator.finish_fetch(FetchResult::Fetched(bare));
    assert_eq!(indicator.render(ON).unwrap().meta, "Usage this cycle: 0/300 AI credits");
}

#[test]
fn unmetered_accounts_show_nothing() {
    let mut indicator = polling();
    indicator.finish_fetch(FetchResult::Fetched(usage(60)));
    let mut unmetered = usage(0);
    unmetered.premium_interactions = None;
    let effects = indicator.finish_fetch(FetchResult::Fetched(unmetered));
    assert!(effects.notify);
    assert!(indicator.render(ON).is_none());
}

#[test]
fn polling_alternates_fetches_and_waits() {
    let due = |indicator_alive, chat_available| {
        poll_step(PollEvent::FetchDue { indicator_alive, chat_available })
    };
    assert_eq!(due(true, true), PollAction::Fetch);
    assert_eq!(due(true, false), PollAction::Stop);
    assert_eq!(due(false, true), PollAction::Stop);
    assert_eq!(due(false, false), PollAction::Stop);
    assert_eq!(
        poll_step(PollEvent::FetchSucceeded { indicator_alive: true }),
        PollAction::Wait { seconds: 300 }
    );
    assert_eq!(
        poll_step(PollEvent::FetchSucceeded { indicator_alive: false }),
        PollAction::Stop
    );
    assert_eq!(poll_step(PollEvent::FetchFailed), PollAction::Wait { seconds: 300 });
    assert_eq!(REFRESH_INTERVAL_SECS, 300);
}

#[test]
fn hiding_turns_the_button_off() {
    for copilot_usage_button in [None, Some(true), Some(false)] {
        let mut settings = SettingsContent {
            status_bar: Some(StatusBarSettingsContent { copilot_usage_button, rest: 7u8 }),
            rest: "others",
        };
        hide_setting(&mut settings);
        assert_eq!(
            settings,
            SettingsContent {
                status_bar: Some(StatusBarSettingsContent {
                    copilot_usage_button: Some(false),
                    rest: 7u8,
                }),
                rest: "others",
            }
        );
    }
}

#[test]
fn hiding_adds_status_bar_settings_where_there_are_none() {
    let mut settings: SettingsContent<u8, &str> = SettingsContent {
        status_bar: None,
        rest: "others",
    };
    hide_setting(&mut settings);
    assert_eq!(
        settings,
        SettingsContent {
            status_bar: Some(StatusBarSettingsContent {
                copilot_usage_button: Some(false),
                rest: 0,
            }),
            rest: "others",
        }
    );
}
