//! Status bar indicator showing the signed-in GitHub Copilot account's usage for the current
//! billing cycle: when it polls, what it keeps and what it shows.
use crate::copilot_usage::{CopilotUsage, QuotaUsage, UsageModel};
use crate::text;
use crate::text::{followed_by, decimal_text, join_lines};
use vstd::prelude::*;
use vstd::string::*;

verus! {

/// GitHub's quota snapshots only change as requests are made, so a slow poll keeps the indicator
/// roughly current without adding meaningful traffic to an undocumented endpoint.
pub const REFRESH_INTERVAL_SECS: u64 = 5 * 60;

/// The title of the indicator's tooltip.
pub const TOOLTIP_TITLE: &'static str = "GitHub Copilot Chat Usage";

/// Why the indicator is or isn't polling. Tracked so the reason can be logged on transitions
/// only: `sync_polling` runs on every settings change and every chat notification, which is far
/// too often to log unconditionally.
#[derive(Debug, Clone, Copy, PartialEq, Eq, Structural)]
pub enum PollState {
    AiDisabled,
    Disabled,
    NotSignedIn,
    Polling,
}

impl PollState {
    /// What the log says of the state.
    pub open spec fn reason_text(self) -> Seq<char> {
        match self {
            PollState::AiDisabled => "not polling: AI features are disabled"@,
            PollState::Disabled => "not polling: status_bar.copilot_usage_button is disabled"@,
            PollState::NotSignedIn => "not polling: not signed in to GitHub Copilot Chat"@,
            PollState::Polling => "polling for usage"@,
        }
    }

    /// What the log says of the state.
    pub fn reason(self) -> (reason: &'static str)
        ensures
            reason@ == self.reason_text(),
    {
        match self {
            PollState::AiDisabled => "not polling: AI features are disabled",
            PollState::Disabled => "not polling: status_bar.copilot_usage_button is disabled",
            PollState::NotSignedIn => "not polling: not signed in to GitHub Copilot Chat",
            PollState::Polling => "polling for usage",
        }
    }
}

/// The settings that decide about the indicator.
#[derive(Debug, Clone, Copy, PartialEq, Eq, Structural)]
pub struct IndicatorSettings {
    pub disable_ai: bool,
    pub copilot_usage_button: bool,
}

impl IndicatorSettings {
    /// Whether the indicator may run at all.
    pub open spec fn allowed(self) -> bool {
        !self.disable_ai && self.copilot_usage_button
    }
}

/// Whether the indicator may run at all. The chat service can hold a valid token while AI is
/// turned off; without this gate the indicator would keep calling GitHub's API.
pub fn is_allowed(settings: IndicatorSettings) -> (allowed: bool)
    ensures
        allowed == settings.allowed(),
{
    !settings.disable_ai && settings.copilot_usage_button
}

/// The state that the settings and the account call for: the first reason not to poll, or else
/// to poll.
pub open spec fn wanted_state(settings: IndicatorSettings, signed_in: bool) -> PollState {
    if settings.disable_ai {
        PollState::AiDisabled
    } else if !settings.copilot_usage_button {
        PollState::Disabled
    } else if !signed_in {
        PollState::NotSignedIn
    } else {
        PollState::Polling
    }
}

#[derive(Debug, Clone, Copy, PartialEq, Eq, Structural)]
pub enum LogLevel {
    Warn,
    Info,
    Debug,
}

/// A line for the log.
#[derive(Debug)]
pub struct LogEntry {
    pub level: LogLevel,
    pub message: String,
}

/// What becomes of the task that polls.
#[derive(Debug, Clone, Copy, PartialEq, Eq, Structural)]
pub enum TaskChange {
    Keep,
    Start,
    Stop,
}

/// What the host has to do after the indicator has changed.
#[derive(Debug)]
pub struct Effects {
    pub log: Option<LogEntry>,
    /// Whether the indicator has to be drawn anew.
    pub notify: bool,
    pub task: TaskChange,
}

/// What a `LogEntry` holds.
pub struct LogModel {
    pub level: LogLevel,
    pub message: Seq<char>,
}

/// What `Effects` hold.
pub struct EffectsModel {
    pub log: Option<LogModel>,
    pub notify: bool,
    pub task: TaskChange,
}

impl View for Effects {
    type V = EffectsModel;

    open spec fn view(&self) -> EffectsModel {
        EffectsModel {
            log: match self.log {
                Some(entry) => Some(LogModel { level: entry.level, message: entry.message@ }),
                None => None,
            },
            notify: self.notify,
            task: self.task,
        }
    }
}

/// Nothing to do.
pub open spec fn no_effects() -> EffectsModel {
    EffectsModel { log: None, notify: false, task: TaskChange::Keep }
}

/// The indicator.
pub struct CopilotUsageIndicator {
    usage: Option<CopilotUsage>,
    poll_task: bool,
    poll_state: Option<PollState>,
}

/// What a `CopilotUsageIndicator` holds.
pub struct IndicatorModel {
    /// The last reading.
    pub usage: Option<UsageModel>,
    /// Whether there is a task that polls. One that has ended by itself counts until it is stopped.
    pub poll_task: bool,
    /// Why there is one or isn't, once that has been decided.
    pub poll_state: Option<PollState>,
}

impl View for CopilotUsageIndicator {
    type V = IndicatorModel;

    closed spec fn view(&self) -> IndicatorModel {
        IndicatorModel {
            usage: match self.usage {
                Some(usage) => Some(usage@),
                None => None,
            },
            poll_task: self.poll_task,
            poll_state: self.poll_state,
        }
    }
}

impl IndicatorModel {
    /// There is a task exactly in the polling state, and a reading only beside a task.
    pub open spec fn consistent(self) -> bool {
        &&& self.poll_task <==> self.poll_state == Some(PollState::Polling)
        &&& self.usage is Some ==> self.poll_task
    }

    /// The indicator before anything is known.
    pub open spec fn initial() -> IndicatorModel {
        IndicatorModel { usage: None, poll_task: false, poll_state: None }
    }

    /// The indicator in the state `state`: it keeps its reading only while it polls.
    pub open spec fn synced(self, state: PollState) -> IndicatorModel {
        let polling = state == PollState::Polling;
        IndicatorModel {
            usage: if polling {
                self.usage
            } else {
                None
            },
            poll_task: polling,
            poll_state: Some(state),
        }
    }

    /// What bringing the indicator into the state `state` takes: a line in the log on a
    /// transition, and a drawing where a task or a reading went away.
    pub open spec fn sync_effects(self, state: PollState) -> EffectsModel {
        let polling = state == PollState::Polling;
        EffectsModel {
            log: if self.poll_state == Some(state) {
                None
            } else {
                Some(
                    LogModel {
                        level: if polling {
                            LogLevel::Info
                        } else {
                            LogLevel::Debug
                        },
                        message: "GitHub Copilot usage indicator "@ + state.reason_text(),
                    },
                )
            },
            notify: !polling && (self.poll_task || self.usage is Some),
            task: if polling && !self.poll_task {
                TaskChange::Start
            } else if !polling && self.poll_task {
                TaskChange::Stop
            } else {
                TaskChange::Keep
            },
        }
    }
}

impl CopilotUsageIndicator {
    /// An indicator that polls if the settings and the account call for it.
    pub fn new(settings: IndicatorSettings, signed_in: bool) -> (created: (Self, Effects))
        ensures
            created.0@.consistent(),
            created.0@ == IndicatorModel::initial().synced(wanted_state(settings, signed_in)),
            created.1@ == IndicatorModel::initial().sync_effects(
                wanted_state(settings, signed_in),
            ),
    {
        let mut indicator = CopilotUsageIndicator {
            usage: None,
            poll_task: false,
            poll_state: None,
        };
        let effects = indicator.sync_polling(settings, signed_in);
        (indicator, effects)
    }

    /// Starts polling when the indicator is enabled and Copilot is signed in, and stops it
    /// otherwise. Cheap to call repeatedly: an already-running poll is left alone so unrelated
    /// notifications don't restart the loop.
    pub fn sync_polling(&mut self, settings: IndicatorSettings, signed_in: bool) -> (effects:
        Effects)
        ensures
            final(self)@.consistent(),
            final(self)@ == old(self)@.synced(wanted_state(settings, signed_in)),
            effects@ == old(self)@.sync_effects(wanted_state(settings, signed_in)),
    {
        let state = if settings.disable_ai {
            PollState::AiDisabled
        } else if !settings.copilot_usage_button {
            PollState::Disabled
        } else if !signed_in {
            PollState::NotSignedIn
        } else {
            PollState::Polling
        };
        let polling = state == PollState::Polling;
        let unchanged = match self.poll_state {
            Some(known) => known == state,
            None => false,
        };
        self.poll_state = Some(state);
        // Only the polling case is logged at `info`. The inactive cases are the norm for the many
        // users who never sign in to Copilot Chat, so logging those unconditionally would add
        // noise to every session.
        let log = if unchanged {
            None
        } else {
            let level = if polling {
                LogLevel::Info
            } else {
                LogLevel::Debug
            };
            let message = followed_by("GitHub Copilot usage indicator ", state.reason());
            Some(LogEntry { level, message })
        };
        let had_poll_task = self.poll_task;
        self.poll_task = polling;
        if polling {
            let task = if had_poll_task {
                TaskChange::Keep
            } else {
                TaskChange::Start
            };
            return Effects { log, notify: false, task };
        }
        // Both go: keeping the reading would leave a stale one on screen after signing out.
        let had_usage = self.usage.is_some();
        self.usage = None;
        let task = if had_poll_task {
            TaskChange::Stop
        } else {
            TaskChange::Keep
        };
        Effects { log, notify: had_poll_task || had_usage, task }
    }
}

/// What a fetch brought.
#[derive(Debug)]
pub enum FetchResult {
    Fetched(CopilotUsage),
    /// The reason why it failed.
    Failed(String),
}

/// What a `FetchResult` holds.
pub enum FetchModel {
    Fetched(UsageModel),
    Failed(Seq<char>),
}

impl View for FetchResult {
    type V = FetchModel;

    open spec fn view(&self) -> FetchModel {
        match self {
            FetchResult::Fetched(usage) => FetchModel::Fetched(usage@),
            FetchResult::Failed(error) => FetchModel::Failed(error@),
        }
    }
}

impl IndicatorModel {
    /// The indicator after a fetch: a reading replaces the last one, and a failure leaves it. What
    /// comes in after the task was stopped is dropped.
    pub open spec fn fetched(self, result: FetchModel) -> IndicatorModel {
        match result {
            FetchModel::Fetched(usage) if self.poll_task => IndicatorModel {
                usage: Some(usage),
                ..self
            },
            _ => self,
        }
    }

    /// What a fetch takes: a drawing of the new reading, or a line in the log.
    pub open spec fn fetch_effects(self, result: FetchModel) -> EffectsModel {
        if !self.poll_task {
            no_effects()
        } else {
            match result {
                FetchModel::Fetched(_) => EffectsModel {
                    log: None,
                    notify: true,
                    task: TaskChange::Keep,
                },
                FetchModel::Failed(error) => EffectsModel {
                    log: Some(
                        LogModel {
                            level: LogLevel::Warn,
                            message: "Failed to fetch GitHub Copilot usage: "@ + error,
                        },
                    ),
                    notify: false,
                    task: TaskChange::Keep,
                },
            }
        }
    }
}

impl CopilotUsageIndicator {
    /// Takes in what a fetch of the polling task brought. A failure keeps any previously fetched
    /// value on screen rather than flickering the indicator away.
    pub fn finish_fetch(&mut self, result: FetchResult) -> (effects: Effects)
        ensures
            old(self)@.consistent() ==> final(self)@.consistent(),
            final(self)@ == old(self)@.fetched(result@),
            effects@ == old(self)@.fetch_effects(result@),
    {
        if !self.poll_task {
            return Effects { log: None, notify: false, task: TaskChange::Keep };
        }
        match result {
            FetchResult::Fetched(usage) => {
                self.usage = Some(usage);
                Effects { log: None, notify: true, task: TaskChange::Keep }
            },
            FetchResult::Failed(error) => {
                let message = followed_by("Failed to fetch GitHub Copilot usage: ", error.as_str());
                Effects {
                    log: Some(LogEntry { level: LogLevel::Warn, message }),
                    notify: false,
                    task: TaskChange::Keep,
                }
            },
        }
    }
}

/// What the polling task has just seen.
#[derive(Debug, Clone, Copy, PartialEq, Eq, Structural)]
pub enum PollEvent {
    /// It is time to fetch, because the task has started or the last wait is over.
    FetchDue { indicator_alive: bool, chat_available: bool },
    /// A fetch has brought a reading.
    FetchSucceeded { indicator_alive: bool },
    /// A fetch has failed.
    FetchFailed,
}

/// What the polling task does next.
#[derive(Debug, Clone, Copy, PartialEq, Eq, Structural)]
pub enum PollAction {
    Fetch,
    Wait { seconds: u64 },
    Stop,
}

/// What the polling task does next: it fetches and waits in turn, and ends once there is nothing
/// to fetch from or nobody to show a reading.
pub open spec fn next_action(event: PollEvent) -> PollAction {
    match event {
        PollEvent::FetchDue { indicator_alive, chat_available } => if indicator_alive
            && chat_available {
            PollAction::Fetch
        } else {
            PollAction::Stop
        },
        PollEvent::FetchSucceeded { indicator_alive: false } => PollAction::Stop,
        _ => PollAction::Wait { seconds: REFRESH_INTERVAL_SECS },
    }
}

/// Decides what the polling task does next.
pub fn poll_step(event: PollEvent) -> (action: PollAction)
    ensures
        action == next_action(event),
{
    match event {
        PollEvent::FetchDue { indicator_alive, chat_available } => {
            if indicator_alive && chat_available {
                PollAction::Fetch
            } else {
                PollAction::Stop
            }
        },
        PollEvent::FetchSucceeded { indicator_alive } => {
            if indicator_alive {
                PollAction::Wait { seconds: REFRESH_INTERVAL_SECS }
            } else {
                PollAction::Stop
            }
        },
        PollEvent::FetchFailed => PollAction::Wait { seconds: REFRESH_INTERVAL_SECS },
    }
}

/// What the indicator shows.
#[derive(Debug)]
pub struct UsageLabel {
    pub label: String,
    /// The label spelled out for screen readers, which read "/" poorly.
    pub aria_label: String,
    /// The text below the title of the tooltip.
    pub meta: String,
}

/// What a `UsageLabel` holds.
pub struct LabelModel {
    pub label: Seq<char>,
    pub aria_label: Seq<char>,
    pub meta: Seq<char>,
}

impl View for UsageLabel {
    type V = LabelModel;

    open spec fn view(&self) -> LabelModel {
        LabelModel { label: self.label@, aria_label: self.aria_label@, meta: self.meta@ }
    }
}

/// The lines of the tooltip: the plan and the reset date where they are known, and the usage.
pub open spec fn meta_lines(usage: UsageModel, quota: QuotaUsage) -> Seq<Seq<char>> {
    let plan = match usage.plan {
        Some(plan) => seq!["Plan: "@ + plan],
        None => Seq::empty(),
    };
    let used = seq![
        "Usage this cycle: "@ + text::decimal(quota.used as nat) + "/"@ + text::decimal(
            quota.entitlement as nat,
        ) + " AI credits"@,
    ];
    let reset = match usage.reset_date() {
        Some(date) => seq!["Resets on "@ + date],
        None => Seq::empty(),
    };
    plan + used + reset
}

/// The label for a metered quota.
pub open spec fn quota_label(usage: UsageModel, quota: QuotaUsage) -> LabelModel {
    let used = text::decimal(quota.used as nat);
    let entitlement = text::decimal(quota.entitlement as nat);
    let lines = meta_lines(usage, quota);
    LabelModel {
        label: "Copilot Chat: "@ + used + "/"@ + entitlement,
        aria_label: "GitHub Copilot Chat usage: "@ + used + " of "@ + entitlement + " AI credits"@,
        meta: text::joined(lines, lines.len()),
    }
}

impl IndicatorModel {
    /// What the indicator shows: nothing where it may not run, and nothing for accounts without a
    /// metered AI-credit quota.
    pub open spec fn shown(self, settings: IndicatorSettings) -> Option<LabelModel> {
        match self.usage {
            Some(usage) if settings.allowed() => match usage.premium_interactions {
                Some(quota) => Some(quota_label(usage, quota)),
                None => None,
            },
            _ => None,
        }
    }
}

/// Writes the tooltip's text.
fn meta_text(usage: &CopilotUsage, quota: QuotaUsage, used: &str, entitlement: &str) -> (meta:
    String)
    requires
        used@ == text::decimal(quota.used as nat),
        entitlement@ == text::decimal(quota.entitlement as nat),
    ensures
        meta@ == text::joined(meta_lines(usage@, quota), meta_lines(usage@, quota).len()),
{
    let mut lines: Vec<String> = Vec::new();
    if let Some(plan) = &usage.plan {
        lines.push(followed_by("Plan: ", plan.as_str()));
    }
    let mut line = followed_by("Usage this cycle: ", used);
    line.append("/");
    line.append(entitlement);
    line.append(" AI credits");
    lines.push(line);
    if let Some(date) = usage.reset_date() {
        lines.push(followed_by("Resets on ", date));
    }
    assert(text::contents(lines@) =~= meta_lines(usage@, quota));
    join_lines(&lines)
}

impl CopilotUsageIndicator {
    /// What the indicator shows, or `None` where it stays hidden.
    pub fn render(&self, settings: IndicatorSettings) -> (shown: Option<UsageLabel>)
        ensures
            shown is Some <==> self@.shown(settings) is Some,
            shown matches Some(label) ==> self@.shown(settings) == Some(label@),
    {
        if !is_allowed(settings) {
            return None;
        }
        let usage = match &self.usage {
            Some(usage) => usage,
            None => return None,
        };
        let quota = match usage.premium_interactions {
            Some(quota) => quota,
            None => return None,
        };
        let used = decimal_text(quota.used);
        let entitlement = decimal_text(quota.entitlement);
        let mut label = followed_by("Copilot Chat: ", used.as_str());
        label.append("/");
        label.append(entitlement.as_str());
        let mut aria_label = followed_by("GitHub Copilot Chat usage: ", used.as_str());
        aria_label.append(" of ");
        aria_label.append(entitlement.as_str());
        aria_label.append(" AI credits");
        let meta = meta_text(usage, quota, used.as_str(), entitlement.as_str());
        Some(UsageLabel { label, aria_label, meta })
    }
}

/// The user's status bar settings: the one of the indicator, and the rest.
#[derive(Debug, PartialEq, Eq)]
pub struct StatusBarSettingsContent<B> {
    pub copilot_usage_button: Option<bool>,
    pub rest: B,
}

/// The user's settings: those of the status bar, and the rest.
#[derive(Debug, PartialEq, Eq)]
pub struct SettingsContent<B, S> {
    pub status_bar: Option<StatusBarSettingsContent<B>>,
    pub rest: S,
}

/// Turns the indicator off in the user's settings and leaves all other settings as they are. Where
/// there are none of the status bar yet, the other ones of it take their defaults.
pub fn hide_setting<B: Default, S>(settings: &mut SettingsContent<B, S>)
    ensures
        final(settings).rest == old(settings).rest,
        final(settings).status_bar matches Some(bar) && bar.copilot_usage_button == Some(false)
            && match old(settings).status_bar {
            Some(before) => bar.rest == before.rest,
            None => call_ensures(B::default, (), bar.rest),
        },
{
    let rest = match settings.status_bar.take() {
        Some(status_bar) => status_bar.rest,
        None => B::default(),
    };
    settings.status_bar = Some(
        StatusBarSettingsContent { copilot_usage_button: Some(false), rest },
    );
}

/// The indicator polls exactly when it may run and the account is signed in.
pub proof fn law_polls_when_allowed(settings: IndicatorSettings, signed_in: bool)
    ensures
        wanted_state(settings, signed_in) == PollState::Polling <==> settings.allowed()
            && signed_in,
{
}

/// Syncing again with nothing changed does nothing: the running poll is left alone, nothing is
/// logged, and nothing is drawn.
pub proof fn law_sync_again_does_nothing(indicator: IndicatorModel, state: PollState)
    ensures
        indicator.synced(state).synced(state) == indicator.synced(state),
        indicator.synced(state).sync_effects(state) == no_effects(),
{
}

/// A sync is logged exactly if it changes the state.
pub proof fn law_log_on_transitions_only(indicator: IndicatorModel, state: PollState)
    ensures
        indicator.sync_effects(state).log is Some <==> indicator.poll_state
            != indicator.synced(state).poll_state,
{
}

/// Once the indicator does not poll, it has neither a task nor a reading, and shows nothing,
/// whatever the settings.
pub proof fn law_nothing_stale_is_kept(
    indicator: IndicatorModel,
    state: PollState,
    settings: IndicatorSettings,
)
    requires
        state != PollState::Polling,
    ensures
        !indicator.synced(state).poll_task,
        indicator.synced(state).usage is None,
        indicator.synced(state).shown(settings) is None,
{
}

/// While AI is turned off, or the indicator is, nothing is fetched and nothing is shown, signed in
/// or not.
pub proof fn law_silent_unless_allowed(
    indicator: IndicatorModel,
    settings: IndicatorSettings,
    signed_in: bool,
)
    requires
        settings.disable_ai || !settings.copilot_usage_button,
    ensures
        !indicator.synced(wanted_state(settings, signed_in)).poll_task,
        indicator.sync_effects(wanted_state(settings, signed_in)).task != TaskChange::Start,
        indicator.shown(settings) is None,
{
}

/// A failed fetch leaves the indicator and what it shows as they were, and the next fetch comes
/// after the usual wait.
pub proof fn law_failure_keeps_reading(
    indicator: IndicatorModel,
    error: Seq<char>,
    settings: IndicatorSettings,
)
    ensures
        indicator.fetched(FetchModel::Failed(error)) == indicator,
        indicator.fetched(FetchModel::Failed(error)).shown(settings) == indicator.shown(settings),
        !indicator.fetch_effects(FetchModel::Failed(error)).notify,
        next_action(PollEvent::FetchFailed) == (PollAction::Wait {
            seconds: REFRESH_INTERVAL_SECS,
        }),
{
}

/// While the indicator polls and may run, it shows the latest reading, if that has a metered
/// quota, and otherwise nothing.
pub proof fn law_latest_reading_is_shown(
    indicator: IndicatorModel,
    usage: UsageModel,
    settings: IndicatorSettings,
)
    requires
        indicator.poll_task,
        settings.allowed(),
    ensures
        indicator.fetched(FetchModel::Fetched(usage)).shown(settings)
            == match usage.premium_interactions {
            Some(quota) => Some(quota_label(usage, quota)),
            None => None,
        },
{
}

/// Whatever changes what is shown also asks for a drawing.
pub proof fn law_changes_are_drawn(
    indicator: IndicatorModel,
    state: PollState,
    result: FetchModel,
    settings: IndicatorSettings,
)
    ensures
        indicator.synced(state).shown(settings) != indicator.shown(settings)
            ==> indicator.sync_effects(state).notify,
        indicator.fetched(result).shown(settings) != indicator.shown(settings)
            ==> indicator.fetch_effects(result).notify,
{
}

/// Something that happens to an indicator.
pub enum IndicatorEvent {
    Synced { settings: IndicatorSettings, signed_in: bool },
    FetchFinished { result: FetchModel },
}

/// A new indicator after a sequence of events.
pub open spec fn after(events: Seq<IndicatorEvent>) -> IndicatorModel
    decreases events.len(),
{
    if events.len() == 0 {
        IndicatorModel::initial()
    } else {
        let before = after(events.drop_last());
        match events.last() {
            IndicatorEvent::Synced { settings, signed_in } => before.synced(
                wanted_state(settings, signed_in),
            ),
            IndicatorEvent::FetchFinished { result } => before.fetched(result),
        }
    }
}

/// Whatever happens to an indicator, there is a task exactly in the polling state, and a reading
/// only beside a task.
pub proof fn law_always_consistent(events: Seq<IndicatorEvent>)
    ensures
        after(events).consistent(),
    decreases events.len(),
{
    if events.len() > 0 {
        law_always_consistent(events.drop_last());
    }
}

} // verus!
