//! Settings with a fixed set of values.

use vstd::prelude::*;

use crate::text::same_str;

verus! {

/// How changes of the configuration file are noticed.
#[derive(Debug, Clone, Copy, PartialEq, Eq, Structural)]
pub enum WatchMode {
    Auto,
    Notify,
    Poll,
}

impl WatchMode {
    /// The choice that a text names.
    pub open spec fn of(value: Seq<char>) -> Option<WatchMode> {
        if value == "auto"@ {
            Some(WatchMode::Auto)
        } else if value == "notify"@ {
            Some(WatchMode::Notify)
        } else if value == "poll"@ {
            Some(WatchMode::Poll)
        } else {
            None
        }
    }

    pub fn parse(value: &str) -> (r: Option<WatchMode>)
        ensures
            r == WatchMode::of(value@),
    {
        if same_str(value, "auto") {
            Some(WatchMode::Auto)
        } else if same_str(value, "notify") {
            Some(WatchMode::Notify)
        } else if same_str(value, "poll") {
            Some(WatchMode::Poll)
        } else {
            None
        }
    }
}

/// Whether the switcher starts with the session.
#[derive(Debug, Clone, Copy, PartialEq, Eq, Structural)]
pub enum StartupEnabled {
    Auto,
    Yes,
    No,
}

impl StartupEnabled {
    /// The choice that a text names.
    pub open spec fn of(value: Seq<char>) -> Option<StartupEnabled> {
        if value == "auto"@ {
            Some(StartupEnabled::Auto)
        } else if value == "yes"@ {
            Some(StartupEnabled::Yes)
        } else if value == "no"@ {
            Some(StartupEnabled::No)
        } else {
            None
        }
    }

    pub fn parse(value: &str) -> (r: Option<StartupEnabled>)
        ensures
            r == StartupEnabled::of(value@),
    {
        if same_str(value, "auto") {
            Some(StartupEnabled::Auto)
        } else if same_str(value, "yes") {
            Some(StartupEnabled::Yes)
        } else if same_str(value, "no") {
            Some(StartupEnabled::No)
        } else {
            None
        }
    }
}

/// The privileges with which the switcher starts.
#[derive(Debug, Clone, Copy, PartialEq, Eq, Structural)]
pub enum RunLevel {
    Inherit,
    Standard,
    Highest,
}

impl RunLevel {
    /// The choice that a text names.
    pub open spec fn of(value: Seq<char>) -> Option<RunLevel> {
        if value == "inherit"@ {
            Some(RunLevel::Inherit)
        } else if value == "standard"@ {
            Some(RunLevel::Standard)
        } else if value == "highest"@ {
            Some(RunLevel::Highest)
        } else {
            None
        }
    }

    pub fn parse(value: &str) -> (r: Option<RunLevel>)
        ensures
            r == RunLevel::of(value@),
    {
        if same_str(value, "inherit") {
            Some(RunLevel::Inherit)
        } else if same_str(value, "standard") {
            Some(RunLevel::Standard)
        } else if same_str(value, "highest") {
            Some(RunLevel::Highest)
        } else {
            None
        }
    }
}

/// Whether the switcher starts on battery power.
#[derive(Debug, Clone, Copy, PartialEq, Eq, Structural)]
pub enum BatteryPolicy {
    Inherit,
    Allow,
    Stop,
}

impl BatteryPolicy {
    /// The choice that a text names.
    pub open spec fn of(value: Seq<char>) -> Option<BatteryPolicy> {
        if value == "inherit"@ {
            Some(BatteryPolicy::Inherit)
        } else if value == "allow"@ {
            Some(BatteryPolicy::Allow)
        } else if value == "stop"@ {
            Some(BatteryPolicy::Stop)
        } else {
            None
        }
    }

    pub fn parse(value: &str) -> (r: Option<BatteryPolicy>)
        ensures
            r == BatteryPolicy::of(value@),
    {
        if same_str(value, "inherit") {
            Some(BatteryPolicy::Inherit)
        } else if same_str(value, "allow") {
            Some(BatteryPolicy::Allow)
        } else if same_str(value, "stop") {
            Some(BatteryPolicy::Stop)
        } else {
            None
        }
    }
}

/// The language of messages.
#[derive(Debug, Clone, Copy, PartialEq, Eq, Structural)]
pub enum Language {
    Chinese,
    English,
    Auto,
}

impl Language {
    /// The choice that a text names.
    pub open spec fn of(value: Seq<char>) -> Option<Language> {
        if value == "zh-CN"@ {
            Some(Language::Chinese)
        } else if value == "en-US"@ {
            Some(Language::English)
        } else if value == "auto"@ {
            Some(Language::Auto)
        } else {
            None
        }
    }

    pub fn parse(value: &str) -> (r: Option<Language>)
        ensures
            r == Language::of(value@),
    {
        if same_str(value, "zh-CN") {
            Some(Language::Chinese)
        } else if same_str(value, "en-US") {
            Some(Language::English)
        } else if same_str(value, "auto") {
            Some(Language::Auto)
        } else {
            None
        }
    }
}

/// The monitor on which the panel appears.
#[derive(Debug, Clone, Copy, PartialEq, Eq, Structural)]
pub enum MonitorPolicy {
    Cursor,
    Foreground,
    Primary,
}

impl MonitorPolicy {
    /// The choice that a text names.
    pub open spec fn of(value: Seq<char>) -> Option<MonitorPolicy> {
        if value == "cursor"@ {
            Some(MonitorPolicy::Cursor)
        } else if value == "foreground"@ {
            Some(MonitorPolicy::Foreground)
        } else if value == "primary"@ {
            Some(MonitorPolicy::Primary)
        } else {
            None
        }
    }

    pub fn parse(value: &str) -> (r: Option<MonitorPolicy>)
        ensures
            r == MonitorPolicy::of(value@),
    {
        if same_str(value, "cursor") {
            Some(MonitorPolicy::Cursor)
        } else if same_str(value, "foreground") {
            Some(MonitorPolicy::Foreground)
        } else if same_str(value, "primary") {
            Some(MonitorPolicy::Primary)
        } else {
            None
        }
    }
}

/// The monitors whose windows are listed.
#[derive(Debug, Clone, Copy, PartialEq, Eq, Structural)]
pub enum MonitorFilter {
    All,
    Panel,
    Foreground,
}

impl MonitorFilter {
    /// The choice that a text names.
    pub open spec fn of(value: Seq<char>) -> Option<MonitorFilter> {
        if value == "all"@ {
            Some(MonitorFilter::All)
        } else if value == "panel"@ {
            Some(MonitorFilter::Panel)
        } else if value == "foreground"@ {
            Some(MonitorFilter::Foreground)
        } else {
            None
        }
    }

    pub fn parse(value: &str) -> (r: Option<MonitorFilter>)
        ensures
            r == MonitorFilter::of(value@),
    {
        if same_str(value, "all") {
            Some(MonitorFilter::All)
        } else if same_str(value, "panel") {
            Some(MonitorFilter::Panel)
        } else if same_str(value, "foreground") {
            Some(MonitorFilter::Foreground)
        } else {
            None
        }
    }
}

/// What happens while the foreground application is unknown.
#[derive(Debug, Clone, Copy, PartialEq, Eq, Structural)]
pub enum ForegroundPolicy {
    Passthrough,
    Handle,
}

impl ForegroundPolicy {
    /// The choice that a text names.
    pub open spec fn of(value: Seq<char>) -> Option<ForegroundPolicy> {
        if value == "passthrough"@ {
            Some(ForegroundPolicy::Passthrough)
        } else if value == "handle"@ {
            Some(ForegroundPolicy::Handle)
        } else {
            None
        }
    }

    pub fn parse(value: &str) -> (r: Option<ForegroundPolicy>)
        ensures
            r == ForegroundPolicy::of(value@),
    {
        if same_str(value, "passthrough") {
            Some(ForegroundPolicy::Passthrough)
        } else if same_str(value, "handle") {
            Some(ForegroundPolicy::Handle)
        } else {
            None
        }
    }
}

/// What happens to injected key events.
#[derive(Debug, Clone, Copy, PartialEq, Eq, Structural)]
pub enum InjectedPolicy {
    Handle,
    Passthrough,
}

impl InjectedPolicy {
    /// The choice that a text names.
    pub open spec fn of(value: Seq<char>) -> Option<InjectedPolicy> {
        if value == "handle"@ {
            Some(InjectedPolicy::Handle)
        } else if value == "passthrough"@ {
            Some(InjectedPolicy::Passthrough)
        } else {
            None
        }
    }

    pub fn parse(value: &str) -> (r: Option<InjectedPolicy>)
        ensures
            r == InjectedPolicy::of(value@),
    {
        if same_str(value, "handle") {
            Some(InjectedPolicy::Handle)
        } else if same_str(value, "passthrough") {
            Some(InjectedPolicy::Passthrough)
        } else {
            None
        }
    }
}

/// The supersampling of the panel.
#[derive(Debug, Clone, Copy, PartialEq, Eq, Structural)]
pub enum RenderScale {
    Auto,
    One,
    Two,
    Four,
    Six,
}

impl RenderScale {
    /// The choice that a text names.
    pub open spec fn of(value: Seq<char>) -> Option<RenderScale> {
        if value == "auto"@ {
            Some(RenderScale::Auto)
        } else if value == "1"@ {
            Some(RenderScale::One)
        } else if value == "2"@ {
            Some(RenderScale::Two)
        } else if value == "4"@ {
            Some(RenderScale::Four)
        } else if value == "6"@ {
            Some(RenderScale::Six)
        } else {
            None
        }
    }

    pub fn parse(value: &str) -> (r: Option<RenderScale>)
        ensures
            r == RenderScale::of(value@),
    {
        if same_str(value, "auto") {
            Some(RenderScale::Auto)
        } else if same_str(value, "1") {
            Some(RenderScale::One)
        } else if same_str(value, "2") {
            Some(RenderScale::Two)
        } else if same_str(value, "4") {
            Some(RenderScale::Four)
        } else if same_str(value, "6") {
            Some(RenderScale::Six)
        } else {
            None
        }
    }
}

/// The colour theme.
#[derive(Debug, Clone, Copy, PartialEq, Eq, Structural)]
pub enum Theme {
    Auto,
    Light,
    Dark,
}

impl Theme {
    /// The choice that a text names.
    pub open spec fn of(value: Seq<char>) -> Option<Theme> {
        if value == "auto"@ {
            Some(Theme::Auto)
        } else if value == "light"@ {
            Some(Theme::Light)
        } else if value == "dark"@ {
            Some(Theme::Dark)
        } else {
            None
        }
    }

    pub fn parse(value: &str) -> (r: Option<Theme>)
        ensures
            r == Theme::of(value@),
    {
        if same_str(value, "auto") {
            Some(Theme::Auto)
        } else if same_str(value, "light") {
            Some(Theme::Light)
        } else if same_str(value, "dark") {
            Some(Theme::Dark)
        } else {
            None
        }
    }
}

/// Whether the name of the selected application is shown.
#[derive(Debug, Clone, Copy, PartialEq, Eq, Structural)]
pub enum AppNameMode {
    Off,
    Selected,
}

impl AppNameMode {
    /// The choice that a text names.
    pub open spec fn of(value: Seq<char>) -> Option<AppNameMode> {
        if value == "off"@ {
            Some(AppNameMode::Off)
        } else if value == "selected"@ {
            Some(AppNameMode::Selected)
        } else {
            None
        }
    }

    pub fn parse(value: &str) -> (r: Option<AppNameMode>)
        ensures
            r == AppNameMode::of(value@),
    {
        if same_str(value, "off") {
            Some(AppNameMode::Off)
        } else if same_str(value, "selected") {
            Some(AppNameMode::Selected)
        } else {
            None
        }
    }
}

/// How a search text is matched.
#[derive(Debug, Clone, Copy, PartialEq, Eq, Structural)]
pub enum SearchMatch {
    Fuzzy,
    Contains,
    Prefix,
}

impl SearchMatch {
    /// The choice that a text names.
    pub open spec fn of(value: Seq<char>) -> Option<SearchMatch> {
        if value == "fuzzy"@ {
            Some(SearchMatch::Fuzzy)
        } else if value == "contains"@ {
            Some(SearchMatch::Contains)
        } else if value == "prefix"@ {
            Some(SearchMatch::Prefix)
        } else {
            None
        }
    }

    pub fn parse(value: &str) -> (r: Option<SearchMatch>)
        ensures
            r == SearchMatch::of(value@),
    {
        if same_str(value, "fuzzy") {
            Some(SearchMatch::Fuzzy)
        } else if same_str(value, "contains") {
            Some(SearchMatch::Contains)
        } else if same_str(value, "prefix") {
            Some(SearchMatch::Prefix)
        } else {
            None
        }
    }
}

/// The order of the items of a switch.
#[derive(Debug, Clone, Copy, PartialEq, Eq, Structural)]
pub enum SwitchOrder {
    Existing,
    Mru,
}

impl SwitchOrder {
    /// The choice that a text names.
    pub open spec fn of(value: Seq<char>) -> Option<SwitchOrder> {
        if value == "existing"@ {
            Some(SwitchOrder::Existing)
        } else if value == "mru"@ {
            Some(SwitchOrder::Mru)
        } else {
            None
        }
    }

    pub fn parse(value: &str) -> (r: Option<SwitchOrder>)
        ensures
            r == SwitchOrder::of(value@),
    {
        if same_str(value, "existing") {
            Some(SwitchOrder::Existing)
        } else if same_str(value, "mru") {
            Some(SwitchOrder::Mru)
        } else {
            None
        }
    }
}

/// The shape of the window count badge.
#[derive(Debug, Clone, Copy, PartialEq, Eq, Structural)]
pub enum BadgeShape {
    Circle,
    Square,
}

impl BadgeShape {
    /// The choice that a text names.
    pub open spec fn of(value: Seq<char>) -> Option<BadgeShape> {
        if value == "circle"@ {
            Some(BadgeShape::Circle)
        } else if value == "square"@ {
            Some(BadgeShape::Square)
        } else {
            None
        }
    }

    pub fn parse(value: &str) -> (r: Option<BadgeShape>)
        ensures
            r == BadgeShape::of(value@),
    {
        if same_str(value, "circle") {
            Some(BadgeShape::Circle)
        } else if same_str(value, "square") {
            Some(BadgeShape::Square)
        } else {
            None
        }
    }
}

/// The least severe messages that are recorded.
#[derive(Debug, Clone, Copy, PartialEq, Eq, Structural)]
pub enum LogLevel {
    Off,
    Error,
    Warn,
    Info,
    Debug,
    Trace,
}

impl LogLevel {
    /// The level that a text names, in any case.
    pub open spec fn of(value: Seq<char>) -> Option<LogLevel> {
        if crate::text::same_ignoring_case(value, "OFF"@) {
            Some(LogLevel::Off)
        } else if crate::text::same_ignoring_case(value, "ERROR"@) {
            Some(LogLevel::Error)
        } else if crate::text::same_ignoring_case(value, "WARN"@) {
            Some(LogLevel::Warn)
        } else if crate::text::same_ignoring_case(value, "INFO"@) {
            Some(LogLevel::Info)
        } else if crate::text::same_ignoring_case(value, "DEBUG"@) {
            Some(LogLevel::Debug)
        } else if crate::text::same_ignoring_case(value, "TRACE"@) {
            Some(LogLevel::Trace)
        } else {
            None
        }
    }

    pub fn parse(value: &str) -> (r: Option<LogLevel>)
        ensures
            r == LogLevel::of(value@),
    {
        level_filter(value)
    }
}

/// `log::LevelFilter::from_str` compares the text, without regard to the case of ASCII letters,
/// with the names `OFF`, `ERROR`, `WARN`, `INFO`, `DEBUG` and `TRACE` in this order and returns
/// the level of the first that agrees, or an error. The contract says the same.
#[verifier::external_body]
fn level_filter(value: &str) -> (r: Option<LogLevel>)
    ensures
        r == LogLevel::of(value@),
{
    match value.parse::<log::LevelFilter>() {
        Ok(log::LevelFilter::Off) => Some(LogLevel::Off),
        Ok(log::LevelFilter::Error) => Some(LogLevel::Error),
        Ok(log::LevelFilter::Warn) => Some(LogLevel::Warn),
        Ok(log::LevelFilter::Info) => Some(LogLevel::Info),
        Ok(log::LevelFilter::Debug) => Some(LogLevel::Debug),
        Ok(log::LevelFilter::Trace) => Some(LogLevel::Trace),
        Err(_) => None,
    }
}

}
