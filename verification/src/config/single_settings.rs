//! What one setting of a document does: it fills its own field and no other.

use vstd::prelude::*;

use crate::config::document::{entries_of, lookup, property, values_of, SectionView};
use crate::config::hotkey::{
    are_hotkeys, hotkeys_valid, is_hotkey, parsed, Hotkey, DETAILS_HOTKEY_ID, PAUSE_HOTKEY_ID,
    SEARCH_HOTKEY_ID, SWITCH_APPS_HOTKEY_ID, SWITCH_WINDOWS_HOTKEY_ID,
};
use crate::config::overrides::{overrides_value, text_entries, OverrideError};
use crate::config::parsers::{
    auto_bool_value, auto_color_value, auto_int_value, bool_value, color_value, directory_value,
    distinct, family_value, file_value, int_value, list_items, list_valid, optional_view,
    weight_value,
};
use crate::config::schema::{
    are_default_bindings, are_default_fields, effective, effective_is_listed, first_rejected,
    is_default_binding, is_loaded, listed_is_effective, Config, ConfigError,
    auto_bool_setting, auto_color_setting, auto_int_setting, bool_setting, color_setting,
    directory_setting, family_setting, fields_setting, file_setting, hotkey_setting,
    hotkeys_setting, int_setting, invalid_auto_bool, invalid_auto_color, invalid_auto_int,
    invalid_bool, invalid_color, invalid_directory, invalid_family, invalid_fields, invalid_file,
    invalid_hotkey, invalid_hotkeys, invalid_int, invalid_level, invalid_list,
    invalid_optional_hotkey, invalid_overrides, invalid_weight, level_setting, list_setting,
    optional_hotkey_setting, overrides_setting, rejected_appearance, rejected_apps,
    rejected_browser, rejected_details, rejected_general, rejected_input, rejected_localization,
    rejected_log, rejected_performance, rejected_search, rejected_startup, rejected_watch,
    rejected_windows, weight_setting,
};
use crate::config::search::{fields_valid, names_field, SearchField};
use crate::config::types::{
    AppNameMode, BadgeShape, BatteryPolicy, ForegroundPolicy, InjectedPolicy, Language, LogLevel,
    MonitorPolicy, RenderScale, RunLevel, SearchMatch, StartupEnabled, SwitchOrder, Theme,
    WatchMode,
};
use crate::text::{strings, trimmed};

verus! {

/// The key, where it stands in the given section.
pub open spec fn key_of(section: Seq<char>, wanted: Seq<char>, key: Seq<char>) -> Option<
    Seq<char>,
> {
    if section == wanted {
        Some(key)
    } else {
        None
    }
}

/// Whether the settings before the first section hold their defaults, but for the one of a key, which holds a
/// value. Without a key all hold their defaults.
pub open spec fn general_hold(c: Config, key: Option<Seq<char>>, value: Seq<char>) -> bool {
    &&& if key == Some("trayicon"@) {
        bool_value(value) == Some(c.trayicon)
    } else {
        c.trayicon == true
    }
    &&& if key == Some("auto_restart"@) {
        bool_value(value) == Some(c.auto_restart)
    } else {
        c.auto_restart == true
    }
    &&& if key == Some("restart_delay_ms"@) {
        int_value(value, 200, 10000) == Some(c.restart_delay_ms)
    } else {
        c.restart_delay_ms == 1000
    }
}

/// Whether the settings of the section `switch-windows` hold their defaults, but for the one of a key, which holds a
/// value. Without a key all hold their defaults.
pub open spec fn windows_hold(c: Config, key: Option<Seq<char>>, value: Seq<char>) -> bool {
    &&& if key == Some("enable"@) {
        bool_value(value) == Some(c.switch_windows_enable)
    } else {
        c.switch_windows_enable == true
    }
    &&& if key == Some("hotkey"@) {
        if trimmed(value).len() == 0 { are_default_bindings(c.switch_windows_hotkey@, SWITCH_WINDOWS_HOTKEY_ID, "switch windows"@, (0x38, 0x38, 0x29)) } else { are_hotkeys(c.switch_windows_hotkey@, SWITCH_WINDOWS_HOTKEY_ID, "switch windows"@, value) }
    } else {
        are_default_bindings(c.switch_windows_hotkey@, SWITCH_WINDOWS_HOTKEY_ID, "switch windows"@, (0x38, 0x38, 0x29))
    }
    &&& if key == Some("blacklist"@) {
        strings(c.switch_windows_blacklist@) == distinct(list_items(value))
    } else {
        strings(c.switch_windows_blacklist@) == Seq::<Seq<char>>::empty()
    }
    &&& if key == Some("ignore_minimal"@) {
        bool_value(value) == Some(c.switch_windows_ignore_minimal)
    } else {
        c.switch_windows_ignore_minimal == false
    }
    &&& if key == Some("only_current_desktop"@) {
        auto_bool_value(value) == Some(c.switch_windows_only_current_desktop)
    } else {
        c.switch_windows_only_current_desktop == None::<bool>
    }
    &&& if key == Some("include_topmost"@) {
        bool_value(value) == Some(c.switch_windows_include_topmost)
    } else {
        c.switch_windows_include_topmost == false
    }
    &&& if key == Some("include_tool_windows"@) {
        bool_value(value) == Some(c.switch_windows_include_tool_windows)
    } else {
        c.switch_windows_include_tool_windows == false
    }
    &&& if key == Some("include_untitled"@) {
        bool_value(value) == Some(c.switch_windows_include_untitled)
    } else {
        c.switch_windows_include_untitled == false
    }
    &&& if key == Some("min_width"@) {
        int_value(value, 0, 4096) == Some(c.switch_windows_min_width)
    } else {
        c.switch_windows_min_width == 120
    }
    &&& if key == Some("min_height"@) {
        int_value(value, 0, 4096) == Some(c.switch_windows_min_height)
    } else {
        c.switch_windows_min_height == 90
    }
    &&& if key == Some("exclude_titles"@) {
        strings(c.switch_windows_exclude_titles@) == distinct(list_items(value))
    } else {
        strings(c.switch_windows_exclude_titles@) == seq!["Windows Input Experience"@]
    }
    &&& if key == Some("exclude_processes"@) {
        strings(c.switch_windows_exclude_processes@) == distinct(list_items(value))
    } else {
        strings(c.switch_windows_exclude_processes@) == Seq::<Seq<char>>::empty()
    }
    &&& if key == Some("order"@) {
        SwitchOrder::of(value) == Some(c.switch_windows_order)
    } else {
        c.switch_windows_order == SwitchOrder::Existing
    }
}

/// Whether the settings of the section `switch-apps` hold their defaults, but for the one of a key, which holds a
/// value. Without a key all hold their defaults.
pub open spec fn apps_hold(c: Config, key: Option<Seq<char>>, value: Seq<char>) -> bool {
    &&& if key == Some("enable"@) {
        bool_value(value) == Some(c.switch_apps_enable)
    } else {
        c.switch_apps_enable == false
    }
    &&& if key == Some("hotkey"@) {
        if trimmed(value).len() == 0 { are_default_bindings(c.switch_apps_hotkey@, SWITCH_APPS_HOTKEY_ID, "switch apps"@, (0x38, 0x38, 0x0f)) } else { are_hotkeys(c.switch_apps_hotkey@, SWITCH_APPS_HOTKEY_ID, "switch apps"@, value) }
    } else {
        are_default_bindings(c.switch_apps_hotkey@, SWITCH_APPS_HOTKEY_ID, "switch apps"@, (0x38, 0x38, 0x0f))
    }
    &&& if key == Some("ignore_minimal"@) {
        bool_value(value) == Some(c.switch_apps_ignore_minimal)
    } else {
        c.switch_apps_ignore_minimal == false
    }
    &&& if key == Some("override_icons"@) {
        overrides_value(value) == Ok::<_, OverrideError>(text_entries(c.switch_apps_override_icons))
    } else {
        text_entries(c.switch_apps_override_icons) == Seq::<(Seq<char>, Seq<char>)>::empty()
    }
    &&& if key == Some("show_badge"@) {
        bool_value(value) == Some(c.switch_apps_show_badge)
    } else {
        c.switch_apps_show_badge == true
    }
    &&& if key == Some("badge_max"@) {
        int_value(value, 2, 9999) == Some(c.switch_apps_badge_max)
    } else {
        c.switch_apps_badge_max == 99
    }
    &&& if key == Some("badge_color"@) {
        color_value(value) == Some(c.switch_apps_badge_color)
    } else {
        c.switch_apps_badge_color == 0x4c7094
    }
    &&& if key == Some("badge_text_color"@) {
        color_value(value) == Some(c.switch_apps_badge_text_color)
    } else {
        c.switch_apps_badge_text_color == 0xffffff
    }
    &&& if key == Some("badge_font_size"@) {
        int_value(value, 8, 24) == Some(c.switch_apps_badge_font_size)
    } else {
        c.switch_apps_badge_font_size == 12
    }
    &&& if key == Some("badge_font_family"@) {
        family_value(value) == Some(c.badge_font_family@)
    } else {
        c.badge_font_family@ == "Segoe UI"@
    }
    &&& if key == Some("badge_font_file"@) {
        file_value(value) == Some(optional_view(c.badge_font_file))
    } else {
        c.badge_font_file is None
    }
    &&& if key == Some("only_current_desktop"@) {
        auto_bool_value(value) == Some(c.switch_apps_only_current_desktop)
    } else {
        c.switch_apps_only_current_desktop == None::<bool>
    }
    &&& if key == Some("blacklist"@) {
        strings(c.switch_apps_blacklist@) == distinct(list_items(value))
    } else {
        strings(c.switch_apps_blacklist@) == Seq::<Seq<char>>::empty()
    }
    &&& if key == Some("include_topmost"@) {
        bool_value(value) == Some(c.switch_apps_include_topmost)
    } else {
        c.switch_apps_include_topmost == false
    }
    &&& if key == Some("include_tool_windows"@) {
        bool_value(value) == Some(c.switch_apps_include_tool_windows)
    } else {
        c.switch_apps_include_tool_windows == false
    }
    &&& if key == Some("include_untitled"@) {
        bool_value(value) == Some(c.switch_apps_include_untitled)
    } else {
        c.switch_apps_include_untitled == false
    }
    &&& if key == Some("min_width"@) {
        int_value(value, 0, 4096) == Some(c.switch_apps_min_width)
    } else {
        c.switch_apps_min_width == 120
    }
    &&& if key == Some("min_height"@) {
        int_value(value, 0, 4096) == Some(c.switch_apps_min_height)
    } else {
        c.switch_apps_min_height == 90
    }
    &&& if key == Some("exclude_titles"@) {
        strings(c.switch_apps_exclude_titles@) == distinct(list_items(value))
    } else {
        strings(c.switch_apps_exclude_titles@) == seq!["Windows Input Experience"@]
    }
    &&& if key == Some("exclude_processes"@) {
        strings(c.switch_apps_exclude_processes@) == distinct(list_items(value))
    } else {
        strings(c.switch_apps_exclude_processes@) == Seq::<Seq<char>>::empty()
    }
    &&& if key == Some("badge_shape"@) {
        BadgeShape::of(value) == Some(c.switch_apps_badge_shape)
    } else {
        c.switch_apps_badge_shape == BadgeShape::Circle
    }
    &&& if key == Some("badge_size"@) {
        auto_int_value(value, 16, 48) == Some(c.switch_apps_badge_size)
    } else {
        c.switch_apps_badge_size == None::<u32>
    }
    &&& if key == Some("order"@) {
        SwitchOrder::of(value) == Some(c.switch_apps_order)
    } else {
        c.switch_apps_order == SwitchOrder::Existing
    }
}

/// Whether the settings of the section `input` hold their defaults, but for the one of a key, which holds a
/// value. Without a key all hold their defaults.
pub open spec fn input_hold(c: Config, key: Option<Seq<char>>, value: Seq<char>) -> bool {
    &&& if key == Some("unknown_foreground"@) {
        ForegroundPolicy::of(value) == Some(c.unknown_foreground)
    } else {
        c.unknown_foreground == ForegroundPolicy::Passthrough
    }
    &&& if key == Some("injected_events"@) {
        InjectedPolicy::of(value) == Some(c.injected_events)
    } else {
        c.injected_events == InjectedPolicy::Handle
    }
    &&& if key == Some("paused"@) {
        bool_value(value) == Some(c.input_paused)
    } else {
        c.input_paused == false
    }
    &&& if key == Some("pause_hotkey"@) {
        if trimmed(value).len() == 0 { c.pause_hotkey is None } else { c.pause_hotkey is Some && is_hotkey(c.pause_hotkey->0, PAUSE_HOTKEY_ID, "pause"@, value) }
    } else {
        c.pause_hotkey is None
    }
}

/// Whether the settings of the section `search` hold their defaults, but for the one of a key, which holds a
/// value. Without a key all hold their defaults.
pub open spec fn search_hold(c: Config, key: Option<Seq<char>>, value: Seq<char>) -> bool {
    &&& if key == Some("enable"@) {
        bool_value(value) == Some(c.search_enable)
    } else {
        c.search_enable == false
    }
    &&& if key == Some("hotkey"@) {
        is_hotkey(c.search_hotkey, SEARCH_HOTKEY_ID, "search"@, value)
    } else {
        is_default_binding(c.search_hotkey, SEARCH_HOTKEY_ID, "search"@, (0x1d, 0x1d, 0x39))
    }
    &&& if key == Some("match"@) {
        SearchMatch::of(value) == Some(c.search_match)
    } else {
        c.search_match == SearchMatch::Fuzzy
    }
    &&& if key == Some("fields"@) {
        forall|field: SearchField| #[trigger] c.search_fields.has(field) == names_field(value, field)
    } else {
        are_default_fields(c.search_fields)
    }
    &&& if key == Some("max_results"@) {
        int_value(value, 10, 200) == Some(c.search_max_results)
    } else {
        c.search_max_results == 50
    }
}

/// Whether the settings of the section `details` hold their defaults, but for the one of a key, which holds a
/// value. Without a key all hold their defaults.
pub open spec fn details_hold(c: Config, key: Option<Seq<char>>, value: Seq<char>) -> bool {
    &&& if key == Some("enable"@) {
        bool_value(value) == Some(c.details_enable)
    } else {
        c.details_enable == false
    }
    &&& if key == Some("hotkey"@) {
        is_hotkey(c.details_hotkey, DETAILS_HOTKEY_ID, "details"@, value)
    } else {
        is_default_binding(c.details_hotkey, DETAILS_HOTKEY_ID, "details"@, (0x1d, 0x1d, 0x1c))
    }
}

/// Whether the settings of the section `appearance` hold their defaults, but for the one of a key, which holds a
/// value. Without a key all hold their defaults.
pub open spec fn appearance_hold(c: Config, key: Option<Seq<char>>, value: Seq<char>) -> bool {
    &&& if key == Some("monitor"@) {
        MonitorPolicy::of(value) == Some(c.monitor)
    } else {
        c.monitor == MonitorPolicy::Cursor
    }
    &&& if key == Some("use_work_area"@) {
        bool_value(value) == Some(c.use_work_area)
    } else {
        c.use_work_area == true
    }
    &&& if key == Some("panel_width"@) {
        int_value(value, 0, 32768) == Some(c.panel_width)
    } else {
        c.panel_width == 0
    }
    &&& if key == Some("panel_height"@) {
        int_value(value, 0, 32768) == Some(c.panel_height)
    } else {
        c.panel_height == 0
    }
    &&& if key == Some("icon_size"@) {
        int_value(value, 24, 256) == Some(c.icon_size)
    } else {
        c.icon_size == 64
    }
    &&& if key == Some("icon_padding"@) {
        int_value(value, 0, 64) == Some(c.icon_padding)
    } else {
        c.icon_padding == 4
    }
    &&& if key == Some("item_gap"@) {
        int_value(value, 0, 64) == Some(c.item_gap)
    } else {
        c.item_gap == 0
    }
    &&& if key == Some("panel_padding"@) {
        int_value(value, 0, 128) == Some(c.panel_padding)
    } else {
        c.panel_padding == 10
    }
    &&& if key == Some("max_width"@) {
        int_value(value, 0, 32768) == Some(c.max_width)
    } else {
        c.max_width == 0
    }
    &&& if key == Some("max_height"@) {
        int_value(value, 0, 32768) == Some(c.max_height)
    } else {
        c.max_height == 0
    }
    &&& if key == Some("max_columns"@) {
        int_value(value, 0, 128) == Some(c.max_columns)
    } else {
        c.max_columns == 0
    }
    &&& if key == Some("theme"@) {
        Theme::of(value) == Some(c.theme)
    } else {
        c.theme == Theme::Auto
    }
    &&& if key == Some("background_color"@) {
        auto_color_value(value) == Some(c.background_color)
    } else {
        c.background_color == None::<u32>
    }
    &&& if key == Some("background_opacity"@) {
        int_value(value, 0, 100) == Some(c.background_opacity)
    } else {
        c.background_opacity == 100
    }
    &&& if key == Some("icon_background_color"@) {
        auto_color_value(value) == Some(c.icon_background_color)
    } else {
        c.icon_background_color == None::<u32>
    }
    &&& if key == Some("icon_background_opacity"@) {
        int_value(value, 0, 100) == Some(c.icon_background_opacity)
    } else {
        c.icon_background_opacity == 0
    }
    &&& if key == Some("selection_color"@) {
        auto_color_value(value) == Some(c.selection_color)
    } else {
        c.selection_color == None::<u32>
    }
    &&& if key == Some("selection_opacity"@) {
        int_value(value, 0, 100) == Some(c.selection_opacity)
    } else {
        c.selection_opacity == 100
    }
    &&& if key == Some("selection_border_color"@) {
        auto_color_value(value) == Some(c.selection_border_color)
    } else {
        c.selection_border_color == None::<u32>
    }
    &&& if key == Some("selection_border_width"@) {
        int_value(value, 0, 6) == Some(c.selection_border_width)
    } else {
        c.selection_border_width == 2
    }
    &&& if key == Some("panel_corner_radius"@) {
        auto_int_value(value, 0, 256) == Some(c.panel_corner_radius)
    } else {
        c.panel_corner_radius == None::<u32>
    }
    &&& if key == Some("icon_corner_radius"@) {
        auto_int_value(value, 0, 128) == Some(c.icon_corner_radius)
    } else {
        c.icon_corner_radius == None::<u32>
    }
    &&& if key == Some("selection_corner_radius"@) {
        auto_int_value(value, 0, 128) == Some(c.selection_corner_radius)
    } else {
        c.selection_corner_radius == None::<u32>
    }
    &&& if key == Some("app_name_mode"@) {
        AppNameMode::of(value) == Some(c.app_name_mode)
    } else {
        c.app_name_mode == AppNameMode::Off
    }
    &&& if key == Some("app_name_font_family"@) {
        family_value(value) == Some(c.app_name_font_family@)
    } else {
        c.app_name_font_family@ == "auto"@
    }
    &&& if key == Some("app_name_font_file"@) {
        file_value(value) == Some(optional_view(c.app_name_font_file))
    } else {
        c.app_name_font_file is None
    }
    &&& if key == Some("app_name_font_size"@) {
        int_value(value, 12, 48) == Some(c.app_name_font_size)
    } else {
        c.app_name_font_size == 14
    }
    &&& if key == Some("app_name_font_weight"@) {
        weight_value(value) == Some(c.app_name_font_weight)
    } else {
        c.app_name_font_weight == 400
    }
    &&& if key == Some("app_name_font_italic"@) {
        bool_value(value) == Some(c.app_name_font_italic)
    } else {
        c.app_name_font_italic == false
    }
    &&& if key == Some("app_name_text_color"@) {
        auto_color_value(value) == Some(c.app_name_text_color)
    } else {
        c.app_name_text_color == None::<u32>
    }
}

/// Whether the settings of the section `startup` hold their defaults, but for the one of a key, which holds a
/// value. Without a key all hold their defaults.
pub open spec fn startup_hold(c: Config, key: Option<Seq<char>>, value: Seq<char>) -> bool {
    &&& if key == Some("enabled"@) {
        StartupEnabled::of(value) == Some(c.startup_enabled)
    } else {
        c.startup_enabled == StartupEnabled::Auto
    }
    &&& if key == Some("run_level"@) {
        RunLevel::of(value) == Some(c.startup_run_level)
    } else {
        c.startup_run_level == RunLevel::Inherit
    }
    &&& if key == Some("battery_policy"@) {
        BatteryPolicy::of(value) == Some(c.startup_battery_policy)
    } else {
        c.startup_battery_policy == BatteryPolicy::Inherit
    }
    &&& if key == Some("command_timeout_ms"@) {
        int_value(value, 500, 30000) == Some(c.startup_command_timeout_ms)
    } else {
        c.startup_command_timeout_ms == 5000
    }
}

/// Whether the settings of the section `config` hold their defaults, but for the one of a key, which holds a
/// value. Without a key all hold their defaults.
pub open spec fn watch_hold(c: Config, key: Option<Seq<char>>, value: Seq<char>) -> bool {
    &&& if key == Some("watch_mode"@) {
        WatchMode::of(value) == Some(c.config_watch_mode)
    } else {
        c.config_watch_mode == WatchMode::Auto
    }
    &&& if key == Some("poll_interval_ms"@) {
        int_value(value, 100, 60000) == Some(c.config_poll_interval_ms)
    } else {
        c.config_poll_interval_ms == 250
    }
    &&& if key == Some("restart_timeout_ms"@) {
        int_value(value, 1000, 60000) == Some(c.config_restart_timeout_ms)
    } else {
        c.config_restart_timeout_ms == 10000
    }
    &&& if key == Some("retry_delay_ms"@) {
        int_value(value, 200, 30000) == Some(c.config_retry_delay_ms)
    } else {
        c.config_retry_delay_ms == 1000
    }
    &&& if key == Some("retry_limit"@) {
        int_value(value, 0, 10) == Some(c.config_retry_limit)
    } else {
        c.config_retry_limit == 3
    }
}

/// Whether the settings of the section `localization` hold their defaults, but for the one of a key, which holds a
/// value. Without a key all hold their defaults.
pub open spec fn localization_hold(c: Config, key: Option<Seq<char>>, value: Seq<char>) -> bool {
    &&& if key == Some("language"@) {
        Language::of(value) == Some(c.language)
    } else {
        c.language == Language::Chinese
    }
}

/// Whether the settings of the section `log` hold their defaults, but for the one of a key, which holds a
/// value. Without a key all hold their defaults.
pub open spec fn log_hold(c: Config, key: Option<Seq<char>>, value: Seq<char>) -> bool {
    &&& if key == Some("level"@) {
        LogLevel::of(value) == Some(c.log_level)
    } else {
        c.log_level == LogLevel::Info
    }
    &&& if key == Some("path"@) {
        file_value(value) == Some(optional_view(c.log_file))
    } else {
        c.log_file is None
    }
    &&& if key == Some("max_file_mb"@) {
        int_value(value, 1, 100) == Some(c.log_max_file_mb)
    } else {
        c.log_max_file_mb == 10
    }
    &&& if key == Some("retained_files"@) {
        int_value(value, 0, 20) == Some(c.log_retained_files)
    } else {
        c.log_retained_files == 3
    }
}

/// Whether the settings of the section `performance` hold their defaults, but for the one of a key, which holds a
/// value. Without a key all hold their defaults.
pub open spec fn performance_hold(c: Config, key: Option<Seq<char>>, value: Seq<char>) -> bool {
    &&& if key == Some("metrics_enabled"@) {
        bool_value(value) == Some(c.metrics_enabled)
    } else {
        c.metrics_enabled == false
    }
    &&& if key == Some("metrics_interval_s"@) {
        int_value(value, 1, 3600) == Some(c.metrics_interval_s)
    } else {
        c.metrics_interval_s == 60
    }
    &&& if key == Some("icon_cache_limit"@) {
        int_value(value, 16, 1024) == Some(c.icon_cache_limit)
    } else {
        c.icon_cache_limit == 256
    }
    &&& if key == Some("icon_cache_mb"@) {
        int_value(value, 4, 256) == Some(c.icon_cache_mb)
    } else {
        c.icon_cache_mb == 32
    }
    &&& if key == Some("icon_failure_ttl_ms"@) {
        int_value(value, 100, 60000) == Some(c.icon_failure_ttl_ms)
    } else {
        c.icon_failure_ttl_ms == 3000
    }
    &&& if key == Some("metadata_cache_limit"@) {
        int_value(value, 16, 4096) == Some(c.metadata_cache_limit)
    } else {
        c.metadata_cache_limit == 512
    }
    &&& if key == Some("metadata_ttl_ms"@) {
        int_value(value, 100, 60000) == Some(c.metadata_ttl_ms)
    } else {
        c.metadata_ttl_ms == 5000
    }
    &&& if key == Some("icon_query_timeout_ms"@) {
        int_value(value, 10, 500) == Some(c.icon_query_timeout_ms)
    } else {
        c.icon_query_timeout_ms == 100
    }
    &&& if key == Some("snapshot_budget_ms"@) {
        int_value(value, 5, 500) == Some(c.snapshot_budget_ms)
    } else {
        c.snapshot_budget_ms == 50
    }
    &&& if key == Some("render_scale"@) {
        RenderScale::of(value) == Some(c.render_scale)
    } else {
        c.render_scale == RenderScale::Auto
    }
    &&& if key == Some("render_budget_mb"@) {
        int_value(value, 8, 256) == Some(c.render_budget_mb)
    } else {
        c.render_budget_mb == 64
    }
    &&& if key == Some("mru_limit"@) {
        int_value(value, 16, 4096) == Some(c.mru_limit)
    } else {
        c.mru_limit == 512
    }
}

/// Whether the settings of the section `browser` hold their defaults, but for the one of a key, which holds a
/// value. Without a key all hold their defaults.
pub open spec fn browser_hold(c: Config, key: Option<Seq<char>>, value: Seq<char>) -> bool {
    &&& if key == Some("chrome_user_data_dir"@) {
        directory_value(value) == Some(optional_view(c.chrome_user_data_dir))
    } else {
        c.chrome_user_data_dir is None
    }
    &&& if key == Some("edge_user_data_dir"@) {
        directory_value(value) == Some(optional_view(c.edge_user_data_dir))
    } else {
        c.edge_user_data_dir is None
    }
}

/// Whether a value before the first section is refused.
pub open spec fn general_refuse(key: Seq<char>, value: Seq<char>) -> bool {
    ||| key == "trayicon"@ && bool_value(value) is None
    ||| key == "auto_restart"@ && bool_value(value) is None
    ||| key == "restart_delay_ms"@ && int_value(value, 200, 10000) is None
}

/// Whether a value of the section `switch-windows` is refused.
pub open spec fn windows_refuse(key: Seq<char>, value: Seq<char>) -> bool {
    ||| key == "enable"@ && bool_value(value) is None
    ||| key == "hotkey"@ && trimmed(value).len() > 0 && !hotkeys_valid(value)
    ||| key == "blacklist"@ && !list_valid(value, 260)
    ||| key == "ignore_minimal"@ && bool_value(value) is None
    ||| key == "only_current_desktop"@ && auto_bool_value(value) is None
    ||| key == "include_topmost"@ && bool_value(value) is None
    ||| key == "include_tool_windows"@ && bool_value(value) is None
    ||| key == "include_untitled"@ && bool_value(value) is None
    ||| key == "min_width"@ && int_value(value, 0, 4096) is None
    ||| key == "min_height"@ && int_value(value, 0, 4096) is None
    ||| key == "exclude_titles"@ && !list_valid(value, 4096)
    ||| key == "exclude_processes"@ && !list_valid(value, 260)
    ||| key == "order"@ && SwitchOrder::of(value) is None
}

/// Whether a value of the section `switch-apps` is refused.
pub open spec fn apps_refuse(key: Seq<char>, value: Seq<char>) -> bool {
    ||| key == "enable"@ && bool_value(value) is None
    ||| key == "hotkey"@ && trimmed(value).len() > 0 && !hotkeys_valid(value)
    ||| key == "ignore_minimal"@ && bool_value(value) is None
    ||| key == "override_icons"@ && overrides_value(value) is Err
    ||| key == "show_badge"@ && bool_value(value) is None
    ||| key == "badge_max"@ && int_value(value, 2, 9999) is None
    ||| key == "badge_color"@ && color_value(value) is None
    ||| key == "badge_text_color"@ && color_value(value) is None
    ||| key == "badge_font_size"@ && int_value(value, 8, 24) is None
    ||| key == "badge_font_family"@ && family_value(value) is None
    ||| key == "badge_font_file"@ && file_value(value) is None
    ||| key == "only_current_desktop"@ && auto_bool_value(value) is None
    ||| key == "blacklist"@ && !list_valid(value, 260)
    ||| key == "include_topmost"@ && bool_value(value) is None
    ||| key == "include_tool_windows"@ && bool_value(value) is None
    ||| key == "include_untitled"@ && bool_value(value) is None
    ||| key == "min_width"@ && int_value(value, 0, 4096) is None
    ||| key == "min_height"@ && int_value(value, 0, 4096) is None
    ||| key == "exclude_titles"@ && !list_valid(value, 4096)
    ||| key == "exclude_processes"@ && !list_valid(value, 260)
    ||| key == "badge_shape"@ && BadgeShape::of(value) is None
    ||| key == "badge_size"@ && auto_int_value(value, 16, 48) is None
    ||| key == "order"@ && SwitchOrder::of(value) is None
}

/// Whether a value of the section `input` is refused.
pub open spec fn input_refuse(key: Seq<char>, value: Seq<char>) -> bool {
    ||| key == "unknown_foreground"@ && ForegroundPolicy::of(value) is None
    ||| key == "injected_events"@ && InjectedPolicy::of(value) is None
    ||| key == "paused"@ && bool_value(value) is None
    ||| key == "pause_hotkey"@ && trimmed(value).len() > 0 && parsed(value) is None
}

/// Whether a value of the section `search` is refused.
pub open spec fn search_refuse(key: Seq<char>, value: Seq<char>) -> bool {
    ||| key == "enable"@ && bool_value(value) is None
    ||| key == "hotkey"@ && parsed(value) is None
    ||| key == "match"@ && SearchMatch::of(value) is None
    ||| key == "fields"@ && !fields_valid(value)
    ||| key == "max_results"@ && int_value(value, 10, 200) is None
}

/// Whether a value of the section `details` is refused.
pub open spec fn details_refuse(key: Seq<char>, value: Seq<char>) -> bool {
    ||| key == "enable"@ && bool_value(value) is None
    ||| key == "hotkey"@ && parsed(value) is None
}

/// Whether a value of the section `appearance` is refused.
pub open spec fn appearance_refuse(key: Seq<char>, value: Seq<char>) -> bool {
    ||| key == "monitor"@ && MonitorPolicy::of(value) is None
    ||| key == "use_work_area"@ && bool_value(value) is None
    ||| key == "panel_width"@ && int_value(value, 0, 32768) is None
    ||| key == "panel_height"@ && int_value(value, 0, 32768) is None
    ||| key == "icon_size"@ && int_value(value, 24, 256) is None
    ||| key == "icon_padding"@ && int_value(value, 0, 64) is None
    ||| key == "item_gap"@ && int_value(value, 0, 64) is None
    ||| key == "panel_padding"@ && int_value(value, 0, 128) is None
    ||| key == "max_width"@ && int_value(value, 0, 32768) is None
    ||| key == "max_height"@ && int_value(value, 0, 32768) is None
    ||| key == "max_columns"@ && int_value(value, 0, 128) is None
    ||| key == "theme"@ && Theme::of(value) is None
    ||| key == "background_color"@ && auto_color_value(value) is None
    ||| key == "background_opacity"@ && int_value(value, 0, 100) is None
    ||| key == "icon_background_color"@ && auto_color_value(value) is None
    ||| key == "icon_background_opacity"@ && int_value(value, 0, 100) is None
    ||| key == "selection_color"@ && auto_color_value(value) is None
    ||| key == "selection_opacity"@ && int_value(value, 0, 100) is None
    ||| key == "selection_border_color"@ && auto_color_value(value) is None
    ||| key == "selection_border_width"@ && int_value(value, 0, 6) is None
    ||| key == "panel_corner_radius"@ && auto_int_value(value, 0, 256) is None
    ||| key == "icon_corner_radius"@ && auto_int_value(value, 0, 128) is None
    ||| key == "selection_corner_radius"@ && auto_int_value(value, 0, 128) is None
    ||| key == "app_name_mode"@ && AppNameMode::of(value) is None
    ||| key == "app_name_font_family"@ && family_value(value) is None
    ||| key == "app_name_font_file"@ && file_value(value) is None
    ||| key == "app_name_font_size"@ && int_value(value, 12, 48) is None
    ||| key == "app_name_font_weight"@ && weight_value(value) is None
    ||| key == "app_name_font_italic"@ && bool_value(value) is None
    ||| key == "app_name_text_color"@ && auto_color_value(value) is None
}

/// Whether a value of the section `startup` is refused.
pub open spec fn startup_refuse(key: Seq<char>, value: Seq<char>) -> bool {
    ||| key == "enabled"@ && StartupEnabled::of(value) is None
    ||| key == "run_level"@ && RunLevel::of(value) is None
    ||| key == "battery_policy"@ && BatteryPolicy::of(value) is None
    ||| key == "command_timeout_ms"@ && int_value(value, 500, 30000) is None
}

/// Whether a value of the section `config` is refused.
pub open spec fn watch_refuse(key: Seq<char>, value: Seq<char>) -> bool {
    ||| key == "watch_mode"@ && WatchMode::of(value) is None
    ||| key == "poll_interval_ms"@ && int_value(value, 100, 60000) is None
    ||| key == "restart_timeout_ms"@ && int_value(value, 1000, 60000) is None
    ||| key == "retry_delay_ms"@ && int_value(value, 200, 30000) is None
    ||| key == "retry_limit"@ && int_value(value, 0, 10) is None
}

/// Whether a value of the section `localization` is refused.
pub open spec fn localization_refuse(key: Seq<char>, value: Seq<char>) -> bool {
    ||| key == "language"@ && Language::of(value) is None
}

/// Whether a value of the section `log` is refused.
pub open spec fn log_refuse(key: Seq<char>, value: Seq<char>) -> bool {
    ||| key == "level"@ && LogLevel::of(value) is None
    ||| key == "path"@ && file_value(value) is None
    ||| key == "max_file_mb"@ && int_value(value, 1, 100) is None
    ||| key == "retained_files"@ && int_value(value, 0, 20) is None
}

/// Whether a value of the section `performance` is refused.
pub open spec fn performance_refuse(key: Seq<char>, value: Seq<char>) -> bool {
    ||| key == "metrics_enabled"@ && bool_value(value) is None
    ||| key == "metrics_interval_s"@ && int_value(value, 1, 3600) is None
    ||| key == "icon_cache_limit"@ && int_value(value, 16, 1024) is None
    ||| key == "icon_cache_mb"@ && int_value(value, 4, 256) is None
    ||| key == "icon_failure_ttl_ms"@ && int_value(value, 100, 60000) is None
    ||| key == "metadata_cache_limit"@ && int_value(value, 16, 4096) is None
    ||| key == "metadata_ttl_ms"@ && int_value(value, 100, 60000) is None
    ||| key == "icon_query_timeout_ms"@ && int_value(value, 10, 500) is None
    ||| key == "snapshot_budget_ms"@ && int_value(value, 5, 500) is None
    ||| key == "render_scale"@ && RenderScale::of(value) is None
    ||| key == "render_budget_mb"@ && int_value(value, 8, 256) is None
    ||| key == "mru_limit"@ && int_value(value, 16, 4096) is None
}

/// Whether a value of the section `browser` is refused.
pub open spec fn browser_refuse(key: Seq<char>, value: Seq<char>) -> bool {
    ||| key == "chrome_user_data_dir"@ && directory_value(value) is None
    ||| key == "edge_user_data_dir"@ && directory_value(value) is None
}

/// Whether the value of a setting is refused.
pub open spec fn refuses(section: Seq<char>, key: Seq<char>, value: Seq<char>) -> bool {
    ||| section == ""@ && general_refuse(key, value)
    ||| section == "switch-windows"@ && windows_refuse(key, value)
    ||| section == "switch-apps"@ && apps_refuse(key, value)
    ||| section == "input"@ && input_refuse(key, value)
    ||| section == "search"@ && search_refuse(key, value)
    ||| section == "details"@ && details_refuse(key, value)
    ||| section == "appearance"@ && appearance_refuse(key, value)
    ||| section == "startup"@ && startup_refuse(key, value)
    ||| section == "config"@ && watch_refuse(key, value)
    ||| section == "localization"@ && localization_refuse(key, value)
    ||| section == "log"@ && log_refuse(key, value)
    ||| section == "performance"@ && performance_refuse(key, value)
    ||| section == "browser"@ && browser_refuse(key, value)
}

proof fn only_value(d: Seq<SectionView>, section: Seq<char>, key: Seq<char>, value: Seq<char>)
    requires
        entries_of(d) == seq![(section, key, value)],
    ensures
        forall|s: Seq<char>, k: Seq<char>| #[trigger]
            effective(d, s, k) == (if s == section && k == key {
                Some(value)
            } else {
                None
            }),
{
    assert forall|s: Seq<char>, k: Seq<char>| #[trigger] effective(d, s, k) == (if s == section && k
        == key {
        Some(value)
    } else {
        None
    }) by {
        if effective(d, s, k) is Some {
            effective_is_listed(d, s, k);
        }
        if s == section && k == key {
            assert(entries_of(d)[0] == (s, k, value));
            listed_is_effective(d, s, k, 0);
        }
    }
}

proof fn general_alone(c: Config, d: Seq<SectionView>, section: Seq<char>, key: Seq<char>, value: Seq<char>)
    requires
        c.reads_general(d),
        entries_of(d) == seq![(section, key, value)],
        section == ""@ ==> !general_refuse(key, value),
    ensures
        general_hold(c, key_of(section, ""@, key), value),
{
    only_value(d, section, key, value);
    reveal(auto_bool_setting);
    reveal(auto_color_setting);
    reveal(auto_int_setting);
    reveal(bool_setting);
    reveal(color_setting);
    reveal(directory_setting);
    reveal(family_setting);
    reveal(fields_setting);
    reveal(file_setting);
    reveal(hotkey_setting);
    reveal(hotkeys_setting);
    reveal(int_setting);
    reveal(level_setting);
    reveal(list_setting);
    reveal(optional_hotkey_setting);
    reveal(overrides_setting);
    reveal(weight_setting);
}

proof fn general_refusals(key: Seq<char>, value: Seq<char>)
    ensures
        rejected_general(key, value) == general_refuse(key, value),
{
    reveal(invalid_auto_bool);
    reveal(invalid_auto_color);
    reveal(invalid_auto_int);
    reveal(invalid_bool);
    reveal(invalid_color);
    reveal(invalid_directory);
    reveal(invalid_family);
    reveal(invalid_fields);
    reveal(invalid_file);
    reveal(invalid_hotkey);
    reveal(invalid_hotkeys);
    reveal(invalid_int);
    reveal(invalid_level);
    reveal(invalid_list);
    reveal(invalid_optional_hotkey);
    reveal(invalid_overrides);
    reveal(invalid_weight);
}

proof fn windows_alone(c: Config, d: Seq<SectionView>, section: Seq<char>, key: Seq<char>, value: Seq<char>)
    requires
        c.reads_windows(d),
        entries_of(d) == seq![(section, key, value)],
        section == "switch-windows"@ ==> !windows_refuse(key, value),
    ensures
        windows_hold(c, key_of(section, "switch-windows"@, key), value),
{
    only_value(d, section, key, value);
    reveal(auto_bool_setting);
    reveal(auto_color_setting);
    reveal(auto_int_setting);
    reveal(bool_setting);
    reveal(color_setting);
    reveal(directory_setting);
    reveal(family_setting);
    reveal(fields_setting);
    reveal(file_setting);
    reveal(hotkey_setting);
    reveal(hotkeys_setting);
    reveal(int_setting);
    reveal(level_setting);
    reveal(list_setting);
    reveal(optional_hotkey_setting);
    reveal(overrides_setting);
    reveal(weight_setting);
}

proof fn windows_refusals(key: Seq<char>, value: Seq<char>)
    ensures
        rejected_windows(key, value) == windows_refuse(key, value),
{
    reveal(invalid_auto_bool);
    reveal(invalid_auto_color);
    reveal(invalid_auto_int);
    reveal(invalid_bool);
    reveal(invalid_color);
    reveal(invalid_directory);
    reveal(invalid_family);
    reveal(invalid_fields);
    reveal(invalid_file);
    reveal(invalid_hotkey);
    reveal(invalid_hotkeys);
    reveal(invalid_int);
    reveal(invalid_level);
    reveal(invalid_list);
    reveal(invalid_optional_hotkey);
    reveal(invalid_overrides);
    reveal(invalid_weight);
}

proof fn apps_alone(c: Config, d: Seq<SectionView>, section: Seq<char>, key: Seq<char>, value: Seq<char>)
    requires
        c.reads_apps(d),
        entries_of(d) == seq![(section, key, value)],
        section == "switch-apps"@ ==> !apps_refuse(key, value),
    ensures
        apps_hold(c, key_of(section, "switch-apps"@, key), value),
{
    only_value(d, section, key, value);
    reveal(auto_bool_setting);
    reveal(auto_color_setting);
    reveal(auto_int_setting);
    reveal(bool_setting);
    reveal(color_setting);
    reveal(directory_setting);
    reveal(family_setting);
    reveal(fields_setting);
    reveal(file_setting);
    reveal(hotkey_setting);
    reveal(hotkeys_setting);
    reveal(int_setting);
    reveal(level_setting);
    reveal(list_setting);
    reveal(optional_hotkey_setting);
    reveal(overrides_setting);
    reveal(weight_setting);
}

proof fn apps_refusals(key: Seq<char>, value: Seq<char>)
    ensures
        rejected_apps(key, value) == apps_refuse(key, value),
{
    reveal(invalid_auto_bool);
    reveal(invalid_auto_color);
    reveal(invalid_auto_int);
    reveal(invalid_bool);
    reveal(invalid_color);
    reveal(invalid_directory);
    reveal(invalid_family);
    reveal(invalid_fields);
    reveal(invalid_file);
    reveal(invalid_hotkey);
    reveal(invalid_hotkeys);
    reveal(invalid_int);
    reveal(invalid_level);
    reveal(invalid_list);
    reveal(invalid_optional_hotkey);
    reveal(invalid_overrides);
    reveal(invalid_weight);
}

proof fn input_alone(c: Config, d: Seq<SectionView>, section: Seq<char>, key: Seq<char>, value: Seq<char>)
    requires
        c.reads_input(d),
        entries_of(d) == seq![(section, key, value)],
        section == "input"@ ==> !input_refuse(key, value),
    ensures
        input_hold(c, key_of(section, "input"@, key), value),
{
    only_value(d, section, key, value);
    reveal(auto_bool_setting);
    reveal(auto_color_setting);
    reveal(auto_int_setting);
    reveal(bool_setting);
    reveal(color_setting);
    reveal(directory_setting);
    reveal(family_setting);
    reveal(fields_setting);
    reveal(file_setting);
    reveal(hotkey_setting);
    reveal(hotkeys_setting);
    reveal(int_setting);
    reveal(level_setting);
    reveal(list_setting);
    reveal(optional_hotkey_setting);
    reveal(overrides_setting);
    reveal(weight_setting);
}

proof fn input_refusals(key: Seq<char>, value: Seq<char>)
    ensures
        rejected_input(key, value) == input_refuse(key, value),
{
    reveal(invalid_auto_bool);
    reveal(invalid_auto_color);
    reveal(invalid_auto_int);
    reveal(invalid_bool);
    reveal(invalid_color);
    reveal(invalid_directory);
    reveal(invalid_family);
    reveal(invalid_fields);
    reveal(invalid_file);
    reveal(invalid_hotkey);
    reveal(invalid_hotkeys);
    reveal(invalid_int);
    reveal(invalid_level);
    reveal(invalid_list);
    reveal(invalid_optional_hotkey);
    reveal(invalid_overrides);
    reveal(invalid_weight);
}

proof fn search_alone(c: Config, d: Seq<SectionView>, section: Seq<char>, key: Seq<char>, value: Seq<char>)
    requires
        c.reads_search(d),
        entries_of(d) == seq![(section, key, value)],
        section == "search"@ ==> !search_refuse(key, value),
    ensures
        search_hold(c, key_of(section, "search"@, key), value),
{
    only_value(d, section, key, value);
    reveal(auto_bool_setting);
    reveal(auto_color_setting);
    reveal(auto_int_setting);
    reveal(bool_setting);
    reveal(color_setting);
    reveal(directory_setting);
    reveal(family_setting);
    reveal(fields_setting);
    reveal(file_setting);
    reveal(hotkey_setting);
    reveal(hotkeys_setting);
    reveal(int_setting);
    reveal(level_setting);
    reveal(list_setting);
    reveal(optional_hotkey_setting);
    reveal(overrides_setting);
    reveal(weight_setting);
}

proof fn search_refusals(key: Seq<char>, value: Seq<char>)
    ensures
        rejected_search(key, value) == search_refuse(key, value),
{
    reveal(invalid_auto_bool);
    reveal(invalid_auto_color);
    reveal(invalid_auto_int);
    reveal(invalid_bool);
    reveal(invalid_color);
    reveal(invalid_directory);
    reveal(invalid_family);
    reveal(invalid_fields);
    reveal(invalid_file);
    reveal(invalid_hotkey);
    reveal(invalid_hotkeys);
    reveal(invalid_int);
    reveal(invalid_level);
    reveal(invalid_list);
    reveal(invalid_optional_hotkey);
    reveal(invalid_overrides);
    reveal(invalid_weight);
}

proof fn details_alone(c: Config, d: Seq<SectionView>, section: Seq<char>, key: Seq<char>, value: Seq<char>)
    requires
        c.reads_details(d),
        entries_of(d) == seq![(section, key, value)],
        section == "details"@ ==> !details_refuse(key, value),
    ensures
        details_hold(c, key_of(section, "details"@, key), value),
{
    only_value(d, section, key, value);
    reveal(auto_bool_setting);
    reveal(auto_color_setting);
    reveal(auto_int_setting);
    reveal(bool_setting);
    reveal(color_setting);
    reveal(directory_setting);
    reveal(family_setting);
    reveal(fields_setting);
    reveal(file_setting);
    reveal(hotkey_setting);
    reveal(hotkeys_setting);
    reveal(int_setting);
    reveal(level_setting);
    reveal(list_setting);
    reveal(optional_hotkey_setting);
    reveal(overrides_setting);
    reveal(weight_setting);
}

proof fn details_refusals(key: Seq<char>, value: Seq<char>)
    ensures
        rejected_details(key, value) == details_refuse(key, value),
{
    reveal(invalid_auto_bool);
    reveal(invalid_auto_color);
    reveal(invalid_auto_int);
    reveal(invalid_bool);
    reveal(invalid_color);
    reveal(invalid_directory);
    reveal(invalid_family);
    reveal(invalid_fields);
    reveal(invalid_file);
    reveal(invalid_hotkey);
    reveal(invalid_hotkeys);
    reveal(invalid_int);
    reveal(invalid_level);
    reveal(invalid_list);
    reveal(invalid_optional_hotkey);
    reveal(invalid_overrides);
    reveal(invalid_weight);
}

proof fn appearance_alone(c: Config, d: Seq<SectionView>, section: Seq<char>, key: Seq<char>, value: Seq<char>)
    requires
        c.reads_appearance(d),
        entries_of(d) == seq![(section, key, value)],
        section == "appearance"@ ==> !appearance_refuse(key, value),
    ensures
        appearance_hold(c, key_of(section, "appearance"@, key), value),
{
    only_value(d, section, key, value);
    reveal(auto_bool_setting);
    reveal(auto_color_setting);
    reveal(auto_int_setting);
    reveal(bool_setting);
    reveal(color_setting);
    reveal(directory_setting);
    reveal(family_setting);
    reveal(fields_setting);
    reveal(file_setting);
    reveal(hotkey_setting);
    reveal(hotkeys_setting);
    reveal(int_setting);
    reveal(level_setting);
    reveal(list_setting);
    reveal(optional_hotkey_setting);
    reveal(overrides_setting);
    reveal(weight_setting);
}

proof fn appearance_refusals(key: Seq<char>, value: Seq<char>)
    ensures
        rejected_appearance(key, value) == appearance_refuse(key, value),
{
    reveal(invalid_auto_bool);
    reveal(invalid_auto_color);
    reveal(invalid_auto_int);
    reveal(invalid_bool);
    reveal(invalid_color);
    reveal(invalid_directory);
    reveal(invalid_family);
    reveal(invalid_fields);
    reveal(invalid_file);
    reveal(invalid_hotkey);
    reveal(invalid_hotkeys);
    reveal(invalid_int);
    reveal(invalid_level);
    reveal(invalid_list);
    reveal(invalid_optional_hotkey);
    reveal(invalid_overrides);
    reveal(invalid_weight);
}

proof fn startup_alone(c: Config, d: Seq<SectionView>, section: Seq<char>, key: Seq<char>, value: Seq<char>)
    requires
        c.reads_startup(d),
        entries_of(d) == seq![(section, key, value)],
        section == "startup"@ ==> !startup_refuse(key, value),
    ensures
        startup_hold(c, key_of(section, "startup"@, key), value),
{
    only_value(d, section, key, value);
    reveal(auto_bool_setting);
    reveal(auto_color_setting);
    reveal(auto_int_setting);
    reveal(bool_setting);
    reveal(color_setting);
    reveal(directory_setting);
    reveal(family_setting);
    reveal(fields_setting);
    reveal(file_setting);
    reveal(hotkey_setting);
    reveal(hotkeys_setting);
    reveal(int_setting);
    reveal(level_setting);
    reveal(list_setting);
    reveal(optional_hotkey_setting);
    reveal(overrides_setting);
    reveal(weight_setting);
}

proof fn startup_refusals(key: Seq<char>, value: Seq<char>)
    ensures
        rejected_startup(key, value) == startup_refuse(key, value),
{
    reveal(invalid_auto_bool);
    reveal(invalid_auto_color);
    reveal(invalid_auto_int);
    reveal(invalid_bool);
    reveal(invalid_color);
    reveal(invalid_directory);
    reveal(invalid_family);
    reveal(invalid_fields);
    reveal(invalid_file);
    reveal(invalid_hotkey);
    reveal(invalid_hotkeys);
    reveal(invalid_int);
    reveal(invalid_level);
    reveal(invalid_list);
    reveal(invalid_optional_hotkey);
    reveal(invalid_overrides);
    reveal(invalid_weight);
}

proof fn watch_alone(c: Config, d: Seq<SectionView>, section: Seq<char>, key: Seq<char>, value: Seq<char>)
    requires
        c.reads_watch(d),
        entries_of(d) == seq![(section, key, value)],
        section == "config"@ ==> !watch_refuse(key, value),
    ensures
        watch_hold(c, key_of(section, "config"@, key), value),
{
    only_value(d, section, key, value);
    reveal(auto_bool_setting);
    reveal(auto_color_setting);
    reveal(auto_int_setting);
    reveal(bool_setting);
    reveal(color_setting);
    reveal(directory_setting);
    reveal(family_setting);
    reveal(fields_setting);
    reveal(file_setting);
    reveal(hotkey_setting);
    reveal(hotkeys_setting);
    reveal(int_setting);
    reveal(level_setting);
    reveal(list_setting);
    reveal(optional_hotkey_setting);
    reveal(overrides_setting);
    reveal(weight_setting);
}

proof fn watch_refusals(key: Seq<char>, value: Seq<char>)
    ensures
        rejected_watch(key, value) == watch_refuse(key, value),
{
    reveal(invalid_auto_bool);
    reveal(invalid_auto_color);
    reveal(invalid_auto_int);
    reveal(invalid_bool);
    reveal(invalid_color);
    reveal(invalid_directory);
    reveal(invalid_family);
    reveal(invalid_fields);
    reveal(invalid_file);
    reveal(invalid_hotkey);
    reveal(invalid_hotkeys);
    reveal(invalid_int);
    reveal(invalid_level);
    reveal(invalid_list);
    reveal(invalid_optional_hotkey);
    reveal(invalid_overrides);
    reveal(invalid_weight);
}

proof fn localization_alone(c: Config, d: Seq<SectionView>, section: Seq<char>, key: Seq<char>, value: Seq<char>)
    requires
        c.reads_localization(d),
        entries_of(d) == seq![(section, key, value)],
        section == "localization"@ ==> !localization_refuse(key, value),
    ensures
        localization_hold(c, key_of(section, "localization"@, key), value),
{
    only_value(d, section, key, value);
    reveal(auto_bool_setting);
    reveal(auto_color_setting);
    reveal(auto_int_setting);
    reveal(bool_setting);
    reveal(color_setting);
    reveal(directory_setting);
    reveal(family_setting);
    reveal(fields_setting);
    reveal(file_setting);
    reveal(hotkey_setting);
    reveal(hotkeys_setting);
    reveal(int_setting);
    reveal(level_setting);
    reveal(list_setting);
    reveal(optional_hotkey_setting);
    reveal(overrides_setting);
    reveal(weight_setting);
}

proof fn localization_refusals(key: Seq<char>, value: Seq<char>)
    ensures
        rejected_localization(key, value) == localization_refuse(key, value),
{
    reveal(invalid_auto_bool);
    reveal(invalid_auto_color);
    reveal(invalid_auto_int);
    reveal(invalid_bool);
    reveal(invalid_color);
    reveal(invalid_directory);
    reveal(invalid_family);
    reveal(invalid_fields);
    reveal(invalid_file);
    reveal(invalid_hotkey);
    reveal(invalid_hotkeys);
    reveal(invalid_int);
    reveal(invalid_level);
    reveal(invalid_list);
    reveal(invalid_optional_hotkey);
    reveal(invalid_overrides);
    reveal(invalid_weight);
}

proof fn log_alone(c: Config, d: Seq<SectionView>, section: Seq<char>, key: Seq<char>, value: Seq<char>)
    requires
        c.reads_log(d),
        entries_of(d) == seq![(section, key, value)],
        section == "log"@ ==> !log_refuse(key, value),
    ensures
        log_hold(c, key_of(section, "log"@, key), value),
{
    only_value(d, section, key, value);
    reveal(auto_bool_setting);
    reveal(auto_color_setting);
    reveal(auto_int_setting);
    reveal(bool_setting);
    reveal(color_setting);
    reveal(directory_setting);
    reveal(family_setting);
    reveal(fields_setting);
    reveal(file_setting);
    reveal(hotkey_setting);
    reveal(hotkeys_setting);
    reveal(int_setting);
    reveal(level_setting);
    reveal(list_setting);
    reveal(optional_hotkey_setting);
    reveal(overrides_setting);
    reveal(weight_setting);
}

proof fn log_refusals(key: Seq<char>, value: Seq<char>)
    ensures
        rejected_log(key, value) == log_refuse(key, value),
{
    reveal(invalid_auto_bool);
    reveal(invalid_auto_color);
    reveal(invalid_auto_int);
    reveal(invalid_bool);
    reveal(invalid_color);
    reveal(invalid_directory);
    reveal(invalid_family);
    reveal(invalid_fields);
    reveal(invalid_file);
    reveal(invalid_hotkey);
    reveal(invalid_hotkeys);
    reveal(invalid_int);
    reveal(invalid_level);
    reveal(invalid_list);
    reveal(invalid_optional_hotkey);
    reveal(invalid_overrides);
    reveal(invalid_weight);
}

proof fn performance_alone(c: Config, d: Seq<SectionView>, section: Seq<char>, key: Seq<char>, value: Seq<char>)
    requires
        c.reads_performance(d),
        entries_of(d) == seq![(section, key, value)],
        section == "performance"@ ==> !performance_refuse(key, value),
    ensures
        performance_hold(c, key_of(section, "performance"@, key), value),
{
    only_value(d, section, key, value);
    reveal(auto_bool_setting);
    reveal(auto_color_setting);
    reveal(auto_int_setting);
    reveal(bool_setting);
    reveal(color_setting);
    reveal(directory_setting);
    reveal(family_setting);
    reveal(fields_setting);
    reveal(file_setting);
    reveal(hotkey_setting);
    reveal(hotkeys_setting);
    reveal(int_setting);
    reveal(level_setting);
    reveal(list_setting);
    reveal(optional_hotkey_setting);
    reveal(overrides_setting);
    reveal(weight_setting);
}

proof fn performance_refusals(key: Seq<char>, value: Seq<char>)
    ensures
        rejected_performance(key, value) == performance_refuse(key, value),
{
    reveal(invalid_auto_bool);
    reveal(invalid_auto_color);
    reveal(invalid_auto_int);
    reveal(invalid_bool);
    reveal(invalid_color);
    reveal(invalid_directory);
    reveal(invalid_family);
    reveal(invalid_fields);
    reveal(invalid_file);
    reveal(invalid_hotkey);
    reveal(invalid_hotkeys);
    reveal(invalid_int);
    reveal(invalid_level);
    reveal(invalid_list);
    reveal(invalid_optional_hotkey);
    reveal(invalid_overrides);
    reveal(invalid_weight);
}

proof fn browser_alone(c: Config, d: Seq<SectionView>, section: Seq<char>, key: Seq<char>, value: Seq<char>)
    requires
        c.reads_browser(d),
        entries_of(d) == seq![(section, key, value)],
        section == "browser"@ ==> !browser_refuse(key, value),
    ensures
        browser_hold(c, key_of(section, "browser"@, key), value),
{
    only_value(d, section, key, value);
    reveal(auto_bool_setting);
    reveal(auto_color_setting);
    reveal(auto_int_setting);
    reveal(bool_setting);
    reveal(color_setting);
    reveal(directory_setting);
    reveal(family_setting);
    reveal(fields_setting);
    reveal(file_setting);
    reveal(hotkey_setting);
    reveal(hotkeys_setting);
    reveal(int_setting);
    reveal(level_setting);
    reveal(list_setting);
    reveal(optional_hotkey_setting);
    reveal(overrides_setting);
    reveal(weight_setting);
}

proof fn browser_refusals(key: Seq<char>, value: Seq<char>)
    ensures
        rejected_browser(key, value) == browser_refuse(key, value),
{
    reveal(invalid_auto_bool);
    reveal(invalid_auto_color);
    reveal(invalid_auto_int);
    reveal(invalid_bool);
    reveal(invalid_color);
    reveal(invalid_directory);
    reveal(invalid_family);
    reveal(invalid_fields);
    reveal(invalid_file);
    reveal(invalid_hotkey);
    reveal(invalid_hotkeys);
    reveal(invalid_int);
    reveal(invalid_level);
    reveal(invalid_list);
    reveal(invalid_optional_hotkey);
    reveal(invalid_overrides);
    reveal(invalid_weight);
}

/// One setting fills one field: of a document whose only property is a setting with a value that
/// is accepted, the field of that section and key holds the value, and every other field holds its
/// default.
pub proof fn one_setting_fills_one_field(
    config: Config,
    d: Seq<SectionView>,
    section: Seq<char>,
    key: Seq<char>,
    value: Seq<char>,
)
    requires
        entries_of(d) == seq![(section, key, value)],
        is_loaded(Ok(config), d),
    ensures
        general_hold(config, key_of(section, ""@, key), value),
        windows_hold(config, key_of(section, "switch-windows"@, key), value),
        apps_hold(config, key_of(section, "switch-apps"@, key), value),
        input_hold(config, key_of(section, "input"@, key), value),
        search_hold(config, key_of(section, "search"@, key), value),
        details_hold(config, key_of(section, "details"@, key), value),
        appearance_hold(config, key_of(section, "appearance"@, key), value),
        startup_hold(config, key_of(section, "startup"@, key), value),
        watch_hold(config, key_of(section, "config"@, key), value),
        localization_hold(config, key_of(section, "localization"@, key), value),
        log_hold(config, key_of(section, "log"@, key), value),
        performance_hold(config, key_of(section, "performance"@, key), value),
        browser_hold(config, key_of(section, "browser"@, key), value),
{
    assert(!crate::config::schema::rejected(section, key, value)) by {
        assert(entries_of(d)[0] == (section, key, value));
    }
    assert(config.reads(d));
    general_refusals(key, value);
    general_alone(config, d, section, key, value);
    windows_refusals(key, value);
    windows_alone(config, d, section, key, value);
    apps_refusals(key, value);
    apps_alone(config, d, section, key, value);
    input_refusals(key, value);
    input_alone(config, d, section, key, value);
    search_refusals(key, value);
    search_alone(config, d, section, key, value);
    details_refusals(key, value);
    details_alone(config, d, section, key, value);
    appearance_refusals(key, value);
    appearance_alone(config, d, section, key, value);
    startup_refusals(key, value);
    startup_alone(config, d, section, key, value);
    watch_refusals(key, value);
    watch_alone(config, d, section, key, value);
    localization_refusals(key, value);
    localization_alone(config, d, section, key, value);
    log_refusals(key, value);
    log_alone(config, d, section, key, value);
    performance_refusals(key, value);
    performance_alone(config, d, section, key, value);
    browser_refusals(key, value);
    browser_alone(config, d, section, key, value);
}

/// A value is refused exactly if it is not one that its setting takes, and the error names the
/// setting and the value. Other keys and sections take everything.
pub proof fn refused_values(
    r: Result<Config, ConfigError>,
    d: Seq<SectionView>,
    section: Seq<char>,
    key: Seq<char>,
    value: Seq<char>,
)
    requires
        entries_of(d) == seq![(section, key, value)],
        is_loaded(r, d),
    ensures
        refuses(section, key, value) <==> r is Err && r->Err_0 is Invalid,
        r matches Err(ConfigError::Invalid { section: s, key: k, value: v }) ==> s@ == section && k@
            == key && v@ == value,
{
    assert(entries_of(d)[0] == (section, key, value));
    assert(first_rejected(entries_of(d), 1) is None);
    general_refusals(key, value);
    windows_refusals(key, value);
    apps_refusals(key, value);
    input_refusals(key, value);
    search_refusals(key, value);
    details_refusals(key, value);
    appearance_refusals(key, value);
    startup_refusals(key, value);
    watch_refusals(key, value);
    localization_refusals(key, value);
    log_refusals(key, value);
    performance_refusals(key, value);
    browser_refusals(key, value);
}

/// Whether two bindings are the same.
pub open spec fn same_binding(a: Hotkey, b: Hotkey) -> bool {
    a.id == b.id && a.name@ == b.name@ && a.modifier@[0] == b.modifier@[0] && a.modifier@[1]
        == b.modifier@[1] && a.code == b.code
}

/// Whether two lists of bindings are the same.
pub open spec fn same_bindings(a: Seq<Hotkey>, b: Seq<Hotkey>) -> bool {
    a.len() == b.len() && forall|i: int|
        0 <= i < a.len() ==> same_binding(#[trigger] a[i], b[i])
}

/// Whether two configurations agree in the settings of one section, but for that of a key.
pub open spec fn general_agree(a: Config, b: Config, key: Option<Seq<char>>) -> bool {
    &&& key == Some("trayicon"@) || a.trayicon == b.trayicon
    &&& key == Some("auto_restart"@) || a.auto_restart == b.auto_restart
    &&& key == Some("restart_delay_ms"@) || a.restart_delay_ms == b.restart_delay_ms
}

proof fn general_stay(a: Config, b: Config, d: Seq<SectionView>, e: Seq<SectionView>, section: Seq<char>, key: Seq<char>)
    requires
        a.reads_general(d),
        b.reads_general(e),
        same_but(d, e, section, key),
    ensures
        general_agree(a, b, key_of(section, ""@, key)),
{
    reveal(auto_bool_setting);
    reveal(auto_color_setting);
    reveal(auto_int_setting);
    reveal(bool_setting);
    reveal(color_setting);
    reveal(directory_setting);
    reveal(family_setting);
    reveal(fields_setting);
    reveal(file_setting);
    reveal(hotkey_setting);
    reveal(hotkeys_setting);
    reveal(int_setting);
    reveal(level_setting);
    reveal(list_setting);
    reveal(optional_hotkey_setting);
    reveal(overrides_setting);
    reveal(weight_setting);
}

/// Whether two configurations agree in the settings of one section, but for that of a key.
pub open spec fn windows_agree(a: Config, b: Config, key: Option<Seq<char>>) -> bool {
    &&& key == Some("enable"@) || a.switch_windows_enable == b.switch_windows_enable
    &&& key == Some("hotkey"@) || same_bindings(a.switch_windows_hotkey@, b.switch_windows_hotkey@)
    &&& key == Some("blacklist"@) || strings(a.switch_windows_blacklist@) == strings(b.switch_windows_blacklist@)
    &&& key == Some("ignore_minimal"@) || a.switch_windows_ignore_minimal == b.switch_windows_ignore_minimal
    &&& key == Some("only_current_desktop"@) || a.switch_windows_only_current_desktop == b.switch_windows_only_current_desktop
    &&& key == Some("include_topmost"@) || a.switch_windows_include_topmost == b.switch_windows_include_topmost
    &&& key == Some("include_tool_windows"@) || a.switch_windows_include_tool_windows == b.switch_windows_include_tool_windows
    &&& key == Some("include_untitled"@) || a.switch_windows_include_untitled == b.switch_windows_include_untitled
    &&& key == Some("min_width"@) || a.switch_windows_min_width == b.switch_windows_min_width
    &&& key == Some("min_height"@) || a.switch_windows_min_height == b.switch_windows_min_height
    &&& key == Some("exclude_titles"@) || strings(a.switch_windows_exclude_titles@) == strings(b.switch_windows_exclude_titles@)
    &&& key == Some("exclude_processes"@) || strings(a.switch_windows_exclude_processes@) == strings(b.switch_windows_exclude_processes@)
    &&& key == Some("order"@) || a.switch_windows_order == b.switch_windows_order
}

proof fn windows_stay(a: Config, b: Config, d: Seq<SectionView>, e: Seq<SectionView>, section: Seq<char>, key: Seq<char>)
    requires
        a.reads_windows(d),
        b.reads_windows(e),
        same_but(d, e, section, key),
    ensures
        windows_agree(a, b, key_of(section, "switch-windows"@, key)),
{
    reveal(auto_bool_setting);
    reveal(auto_color_setting);
    reveal(auto_int_setting);
    reveal(bool_setting);
    reveal(color_setting);
    reveal(directory_setting);
    reveal(family_setting);
    reveal(fields_setting);
    reveal(file_setting);
    reveal(hotkey_setting);
    reveal(hotkeys_setting);
    reveal(int_setting);
    reveal(level_setting);
    reveal(list_setting);
    reveal(optional_hotkey_setting);
    reveal(overrides_setting);
    reveal(weight_setting);
}

/// Whether two configurations agree in the settings of one section, but for that of a key.
pub open spec fn apps_agree(a: Config, b: Config, key: Option<Seq<char>>) -> bool {
    &&& key == Some("enable"@) || a.switch_apps_enable == b.switch_apps_enable
    &&& key == Some("hotkey"@) || same_bindings(a.switch_apps_hotkey@, b.switch_apps_hotkey@)
    &&& key == Some("ignore_minimal"@) || a.switch_apps_ignore_minimal == b.switch_apps_ignore_minimal
    &&& key == Some("override_icons"@) || text_entries(a.switch_apps_override_icons) == text_entries(b.switch_apps_override_icons)
    &&& key == Some("show_badge"@) || a.switch_apps_show_badge == b.switch_apps_show_badge
    &&& key == Some("badge_max"@) || a.switch_apps_badge_max == b.switch_apps_badge_max
    &&& key == Some("badge_color"@) || a.switch_apps_badge_color == b.switch_apps_badge_color
    &&& key == Some("badge_text_color"@) || a.switch_apps_badge_text_color == b.switch_apps_badge_text_color
    &&& key == Some("badge_font_size"@) || a.switch_apps_badge_font_size == b.switch_apps_badge_font_size
    &&& key == Some("badge_font_family"@) || a.badge_font_family@ == b.badge_font_family@
    &&& key == Some("badge_font_file"@) || optional_view(a.badge_font_file) == optional_view(b.badge_font_file)
    &&& key == Some("only_current_desktop"@) || a.switch_apps_only_current_desktop == b.switch_apps_only_current_desktop
    &&& key == Some("blacklist"@) || strings(a.switch_apps_blacklist@) == strings(b.switch_apps_blacklist@)
    &&& key == Some("include_topmost"@) || a.switch_apps_include_topmost == b.switch_apps_include_topmost
    &&& key == Some("include_tool_windows"@) || a.switch_apps_include_tool_windows == b.switch_apps_include_tool_windows
    &&& key == Some("include_untitled"@) || a.switch_apps_include_untitled == b.switch_apps_include_untitled
    &&& key == Some("min_width"@) || a.switch_apps_min_width == b.switch_apps_min_width
    &&& key == Some("min_height"@) || a.switch_apps_min_height == b.switch_apps_min_height
    &&& key == Some("exclude_titles"@) || strings(a.switch_apps_exclude_titles@) == strings(b.switch_apps_exclude_titles@)
    &&& key == Some("exclude_processes"@) || strings(a.switch_apps_exclude_processes@) == strings(b.switch_apps_exclude_processes@)
    &&& key == Some("badge_shape"@) || a.switch_apps_badge_shape == b.switch_apps_badge_shape
    &&& key == Some("badge_size"@) || a.switch_apps_badge_size == b.switch_apps_badge_size
    &&& key == Some("order"@) || a.switch_apps_order == b.switch_apps_order
}

proof fn apps_stay(a: Config, b: Config, d: Seq<SectionView>, e: Seq<SectionView>, section: Seq<char>, key: Seq<char>)
    requires
        a.reads_apps(d),
        b.reads_apps(e),
        same_but(d, e, section, key),
    ensures
        apps_agree(a, b, key_of(section, "switch-apps"@, key)),
{
    reveal(auto_bool_setting);
    reveal(auto_color_setting);
    reveal(auto_int_setting);
    reveal(bool_setting);
    reveal(color_setting);
    reveal(directory_setting);
    reveal(family_setting);
    reveal(fields_setting);
    reveal(file_setting);
    reveal(hotkey_setting);
    reveal(hotkeys_setting);
    reveal(int_setting);
    reveal(level_setting);
    reveal(list_setting);
    reveal(optional_hotkey_setting);
    reveal(overrides_setting);
    reveal(weight_setting);
}

/// Whether two configurations agree in the settings of one section, but for that of a key.
pub open spec fn input_agree(a: Config, b: Config, key: Option<Seq<char>>) -> bool {
    &&& key == Some("unknown_foreground"@) || a.unknown_foreground == b.unknown_foreground
    &&& key == Some("injected_events"@) || a.injected_events == b.injected_events
    &&& key == Some("paused"@) || a.input_paused == b.input_paused
    &&& key == Some("pause_hotkey"@) || (a.pause_hotkey is Some == b.pause_hotkey is Some && (a.pause_hotkey is Some ==> same_binding(a.pause_hotkey->0, b.pause_hotkey->0)))
}

proof fn input_stay(a: Config, b: Config, d: Seq<SectionView>, e: Seq<SectionView>, section: Seq<char>, key: Seq<char>)
    requires
        a.reads_input(d),
        b.reads_input(e),
        same_but(d, e, section, key),
    ensures
        input_agree(a, b, key_of(section, "input"@, key)),
{
    reveal(auto_bool_setting);
    reveal(auto_color_setting);
    reveal(auto_int_setting);
    reveal(bool_setting);
    reveal(color_setting);
    reveal(directory_setting);
    reveal(family_setting);
    reveal(fields_setting);
    reveal(file_setting);
    reveal(hotkey_setting);
    reveal(hotkeys_setting);
    reveal(int_setting);
    reveal(level_setting);
    reveal(list_setting);
    reveal(optional_hotkey_setting);
    reveal(overrides_setting);
    reveal(weight_setting);
}

/// Whether two configurations agree in the settings of one section, but for that of a key.
pub open spec fn search_agree(a: Config, b: Config, key: Option<Seq<char>>) -> bool {
    &&& key == Some("enable"@) || a.search_enable == b.search_enable
    &&& key == Some("hotkey"@) || same_binding(a.search_hotkey, b.search_hotkey)
    &&& key == Some("match"@) || a.search_match == b.search_match
    &&& key == Some("fields"@) || (forall|field: SearchField| #[trigger] a.search_fields.has(field) == b.search_fields.has(field))
    &&& key == Some("max_results"@) || a.search_max_results == b.search_max_results
}

proof fn search_stay(a: Config, b: Config, d: Seq<SectionView>, e: Seq<SectionView>, section: Seq<char>, key: Seq<char>)
    requires
        a.reads_search(d),
        b.reads_search(e),
        same_but(d, e, section, key),
    ensures
        search_agree(a, b, key_of(section, "search"@, key)),
{
    reveal(auto_bool_setting);
    reveal(auto_color_setting);
    reveal(auto_int_setting);
    reveal(bool_setting);
    reveal(color_setting);
    reveal(directory_setting);
    reveal(family_setting);
    reveal(fields_setting);
    reveal(file_setting);
    reveal(hotkey_setting);
    reveal(hotkeys_setting);
    reveal(int_setting);
    reveal(level_setting);
    reveal(list_setting);
    reveal(optional_hotkey_setting);
    reveal(overrides_setting);
    reveal(weight_setting);
}

/// Whether two configurations agree in the settings of one section, but for that of a key.
pub open spec fn details_agree(a: Config, b: Config, key: Option<Seq<char>>) -> bool {
    &&& key == Some("enable"@) || a.details_enable == b.details_enable
    &&& key == Some("hotkey"@) || same_binding(a.details_hotkey, b.details_hotkey)
}

proof fn details_stay(a: Config, b: Config, d: Seq<SectionView>, e: Seq<SectionView>, section: Seq<char>, key: Seq<char>)
    requires
        a.reads_details(d),
        b.reads_details(e),
        same_but(d, e, section, key),
    ensures
        details_agree(a, b, key_of(section, "details"@, key)),
{
    reveal(auto_bool_setting);
    reveal(auto_color_setting);
    reveal(auto_int_setting);
    reveal(bool_setting);
    reveal(color_setting);
    reveal(directory_setting);
    reveal(family_setting);
    reveal(fields_setting);
    reveal(file_setting);
    reveal(hotkey_setting);
    reveal(hotkeys_setting);
    reveal(int_setting);
    reveal(level_setting);
    reveal(list_setting);
    reveal(optional_hotkey_setting);
    reveal(overrides_setting);
    reveal(weight_setting);
}

/// Whether two configurations agree in the settings of one section, but for that of a key.
pub open spec fn appearance_agree(a: Config, b: Config, key: Option<Seq<char>>) -> bool {
    &&& key == Some("monitor"@) || a.monitor == b.monitor
    &&& key == Some("use_work_area"@) || a.use_work_area == b.use_work_area
    &&& key == Some("panel_width"@) || a.panel_width == b.panel_width
    &&& key == Some("panel_height"@) || a.panel_height == b.panel_height
    &&& key == Some("icon_size"@) || a.icon_size == b.icon_size
    &&& key == Some("icon_padding"@) || a.icon_padding == b.icon_padding
    &&& key == Some("item_gap"@) || a.item_gap == b.item_gap
    &&& key == Some("panel_padding"@) || a.panel_padding == b.panel_padding
    &&& key == Some("max_width"@) || a.max_width == b.max_width
    &&& key == Some("max_height"@) || a.max_height == b.max_height
    &&& key == Some("max_columns"@) || a.max_columns == b.max_columns
    &&& key == Some("theme"@) || a.theme == b.theme
    &&& key == Some("background_color"@) || a.background_color == b.background_color
    &&& key == Some("background_opacity"@) || a.background_opacity == b.background_opacity
    &&& key == Some("icon_background_color"@) || a.icon_background_color == b.icon_background_color
    &&& key == Some("icon_background_opacity"@) || a.icon_background_opacity == b.icon_background_opacity
    &&& key == Some("selection_color"@) || a.selection_color == b.selection_color
    &&& key == Some("selection_opacity"@) || a.selection_opacity == b.selection_opacity
    &&& key == Some("selection_border_color"@) || a.selection_border_color == b.selection_border_color
    &&& key == Some("selection_border_width"@) || a.selection_border_width == b.selection_border_width
    &&& key == Some("panel_corner_radius"@) || a.panel_corner_radius == b.panel_corner_radius
    &&& key == Some("icon_corner_radius"@) || a.icon_corner_radius == b.icon_corner_radius
    &&& key == Some("selection_corner_radius"@) || a.selection_corner_radius == b.selection_corner_radius
    &&& key == Some("app_name_mode"@) || a.app_name_mode == b.app_name_mode
    &&& key == Some("app_name_font_family"@) || a.app_name_font_family@ == b.app_name_font_family@
    &&& key == Some("app_name_font_file"@) || optional_view(a.app_name_font_file) == optional_view(b.app_name_font_file)
    &&& key == Some("app_name_font_size"@) || a.app_name_font_size == b.app_name_font_size
    &&& key == Some("app_name_font_weight"@) || a.app_name_font_weight == b.app_name_font_weight
    &&& key == Some("app_name_font_italic"@) || a.app_name_font_italic == b.app_name_font_italic
    &&& key == Some("app_name_text_color"@) || a.app_name_text_color == b.app_name_text_color
}

proof fn appearance_stay(a: Config, b: Config, d: Seq<SectionView>, e: Seq<SectionView>, section: Seq<char>, key: Seq<char>)
    requires
        a.reads_appearance(d),
        b.reads_appearance(e),
        same_but(d, e, section, key),
    ensures
        appearance_agree(a, b, key_of(section, "appearance"@, key)),
{
    reveal(auto_bool_setting);
    reveal(auto_color_setting);
    reveal(auto_int_setting);
    reveal(bool_setting);
    reveal(color_setting);
    reveal(directory_setting);
    reveal(family_setting);
    reveal(fields_setting);
    reveal(file_setting);
    reveal(hotkey_setting);
    reveal(hotkeys_setting);
    reveal(int_setting);
    reveal(level_setting);
    reveal(list_setting);
    reveal(optional_hotkey_setting);
    reveal(overrides_setting);
    reveal(weight_setting);
}

/// Whether two configurations agree in the settings of one section, but for that of a key.
pub open spec fn startup_agree(a: Config, b: Config, key: Option<Seq<char>>) -> bool {
    &&& key == Some("enabled"@) || a.startup_enabled == b.startup_enabled
    &&& key == Some("run_level"@) || a.startup_run_level == b.startup_run_level
    &&& key == Some("battery_policy"@) || a.startup_battery_policy == b.startup_battery_policy
    &&& key == Some("command_timeout_ms"@) || a.startup_command_timeout_ms == b.startup_command_timeout_ms
}

proof fn startup_stay(a: Config, b: Config, d: Seq<SectionView>, e: Seq<SectionView>, section: Seq<char>, key: Seq<char>)
    requires
        a.reads_startup(d),
        b.reads_startup(e),
        same_but(d, e, section, key),
    ensures
        startup_agree(a, b, key_of(section, "startup"@, key)),
{
    reveal(auto_bool_setting);
    reveal(auto_color_setting);
    reveal(auto_int_setting);
    reveal(bool_setting);
    reveal(color_setting);
    reveal(directory_setting);
    reveal(family_setting);
    reveal(fields_setting);
    reveal(file_setting);
    reveal(hotkey_setting);
    reveal(hotkeys_setting);
    reveal(int_setting);
    reveal(level_setting);
    reveal(list_setting);
    reveal(optional_hotkey_setting);
    reveal(overrides_setting);
    reveal(weight_setting);
}

/// Whether two configurations agree in the settings of one section, but for that of a key.
pub open spec fn watch_agree(a: Config, b: Config, key: Option<Seq<char>>) -> bool {
    &&& key == Some("watch_mode"@) || a.config_watch_mode == b.config_watch_mode
    &&& key == Some("poll_interval_ms"@) || a.config_poll_interval_ms == b.config_poll_interval_ms
    &&& key == Some("restart_timeout_ms"@) || a.config_restart_timeout_ms == b.config_restart_timeout_ms
    &&& key == Some("retry_delay_ms"@) || a.config_retry_delay_ms == b.config_retry_delay_ms
    &&& key == Some("retry_limit"@) || a.config_retry_limit == b.config_retry_limit
}

proof fn watch_stay(a: Config, b: Config, d: Seq<SectionView>, e: Seq<SectionView>, section: Seq<char>, key: Seq<char>)
    requires
        a.reads_watch(d),
        b.reads_watch(e),
        same_but(d, e, section, key),
    ensures
        watch_agree(a, b, key_of(section, "config"@, key)),
{
    reveal(auto_bool_setting);
    reveal(auto_color_setting);
    reveal(auto_int_setting);
    reveal(bool_setting);
    reveal(color_setting);
    reveal(directory_setting);
    reveal(family_setting);
    reveal(fields_setting);
    reveal(file_setting);
    reveal(hotkey_setting);
    reveal(hotkeys_setting);
    reveal(int_setting);
    reveal(level_setting);
    reveal(list_setting);
    reveal(optional_hotkey_setting);
    reveal(overrides_setting);
    reveal(weight_setting);
}

/// Whether two configurations agree in the settings of one section, but for that of a key.
pub open spec fn localization_agree(a: Config, b: Config, key: Option<Seq<char>>) -> bool {
    &&& key == Some("language"@) || a.language == b.language
}

proof fn localization_stay(a: Config, b: Config, d: Seq<SectionView>, e: Seq<SectionView>, section: Seq<char>, key: Seq<char>)
    requires
        a.reads_localization(d),
        b.reads_localization(e),
        same_but(d, e, section, key),
    ensures
        localization_agree(a, b, key_of(section, "localization"@, key)),
{
    reveal(auto_bool_setting);
    reveal(auto_color_setting);
    reveal(auto_int_setting);
    reveal(bool_setting);
    reveal(color_setting);
    reveal(directory_setting);
    reveal(family_setting);
    reveal(fields_setting);
    reveal(file_setting);
    reveal(hotkey_setting);
    reveal(hotkeys_setting);
    reveal(int_setting);
    reveal(level_setting);
    reveal(list_setting);
    reveal(optional_hotkey_setting);
    reveal(overrides_setting);
    reveal(weight_setting);
}

/// Whether two configurations agree in the settings of one section, but for that of a key.
pub open spec fn log_agree(a: Config, b: Config, key: Option<Seq<char>>) -> bool {
    &&& key == Some("level"@) || a.log_level == b.log_level
    &&& key == Some("path"@) || optional_view(a.log_file) == optional_view(b.log_file)
    &&& key == Some("max_file_mb"@) || a.log_max_file_mb == b.log_max_file_mb
    &&& key == Some("retained_files"@) || a.log_retained_files == b.log_retained_files
}

proof fn log_stay(a: Config, b: Config, d: Seq<SectionView>, e: Seq<SectionView>, section: Seq<char>, key: Seq<char>)
    requires
        a.reads_log(d),
        b.reads_log(e),
        same_but(d, e, section, key),
    ensures
        log_agree(a, b, key_of(section, "log"@, key)),
{
    reveal(auto_bool_setting);
    reveal(auto_color_setting);
    reveal(auto_int_setting);
    reveal(bool_setting);
    reveal(color_setting);
    reveal(directory_setting);
    reveal(family_setting);
    reveal(fields_setting);
    reveal(file_setting);
    reveal(hotkey_setting);
    reveal(hotkeys_setting);
    reveal(int_setting);
    reveal(level_setting);
    reveal(list_setting);
    reveal(optional_hotkey_setting);
    reveal(overrides_setting);
    reveal(weight_setting);
}

/// Whether two configurations agree in the settings of one section, but for that of a key.
pub open spec fn performance_agree(a: Config, b: Config, key: Option<Seq<char>>) -> bool {
    &&& key == Some("metrics_enabled"@) || a.metrics_enabled == b.metrics_enabled
    &&& key == Some("metrics_interval_s"@) || a.metrics_interval_s == b.metrics_interval_s
    &&& key == Some("icon_cache_limit"@) || a.icon_cache_limit == b.icon_cache_limit
    &&& key == Some("icon_cache_mb"@) || a.icon_cache_mb == b.icon_cache_mb
    &&& key == Some("icon_failure_ttl_ms"@) || a.icon_failure_ttl_ms == b.icon_failure_ttl_ms
    &&& key == Some("metadata_cache_limit"@) || a.metadata_cache_limit == b.metadata_cache_limit
    &&& key == Some("metadata_ttl_ms"@) || a.metadata_ttl_ms == b.metadata_ttl_ms
    &&& key == Some("icon_query_timeout_ms"@) || a.icon_query_timeout_ms == b.icon_query_timeout_ms
    &&& key == Some("snapshot_budget_ms"@) || a.snapshot_budget_ms == b.snapshot_budget_ms
    &&& key == Some("render_scale"@) || a.render_scale == b.render_scale
    &&& key == Some("render_budget_mb"@) || a.render_budget_mb == b.render_budget_mb
    &&& key == Some("mru_limit"@) || a.mru_limit == b.mru_limit
}

proof fn performance_stay(a: Config, b: Config, d: Seq<SectionView>, e: Seq<SectionView>, section: Seq<char>, key: Seq<char>)
    requires
        a.reads_performance(d),
        b.reads_performance(e),
        same_but(d, e, section, key),
    ensures
        performance_agree(a, b, key_of(section, "performance"@, key)),
{
    reveal(auto_bool_setting);
    reveal(auto_color_setting);
    reveal(auto_int_setting);
    reveal(bool_setting);
    reveal(color_setting);
    reveal(directory_setting);
    reveal(family_setting);
    reveal(fields_setting);
    reveal(file_setting);
    reveal(hotkey_setting);
    reveal(hotkeys_setting);
    reveal(int_setting);
    reveal(level_setting);
    reveal(list_setting);
    reveal(optional_hotkey_setting);
    reveal(overrides_setting);
    reveal(weight_setting);
}

/// Whether two configurations agree in the settings of one section, but for that of a key.
pub open spec fn browser_agree(a: Config, b: Config, key: Option<Seq<char>>) -> bool {
    &&& key == Some("chrome_user_data_dir"@) || optional_view(a.chrome_user_data_dir) == optional_view(b.chrome_user_data_dir)
    &&& key == Some("edge_user_data_dir"@) || optional_view(a.edge_user_data_dir) == optional_view(b.edge_user_data_dir)
}

proof fn browser_stay(a: Config, b: Config, d: Seq<SectionView>, e: Seq<SectionView>, section: Seq<char>, key: Seq<char>)
    requires
        a.reads_browser(d),
        b.reads_browser(e),
        same_but(d, e, section, key),
    ensures
        browser_agree(a, b, key_of(section, "browser"@, key)),
{
    reveal(auto_bool_setting);
    reveal(auto_color_setting);
    reveal(auto_int_setting);
    reveal(bool_setting);
    reveal(color_setting);
    reveal(directory_setting);
    reveal(family_setting);
    reveal(fields_setting);
    reveal(file_setting);
    reveal(hotkey_setting);
    reveal(hotkeys_setting);
    reveal(int_setting);
    reveal(level_setting);
    reveal(list_setting);
    reveal(optional_hotkey_setting);
    reveal(overrides_setting);
    reveal(weight_setting);
}

/// Whether two documents give the same text to every setting but one.
pub open spec fn same_but(
    d: Seq<SectionView>,
    e: Seq<SectionView>,
    section: Seq<char>,
    key: Seq<char>,
) -> bool {
    forall|s: Seq<char>, k: Seq<char>|
        !(s == section && k == key) ==> #[trigger] effective(d, s, k) == effective(e, s, k)
}

/// Settings are independent: of two documents that differ in the text of one setting alone, the
/// configurations differ in the field of that setting alone.
pub proof fn settings_are_independent(
    a: Config,
    b: Config,
    d: Seq<SectionView>,
    e: Seq<SectionView>,
    section: Seq<char>,
    key: Seq<char>,
)
    requires
        is_loaded(Ok(a), d),
        is_loaded(Ok(b), e),
        same_but(d, e, section, key),
    ensures
        general_agree(a, b, key_of(section, ""@, key)),
        windows_agree(a, b, key_of(section, "switch-windows"@, key)),
        apps_agree(a, b, key_of(section, "switch-apps"@, key)),
        input_agree(a, b, key_of(section, "input"@, key)),
        search_agree(a, b, key_of(section, "search"@, key)),
        details_agree(a, b, key_of(section, "details"@, key)),
        appearance_agree(a, b, key_of(section, "appearance"@, key)),
        startup_agree(a, b, key_of(section, "startup"@, key)),
        watch_agree(a, b, key_of(section, "config"@, key)),
        localization_agree(a, b, key_of(section, "localization"@, key)),
        log_agree(a, b, key_of(section, "log"@, key)),
        performance_agree(a, b, key_of(section, "performance"@, key)),
        browser_agree(a, b, key_of(section, "browser"@, key)),
{
    general_stay(a, b, d, e, section, key);
    windows_stay(a, b, d, e, section, key);
    apps_stay(a, b, d, e, section, key);
    input_stay(a, b, d, e, section, key);
    search_stay(a, b, d, e, section, key);
    details_stay(a, b, d, e, section, key);
    appearance_stay(a, b, d, e, section, key);
    startup_stay(a, b, d, e, section, key);
    watch_stay(a, b, d, e, section, key);
    localization_stay(a, b, d, e, section, key);
    log_stay(a, b, d, e, section, key);
    performance_stay(a, b, d, e, section, key);
    browser_stay(a, b, d, e, section, key);
}

/// Where a section stands more than once, the first one decides, and in it the first value of a
/// key; where it has none there, the last value of the key decides.
pub proof fn first_section_decides(d: Seq<SectionView>, section: Seq<char>, key: Seq<char>, i: int)
    requires
        section.len() > 0,
        0 <= i < d.len(),
        d[i].0 == Some(section),
        forall|k: int| 0 <= k < i ==> (#[trigger] d[k]).0 != Some(section),
    ensures
        forall|j: int|
            0 <= j < d[i].1.len() && (#[trigger] d[i].1[j]).0 == key && (forall|k: int|
                0 <= k < j ==> (#[trigger] d[i].1[k]).0 != key) ==> effective(d, section, key)
                == Some(d[i].1[j].1),
        (forall|j: int| 0 <= j < d[i].1.len() ==> (#[trigger] d[i].1[j]).0 != key) ==> {
            let all = values_of(entries_of(d), section, key);
            effective(d, section, key) == (if all.len() == 0 {
                None
            } else {
                Some(all.last())
            })
        },
{
    reveal(effective);
    section_is_found(d, section, key, 0, i);
    assert forall|j: int|
        0 <= j < d[i].1.len() && (#[trigger] d[i].1[j]).0 == key && (forall|k: int|
            0 <= k < j ==> (#[trigger] d[i].1[k]).0 != key) implies effective(d, section, key)
        == Some(d[i].1[j].1) by {
        property_is_found(d[i].1, key, 0, j);
    }
    if forall|j: int| 0 <= j < d[i].1.len() ==> (#[trigger] d[i].1[j]).0 != key {
        property_is_absent(d[i].1, key, 0);
    }
}

proof fn section_is_found(
    d: Seq<SectionView>,
    section: Seq<char>,
    key: Seq<char>,
    from: int,
    i: int,
)
    requires
        0 <= from <= i < d.len(),
        d[i].0 == Some(section),
        forall|k: int| 0 <= k < i ==> (#[trigger] d[k]).0 != Some(section),
    ensures
        lookup(d, Some(section), key, from) == property(d[i].1, key, 0),
    decreases i - from,
{
    if from < i {
        section_is_found(d, section, key, from + 1, i);
    }
}

proof fn property_is_found(
    properties: Seq<(Seq<char>, Seq<char>)>,
    key: Seq<char>,
    from: int,
    j: int,
)
    requires
        0 <= from <= j < properties.len(),
        properties[j].0 == key,
        forall|k: int| 0 <= k < j ==> (#[trigger] properties[k]).0 != key,
    ensures
        property(properties, key, from) == Some(properties[j].1),
    decreases j - from,
{
    if from < j {
        property_is_found(properties, key, from + 1, j);
    }
}

proof fn property_is_absent(properties: Seq<(Seq<char>, Seq<char>)>, key: Seq<char>, from: int)
    requires
        0 <= from,
        forall|k: int| 0 <= k < properties.len() ==> (#[trigger] properties[k]).0 != key,
    ensures
        property(properties, key, from) is None,
    decreases properties.len() - from,
{
    if from < properties.len() {
        property_is_absent(properties, key, from + 1);
    }
}

}
