//! Why the values of settings are refused, in the words for the user.

use vstd::prelude::*;

use crate::config::defaults::{default_rows, SettingRow, DEFAULT_SETTINGS};
use crate::config::overrides::{overrides, overrides_value, OverrideError};
use crate::config::parsers::{int_value, integer, MAX_NAME_UNITS, MAX_TITLE_UNITS};
use crate::text::{chars_of, decimal, decimal_text, push_text, same_str};

verus! {

/// What is said of a text that is no truth value.
pub const BOOL_REASON: &'static str = "可选 yes/no、true/false、on/off、1/0";

/// What is said of a text that is no colour.
pub const COLOR_REASON: &'static str = "请填写 #RRGGBB 六位十六进制颜色";

/// What is said of a text that is no font family.
pub const FAMILY_REASON: &'static str = "字体族名须为 1–128 个字符，不能包含控制字符";

/// What is said of a text that is no directory.
pub const DIRECTORY_REASON: &'static str = "请填写 auto 或非空目录路径，最长 32767 个 UTF-16 单元";

/// What is said of a text that is no list of search fields.
pub const FIELDS_REASON: &'static str = "搜索字段须为 app/title/exe 的非空逗号分隔子集";

/// What is said of a text that is no log level, with the text of `log::ParseLevelError`.
pub const LEVEL_REASON: &'static str = "可选 off/error/warn/info/debug/trace: attempted to convert a string that doesn't match an existing log level";

/// What is said of a text that is no font file.
pub const FONT_FILE_REASON: &'static str = "字体路径不能包含 NUL 或超过 32767 个 UTF-16 单元";

/// What is said of a text that is no log file.
pub const LOG_FILE_REASON: &'static str = "日志路径不可包含 NUL 且不能超过 32767 个 UTF-16 单元";

/// What is said of a text that is no number of a range.
pub open spec fn range_reason(minimum: u32, maximum: u32) -> Seq<char> {
    "可选整数 "@ + decimal(minimum as nat) + "-"@ + decimal(maximum as nat)
}

pub(crate) fn explain_range(minimum: u32, maximum: u32) -> (r: String)
    ensures
        r@ == range_reason(minimum, maximum),
{
    let mut r = "可选整数 ".to_owned();
    push_text(&mut r, decimal_text(minimum as u64).as_str());
    push_text(&mut r, "-");
    push_text(&mut r, decimal_text(maximum as u64).as_str());
    r
}

/// What is said of a text that is neither `auto` nor a number of a range.
pub open spec fn auto_range_reason(minimum: u32, maximum: u32) -> Seq<char> {
    "可选 auto 或整数 "@ + decimal(minimum as nat) + "-"@ + decimal(maximum as nat) + ": "@
        + range_reason(minimum, maximum)
}

fn explain_auto_range(minimum: u32, maximum: u32) -> (r: String)
    ensures
        r@ == auto_range_reason(minimum, maximum),
{
    let mut r = "可选 auto 或整数 ".to_owned();
    push_text(&mut r, decimal_text(minimum as u64).as_str());
    push_text(&mut r, "-");
    push_text(&mut r, decimal_text(maximum as u64).as_str());
    push_text(&mut r, ": ");
    push_text(&mut r, explain_range(minimum, maximum).as_str());
    r
}

/// What is said of a list beyond the limits.
pub open spec fn list_reason(limit: u64) -> Seq<char> {
    "列表最多 256 项，每项最多 "@ + decimal(limit as nat) + " 个 UTF-16 单元，以英文逗号分隔"@
}

fn explain_list(limit: u64) -> (r: String)
    ensures
        r@ == list_reason(limit),
{
    let mut r = "列表最多 256 项，每项最多 ".to_owned();
    push_text(&mut r, decimal_text(limit).as_str());
    push_text(&mut r, " 个 UTF-16 单元，以英文逗号分隔");
    r
}

/// What is said of a text that is neither `auto` nor a colour.
pub open spec fn auto_color_reason(value: Seq<char>) -> Seq<char> {
    if value.len() > 0 && value[0] == '#' {
        COLOR_REASON@
    } else {
        "请填写 auto 或 #RRGGBB 六位十六进制颜色"@
    }
}

fn explain_auto_color(value: &str) -> (r: String)
    ensures
        r@ == auto_color_reason(value@),
{
    let chars = chars_of(value);
    if chars.len() > 0 && chars[0] == '#' {
        COLOR_REASON.to_owned()
    } else {
        "请填写 auto 或 #RRGGBB 六位十六进制颜色".to_owned()
    }
}

/// What is said of a text that is no font weight.
pub open spec fn weight_reason(value: Seq<char>) -> Seq<char> {
    if int_value(value, 100, 900) is None {
        range_reason(100, 900)
    } else {
        "字重须为 100–900 之间的 100 的倍数"@
    }
}

fn explain_weight(value: &str) -> (r: String)
    ensures
        r@ == weight_reason(value@),
{
    if integer(value, 100, 900).is_none() {
        explain_range(100, 900)
    } else {
        "字重须为 100–900 之间的 100 的倍数".to_owned()
    }
}

/// What is said of a text that is no binding of a function.
pub open spec fn hotkey_reason(name: Seq<char>) -> Seq<char> {
    "Invalid "@ + name + " hotkey"@
}

pub(crate) fn explain_hotkey(name: &str) -> (r: String)
    ensures
        r@ == hotkey_reason(name@),
{
    let mut r = "Invalid ".to_owned();
    push_text(&mut r, name);
    push_text(&mut r, " hotkey");
    r
}

/// What is said of a text that is no list of bindings of a function.
pub open spec fn hotkeys_reason(name: Seq<char>) -> Seq<char> {
    "请使用 alt/ctrl/win + 主键，多个组合用 || 分隔: "@ + hotkey_reason(name)
}

fn explain_hotkeys(name: &str) -> (r: String)
    ensures
        r@ == hotkeys_reason(name@),
{
    let mut r = "请使用 alt/ctrl/win + 主键，多个组合用 || 分隔: ".to_owned();
    push_text(&mut r, explain_hotkey(name).as_str());
    r
}

/// What is said of icon overrides that are refused.
pub open spec fn overrides_reason(value: Seq<char>) -> Seq<char> {
    match overrides_value(value) {
        Err(OverrideError::Form) => "请使用 app.exe=icon.ico，多个条目以英文逗号或分号分隔"@,
        Err(OverrideError::Content) => "匹配文本和图标路径不能为空或包含 NUL"@,
        Err(OverrideError::Length) => "图标匹配文本最多 260 个 UTF-16 单元，路径最多 32767 个"@,
        Err(OverrideError::Count) => "图标覆盖规则最多 256 项"@,
        Ok(_) => seq![],
    }
}

fn explain_overrides(value: &str) -> (r: String)
    ensures
        r@ == overrides_reason(value@),
{
    match overrides(value) {
        Err(OverrideError::Form) => "请使用 app.exe=icon.ico，多个条目以英文逗号或分号分隔".to_owned(),
        Err(OverrideError::Content) => "匹配文本和图标路径不能为空或包含 NUL".to_owned(),
        Err(OverrideError::Length) => "图标匹配文本最多 260 个 UTF-16 单元，路径最多 32767 个".to_owned(),
        Err(OverrideError::Count) => "图标覆盖规则最多 256 项".to_owned(),
        Ok(_) => String::new(),
    }
}

/// Why a value before the first section is refused.
pub open spec fn general_reason(key: Seq<char>, value: Seq<char>) -> Seq<char> {
    if key == "trayicon"@ || key == "auto_restart"@ {
        BOOL_REASON@
    } else if key == "restart_delay_ms"@ {
        range_reason(200, 10000)
    } else {
        seq![]
    }
}

/// Why a value of the section `switch-windows` is refused.
pub open spec fn windows_reason(key: Seq<char>, value: Seq<char>) -> Seq<char> {
    if key == "enable"@ || key == "ignore_minimal"@ || key == "only_current_desktop"@
        || key == "include_topmost"@ || key == "include_tool_windows"@
        || key == "include_untitled"@
    {
        BOOL_REASON@
    } else if key == "hotkey"@ {
        hotkeys_reason("switch windows"@)
    } else if key == "blacklist"@ || key == "exclude_processes"@ {
        list_reason(MAX_NAME_UNITS)
    } else if key == "min_width"@ || key == "min_height"@ {
        range_reason(0, 4096)
    } else if key == "exclude_titles"@ {
        list_reason(MAX_TITLE_UNITS)
    } else if key == "order"@ {
        "可选值：existing mru "@
    } else {
        seq![]
    }
}

/// Why a value of the section `switch-apps` is refused.
pub open spec fn apps_reason(key: Seq<char>, value: Seq<char>) -> Seq<char> {
    if key == "enable"@ || key == "ignore_minimal"@ || key == "show_badge"@
        || key == "only_current_desktop"@ || key == "include_topmost"@
        || key == "include_tool_windows"@ || key == "include_untitled"@
    {
        BOOL_REASON@
    } else if key == "hotkey"@ {
        hotkeys_reason("switch apps"@)
    } else if key == "override_icons"@ {
        overrides_reason(value)
    } else if key == "badge_max"@ {
        range_reason(2, 9999)
    } else if key == "badge_color"@ || key == "badge_text_color"@ {
        COLOR_REASON@
    } else if key == "badge_font_size"@ {
        range_reason(8, 24)
    } else if key == "badge_font_family"@ {
        FAMILY_REASON@
    } else if key == "badge_font_file"@ {
        FONT_FILE_REASON@
    } else if key == "blacklist"@ || key == "exclude_processes"@ {
        list_reason(MAX_NAME_UNITS)
    } else if key == "min_width"@ || key == "min_height"@ {
        range_reason(0, 4096)
    } else if key == "exclude_titles"@ {
        list_reason(MAX_TITLE_UNITS)
    } else if key == "badge_shape"@ {
        "可选值：circle square "@
    } else if key == "badge_size"@ {
        auto_range_reason(16, 48)
    } else if key == "order"@ {
        "可选值：existing mru "@
    } else {
        seq![]
    }
}

/// Why a value of the section `input` is refused.
pub open spec fn input_reason(key: Seq<char>, value: Seq<char>) -> Seq<char> {
    if key == "unknown_foreground"@ {
        "可选值：passthrough handle "@
    } else if key == "injected_events"@ {
        "可选值：handle passthrough "@
    } else if key == "paused"@ {
        BOOL_REASON@
    } else if key == "pause_hotkey"@ {
        hotkey_reason("pause"@)
    } else {
        seq![]
    }
}

/// Why a value of the section `search` is refused.
pub open spec fn search_reason(key: Seq<char>, value: Seq<char>) -> Seq<char> {
    if key == "enable"@ {
        BOOL_REASON@
    } else if key == "hotkey"@ {
        hotkey_reason("search"@)
    } else if key == "match"@ {
        "可选值：fuzzy contains prefix "@
    } else if key == "fields"@ {
        FIELDS_REASON@
    } else if key == "max_results"@ {
        range_reason(10, 200)
    } else {
        seq![]
    }
}

/// Why a value of the section `details` is refused.
pub open spec fn details_reason(key: Seq<char>, value: Seq<char>) -> Seq<char> {
    if key == "enable"@ {
        BOOL_REASON@
    } else if key == "hotkey"@ {
        hotkey_reason("details"@)
    } else {
        seq![]
    }
}

/// Why a value of the section `appearance` is refused.
pub open spec fn appearance_reason(key: Seq<char>, value: Seq<char>) -> Seq<char> {
    if key == "monitor"@ {
        "可选值：cursor foreground primary "@
    } else if key == "use_work_area"@ || key == "app_name_font_italic"@ {
        BOOL_REASON@
    } else if key == "panel_width"@ || key == "panel_height"@ || key == "max_width"@
        || key == "max_height"@
    {
        range_reason(0, 32768)
    } else if key == "icon_size"@ {
        range_reason(24, 256)
    } else if key == "icon_padding"@ || key == "item_gap"@ {
        range_reason(0, 64)
    } else if key == "panel_padding"@ || key == "max_columns"@ {
        range_reason(0, 128)
    } else if key == "theme"@ {
        "可选值：auto light dark "@
    } else if key == "background_color"@ || key == "icon_background_color"@
        || key == "selection_color"@ || key == "selection_border_color"@
        || key == "app_name_text_color"@
    {
        auto_color_reason(value)
    } else if key == "background_opacity"@ || key == "icon_background_opacity"@
        || key == "selection_opacity"@
    {
        range_reason(0, 100)
    } else if key == "selection_border_width"@ {
        range_reason(0, 6)
    } else if key == "panel_corner_radius"@ {
        auto_range_reason(0, 256)
    } else if key == "icon_corner_radius"@ || key == "selection_corner_radius"@ {
        auto_range_reason(0, 128)
    } else if key == "app_name_mode"@ {
        "可选值：off selected "@
    } else if key == "app_name_font_family"@ {
        FAMILY_REASON@
    } else if key == "app_name_font_file"@ {
        FONT_FILE_REASON@
    } else if key == "app_name_font_size"@ {
        range_reason(12, 48)
    } else if key == "app_name_font_weight"@ {
        weight_reason(value)
    } else {
        seq![]
    }
}

/// Why a value of the section `startup` is refused.
pub open spec fn startup_reason(key: Seq<char>, value: Seq<char>) -> Seq<char> {
    if key == "enabled"@ {
        "可选值：auto yes no "@
    } else if key == "run_level"@ {
        "可选值：inherit standard highest "@
    } else if key == "battery_policy"@ {
        "可选值：inherit allow stop "@
    } else if key == "command_timeout_ms"@ {
        range_reason(500, 30000)
    } else {
        seq![]
    }
}

/// Why a value of the section `config` is refused.
pub open spec fn watch_reason(key: Seq<char>, value: Seq<char>) -> Seq<char> {
    if key == "watch_mode"@ {
        "可选值：auto notify poll "@
    } else if key == "poll_interval_ms"@ {
        range_reason(100, 60000)
    } else if key == "restart_timeout_ms"@ {
        range_reason(1000, 60000)
    } else if key == "retry_delay_ms"@ {
        range_reason(200, 30000)
    } else if key == "retry_limit"@ {
        range_reason(0, 10)
    } else {
        seq![]
    }
}

/// Why a value of the section `localization` is refused.
pub open spec fn localization_reason(key: Seq<char>, value: Seq<char>) -> Seq<char> {
    if key == "language"@ {
        "可选值：zh-CN en-US auto "@
    } else {
        seq![]
    }
}

/// Why a value of the section `log` is refused.
pub open spec fn log_reason(key: Seq<char>, value: Seq<char>) -> Seq<char> {
    if key == "level"@ {
        LEVEL_REASON@
    } else if key == "path"@ {
        LOG_FILE_REASON@
    } else if key == "max_file_mb"@ {
        range_reason(1, 100)
    } else if key == "retained_files"@ {
        range_reason(0, 20)
    } else {
        seq![]
    }
}

/// Why a value of the section `performance` is refused.
pub open spec fn performance_reason(key: Seq<char>, value: Seq<char>) -> Seq<char> {
    if key == "metrics_enabled"@ {
        BOOL_REASON@
    } else if key == "metrics_interval_s"@ {
        range_reason(1, 3600)
    } else if key == "icon_cache_limit"@ {
        range_reason(16, 1024)
    } else if key == "icon_cache_mb"@ {
        range_reason(4, 256)
    } else if key == "icon_failure_ttl_ms"@ || key == "metadata_ttl_ms"@ {
        range_reason(100, 60000)
    } else if key == "metadata_cache_limit"@ || key == "mru_limit"@ {
        range_reason(16, 4096)
    } else if key == "icon_query_timeout_ms"@ {
        range_reason(10, 500)
    } else if key == "snapshot_budget_ms"@ {
        range_reason(5, 500)
    } else if key == "render_scale"@ {
        "可选值：auto 1 2 4 6 "@
    } else if key == "render_budget_mb"@ {
        range_reason(8, 256)
    } else {
        seq![]
    }
}

/// Why a value of the section `browser` is refused.
pub open spec fn browser_reason(key: Seq<char>, value: Seq<char>) -> Seq<char> {
    if key == "chrome_user_data_dir"@ || key == "edge_user_data_dir"@ {
        DIRECTORY_REASON@
    } else {
        seq![]
    }
}

fn explain_general(key: &str, value: &str) -> (r: String)
    ensures
        r@ == general_reason(key@, value@),
{
    if same_str(key, "trayicon") || same_str(key, "auto_restart") {
        return BOOL_REASON.to_owned();
    }
    if same_str(key, "restart_delay_ms") {
        return explain_range(200, 10000);
    }
    String::new()
}

fn explain_windows(key: &str, value: &str) -> (r: String)
    ensures
        r@ == windows_reason(key@, value@),
{
    if same_str(key, "enable") || same_str(key, "ignore_minimal")
        || same_str(key, "only_current_desktop") || same_str(key, "include_topmost")
        || same_str(key, "include_tool_windows") || same_str(key, "include_untitled")
    {
        return BOOL_REASON.to_owned();
    }
    if same_str(key, "hotkey") {
        return explain_hotkeys("switch windows");
    }
    if same_str(key, "blacklist") || same_str(key, "exclude_processes") {
        return explain_list(MAX_NAME_UNITS);
    }
    if same_str(key, "min_width") || same_str(key, "min_height") {
        return explain_range(0, 4096);
    }
    if same_str(key, "exclude_titles") {
        return explain_list(MAX_TITLE_UNITS);
    }
    if same_str(key, "order") {
        return "可选值：existing mru ".to_owned();
    }
    String::new()
}

fn explain_apps(key: &str, value: &str) -> (r: String)
    ensures
        r@ == apps_reason(key@, value@),
{
    if same_str(key, "enable") || same_str(key, "ignore_minimal") || same_str(key, "show_badge")
        || same_str(key, "only_current_desktop") || same_str(key, "include_topmost")
        || same_str(key, "include_tool_windows") || same_str(key, "include_untitled")
    {
        return BOOL_REASON.to_owned();
    }
    if same_str(key, "hotkey") {
        return explain_hotkeys("switch apps");
    }
    if same_str(key, "override_icons") {
        return explain_overrides(value);
    }
    if same_str(key, "badge_max") {
        return explain_range(2, 9999);
    }
    if same_str(key, "badge_color") || same_str(key, "badge_text_color") {
        return COLOR_REASON.to_owned();
    }
    if same_str(key, "badge_font_size") {
        return explain_range(8, 24);
    }
    if same_str(key, "badge_font_family") {
        return FAMILY_REASON.to_owned();
    }
    if same_str(key, "badge_font_file") {
        return FONT_FILE_REASON.to_owned();
    }
    if same_str(key, "blacklist") || same_str(key, "exclude_processes") {
        return explain_list(MAX_NAME_UNITS);
    }
    if same_str(key, "min_width") || same_str(key, "min_height") {
        return explain_range(0, 4096);
    }
    if same_str(key, "exclude_titles") {
        return explain_list(MAX_TITLE_UNITS);
    }
    if same_str(key, "badge_shape") {
        return "可选值：circle square ".to_owned();
    }
    if same_str(key, "badge_size") {
        return explain_auto_range(16, 48);
    }
    if same_str(key, "order") {
        return "可选值：existing mru ".to_owned();
    }
    String::new()
}

fn explain_input(key: &str, value: &str) -> (r: String)
    ensures
        r@ == input_reason(key@, value@),
{
    if same_str(key, "unknown_foreground") {
        return "可选值：passthrough handle ".to_owned();
    }
    if same_str(key, "injected_events") {
        return "可选值：handle passthrough ".to_owned();
    }
    if same_str(key, "paused") {
        return BOOL_REASON.to_owned();
    }
    if same_str(key, "pause_hotkey") {
        return explain_hotkey("pause");
    }
    String::new()
}

fn explain_search(key: &str, value: &str) -> (r: String)
    ensures
        r@ == search_reason(key@, value@),
{
    if same_str(key, "enable") {
        return BOOL_REASON.to_owned();
    }
    if same_str(key, "hotkey") {
        return explain_hotkey("search");
    }
    if same_str(key, "match") {
        return "可选值：fuzzy contains prefix ".to_owned();
    }
    if same_str(key, "fields") {
        return FIELDS_REASON.to_owned();
    }
    if same_str(key, "max_results") {
        return explain_range(10, 200);
    }
    String::new()
}

fn explain_details(key: &str, value: &str) -> (r: String)
    ensures
        r@ == details_reason(key@, value@),
{
    if same_str(key, "enable") {
        return BOOL_REASON.to_owned();
    }
    if same_str(key, "hotkey") {
        return explain_hotkey("details");
    }
    String::new()
}

fn explain_appearance(key: &str, value: &str) -> (r: String)
    ensures
        r@ == appearance_reason(key@, value@),
{
    if same_str(key, "monitor") {
        return "可选值：cursor foreground primary ".to_owned();
    }
    if same_str(key, "use_work_area") || same_str(key, "app_name_font_italic") {
        return BOOL_REASON.to_owned();
    }
    if same_str(key, "panel_width") || same_str(key, "panel_height")
        || same_str(key, "max_width") || same_str(key, "max_height")
    {
        return explain_range(0, 32768);
    }
    if same_str(key, "icon_size") {
        return explain_range(24, 256);
    }
    if same_str(key, "icon_padding") || same_str(key, "item_gap") {
        return explain_range(0, 64);
    }
    if same_str(key, "panel_padding") || same_str(key, "max_columns") {
        return explain_range(0, 128);
    }
    if same_str(key, "theme") {
        return "可选值：auto light dark ".to_owned();
    }
    if same_str(key, "background_color") || same_str(key, "icon_background_color")
        || same_str(key, "selection_color") || same_str(key, "selection_border_color")
        || same_str(key, "app_name_text_color")
    {
        return explain_auto_color(value);
    }
    if same_str(key, "background_opacity") || same_str(key, "icon_background_opacity")
        || same_str(key, "selection_opacity")
    {
        return explain_range(0, 100);
    }
    if same_str(key, "selection_border_width") {
        return explain_range(0, 6);
    }
    if same_str(key, "panel_corner_radius") {
        return explain_auto_range(0, 256);
    }
    if same_str(key, "icon_corner_radius") || same_str(key, "selection_corner_radius") {
        return explain_auto_range(0, 128);
    }
    if same_str(key, "app_name_mode") {
        return "可选值：off selected ".to_owned();
    }
    if same_str(key, "app_name_font_family") {
        return FAMILY_REASON.to_owned();
    }
    if same_str(key, "app_name_font_file") {
        return FONT_FILE_REASON.to_owned();
    }
    if same_str(key, "app_name_font_size") {
        return explain_range(12, 48);
    }
    if same_str(key, "app_name_font_weight") {
        return explain_weight(value);
    }
    String::new()
}

fn explain_startup(key: &str, value: &str) -> (r: String)
    ensures
        r@ == startup_reason(key@, value@),
{
    if same_str(key, "enabled") {
        return "可选值：auto yes no ".to_owned();
    }
    if same_str(key, "run_level") {
        return "可选值：inherit standard highest ".to_owned();
    }
    if same_str(key, "battery_policy") {
        return "可选值：inherit allow stop ".to_owned();
    }
    if same_str(key, "command_timeout_ms") {
        return explain_range(500, 30000);
    }
    String::new()
}

fn explain_watch(key: &str, value: &str) -> (r: String)
    ensures
        r@ == watch_reason(key@, value@),
{
    if same_str(key, "watch_mode") {
        return "可选值：auto notify poll ".to_owned();
    }
    if same_str(key, "poll_interval_ms") {
        return explain_range(100, 60000);
    }
    if same_str(key, "restart_timeout_ms") {
        return explain_range(1000, 60000);
    }
    if same_str(key, "retry_delay_ms") {
        return explain_range(200, 30000);
    }
    if same_str(key, "retry_limit") {
        return explain_range(0, 10);
    }
    String::new()
}

fn explain_localization(key: &str, value: &str) -> (r: String)
    ensures
        r@ == localization_reason(key@, value@),
{
    if same_str(key, "language") {
        return "可选值：zh-CN en-US auto ".to_owned();
    }
    String::new()
}

fn explain_log(key: &str, value: &str) -> (r: String)
    ensures
        r@ == log_reason(key@, value@),
{
    if same_str(key, "level") {
        return LEVEL_REASON.to_owned();
    }
    if same_str(key, "path") {
        return LOG_FILE_REASON.to_owned();
    }
    if same_str(key, "max_file_mb") {
        return explain_range(1, 100);
    }
    if same_str(key, "retained_files") {
        return explain_range(0, 20);
    }
    String::new()
}

fn explain_performance(key: &str, value: &str) -> (r: String)
    ensures
        r@ == performance_reason(key@, value@),
{
    if same_str(key, "metrics_enabled") {
        return BOOL_REASON.to_owned();
    }
    if same_str(key, "metrics_interval_s") {
        return explain_range(1, 3600);
    }
    if same_str(key, "icon_cache_limit") {
        return explain_range(16, 1024);
    }
    if same_str(key, "icon_cache_mb") {
        return explain_range(4, 256);
    }
    if same_str(key, "icon_failure_ttl_ms") || same_str(key, "metadata_ttl_ms") {
        return explain_range(100, 60000);
    }
    if same_str(key, "metadata_cache_limit") || same_str(key, "mru_limit") {
        return explain_range(16, 4096);
    }
    if same_str(key, "icon_query_timeout_ms") {
        return explain_range(10, 500);
    }
    if same_str(key, "snapshot_budget_ms") {
        return explain_range(5, 500);
    }
    if same_str(key, "render_scale") {
        return "可选值：auto 1 2 4 6 ".to_owned();
    }
    if same_str(key, "render_budget_mb") {
        return explain_range(8, 256);
    }
    String::new()
}

fn explain_browser(key: &str, value: &str) -> (r: String)
    ensures
        r@ == browser_reason(key@, value@),
{
    if same_str(key, "chrome_user_data_dir") || same_str(key, "edge_user_data_dir") {
        return DIRECTORY_REASON.to_owned();
    }
    String::new()
}

/// Why a value of a setting is refused.
pub open spec fn reason(section: Seq<char>, key: Seq<char>, value: Seq<char>) -> Seq<char> {
    if section == ""@ {
        general_reason(key, value)
    } else if section == "switch-windows"@ {
        windows_reason(key, value)
    } else if section == "switch-apps"@ {
        apps_reason(key, value)
    } else if section == "input"@ {
        input_reason(key, value)
    } else if section == "search"@ {
        search_reason(key, value)
    } else if section == "details"@ {
        details_reason(key, value)
    } else if section == "appearance"@ {
        appearance_reason(key, value)
    } else if section == "startup"@ {
        startup_reason(key, value)
    } else if section == "config"@ {
        watch_reason(key, value)
    } else if section == "localization"@ {
        localization_reason(key, value)
    } else if section == "log"@ {
        log_reason(key, value)
    } else if section == "performance"@ {
        performance_reason(key, value)
    } else if section == "browser"@ {
        browser_reason(key, value)
    } else {
        seq![]
    }
}

/// Says why a value of a setting is refused.
pub fn explain(section: &str, key: &str, value: &str) -> (r: String)
    ensures
        r@ == reason(section@, key@, value@),
{
    if same_str(section, "") {
        return explain_general(key, value);
    }
    if same_str(section, "switch-windows") {
        return explain_windows(key, value);
    }
    if same_str(section, "switch-apps") {
        return explain_apps(key, value);
    }
    if same_str(section, "input") {
        return explain_input(key, value);
    }
    if same_str(section, "search") {
        return explain_search(key, value);
    }
    if same_str(section, "details") {
        return explain_details(key, value);
    }
    if same_str(section, "appearance") {
        return explain_appearance(key, value);
    }
    if same_str(section, "startup") {
        return explain_startup(key, value);
    }
    if same_str(section, "config") {
        return explain_watch(key, value);
    }
    if same_str(section, "localization") {
        return explain_localization(key, value);
    }
    if same_str(section, "log") {
        return explain_log(key, value);
    }
    if same_str(section, "performance") {
        return explain_performance(key, value);
    }
    if same_str(section, "browser") {
        return explain_browser(key, value);
    }
    String::new()
}

/// The default of the first of some settings, from a place on, that has the given name.
pub open spec fn default_from(
    rows: Seq<SettingRow>,
    section: Seq<char>,
    key: Seq<char>,
    from: int,
) -> Seq<char>
    decreases rows.len() - from,
{
    if from < 0 || from >= rows.len() {
        seq![]
    } else if rows[from].0 == section && rows[from].1 == key {
        rows[from].2
    } else {
        default_from(rows, section, key, from + 1)
    }
}

/// The default of a setting.
pub open spec fn default_of(section: Seq<char>, key: Seq<char>) -> Seq<char> {
    default_from(default_rows(), section, key, 0)
}

/// Looks up the default of a setting; it is empty for a setting that is not declared.
pub fn default_value(section: &str, key: &str) -> (r: String)
    ensures
        r@ == default_of(section@, key@),
{
    let settings = DEFAULT_SETTINGS;
    let ghost rows = default_rows();
    for i in 0..settings.len()
        invariant
            settings@ == DEFAULT_SETTINGS@,
            rows == default_rows(),
            rows.len() == settings@.len(),
            default_of(section@, key@) == default_from(rows, section@, key@, i as int),
    {
        let (name, field, value) = settings[i];
        assert(rows[i as int] == (name@, field@, value@));
        if same_str(name, section) && same_str(field, key) {
            return value.to_owned();
        }
    }
    String::new()
}

}
