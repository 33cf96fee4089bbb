//! The settings that a configuration file can hold and the values that they accept.

use vstd::prelude::*;

use crate::config::hotkey::{hotkey_parts, hotkeys_valid, listed, parse_hotkeys};
use crate::config::overrides::{path_part, pattern_part};
use crate::config::parsers::{
    auto_color_value, automatic_color, bool_value, boolean, visible, visible_parts,
};
use crate::config::types::LogLevel;
use crate::text::{
    bar_pieces, chars_of, equal_ignoring_case, find_either, is_number, number_value,
    parse_signed32, parse_unsigned, part, pieces, same_ignoring_case, same_str, signed32,
    split_either, string_of, texts, trim, trimmed, unsigned, until, without_plus,
};
use crate::trimming::{same_trimmed, trimmed_pair_pieces, trimmed_pieces, trimmed_stays};

verus! {

pub const ICON_SIZE_MIN: i32 = 24;
pub const ICON_SIZE_MAX: i32 = 256;
pub const SPACING_MAX: i32 = 128;
pub const PANEL_EXTENT_MAX: i32 = 32768;
pub const GRID_EXTENT_MAX: usize = 128;
pub const BACKGROUND_OPACITY_MAX: u8 = 100;
pub const BADGE_MAX_MIN: usize = 2;
pub const BADGE_MAX_MAX: usize = 9999;
pub const ICON_CACHE_LIMIT_MIN: usize = 16;
pub const ICON_CACHE_LIMIT_MAX: usize = 1024;

/// What is known of a setting and its value.
#[derive(Debug, Clone, Copy, PartialEq, Eq)]
pub enum SettingStatus {
    Valid,
    /// The value is not one of the described ones.
    Invalid(&'static str),
    /// The setting has another name now.
    DeprecatedKey(&'static str),
    /// The value has another name now.
    DeprecatedValue(&'static str),
    Unknown,
}

/// What is known of a setting and its value.
pub enum StatusView {
    Valid,
    Invalid(Seq<char>),
    DeprecatedKey(Seq<char>),
    DeprecatedValue(Seq<char>),
    Unknown,
}

impl View for SettingStatus {
    type V = StatusView;

    open spec fn view(&self) -> StatusView {
        match self {
            SettingStatus::Valid => StatusView::Valid,
            SettingStatus::Invalid(text) => StatusView::Invalid(text@),
            SettingStatus::DeprecatedKey(text) => StatusView::DeprecatedKey(text@),
            SettingStatus::DeprecatedValue(text) => StatusView::DeprecatedValue(text@),
            SettingStatus::Unknown => StatusView::Unknown,
        }
    }
}

/// Whether a section is known; there is one before the first header.
pub open spec fn known_section(section: Option<Seq<char>>) -> bool {
    match section {
        None => true,
        Some(name) => name == "startup"@ || name == "appearance"@ || name == "localization"@ || name
            == "performance"@ || name == "switch-windows"@ || name == "switch-apps"@ || name
            == "log"@,
    }
}

/// The view of an optional section name.
pub open spec fn name_view(section: Option<&str>) -> Option<Seq<char>> {
    match section {
        Some(name) => Some(name@),
        None => None,
    }
}

pub fn is_known_section(section: Option<&str>) -> (r: bool)
    ensures
        r == known_section(name_view(section)),
{
    match section {
        None => true,
        Some(name) => same_str(name, "startup") || same_str(name, "appearance") || same_str(
            name,
            "localization",
        ) || same_str(name, "performance") || same_str(name, "switch-windows") || same_str(
            name,
            "switch-apps",
        ) || same_str(name, "log"),
    }
}

/// Valid, or invalid with a description of the valid values.
pub open spec fn checked(valid: bool, expected: Seq<char>) -> StatusView {
    if valid {
        StatusView::Valid
    } else {
        StatusView::Invalid(expected)
    }
}

/// Whether a text is one of the given ones.
pub open spec fn is_one_of(text: Seq<char>, options: Seq<Seq<char>>) -> bool {
    exists|i: int| 0 <= i < options.len() && #[trigger] options[i] == text
}

pub open spec fn bool_status(value: Seq<char>) -> StatusView {
    checked(bool_value(trimmed(value)) is Some, "yes/no, true/false, on/off, or 1/0"@)
}

pub open spec fn auto_bool_status(value: Seq<char>) -> StatusView {
    if same_ignoring_case(trimmed(value), "auto"@) {
        StatusView::Valid
    } else {
        bool_status(value)
    }
}

pub open spec fn hotkeys_status(value: Seq<char>) -> StatusView {
    checked(hotkeys_valid(value), "one or more supported hotkeys separated by ||"@)
}

/// Whether an override entry has a pattern and a path.
pub open spec fn mapping_valid(entry: Seq<char>) -> bool {
    until(entry, '=', '=') < entry.len() && trimmed(pattern_part(entry)).len() > 0 && trimmed(
        path_part(entry),
    ).len() > 0
}

/// Whether every entry that is not blank has a pattern and a path.
pub open spec fn mappings_valid(value: Seq<char>) -> bool {
    let entries = visible_parts(pieces(value, ',', ';'));
    forall|i: int| 0 <= i < entries.len() ==> mapping_valid(#[trigger] entries[i])
}

pub open spec fn overrides_status(value: Seq<char>) -> StatusView {
    checked(
        mappings_valid(value),
        "app.exe=icon_path entries separated by comma or semicolon"@,
    )
}

pub open spec fn fallback_status(value: Seq<char>) -> StatusView {
    if same_ignoring_case(trimmed(value), "none"@) {
        StatusView::DeprecatedValue("solid"@)
    } else {
        checked(is_one_of(trimmed(value), seq!["alpha"@, "solid"@]), "alpha or solid"@)
    }
}

pub open spec fn i32_status(value: Seq<char>, min: i32, max: i32) -> StatusView {
    checked(
        signed32(trimmed(value)) matches Some(n) && min <= n && n <= max,
        "integer outside the supported range"@,
    )
}

pub open spec fn u8_status(value: Seq<char>, min: u8, max: u8) -> StatusView {
    checked(
        unsigned(trimmed(value), u8::MAX as nat) matches Some(n) && min <= n && n <= max,
        "integer outside the supported range"@,
    )
}

pub open spec fn usize_status(value: Seq<char>, min: usize, max: usize) -> StatusView {
    checked(
        unsigned(trimmed(value), usize::MAX as nat) matches Some(n) && min <= n && n <= max,
        "integer outside the supported range"@,
    )
}

/// The status of a setting before the first section.
pub open spec fn general_status(key: Seq<char>, value: Seq<char>) -> StatusView {
    if key == "config_version"@ {
        checked(unsigned(trimmed(value), u32::MAX as nat) is Some, "non-negative integer"@)
    } else if key == "trayicon"@ {
        bool_status(value)
    } else {
        StatusView::Unknown
    }
}

/// The status of a setting of the section `startup`.
pub open spec fn startup_status(key: Seq<char>, value: Seq<char>) -> StatusView {
    if key == "run_as_admin"@ {
        bool_status(value)
    } else {
        StatusView::Unknown
    }
}

/// The status of a setting of the section `appearance`.
pub open spec fn appearance_status(key: Seq<char>, value: Seq<char>) -> StatusView {
    if key == "monitor"@ {
        checked(is_one_of(trimmed(value), seq!["cursor"@, "foreground"@, "primary"@]), "cursor, foreground, or primary"@)
    } else if key == "use_work_area"@ || key == "show_badge"@ {
        bool_status(value)
    } else if key == "icon_size"@ {
        i32_status(value, ICON_SIZE_MIN, ICON_SIZE_MAX)
    } else if key == "icon_padding"@ || key == "item_gap"@ || key == "panel_padding"@ {
        i32_status(value, 0, SPACING_MAX)
    } else if key == "max_width"@ || key == "max_height"@ {
        i32_status(value, 0, PANEL_EXTENT_MAX)
    } else if key == "layout"@ {
        checked(is_one_of(trimmed(value), seq!["single-row"@, "grid"@, "paged"@]), "single-row, grid, or paged"@)
    } else if key == "max_columns"@ || key == "max_rows"@ {
        usize_status(value, 0, GRID_EXTENT_MAX)
    } else if key == "background_color"@ {
        checked(auto_color_value(trimmed(value)) is Some, "auto or #RRGGBB"@)
    } else if key == "background_opacity"@ {
        u8_status(value, 0, BACKGROUND_OPACITY_MAX)
    } else if key == "backdrop"@ {
        checked(is_one_of(trimmed(value), seq!["none"@, "alpha"@, "blur"@, "acrylic"@, "mica"@, "auto"@]), "none, alpha, blur, acrylic, mica, or auto"@)
    } else if key == "backdrop_fallback"@ {
        fallback_status(value)
    } else if key == "badge_max"@ {
        usize_status(value, BADGE_MAX_MIN, BADGE_MAX_MAX)
    } else {
        StatusView::Unknown
    }
}

/// The status of a setting of the section `localization`.
pub open spec fn localization_status(key: Seq<char>, value: Seq<char>) -> StatusView {
    if key == "language"@ {
        checked(is_one_of(trimmed(value), seq!["auto"@, "zh-CN"@, "en-US"@]), "auto, zh-CN, or en-US"@)
    } else {
        StatusView::Unknown
    }
}

/// The status of a setting of the section `performance`.
pub open spec fn performance_status(key: Seq<char>, value: Seq<char>) -> StatusView {
    if key == "icon_cache_limit"@ {
        usize_status(value, ICON_CACHE_LIMIT_MIN, ICON_CACHE_LIMIT_MAX)
    } else if key == "render_scale"@ {
        checked(is_one_of(trimmed(value), seq!["auto"@, "1"@, "2"@, "4"@, "6"@]), "auto, 1, 2, 4, or 6"@)
    } else if key == "config_reload"@ {
        checked(is_one_of(trimmed(value), seq!["restart"@, "on-open"@, "watch"@]), "restart, on-open, or watch"@)
    } else {
        StatusView::Unknown
    }
}

/// The status of a setting of the section `switch-windows`.
pub open spec fn windows_status(key: Seq<char>, value: Seq<char>) -> StatusView {
    if key == "hotkey"@ {
        hotkeys_status(value)
    } else if key == "blacklist"@ {
        StatusView::Valid
    } else if key == "ignore_minimal"@ {
        bool_status(value)
    } else if key == "only_current_desktop"@ {
        auto_bool_status(value)
    } else {
        StatusView::Unknown
    }
}

/// The status of a setting of the section `switch-apps`.
pub open spec fn apps_status(key: Seq<char>, value: Seq<char>) -> StatusView {
    if key == "hotkey"@ {
        hotkeys_status(value)
    } else if key == "enable"@ || key == "ignore_minimal"@ {
        bool_status(value)
    } else if key == "only_current_desktop"@ {
        auto_bool_status(value)
    } else if key == "override_icons"@ {
        overrides_status(value)
    } else {
        StatusView::Unknown
    }
}

/// The status of a setting of the section `log`.
pub open spec fn log_status(key: Seq<char>, value: Seq<char>) -> StatusView {
    if key == "level"@ {
        checked(LogLevel::of(trimmed(value)) is Some, "off, error, warn, info, debug, or trace"@)
    } else if key == "path"@ {
        StatusView::Valid
    } else if key == "file"@ {
        StatusView::DeprecatedKey("path"@)
    } else {
        StatusView::Unknown
    }
}

/// The status of a setting.
pub open spec fn setting_status(
    section: Option<Seq<char>>,
    key: Seq<char>,
    value: Seq<char>,
) -> StatusView {
    match section {
        None => general_status(key, value),
        Some(name) => if name == "startup"@ {
            startup_status(key, value)
        } else if name == "appearance"@ {
            appearance_status(key, value)
        } else if name == "localization"@ {
            localization_status(key, value)
        } else if name == "performance"@ {
            performance_status(key, value)
        } else if name == "switch-windows"@ {
            windows_status(key, value)
        } else if name == "switch-apps"@ {
            apps_status(key, value)
        } else if name == "log"@ {
            log_status(key, value)
        } else {
            StatusView::Unknown
        },
    }
}

/// Checks a setting and its value.
pub fn validate_setting(section: Option<&str>, key: &str, value: &str) -> (r: SettingStatus)
    ensures
        r@ == setting_status(name_view(section), key@, value@),
{
    match section {
        None => validate_general(key, value),
        Some(name) => if same_str(name, "startup") {
            validate_startup(key, value)
        } else if same_str(name, "appearance") {
            validate_appearance(key, value)
        } else if same_str(name, "localization") {
            validate_localization(key, value)
        } else if same_str(name, "performance") {
            validate_performance(key, value)
        } else if same_str(name, "switch-windows") {
            validate_windows(key, value)
        } else if same_str(name, "switch-apps") {
            validate_apps(key, value)
        } else if same_str(name, "log") {
            validate_log(key, value)
        } else {
            SettingStatus::Unknown
        },
    }
}

fn visible_text(value: &str) -> (r: Vec<char>)
    ensures
        r@ == trimmed(value@),
{
    let chars = chars_of(value);
    trim(chars.as_slice())
}

fn validate_bool(value: &str) -> (r: SettingStatus)
    ensures
        r@ == bool_status(value@),
{
    let text = string_of(visible_text(value).as_slice());
    if boolean(text.as_str()).is_some() {
        SettingStatus::Valid
    } else {
        SettingStatus::Invalid("yes/no, true/false, on/off, or 1/0")
    }
}

fn validate_auto_bool(value: &str) -> (r: SettingStatus)
    ensures
        r@ == auto_bool_status(value@),
{
    if equal_ignoring_case(visible_text(value).as_slice(), "auto") {
        SettingStatus::Valid
    } else {
        validate_bool(value)
    }
}

fn validate_hotkeys(value: &str) -> (r: SettingStatus)
    ensures
        r@ == hotkeys_status(value@),
{
    match parse_hotkeys(0, "", value) {
        Ok(_) => SettingStatus::Valid,
        Err(_) => SettingStatus::Invalid("one or more supported hotkeys separated by ||"),
    }
}

fn is_mapping(entry: &[char]) -> (r: bool)
    ensures
        r == mapping_valid(entry@),
{
    assert(entry@.skip(0) =~= entry@);
    let at: usize = find_either(entry, 0, '=', '=');
    if at == entry.len() {
        return false;
    }
    let pattern = part(entry, 0, at);
    let path = part(entry, at + 1, entry.len());
    assert(pattern@ =~= pattern_part(entry@));
    assert(path@ =~= path_part(entry@));
    let pattern = trim(pattern.as_slice());
    let path = trim(path.as_slice());
    pattern.len() > 0 && path.len() > 0
}

fn validate_override_icons(value: &str) -> (r: SettingStatus)
    ensures
        r@ == overrides_status(value@),
{
    let chars = chars_of(value);
    let parts = split_either(chars.as_slice(), ',', ';');
    let items = visible(&parts);
    let ghost entries = visible_parts(pieces(value@, ',', ';'));
    for i in 0..items.len()
        invariant
            entries == visible_parts(pieces(value@, ',', ';')),
            texts(items@) == entries,
            forall|k: int| 0 <= k < i ==> mapping_valid(#[trigger] entries[k]),
    {
        assert(entries[i as int] == items@[i as int]@);
        if !is_mapping(items[i].as_slice()) {
            return SettingStatus::Invalid(
                "app.exe=icon_path entries separated by comma or semicolon",
            );
        }
    }
    SettingStatus::Valid
}

fn validate_fallback(value: &str) -> (r: SettingStatus)
    ensures
        r@ == fallback_status(value@),
{
    if equal_ignoring_case(visible_text(value).as_slice(), "none") {
        return SettingStatus::DeprecatedValue("solid");
    }
    let mut options: Vec<&str> = Vec::new();
    options.push("alpha");
    options.push("solid");
    assert(str_views(options@) =~= seq!["alpha"@, "solid"@]);
    validate_choice(value, options, "alpha or solid")
}

/// The views of a list of literals.
pub open spec fn str_views(list: Seq<&str>) -> Seq<Seq<char>> {
    Seq::new(list.len(), |i: int| list[i]@)
}

/// Checks a value against a list of words.
fn validate_choice(value: &str, options: Vec<&str>, expected: &'static str) -> (r: SettingStatus)
    ensures
        r@ == checked(is_one_of(trimmed(value@), str_views(options@)), expected@),
{
    let text = visible_text(value);
    for i in 0..options.len()
        invariant
            text@ == trimmed(value@),
            forall|k: int| 0 <= k < i ==> #[trigger] str_views(options@)[k] != text@,
    {
        if crate::text::is_text(text.as_slice(), options[i]) {
            assert(str_views(options@)[i as int] == text@);
            return SettingStatus::Valid;
        }
    }
    SettingStatus::Invalid(expected)
}

fn validate_u32(value: &str, expected: &'static str) -> (r: SettingStatus)
    ensures
        r@ == checked(unsigned(trimmed(value@), u32::MAX as nat) is Some, expected@),
{
    match parse_unsigned(visible_text(value).as_slice(), u32::MAX as u64) {
        Some(_) => SettingStatus::Valid,
        None => SettingStatus::Invalid(expected),
    }
}

fn validate_level(value: &str, expected: &'static str) -> (r: SettingStatus)
    ensures
        r@ == checked(LogLevel::of(trimmed(value@)) is Some, expected@),
{
    let text = string_of(visible_text(value).as_slice());
    match LogLevel::parse(text.as_str()) {
        Some(_) => SettingStatus::Valid,
        None => SettingStatus::Invalid(expected),
    }
}

fn validate_background(value: &str, expected: &'static str) -> (r: SettingStatus)
    ensures
        r@ == checked(auto_color_value(trimmed(value@)) is Some, expected@),
{
    let text = string_of(visible_text(value).as_slice());
    match automatic_color(text.as_str()) {
        Some(_) => SettingStatus::Valid,
        None => SettingStatus::Invalid(expected),
    }
}

fn validate_i32(value: &str, min: i32, max: i32) -> (r: SettingStatus)
    ensures
        r@ == i32_status(value@, min, max),
{
    match parse_signed32(visible_text(value).as_slice()) {
        Some(n) => if min <= n && n <= max {
            return SettingStatus::Valid;
        },
        None => {},
    }
    SettingStatus::Invalid("integer outside the supported range")
}

fn validate_u8(value: &str, min: u8, max: u8) -> (r: SettingStatus)
    ensures
        r@ == u8_status(value@, min, max),
{
    match parse_unsigned(visible_text(value).as_slice(), u8::MAX as u64) {
        Some(n) => if min as u64 <= n && n <= max as u64 {
            return SettingStatus::Valid;
        },
        None => {},
    }
    SettingStatus::Invalid("integer outside the supported range")
}

fn validate_usize(value: &str, min: usize, max: usize) -> (r: SettingStatus)
    ensures
        r@ == usize_status(value@, min, max),
{
    match parse_unsigned(visible_text(value).as_slice(), usize::MAX as u64) {
        Some(n) => if min as u64 <= n && n <= max as u64 {
            return SettingStatus::Valid;
        },
        None => {},
    }
    SettingStatus::Invalid("integer outside the supported range")
}

fn validate_general(key: &str, value: &str) -> (r: SettingStatus)
    ensures
        r@ == general_status(key@, value@),
{
    if same_str(key, "config_version") {
        return validate_u32(value, "non-negative integer");
    }
    if same_str(key, "trayicon") {
        return validate_bool(value);
    }
    SettingStatus::Unknown
}

fn validate_startup(key: &str, value: &str) -> (r: SettingStatus)
    ensures
        r@ == startup_status(key@, value@),
{
    if same_str(key, "run_as_admin") {
        return validate_bool(value);
    }
    SettingStatus::Unknown
}

fn validate_appearance(key: &str, value: &str) -> (r: SettingStatus)
    ensures
        r@ == appearance_status(key@, value@),
{
    if same_str(key, "monitor") {
        let mut options: Vec<&str> = Vec::new();
        options.push("cursor");
        options.push("foreground");
        options.push("primary");
        assert(str_views(options@) =~= seq!["cursor"@, "foreground"@, "primary"@]);
        return validate_choice(value, options, "cursor, foreground, or primary");
    }
    if same_str(key, "use_work_area") || same_str(key, "show_badge") {
        return validate_bool(value);
    }
    if same_str(key, "icon_size") {
        return validate_i32(value, ICON_SIZE_MIN, ICON_SIZE_MAX);
    }
    if same_str(key, "icon_padding") || same_str(key, "item_gap") || same_str(key, "panel_padding") {
        return validate_i32(value, 0, SPACING_MAX);
    }
    if same_str(key, "max_width") || same_str(key, "max_height") {
        return validate_i32(value, 0, PANEL_EXTENT_MAX);
    }
    if same_str(key, "layout") {
        let mut options: Vec<&str> = Vec::new();
        options.push("single-row");
        options.push("grid");
        options.push("paged");
        assert(str_views(options@) =~= seq!["single-row"@, "grid"@, "paged"@]);
        return validate_choice(value, options, "single-row, grid, or paged");
    }
    if same_str(key, "max_columns") || same_str(key, "max_rows") {
        return validate_usize(value, 0, GRID_EXTENT_MAX);
    }
    if same_str(key, "background_color") {
        return validate_background(value, "auto or #RRGGBB");
    }
    if same_str(key, "background_opacity") {
        return validate_u8(value, 0, BACKGROUND_OPACITY_MAX);
    }
    if same_str(key, "backdrop") {
        let mut options: Vec<&str> = Vec::new();
        options.push("none");
        options.push("alpha");
        options.push("blur");
        options.push("acrylic");
        options.push("mica");
        options.push("auto");
        assert(str_views(options@) =~= seq!["none"@, "alpha"@, "blur"@, "acrylic"@, "mica"@, "auto"@]);
        return validate_choice(value, options, "none, alpha, blur, acrylic, mica, or auto");
    }
    if same_str(key, "backdrop_fallback") {
        return validate_fallback(value);
    }
    if same_str(key, "badge_max") {
        return validate_usize(value, BADGE_MAX_MIN, BADGE_MAX_MAX);
    }
    SettingStatus::Unknown
}

fn validate_localization(key: &str, value: &str) -> (r: SettingStatus)
    ensures
        r@ == localization_status(key@, value@),
{
    if same_str(key, "language") {
        let mut options: Vec<&str> = Vec::new();
        options.push("auto");
        options.push("zh-CN");
        options.push("en-US");
        assert(str_views(options@) =~= seq!["auto"@, "zh-CN"@, "en-US"@]);
        return validate_choice(value, options, "auto, zh-CN, or en-US");
    }
    SettingStatus::Unknown
}

fn validate_performance(key: &str, value: &str) -> (r: SettingStatus)
    ensures
        r@ == performance_status(key@, value@),
{
    if same_str(key, "icon_cache_limit") {
        return validate_usize(value, ICON_CACHE_LIMIT_MIN, ICON_CACHE_LIMIT_MAX);
    }
    if same_str(key, "render_scale") {
        let mut options: Vec<&str> = Vec::new();
        options.push("auto");
        options.push("1");
        options.push("2");
        options.push("4");
        options.push("6");
        assert(str_views(options@) =~= seq!["auto"@, "1"@, "2"@, "4"@, "6"@]);
        return validate_choice(value, options, "auto, 1, 2, 4, or 6");
    }
    if same_str(key, "config_reload") {
        let mut options: Vec<&str> = Vec::new();
        options.push("restart");
        options.push("on-open");
        options.push("watch");
        assert(str_views(options@) =~= seq!["restart"@, "on-open"@, "watch"@]);
        return validate_choice(value, options, "restart, on-open, or watch");
    }
    SettingStatus::Unknown
}

fn validate_windows(key: &str, value: &str) -> (r: SettingStatus)
    ensures
        r@ == windows_status(key@, value@),
{
    if same_str(key, "hotkey") {
        return validate_hotkeys(value);
    }
    if same_str(key, "blacklist") {
        return SettingStatus::Valid;
    }
    if same_str(key, "ignore_minimal") {
        return validate_bool(value);
    }
    if same_str(key, "only_current_desktop") {
        return validate_auto_bool(value);
    }
    SettingStatus::Unknown
}

fn validate_apps(key: &str, value: &str) -> (r: SettingStatus)
    ensures
        r@ == apps_status(key@, value@),
{
    if same_str(key, "hotkey") {
        return validate_hotkeys(value);
    }
    if same_str(key, "enable") || same_str(key, "ignore_minimal") {
        return validate_bool(value);
    }
    if same_str(key, "only_current_desktop") {
        return validate_auto_bool(value);
    }
    if same_str(key, "override_icons") {
        return validate_override_icons(value);
    }
    SettingStatus::Unknown
}

fn validate_log(key: &str, value: &str) -> (r: SettingStatus)
    ensures
        r@ == log_status(key@, value@),
{
    if same_str(key, "level") {
        return validate_level(value, "off, error, warn, info, debug, or trace");
    }
    if same_str(key, "path") {
        return SettingStatus::Valid;
    }
    if same_str(key, "file") {
        return SettingStatus::DeprecatedKey("path");
    }
    SettingStatus::Unknown
}

/// No section that is unknown has a known setting.
pub proof fn unknown_sections_have_no_settings(
    section: Option<Seq<char>>,
    key: Seq<char>,
    value: Seq<char>,
)
    requires
        !known_section(section),
    ensures
        setting_status(section, key, value) == StatusView::Unknown,
{
}

/// Whether a setting is known depends on its section and its key only.
pub proof fn known_settings_have_names(
    section: Option<Seq<char>>,
    key: Seq<char>,
    value: Seq<char>,
    other: Seq<char>,
)
    ensures
        setting_status(section, key, value) == StatusView::Unknown <==> setting_status(
            section,
            key,
            other,
        ) == StatusView::Unknown,
{
}

proof fn same_visible_parts(a: Seq<Seq<char>>, b: Seq<Seq<char>>)
    requires
        same_trimmed(a, b),
    ensures
        visible_parts(a) == visible_parts(b),
        hotkey_parts(a) == hotkey_parts(b),
    decreases a.len(),
{
    if a.len() > 0 {
        let x = a.drop_last();
        let y = b.drop_last();
        assert forall|i: int| 0 <= i < x.len() implies trimmed(#[trigger] x[i]) == trimmed(
            #[trigger] y[i],
        ) by {
            assert(trimmed(a[i]) == trimmed(b[i]));
        }
        same_visible_parts(x, y);
        assert(trimmed(a[a.len() - 1]) == trimmed(b[b.len() - 1]));
    }
}

/// White space around a value never changes what is known of it.
pub proof fn white_space_decides_nothing(
    section: Option<Seq<char>>,
    key: Seq<char>,
    value: Seq<char>,
)
    ensures
        setting_status(section, key, value) == setting_status(section, key, trimmed(value)),
{
    trimmed_stays(value);
    trimmed_pieces(value, ',', ';');
    same_visible_parts(pieces(value, ',', ';'), pieces(trimmed(value), ',', ';'));
    trimmed_pair_pieces(value, '|');
    same_visible_parts(bar_pieces(value), bar_pieces(trimmed(value)));
    assert(listed(value) == listed(trimmed(value)));
    assert(hotkeys_valid(value) == hotkeys_valid(trimmed(value)));
    assert(mappings_valid(value) == mappings_valid(trimmed(value)));
}

/// The settings of the part before the first section, and the values that each accepts.
pub proof fn unnamed_settings(key: Seq<char>, value: Seq<char>)
    ensures
        ({
            let t = trimmed(value);
            let status = |name: Seq<char>| setting_status(None, name, value);
            &&& status("config_version"@) == StatusView::Valid <==> unsigned(t, 4294967295) is Some
            &&& status("config_version"@) is Invalid <==> status("config_version"@) != StatusView::Valid
            &&& status("trayicon"@) == StatusView::Valid <==> bool_value(t) is Some
            &&& status("trayicon"@) is Invalid <==> status("trayicon"@) != StatusView::Valid
            &&& key != "config_version"@ && key != "trayicon"@ ==> status(key) == StatusView::Unknown
        }),
{
    reveal_strlit("config_version");
    reveal_strlit("trayicon");
    assert("trayicon"@.len() != "config_version"@.len());
}

/// The settings of the section `startup`, and the values that each accepts.
pub proof fn startup_settings(key: Seq<char>, value: Seq<char>)
    ensures
        ({
            let t = trimmed(value);
            let status = |name: Seq<char>| setting_status(Some("startup"@), name, value);
            &&& status("run_as_admin"@) == StatusView::Valid <==> bool_value(t) is Some
            &&& status("run_as_admin"@) is Invalid <==> status("run_as_admin"@) != StatusView::Valid
            &&& key != "run_as_admin"@ ==> status(key) == StatusView::Unknown
        }),
{
    reveal_strlit("run_as_admin");
    reveal_strlit("startup");
    reveal_strlit("appearance");
    reveal_strlit("localization");
    reveal_strlit("performance");
    reveal_strlit("switch-windows");
    reveal_strlit("switch-apps");
    reveal_strlit("log");
    assert("startup"@.len() != "appearance"@.len());
    assert("startup"@.len() != "localization"@.len());
    assert("startup"@.len() != "performance"@.len());
    assert("startup"@.len() != "switch-windows"@.len());
    assert("startup"@.len() != "switch-apps"@.len());
    assert("startup"@.len() != "log"@.len());
}

/// The settings of the section `appearance`, and the values that each accepts.
pub proof fn appearance_settings(key: Seq<char>, value: Seq<char>)
    ensures
        ({
            let t = trimmed(value);
            let status = |name: Seq<char>| setting_status(Some("appearance"@), name, value);
            &&& status("monitor"@) == StatusView::Valid <==> t == "cursor"@ || t == "foreground"@ || t == "primary"@
            &&& status("monitor"@) is Invalid <==> status("monitor"@) != StatusView::Valid
            &&& status("use_work_area"@) == StatusView::Valid <==> bool_value(t) is Some
            &&& status("use_work_area"@) is Invalid <==> status("use_work_area"@) != StatusView::Valid
            &&& status("show_badge"@) == StatusView::Valid <==> bool_value(t) is Some
            &&& status("show_badge"@) is Invalid <==> status("show_badge"@) != StatusView::Valid
            &&& status("icon_size"@) == StatusView::Valid <==> signed32(t) is Some && 24 <= signed32(t)->0 <= 256
            &&& status("icon_size"@) is Invalid <==> status("icon_size"@) != StatusView::Valid
            &&& status("icon_padding"@) == StatusView::Valid <==> signed32(t) is Some && 0 <= signed32(t)->0 <= 128
            &&& status("icon_padding"@) is Invalid <==> status("icon_padding"@) != StatusView::Valid
            &&& status("item_gap"@) == StatusView::Valid <==> signed32(t) is Some && 0 <= signed32(t)->0 <= 128
            &&& status("item_gap"@) is Invalid <==> status("item_gap"@) != StatusView::Valid
            &&& status("panel_padding"@) == StatusView::Valid <==> signed32(t) is Some && 0 <= signed32(t)->0 <= 128
            &&& status("panel_padding"@) is Invalid <==> status("panel_padding"@) != StatusView::Valid
            &&& status("max_width"@) == StatusView::Valid <==> signed32(t) is Some && 0 <= signed32(t)->0 <= 32768
            &&& status("max_width"@) is Invalid <==> status("max_width"@) != StatusView::Valid
            &&& status("max_height"@) == StatusView::Valid <==> signed32(t) is Some && 0 <= signed32(t)->0 <= 32768
            &&& status("max_height"@) is Invalid <==> status("max_height"@) != StatusView::Valid
            &&& status("layout"@) == StatusView::Valid <==> t == "single-row"@ || t == "grid"@ || t == "paged"@
            &&& status("layout"@) is Invalid <==> status("layout"@) != StatusView::Valid
            &&& status("max_columns"@) == StatusView::Valid <==> is_number(without_plus(t)) && 0 <= number_value(without_plus(t)) <= 128
            &&& status("max_columns"@) is Invalid <==> status("max_columns"@) != StatusView::Valid
            &&& status("max_rows"@) == StatusView::Valid <==> is_number(without_plus(t)) && 0 <= number_value(without_plus(t)) <= 128
            &&& status("max_rows"@) is Invalid <==> status("max_rows"@) != StatusView::Valid
            &&& status("background_color"@) == StatusView::Valid <==> auto_color_value(t) is Some
            &&& status("background_color"@) is Invalid <==> status("background_color"@) != StatusView::Valid
            &&& status("background_opacity"@) == StatusView::Valid <==> is_number(without_plus(t)) && 0 <= number_value(without_plus(t)) <= 100
            &&& status("background_opacity"@) is Invalid <==> status("background_opacity"@) != StatusView::Valid
            &&& status("backdrop"@) == StatusView::Valid <==> t == "none"@ || t == "alpha"@ || t == "blur"@ || t == "acrylic"@ || t == "mica"@ || t == "auto"@
            &&& status("backdrop"@) is Invalid <==> status("backdrop"@) != StatusView::Valid
            &&& same_ignoring_case(t, "none"@) ==> status("backdrop_fallback"@) == StatusView::DeprecatedValue("solid"@)
            &&& !same_ignoring_case(t, "none"@) ==> (status("backdrop_fallback"@) == StatusView::Valid <==> t == "alpha"@ || t == "solid"@)
            &&& !same_ignoring_case(t, "none"@) ==> (status("backdrop_fallback"@) is Invalid <==> status("backdrop_fallback"@) != StatusView::Valid)
            &&& status("badge_max"@) == StatusView::Valid <==> is_number(without_plus(t)) && 2 <= number_value(without_plus(t)) <= 9999
            &&& status("badge_max"@) is Invalid <==> status("badge_max"@) != StatusView::Valid
            &&& key != "monitor"@ && key != "use_work_area"@ && key != "show_badge"@ && key != "icon_size"@ && key != "icon_padding"@ && key != "item_gap"@ && key != "panel_padding"@ && key != "max_width"@ && key != "max_height"@ && key != "layout"@ && key != "max_columns"@ && key != "max_rows"@ && key != "background_color"@ && key != "background_opacity"@ && key != "backdrop"@ && key != "backdrop_fallback"@ && key != "badge_max"@ ==> status(key) == StatusView::Unknown
        }),
{
    reveal_strlit("monitor");
    reveal_strlit("use_work_area");
    reveal_strlit("show_badge");
    reveal_strlit("icon_size");
    reveal_strlit("icon_padding");
    reveal_strlit("item_gap");
    reveal_strlit("panel_padding");
    reveal_strlit("max_width");
    reveal_strlit("max_height");
    reveal_strlit("layout");
    reveal_strlit("max_columns");
    reveal_strlit("max_rows");
    reveal_strlit("background_color");
    reveal_strlit("background_opacity");
    reveal_strlit("backdrop");
    reveal_strlit("backdrop_fallback");
    reveal_strlit("badge_max");
    reveal_strlit("startup");
    reveal_strlit("appearance");
    reveal_strlit("localization");
    reveal_strlit("performance");
    reveal_strlit("switch-windows");
    reveal_strlit("switch-apps");
    reveal_strlit("log");
    assert("appearance"@.len() != "startup"@.len());
    assert("appearance"@.len() != "localization"@.len());
    assert("appearance"@.len() != "performance"@.len());
    assert("appearance"@.len() != "switch-windows"@.len());
    assert("appearance"@.len() != "switch-apps"@.len());
    assert("appearance"@.len() != "log"@.len());
    assert("use_work_area"@.len() != "monitor"@.len());
    assert("show_badge"@.len() != "monitor"@.len());
    assert("show_badge"@.len() != "use_work_area"@.len());
    assert("icon_size"@.len() != "monitor"@.len());
    assert("icon_size"@.len() != "use_work_area"@.len());
    assert("icon_size"@.len() != "show_badge"@.len());
    assert("icon_padding"@.len() != "monitor"@.len());
    assert("icon_padding"@.len() != "use_work_area"@.len());
    assert("icon_padding"@.len() != "show_badge"@.len());
    assert("icon_padding"@.len() != "icon_size"@.len());
    assert("item_gap"@.len() != "monitor"@.len());
    assert("item_gap"@.len() != "use_work_area"@.len());
    assert("item_gap"@.len() != "show_badge"@.len());
    assert("item_gap"@.len() != "icon_size"@.len());
    assert("item_gap"@.len() != "icon_padding"@.len());
    assert("panel_padding"@.len() != "monitor"@.len());
    assert("panel_padding"@[0] != "use_work_area"@[0]);
    assert("panel_padding"@.len() != "show_badge"@.len());
    assert("panel_padding"@.len() != "icon_size"@.len());
    assert("panel_padding"@.len() != "icon_padding"@.len());
    assert("panel_padding"@.len() != "item_gap"@.len());
    assert("max_width"@.len() != "monitor"@.len());
    assert("max_width"@.len() != "use_work_area"@.len());
    assert("max_width"@.len() != "show_badge"@.len());
    assert("max_width"@[0] != "icon_size"@[0]);
    assert("max_width"@.len() != "icon_padding"@.len());
    assert("max_width"@.len() != "item_gap"@.len());
    assert("max_width"@.len() != "panel_padding"@.len());
    assert("max_height"@.len() != "monitor"@.len());
    assert("max_height"@.len() != "use_work_area"@.len());
    assert("max_height"@[0] != "show_badge"@[0]);
    assert("max_height"@.len() != "icon_size"@.len());
    assert("max_height"@.len() != "icon_padding"@.len());
    assert("max_height"@.len() != "item_gap"@.len());
    assert("max_height"@.len() != "panel_padding"@.len());
    assert("max_height"@.len() != "max_width"@.len());
    assert("layout"@.len() != "monitor"@.len());
    assert("layout"@.len() != "use_work_area"@.len());
    assert("layout"@.len() != "show_badge"@.len());
    assert("layout"@.len() != "icon_size"@.len());
    assert("layout"@.len() != "icon_padding"@.len());
    assert("layout"@.len() != "item_gap"@.len());
    assert("layout"@.len() != "panel_padding"@.len());
    assert("layout"@.len() != "max_width"@.len());
    assert("layout"@.len() != "max_height"@.len());
    assert("max_columns"@.len() != "monitor"@.len());
    assert("max_columns"@.len() != "use_work_area"@.len());
    assert("max_columns"@.len() != "show_badge"@.len());
    assert("max_columns"@.len() != "icon_size"@.len());
    assert("max_columns"@.len() != "icon_padding"@.len());
    assert("max_columns"@.len() != "item_gap"@.len());
    assert("max_columns"@.len() != "panel_padding"@.len());
    assert("max_columns"@.len() != "max_width"@.len());
    assert("max_columns"@.len() != "max_height"@.len());
    assert("max_columns"@.len() != "layout"@.len());
    assert("max_rows"@.len() != "monitor"@.len());
    assert("max_rows"@.len() != "use_work_area"@.len());
    assert("max_rows"@.len() != "show_badge"@.len());
    assert("max_rows"@.len() != "icon_size"@.len());
    assert("max_rows"@.len() != "icon_padding"@.len());
    assert("max_rows"@[0] != "item_gap"@[0]);
    assert("max_rows"@.len() != "panel_padding"@.len());
    assert("max_rows"@.len() != "max_width"@.len());
    assert("max_rows"@.len() != "max_height"@.len());
    assert("max_rows"@.len() != "layout"@.len());
    assert("max_rows"@.len() != "max_columns"@.len());
    assert("background_color"@.len() != "monitor"@.len());
    assert("background_color"@.len() != "use_work_area"@.len());
    assert("background_color"@.len() != "show_badge"@.len());
    assert("background_color"@.len() != "icon_size"@.len());
    assert("background_color"@.len() != "icon_padding"@.len());
    assert("background_color"@.len() != "item_gap"@.len());
    assert("background_color"@.len() != "panel_padding"@.len());
    assert("background_color"@.len() != "max_width"@.len());
    assert("background_color"@.len() != "max_height"@.len());
    assert("background_color"@.len() != "layout"@.len());
    assert("background_color"@.len() != "max_columns"@.len());
    assert("background_color"@.len() != "max_rows"@.len());
    assert("background_opacity"@.len() != "monitor"@.len());
    assert("background_opacity"@.len() != "use_work_area"@.len());
    assert("background_opacity"@.len() != "show_badge"@.len());
    assert("background_opacity"@.len() != "icon_size"@.len());
    assert("background_opacity"@.len() != "icon_padding"@.len());
    assert("background_opacity"@.len() != "item_gap"@.len());
    assert("background_opacity"@.len() != "panel_padding"@.len());
    assert("background_opacity"@.len() != "max_width"@.len());
    assert("background_opacity"@.len() != "max_height"@.len());
    assert("background_opacity"@.len() != "layout"@.len());
    assert("background_opacity"@.len() != "max_columns"@.len());
    assert("background_opacity"@.len() != "max_rows"@.len());
    assert("background_opacity"@.len() != "background_color"@.len());
    assert("backdrop"@.len() != "monitor"@.len());
    assert("backdrop"@.len() != "use_work_area"@.len());
    assert("backdrop"@.len() != "show_badge"@.len());
    assert("backdrop"@.len() != "icon_size"@.len());
    assert("backdrop"@.len() != "icon_padding"@.len());
    assert("backdrop"@[0] != "item_gap"@[0]);
    assert("backdrop"@.len() != "panel_padding"@.len());
    assert("backdrop"@.len() != "max_width"@.len());
    assert("backdrop"@.len() != "max_height"@.len());
    assert("backdrop"@.len() != "layout"@.len());
    assert("backdrop"@.len() != "max_columns"@.len());
    assert("backdrop"@[0] != "max_rows"@[0]);
    assert("backdrop"@.len() != "background_color"@.len());
    assert("backdrop"@.len() != "background_opacity"@.len());
    assert("backdrop_fallback"@.len() != "monitor"@.len());
    assert("backdrop_fallback"@.len() != "use_work_area"@.len());
    assert("backdrop_fallback"@.len() != "show_badge"@.len());
    assert("backdrop_fallback"@.len() != "icon_size"@.len());
    assert("backdrop_fallback"@.len() != "icon_padding"@.len());
    assert("backdrop_fallback"@.len() != "item_gap"@.len());
    assert("backdrop_fallback"@.len() != "panel_padding"@.len());
    assert("backdrop_fallback"@.len() != "max_width"@.len());
    assert("backdrop_fallback"@.len() != "max_height"@.len());
    assert("backdrop_fallback"@.len() != "layout"@.len());
    assert("backdrop_fallback"@.len() != "max_columns"@.len());
    assert("backdrop_fallback"@.len() != "max_rows"@.len());
    assert("backdrop_fallback"@.len() != "background_color"@.len());
    assert("backdrop_fallback"@.len() != "background_opacity"@.len());
    assert("backdrop_fallback"@.len() != "backdrop"@.len());
    assert("badge_max"@.len() != "monitor"@.len());
    assert("badge_max"@.len() != "use_work_area"@.len());
    assert("badge_max"@.len() != "show_badge"@.len());
    assert("badge_max"@[0] != "icon_size"@[0]);
    assert("badge_max"@.len() != "icon_padding"@.len());
    assert("badge_max"@.len() != "item_gap"@.len());
    assert("badge_max"@.len() != "panel_padding"@.len());
    assert("badge_max"@[0] != "max_width"@[0]);
    assert("badge_max"@.len() != "max_height"@.len());
    assert("badge_max"@.len() != "layout"@.len());
    assert("badge_max"@.len() != "max_columns"@.len());
    assert("badge_max"@.len() != "max_rows"@.len());
    assert("badge_max"@.len() != "background_color"@.len());
    assert("badge_max"@.len() != "background_opacity"@.len());
    assert("badge_max"@.len() != "backdrop"@.len());
    assert("badge_max"@.len() != "backdrop_fallback"@.len());
    let t = trimmed(value);
    assert(seq!["cursor"@, "foreground"@, "primary"@][0] == "cursor"@);
    assert(seq!["cursor"@, "foreground"@, "primary"@][1] == "foreground"@);
    assert(seq!["cursor"@, "foreground"@, "primary"@][2] == "primary"@);
    assert(seq!["single-row"@, "grid"@, "paged"@][0] == "single-row"@);
    assert(seq!["single-row"@, "grid"@, "paged"@][1] == "grid"@);
    assert(seq!["single-row"@, "grid"@, "paged"@][2] == "paged"@);
    assert(seq!["none"@, "alpha"@, "blur"@, "acrylic"@, "mica"@, "auto"@][0] == "none"@);
    assert(seq!["none"@, "alpha"@, "blur"@, "acrylic"@, "mica"@, "auto"@][1] == "alpha"@);
    assert(seq!["none"@, "alpha"@, "blur"@, "acrylic"@, "mica"@, "auto"@][2] == "blur"@);
    assert(seq!["none"@, "alpha"@, "blur"@, "acrylic"@, "mica"@, "auto"@][3] == "acrylic"@);
    assert(seq!["none"@, "alpha"@, "blur"@, "acrylic"@, "mica"@, "auto"@][4] == "mica"@);
    assert(seq!["none"@, "alpha"@, "blur"@, "acrylic"@, "mica"@, "auto"@][5] == "auto"@);
    assert(seq!["alpha"@, "solid"@][0] == "alpha"@);
    assert(seq!["alpha"@, "solid"@][1] == "solid"@);
}

/// The settings of the section `localization`, and the values that each accepts.
pub proof fn localization_settings(key: Seq<char>, value: Seq<char>)
    ensures
        ({
            let t = trimmed(value);
            let status = |name: Seq<char>| setting_status(Some("localization"@), name, value);
            &&& status("language"@) == StatusView::Valid <==> t == "auto"@ || t == "zh-CN"@ || t == "en-US"@
            &&& status("language"@) is Invalid <==> status("language"@) != StatusView::Valid
            &&& key != "language"@ ==> status(key) == StatusView::Unknown
        }),
{
    reveal_strlit("language");
    reveal_strlit("startup");
    reveal_strlit("appearance");
    reveal_strlit("localization");
    reveal_strlit("performance");
    reveal_strlit("switch-windows");
    reveal_strlit("switch-apps");
    reveal_strlit("log");
    assert("localization"@.len() != "startup"@.len());
    assert("localization"@.len() != "appearance"@.len());
    assert("localization"@.len() != "performance"@.len());
    assert("localization"@.len() != "switch-windows"@.len());
    assert("localization"@.len() != "switch-apps"@.len());
    assert("localization"@.len() != "log"@.len());
    let t = trimmed(value);
    assert(seq!["auto"@, "zh-CN"@, "en-US"@][0] == "auto"@);
    assert(seq!["auto"@, "zh-CN"@, "en-US"@][1] == "zh-CN"@);
    assert(seq!["auto"@, "zh-CN"@, "en-US"@][2] == "en-US"@);
}

/// The settings of the section `performance`, and the values that each accepts.
pub proof fn performance_settings(key: Seq<char>, value: Seq<char>)
    ensures
        ({
            let t = trimmed(value);
            let status = |name: Seq<char>| setting_status(Some("performance"@), name, value);
            &&& status("icon_cache_limit"@) == StatusView::Valid <==> is_number(without_plus(t)) && 16 <= number_value(without_plus(t)) <= 1024
            &&& status("icon_cache_limit"@) is Invalid <==> status("icon_cache_limit"@) != StatusView::Valid
            &&& status("render_scale"@) == StatusView::Valid <==> t == "auto"@ || t == "1"@ || t == "2"@ || t == "4"@ || t == "6"@
            &&& status("render_scale"@) is Invalid <==> status("render_scale"@) != StatusView::Valid
            &&& status("config_reload"@) == StatusView::Valid <==> t == "restart"@ || t == "on-open"@ || t == "watch"@
            &&& status("config_reload"@) is Invalid <==> status("config_reload"@) != StatusView::Valid
            &&& key != "icon_cache_limit"@ && key != "render_scale"@ && key != "config_reload"@ ==> status(key) == StatusView::Unknown
        }),
{
    reveal_strlit("icon_cache_limit");
    reveal_strlit("render_scale");
    reveal_strlit("config_reload");
    reveal_strlit("startup");
    reveal_strlit("appearance");
    reveal_strlit("localization");
    reveal_strlit("performance");
    reveal_strlit("switch-windows");
    reveal_strlit("switch-apps");
    reveal_strlit("log");
    assert("performance"@.len() != "startup"@.len());
    assert("performance"@.len() != "appearance"@.len());
    assert("performance"@.len() != "localization"@.len());
    assert("performance"@.len() != "switch-windows"@.len());
    assert("performance"@[0] != "switch-apps"@[0]);
    assert("performance"@.len() != "log"@.len());
    assert("render_scale"@.len() != "icon_cache_limit"@.len());
    assert("config_reload"@.len() != "icon_cache_limit"@.len());
    assert("config_reload"@.len() != "render_scale"@.len());
    let t = trimmed(value);
    assert(seq!["auto"@, "1"@, "2"@, "4"@, "6"@][0] == "auto"@);
    assert(seq!["auto"@, "1"@, "2"@, "4"@, "6"@][1] == "1"@);
    assert(seq!["auto"@, "1"@, "2"@, "4"@, "6"@][2] == "2"@);
    assert(seq!["auto"@, "1"@, "2"@, "4"@, "6"@][3] == "4"@);
    assert(seq!["auto"@, "1"@, "2"@, "4"@, "6"@][4] == "6"@);
    assert(seq!["restart"@, "on-open"@, "watch"@][0] == "restart"@);
    assert(seq!["restart"@, "on-open"@, "watch"@][1] == "on-open"@);
    assert(seq!["restart"@, "on-open"@, "watch"@][2] == "watch"@);
}

/// The settings of the section `switch-windows`, and the values that each accepts.
pub proof fn switch_windows_settings(key: Seq<char>, value: Seq<char>)
    ensures
        ({
            let t = trimmed(value);
            let status = |name: Seq<char>| setting_status(Some("switch-windows"@), name, value);
            &&& status("hotkey"@) == StatusView::Valid <==> hotkeys_valid(value)
            &&& status("hotkey"@) is Invalid <==> status("hotkey"@) != StatusView::Valid
            &&& status("blacklist"@) == StatusView::Valid
            &&& status("ignore_minimal"@) == StatusView::Valid <==> bool_value(t) is Some
            &&& status("ignore_minimal"@) is Invalid <==> status("ignore_minimal"@) != StatusView::Valid
            &&& status("only_current_desktop"@) == StatusView::Valid <==> same_ignoring_case(t, "auto"@) || bool_value(t) is Some
            &&& status("only_current_desktop"@) is Invalid <==> status("only_current_desktop"@) != StatusView::Valid
            &&& key != "hotkey"@ && key != "blacklist"@ && key != "ignore_minimal"@ && key != "only_current_desktop"@ ==> status(key) == StatusView::Unknown
        }),
{
    reveal_strlit("hotkey");
    reveal_strlit("blacklist");
    reveal_strlit("ignore_minimal");
    reveal_strlit("only_current_desktop");
    reveal_strlit("startup");
    reveal_strlit("appearance");
    reveal_strlit("localization");
    reveal_strlit("performance");
    reveal_strlit("switch-windows");
    reveal_strlit("switch-apps");
    reveal_strlit("log");
    assert("switch-windows"@.len() != "startup"@.len());
    assert("switch-windows"@.len() != "appearance"@.len());
    assert("switch-windows"@.len() != "localization"@.len());
    assert("switch-windows"@.len() != "performance"@.len());
    assert("switch-windows"@.len() != "switch-apps"@.len());
    assert("switch-windows"@.len() != "log"@.len());
    assert("blacklist"@.len() != "hotkey"@.len());
    assert("ignore_minimal"@.len() != "hotkey"@.len());
    assert("ignore_minimal"@.len() != "blacklist"@.len());
    assert("only_current_desktop"@.len() != "hotkey"@.len());
    assert("only_current_desktop"@.len() != "blacklist"@.len());
    assert("only_current_desktop"@.len() != "ignore_minimal"@.len());
}

/// The settings of the section `switch-apps`, and the values that each accepts.
pub proof fn switch_apps_settings(key: Seq<char>, value: Seq<char>)
    ensures
        ({
            let t = trimmed(value);
            let status = |name: Seq<char>| setting_status(Some("switch-apps"@), name, value);
            &&& status("hotkey"@) == StatusView::Valid <==> hotkeys_valid(value)
            &&& status("hotkey"@) is Invalid <==> status("hotkey"@) != StatusView::Valid
            &&& status("enable"@) == StatusView::Valid <==> bool_value(t) is Some
            &&& status("enable"@) is Invalid <==> status("enable"@) != StatusView::Valid
            &&& status("ignore_minimal"@) == StatusView::Valid <==> bool_value(t) is Some
            &&& status("ignore_minimal"@) is Invalid <==> status("ignore_minimal"@) != StatusView::Valid
            &&& status("only_current_desktop"@) == StatusView::Valid <==> same_ignoring_case(t, "auto"@) || bool_value(t) is Some
            &&& status("only_current_desktop"@) is Invalid <==> status("only_current_desktop"@) != StatusView::Valid
            &&& status("override_icons"@) == StatusView::Valid <==> mappings_valid(value)
            &&& status("override_icons"@) is Invalid <==> status("override_icons"@) != StatusView::Valid
            &&& key != "hotkey"@ && key != "enable"@ && key != "ignore_minimal"@ && key != "only_current_desktop"@ && key != "override_icons"@ ==> status(key) == StatusView::Unknown
        }),
{
    reveal_strlit("hotkey");
    reveal_strlit("enable");
    reveal_strlit("ignore_minimal");
    reveal_strlit("only_current_desktop");
    reveal_strlit("override_icons");
    reveal_strlit("startup");
    reveal_strlit("appearance");
    reveal_strlit("localization");
    reveal_strlit("performance");
    reveal_strlit("switch-windows");
    reveal_strlit("switch-apps");
    reveal_strlit("log");
    assert("switch-apps"@.len() != "startup"@.len());
    assert("switch-apps"@.len() != "appearance"@.len());
    assert("switch-apps"@.len() != "localization"@.len());
    assert("switch-apps"@[0] != "performance"@[0]);
    assert("switch-apps"@.len() != "switch-windows"@.len());
    assert("switch-apps"@.len() != "log"@.len());
    assert("enable"@[0] != "hotkey"@[0]);
    assert("ignore_minimal"@.len() != "hotkey"@.len());
    assert("ignore_minimal"@.len() != "enable"@.len());
    assert("only_current_desktop"@.len() != "hotkey"@.len());
    assert("only_current_desktop"@.len() != "enable"@.len());
    assert("only_current_desktop"@.len() != "ignore_minimal"@.len());
    assert("override_icons"@.len() != "hotkey"@.len());
    assert("override_icons"@.len() != "enable"@.len());
    assert("override_icons"@[0] != "ignore_minimal"@[0]);
    assert("override_icons"@.len() != "only_current_desktop"@.len());
}

/// The settings of the section `log`, and the values that each accepts.
pub proof fn log_settings(key: Seq<char>, value: Seq<char>)
    ensures
        ({
            let t = trimmed(value);
            let status = |name: Seq<char>| setting_status(Some("log"@), name, value);
            &&& status("level"@) == StatusView::Valid <==> LogLevel::of(t) is Some
            &&& status("level"@) is Invalid <==> status("level"@) != StatusView::Valid
            &&& status("path"@) == StatusView::Valid
            &&& status("file"@) == StatusView::DeprecatedKey("path"@)
            &&& key != "level"@ && key != "path"@ && key != "file"@ ==> status(key) == StatusView::Unknown
        }),
{
    reveal_strlit("level");
    reveal_strlit("path");
    reveal_strlit("file");
    reveal_strlit("startup");
    reveal_strlit("appearance");
    reveal_strlit("localization");
    reveal_strlit("performance");
    reveal_strlit("switch-windows");
    reveal_strlit("switch-apps");
    reveal_strlit("log");
    assert("log"@.len() != "startup"@.len());
    assert("log"@.len() != "appearance"@.len());
    assert("log"@.len() != "localization"@.len());
    assert("log"@.len() != "performance"@.len());
    assert("log"@.len() != "switch-windows"@.len());
    assert("log"@.len() != "switch-apps"@.len());
    assert("path"@.len() != "level"@.len());
    assert("file"@.len() != "level"@.len());
    assert("file"@[0] != "path"@[0]);
}

/// The known sections are the seven that have settings, and the part before the first of them.
pub proof fn known_sections(name: Seq<char>)
    ensures
        known_section(None),
        known_section(Some(name)) <==> exists|key: Seq<char>, value: Seq<char>| #[trigger]
            setting_status(Some(name), key, value) != StatusView::Unknown,
{
    startup_settings("run_as_admin"@, "run_as_admin"@);
    appearance_settings("monitor"@, "monitor"@);
    localization_settings("language"@, "language"@);
    performance_settings("icon_cache_limit"@, "icon_cache_limit"@);
    switch_windows_settings("hotkey"@, "hotkey"@);
    switch_apps_settings("hotkey"@, "hotkey"@);
    log_settings("level"@, "level"@);
    if name == "startup"@ {
        assert(setting_status(Some(name), "run_as_admin"@, "run_as_admin"@) != StatusView::Unknown);
    }
    if name == "appearance"@ {
        assert(setting_status(Some(name), "monitor"@, "monitor"@) != StatusView::Unknown);
    }
    if name == "localization"@ {
        assert(setting_status(Some(name), "language"@, "language"@) != StatusView::Unknown);
    }
    if name == "performance"@ {
        assert(setting_status(Some(name), "icon_cache_limit"@, "icon_cache_limit"@) != StatusView::Unknown);
    }
    if name == "switch-windows"@ {
        assert(setting_status(Some(name), "hotkey"@, "hotkey"@) != StatusView::Unknown);
    }
    if name == "switch-apps"@ {
        assert(setting_status(Some(name), "hotkey"@, "hotkey"@) != StatusView::Unknown);
    }
    if name == "log"@ {
        assert(setting_status(Some(name), "level"@, "level"@) != StatusView::Unknown);
    }
}

}
