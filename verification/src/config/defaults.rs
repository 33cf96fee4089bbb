//! The default configuration, and the file that is written where there is none.

use vstd::prelude::*;

use crate::config::merge::marker_of;
use crate::text::{push_text, same_str};

verus! {

/// The first line of the file.
pub const TITLE: &'static str = "; 窗口切换器配置";

/// The settings with their sections and their defaults, in the order of the file.
pub const DEFAULT_SETTINGS: [(&'static str, &'static str, &'static str); 108] = [
    ("", "trayicon", "yes"),
    ("", "auto_restart", "yes"),
    ("", "restart_delay_ms", "1000"),
    ("switch-windows", "enable", "yes"),
    ("switch-windows", "hotkey", "alt+`"),
    ("switch-windows", "blacklist", ""),
    ("switch-windows", "ignore_minimal", "no"),
    ("switch-windows", "only_current_desktop", "auto"),
    ("switch-windows", "include_topmost", "no"),
    ("switch-windows", "include_tool_windows", "no"),
    ("switch-windows", "include_untitled", "no"),
    ("switch-windows", "min_width", "120"),
    ("switch-windows", "min_height", "90"),
    ("switch-windows", "exclude_titles", "Windows Input Experience"),
    ("switch-windows", "exclude_processes", ""),
    ("switch-windows", "order", "existing"),
    ("switch-apps", "enable", "no"),
    ("switch-apps", "hotkey", "alt+tab"),
    ("switch-apps", "ignore_minimal", "no"),
    ("switch-apps", "override_icons", ""),
    ("switch-apps", "show_badge", "yes"),
    ("switch-apps", "badge_max", "99"),
    ("switch-apps", "badge_color", "#4C7094"),
    ("switch-apps", "badge_text_color", "#FFFFFF"),
    ("switch-apps", "badge_font_size", "12"),
    ("switch-apps", "badge_font_family", "Segoe UI"),
    ("switch-apps", "badge_font_file", ""),
    ("switch-apps", "only_current_desktop", "auto"),
    ("switch-apps", "blacklist", ""),
    ("switch-apps", "include_topmost", "no"),
    ("switch-apps", "include_tool_windows", "no"),
    ("switch-apps", "include_untitled", "no"),
    ("switch-apps", "min_width", "120"),
    ("switch-apps", "min_height", "90"),
    ("switch-apps", "exclude_titles", "Windows Input Experience"),
    ("switch-apps", "exclude_processes", ""),
    ("switch-apps", "badge_shape", "circle"),
    ("switch-apps", "badge_size", "auto"),
    ("switch-apps", "order", "existing"),
    ("input", "unknown_foreground", "passthrough"),
    ("input", "injected_events", "handle"),
    ("input", "paused", "no"),
    ("input", "pause_hotkey", ""),
    ("search", "enable", "no"),
    ("search", "hotkey", "ctrl+space"),
    ("search", "match", "fuzzy"),
    ("search", "fields", "app,title"),
    ("search", "max_results", "50"),
    ("details", "enable", "no"),
    ("details", "hotkey", "ctrl+enter"),
    ("appearance", "monitor", "cursor"),
    ("appearance", "use_work_area", "yes"),
    ("appearance", "panel_width", "0"),
    ("appearance", "panel_height", "0"),
    ("appearance", "icon_size", "64"),
    ("appearance", "icon_padding", "4"),
    ("appearance", "item_gap", "0"),
    ("appearance", "panel_padding", "10"),
    ("appearance", "max_width", "0"),
    ("appearance", "max_height", "0"),
    ("appearance", "max_columns", "0"),
    ("appearance", "theme", "auto"),
    ("appearance", "background_color", "auto"),
    ("appearance", "background_opacity", "100"),
    ("appearance", "icon_background_color", "auto"),
    ("appearance", "icon_background_opacity", "0"),
    ("appearance", "selection_color", "auto"),
    ("appearance", "selection_opacity", "100"),
    ("appearance", "selection_border_color", "auto"),
    ("appearance", "selection_border_width", "2"),
    ("appearance", "panel_corner_radius", "auto"),
    ("appearance", "icon_corner_radius", "auto"),
    ("appearance", "selection_corner_radius", "auto"),
    ("appearance", "app_name_mode", "off"),
    ("appearance", "app_name_font_family", "auto"),
    ("appearance", "app_name_font_file", ""),
    ("appearance", "app_name_font_size", "14"),
    ("appearance", "app_name_font_weight", "400"),
    ("appearance", "app_name_font_italic", "no"),
    ("appearance", "app_name_text_color", "auto"),
    ("startup", "enabled", "auto"),
    ("startup", "run_level", "inherit"),
    ("startup", "battery_policy", "inherit"),
    ("startup", "command_timeout_ms", "5000"),
    ("config", "watch_mode", "auto"),
    ("config", "poll_interval_ms", "250"),
    ("config", "restart_timeout_ms", "10000"),
    ("config", "retry_delay_ms", "1000"),
    ("config", "retry_limit", "3"),
    ("localization", "language", "zh-CN"),
    ("log", "level", "info"),
    ("log", "path", ""),
    ("log", "max_file_mb", "10"),
    ("log", "retained_files", "3"),
    ("performance", "metrics_enabled", "no"),
    ("performance", "metrics_interval_s", "60"),
    ("performance", "icon_cache_limit", "256"),
    ("performance", "icon_cache_mb", "32"),
    ("performance", "icon_failure_ttl_ms", "3000"),
    ("performance", "metadata_cache_limit", "512"),
    ("performance", "metadata_ttl_ms", "5000"),
    ("performance", "icon_query_timeout_ms", "100"),
    ("performance", "snapshot_budget_ms", "50"),
    ("performance", "render_scale", "auto"),
    ("performance", "render_budget_mb", "64"),
    ("performance", "mru_limit", "512"),
    ("browser", "chrome_user_data_dir", "auto"),
    ("browser", "edge_user_data_dir", "auto"),
];

/// A setting with its section and its default.
pub type SettingRow = (Seq<char>, Seq<char>, Seq<char>);

/// The settings with their sections and their defaults.
pub open spec fn default_rows() -> Seq<SettingRow> {
    Seq::new(
        DEFAULT_SETTINGS@.len(),
        |i: int| (DEFAULT_SETTINGS@[i].0@, DEFAULT_SETTINGS@[i].1@, DEFAULT_SETTINGS@[i].2@),
    )
}

/// The section that the last of some settings belongs to.
pub open spec fn last_section(rows: Seq<SettingRow>) -> Seq<char> {
    if rows.len() == 0 {
        seq![]
    } else {
        rows.last().0
    }
}

/// The header of a section, where it is not the section before.
pub open spec fn header_text(before: Seq<char>, section: Seq<char>) -> Seq<char> {
    if before == section {
        seq![]
    } else {
        seq!['['] + section + seq![']', '\n', '\n']
    }
}

/// The line that gives a setting its default.
pub open spec fn default_line(key: Seq<char>, value: Seq<char>) -> Seq<char> {
    if value.len() == 0 {
        key + seq![' ', '=']
    } else {
        key + seq![' ', '=', ' '] + value
    }
}

/// The lines of a setting: the header where a section begins, the marked comment and the
/// assignment, after a blank line.
pub open spec fn row_text(before: Seq<char>, row: SettingRow) -> Seq<char> {
    seq!['\n'] + header_text(before, row.0) + marker_of(row.0, row.1).push('\n') + default_line(
        row.1,
        row.2,
    ).push('\n')
}

/// The file with the given settings.
pub open spec fn rendered(rows: Seq<SettingRow>) -> Seq<char>
    decreases rows.len(),
{
    if rows.len() == 0 {
        TITLE@.push('\n')
    } else {
        rendered(rows.drop_last()) + row_text(last_section(rows.drop_last()), rows.last())
    }
}

/// The default configuration file. Every setting has its default and a marked comment.
pub open spec fn default_text() -> Seq<char> {
    rendered(default_rows())
}

fn write_header(r: &mut String, before: &str, section: &str)
    ensures
        final(r)@ == old(r)@ + header_text(before@, section@),
{
    if same_str(before, section) {
        assert(r@ =~= old(r)@ + header_text(before@, section@));
        return;
    }
    r.push('[');
    push_text(r, section);
    r.push(']');
    r.push('\n');
    r.push('\n');
    assert(r@ =~= old(r)@ + header_text(before@, section@));
}

fn write_marker(r: &mut String, section: &str, key: &str)
    ensures
        final(r)@ == old(r)@ + marker_of(section@, key@),
{
    push_text(r, "; 配置说明：");
    if same_str(section, "") {
        proof {
            reveal_strlit("");
        }
        push_text(r, key);
        assert(r@ =~= old(r)@ + marker_of(section@, key@));
        return;
    }
    assert(section@.len() > 0) by {
        reveal_strlit("");
        if section@.len() == 0 {
            assert(section@ =~= ""@);
        }
    }
    push_text(r, section);
    r.push('.');
    push_text(r, key);
    assert(r@ =~= old(r)@ + marker_of(section@, key@));
}

fn write_default(r: &mut String, key: &str, value: &str)
    ensures
        final(r)@ == old(r)@ + default_line(key@, value@),
{
    push_text(r, key);
    r.push(' ');
    r.push('=');
    if same_str(value, "") {
        proof {
            reveal_strlit("");
        }
        assert(r@ =~= old(r)@ + default_line(key@, value@));
        return;
    }
    assert(value@.len() > 0) by {
        reveal_strlit("");
        if value@.len() == 0 {
            assert(value@ =~= ""@);
        }
    }
    r.push(' ');
    push_text(r, value);
    assert(r@ =~= old(r)@ + default_line(key@, value@));
}

fn write_setting(r: &mut String, before: &str, section: &str, key: &str, value: &str)
    ensures
        final(r)@ == old(r)@ + row_text(before@, (section@, key@, value@)),
{
    r.push('\n');
    write_header(r, before, section);
    write_marker(r, section, key);
    r.push('\n');
    write_default(r, key, value);
    r.push('\n');
    proof {
        let header = header_text(before@, section@);
        let marker = marker_of(section@, key@);
        let line = default_line(key@, value@);
        assert((((old(r)@.push('\n') + header + marker).push('\n')) + line).push('\n') =~= old(r)@
            + (seq!['\n'] + header + marker.push('\n') + line.push('\n')));
    }
}

/// Writes the default configuration file.
pub fn default_config() -> (r: String)
    ensures
        r@ == default_text(),
{
    let settings = DEFAULT_SETTINGS;
    let ghost rows = default_rows();
    let mut r = TITLE.to_owned();
    r.push('\n');
    let mut before: &'static str = "";
    proof {
        reveal_strlit("");
        assert(rows.take(0) =~= Seq::<SettingRow>::empty());
        assert(before@ =~= last_section(rows.take(0)));
    }
    for i in 0..settings.len()
        invariant
            settings@ == DEFAULT_SETTINGS@,
            rows == default_rows(),
            rows.len() == settings@.len(),
            r@ == rendered(rows.take(i as int)),
            before@ == last_section(rows.take(i as int)),
    {
        let (section, key, value) = settings[i];
        proof {
            assert(rows[i as int] == (section@, key@, value@));
            assert(rows.take(i + 1).drop_last() =~= rows.take(i as int));
            assert(rows.take(i + 1).last() == rows[i as int]);
        }
        write_setting(&mut r, before, section, key, value);
        before = section;
    }
    assert(rows.take(rows.len() as int) =~= rows);
    r
}

}
