//! Every setting of the default configuration file explains itself.

use vstd::prelude::*;

use crate::config::defaults::{
    default_line, default_rows, default_text, header_text, last_section, rendered, row_text,
    SettingRow, DEFAULT_SETTINGS, TITLE,
};
use crate::config::document::{
    assigned, continues, entries_of, header_name, ini_sections, is_comment, open_quote, outline,
};
use crate::config::merge::{
    joined_lines, marker_of, merge_result, source_of, template_of, template_scan, MergeFailure,
    TemplateScan, TemplateView,
};
use crate::config::stability::{
    closed_line, completion_is_stable, documented_completion_is_stable, end_is_read, explained,
    explained_template, line_end_is_trimmed, lines_add, one_line, whole_lines,
};
use crate::text::{is_white, raw_lines, trimmed, trimmed_end, trimmed_start, until, until_range};

verus! {

/// Whether a text is a name of lower case letters, hyphens and underscores.
pub open spec fn is_name(s: Seq<char>) -> bool {
    &&& s.len() > 0
    &&& forall|i: int|
        0 <= i < s.len() ==> ('a' <= #[trigger] s[i] && s[i] <= 'z') || s[i] == '-' || s[i] == '_'
}

/// Whether a text is a value that ends with its line: without quotes before it, a backslash behind
/// it or white space around it.
pub open spec fn is_plain_value(s: Seq<char>) -> bool {
    s.len() > 0 ==> {
        &&& forall|i: int| 0 <= i < s.len() ==> #[trigger] s[i] != '\n'
        &&& !is_white(s[0])
        &&& !is_white(s.last())
        &&& s[0] != '"' && s[0] != '\''
        &&& s.last() != '\\'
    }
}

/// Whether a setting has a name in a named section, or in none, and a plain default.
pub open spec fn is_plain_row(row: SettingRow) -> bool {
    (row.0.len() == 0 || is_name(row.0)) && is_name(row.1) && is_plain_value(row.2)
}

/// The state after the given lines of a template, from a state on.
spec fn scan_on(scan: TemplateScan, lines: Seq<Seq<char>>) -> TemplateScan
    decreases lines.len(),
{
    if lines.len() == 0 {
        scan
    } else {
        scan_on(scan, lines.drop_last()).after(lines.last())
    }
}

proof fn scan_adds(a: Seq<Seq<char>>, b: Seq<Seq<char>>)
    ensures
        template_scan(a + b) == scan_on(template_scan(a), b),
    decreases b.len(),
{
    if b.len() == 0 {
        assert(a + b =~= a);
    } else {
        scan_adds(a, b.drop_last());
        assert((a + b).drop_last() =~= a + b.drop_last());
        assert((a + b).last() == b.last());
    }
}

/// The state of a scan after a text.
spec fn scan_of(text: Seq<char>) -> TemplateScan {
    template_scan(raw_lines(text))
}

/// A line behind whole lines is scanned after them.
proof fn scan_line(text: Seq<char>, line: Seq<char>)
    requires
        whole_lines(text),
        forall|k: int| 0 <= k < line.len() ==> #[trigger] line[k] != '\n',
    ensures
        whole_lines(text + line.push('\n')),
        scan_of(text + line.push('\n')) == scan_of(text).after(line.push('\n')),
        trimmed(line.push('\n')) == trimmed(line),
{
    let raw = line.push('\n');
    line_end_is_trimmed(line, seq!['\n']);
    assert forall|k: int| 0 <= k < raw.len() - 1 implies raw[k] != '\n' by {
        assert(raw[k] == line[k]);
    }
    one_line(raw);
    lines_add(text, raw);
    scan_adds(raw_lines(text), seq![raw]);
    assert(seq![raw].drop_last() =~= Seq::<Seq<char>>::empty());
    assert(scan_on(scan_of(text), seq![raw].drop_last()) == scan_of(text));
    assert((text + raw).last() == '\n');
}

proof fn blank_line_is_skipped(text: Seq<char>)
    requires
        whole_lines(text),
    ensures
        whole_lines(text.push('\n')),
        scan_of(text.push('\n')) == scan_of(text),
{
    let none = Seq::<char>::empty();
    scan_line(text, none);
    assert(text + none.push('\n') =~= text.push('\n'));
    assert(trimmed(none) =~= none);
    assert(assigned(none) is None);
}

proof fn solid_text_stays(line: Seq<char>)
    requires
        line.len() > 0,
        !is_white(line[0]),
        !is_white(line.last()),
    ensures
        trimmed(line) == line,
{
    assert(trimmed_start(line) == line);
    assert(trimmed_end(line) == line);
}

proof fn first_place(s: Seq<char>, a: char, b: char, i: int)
    requires
        0 <= i < s.len(),
        s[i] == a || s[i] == b,
        forall|k: int| 0 <= k < i ==> #[trigger] s[k] != a && s[k] != b,
    ensures
        until(s, a, b) == i,
{
    until_range(s, a, b);
    let at = until(s, a, b);
    if at < i {
        assert(s[at] != a && s[at] != b);
    }
}

proof fn header_is_read(text: Seq<char>, section: Seq<char>)
    requires
        whole_lines(text),
        is_name(section),
    ensures
        ({
            let after = text + (seq!['['] + section + seq![']']).push('\n');
            &&& whole_lines(after)
            &&& scan_of(after) == (TemplateScan { section, comments: seq![], ..scan_of(text) })
        }),
{
    let line = seq!['['] + section + seq![']'];
    assert forall|k: int| 0 <= k < line.len() implies #[trigger] line[k] != '\n' by {
        if 0 < k < line.len() - 1 {
            assert(line[k] == section[k - 1]);
        }
    }
    scan_line(text, line);
    solid_text_stays(line);
    let rest = line.drop_first();
    assert forall|k: int| 0 <= k < section.len() implies #[trigger] rest[k] != ']' by {
        assert(rest[k] == section[k]);
    }
    first_place(rest, ']', ']', section.len() as int);
    assert(rest.take(section.len() as int) =~= section);
    solid_text_stays(section);
}

proof fn marker_facts(section: Seq<char>, key: Seq<char>)
    requires
        section.len() == 0 || is_name(section),
        is_name(key),
    ensures
        ({
            let marker = marker_of(section, key);
            &&& is_comment(marker)
            &&& trimmed(marker) == marker
            &&& forall|k: int| 0 <= k < marker.len() ==> #[trigger] marker[k] != '\n'
        }),
{
    reveal_strlit("; 配置说明：");
    let head = "; 配置说明："@;
    let marker = marker_of(section, key);
    assert forall|k: int| 0 <= k < marker.len() implies #[trigger] marker[k] != '\n' by {
        if k >= head.len() {
            let at = k - head.len();
            if section.len() == 0 {
                assert(marker[k] == key[at]);
            } else if at < section.len() {
                assert(marker[k] == section[at]);
            } else if at > section.len() {
                assert(marker[k] == key[at - section.len() - 1]);
            }
        }
    }
    assert(marker.last() == key.last());
    assert(key[key.len() - 1] == key.last());
    assert(marker[0] == ';');
    solid_text_stays(marker);
}

/// The marked comment above an assignment is a line of the setting's comments.
proof fn last_comment_is_kept(comments: Seq<Seq<char>>, marker: Seq<char>)
    requires
        trimmed(marker) == marker,
        forall|k: int| 0 <= k < marker.len() ==> #[trigger] marker[k] != '\n',
    ensures
        ({
            let lines = raw_lines(joined_lines(comments.push(marker)).push('\n'));
            exists|i: int| 0 <= i < lines.len() && trimmed(#[trigger] lines[i]) == marker
        }),
{
    let all = comments.push(marker);
    let line = marker.push('\n');
    assert forall|k: int| 0 <= k < line.len() - 1 implies line[k] != '\n' by {
        assert(line[k] == marker[k]);
    }
    one_line(line);
    line_end_is_trimmed(marker, seq!['\n']);
    assert(all.drop_last() =~= comments);
    let lines = raw_lines(joined_lines(all).push('\n'));
    if comments.len() > 0 {
        let head = joined_lines(comments).push('\n');
        lines_add(head, line);
        assert(joined_lines(all).push('\n') =~= head + line);
        assert(lines == raw_lines(head) + seq![line]);
        assert(lines[lines.len() - 1] == line);
    } else {
        assert(joined_lines(all) == marker);
        assert(lines[0] == line);
    }
}

proof fn assignment_facts(key: Seq<char>, value: Seq<char>)
    requires
        is_name(key),
        is_plain_value(value),
    ensures
        ({
            let line = default_line(key, value);
            &&& trimmed(line) == line
            &&& header_name(line) is None
            &&& !is_comment(line)
            &&& assigned(line) is Some
            &&& (assigned(line)->0).0 == key
            &&& closed_line(line)
            &&& forall|k: int| 0 <= k < line.len() ==> #[trigger] line[k] != '\n'
        }),
{
    let line = default_line(key, value);
    assert forall|k: int| 0 <= k < line.len() implies #[trigger] line[k] != '\n' by {
        if k < key.len() {
            assert(line[k] == key[k]);
        } else if k >= key.len() + 3 {
            assert(line[k] == value[k - key.len() - 3]);
        }
    }
    assert(line[0] == key[0]);
    assert(value.len() > 0 ==> line.last() == value.last());
    solid_text_stays(line);
    let at = key.len() as int + 1;
    assert forall|k: int| 0 <= k < at implies #[trigger] line[k] != '=' && line[k] != ':' by {
        if k < key.len() {
            assert(line[k] == key[k]);
        }
    }
    first_place(line, '=', ':', at);
    let before = line.take(at);
    assert(before =~= key.push(' '));
    crate::trimming::white_end_is_trimmed(key, ' ');
    assert(key[key.len() - 1] == key.last());
    solid_text_stays(key);
    let rest = line.skip(at + 1);
    if value.len() == 0 {
        assert(rest =~= Seq::<char>::empty());
        assert(open_quote(trimmed_start(rest), None) is None);
    } else {
        assert(rest =~= seq![' '] + value);
        assert(rest.drop_first() =~= value);
        assert(trimmed_start(value) == value);
        assert(open_quote(trimmed_start(rest), None) is None);
    }
    assert(!continues(line));
}

/// Whether a scan has read settings that explain themselves and stands behind the last of them.
spec fn has_read(scan: TemplateScan, rows: Seq<SettingRow>) -> bool {
    &&& scan.section == last_section(rows)
    &&& scan.entries.len() == rows.len()
    &&& explained_template(scan.entries)
}

proof fn row_is_read(text: Seq<char>, rows: Seq<SettingRow>, row: SettingRow)
    requires
        whole_lines(text),
        has_read(scan_of(text), rows),
        is_plain_row(row),
        row.0.len() == 0 ==> last_section(rows).len() == 0,
    ensures
        whole_lines(text + row_text(last_section(rows), row)),
        has_read(scan_of(text + row_text(last_section(rows), row)), rows.push(row)),
{
    let (section, key, value) = row;
    let before = last_section(rows);
    blank_line_is_skipped(text);
    let blank = text.push('\n');
    let header = header_text(before, section);
    let headed = blank + header;
    if before == section {
        assert(headed =~= blank);
    } else {
        if section.len() == 0 {
            assert(before =~= section);
        }
        let line = seq!['['] + section + seq![']'];
        header_is_read(blank, section);
        blank_line_is_skipped(blank + line.push('\n'));
        assert(headed =~= (blank + line.push('\n')).push('\n'));
    }
    assert(whole_lines(headed) && scan_of(headed).section == section && scan_of(headed).entries
        == scan_of(text).entries);
    let marker = marker_of(section, key);
    marker_facts(section, key);
    scan_line(headed, marker);
    let marked = headed + marker.push('\n');
    let comments = scan_of(headed).comments;
    assert(header_name(marker) is None);
    assert(scan_of(marked) == (TemplateScan { comments: comments.push(marker), ..scan_of(headed) }));
    let line = default_line(key, value);
    assignment_facts(key, value);
    scan_line(marked, line);
    let after = marked + line.push('\n');
    let entry = TemplateView {
        section,
        key,
        marker,
        comments: joined_lines(comments.push(marker)),
        assignment: line,
    };
    assert(scan_of(after).entries == scan_of(text).entries.push(entry));
    last_comment_is_kept(comments, marker);
    let lines = raw_lines(entry.comments.push('\n'));
    assert(exists|i: int| 0 <= i < lines.len() && trimmed(#[trigger] lines[i]) == entry.marker);
    assert(closed_line(entry.assignment));
    assert(explained(entry));
    assert forall|i: int| 0 <= i < scan_of(after).entries.len() implies explained(
        #[trigger] scan_of(after).entries[i],
    ) by {
        if i < scan_of(text).entries.len() {
            assert(scan_of(after).entries[i] == scan_of(text).entries[i]);
        }
    }
    assert(text + row_text(before, row) =~= after);
}

/// A file that is written from plain settings has just these settings, and each explains itself.
/// Settings without a section stand before all others.
proof fn rendered_settings_are_read(rows: Seq<SettingRow>)
    requires
        forall|i: int| 0 <= i < rows.len() ==> is_plain_row(#[trigger] rows[i]),
        forall|i: int|
            0 < i < rows.len() && (#[trigger] rows[i]).0.len() == 0 ==> rows[i - 1].0.len() == 0,
    ensures
        whole_lines(rendered(rows)),
        has_read(scan_of(rendered(rows)), rows),
    decreases rows.len(),
{
    if rows.len() == 0 {
        reveal_strlit("; 窗口切换器配置");
        let none = Seq::<char>::empty();
        assert(raw_lines(none) =~= Seq::<Seq<char>>::empty());
        scan_line(none, TITLE@);
        assert(none + TITLE@.push('\n') =~= TITLE@.push('\n'));
        solid_text_stays(TITLE@);
    } else {
        let before = rows.drop_last();
        let last = rows.last();
        assert(last == rows[rows.len() - 1]);
        assert forall|i: int| 0 <= i < before.len() implies is_plain_row(#[trigger] before[i]) by {
            assert(before[i] == rows[i]);
        }
        assert forall|i: int|
            0 < i < before.len() && (#[trigger] before[i]).0.len() == 0 implies before[i
            - 1].0.len() == 0 by {
            assert(before[i] == rows[i] && before[i - 1] == rows[i - 1]);
        }
        rendered_settings_are_read(before);
        if before.len() > 0 {
            assert(before.last() == rows[rows.len() - 2]);
        }
        row_is_read(rendered(before), before, last);
        assert(before.push(last) =~= rows);
    }
}

proof fn names_a()
    ensures
        is_name("trayicon"@),
        is_name("auto_restart"@),
        is_name("restart_delay_ms"@),
        is_name("switch-windows"@),
        is_name("enable"@),
        is_name("hotkey"@),
        is_name("blacklist"@),
        is_name("ignore_minimal"@),
        is_name("only_current_desktop"@),
        is_name("include_topmost"@),
        is_name("include_tool_windows"@),
        is_name("include_untitled"@),
{
    reveal_strlit("trayicon");
    reveal_strlit("auto_restart");
    reveal_strlit("restart_delay_ms");
    reveal_strlit("switch-windows");
    reveal_strlit("enable");
    reveal_strlit("hotkey");
    reveal_strlit("blacklist");
    reveal_strlit("ignore_minimal");
    reveal_strlit("only_current_desktop");
    reveal_strlit("include_topmost");
    reveal_strlit("include_tool_windows");
    reveal_strlit("include_untitled");
}

proof fn names_b()
    ensures
        is_name("min_width"@),
        is_name("min_height"@),
        is_name("exclude_titles"@),
        is_name("exclude_processes"@),
        is_name("order"@),
        is_name("switch-apps"@),
        is_name("override_icons"@),
        is_name("show_badge"@),
        is_name("badge_max"@),
        is_name("badge_color"@),
        is_name("badge_text_color"@),
        is_name("badge_font_size"@),
{
    reveal_strlit("min_width");
    reveal_strlit("min_height");
    reveal_strlit("exclude_titles");
    reveal_strlit("exclude_processes");
    reveal_strlit("order");
    reveal_strlit("switch-apps");
    reveal_strlit("override_icons");
    reveal_strlit("show_badge");
    reveal_strlit("badge_max");
    reveal_strlit("badge_color");
    reveal_strlit("badge_text_color");
    reveal_strlit("badge_font_size");
}

proof fn names_c()
    ensures
        is_name("badge_font_family"@),
        is_name("badge_font_file"@),
        is_name("badge_shape"@),
        is_name("badge_size"@),
        is_name("input"@),
        is_name("unknown_foreground"@),
        is_name("injected_events"@),
        is_name("paused"@),
        is_name("pause_hotkey"@),
        is_name("search"@),
        is_name("match"@),
        is_name("fields"@),
{
    reveal_strlit("badge_font_family");
    reveal_strlit("badge_font_file");
    reveal_strlit("badge_shape");
    reveal_strlit("badge_size");
    reveal_strlit("input");
    reveal_strlit("unknown_foreground");
    reveal_strlit("injected_events");
    reveal_strlit("paused");
    reveal_strlit("pause_hotkey");
    reveal_strlit("search");
    reveal_strlit("match");
    reveal_strlit("fields");
}

proof fn names_d()
    ensures
        is_name("max_results"@),
        is_name("details"@),
        is_name("appearance"@),
        is_name("monitor"@),
        is_name("use_work_area"@),
        is_name("panel_width"@),
        is_name("panel_height"@),
        is_name("icon_size"@),
        is_name("icon_padding"@),
        is_name("item_gap"@),
        is_name("panel_padding"@),
        is_name("max_width"@),
{
    reveal_strlit("max_results");
    reveal_strlit("details");
    reveal_strlit("appearance");
    reveal_strlit("monitor");
    reveal_strlit("use_work_area");
    reveal_strlit("panel_width");
    reveal_strlit("panel_height");
    reveal_strlit("icon_size");
    reveal_strlit("icon_padding");
    reveal_strlit("item_gap");
    reveal_strlit("panel_padding");
    reveal_strlit("max_width");
}

proof fn names_e()
    ensures
        is_name("max_height"@),
        is_name("max_columns"@),
        is_name("theme"@),
        is_name("background_color"@),
        is_name("background_opacity"@),
        is_name("icon_background_color"@),
        is_name("icon_background_opacity"@),
        is_name("selection_color"@),
        is_name("selection_opacity"@),
        is_name("selection_border_color"@),
        is_name("selection_border_width"@),
        is_name("panel_corner_radius"@),
{
    reveal_strlit("max_height");
    reveal_strlit("max_columns");
    reveal_strlit("theme");
    reveal_strlit("background_color");
    reveal_strlit("background_opacity");
    reveal_strlit("icon_background_color");
    reveal_strlit("icon_background_opacity");
    reveal_strlit("selection_color");
    reveal_strlit("selection_opacity");
    reveal_strlit("selection_border_color");
    reveal_strlit("selection_border_width");
    reveal_strlit("panel_corner_radius");
}

proof fn names_f()
    ensures
        is_name("icon_corner_radius"@),
        is_name("selection_corner_radius"@),
        is_name("app_name_mode"@),
        is_name("app_name_font_family"@),
        is_name("app_name_font_file"@),
        is_name("app_name_font_size"@),
        is_name("app_name_font_weight"@),
        is_name("app_name_font_italic"@),
        is_name("app_name_text_color"@),
        is_name("startup"@),
        is_name("enabled"@),
        is_name("run_level"@),
{
    reveal_strlit("icon_corner_radius");
    reveal_strlit("selection_corner_radius");
    reveal_strlit("app_name_mode");
    reveal_strlit("app_name_font_family");
    reveal_strlit("app_name_font_file");
    reveal_strlit("app_name_font_size");
    reveal_strlit("app_name_font_weight");
    reveal_strlit("app_name_font_italic");
    reveal_strlit("app_name_text_color");
    reveal_strlit("startup");
    reveal_strlit("enabled");
    reveal_strlit("run_level");
}

proof fn names_g()
    ensures
        is_name("battery_policy"@),
        is_name("command_timeout_ms"@),
        is_name("config"@),
        is_name("watch_mode"@),
        is_name("poll_interval_ms"@),
        is_name("restart_timeout_ms"@),
        is_name("retry_delay_ms"@),
        is_name("retry_limit"@),
        is_name("localization"@),
        is_name("language"@),
        is_name("log"@),
        is_name("level"@),
{
    reveal_strlit("battery_policy");
    reveal_strlit("command_timeout_ms");
    reveal_strlit("config");
    reveal_strlit("watch_mode");
    reveal_strlit("poll_interval_ms");
    reveal_strlit("restart_timeout_ms");
    reveal_strlit("retry_delay_ms");
    reveal_strlit("retry_limit");
    reveal_strlit("localization");
    reveal_strlit("language");
    reveal_strlit("log");
    reveal_strlit("level");
}

proof fn names_h()
    ensures
        is_name("path"@),
        is_name("max_file_mb"@),
        is_name("retained_files"@),
        is_name("performance"@),
        is_name("metrics_enabled"@),
        is_name("metrics_interval_s"@),
        is_name("icon_cache_limit"@),
        is_name("icon_cache_mb"@),
        is_name("icon_failure_ttl_ms"@),
        is_name("metadata_cache_limit"@),
        is_name("metadata_ttl_ms"@),
        is_name("icon_query_timeout_ms"@),
{
    reveal_strlit("path");
    reveal_strlit("max_file_mb");
    reveal_strlit("retained_files");
    reveal_strlit("performance");
    reveal_strlit("metrics_enabled");
    reveal_strlit("metrics_interval_s");
    reveal_strlit("icon_cache_limit");
    reveal_strlit("icon_cache_mb");
    reveal_strlit("icon_failure_ttl_ms");
    reveal_strlit("metadata_cache_limit");
    reveal_strlit("metadata_ttl_ms");
    reveal_strlit("icon_query_timeout_ms");
}

proof fn names_i()
    ensures
        is_name("snapshot_budget_ms"@),
        is_name("render_scale"@),
        is_name("render_budget_mb"@),
        is_name("mru_limit"@),
        is_name("browser"@),
        is_name("chrome_user_data_dir"@),
        is_name("edge_user_data_dir"@),
{
    reveal_strlit("snapshot_budget_ms");
    reveal_strlit("render_scale");
    reveal_strlit("render_budget_mb");
    reveal_strlit("mru_limit");
    reveal_strlit("browser");
    reveal_strlit("chrome_user_data_dir");
    reveal_strlit("edge_user_data_dir");
}

proof fn values_a()
    ensures
        is_plain_value("yes"@),
        is_plain_value("1000"@),
        is_plain_value("alt+`"@),
        is_plain_value("no"@),
        is_plain_value("auto"@),
        is_plain_value("120"@),
        is_plain_value("90"@),
        is_plain_value("Windows Input Experience"@),
        is_plain_value("existing"@),
        is_plain_value("alt+tab"@),
        is_plain_value("99"@),
        is_plain_value("#4C7094"@),
{
    reveal_strlit("yes");
    reveal_strlit("1000");
    reveal_strlit("alt+`");
    reveal_strlit("no");
    reveal_strlit("auto");
    reveal_strlit("120");
    reveal_strlit("90");
    reveal_strlit("Windows Input Experience");
    reveal_strlit("existing");
    reveal_strlit("alt+tab");
    reveal_strlit("99");
    reveal_strlit("#4C7094");
}

proof fn values_b()
    ensures
        is_plain_value("#FFFFFF"@),
        is_plain_value("12"@),
        is_plain_value("Segoe UI"@),
        is_plain_value("circle"@),
        is_plain_value("passthrough"@),
        is_plain_value("handle"@),
        is_plain_value("ctrl+space"@),
        is_plain_value("fuzzy"@),
        is_plain_value("app,title"@),
        is_plain_value("50"@),
        is_plain_value("ctrl+enter"@),
        is_plain_value("cursor"@),
{
    reveal_strlit("#FFFFFF");
    reveal_strlit("12");
    reveal_strlit("Segoe UI");
    reveal_strlit("circle");
    reveal_strlit("passthrough");
    reveal_strlit("handle");
    reveal_strlit("ctrl+space");
    reveal_strlit("fuzzy");
    reveal_strlit("app,title");
    reveal_strlit("50");
    reveal_strlit("ctrl+enter");
    reveal_strlit("cursor");
}

proof fn values_c()
    ensures
        is_plain_value("0"@),
        is_plain_value("64"@),
        is_plain_value("4"@),
        is_plain_value("10"@),
        is_plain_value("100"@),
        is_plain_value("2"@),
        is_plain_value("off"@),
        is_plain_value("14"@),
        is_plain_value("400"@),
        is_plain_value("inherit"@),
        is_plain_value("5000"@),
        is_plain_value("250"@),
{
    reveal_strlit("0");
    reveal_strlit("64");
    reveal_strlit("4");
    reveal_strlit("10");
    reveal_strlit("100");
    reveal_strlit("2");
    reveal_strlit("off");
    reveal_strlit("14");
    reveal_strlit("400");
    reveal_strlit("inherit");
    reveal_strlit("5000");
    reveal_strlit("250");
}

proof fn values_d()
    ensures
        is_plain_value("10000"@),
        is_plain_value("3"@),
        is_plain_value("zh-CN"@),
        is_plain_value("info"@),
        is_plain_value("60"@),
        is_plain_value("256"@),
        is_plain_value("32"@),
        is_plain_value("3000"@),
        is_plain_value("512"@),
{
    reveal_strlit("10000");
    reveal_strlit("3");
    reveal_strlit("zh-CN");
    reveal_strlit("info");
    reveal_strlit("60");
    reveal_strlit("256");
    reveal_strlit("32");
    reveal_strlit("3000");
    reveal_strlit("512");
}

proof fn default_rows_are_plain()
    ensures
        forall|i: int| 0 <= i < default_rows().len() ==> is_plain_row(#[trigger] default_rows()[i]),
        forall|i: int|
            0 < i < default_rows().len() && (#[trigger] default_rows()[i]).0.len() == 0
                ==> default_rows()[i - 1].0.len() == 0,
        default_rows().len() > 0,
{
    reveal_strlit("");
    names_a();
    names_b();
    names_c();
    names_d();
    names_e();
    names_f();
    names_g();
    names_h();
    names_i();
    values_a();
    values_b();
    values_c();
    values_d();
    let rows = default_rows();
    assert(is_plain_row(rows[0]));
    assert(is_plain_row(rows[1]));
    assert(is_plain_row(rows[2]));
    assert(is_plain_row(rows[3]));
    assert(is_plain_row(rows[4]));
    assert(is_plain_row(rows[5]));
    assert(is_plain_row(rows[6]));
    assert(is_plain_row(rows[7]));
    assert(is_plain_row(rows[8]));
    assert(is_plain_row(rows[9]));
    assert(is_plain_row(rows[10]));
    assert(is_plain_row(rows[11]));
    assert(is_plain_row(rows[12]));
    assert(is_plain_row(rows[13]));
    assert(is_plain_row(rows[14]));
    assert(is_plain_row(rows[15]));
    assert(is_plain_row(rows[16]));
    assert(is_plain_row(rows[17]));
    assert(is_plain_row(rows[18]));
    assert(is_plain_row(rows[19]));
    assert(is_plain_row(rows[20]));
    assert(is_plain_row(rows[21]));
    assert(is_plain_row(rows[22]));
    assert(is_plain_row(rows[23]));
    assert(is_plain_row(rows[24]));
    assert(is_plain_row(rows[25]));
    assert(is_plain_row(rows[26]));
    assert(is_plain_row(rows[27]));
    assert(is_plain_row(rows[28]));
    assert(is_plain_row(rows[29]));
    assert(is_plain_row(rows[30]));
    assert(is_plain_row(rows[31]));
    assert(is_plain_row(rows[32]));
    assert(is_plain_row(rows[33]));
    assert(is_plain_row(rows[34]));
    assert(is_plain_row(rows[35]));
    assert(is_plain_row(rows[36]));
    assert(is_plain_row(rows[37]));
    assert(is_plain_row(rows[38]));
    assert(is_plain_row(rows[39]));
    assert(is_plain_row(rows[40]));
    assert(is_plain_row(rows[41]));
    assert(is_plain_row(rows[42]));
    assert(is_plain_row(rows[43]));
    assert(is_plain_row(rows[44]));
    assert(is_plain_row(rows[45]));
    assert(is_plain_row(rows[46]));
    assert(is_plain_row(rows[47]));
    assert(is_plain_row(rows[48]));
    assert(is_plain_row(rows[49]));
    assert(is_plain_row(rows[50]));
    assert(is_plain_row(rows[51]));
    assert(is_plain_row(rows[52]));
    assert(is_plain_row(rows[53]));
    assert(is_plain_row(rows[54]));
    assert(is_plain_row(rows[55]));
    assert(is_plain_row(rows[56]));
    assert(is_plain_row(rows[57]));
    assert(is_plain_row(rows[58]));
    assert(is_plain_row(rows[59]));
    assert(is_plain_row(rows[60]));
    assert(is_plain_row(rows[61]));
    assert(is_plain_row(rows[62]));
    assert(is_plain_row(rows[63]));
    assert(is_plain_row(rows[64]));
    assert(is_plain_row(rows[65]));
    assert(is_plain_row(rows[66]));
    assert(is_plain_row(rows[67]));
    assert(is_plain_row(rows[68]));
    assert(is_plain_row(rows[69]));
    assert(is_plain_row(rows[70]));
    assert(is_plain_row(rows[71]));
    assert(is_plain_row(rows[72]));
    assert(is_plain_row(rows[73]));
    assert(is_plain_row(rows[74]));
    assert(is_plain_row(rows[75]));
    assert(is_plain_row(rows[76]));
    assert(is_plain_row(rows[77]));
    assert(is_plain_row(rows[78]));
    assert(is_plain_row(rows[79]));
    assert(is_plain_row(rows[80]));
    assert(is_plain_row(rows[81]));
    assert(is_plain_row(rows[82]));
    assert(is_plain_row(rows[83]));
    assert(is_plain_row(rows[84]));
    assert(is_plain_row(rows[85]));
    assert(is_plain_row(rows[86]));
    assert(is_plain_row(rows[87]));
    assert(is_plain_row(rows[88]));
    assert(is_plain_row(rows[89]));
    assert(is_plain_row(rows[90]));
    assert(is_plain_row(rows[91]));
    assert(is_plain_row(rows[92]));
    assert(is_plain_row(rows[93]));
    assert(is_plain_row(rows[94]));
    assert(is_plain_row(rows[95]));
    assert(is_plain_row(rows[96]));
    assert(is_plain_row(rows[97]));
    assert(is_plain_row(rows[98]));
    assert(is_plain_row(rows[99]));
    assert(is_plain_row(rows[100]));
    assert(is_plain_row(rows[101]));
    assert(is_plain_row(rows[102]));
    assert(is_plain_row(rows[103]));
    assert(is_plain_row(rows[104]));
    assert(is_plain_row(rows[105]));
    assert(is_plain_row(rows[106]));
    assert(is_plain_row(rows[107]));
}

/// Every setting of the default configuration file explains itself, and there are settings.
pub proof fn default_settings_explain_themselves()
    ensures
        explained_template(template_of(default_text())),
        template_of(default_text()).len() == DEFAULT_SETTINGS@.len(),
        template_of(default_text()).len() > 0,
{
    default_rows_are_plain();
    rendered_settings_are_read(default_rows());
}

/// A document that was completed with the default settings is complete: completing it again
/// changes nothing. This holds where what is added behind the document is not taken for the rest
/// of its last value; it holds exactly where every marker is a comment of the completed document.
pub proof fn default_completion_is_stable(text: Seq<char>)
    requires
        merge_result(text, template_of(default_text())) is Ok,
    ensures
        ({
            let settings = template_of(default_text());
            let merged = merge_result(text, settings)->Ok_0;
            let source = source_of(text, entries_of(ini_sections(text)->0));
            &&& end_is_read(source, settings) ==> merge_result(merged, settings) == Ok::<
                _,
                MergeFailure,
            >(merged)
            &&& merge_result(merged, settings) == Ok::<_, MergeFailure>(merged) <==> forall|i: int|
                0 <= i < settings.len() ==> outline(merged).comments.contains(
                    (#[trigger] settings[i]).marker,
                )
        }),
{
    let settings = template_of(default_text());
    default_settings_explain_themselves();
    documented_completion_is_stable(text, default_text());
    if end_is_read(source_of(text, entries_of(ini_sections(text)->0)), settings) {
        completion_is_stable(text, default_text());
    }
}

}
