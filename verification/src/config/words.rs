//! What the texts of settings mean.

use vstd::prelude::*;

use crate::config::bindings::{bindings_problem, clash, clash_problem, BindingProblem};
use crate::config::hotkey::{hotkey_parts, listed, Hotkey};
use crate::config::overrides::{
    entry_error, override_items, override_map, overrides_value, path_part, pattern_part, put,
    unicode_lower, OverrideError,
};
use crate::config::parsers::{
    all_hex, auto_bool_value, auto_color_value, auto_int_value, bool_value, color_value,
    directory_value, family_value, file_value, hex_digit, hex_value, int_value, list_items, list_valid, visible_parts,
    weight_value,
};
use crate::config::schema::Config;
use crate::config::search::{field_names, field_of, fields_valid, names_field, SearchField};
use crate::config::types::{
    AppNameMode, BadgeShape, BatteryPolicy, ForegroundPolicy, InjectedPolicy, Language,
    MonitorFilter, MonitorPolicy, RenderScale, RunLevel, SearchMatch, StartupEnabled, SwitchOrder,
    Theme, WatchMode,
};
use crate::text::{
    bar_pieces, decimal, decimal_round_trip, has_char, has_control, is_number, is_white,
    number_value, pair_pieces, pieces, split_at_char, trimmed, unsigned, until, until_pair,
    until_range, utf16_len, without_plus,
};

verus! {

// ---------------------------------------------------------------------------
// Single words

/// The words for how changes of the file are noticed.
pub proof fn watch_mode_words(value: Seq<char>)
    ensures
        WatchMode::of(value) == Some(WatchMode::Auto) <==> value == "auto"@,
        WatchMode::of(value) == Some(WatchMode::Notify) <==> value == "notify"@,
        WatchMode::of(value) == Some(WatchMode::Poll) <==> value == "poll"@,
{
    reveal_strlit("auto");
    reveal_strlit("notify");
    reveal_strlit("poll");
    assert("auto"@[0] == 'a' && "auto"@[1] == 'u' && "auto"@[2] == 't' && "auto"@[3] == 'o');
    assert("notify"@[0] == 'n' && "notify"@[1] == 'o' && "notify"@[2] == 't' && "notify"@[3] == 'i' && "notify"@[4] == 'f' && "notify"@[5] == 'y');
    assert("poll"@[0] == 'p' && "poll"@[1] == 'o' && "poll"@[2] == 'l' && "poll"@[3] == 'l');
}

/// The words for whether the switcher starts with the session.
pub proof fn startup_enabled_words(value: Seq<char>)
    ensures
        StartupEnabled::of(value) == Some(StartupEnabled::Auto) <==> value == "auto"@,
        StartupEnabled::of(value) == Some(StartupEnabled::Yes) <==> value == "yes"@,
        StartupEnabled::of(value) == Some(StartupEnabled::No) <==> value == "no"@,
{
    reveal_strlit("auto");
    reveal_strlit("yes");
    reveal_strlit("no");
    assert("auto"@[0] == 'a' && "auto"@[1] == 'u' && "auto"@[2] == 't' && "auto"@[3] == 'o');
    assert("yes"@[0] == 'y' && "yes"@[1] == 'e' && "yes"@[2] == 's');
    assert("no"@[0] == 'n' && "no"@[1] == 'o');
}

/// The words for the rights of the start.
pub proof fn run_level_words(value: Seq<char>)
    ensures
        RunLevel::of(value) == Some(RunLevel::Inherit) <==> value == "inherit"@,
        RunLevel::of(value) == Some(RunLevel::Standard) <==> value == "standard"@,
        RunLevel::of(value) == Some(RunLevel::Highest) <==> value == "highest"@,
{
    reveal_strlit("inherit");
    reveal_strlit("standard");
    reveal_strlit("highest");
    assert("inherit"@[0] == 'i' && "inherit"@[1] == 'n' && "inherit"@[2] == 'h' && "inherit"@[3] == 'e' && "inherit"@[4] == 'r' && "inherit"@[5] == 'i' && "inherit"@[6] == 't');
    assert("standard"@[0] == 's' && "standard"@[1] == 't' && "standard"@[2] == 'a' && "standard"@[3] == 'n' && "standard"@[4] == 'd' && "standard"@[5] == 'a' && "standard"@[6] == 'r' && "standard"@[7] == 'd');
    assert("highest"@[0] == 'h' && "highest"@[1] == 'i' && "highest"@[2] == 'g' && "highest"@[3] == 'h' && "highest"@[4] == 'e' && "highest"@[5] == 's' && "highest"@[6] == 't');
}

/// The words for the start on battery.
pub proof fn battery_policy_words(value: Seq<char>)
    ensures
        BatteryPolicy::of(value) == Some(BatteryPolicy::Inherit) <==> value == "inherit"@,
        BatteryPolicy::of(value) == Some(BatteryPolicy::Allow) <==> value == "allow"@,
        BatteryPolicy::of(value) == Some(BatteryPolicy::Stop) <==> value == "stop"@,
{
    reveal_strlit("inherit");
    reveal_strlit("allow");
    reveal_strlit("stop");
    assert("inherit"@[0] == 'i' && "inherit"@[1] == 'n' && "inherit"@[2] == 'h' && "inherit"@[3] == 'e' && "inherit"@[4] == 'r' && "inherit"@[5] == 'i' && "inherit"@[6] == 't');
    assert("allow"@[0] == 'a' && "allow"@[1] == 'l' && "allow"@[2] == 'l' && "allow"@[3] == 'o' && "allow"@[4] == 'w');
    assert("stop"@[0] == 's' && "stop"@[1] == 't' && "stop"@[2] == 'o' && "stop"@[3] == 'p');
}

/// The words for the language.
pub proof fn language_words(value: Seq<char>)
    ensures
        Language::of(value) == Some(Language::Chinese) <==> value == "zh-CN"@,
        Language::of(value) == Some(Language::English) <==> value == "en-US"@,
        Language::of(value) == Some(Language::Auto) <==> value == "auto"@,
{
    reveal_strlit("zh-CN");
    reveal_strlit("en-US");
    reveal_strlit("auto");
    assert("zh-CN"@[0] == 'z' && "zh-CN"@[1] == 'h' && "zh-CN"@[2] == '-' && "zh-CN"@[3] == 'C' && "zh-CN"@[4] == 'N');
    assert("en-US"@[0] == 'e' && "en-US"@[1] == 'n' && "en-US"@[2] == '-' && "en-US"@[3] == 'U' && "en-US"@[4] == 'S');
    assert("auto"@[0] == 'a' && "auto"@[1] == 'u' && "auto"@[2] == 't' && "auto"@[3] == 'o');
}

/// The words for the monitor of the panel.
pub proof fn monitor_policy_words(value: Seq<char>)
    ensures
        MonitorPolicy::of(value) == Some(MonitorPolicy::Cursor) <==> value == "cursor"@,
        MonitorPolicy::of(value) == Some(MonitorPolicy::Foreground) <==> value == "foreground"@,
        MonitorPolicy::of(value) == Some(MonitorPolicy::Primary) <==> value == "primary"@,
{
    reveal_strlit("cursor");
    reveal_strlit("foreground");
    reveal_strlit("primary");
    assert("cursor"@[0] == 'c' && "cursor"@[1] == 'u' && "cursor"@[2] == 'r' && "cursor"@[3] == 's' && "cursor"@[4] == 'o' && "cursor"@[5] == 'r');
    assert("foreground"@[0] == 'f' && "foreground"@[1] == 'o' && "foreground"@[2] == 'r' && "foreground"@[3] == 'e' && "foreground"@[4] == 'g' && "foreground"@[5] == 'r' && "foreground"@[6] == 'o' && "foreground"@[7] == 'u' && "foreground"@[8] == 'n' && "foreground"@[9] == 'd');
    assert("primary"@[0] == 'p' && "primary"@[1] == 'r' && "primary"@[2] == 'i' && "primary"@[3] == 'm' && "primary"@[4] == 'a' && "primary"@[5] == 'r' && "primary"@[6] == 'y');
}

/// The words for an unknown foreground.
pub proof fn foreground_policy_words(value: Seq<char>)
    ensures
        ForegroundPolicy::of(value) == Some(ForegroundPolicy::Passthrough) <==> value == "passthrough"@,
        ForegroundPolicy::of(value) == Some(ForegroundPolicy::Handle) <==> value == "handle"@,
{
    reveal_strlit("passthrough");
    reveal_strlit("handle");
    assert("passthrough"@[0] == 'p' && "passthrough"@[1] == 'a' && "passthrough"@[2] == 's' && "passthrough"@[3] == 's' && "passthrough"@[4] == 't' && "passthrough"@[5] == 'h' && "passthrough"@[6] == 'r' && "passthrough"@[7] == 'o' && "passthrough"@[8] == 'u' && "passthrough"@[9] == 'g' && "passthrough"@[10] == 'h');
    assert("handle"@[0] == 'h' && "handle"@[1] == 'a' && "handle"@[2] == 'n' && "handle"@[3] == 'd' && "handle"@[4] == 'l' && "handle"@[5] == 'e');
}

/// The words for injected keys.
pub proof fn injected_policy_words(value: Seq<char>)
    ensures
        InjectedPolicy::of(value) == Some(InjectedPolicy::Handle) <==> value == "handle"@,
        InjectedPolicy::of(value) == Some(InjectedPolicy::Passthrough) <==> value == "passthrough"@,
{
    reveal_strlit("handle");
    reveal_strlit("passthrough");
    assert("handle"@[0] == 'h' && "handle"@[1] == 'a' && "handle"@[2] == 'n' && "handle"@[3] == 'd' && "handle"@[4] == 'l' && "handle"@[5] == 'e');
    assert("passthrough"@[0] == 'p' && "passthrough"@[1] == 'a' && "passthrough"@[2] == 's' && "passthrough"@[3] == 's' && "passthrough"@[4] == 't' && "passthrough"@[5] == 'h' && "passthrough"@[6] == 'r' && "passthrough"@[7] == 'o' && "passthrough"@[8] == 'u' && "passthrough"@[9] == 'g' && "passthrough"@[10] == 'h');
}

/// The words for the scale of rendering.
pub proof fn render_scale_words(value: Seq<char>)
    ensures
        RenderScale::of(value) == Some(RenderScale::Auto) <==> value == "auto"@,
        RenderScale::of(value) == Some(RenderScale::One) <==> value == "1"@,
        RenderScale::of(value) == Some(RenderScale::Two) <==> value == "2"@,
        RenderScale::of(value) == Some(RenderScale::Four) <==> value == "4"@,
        RenderScale::of(value) == Some(RenderScale::Six) <==> value == "6"@,
{
    reveal_strlit("auto");
    reveal_strlit("1");
    reveal_strlit("2");
    reveal_strlit("4");
    reveal_strlit("6");
    assert("auto"@[0] == 'a' && "auto"@[1] == 'u' && "auto"@[2] == 't' && "auto"@[3] == 'o');
    assert("1"@[0] == '1');
    assert("2"@[0] == '2');
    assert("4"@[0] == '4');
    assert("6"@[0] == '6');
}

/// The words for the theme.
pub proof fn theme_words(value: Seq<char>)
    ensures
        Theme::of(value) == Some(Theme::Auto) <==> value == "auto"@,
        Theme::of(value) == Some(Theme::Light) <==> value == "light"@,
        Theme::of(value) == Some(Theme::Dark) <==> value == "dark"@,
{
    reveal_strlit("auto");
    reveal_strlit("light");
    reveal_strlit("dark");
    assert("auto"@[0] == 'a' && "auto"@[1] == 'u' && "auto"@[2] == 't' && "auto"@[3] == 'o');
    assert("light"@[0] == 'l' && "light"@[1] == 'i' && "light"@[2] == 'g' && "light"@[3] == 'h' && "light"@[4] == 't');
    assert("dark"@[0] == 'd' && "dark"@[1] == 'a' && "dark"@[2] == 'r' && "dark"@[3] == 'k');
}

/// The words for the name of the application.
pub proof fn app_name_mode_words(value: Seq<char>)
    ensures
        AppNameMode::of(value) == Some(AppNameMode::Off) <==> value == "off"@,
        AppNameMode::of(value) == Some(AppNameMode::Selected) <==> value == "selected"@,
{
    reveal_strlit("off");
    reveal_strlit("selected");
    assert("off"@[0] == 'o' && "off"@[1] == 'f' && "off"@[2] == 'f');
    assert("selected"@[0] == 's' && "selected"@[1] == 'e' && "selected"@[2] == 'l' && "selected"@[3] == 'e' && "selected"@[4] == 'c' && "selected"@[5] == 't' && "selected"@[6] == 'e' && "selected"@[7] == 'd');
}

/// The words for the match of a search.
pub proof fn search_match_words(value: Seq<char>)
    ensures
        SearchMatch::of(value) == Some(SearchMatch::Fuzzy) <==> value == "fuzzy"@,
        SearchMatch::of(value) == Some(SearchMatch::Contains) <==> value == "contains"@,
        SearchMatch::of(value) == Some(SearchMatch::Prefix) <==> value == "prefix"@,
{
    reveal_strlit("fuzzy");
    reveal_strlit("contains");
    reveal_strlit("prefix");
    assert("fuzzy"@[0] == 'f' && "fuzzy"@[1] == 'u' && "fuzzy"@[2] == 'z' && "fuzzy"@[3] == 'z' && "fuzzy"@[4] == 'y');
    assert("contains"@[0] == 'c' && "contains"@[1] == 'o' && "contains"@[2] == 'n' && "contains"@[3] == 't' && "contains"@[4] == 'a' && "contains"@[5] == 'i' && "contains"@[6] == 'n' && "contains"@[7] == 's');
    assert("prefix"@[0] == 'p' && "prefix"@[1] == 'r' && "prefix"@[2] == 'e' && "prefix"@[3] == 'f' && "prefix"@[4] == 'i' && "prefix"@[5] == 'x');
}

/// The words for the order of a switch.
pub proof fn switch_order_words(value: Seq<char>)
    ensures
        SwitchOrder::of(value) == Some(SwitchOrder::Existing) <==> value == "existing"@,
        SwitchOrder::of(value) == Some(SwitchOrder::Mru) <==> value == "mru"@,
{
    reveal_strlit("existing");
    reveal_strlit("mru");
    assert("existing"@[0] == 'e' && "existing"@[1] == 'x' && "existing"@[2] == 'i' && "existing"@[3] == 's' && "existing"@[4] == 't' && "existing"@[5] == 'i' && "existing"@[6] == 'n' && "existing"@[7] == 'g');
    assert("mru"@[0] == 'm' && "mru"@[1] == 'r' && "mru"@[2] == 'u');
}

/// The words for the shape of the badge.
pub proof fn badge_shape_words(value: Seq<char>)
    ensures
        BadgeShape::of(value) == Some(BadgeShape::Circle) <==> value == "circle"@,
        BadgeShape::of(value) == Some(BadgeShape::Square) <==> value == "square"@,
{
    reveal_strlit("circle");
    reveal_strlit("square");
    assert("circle"@[0] == 'c' && "circle"@[1] == 'i' && "circle"@[2] == 'r' && "circle"@[3] == 'c' && "circle"@[4] == 'l' && "circle"@[5] == 'e');
    assert("square"@[0] == 's' && "square"@[1] == 'q' && "square"@[2] == 'u' && "square"@[3] == 'a' && "square"@[4] == 'r' && "square"@[5] == 'e');
}

/// The words for the monitors whose windows are offered.
pub proof fn monitor_filter_words(value: Seq<char>)
    ensures
        MonitorFilter::of(value) == Some(MonitorFilter::All) <==> value == "all"@,
        MonitorFilter::of(value) == Some(MonitorFilter::Panel) <==> value == "panel"@,
        MonitorFilter::of(value) == Some(MonitorFilter::Foreground) <==> value == "foreground"@,
{
    reveal_strlit("all");
    reveal_strlit("panel");
    reveal_strlit("foreground");
    assert("all"@[0] == 'a' && "all"@[1] == 'l' && "all"@[2] == 'l');
    assert("panel"@[0] == 'p' && "panel"@[1] == 'a' && "panel"@[2] == 'n' && "panel"@[3] == 'e' && "panel"@[4] == 'l');
    assert("foreground"@[0] == 'f' && "foreground"@[1] == 'o' && "foreground"@[2] == 'r' && "foreground"@[3] == 'e' && "foreground"@[4] == 'g' && "foreground"@[5] == 'r' && "foreground"@[6] == 'o' && "foreground"@[7] == 'u' && "foreground"@[8] == 'n' && "foreground"@[9] == 'd');
}

/// The words for yes and no.
pub proof fn truth_words(value: Seq<char>)
    ensures
        bool_value(value) == Some(true) <==> value == "yes"@ || value == "true"@ || value == "on"@
            || value == "1"@,
        bool_value(value) == Some(false) <==> value == "no"@ || value == "false"@ || value == "off"@
            || value == "0"@,
        auto_bool_value(value) == Some(None::<bool>) <==> value == "auto"@,
        auto_bool_value(value) == Some(Some(true)) <==> bool_value(value) == Some(true),
        auto_bool_value(value) == Some(Some(false)) <==> bool_value(value) == Some(false),
{
    reveal_strlit("yes");
    reveal_strlit("true");
    reveal_strlit("on");
    reveal_strlit("1");
    reveal_strlit("no");
    reveal_strlit("false");
    reveal_strlit("off");
    reveal_strlit("0");
    reveal_strlit("auto");
    assert("yes"@[0] == 'y' && "yes"@[1] == 'e' && "yes"@[2] == 's');
    assert("true"@[0] == 't' && "true"@[1] == 'r' && "true"@[2] == 'u' && "true"@[3] == 'e');
    assert("on"@[0] == 'o' && "on"@[1] == 'n');
    assert("1"@[0] == '1');
    assert("no"@[0] == 'n' && "no"@[1] == 'o');
    assert("false"@[0] == 'f' && "false"@[1] == 'a' && "false"@[2] == 'l' && "false"@[3] == 's' && "false"@[4] == 'e');
    assert("off"@[0] == 'o' && "off"@[1] == 'f' && "off"@[2] == 'f');
    assert("0"@[0] == '0');
    assert("auto"@[0] == 'a' && "auto"@[1] == 'u' && "auto"@[2] == 't' && "auto"@[3] == 'o');
}

/// A whole number is read as the number that its digits write, where it is in the range; digits
/// may have a plus sign before them, and nothing else is a number.
pub proof fn number_words(n: nat, minimum: u32, maximum: u32, value: Seq<char>)
    ensures
        minimum <= n <= maximum ==> int_value(decimal(n), minimum, maximum) == Some(n as u32),
        !(minimum <= n <= maximum) ==> int_value(decimal(n), minimum, maximum) is None,
        int_value(seq!['+'] + decimal(n), minimum, maximum) == int_value(
            decimal(n),
            minimum,
            maximum,
        ),
        int_value(value, minimum, maximum) matches Some(r) ==> minimum <= r <= maximum && is_number(
            without_plus(value),
        ) && number_value(without_plus(value)) == r,
        auto_int_value("auto"@, minimum, maximum) == Some(None::<u32>),
        minimum <= n <= maximum ==> auto_int_value(decimal(n), minimum, maximum) == Some(
            Some(n as u32),
        ),
        weight_value(decimal(n)) == (if n == 100 || n == 200 || n == 300 || n == 400 || n == 500
            || n == 600 || n == 700 || n == 800 || n == 900 {
            Some(n as u32)
        } else {
            None
        }),
{
    decimal_round_trip(n, n);
    assert(is_number(without_plus(decimal(n))));
    assert(number_value(without_plus(decimal(n))) == n);
    assert(decimal(n).len() > 0 && '0' <= decimal(n)[0] && decimal(n)[0] <= '9') by {
        assert(without_plus(decimal(n)) == decimal(n)) by {
            starts_with_digit(n);
        }
    }
    assert(without_plus(seq!['+'] + decimal(n)) =~= decimal(n));
    reveal_strlit("auto");
    assert("auto"@[0] == 'a');
    assert(decimal(n) != "auto"@);
}

proof fn starts_with_digit(n: nat)
    ensures
        decimal(n).len() > 0,
        '0' <= decimal(n)[0] && decimal(n)[0] <= '9',
    decreases n,
{
    if n >= 10 {
        starts_with_digit(n / 10);
    }
}

/// The value of a hexadecimal digit.
pub open spec fn digit_of(c: char) -> Option<int> {
    if '0' <= c && c <= '9' {
        Some(c as u32 - 48)
    } else if 'A' <= c && c <= 'F' {
        Some(c as u32 - 55)
    } else if 'a' <= c && c <= 'f' {
        Some(c as u32 - 87)
    } else {
        None
    }
}

/// A colour is read from six hexadecimal digits, the highest first: two each for red, green and
/// blue. A number sign may stand before them, and must where the colour may be `auto`.
pub proof fn color_words(a: char, b: char, c: char, d: char, e: char, f: char)
    ensures
        ({
            let digits = seq![a, b, c, d, e, f];
            let marked = seq!['#', a, b, c, d, e, f];
            let valid = digit_of(a) is Some && digit_of(b) is Some && digit_of(c) is Some
                && digit_of(d) is Some && digit_of(e) is Some && digit_of(f) is Some;
            let red = 16 * digit_of(a)->0 + digit_of(b)->0;
            let green = 16 * digit_of(c)->0 + digit_of(d)->0;
            let blue = 16 * digit_of(e)->0 + digit_of(f)->0;
            &&& color_value(marked) is Some <==> valid
            &&& valid ==> color_value(marked)->0 == 0x10000 * red + 0x100 * green + blue
            &&& a != '#' ==> color_value(digits) == color_value(marked)
            &&& valid ==> auto_color_value(marked) == Some(color_value(marked))
            &&& a != '#' ==> auto_color_value(digits) is None
            &&& auto_color_value("auto"@) == Some(None::<u32>)
        }),
{
    let digits = seq![a, b, c, d, e, f];
    let marked = seq!['#', a, b, c, d, e, f];
    assert(marked.drop_first() =~= digits);
    same_digit(a);
    same_digit(b);
    same_digit(c);
    same_digit(d);
    same_digit(e);
    same_digit(f);
    assert(all_hex(digits) <==> hex_digit(a) is Some && hex_digit(b) is Some && hex_digit(c) is Some
        && hex_digit(d) is Some && hex_digit(e) is Some && hex_digit(f) is Some) by {
        assert(digits[0] == a && digits[1] == b && digits[2] == c && digits[3] == d && digits[4]
            == e && digits[5] == f);
    }
    if all_hex(digits) {
        six_digits(a, b, c, d, e, f);
    }
    reveal_strlit("auto");
    assert("auto"@.len() == 4);
}

proof fn same_digit(c: char)
    ensures
        hex_digit(c) is Some == digit_of(c) is Some,
        hex_digit(c) is Some ==> hex_digit(c)->0 == digit_of(c)->0 && 0 <= digit_of(c)->0 < 16,
{
}

proof fn next_digit(s: Seq<char>, c: char)
    requires
        hex_digit(c) is Some,
    ensures
        hex_value(s.push(c)) == hex_value(s) * 16 + hex_digit(c)->0,
{
    assert(s.push(c).drop_last() =~= s);
}

proof fn six_digits(a: char, b: char, c: char, d: char, e: char, f: char)
    requires
        hex_digit(a) is Some,
        hex_digit(b) is Some,
        hex_digit(c) is Some,
        hex_digit(d) is Some,
        hex_digit(e) is Some,
        hex_digit(f) is Some,
    ensures
        hex_value(seq![a, b, c, d, e, f]) == 0x100000 * hex_digit(a)->0 + 0x10000 * hex_digit(b)->0
            + 0x1000 * hex_digit(c)->0 + 0x100 * hex_digit(d)->0 + 0x10 * hex_digit(e)->0
            + hex_digit(f)->0,
{
    let none = Seq::<char>::empty();
    next_digit(none, a);
    next_digit(none.push(a), b);
    next_digit(none.push(a).push(b), c);
    next_digit(none.push(a).push(b).push(c), d);
    next_digit(none.push(a).push(b).push(c).push(d), e);
    next_digit(none.push(a).push(b).push(c).push(d).push(e), f);
    assert(none.push(a).push(b).push(c).push(d).push(e).push(f) =~= seq![a, b, c, d, e, f]);
    assert(hex_value(none) == 0);
}

/// Only six digits, with or without a number sign, are a colour.
pub proof fn color_lengths(value: Seq<char>)
    ensures
        color_value(value) is Some ==> value.len() == 6 || value.len() == 7 && value[0] == '#',
        auto_color_value(value) is Some ==> value == "auto"@ || value.len() == 7 && value[0] == '#',
{
}

/// The name of a font is the text without the white space around it: one to 128 characters, none
/// of them a control character.
pub proof fn family_words(value: Seq<char>)
    ensures
        family_value(value) is Some <==> 1 <= trimmed(value).len() <= 128 && !has_control(
            trimmed(value),
        ),
        family_value(value) is Some ==> family_value(value) == Some(trimmed(value)),
{
}

/// A path is taken as it is written. Blank text stands for no file and `auto` for no directory; a
/// path holds no NUL and at most 32767 UTF-16 units.
pub proof fn path_words(value: Seq<char>)
    ensures
        trimmed(value).len() == 0 ==> file_value(value) == Some(None::<Seq<char>>),
        trimmed(value).len() > 0 && !has_char(value, '\0') && utf16_len(value) <= 32767 ==> file_value(
            value,
        ) == Some(Some(value)),
        trimmed(value).len() > 0 && (has_char(value, '\0') || utf16_len(value) > 32767) ==> file_value(
            value,
        ) is None,
        directory_value("auto"@) == Some(None::<Seq<char>>),
        value != "auto"@ && trimmed(value).len() > 0 ==> directory_value(value) == file_value(value),
        value != "auto"@ && trimmed(value).len() == 0 ==> directory_value(value) is None,
{
}

// ---------------------------------------------------------------------------
// Lists

proof fn pieces_add(a: Seq<char>, c: char, b: Seq<char>, x: char, y: char)
    requires
        c == x || c == y,
    ensures
        pieces(a.push(c) + b, x, y) == pieces(a, x, y) + pieces(b, x, y),
    decreases a.len(),
{
    let s = a.push(c) + b;
    let i = until(a, x, y);
    let k = until(s, x, y);
    until_range(a, x, y);
    until_range(s, x, y);
    assert(k == i) by {
        assert(s[a.len() as int] == c);
        if k < i {
            assert(s[k] == a[k]);
        }
        if i < k {
            if i < a.len() {
                assert(s[i] == a[i]);
            }
        }
    }
    if i < a.len() {
        let rest = a.skip(i + 1);
        pieces_add(rest, c, b, x, y);
        assert(s.take(i) =~= a.take(i));
        assert(s.skip(i + 1) =~= rest.push(c) + b);
        assert(seq![a.take(i)] + (pieces(rest, x, y) + pieces(b, x, y)) =~= (seq![a.take(i)]
            + pieces(rest, x, y)) + pieces(b, x, y));
    } else {
        assert(s.take(i) =~= a);
        assert(s.skip(i + 1) =~= b);
    }
}

proof fn visible_parts_add(a: Seq<Seq<char>>, b: Seq<Seq<char>>)
    ensures
        visible_parts(a + b) == visible_parts(a) + visible_parts(b),
    decreases b.len(),
{
    if b.len() == 0 {
        assert(a + b =~= a);
        assert(visible_parts(a) + visible_parts(b) =~= visible_parts(a));
    } else {
        visible_parts_add(a, b.drop_last());
        assert((a + b).drop_last() =~= a + b.drop_last());
        assert((a + b).last() == b.last());
        assert(visible_parts(a + b) =~= visible_parts(a) + visible_parts(b));
    }
}

proof fn one_piece(value: Seq<char>, x: char, y: char)
    requires
        !has_char(value, x),
        !has_char(value, y),
    ensures
        pieces(value, x, y) == seq![value],
{
    until_range(value, x, y);
}

proof fn one_visible_part(value: Seq<char>)
    ensures
        visible_parts(seq![value]) == (if trimmed(value).len() == 0 {
            seq![]
        } else {
            seq![trimmed(value)]
        }),
{
    let one = seq![value];
    assert(one.drop_last() =~= Seq::<Seq<char>>::empty());
    assert(visible_parts(one.drop_last()) =~= Seq::<Seq<char>>::empty());
    assert(one.last() == value);
    assert(visible_parts(one) =~= (if trimmed(value).len() == 0 {
        seq![]
    } else {
        seq![trimmed(value)]
    }));
}

/// The items of a list are separated by commas and keep their order. White space around an item
/// does not belong to it, and blank items are none.
pub proof fn list_words(a: Seq<char>, b: Seq<char>)
    ensures
        list_items(a.push(',') + b) == list_items(a) + list_items(b),
        !has_char(a, ',') ==> list_items(a) == (if trimmed(a).len() == 0 {
            seq![]
        } else {
            seq![trimmed(a)]
        }),
{
    pieces_add(a, ',', b, ',', ',');
    visible_parts_add(pieces(a, ',', ','), pieces(b, ',', ','));
    if !has_char(a, ',') {
        one_piece(a, ',', ',');
        one_visible_part(a);
    }
}

/// A list is accepted exactly with at most 256 items, none of which holds NUL or is longer than
/// the limit.
pub proof fn list_limits(value: Seq<char>, limit: u64)
    ensures
        list_valid(value, limit) <==> list_items(value).len() <= 256 && forall|i: int|
            0 <= i < list_items(value).len() ==> !has_char(#[trigger] list_items(value)[i], '\0')
                && utf16_len(list_items(value)[i]) <= limit,
{
}

/// The fields of a search are named by three words, separated by commas.
pub proof fn field_words(a: Seq<char>, b: Seq<char>)
    ensures
        field_of(a) == Some(SearchField::App) <==> a == "app"@,
        field_of(a) == Some(SearchField::Title) <==> a == "title"@,
        field_of(a) == Some(SearchField::Exe) <==> a == "exe"@,
        fields_valid(a.push(',') + b) <==> fields_valid(a) && fields_valid(b),
        forall|field: SearchField| #[trigger]
            names_field(a.push(',') + b, field) <==> names_field(a, field) || names_field(b, field),
        !has_char(a, ',') ==> (fields_valid(a) <==> field_of(trimmed(a)) is Some),
        !has_char(a, ',') ==> forall|field: SearchField| #[trigger]
            names_field(a, field) <==> field_of(trimmed(a)) == Some(field),
{
    reveal_strlit("app");
    reveal_strlit("title");
    reveal_strlit("exe");
    assert("app"@[0] == 'a' && "app"@[1] == 'p' && "app"@[2] == 'p');
    assert("title"@[0] == 't' && "title"@[1] == 'i' && "title"@[2] == 't' && "title"@[3] == 'l' && "title"@[4] == 'e');
    assert("exe"@[0] == 'e' && "exe"@[1] == 'x' && "exe"@[2] == 'e');
    pieces_add(a, ',', b, ',', ',');
    let whole = field_names(a.push(',') + b);
    let first = field_names(a);
    let second = field_names(b);
    assert(whole =~= first + second);
    assert forall|i: int| 0 <= i < first.len() implies whole[i] == first[i] by {}
    assert forall|i: int| 0 <= i < second.len() implies whole[first.len() + i] == second[i] by {}
    if fields_valid(a.push(',') + b) {
        assert forall|i: int| 0 <= i < first.len() implies field_of(#[trigger] first[i]) is Some by {
            assert(field_of(whole[i]) is Some);
        }
        assert forall|i: int| 0 <= i < second.len() implies field_of(#[trigger] second[i])
            is Some by {
            assert(field_of(whole[first.len() + i]) is Some);
        }
    }
    if fields_valid(a) && fields_valid(b) {
        assert forall|i: int| 0 <= i < whole.len() implies field_of(#[trigger] whole[i]) is Some by {
            if i < first.len() {
                assert(whole[i] == first[i]);
            } else {
                assert(whole[i] == second[i - first.len()]);
            }
        }
    }
    assert forall|field: SearchField| #[trigger]
        names_field(a.push(',') + b, field) <==> names_field(a, field) || names_field(b, field) by {
        if names_field(a.push(',') + b, field) {
            let i = choose|i: int|
                0 <= i < whole.len() && field_of(#[trigger] whole[i]) == Some(field);
            if i < first.len() {
                assert(field_of(first[i]) == Some(field));
            } else {
                assert(field_of(second[i - first.len()]) == Some(field));
            }
        }
        if names_field(a, field) {
            let i = choose|i: int|
                0 <= i < first.len() && field_of(#[trigger] first[i]) == Some(field);
            assert(field_of(whole[i]) == Some(field));
        }
        if names_field(b, field) {
            let i = choose|i: int|
                0 <= i < second.len() && field_of(#[trigger] second[i]) == Some(field);
            assert(field_of(whole[first.len() + i]) == Some(field));
        }
    }
    if !has_char(a, ',') {
        one_piece(a, ',', ',');
        assert(first =~= seq![trimmed(a)]);
        assert(first[0] == trimmed(a));
    }
}

/// Icon overrides are separated by commas or semicolons, and each is a pattern and a path around
/// an equals sign.
pub proof fn override_words(a: Seq<char>, b: Seq<char>, pattern: Seq<char>, path: Seq<char>)
    ensures
        override_items(a.push(',') + b) == override_items(a) + override_items(b),
        override_items(a.push(';') + b) == override_items(a) + override_items(b),
        !has_char(pattern, '=') ==> pattern_part(pattern.push('=') + path) == pattern && path_part(
            pattern.push('=') + path,
        ) == path,
{
    pieces_add(a, ',', b, ',', ';');
    pieces_add(a, ';', b, ',', ';');
    visible_parts_add(pieces(a, ',', ';'), pieces(b, ',', ';'));
    if !has_char(pattern, '=') {
        let s = pattern.push('=') + path;
        let at = until(s, '=', '=');
        until_range(s, '=', '=');
        assert(s[pattern.len() as int] == '=');
        assert(at == pattern.len()) by {
            if at < pattern.len() {
                assert(s[at] == pattern[at]);
            }
        }
        assert(s.take(at) =~= pattern);
        assert(s.skip(at + 1) =~= path);
    }
}

/// An icon override is refused without an equals sign, with a blank pattern or path or a NUL, and
/// with a pattern of more than 260 or a path of more than 32767 UTF-16 units; the first of these
/// is the reason.
pub proof fn override_limits(entry: Seq<char>)
    ensures
        entry_error(entry) == Some(OverrideError::Form) <==> !has_char(entry, '='),
        has_char(entry, '=') ==> (entry_error(entry) == Some(OverrideError::Content) <==> trimmed(
            pattern_part(entry),
        ).len() == 0 || trimmed(path_part(entry)).len() == 0 || has_char(entry, '\0')),
        entry_error(entry) == Some(OverrideError::Length) ==> utf16_len(pattern_part(entry)) > 260
            || utf16_len(path_part(entry)) > 32767,
        entry_error(entry) is None ==> utf16_len(pattern_part(entry)) <= 260 && utf16_len(
            path_part(entry),
        ) <= 32767,
        entry_error(entry) != Some(OverrideError::Count),
{
    until_range(entry, '=', '=');
    let at = until(entry, '=', '=');
    if at < entry.len() {
        assert(entry[at] == '=');
        assert(has_char(entry, '='));
    }
    if has_char(entry, '=') {
        let i = choose|i: int| 0 <= i < entry.len() && #[trigger] entry[i] == '=';
        if at >= entry.len() {
            assert(entry[i] != '=');
        }
    }
}

/// One more override gives its pattern, in lower case and without white space around it, the path
/// that it names. A pattern that is there already keeps its place and takes the new path, and
/// other patterns keep theirs; a new one comes last, of at most 256.
pub proof fn override_replaces(entries: Seq<Seq<char>>, entry: Seq<char>)
    requires
        override_map(entries) is Ok,
        entry_error(entry) is None,
    ensures
        ({
            let before = override_map(entries)->Ok_0;
            let after = override_map(entries.push(entry));
            let key = unicode_lower(trimmed(pattern_part(entry)));
            let path = trimmed(path_part(entry));
            let known = exists|i: int| 0 <= i < before.len() && (#[trigger] before[i]).0 == key;
            &&& after == Err::<Seq<(Seq<char>, Seq<char>)>, _>(OverrideError::Count) <==> !known
                && before.len() == 256
            &&& after is Ok || after == Err::<Seq<(Seq<char>, Seq<char>)>, _>(OverrideError::Count)
            &&& after is Ok && !known ==> after->Ok_0 == before.push((key, path))
            &&& after is Ok && known ==> after->Ok_0.len() == before.len() && forall|i: int|
                0 <= i < before.len() ==> #[trigger] after->Ok_0[i] == (if before[i].0 == key {
                    (key, path)
                } else {
                    before[i]
                })
        }),
{
    let before = override_map(entries)->Ok_0;
    let key = unicode_lower(trimmed(pattern_part(entry)));
    assert(entries.push(entry).drop_last() =~= entries);
    crate::config::overrides::override_patterns_are_unique(entries);
    key_position(before, key);
}

proof fn key_position(entries: Seq<(Seq<char>, Seq<char>)>, key: Seq<char>)
    ensures
        ({
            let at = crate::config::overrides::position(entries, key);
            &&& 0 <= at <= entries.len()
            &&& at < entries.len() ==> entries[at].0 == key
            &&& forall|k: int| 0 <= k < at ==> (#[trigger] entries[k]).0 != key
        }),
    decreases entries.len(),
{
    if entries.len() > 0 && entries[0].0 != key {
        let rest = entries.drop_first();
        key_position(rest, key);
        assert forall|k: int| 0 <= k < crate::config::overrides::position(
            entries,
            key,
        ) implies (#[trigger] entries[k]).0 != key by {
            if k > 0 {
                assert(entries[k] == rest[k - 1]);
            }
        }
    }
}

proof fn hotkey_parts_add(a: Seq<Seq<char>>, b: Seq<Seq<char>>)
    ensures
        hotkey_parts(a + b) == hotkey_parts(a) + hotkey_parts(b),
    decreases b.len(),
{
    if b.len() == 0 {
        assert(a + b =~= a);
        assert(hotkey_parts(a) + hotkey_parts(b) =~= hotkey_parts(a));
    } else {
        hotkey_parts_add(a, b.drop_last());
        assert((a + b).drop_last() =~= a + b.drop_last());
        assert((a + b).last() == b.last());
        assert(hotkey_parts(a + b) =~= hotkey_parts(a) + hotkey_parts(b));
    }
}

proof fn pair_is_found(a: Seq<char>, b: Seq<char>)
    requires
        !has_char(a, '|'),
    ensures
        until_pair(a + seq!['|', '|'] + b, '|') == a.len(),
    decreases a.len(),
{
    let s = a + seq!['|', '|'] + b;
    if a.len() > 0 {
        assert(a[0] != '|');
        let rest = a.drop_first();
        assert(!has_char(rest, '|')) by {
            assert forall|i: int| 0 <= i < rest.len() implies #[trigger] rest[i] != '|' by {
                assert(rest[i] == a[i + 1]);
            }
        }
        pair_is_found(rest, b);
        assert(s.drop_first() =~= rest + seq!['|', '|'] + b);
        assert(s[0] == a[0]);
    } else {
        assert(s[0] == '|' && s[1] == '|');
    }
}

proof fn no_pair(a: Seq<char>)
    requires
        !has_char(a, '|'),
    ensures
        until_pair(a, '|') == a.len(),
    decreases a.len(),
{
    if a.len() >= 2 {
        assert(a[0] != '|');
        let rest = a.drop_first();
        assert(!has_char(rest, '|')) by {
            assert forall|i: int| 0 <= i < rest.len() implies #[trigger] rest[i] != '|' by {
                assert(rest[i] == a[i + 1]);
            }
        }
        no_pair(rest);
    }
}

/// The bindings of a list are separated by two bars and keep their order. White space around one
/// does not belong to it, and blank ones are none.
pub proof fn binding_lists(a: Seq<char>, b: Seq<char>)
    requires
        !has_char(a, '|'),
    ensures
        listed(a) == (if trimmed(a).len() == 0 {
            seq![]
        } else {
            seq![trimmed(a)]
        }),
        listed(a + seq!['|', '|'] + b) == listed(a) + listed(b),
{
    let s = a + seq!['|', '|'] + b;
    no_pair(a);
    pair_is_found(a, b);
    assert(pair_pieces(a, '|') =~= seq![a]);
    assert(s.take(a.len() as int) =~= a);
    assert(s.skip(a.len() as int + 2) =~= b);
    assert(pair_pieces(s, '|') =~= seq![a] + pair_pieces(b, '|'));
    hotkey_parts_add(seq![a], pair_pieces(b, '|'));
    let one = seq![a];
    assert(one.drop_last() =~= Seq::<Seq<char>>::empty());
    assert(hotkey_parts(one.drop_last()) =~= Seq::<Seq<char>>::empty());
    assert(one.last() == a);
    assert(hotkey_parts(one) =~= (if trimmed(a).len() == 0 {
        seq![]
    } else {
        seq![trimmed(a)]
    }));
}

// ---------------------------------------------------------------------------
// Bindings and sizes of a configuration

/// The bindings in use: those of the switches that are on, that of the search where it is on, the
/// pause binding where there is one, and that of the details where they and the switch of
/// applications are on. A binding of a function that is off is not in use.
pub proof fn bindings_in_use(config: Config, hotkey: Hotkey)
    ensures
        config.enabled_hotkeys().contains(hotkey) <==> {
            ||| config.switch_windows_enable && config.switch_windows_hotkey@.contains(hotkey)
            ||| config.switch_apps_enable && config.switch_apps_hotkey@.contains(hotkey)
            ||| config.search_enable && config.search_hotkey == hotkey
            ||| config.pause_hotkey == Some(hotkey)
            ||| config.details_enable && config.switch_apps_enable && config.details_hotkey
                == hotkey
        },
{
    let none = Seq::<Hotkey>::empty();
    let windows = if config.switch_windows_enable {
        config.switch_windows_hotkey@
    } else {
        none
    };
    let apps = if config.switch_apps_enable {
        config.switch_apps_hotkey@
    } else {
        none
    };
    let search = if config.search_enable {
        seq![config.search_hotkey]
    } else {
        none
    };
    let pause = match config.pause_hotkey {
        Some(hotkey) => seq![hotkey],
        None => none,
    };
    let details = if config.details_enable && config.switch_apps_enable {
        seq![config.details_hotkey]
    } else {
        none
    };
    assert(config.enabled_hotkeys() == windows + apps + search + pause + details);
    contains_either(windows, apps, hotkey);
    contains_either(windows + apps, search, hotkey);
    contains_either(windows + apps + search, pause, hotkey);
    contains_either(windows + apps + search + pause, details, hotkey);
    contains_one(config.search_hotkey, hotkey);
    contains_one(config.details_hotkey, hotkey);
    if config.pause_hotkey is Some {
        contains_one(config.pause_hotkey->0, hotkey);
    }
    assert(!none.contains(hotkey));
}

proof fn contains_one<T>(x: T, y: T)
    ensures
        seq![x].contains(y) <==> x == y,
{
    assert(seq![x][0] == x);
}

proof fn contains_either<T>(a: Seq<T>, b: Seq<T>, x: T)
    ensures
        (a + b).contains(x) <==> a.contains(x) || b.contains(x),
{
    if a.contains(x) {
        let i = choose|i: int| 0 <= i < a.len() && a[i] == x;
        assert((a + b)[i] == x);
    }
    if b.contains(x) {
        let i = choose|i: int| 0 <= i < b.len() && b[i] == x;
        assert((a + b)[a.len() + i] == x);
    }
    if (a + b).contains(x) {
        let i = choose|i: int| 0 <= i < (a + b).len() && (a + b)[i] == x;
        if i < a.len() {
            assert(a[i] == x);
        } else {
            assert(b[i - a.len()] == x);
        }
    }
}

/// Two bindings clash exactly if they belong to different functions and have the same modifier
/// and the same key.
pub proof fn clashing_bindings(a: Hotkey, b: Hotkey)
    ensures
        clash(a, b) <==> a.id != b.id && a.modifier@[0] == b.modifier@[0] && a.code == b.code,
        clash(a, b) == clash(b, a),
        !clash(a, a),
{
}

/// A problem with bindings names two functions in use whose bindings clash, or says that input is
/// paused without a tray icon and without a pause binding. Without such bindings, and with a way
/// back from a pause, there is no problem.
pub proof fn binding_problems(config: Config)
    ensures
        bindings_problem(config) matches Some(BindingProblem::Conflict { first, second })
            ==> exists|a: Hotkey, b: Hotkey| #[trigger]
            config.enabled_hotkeys().contains(a) && #[trigger] config.enabled_hotkeys().contains(b)
                && a.id != b.id && a.modifier@[0] == b.modifier@[0] && a.code == b.code && a.name
                == first && b.name == second,
        bindings_problem(config) == Some(BindingProblem::NoRecovery) ==> config.input_paused
            && !config.trayicon && config.pause_hotkey is None,
        bindings_problem(config) is None ==> !(config.input_paused && !config.trayicon
            && config.pause_hotkey is None),
        bindings_problem(config) is None ==> forall|a: Hotkey, b: Hotkey| #[trigger]
            config.enabled_hotkeys().contains(a) && #[trigger] config.enabled_hotkeys().contains(b)
                && a.id != b.id && a.modifier@[0] == b.modifier@[0] ==> a.code != b.code,
{
    let hotkeys = config.enabled_hotkeys();
    crate::config::bindings::clash_means_shared_keys(config);
    if clash_problem(config) is Some {
        crate::config::bindings::clash_found(hotkeys, 0, 1);
        let (i, j) = crate::config::bindings::first_clash(hotkeys, 0, 1)->0;
        assert(hotkeys.contains(hotkeys[i]) && hotkeys.contains(hotkeys[j]));
    } else {
        assert forall|a: Hotkey, b: Hotkey| #[trigger]
            hotkeys.contains(a) && #[trigger] hotkeys.contains(b) && a.id != b.id && a.modifier@[0]
                == b.modifier@[0] implies a.code != b.code by {
            let i = choose|i: int| 0 <= i < hotkeys.len() && hotkeys[i] == a;
            let j = choose|j: int| 0 <= j < hotkeys.len() && hotkeys[j] == b;
            if a.code == b.code {
                if i < j {
                    assert(clash(hotkeys[i], hotkeys[j]));
                } else {
                    assert(clash(hotkeys[j], hotkeys[i]));
                }
            }
        }
    }
}

/// The sizes of the panel are those of the configuration, each under its own name. The name of an
/// application takes one and a half lines of its font and six DIP, where it is shown.
pub proof fn panel_sizes(config: Config)
    ensures
        ({
            let options = config.layout_options();
            &&& options.panel_width == config.panel_width
            &&& options.panel_height == config.panel_height
            &&& options.icon_size == config.icon_size
            &&& options.icon_padding == config.icon_padding
            &&& options.item_gap == config.item_gap
            &&& options.panel_padding == config.panel_padding
            &&& options.max_width == config.max_width
            &&& options.max_height == config.max_height
            &&& options.max_columns == config.max_columns
            &&& config.app_name_mode == AppNameMode::Off ==> options.name_height == 0
            &&& config.app_name_mode == AppNameMode::Selected && config.app_name_font_size <= 48
                ==> 2 * (options.name_height - 6) <= 3 * config.app_name_font_size < 2 * (
            options.name_height - 5)
        }),
{
}

}
