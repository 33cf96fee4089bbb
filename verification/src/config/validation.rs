//! The check of the basic settings of a document before it is completed.

use vstd::prelude::*;

use crate::config::document::{
    entries_of, entry_views, values, EntryView, IniDocument,
};
use crate::config::hotkey::{hotkeys_valid, parse_hotkeys, SWITCH_APPS_HOTKEY_ID, SWITCH_WINDOWS_HOTKEY_ID};
use crate::config::parsers::{bool_value, color_value, parse_color, visible, visible_parts};
use crate::config::schema::Config;
use crate::config::types::LogLevel;
use crate::text::{
    chars_of, find_either, has_char, is_number, number_value, parse_unsigned, part, pieces,
    same_str, split_either, texts, trim, trimmed, unsigned, until, until_range,
};

verus! {

/// What is wrong with a value.
#[derive(Debug, Clone, Copy, PartialEq, Eq, Structural)]
pub enum ValueFault {
    /// It is no yes or no.
    Boolean,
    /// It is neither `auto` nor a yes or no.
    Automatic,
    /// It is no whole number from the first to the second.
    Range(u32, u32),
    /// It is no colour.
    Color,
    /// It is no list of key combinations.
    Hotkey,
    /// An icon entry has no equals sign.
    IconForm,
    /// An icon entry has an empty pattern or path.
    IconContent,
    /// It is no log level.
    Level,
}

/// A value that is refused.
#[derive(Debug, Clone, PartialEq, Eq)]
pub struct ValueProblem {
    pub section: String,
    pub key: String,
    pub fault: ValueFault,
}

/// Whether a text is a whole number in a range.
pub open spec fn in_range(value: Seq<char>, minimum: u32, maximum: u32) -> bool {
    match unsigned(value, u32::MAX as nat) {
        Some(number) => minimum <= number <= maximum,
        None => false,
    }
}

/// Whether a text is a whole number in a range.
pub fn validate_range(value: &str, minimum: u32, maximum: u32) -> (r: bool)
    ensures
        r == in_range(value@, minimum, maximum),
{
    let chars = chars_of(value);
    match parse_unsigned(chars.as_slice(), 0xffff_ffff) {
        Some(number) => minimum as u64 <= number && number <= maximum as u64,
        None => false,
    }
}

/// What is wrong with one icon entry.
pub open spec fn icon_fault(entry: Seq<char>) -> Option<ValueFault> {
    let at = until(entry, '=', '=');
    if at >= entry.len() {
        Some(ValueFault::IconForm)
    } else if trimmed(entry.take(at)).len() == 0 || trimmed(entry.skip(at + 1)).len() == 0 {
        Some(ValueFault::IconContent)
    } else {
        None
    }
}

/// The first fault of the icon entries from a place on.
pub open spec fn icons_fault(entries: Seq<Seq<char>>, from: int) -> Option<ValueFault>
    decreases entries.len() - from,
{
    if from < 0 || from >= entries.len() {
        None
    } else {
        match icon_fault(entries[from]) {
            Some(fault) => Some(fault),
            None => icons_fault(entries, from + 1),
        }
    }
}

/// Checks a list of icon entries, `pattern=path` separated by commas or semicolons.
pub fn validate_icon_overrides(value: &str) -> (r: Option<ValueFault>)
    ensures
        r == icons_fault(visible_parts(pieces(value@, ',', ';')), 0),
{
    let chars = chars_of(value);
    let parts = split_either(chars.as_slice(), ',', ';');
    let items = visible(&parts);
    let ghost all = visible_parts(pieces(value@, ',', ';'));
    assert(texts(items@) == all);
    let mut i: usize = 0;
    while i < items.len()
        invariant
            i <= items@.len(),
            texts(items@) == all,
            all == visible_parts(pieces(value@, ',', ';')),
            icons_fault(all, 0) == icons_fault(all, i as int),
        decreases items@.len() - i,
    {
        let entry = items[i].as_slice();
        assert(all[i as int] == entry@);
        assert(entry@.skip(0) == entry@);
        let at: usize = find_either(entry, 0, '=', '=');
        if at == entry.len() {
            return Some(ValueFault::IconForm);
        }
        let pattern = part(entry, 0, at);
        let path = part(entry, at + 1, entry.len());
        assert(pattern@ == entry@.take(at as int));
        assert(path@ == entry@.skip(at + 1));
        let pattern = trim(pattern.as_slice());
        let path = trim(path.as_slice());
        if pattern.len() == 0 || path.len() == 0 {
            return Some(ValueFault::IconContent);
        }
        i += 1;
    }
    None
}

/// What is wrong with a value of a setting; other settings are not looked at here.
pub open spec fn value_fault(section: Seq<char>, key: Seq<char>, value: Seq<char>) -> Option<
    ValueFault,
> {
    let general = section == ""@;
    let apps = section == "switch-apps"@;
    let either = apps || section == "switch-windows"@;
    if (general && (key == "trayicon"@ || key == "auto_restart"@)) || (either && key
        == "ignore_minimal"@) || (apps && (key == "enable"@ || key == "show_badge"@)) {
        if bool_value(value) is None {
            Some(ValueFault::Boolean)
        } else {
            None
        }
    } else if either && key == "only_current_desktop"@ {
        if value != "auto"@ && bool_value(value) is None {
            Some(ValueFault::Automatic)
        } else {
            None
        }
    } else if general && key == "restart_delay_ms"@ {
        range_fault(value, 200, 10000)
    } else if apps && key == "badge_max"@ {
        range_fault(value, 2, 9999)
    } else if apps && key == "badge_font_size"@ {
        range_fault(value, 8, 24)
    } else if apps && (key == "badge_color"@ || key == "badge_text_color"@) {
        if color_value(value) is None {
            Some(ValueFault::Color)
        } else {
            None
        }
    } else if either && key == "hotkey"@ {
        if trimmed(value).len() > 0 && !hotkeys_valid(value) {
            Some(ValueFault::Hotkey)
        } else {
            None
        }
    } else if apps && key == "override_icons"@ {
        icons_fault(visible_parts(pieces(value, ',', ';')), 0)
    } else if section == "log"@ && key == "level"@ {
        if LogLevel::of(value) is None {
            Some(ValueFault::Level)
        } else {
            None
        }
    } else {
        None
    }
}

/// The fault of a value that is no whole number in a range.
pub open spec fn range_fault(value: Seq<char>, minimum: u32, maximum: u32) -> Option<ValueFault> {
    if in_range(value, minimum, maximum) {
        None
    } else {
        Some(ValueFault::Range(minimum, maximum))
    }
}

fn check_range(value: &str, minimum: u32, maximum: u32) -> (r: Option<ValueFault>)
    ensures
        r == range_fault(value@, minimum, maximum),
{
    if validate_range(value, minimum, maximum) {
        None
    } else {
        Some(ValueFault::Range(minimum, maximum))
    }
}

/// Checks a value of a setting.
pub fn check_value(section: &str, key: &str, value: &str) -> (r: Option<ValueFault>)
    ensures
        r == value_fault(section@, key@, value@),
{
    let general = same_str(section, "");
    let apps = same_str(section, "switch-apps");
    let either = apps || same_str(section, "switch-windows");
    if (general && (same_str(key, "trayicon") || same_str(key, "auto_restart"))) || (either
        && same_str(key, "ignore_minimal")) || (apps && (same_str(key, "enable") || same_str(
        key,
        "show_badge",
    ))) {
        if Config::to_bool(value).is_none() {
            Some(ValueFault::Boolean)
        } else {
            None
        }
    } else if either && same_str(key, "only_current_desktop") {
        if !same_str(value, "auto") && Config::to_bool(value).is_none() {
            Some(ValueFault::Automatic)
        } else {
            None
        }
    } else if general && same_str(key, "restart_delay_ms") {
        check_range(value, 200, 10000)
    } else if apps && same_str(key, "badge_max") {
        check_range(value, 2, 9999)
    } else if apps && same_str(key, "badge_font_size") {
        check_range(value, 8, 24)
    } else if apps && (same_str(key, "badge_color") || same_str(key, "badge_text_color")) {
        if parse_color(value).is_none() {
            Some(ValueFault::Color)
        } else {
            None
        }
    } else if either && same_str(key, "hotkey") {
        let chars = chars_of(value);
        let shown = trim(chars.as_slice());
        let id: u32 = if apps {
            SWITCH_APPS_HOTKEY_ID
        } else {
            SWITCH_WINDOWS_HOTKEY_ID
        };
        if shown.len() > 0 && parse_hotkeys(id, section, value).is_err() {
            Some(ValueFault::Hotkey)
        } else {
            None
        }
    } else if apps && same_str(key, "override_icons") {
        validate_icon_overrides(value)
    } else if same_str(section, "log") && same_str(key, "level") {
        if LogLevel::parse(value).is_none() {
            Some(ValueFault::Level)
        } else {
            None
        }
    } else {
        None
    }
}

/// The place of the first refused value from a place on.
pub open spec fn first_fault(entries: Seq<EntryView>, from: int) -> Option<int>
    decreases entries.len() - from,
{
    if from < 0 || from >= entries.len() {
        None
    } else if value_fault(entries[from].0, entries[from].1, entries[from].2) is Some {
        Some(from)
    } else {
        first_fault(entries, from + 1)
    }
}

/// Whether the problem is that of an entry.
pub open spec fn is_problem(problem: ValueProblem, entry: EntryView) -> bool {
    &&& problem.section@ == entry.0
    &&& problem.key@ == entry.1
    &&& value_fault(entry.0, entry.1, entry.2) == Some(problem.fault)
}

/// Checks the basic settings of a document; the first refused value in document order is
/// reported.
pub fn validate_values(document: &IniDocument) -> (r: Result<(), ValueProblem>)
    ensures
        match r {
            Ok(_) => first_fault(entries_of(document@), 0) is None,
            Err(problem) => first_fault(entries_of(document@), 0) is Some && is_problem(
                problem,
                entries_of(document@)[first_fault(entries_of(document@), 0)->0],
            ),
        },
{
    let entries = values(document);
    let ghost all = entries_of(document@);
    let mut i: usize = 0;
    while i < entries.len()
        invariant
            i <= entries@.len(),
            entry_views(entries@) == all,
            all == entries_of(document@),
            first_fault(all, 0) == first_fault(all, i as int),
        decreases entries@.len() - i,
    {
        let entry = &entries[i];
        assert(all[i as int] == entry@);
        match check_value(entry.section.as_str(), entry.key.as_str(), entry.value.as_str()) {
            Some(fault) => {
                return Err(
                    ValueProblem {
                        section: entry.section.clone(),
                        key: entry.key.clone(),
                        fault,
                    },
                );
            },
            None => {},
        }
        i += 1;
    }
    Ok(())
}

/// A document passes exactly when none of its values is refused.
pub proof fn passing_means_no_fault(entries: Seq<EntryView>, from: int)
    requires
        0 <= from <= entries.len(),
    ensures
        first_fault(entries, from) is None <==> forall|i: int|
            from <= i < entries.len() ==> value_fault(
                (#[trigger] entries[i]).0,
                entries[i].1,
                entries[i].2,
            ) is None,
    decreases entries.len() - from,
{
    if from < entries.len() {
        passing_means_no_fault(entries, from + 1);
        let here = entries[from];
        if value_fault(here.0, here.1, here.2) is Some {
            assert(value_fault(entries[from].0, entries[from].1, entries[from].2) is Some);
        }
    }
}

/// Each basic setting is refused for a value of the wrong kind, with the fault of its kind. Settings
/// of other names and sections are not looked at.
#[verifier::rlimit(40)]
pub proof fn faults_of_the_basic_settings(section: Seq<char>, key: Seq<char>, value: Seq<char>)
    ensures
        value_fault(""@, "trayicon"@, value) == if bool_value(value) is None {
            Some(ValueFault::Boolean)
        } else {
            None
        },
        value_fault(""@, "auto_restart"@, value) == if bool_value(value) is None {
            Some(ValueFault::Boolean)
        } else {
            None
        },
        value_fault("switch-windows"@, "ignore_minimal"@, value) == if bool_value(value) is None {
            Some(ValueFault::Boolean)
        } else {
            None
        },
        value_fault("switch-apps"@, "ignore_minimal"@, value) == if bool_value(value) is None {
            Some(ValueFault::Boolean)
        } else {
            None
        },
        value_fault("switch-apps"@, "enable"@, value) == if bool_value(value) is None {
            Some(ValueFault::Boolean)
        } else {
            None
        },
        value_fault("switch-apps"@, "show_badge"@, value) == if bool_value(value) is None {
            Some(ValueFault::Boolean)
        } else {
            None
        },
        value_fault("switch-windows"@, "only_current_desktop"@, value) == if value != "auto"@ && bool_value(value) is None {
            Some(ValueFault::Automatic)
        } else {
            None
        },
        value_fault("switch-apps"@, "only_current_desktop"@, value) == if value != "auto"@ && bool_value(value) is None {
            Some(ValueFault::Automatic)
        } else {
            None
        },
        value_fault(""@, "restart_delay_ms"@, value) == if !in_range(value, 200, 10000) {
            Some(ValueFault::Range(200, 10000))
        } else {
            None
        },
        value_fault("switch-apps"@, "badge_max"@, value) == if !in_range(value, 2, 9999) {
            Some(ValueFault::Range(2, 9999))
        } else {
            None
        },
        value_fault("switch-apps"@, "badge_font_size"@, value) == if !in_range(value, 8, 24) {
            Some(ValueFault::Range(8, 24))
        } else {
            None
        },
        value_fault("switch-apps"@, "badge_color"@, value) == if color_value(value) is None {
            Some(ValueFault::Color)
        } else {
            None
        },
        value_fault("switch-apps"@, "badge_text_color"@, value) == if color_value(value) is None {
            Some(ValueFault::Color)
        } else {
            None
        },
        value_fault("switch-windows"@, "hotkey"@, value) == if trimmed(value).len() > 0 && !hotkeys_valid(value) {
            Some(ValueFault::Hotkey)
        } else {
            None
        },
        value_fault("switch-apps"@, "hotkey"@, value) == if trimmed(value).len() > 0 && !hotkeys_valid(value) {
            Some(ValueFault::Hotkey)
        } else {
            None
        },
        value_fault("log"@, "level"@, value) == if LogLevel::of(value) is None {
            Some(ValueFault::Level)
        } else {
            None
        },
        value_fault("switch-apps"@, "override_icons"@, value) == icons_fault(
            visible_parts(pieces(value, ',', ';')),
            0,
        ),
        section != ""@ && section != "switch-windows"@ && section != "switch-apps"@ && section != "log"@ ==> value_fault(section, key, value) is None,
        key != "trayicon"@ && key != "auto_restart"@ && key != "ignore_minimal"@ && key != "enable"@ && key != "show_badge"@ && key != "only_current_desktop"@ && key != "restart_delay_ms"@ && key != "badge_max"@ && key != "badge_font_size"@ && key != "badge_color"@ && key != "badge_text_color"@ && key != "hotkey"@ && key != "level"@ && key != "override_icons"@ ==> value_fault(section, key, value) is None,
{
    reveal_strlit("trayicon");
    reveal_strlit("auto_restart");
    reveal_strlit("ignore_minimal");
    reveal_strlit("enable");
    reveal_strlit("show_badge");
    reveal_strlit("only_current_desktop");
    reveal_strlit("restart_delay_ms");
    reveal_strlit("badge_max");
    reveal_strlit("badge_font_size");
    reveal_strlit("badge_color");
    reveal_strlit("badge_text_color");
    reveal_strlit("hotkey");
    reveal_strlit("level");
    reveal_strlit("override_icons");
    reveal_strlit("");
    reveal_strlit("switch-windows");
    reveal_strlit("switch-apps");
    reveal_strlit("log");
    assert("auto_restart"@.len() != "trayicon"@.len());
    assert("ignore_minimal"@.len() != "trayicon"@.len());
    assert("ignore_minimal"@.len() != "auto_restart"@.len());
    assert("enable"@.len() != "trayicon"@.len());
    assert("enable"@.len() != "auto_restart"@.len());
    assert("enable"@.len() != "ignore_minimal"@.len());
    assert("show_badge"@.len() != "trayicon"@.len());
    assert("show_badge"@.len() != "auto_restart"@.len());
    assert("show_badge"@.len() != "ignore_minimal"@.len());
    assert("show_badge"@.len() != "enable"@.len());
    assert("only_current_desktop"@.len() != "trayicon"@.len());
    assert("only_current_desktop"@.len() != "auto_restart"@.len());
    assert("only_current_desktop"@.len() != "ignore_minimal"@.len());
    assert("only_current_desktop"@.len() != "enable"@.len());
    assert("only_current_desktop"@.len() != "show_badge"@.len());
    assert("restart_delay_ms"@.len() != "trayicon"@.len());
    assert("restart_delay_ms"@.len() != "auto_restart"@.len());
    assert("restart_delay_ms"@.len() != "ignore_minimal"@.len());
    assert("restart_delay_ms"@.len() != "enable"@.len());
    assert("restart_delay_ms"@.len() != "show_badge"@.len());
    assert("restart_delay_ms"@.len() != "only_current_desktop"@.len());
    assert("badge_max"@.len() != "trayicon"@.len());
    assert("badge_max"@.len() != "auto_restart"@.len());
    assert("badge_max"@.len() != "ignore_minimal"@.len());
    assert("badge_max"@.len() != "enable"@.len());
    assert("badge_max"@.len() != "show_badge"@.len());
    assert("badge_max"@.len() != "only_current_desktop"@.len());
    assert("badge_max"@.len() != "restart_delay_ms"@.len());
    assert("badge_font_size"@.len() != "trayicon"@.len());
    assert("badge_font_size"@.len() != "auto_restart"@.len());
    assert("badge_font_size"@.len() != "ignore_minimal"@.len());
    assert("badge_font_size"@.len() != "enable"@.len());
    assert("badge_font_size"@.len() != "show_badge"@.len());
    assert("badge_font_size"@.len() != "only_current_desktop"@.len());
    assert("badge_font_size"@.len() != "restart_delay_ms"@.len());
    assert("badge_font_size"@.len() != "badge_max"@.len());
    assert("badge_color"@.len() != "trayicon"@.len());
    assert("badge_color"@.len() != "auto_restart"@.len());
    assert("badge_color"@.len() != "ignore_minimal"@.len());
    assert("badge_color"@.len() != "enable"@.len());
    assert("badge_color"@.len() != "show_badge"@.len());
    assert("badge_color"@.len() != "only_current_desktop"@.len());
    assert("badge_color"@.len() != "restart_delay_ms"@.len());
    assert("badge_color"@.len() != "badge_max"@.len());
    assert("badge_color"@.len() != "badge_font_size"@.len());
    assert("badge_text_color"@.len() != "trayicon"@.len());
    assert("badge_text_color"@.len() != "auto_restart"@.len());
    assert("badge_text_color"@.len() != "ignore_minimal"@.len());
    assert("badge_text_color"@.len() != "enable"@.len());
    assert("badge_text_color"@.len() != "show_badge"@.len());
    assert("badge_text_color"@.len() != "only_current_desktop"@.len());
    assert("badge_text_color"@[0] != "restart_delay_ms"@[0]);
    assert("badge_text_color"@.len() != "badge_max"@.len());
    assert("badge_text_color"@.len() != "badge_font_size"@.len());
    assert("badge_text_color"@.len() != "badge_color"@.len());
    assert("hotkey"@.len() != "trayicon"@.len());
    assert("hotkey"@.len() != "auto_restart"@.len());
    assert("hotkey"@.len() != "ignore_minimal"@.len());
    assert("hotkey"@[0] != "enable"@[0]);
    assert("hotkey"@.len() != "show_badge"@.len());
    assert("hotkey"@.len() != "only_current_desktop"@.len());
    assert("hotkey"@.len() != "restart_delay_ms"@.len());
    assert("hotkey"@.len() != "badge_max"@.len());
    assert("hotkey"@.len() != "badge_font_size"@.len());
    assert("hotkey"@.len() != "badge_color"@.len());
    assert("hotkey"@.len() != "badge_text_color"@.len());
    assert("level"@.len() != "trayicon"@.len());
    assert("level"@.len() != "auto_restart"@.len());
    assert("level"@.len() != "ignore_minimal"@.len());
    assert("level"@.len() != "enable"@.len());
    assert("level"@.len() != "show_badge"@.len());
    assert("level"@.len() != "only_current_desktop"@.len());
    assert("level"@.len() != "restart_delay_ms"@.len());
    assert("level"@.len() != "badge_max"@.len());
    assert("level"@.len() != "badge_font_size"@.len());
    assert("level"@.len() != "badge_color"@.len());
    assert("level"@.len() != "badge_text_color"@.len());
    assert("level"@.len() != "hotkey"@.len());
    assert("override_icons"@.len() != "trayicon"@.len());
    assert("override_icons"@.len() != "auto_restart"@.len());
    assert("override_icons"@[0] != "ignore_minimal"@[0]);
    assert("override_icons"@.len() != "enable"@.len());
    assert("override_icons"@.len() != "show_badge"@.len());
    assert("override_icons"@.len() != "only_current_desktop"@.len());
    assert("override_icons"@.len() != "restart_delay_ms"@.len());
    assert("override_icons"@.len() != "badge_max"@.len());
    assert("override_icons"@.len() != "badge_font_size"@.len());
    assert("override_icons"@.len() != "badge_color"@.len());
    assert("override_icons"@.len() != "badge_text_color"@.len());
    assert("override_icons"@.len() != "hotkey"@.len());
    assert("override_icons"@.len() != "level"@.len());
    assert("switch-windows"@.len() != ""@.len());
    assert("switch-apps"@.len() != ""@.len());
    assert("switch-apps"@.len() != "switch-windows"@.len());
    assert("log"@.len() != ""@.len());
    assert("log"@.len() != "switch-windows"@.len());
    assert("log"@.len() != "switch-apps"@.len());
}

/// A number is in a range where it is written in digits, with a plus sign or without, and is neither
/// below the one end nor above the other.
pub proof fn numbers_in_a_range(value: Seq<char>, minimum: u32, maximum: u32)
    ensures
        in_range(value, minimum, maximum) <==> {
            let digits = if value.len() > 0 && value[0] == '+' {
                value.drop_first()
            } else {
                value
            };
            is_number(digits) && minimum <= number_value(digits) && number_value(digits) <= maximum
        },
{
}

/// An icon entry needs an equals sign with something visible before the first and behind it.
pub proof fn faults_of_icon_entries(pattern: Seq<char>, path: Seq<char>, entry: Seq<char>)
    requires
        !has_char(pattern, '='),
        !has_char(entry, '='),
    ensures
        icon_fault(entry) == Some(ValueFault::IconForm),
        icon_fault(pattern + seq!['='] + path) == if trimmed(pattern).len() > 0 && trimmed(path).len()
            > 0 {
            None
        } else {
            Some(ValueFault::IconContent)
        },
{
    until_range(entry, '=', '=');
    let whole = pattern + seq!['='] + path;
    until_range(whole, '=', '=');
    let at = until(whole, '=', '=');
    assert(whole[pattern.len() as int] == '=');
    assert(at == pattern.len()) by {
        if at < pattern.len() {
            assert(whole[at] == pattern[at]);
        }
    }
    assert(whole.take(at) =~= pattern);
    assert(whole.skip(at + 1) =~= path);
}

/// Of several icon entries the fault of the first that has one is reported.
pub proof fn first_icon_entry_counts(entries: Seq<Seq<char>>, from: int)
    requires
        0 <= from,
    ensures
        match icons_fault(entries, from) {
            Some(fault) => exists|i: int|
                {
                    &&& from <= i < entries.len()
                    &&& icon_fault(#[trigger] entries[i]) == Some(fault)
                    &&& forall|k: int| from <= k < i ==> icon_fault(#[trigger] entries[k]) is None
                },
            None => forall|k: int|
                from <= k < entries.len() ==> icon_fault(#[trigger] entries[k]) is None,
        },
    decreases entries.len() - from,
{
    if from < entries.len() {
        first_icon_entry_counts(entries, from + 1);
        if icon_fault(entries[from]) is None && icons_fault(entries, from) is Some {
            let fault = icons_fault(entries, from)->0;
            let i = choose|i: int|
                {
                    &&& from + 1 <= i < entries.len()
                    &&& icon_fault(#[trigger] entries[i]) == Some(fault)
                    &&& forall|k: int| from + 1 <= k < i ==> icon_fault(#[trigger] entries[k]) is None
                };
            assert(icon_fault(entries[i]) == Some(fault));
        }
    }
}

/// The first refused value of a document is the one that is reported.
pub proof fn first_refused_value(entries: Seq<EntryView>, from: int, i: int)
    requires
        0 <= from <= i < entries.len(),
    ensures
        ({
            let refused = |k: int| value_fault(entries[k].0, entries[k].1, entries[k].2) is Some;
            &&& first_fault(entries, from) matches Some(at) ==> from <= at < entries.len() && refused(
                at,
            ) && (i < at ==> !refused(i))
            &&& refused(i) ==> first_fault(entries, from) is Some && first_fault(entries, from)->0 <= i
        }),
    decreases entries.len() - from,
{
    if value_fault(entries[from].0, entries[from].1, entries[from].2) is None {
        if from < i {
            first_refused_value(entries, from + 1, i);
        } else if from + 1 < entries.len() {
            first_refused_value(entries, from + 1, from + 1);
        }
    }
}

}
