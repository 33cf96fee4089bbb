//! Changing single settings in the text of a configuration file.

use vstd::prelude::*;

use crate::config::document::{
    continues, ini_error, ini_sections, key_place, open_quote, outline, parse_ini, scan_layout,
    unfinished_quote, without_line_end, IniSyntaxError, SectionView,
};
use crate::config::encoding::{
    decode, decoded, encode, encoded, encoding_round_trip, DecodeError, IniEncoding,
};
use crate::config::hotkey::Hotkey;
use crate::config::schema::{is_loaded, Config, ConfigError};
use crate::config::storage::loadable;
use crate::text::{
    all_white, chars_of, find_either, is_white, part, push_chars, string_of, trim, trim_start,
    trimmed, trimmed_start, trimming_takes_white_space_away, until, until_range,
};

verus! {

/// The line that begins at a place, without its end.
pub open spec fn line_at(text: Seq<char>, at: int) -> Seq<char> {
    let rest = text.skip(at);
    without_line_end(rest.take(until(rest, '\n', '\n')))
}

/// The text with another value for a key: the value in the line of the key's first assignment is
/// replaced, and nothing else. A value that is quoted over the line or continued on the next line
/// is not replaced.
pub open spec fn edited(
    text: Seq<char>,
    section: Seq<char>,
    key: Seq<char>,
    value: Seq<char>,
) -> Option<Seq<char>> {
    match key_place(outline(text).keys, section, key, 0) {
        None => None,
        Some(at) => {
            let line = line_at(text, at);
            let sign = until(line, '=', ':');
            let tail = line.skip(sign + 1);
            let current = trimmed(tail);
            if at < 0 || at > text.len() || sign >= line.len() || open_quote(
                trimmed_start(tail),
                None,
            ) is Some || continues(line) {
                None
            } else {
                let start = at + sign + 1 + (tail.len() - trimmed_start(tail).len());
                Some(text.take(start) + value + text.skip(start + current.len()))
            }
        },
    }
}

proof fn line_end_facts(s: Seq<char>)
    ensures
        without_line_end(s).len() <= s.len(),
        without_line_end(s) == s.take(without_line_end(s).len() as int),
    decreases s.len(),
{
    if s.len() > 0 && (s.last() == '\r' || s.last() == '\n') {
        line_end_facts(s.drop_last());
        let n = without_line_end(s).len() as int;
        assert(s.drop_last().take(n) =~= s.take(n));
    } else {
        assert(s.take(s.len() as int) =~= s);
    }
}

fn cut_line_end(s: &[char]) -> (r: Vec<char>)
    ensures
        r@ == without_line_end(s@),
{
    let mut end: usize = s.len();
    assert(s@.take(end as int) =~= s@);
    while end > 0 && (s[end - 1] == '\r' || s[end - 1] == '\n')
        invariant
            end <= s@.len(),
            without_line_end(s@) == without_line_end(s@.take(end as int)),
        decreases end,
    {
        assert(s@.take(end as int).drop_last() =~= s@.take(end - 1));
        end -= 1;
    }
    assert(s@.take(end as int) =~= s@.subrange(0, end as int));
    part(s, 0, end)
}

proof fn trimmed_start_is_suffix(s: Seq<char>)
    ensures
        trimmed_start(s).len() <= s.len(),
    decreases s.len(),
{
    if s.len() > 0 && crate::text::is_white(s[0]) {
        trimmed_start_is_suffix(s.drop_first());
    }
}

/// Replaces the value of a key in a text.
pub fn set_value(text: &str, section: &str, key: &str, value: &str) -> (r: Option<String>)
    ensures
        match r {
            Some(changed) => edited(text@, section@, key@, value@) == Some(changed@),
            None => edited(text@, section@, key@, value@) is None,
        },
{
    let chars = chars_of(text);
    let section = chars_of(section);
    let key = chars_of(key);
    let layout = scan_layout(chars.as_slice());
    let at: usize = match layout.key(section.as_slice(), key.as_slice()) {
        Some(at) => at,
        None => {
            return None;
        },
    };
    if at > chars.len() {
        return None;
    }
    let stop: usize = find_either(chars.as_slice(), at, '\n', '\n');
    let whole = part(chars.as_slice(), at, stop);
    let line = cut_line_end(whole.as_slice());
    proof {
        let rest = text@.skip(at as int);
        assert(whole@ =~= rest.take(stop - at));
        line_end_facts(whole@);
    }
    assert(line@ == line_at(text@, at as int));
    let sign: usize = find_either(line.as_slice(), 0, '=', ':');
    assert(line@.skip(0) =~= line@);
    if sign == line.len() {
        return None;
    }
    let tail = part(line.as_slice(), sign + 1, line.len());
    assert(tail@ =~= line@.skip(sign + 1));
    let visible = trim_start(tail.as_slice());
    let current = trim(tail.as_slice());
    if unfinished_quote(visible.as_slice(), None).is_some() || ends_in_backslash(line.as_slice()) {
        return None;
    }
    proof {
        trimmed_start_is_suffix(tail@);
        crate::text::trimmed_ends(tail@);
        trimmed_fits(tail@);
        line_end_facts(whole@);
    }
    let start: usize = at + sign + 1 + (tail.len() - visible.len());
    let mut changed = part(chars.as_slice(), 0, start);
    assert(changed@ =~= text@.take(start as int));
    let value = chars_of(value);
    push_chars(&mut changed, value.as_slice());
    let rest = part(chars.as_slice(), start + current.len(), chars.len());
    assert(rest@ =~= text@.skip(start + current@.len()));
    push_chars(&mut changed, rest.as_slice());
    Some(string_of(changed.as_slice()))
}

proof fn trimmed_fits(s: Seq<char>)
    ensures
        (s.len() - trimmed_start(s).len()) + trimmed(s).len() <= s.len(),
{
    trimmed_start_is_suffix(s);
    trimmed_end_is_prefix(trimmed_start(s));
}

proof fn trimmed_end_is_prefix(s: Seq<char>)
    ensures
        crate::text::trimmed_end(s).len() <= s.len(),
    decreases s.len(),
{
    if s.len() > 0 && crate::text::is_white(s.last()) {
        trimmed_end_is_prefix(s.drop_last());
    }
}

fn ends_in_backslash(line: &[char]) -> (r: bool)
    ensures
        r == continues(line@),
{
    let body = cut_line_end(line);
    body.len() > 0 && body[body.len() - 1] == '\\'
}

/// Why a setting is not saved.
#[derive(Debug, PartialEq, Eq)]
pub enum SaveError {
    /// The bytes are no text.
    Decode(DecodeError),
    /// The text, or the changed text, is no INI document.
    Syntax(IniSyntaxError),
    /// The settings, or the changed settings, are invalid.
    Config(ConfigError),
    /// The settings that go together with the saved one were changed by someone else since the file
    /// was taken over.
    Stale(SavedSetting),
    /// The setting has no assignment that can be changed.
    Unplaced,
}

/// The settings that are saved from the running program.
#[derive(Debug, Clone, Copy, PartialEq, Eq, Structural)]
pub enum SavedSetting {
    /// Whether the switcher starts with the session.
    StartupEnabled,
    /// Whether input handling is paused.
    InputPaused,
}

pub open spec fn same_optional_hotkey(a: Option<Hotkey>, b: Option<Hotkey>) -> bool {
    match (a, b) {
        (Some(x), Some(y)) => x.id == y.id && x.name@ == y.name@ && x.modifier@ == y.modifier@
            && x.code == y.code,
        (None, None) => true,
        _ => false,
    }
}

/// Whether the file's settings that go together with the saved one differ from the expected ones.
pub open spec fn stale(setting: SavedSetting, current: Config, expected: Config) -> bool {
    match setting {
        SavedSetting::StartupEnabled => {
            ||| current.startup_enabled != expected.startup_enabled
            ||| current.startup_run_level != expected.startup_run_level
            ||| current.startup_battery_policy != expected.startup_battery_policy
            ||| current.startup_command_timeout_ms != expected.startup_command_timeout_ms
        },
        SavedSetting::InputPaused => {
            ||| current.input_paused != expected.input_paused
            ||| !same_optional_hotkey(current.pause_hotkey, expected.pause_hotkey)
            ||| current.trayicon != expected.trayicon
        },
    }
}

/// The section of a saved setting.
pub open spec fn saved_section(setting: SavedSetting) -> Seq<char> {
    match setting {
        SavedSetting::StartupEnabled => "startup"@,
        SavedSetting::InputPaused => "input"@,
    }
}

/// The key of a saved setting.
pub open spec fn saved_key(setting: SavedSetting) -> Seq<char> {
    match setting {
        SavedSetting::StartupEnabled => "enabled"@,
        SavedSetting::InputPaused => "paused"@,
    }
}

/// The text of a truth value.
pub open spec fn bool_text(value: bool) -> Seq<char> {
    if value {
        "yes"@
    } else {
        "no"@
    }
}

/// The changed text of a file.
pub open spec fn changed_text(text: Seq<char>, setting: SavedSetting, value: bool) -> Option<
    Seq<char>,
> {
    edited(text, saved_section(setting), saved_key(setting), bool_text(value))
}

/// Whether the file's settings are the expected ones.
pub open spec fn up_to_date(d: Seq<SectionView>, setting: SavedSetting, expected: Config) -> bool {
    exists|config: Config| #[trigger]
        is_loaded(Ok(config), d) && !stale(setting, config, expected)
}

/// Whether the file's settings are other than the expected ones.
pub open spec fn outdated(d: Seq<SectionView>, setting: SavedSetting, expected: Config) -> bool {
    exists|config: Config| #[trigger]
        is_loaded(Ok(config), d) && stale(setting, config, expected)
}

/// Whether a result is that of saving a truth value: the bytes of the changed file, or the reason
/// why the file is left alone. Only a file with the expected settings is changed, and only into a
/// valid configuration.
pub open spec fn is_saved(
    r: Result<Vec<u8>, SaveError>,
    original: Seq<u8>,
    setting: SavedSetting,
    expected: Config,
    value: bool,
) -> bool {
    match decoded(original) {
        Err(error) => r matches Err(SaveError::Decode(e)) && e == error,
        Ok((text, encoding)) => match ini_sections(text) {
            None => r matches Err(SaveError::Syntax(error)) && error@ == ini_error(text),
            Some(d) => {
                let changed = changed_text(text, setting, value);
                match r {
                    Err(SaveError::Decode(_)) => false,
                    Err(SaveError::Config(error)) => {
                        ||| is_loaded(Err(error), d)
                        ||| up_to_date(d, setting, expected) && changed is Some && ini_sections(
                            changed->0,
                        ) is Some && is_loaded(Err(error), ini_sections(changed->0)->0)
                    },
                    Err(SaveError::Stale(s)) => s == setting && outdated(d, setting, expected),
                    Err(SaveError::Unplaced) => up_to_date(d, setting, expected) && changed is None,
                    Err(SaveError::Syntax(error)) => up_to_date(d, setting, expected) && changed
                        is Some && ini_sections(changed->0) is None && error@ == ini_error(
                        changed->0,
                    ),
                    Ok(bytes) => {
                        &&& up_to_date(d, setting, expected)
                        &&& changed is Some
                        &&& ini_sections(changed->0) is Some
                        &&& loadable(ini_sections(changed->0)->0)
                        &&& bytes@ == encoded(changed->0, encoding)
                    },
                }
            },
        },
    }
}

fn is_stale(setting: SavedSetting, current: &Config, expected: &Config) -> (r: bool)
    ensures
        r == stale(setting, *current, *expected),
{
    match setting {
        SavedSetting::StartupEnabled => {
            current.startup_enabled != expected.startup_enabled || current.startup_run_level
                != expected.startup_run_level || current.startup_battery_policy
                != expected.startup_battery_policy || current.startup_command_timeout_ms
                != expected.startup_command_timeout_ms
        },
        SavedSetting::InputPaused => {
            let same_hotkey = match (&current.pause_hotkey, &expected.pause_hotkey) {
                (Some(a), Some(b)) => a.same(b),
                (None, None) => true,
                _ => false,
            };
            current.input_paused != expected.input_paused || !same_hotkey || current.trayicon
                != expected.trayicon
        },
    }
}

/// Changes a truth value in the bytes of a file.
pub fn save_boolean(
    original: &[u8],
    setting: SavedSetting,
    expected: &Config,
    value: bool,
) -> (r: Result<Vec<u8>, SaveError>)
    ensures
        is_saved(r, original@, setting, *expected, value),
{
    let (text, encoding) = match decode(original) {
        Err(error) => {
            return Err(SaveError::Decode(error));
        },
        Ok(pair) => pair,
    };
    let document = match parse_ini(text.as_str()) {
        Err(error) => {
            return Err(SaveError::Syntax(error));
        },
        Ok(document) => document,
    };
    let current = match Config::load(&document) {
        Err(error) => {
            return Err(SaveError::Config(error));
        },
        Ok(config) => config,
    };
    assert(is_loaded(Ok(current), document@));
    if is_stale(setting, &current, expected) {
        assert(outdated(document@, setting, *expected));
        return Err(SaveError::Stale(setting));
    }
    assert(up_to_date(document@, setting, *expected));
    let yes = if value {
        "yes"
    } else {
        "no"
    };
    let changed = match setting {
        SavedSetting::StartupEnabled => set_value(text.as_str(), "startup", "enabled", yes),
        SavedSetting::InputPaused => set_value(text.as_str(), "input", "paused", yes),
    };
    let changed = match changed {
        None => {
            return Err(SaveError::Unplaced);
        },
        Some(changed) => changed,
    };
    let document = match parse_ini(changed.as_str()) {
        Err(error) => {
            return Err(SaveError::Syntax(error));
        },
        Ok(document) => document,
    };
    match Config::load(&document) {
        Err(error) => Err(SaveError::Config(error)),
        Ok(config) => {
            assert(is_loaded(Ok(config), document@));
            assert(loadable(document@));
            Ok(encode(changed.as_str(), encoding))
        },
    }
}

/// Changes whether the switcher starts with the session.
pub fn save_startup_enabled(original: &[u8], expected: &Config, enabled: bool) -> (r: Result<
    Vec<u8>,
    SaveError,
>)
    ensures
        is_saved(r, original@, SavedSetting::StartupEnabled, *expected, enabled),
{
    save_boolean(original, SavedSetting::StartupEnabled, expected, enabled)
}

/// Changes whether input handling is paused.
pub fn save_input_paused(original: &[u8], expected: &Config, paused: bool) -> (r: Result<
    Vec<u8>,
    SaveError,
>)
    ensures
        is_saved(r, original@, SavedSetting::InputPaused, *expected, paused),
{
    save_boolean(original, SavedSetting::InputPaused, expected, paused)
}

/// A changed text agrees with the text before and after the value.
pub proof fn editing_touches_one_value(
    text: Seq<char>,
    section: Seq<char>,
    key: Seq<char>,
    value: Seq<char>,
)
    requires
        edited(text, section, key, value) is Some,
    ensures
        exists|start: int, end: int|
            0 <= start <= end <= text.len() && #[trigger] text.take(start) + value
                + #[trigger] text.skip(end) == edited(text, section, key, value)->0,
{
    let at = key_place(outline(text).keys, section, key, 0)->0;
    let rest = text.skip(at);
    let line = line_at(text, at);
    let sign = until(line, '=', ':');
    let tail = line.skip(sign + 1);
    until_range(rest, '\n', '\n');
    until_range(line, '=', ':');
    line_end_facts(rest.take(until(rest, '\n', '\n')));
    trimmed_fits(tail);
    trimmed_start_is_suffix(tail);
    let start = at + sign + 1 + (tail.len() - trimmed_start(tail).len());
    let end = start + trimmed(tail).len();
    assert(text.take(start) + value + text.skip(end) == edited(text, section, key, value)->0);
}

/// A changed text has the new value in the line of the key's first assignment in place of the old
/// one. The key, the sign, the white space on both sides of the value and the end of the line stay.
pub proof fn new_value_stands_where_the_old_one_stood(
    text: Seq<char>,
    section: Seq<char>,
    key: Seq<char>,
    value: Seq<char>,
) -> (parts: (Seq<char>, Seq<char>, Seq<char>, Seq<char>))
    requires
        edited(text, section, key, value) is Some,
    ensures
        ({
            let at = key_place(outline(text).keys, section, key, 0)->0;
            let line = line_at(text, at);
            let (before, left, current, right) = parts;
            &&& line == before + left + current + right
            &&& before.len() > 0 && (before.last() == '=' || before.last() == ':')
            &&& forall|i: int|
                0 <= i < before.len() - 1 ==> #[trigger] before[i] != '=' && before[i] != ':'
            &&& all_white(left) && all_white(right)
            &&& current.len() > 0 ==> !is_white(current[0]) && !is_white(current.last())
            &&& edited(text, section, key, value)->0 == text.take(at) + before + left + value + right
                + text.skip(at + line.len())
        }),
{
    let at = key_place(outline(text).keys, section, key, 0)->0;
    let rest = text.skip(at);
    let line = line_at(text, at);
    let sign = until(line, '=', ':');
    let tail = line.skip(sign + 1);
    until_range(rest, '\n', '\n');
    until_range(line, '=', ':');
    line_end_facts(rest.take(until(rest, '\n', '\n')));
    let ends = trimming_takes_white_space_away(tail);
    let before = line.take(sign + 1);
    let current = trimmed(tail);
    let start = at + sign + 1 + (tail.len() - trimmed_start(tail).len());
    assert(ends.0.len() == tail.len() - trimmed_start(tail).len());
    assert(line =~= before + tail);
    assert(line =~= before + ends.0 + current + ends.1);
    assert forall|i: int| 0 <= i < before.len() - 1 implies #[trigger] before[i] != '='
        && before[i] != ':' by {
        assert(before[i] == line[i]);
    }
    assert(text.take(at) + line + text.skip(at + line.len()) =~= text);
    assert(text.take(start) =~= text.take(at) + before + ends.0);
    assert(text.skip(start + current.len()) =~= ends.1 + text.skip(at + line.len()));
    assert(text.take(start) + value + text.skip(start + current.len()) =~= text.take(at) + before
        + ends.0 + value + ends.1 + text.skip(at + line.len()));
    (before, ends.0, current, ends.1)
}

/// The line at a place goes up to its end: it holds no newline, and behind it stand only carriage
/// returns before the newline or the end of the text.
pub proof fn line_at_a_place(text: Seq<char>, at: int)
    requires
        0 <= at <= text.len(),
    ensures
        ({
            let line = line_at(text, at);
            &&& at + line.len() <= text.len()
            &&& text.subrange(at, at + line.len()) == line
            &&& forall|i: int| 0 <= i < line.len() ==> #[trigger] line[i] != '\n'
            &&& line.len() > 0 ==> line.last() != '\r'
            &&& at + line.len() < text.len() ==> text[at + line.len()] == '\n' || text[at
                + line.len()] == '\r'
        }),
{
    let rest = text.skip(at);
    let whole = rest.take(until(rest, '\n', '\n'));
    let line = line_at(text, at);
    until_range(rest, '\n', '\n');
    line_end_facts(whole);
    line_end_is_gone(whole);
    assert(text.subrange(at, at + line.len()) =~= line);
    assert forall|i: int| 0 <= i < line.len() implies #[trigger] line[i] != '\n' by {
        assert(line[i] == rest[i]);
    }
    if at + line.len() < text.len() {
        assert(text[at + line.len()] == rest[line.len() as int]);
        if line.len() < whole.len() {
            assert(whole[line.len() as int] == rest[line.len() as int]);
        }
    }
}

proof fn line_end_is_gone(s: Seq<char>)
    ensures
        without_line_end(s).len() > 0 ==> without_line_end(s).last() != '\r' && without_line_end(
            s,
        ).last() != '\n',
        without_line_end(s).len() < s.len() ==> s[without_line_end(s).len() as int] == '\r'
            || s[without_line_end(s).len() as int] == '\n',
    decreases s.len(),
{
    if s.len() > 0 && (s.last() == '\r' || s.last() == '\n') {
        line_end_is_gone(s.drop_last());
        line_end_facts(s.drop_last());
    }
}

/// A key is not changed where it has no assignment, and where its value is quoted over the end of
/// the line or goes on in the next one.
pub proof fn values_that_are_not_changed(
    text: Seq<char>,
    section: Seq<char>,
    key: Seq<char>,
    value: Seq<char>,
)
    ensures
        key_place(outline(text).keys, section, key, 0) is None ==> edited(text, section, key, value)
            is None,
        key_place(outline(text).keys, section, key, 0) matches Some(at) ==> continues(
            line_at(text, at),
        ) ==> edited(text, section, key, value) is None,
        forall|other: Seq<char>|
            (#[trigger] edited(text, section, key, other) is Some) == (edited(
                text,
                section,
                key,
                value,
            ) is Some),
{
}

/// Saving goes to `enabled` in `[startup]` and to `paused` in `[input]`, and writes `yes` or `no`.
pub proof fn saved_settings_have_their_names()
    ensures
        saved_section(SavedSetting::StartupEnabled) == seq!['s', 't', 'a', 'r', 't', 'u', 'p'],
        saved_key(SavedSetting::StartupEnabled) == seq!['e', 'n', 'a', 'b', 'l', 'e', 'd'],
        saved_section(SavedSetting::InputPaused) == seq!['i', 'n', 'p', 'u', 't'],
        saved_key(SavedSetting::InputPaused) == seq!['p', 'a', 'u', 's', 'e', 'd'],
        bool_text(true) == seq!['y', 'e', 's'],
        bool_text(false) == seq!['n', 'o'],
{
    reveal_strlit("startup");
    reveal_strlit("enabled");
    reveal_strlit("input");
    reveal_strlit("paused");
    reveal_strlit("yes");
    reveal_strlit("no");
    assert("startup"@ =~= seq!['s', 't', 'a', 'r', 't', 'u', 'p']);
    assert("enabled"@ =~= seq!['e', 'n', 'a', 'b', 'l', 'e', 'd']);
    assert("input"@ =~= seq!['i', 'n', 'p', 'u', 't']);
    assert("paused"@ =~= seq!['p', 'a', 'u', 's', 'e', 'd']);
    assert("yes"@ =~= seq!['y', 'e', 's']);
    assert("no"@ =~= seq!['n', 'o']);
}

/// A file is stale for the start with the session where one of the four settings of the start
/// differs, and for the pause where the pause, its binding or the tray icon does. Nothing else
/// makes it stale, and a configuration is not stale against itself.
pub proof fn stale_files(current: Config, expected: Config)
    ensures
        !stale(SavedSetting::StartupEnabled, current, current),
        !stale(SavedSetting::InputPaused, current, current),
        stale(SavedSetting::StartupEnabled, current, expected) == stale(
            SavedSetting::StartupEnabled,
            expected,
            current,
        ),
        !stale(SavedSetting::StartupEnabled, current, expected) <==> {
            &&& current.startup_enabled == expected.startup_enabled
            &&& current.startup_run_level == expected.startup_run_level
            &&& current.startup_battery_policy == expected.startup_battery_policy
            &&& current.startup_command_timeout_ms == expected.startup_command_timeout_ms
        },
        !stale(SavedSetting::InputPaused, current, expected) <==> {
            &&& current.input_paused == expected.input_paused
            &&& current.trayicon == expected.trayicon
            &&& current.pause_hotkey is Some <==> expected.pause_hotkey is Some
            &&& current.pause_hotkey is Some ==> {
                let a = current.pause_hotkey->0;
                let b = expected.pause_hotkey->0;
                a.id == b.id && a.name@ == b.name@ && a.modifier@ == b.modifier@ && a.code == b.code
            }
        },
{
}

/// A saved file holds the changed text in the encoding that it had. It is the file of a valid
/// configuration whose settings were the expected ones.
pub proof fn saved_files(
    r: Result<Vec<u8>, SaveError>,
    original: Seq<u8>,
    setting: SavedSetting,
    expected: Config,
    value: bool,
    text: Seq<char>,
    encoding: IniEncoding,
)
    requires
        is_saved(r, original, setting, expected, value),
        decoded(original) == Ok::<_, DecodeError>((text, encoding)),
        r is Ok,
    ensures
        ({
            let changed = edited(text, saved_section(setting), saved_key(setting), bool_text(value));
            &&& changed is Some
            &&& encoding == IniEncoding::Utf8 && changed->0.len() > 0 && changed->0[0] == '\u{feff}'
                || decoded(r->Ok_0@) == Ok::<_, DecodeError>((changed->0, encoding))
            &&& exists|config: Config| #[trigger] is_loaded(Ok(config), ini_sections(text)->0)
                && !stale(setting, config, expected)
            &&& exists|config: Config| #[trigger] is_loaded(Ok(config), ini_sections(changed->0)->0)
        }),
{
    let changed = edited(text, saved_section(setting), saved_key(setting), bool_text(value));
    if !(encoding == IniEncoding::Utf8 && changed->0.len() > 0 && changed->0[0] == '\u{feff}') {
        encoding_round_trip(changed->0, encoding);
    }
}

/// A file is not saved for what is wrong with it as it stands: bytes that are no text, a text that is
/// no document, settings that are refused, and settings that are not the expected ones. Only a
/// file without such a fault is changed; then it is not saved where the value cannot be placed, or
/// where the changed text is refused in its turn.
pub proof fn files_that_are_not_saved(
    r: Result<Vec<u8>, SaveError>,
    original: Seq<u8>,
    setting: SavedSetting,
    expected: Config,
    value: bool,
)
    requires
        is_saved(r, original, setting, expected, value),
    ensures
        decoded(original) matches Err(e) ==> r == Err::<Vec<u8>, _>(SaveError::Decode(e)),
        r matches Err(SaveError::Decode(e)) ==> decoded(original) == Err::<
            (Seq<char>, IniEncoding),
            _,
        >(e),
        decoded(original) matches Ok((text, encoding)) ==> {
            let changed = edited(text, saved_section(setting), saved_key(setting), bool_text(value));
            let expects = exists|config: Config| #[trigger]
                is_loaded(Ok(config), ini_sections(text)->0) && !stale(setting, config, expected);
            &&& ini_sections(text) is None ==> r is Err && r->Err_0 is Syntax
            &&& r matches Err(SaveError::Stale(which)) ==> which == setting && exists|config: Config|
                #[trigger] is_loaded(Ok(config), ini_sections(text)->0) && stale(
                    setting,
                    config,
                    expected,
                )
            &&& r matches Err(SaveError::Unplaced) ==> changed is None && expects
            &&& r matches Err(SaveError::Syntax(e)) ==> (ini_sections(text) is None && e@ == ini_error(
                text,
            )) || (expects && changed is Some && ini_sections(changed->0) is None && e@ == ini_error(
                changed->0,
            ))
            &&& r matches Err(SaveError::Config(e)) ==> ini_sections(text) is Some && (is_loaded(
                Err(e),
                ini_sections(text)->0,
            ) || (expects && changed is Some && ini_sections(changed->0) is Some && is_loaded(
                Err(e),
                ini_sections(changed->0)->0,
            )))
            &&& r is Ok ==> expects && changed is Some
        },
{
}

}
