//! One declaration owns each setting's typed field, its default and its parser.

use vstd::prelude::*;

use crate::config::bindings::{bindings_problem, BindingProblem};
use crate::config::document::{
    entries_of, entry_views, lookup, values, values_of, Entry, EntryView, IniDocument, SectionView,
};
use crate::config::hotkey::{
    are_hotkeys, hotkeys_valid, is_hotkey, parse_hotkeys, parsed, Hotkey, DETAILS_HOTKEY_ID,
    PAUSE_HOTKEY_ID, SEARCH_HOTKEY_ID, SWITCH_APPS_HOTKEY_ID, SWITCH_WINDOWS_HOTKEY_ID,
};
use crate::config::overrides::{overrides, overrides_value, text_entries, text_map};
use crate::config::parsers::{
    auto_bool_value, auto_color_value, auto_int_value, automatic_bool, automatic_color,
    automatic_integer, blacklist, bool_value, boolean, color, color_value, directory,
    directory_value, distinct, family_value, file_value, font_family, font_file, font_weight,
    hotkeys, int_value, integer, list_items, list_valid, optional_view, radius, string_list,
    weight_value, MAX_NAME_UNITS, MAX_TITLE_UNITS,
};
use crate::config::search::{fields_valid, names_field, SearchField, SearchFields};
use crate::config::types::{
    AppNameMode, BadgeShape, BatteryPolicy, ForegroundPolicy, InjectedPolicy, Language, LogLevel,
    MonitorPolicy, RenderScale, RunLevel, SearchMatch, StartupEnabled, SwitchOrder, Theme,
    WatchMode,
};
use crate::layout::{LayoutError, LayoutOptions};
use crate::text::{chars_of, is_text, strings, trim, trimmed};

verus! {

// ---------------------------------------------------------------------------
// The value of a setting

/// The text that decides a setting: the first value in the first section of the name, else the
/// last value of the key anywhere; none where the key has no value.
#[verifier::opaque]
pub open spec fn effective(d: Seq<SectionView>, section: Seq<char>, key: Seq<char>) -> Option<
    Seq<char>,
> {
    let name = if section.len() == 0 {
        None
    } else {
        Some(section)
    };
    match lookup(d, name, key, 0) {
        Some(text) => Some(text),
        None => {
            let all = values_of(entries_of(d), section, key);
            if all.len() == 0 {
                None
            } else {
                Some(all.last())
            }
        },
    }
}

/// A parsed value, or the default.
pub open spec fn chosen<T>(value: Option<T>, default: T) -> T {
    match value {
        Some(value) => value,
        None => default,
    }
}

#[verifier::opaque]
pub open spec fn bool_setting(
    d: Seq<SectionView>,
    section: Seq<char>,
    key: Seq<char>,
    default: bool,
) -> bool {
    match effective(d, section, key) {
        Some(text) => chosen(bool_value(text), default),
        None => default,
    }
}

#[verifier::opaque]
pub open spec fn auto_bool_setting(
    d: Seq<SectionView>,
    section: Seq<char>,
    key: Seq<char>,
) -> Option<bool> {
    match effective(d, section, key) {
        Some(text) => chosen(auto_bool_value(text), None),
        None => None,
    }
}

#[verifier::opaque]
pub open spec fn int_setting(
    d: Seq<SectionView>,
    section: Seq<char>,
    key: Seq<char>,
    minimum: u32,
    maximum: u32,
    default: u32,
) -> u32 {
    match effective(d, section, key) {
        Some(text) => chosen(int_value(text, minimum, maximum), default),
        None => default,
    }
}

#[verifier::opaque]
pub open spec fn auto_int_setting(
    d: Seq<SectionView>,
    section: Seq<char>,
    key: Seq<char>,
    minimum: u32,
    maximum: u32,
) -> Option<u32> {
    match effective(d, section, key) {
        Some(text) => chosen(auto_int_value(text, minimum, maximum), None),
        None => None,
    }
}

#[verifier::opaque]
pub open spec fn color_setting(
    d: Seq<SectionView>,
    section: Seq<char>,
    key: Seq<char>,
    default: u32,
) -> u32 {
    match effective(d, section, key) {
        Some(text) => chosen(color_value(text), default),
        None => default,
    }
}

#[verifier::opaque]
pub open spec fn auto_color_setting(
    d: Seq<SectionView>,
    section: Seq<char>,
    key: Seq<char>,
) -> Option<u32> {
    match effective(d, section, key) {
        Some(text) => chosen(auto_color_value(text), None),
        None => None,
    }
}

#[verifier::opaque]
pub open spec fn weight_setting(
    d: Seq<SectionView>,
    section: Seq<char>,
    key: Seq<char>,
    default: u32,
) -> u32 {
    match effective(d, section, key) {
        Some(text) => chosen(weight_value(text), default),
        None => default,
    }
}

#[verifier::opaque]
pub open spec fn family_setting(
    d: Seq<SectionView>,
    section: Seq<char>,
    key: Seq<char>,
    default: Seq<char>,
) -> Seq<char> {
    match effective(d, section, key) {
        Some(text) => chosen(family_value(text), default),
        None => default,
    }
}

#[verifier::opaque]
pub open spec fn file_setting(
    d: Seq<SectionView>,
    section: Seq<char>,
    key: Seq<char>,
) -> Option<Seq<char>> {
    match effective(d, section, key) {
        Some(text) => chosen(file_value(text), None),
        None => None,
    }
}

#[verifier::opaque]
pub open spec fn directory_setting(
    d: Seq<SectionView>,
    section: Seq<char>,
    key: Seq<char>,
) -> Option<Seq<char>> {
    match effective(d, section, key) {
        Some(text) => chosen(directory_value(text), None),
        None => None,
    }
}

#[verifier::opaque]
pub open spec fn level_setting(
    d: Seq<SectionView>,
    section: Seq<char>,
    key: Seq<char>,
    default: LogLevel,
) -> LogLevel {
    match effective(d, section, key) {
        Some(text) => chosen(LogLevel::of(text), default),
        None => default,
    }
}

#[verifier::opaque]
pub open spec fn list_setting(
    d: Seq<SectionView>,
    section: Seq<char>,
    key: Seq<char>,
    limit: u64,
    default: Seq<Seq<char>>,
) -> Seq<Seq<char>> {
    match effective(d, section, key) {
        Some(text) => if list_valid(text, limit) {
            distinct(list_items(text))
        } else {
            default
        },
        None => default,
    }
}

#[verifier::opaque]
pub open spec fn overrides_setting(
    d: Seq<SectionView>,
    section: Seq<char>,
    key: Seq<char>,
) -> Seq<(Seq<char>, Seq<char>)> {
    match effective(d, section, key) {
        Some(text) => match overrides_value(text) {
            Ok(map) => map,
            Err(_) => seq![],
        },
        None => seq![],
    }
}

/// The default search fields: the application and the title.
pub open spec fn are_default_fields(fields: SearchFields) -> bool {
    &&& fields.has(SearchField::App)
    &&& fields.has(SearchField::Title)
    &&& !fields.has(SearchField::Exe)
}

#[verifier::opaque]
pub open spec fn fields_setting(
    fields: SearchFields,
    d: Seq<SectionView>,
    section: Seq<char>,
    key: Seq<char>,
) -> bool {
    match effective(d, section, key) {
        Some(text) => if fields_valid(text) {
            forall|field: SearchField| #[trigger] fields.has(field) == names_field(text, field)
        } else {
            are_default_fields(fields)
        },
        None => are_default_fields(fields),
    }
}

/// Whether a binding is the given default: its left and right modifier and its key.
pub open spec fn is_default_binding(
    hotkey: Hotkey,
    id: u32,
    name: Seq<char>,
    keys: (u32, u32, u32),
) -> bool {
    &&& hotkey.id == id
    &&& hotkey.name@ == name
    &&& hotkey.modifier@ == seq![keys.0, keys.1]
    &&& hotkey.code == keys.2
}

/// Whether the bindings are the given default alone.
pub open spec fn are_default_bindings(
    hotkeys: Seq<Hotkey>,
    id: u32,
    name: Seq<char>,
    keys: (u32, u32, u32),
) -> bool {
    hotkeys.len() == 1 && is_default_binding(hotkeys[0], id, name, keys)
}

#[verifier::opaque]
pub open spec fn hotkeys_setting(
    hotkeys: Seq<Hotkey>,
    d: Seq<SectionView>,
    section: Seq<char>,
    key: Seq<char>,
    id: u32,
    name: Seq<char>,
    keys: (u32, u32, u32),
) -> bool {
    match effective(d, section, key) {
        Some(text) => if trimmed(text).len() > 0 && hotkeys_valid(text) {
            are_hotkeys(hotkeys, id, name, text)
        } else {
            are_default_bindings(hotkeys, id, name, keys)
        },
        None => are_default_bindings(hotkeys, id, name, keys),
    }
}

#[verifier::opaque]
pub open spec fn hotkey_setting(
    hotkey: Hotkey,
    d: Seq<SectionView>,
    section: Seq<char>,
    key: Seq<char>,
    id: u32,
    name: Seq<char>,
    keys: (u32, u32, u32),
) -> bool {
    match effective(d, section, key) {
        Some(text) => if parsed(text) is Some {
            is_hotkey(hotkey, id, name, text)
        } else {
            is_default_binding(hotkey, id, name, keys)
        },
        None => is_default_binding(hotkey, id, name, keys),
    }
}

#[verifier::opaque]
pub open spec fn optional_hotkey_setting(
    hotkey: Option<Hotkey>,
    d: Seq<SectionView>,
    section: Seq<char>,
    key: Seq<char>,
    id: u32,
    name: Seq<char>,
) -> bool {
    match effective(d, section, key) {
        Some(text) => if trimmed(text).len() > 0 && parsed(text) is Some {
            hotkey is Some && is_hotkey(hotkey->0, id, name, text)
        } else {
            hotkey is None
        },
        None => hotkey is None,
    }
}

fn blank_text(text: &str) -> (r: bool)
    ensures
        r == (trimmed(text@).len() == 0),
{
    let chars = chars_of(text);
    let visible = trim(chars.as_slice());
    visible.len() == 0
}

fn single(text: &str) -> (r: Vec<String>)
    ensures
        strings(r@) == seq![text@],
{
    let mut r: Vec<String> = Vec::new();
    r.push(text.to_owned());
    assert(strings(r@) =~= seq![text@]);
    r
}

fn default_binding(id: u32, name: &str, keys: (u32, u32, u32)) -> (r: Hotkey)
    ensures
        is_default_binding(r, id, name@, keys),
{
    let r = Hotkey { id, name: name.to_owned(), modifier: [keys.0, keys.1], code: keys.2 };
    assert(r.modifier@ =~= seq![keys.0, keys.1]);
    r
}

fn default_bindings(id: u32, name: &str, keys: (u32, u32, u32)) -> (r: Vec<Hotkey>)
    ensures
        are_default_bindings(r@, id, name@, keys),
{
    let mut r: Vec<Hotkey> = Vec::new();
    r.push(default_binding(id, name, keys));
    r
}

/// Reads the settings of a document.
struct Reader<'a> {
    document: &'a IniDocument,
    entries: &'a Vec<Entry>,
}

impl<'a> View for Reader<'a> {
    type V = Seq<SectionView>;

    closed spec fn view(&self) -> Seq<SectionView> {
        self.document@
    }
}

impl<'a> Reader<'a> {
    spec fn valid(&self) -> bool {
        entry_views(self.entries@) == entries_of(self.document@)
    }

    fn effective(&self, section: &str, key: &str) -> (r: Option<String>)
        requires
            self.valid(),
        ensures
            optional_view(r) == effective(self@, section@, key@),
    {
        proof {
            reveal(effective);
        }
        let name = if section.is_empty() {
            None
        } else {
            Some(section)
        };
        if let Some(text) = self.document.get_from(name, key) {
            return Some(text);
        }
        crate::config::document::last_value(self.entries, section, key)
    }

    fn read_bool(&self, section: &str, key: &str, default: bool) -> (r: bool)
        requires
            self.valid(),
        ensures
            r == bool_setting(self@, section@, key@, default),
    {
        proof {
            reveal(bool_setting);
        }
        match self.effective(section, key) {
            Some(text) => match boolean(text.as_str()) {
                Some(value) => value,
                None => default,
            },
            None => default,
        }
    }

    fn read_auto_bool(&self, section: &str, key: &str) -> (r: Option<bool>)
        requires
            self.valid(),
        ensures
            r == auto_bool_setting(self@, section@, key@),
    {
        proof {
            reveal(auto_bool_setting);
        }
        match self.effective(section, key) {
            Some(text) => match automatic_bool(text.as_str()) {
                Some(value) => value,
                None => None,
            },
            None => None,
        }
    }

    fn read_int(&self, section: &str, key: &str, minimum: u32, maximum: u32, default: u32) -> (r: u32)
        requires
            self.valid(),
        ensures
            r == int_setting(self@, section@, key@, minimum, maximum, default),
    {
        proof {
            reveal(int_setting);
        }
        match self.effective(section, key) {
            Some(text) => match integer(text.as_str(), minimum, maximum) {
                Some(value) => value,
                None => default,
            },
            None => default,
        }
    }

    fn read_auto_int(&self, section: &str, key: &str, minimum: u32, maximum: u32) -> (r: Option<u32>)
        requires
            self.valid(),
        ensures
            r == auto_int_setting(self@, section@, key@, minimum, maximum),
    {
        proof {
            reveal(auto_int_setting);
        }
        match self.effective(section, key) {
            Some(text) => match automatic_integer(text.as_str(), minimum, maximum) {
                Some(value) => value,
                None => None,
            },
            None => None,
        }
    }

    fn read_color(&self, section: &str, key: &str, default: u32) -> (r: u32)
        requires
            self.valid(),
        ensures
            r == color_setting(self@, section@, key@, default),
    {
        proof {
            reveal(color_setting);
        }
        match self.effective(section, key) {
            Some(text) => match color(text.as_str()) {
                Some(value) => value,
                None => default,
            },
            None => default,
        }
    }

    fn read_auto_color(&self, section: &str, key: &str) -> (r: Option<u32>)
        requires
            self.valid(),
        ensures
            r == auto_color_setting(self@, section@, key@),
    {
        proof {
            reveal(auto_color_setting);
        }
        match self.effective(section, key) {
            Some(text) => match automatic_color(text.as_str()) {
                Some(value) => value,
                None => None,
            },
            None => None,
        }
    }

    fn read_weight(&self, section: &str, key: &str, default: u32) -> (r: u32)
        requires
            self.valid(),
        ensures
            r == weight_setting(self@, section@, key@, default),
    {
        proof {
            reveal(weight_setting);
        }
        match self.effective(section, key) {
            Some(text) => match font_weight(text.as_str()) {
                Some(value) => value,
                None => default,
            },
            None => default,
        }
    }

    fn read_level(&self, section: &str, key: &str, default: LogLevel) -> (r: LogLevel)
        requires
            self.valid(),
        ensures
            r == level_setting(self@, section@, key@, default),
    {
        proof {
            reveal(level_setting);
        }
        match self.effective(section, key) {
            Some(text) => match LogLevel::parse(text.as_str()) {
                Some(value) => value,
                None => default,
            },
            None => default,
        }
    }

    fn read_family(&self, section: &str, key: &str, default: &str) -> (r: String)
        requires
            self.valid(),
        ensures
            r@ == family_setting(self@, section@, key@, default@),
    {
        proof {
            reveal(family_setting);
        }
        match self.effective(section, key) {
            Some(text) => match font_family(text.as_str()) {
                Some(value) => value,
                None => default.to_owned(),
            },
            None => default.to_owned(),
        }
    }

    fn read_file(&self, section: &str, key: &str) -> (r: Option<String>)
        requires
            self.valid(),
        ensures
            optional_view(r) == file_setting(self@, section@, key@),
    {
        proof {
            reveal(file_setting);
        }
        match self.effective(section, key) {
            Some(text) => match font_file(text.as_str()) {
                Some(value) => value,
                None => None,
            },
            None => None,
        }
    }

    fn read_directory(&self, section: &str, key: &str) -> (r: Option<String>)
        requires
            self.valid(),
        ensures
            optional_view(r) == directory_setting(self@, section@, key@),
    {
        proof {
            reveal(directory_setting);
        }
        match self.effective(section, key) {
            Some(text) => match directory(text.as_str()) {
                Some(value) => value,
                None => None,
            },
            None => None,
        }
    }

    fn read_list(&self, section: &str, key: &str, limit: u64, default: Vec<String>) -> (r: Vec<
        String,
    >)
        requires
            self.valid(),
        ensures
            strings(r@) == list_setting(self@, section@, key@, limit, strings(default@)),
    {
        proof {
            reveal(list_setting);
        }
        match self.effective(section, key) {
            Some(text) => match string_list(text.as_str(), limit) {
                Some(value) => value,
                None => default,
            },
            None => default,
        }
    }

    fn read_overrides(&self, section: &str, key: &str) -> (r: indexmap::IndexMap<String, String>)
        requires
            self.valid(),
        ensures
            text_entries(r) == overrides_setting(self@, section@, key@),
    {
        proof {
            reveal(overrides_setting);
        }
        match self.effective(section, key) {
            Some(text) => match overrides(text.as_str()) {
                Ok(value) => value,
                Err(_) => text_map(),
            },
            None => text_map(),
        }
    }

    fn read_fields(&self, section: &str, key: &str) -> (r: SearchFields)
        requires
            self.valid(),
        ensures
            fields_setting(r, self@, section@, key@),
    {
        proof {
            reveal(fields_setting);
        }
        match self.effective(section, key) {
            Some(text) => match SearchFields::parse(text.as_str()) {
                Some(value) => value,
                None => SearchFields::of(true, true, false),
            },
            None => SearchFields::of(true, true, false),
        }
    }

    fn read_hotkeys(
        &self,
        section: &str,
        key: &str,
        id: u32,
        name: &str,
        keys: (u32, u32, u32),
    ) -> (r: Vec<Hotkey>)
        requires
            self.valid(),
        ensures
            hotkeys_setting(r@, self@, section@, key@, id, name@, keys),
    {
        proof {
            reveal(hotkeys_setting);
        }
        match self.effective(section, key) {
            Some(text) => {
                if blank_text(text.as_str()) {
                    return default_bindings(id, name, keys);
                }
                match parse_hotkeys(id, name, text.as_str()) {
                    Ok(list) => list,
                    Err(_) => default_bindings(id, name, keys),
                }
            },
            None => default_bindings(id, name, keys),
        }
    }

    fn read_hotkey(
        &self,
        section: &str,
        key: &str,
        id: u32,
        name: &str,
        keys: (u32, u32, u32),
    ) -> (r: Hotkey)
        requires
            self.valid(),
        ensures
            hotkey_setting(r, self@, section@, key@, id, name@, keys),
    {
        proof {
            reveal(hotkey_setting);
        }
        match self.effective(section, key) {
            Some(text) => match Hotkey::create(id, name, text.as_str()) {
                Ok(hotkey) => hotkey,
                Err(_) => default_binding(id, name, keys),
            },
            None => default_binding(id, name, keys),
        }
    }

    fn read_optional_hotkey(&self, section: &str, key: &str, id: u32, name: &str) -> (r: Option<
        Hotkey,
    >)
        requires
            self.valid(),
        ensures
            optional_hotkey_setting(r, self@, section@, key@, id, name@),
    {
        proof {
            reveal(optional_hotkey_setting);
        }
        match self.effective(section, key) {
            Some(text) => {
                if blank_text(text.as_str()) {
                    return None;
                }
                match Hotkey::create(id, name, text.as_str()) {
                    Ok(hotkey) => Some(hotkey),
                    Err(_) => None,
                }
            },
            None => None,
        }
    }
}

// ---------------------------------------------------------------------------
// Invalid values

/// Whether a text is not a truth value.
#[verifier::opaque]
pub open spec fn invalid_bool(value: Seq<char>) -> bool {
    bool_value(value) is None
}

fn not_bool(value: &str) -> (r: bool)
    ensures
        r == invalid_bool(value@),
{
    proof {
        reveal(invalid_bool);
    }
    boolean(value).is_none()
}

/// Whether a text is not a truth value or `auto`.
#[verifier::opaque]
pub open spec fn invalid_auto_bool(value: Seq<char>) -> bool {
    auto_bool_value(value) is None
}

fn not_auto_bool(value: &str) -> (r: bool)
    ensures
        r == invalid_auto_bool(value@),
{
    proof {
        reveal(invalid_auto_bool);
    }
    automatic_bool(value).is_none()
}

/// Whether a text is not an integer of the range.
#[verifier::opaque]
pub open spec fn invalid_int(value: Seq<char>, minimum: u32, maximum: u32) -> bool {
    int_value(value, minimum, maximum) is None
}

fn not_int(value: &str, minimum: u32, maximum: u32) -> (r: bool)
    ensures
        r == invalid_int(value@, minimum, maximum),
{
    proof {
        reveal(invalid_int);
    }
    integer(value, minimum, maximum).is_none()
}

/// Whether a text is not an integer of the range or `auto`.
#[verifier::opaque]
pub open spec fn invalid_auto_int(value: Seq<char>, minimum: u32, maximum: u32) -> bool {
    auto_int_value(value, minimum, maximum) is None
}

fn not_auto_int(value: &str, minimum: u32, maximum: u32) -> (r: bool)
    ensures
        r == invalid_auto_int(value@, minimum, maximum),
{
    proof {
        reveal(invalid_auto_int);
    }
    automatic_integer(value, minimum, maximum).is_none()
}

fn not_radius(value: &str, maximum: u32) -> (r: bool)
    ensures
        r == invalid_auto_int(value@, 0, maximum),
{
    proof {
        reveal(invalid_auto_int);
    }
    radius(value, maximum).is_none()
}

/// Whether a text is not a colour.
#[verifier::opaque]
pub open spec fn invalid_color(value: Seq<char>) -> bool {
    color_value(value) is None
}

fn not_color(value: &str) -> (r: bool)
    ensures
        r == invalid_color(value@),
{
    proof {
        reveal(invalid_color);
    }
    color(value).is_none()
}

/// Whether a text is not a colour or `auto`.
#[verifier::opaque]
pub open spec fn invalid_auto_color(value: Seq<char>) -> bool {
    auto_color_value(value) is None
}

fn not_auto_color(value: &str) -> (r: bool)
    ensures
        r == invalid_auto_color(value@),
{
    proof {
        reveal(invalid_auto_color);
    }
    automatic_color(value).is_none()
}

/// Whether a text is not a font weight.
#[verifier::opaque]
pub open spec fn invalid_weight(value: Seq<char>) -> bool {
    weight_value(value) is None
}

fn not_weight(value: &str) -> (r: bool)
    ensures
        r == invalid_weight(value@),
{
    proof {
        reveal(invalid_weight);
    }
    font_weight(value).is_none()
}

/// Whether a text is not a font family.
#[verifier::opaque]
pub open spec fn invalid_family(value: Seq<char>) -> bool {
    family_value(value) is None
}

fn not_family(value: &str) -> (r: bool)
    ensures
        r == invalid_family(value@),
{
    proof {
        reveal(invalid_family);
    }
    font_family(value).is_none()
}

/// Whether a text is not a file or blank.
#[verifier::opaque]
pub open spec fn invalid_file(value: Seq<char>) -> bool {
    file_value(value) is None
}

fn not_file(value: &str) -> (r: bool)
    ensures
        r == invalid_file(value@),
{
    proof {
        reveal(invalid_file);
    }
    font_file(value).is_none()
}

/// Whether a text is not a directory or `auto`.
#[verifier::opaque]
pub open spec fn invalid_directory(value: Seq<char>) -> bool {
    directory_value(value) is None
}

fn not_directory(value: &str) -> (r: bool)
    ensures
        r == invalid_directory(value@),
{
    proof {
        reveal(invalid_directory);
    }
    directory(value).is_none()
}

/// Whether a text is not a log level.
#[verifier::opaque]
pub open spec fn invalid_level(value: Seq<char>) -> bool {
    LogLevel::of(value) is None
}

fn not_level(value: &str) -> (r: bool)
    ensures
        r == invalid_level(value@),
{
    proof {
        reveal(invalid_level);
    }
    LogLevel::parse(value).is_none()
}

/// Whether a text is not a list of search fields.
#[verifier::opaque]
pub open spec fn invalid_fields(value: Seq<char>) -> bool {
    !fields_valid(value)
}

fn not_fields(value: &str) -> (r: bool)
    ensures
        r == invalid_fields(value@),
{
    proof {
        reveal(invalid_fields);
    }
    SearchFields::parse(value).is_none()
}

/// Whether a text is not a list within the limits.
#[verifier::opaque]
pub open spec fn invalid_list(value: Seq<char>, limit: u64) -> bool {
    !list_valid(value, limit)
}

fn not_list(value: &str, limit: u64) -> (r: bool)
    ensures
        r == invalid_list(value@, limit),
{
    proof {
        reveal(invalid_list);
    }
    string_list(value, limit).is_none()
}

/// Whether a text is not a list of icon overrides.
#[verifier::opaque]
pub open spec fn invalid_overrides(value: Seq<char>) -> bool {
    overrides_value(value) is Err
}

fn not_overrides(value: &str) -> (r: bool)
    ensures
        r == invalid_overrides(value@),
{
    proof {
        reveal(invalid_overrides);
    }
    overrides(value).is_err()
}

/// Whether a text is not a binding.
#[verifier::opaque]
pub open spec fn invalid_hotkey(value: Seq<char>) -> bool {
    parsed(value) is None
}

fn not_hotkey(value: &str) -> (r: bool)
    ensures
        r == invalid_hotkey(value@),
{
    proof {
        reveal(invalid_hotkey);
    }
    Hotkey::parse(value).is_none()
}

/// Whether a text is not a binding or blank.
#[verifier::opaque]
pub open spec fn invalid_optional_hotkey(value: Seq<char>) -> bool {
    trimmed(value).len() > 0 && parsed(value) is None
}

fn not_optional_hotkey(value: &str) -> (r: bool)
    ensures
        r == invalid_optional_hotkey(value@),
{
    proof {
        reveal(invalid_optional_hotkey);
    }
    !blank_text(value) && Hotkey::parse(value).is_none()
}

/// Whether a text is neither a list of bindings nor blank.
#[verifier::opaque]
pub open spec fn invalid_hotkeys(value: Seq<char>) -> bool {
    trimmed(value).len() > 0 && !hotkeys_valid(value)
}

fn not_hotkeys(value: &str, id: u32, name: &str, default: &str) -> (r: bool)
    ensures
        r == invalid_hotkeys(value@),
{
    proof {
        reveal(invalid_hotkeys);
    }
    !blank_text(value) && hotkeys(value, id, name, default).is_none()
}

fn no_strings() -> (r: Vec<String>)
    ensures
        strings(r@) == Seq::<Seq<char>>::empty(),
{
    let r: Vec<String> = Vec::new();
    assert(strings(r@) =~= Seq::<Seq<char>>::empty());
    r
}

/// The settings of the program.
#[derive(Debug, PartialEq, Eq)]
pub struct Config {
    pub trayicon: bool,
    pub auto_restart: bool,
    pub restart_delay_ms: u32,
    pub switch_windows_enable: bool,
    pub switch_windows_hotkey: Vec<Hotkey>,
    pub switch_windows_blacklist: Vec<String>,
    pub switch_windows_ignore_minimal: bool,
    pub switch_windows_only_current_desktop: Option<bool>,
    pub switch_windows_include_topmost: bool,
    pub switch_windows_include_tool_windows: bool,
    pub switch_windows_include_untitled: bool,
    pub switch_windows_min_width: u32,
    pub switch_windows_min_height: u32,
    pub switch_windows_exclude_titles: Vec<String>,
    pub switch_windows_exclude_processes: Vec<String>,
    pub switch_windows_order: SwitchOrder,
    pub switch_apps_enable: bool,
    pub switch_apps_hotkey: Vec<Hotkey>,
    pub switch_apps_ignore_minimal: bool,
    pub switch_apps_override_icons: indexmap::IndexMap<String, String>,
    pub switch_apps_show_badge: bool,
    pub switch_apps_badge_max: u32,
    pub switch_apps_badge_color: u32,
    pub switch_apps_badge_text_color: u32,
    pub switch_apps_badge_font_size: u32,
    pub badge_font_family: String,
    pub badge_font_file: Option<String>,
    pub switch_apps_only_current_desktop: Option<bool>,
    pub switch_apps_blacklist: Vec<String>,
    pub switch_apps_include_topmost: bool,
    pub switch_apps_include_tool_windows: bool,
    pub switch_apps_include_untitled: bool,
    pub switch_apps_min_width: u32,
    pub switch_apps_min_height: u32,
    pub switch_apps_exclude_titles: Vec<String>,
    pub switch_apps_exclude_processes: Vec<String>,
    pub switch_apps_badge_shape: BadgeShape,
    pub switch_apps_badge_size: Option<u32>,
    pub switch_apps_order: SwitchOrder,
    pub unknown_foreground: ForegroundPolicy,
    pub injected_events: InjectedPolicy,
    pub input_paused: bool,
    pub pause_hotkey: Option<Hotkey>,
    pub search_enable: bool,
    pub search_hotkey: Hotkey,
    pub search_match: SearchMatch,
    pub search_fields: SearchFields,
    pub search_max_results: u32,
    pub details_enable: bool,
    pub details_hotkey: Hotkey,
    pub monitor: MonitorPolicy,
    pub use_work_area: bool,
    pub panel_width: u32,
    pub panel_height: u32,
    pub icon_size: u32,
    pub icon_padding: u32,
    pub item_gap: u32,
    pub panel_padding: u32,
    pub max_width: u32,
    pub max_height: u32,
    pub max_columns: u32,
    pub theme: Theme,
    pub background_color: Option<u32>,
    pub background_opacity: u32,
    pub icon_background_color: Option<u32>,
    pub icon_background_opacity: u32,
    pub selection_color: Option<u32>,
    pub selection_opacity: u32,
    pub selection_border_color: Option<u32>,
    pub selection_border_width: u32,
    pub panel_corner_radius: Option<u32>,
    pub icon_corner_radius: Option<u32>,
    pub selection_corner_radius: Option<u32>,
    pub app_name_mode: AppNameMode,
    pub app_name_font_family: String,
    pub app_name_font_file: Option<String>,
    pub app_name_font_size: u32,
    pub app_name_font_weight: u32,
    pub app_name_font_italic: bool,
    pub app_name_text_color: Option<u32>,
    pub startup_enabled: StartupEnabled,
    pub startup_run_level: RunLevel,
    pub startup_battery_policy: BatteryPolicy,
    pub startup_command_timeout_ms: u32,
    pub config_watch_mode: WatchMode,
    pub config_poll_interval_ms: u32,
    pub config_restart_timeout_ms: u32,
    pub config_retry_delay_ms: u32,
    pub config_retry_limit: u32,
    pub language: Language,
    pub log_level: LogLevel,
    pub log_file: Option<String>,
    pub log_max_file_mb: u32,
    pub log_retained_files: u32,
    pub metrics_enabled: bool,
    pub metrics_interval_s: u32,
    pub icon_cache_limit: u32,
    pub icon_cache_mb: u32,
    pub icon_failure_ttl_ms: u32,
    pub metadata_cache_limit: u32,
    pub metadata_ttl_ms: u32,
    pub icon_query_timeout_ms: u32,
    pub snapshot_budget_ms: u32,
    pub render_scale: RenderScale,
    pub render_budget_mb: u32,
    pub mru_limit: u32,
    pub chrome_user_data_dir: Option<String>,
    pub edge_user_data_dir: Option<String>,
}

/// Whether a value before the first section is refused.
pub open spec fn rejected_general(key: Seq<char>, value: Seq<char>) -> bool {
    ||| key == "trayicon"@ && invalid_bool(value)
    ||| key == "auto_restart"@ && invalid_bool(value)
    ||| key == "restart_delay_ms"@ && invalid_int(value, 200, 10000)
}

/// Whether a value of the section `switch-windows` is refused.
pub open spec fn rejected_windows(key: Seq<char>, value: Seq<char>) -> bool {
    ||| key == "enable"@ && invalid_bool(value)
    ||| key == "hotkey"@ && invalid_hotkeys(value)
    ||| key == "blacklist"@ && invalid_list(value, MAX_NAME_UNITS)
    ||| key == "ignore_minimal"@ && invalid_bool(value)
    ||| key == "only_current_desktop"@ && invalid_auto_bool(value)
    ||| key == "include_topmost"@ && invalid_bool(value)
    ||| key == "include_tool_windows"@ && invalid_bool(value)
    ||| key == "include_untitled"@ && invalid_bool(value)
    ||| key == "min_width"@ && invalid_int(value, 0, 4096)
    ||| key == "min_height"@ && invalid_int(value, 0, 4096)
    ||| key == "exclude_titles"@ && invalid_list(value, MAX_TITLE_UNITS)
    ||| key == "exclude_processes"@ && invalid_list(value, MAX_NAME_UNITS)
    ||| key == "order"@ && SwitchOrder::of(value) is None
}

/// Whether a value of the section `switch-apps` is refused.
pub open spec fn rejected_apps(key: Seq<char>, value: Seq<char>) -> bool {
    ||| key == "enable"@ && invalid_bool(value)
    ||| key == "hotkey"@ && invalid_hotkeys(value)
    ||| key == "ignore_minimal"@ && invalid_bool(value)
    ||| key == "override_icons"@ && invalid_overrides(value)
    ||| key == "show_badge"@ && invalid_bool(value)
    ||| key == "badge_max"@ && invalid_int(value, 2, 9999)
    ||| key == "badge_color"@ && invalid_color(value)
    ||| key == "badge_text_color"@ && invalid_color(value)
    ||| key == "badge_font_size"@ && invalid_int(value, 8, 24)
    ||| key == "badge_font_family"@ && invalid_family(value)
    ||| key == "badge_font_file"@ && invalid_file(value)
    ||| key == "only_current_desktop"@ && invalid_auto_bool(value)
    ||| key == "blacklist"@ && invalid_list(value, MAX_NAME_UNITS)
    ||| key == "include_topmost"@ && invalid_bool(value)
    ||| key == "include_tool_windows"@ && invalid_bool(value)
    ||| key == "include_untitled"@ && invalid_bool(value)
    ||| key == "min_width"@ && invalid_int(value, 0, 4096)
    ||| key == "min_height"@ && invalid_int(value, 0, 4096)
    ||| key == "exclude_titles"@ && invalid_list(value, MAX_TITLE_UNITS)
    ||| key == "exclude_processes"@ && invalid_list(value, MAX_NAME_UNITS)
    ||| key == "badge_shape"@ && BadgeShape::of(value) is None
    ||| key == "badge_size"@ && invalid_auto_int(value, 16, 48)
    ||| key == "order"@ && SwitchOrder::of(value) is None
}

/// Whether a value of the section `input` is refused.
pub open spec fn rejected_input(key: Seq<char>, value: Seq<char>) -> bool {
    ||| key == "unknown_foreground"@ && ForegroundPolicy::of(value) is None
    ||| key == "injected_events"@ && InjectedPolicy::of(value) is None
    ||| key == "paused"@ && invalid_bool(value)
    ||| key == "pause_hotkey"@ && invalid_optional_hotkey(value)
}

/// Whether a value of the section `search` is refused.
pub open spec fn rejected_search(key: Seq<char>, value: Seq<char>) -> bool {
    ||| key == "enable"@ && invalid_bool(value)
    ||| key == "hotkey"@ && invalid_hotkey(value)
    ||| key == "match"@ && SearchMatch::of(value) is None
    ||| key == "fields"@ && invalid_fields(value)
    ||| key == "max_results"@ && invalid_int(value, 10, 200)
}

/// Whether a value of the section `details` is refused.
pub open spec fn rejected_details(key: Seq<char>, value: Seq<char>) -> bool {
    ||| key == "enable"@ && invalid_bool(value)
    ||| key == "hotkey"@ && invalid_hotkey(value)
}

/// Whether a value of the section `appearance` is refused.
pub open spec fn rejected_appearance(key: Seq<char>, value: Seq<char>) -> bool {
    ||| key == "monitor"@ && MonitorPolicy::of(value) is None
    ||| key == "use_work_area"@ && invalid_bool(value)
    ||| key == "panel_width"@ && invalid_int(value, 0, 32768)
    ||| key == "panel_height"@ && invalid_int(value, 0, 32768)
    ||| key == "icon_size"@ && invalid_int(value, 24, 256)
    ||| key == "icon_padding"@ && invalid_int(value, 0, 64)
    ||| key == "item_gap"@ && invalid_int(value, 0, 64)
    ||| key == "panel_padding"@ && invalid_int(value, 0, 128)
    ||| key == "max_width"@ && invalid_int(value, 0, 32768)
    ||| key == "max_height"@ && invalid_int(value, 0, 32768)
    ||| key == "max_columns"@ && invalid_int(value, 0, 128)
    ||| key == "theme"@ && Theme::of(value) is None
    ||| key == "background_color"@ && invalid_auto_color(value)
    ||| key == "background_opacity"@ && invalid_int(value, 0, 100)
    ||| key == "icon_background_color"@ && invalid_auto_color(value)
    ||| key == "icon_background_opacity"@ && invalid_int(value, 0, 100)
    ||| key == "selection_color"@ && invalid_auto_color(value)
    ||| key == "selection_opacity"@ && invalid_int(value, 0, 100)
    ||| key == "selection_border_color"@ && invalid_auto_color(value)
    ||| key == "selection_border_width"@ && invalid_int(value, 0, 6)
    ||| key == "panel_corner_radius"@ && invalid_auto_int(value, 0, 256)
    ||| key == "icon_corner_radius"@ && invalid_auto_int(value, 0, 128)
    ||| key == "selection_corner_radius"@ && invalid_auto_int(value, 0, 128)
    ||| key == "app_name_mode"@ && AppNameMode::of(value) is None
    ||| key == "app_name_font_family"@ && invalid_family(value)
    ||| key == "app_name_font_file"@ && invalid_file(value)
    ||| key == "app_name_font_size"@ && invalid_int(value, 12, 48)
    ||| key == "app_name_font_weight"@ && invalid_weight(value)
    ||| key == "app_name_font_italic"@ && invalid_bool(value)
    ||| key == "app_name_text_color"@ && invalid_auto_color(value)
}

/// Whether a value of the section `startup` is refused.
pub open spec fn rejected_startup(key: Seq<char>, value: Seq<char>) -> bool {
    ||| key == "enabled"@ && StartupEnabled::of(value) is None
    ||| key == "run_level"@ && RunLevel::of(value) is None
    ||| key == "battery_policy"@ && BatteryPolicy::of(value) is None
    ||| key == "command_timeout_ms"@ && invalid_int(value, 500, 30000)
}

/// Whether a value of the section `config` is refused.
pub open spec fn rejected_watch(key: Seq<char>, value: Seq<char>) -> bool {
    ||| key == "watch_mode"@ && WatchMode::of(value) is None
    ||| key == "poll_interval_ms"@ && invalid_int(value, 100, 60000)
    ||| key == "restart_timeout_ms"@ && invalid_int(value, 1000, 60000)
    ||| key == "retry_delay_ms"@ && invalid_int(value, 200, 30000)
    ||| key == "retry_limit"@ && invalid_int(value, 0, 10)
}

/// Whether a value of the section `localization` is refused.
pub open spec fn rejected_localization(key: Seq<char>, value: Seq<char>) -> bool {
    ||| key == "language"@ && Language::of(value) is None
}

/// Whether a value of the section `log` is refused.
pub open spec fn rejected_log(key: Seq<char>, value: Seq<char>) -> bool {
    ||| key == "level"@ && invalid_level(value)
    ||| key == "path"@ && invalid_file(value)
    ||| key == "max_file_mb"@ && invalid_int(value, 1, 100)
    ||| key == "retained_files"@ && invalid_int(value, 0, 20)
}

/// Whether a value of the section `performance` is refused.
pub open spec fn rejected_performance(key: Seq<char>, value: Seq<char>) -> bool {
    ||| key == "metrics_enabled"@ && invalid_bool(value)
    ||| key == "metrics_interval_s"@ && invalid_int(value, 1, 3600)
    ||| key == "icon_cache_limit"@ && invalid_int(value, 16, 1024)
    ||| key == "icon_cache_mb"@ && invalid_int(value, 4, 256)
    ||| key == "icon_failure_ttl_ms"@ && invalid_int(value, 100, 60000)
    ||| key == "metadata_cache_limit"@ && invalid_int(value, 16, 4096)
    ||| key == "metadata_ttl_ms"@ && invalid_int(value, 100, 60000)
    ||| key == "icon_query_timeout_ms"@ && invalid_int(value, 10, 500)
    ||| key == "snapshot_budget_ms"@ && invalid_int(value, 5, 500)
    ||| key == "render_scale"@ && RenderScale::of(value) is None
    ||| key == "render_budget_mb"@ && invalid_int(value, 8, 256)
    ||| key == "mru_limit"@ && invalid_int(value, 16, 4096)
}

/// Whether a value of the section `browser` is refused.
pub open spec fn rejected_browser(key: Seq<char>, value: Seq<char>) -> bool {
    ||| key == "chrome_user_data_dir"@ && invalid_directory(value)
    ||| key == "edge_user_data_dir"@ && invalid_directory(value)
}

/// Whether a value is refused. Undeclared settings never are.
pub open spec fn rejected(section: Seq<char>, key: Seq<char>, value: Seq<char>) -> bool {
    ||| section == ""@ && rejected_general(key, value)
    ||| section == "switch-windows"@ && rejected_windows(key, value)
    ||| section == "switch-apps"@ && rejected_apps(key, value)
    ||| section == "input"@ && rejected_input(key, value)
    ||| section == "search"@ && rejected_search(key, value)
    ||| section == "details"@ && rejected_details(key, value)
    ||| section == "appearance"@ && rejected_appearance(key, value)
    ||| section == "startup"@ && rejected_startup(key, value)
    ||| section == "config"@ && rejected_watch(key, value)
    ||| section == "localization"@ && rejected_localization(key, value)
    ||| section == "log"@ && rejected_log(key, value)
    ||| section == "performance"@ && rejected_performance(key, value)
    ||| section == "browser"@ && rejected_browser(key, value)
}

fn rejects_general(key: &[char], value: &str) -> (r: bool)
    ensures
        r == rejected_general(key@, value@),
{
    if is_text(key, "trayicon") && not_bool(value) {
        return true;
    }
    if is_text(key, "auto_restart") && not_bool(value) {
        return true;
    }
    if is_text(key, "restart_delay_ms") && not_int(value, 200, 10000) {
        return true;
    }
    false
}

fn rejects_windows(key: &[char], value: &str) -> (r: bool)
    ensures
        r == rejected_windows(key@, value@),
{
    if is_text(key, "enable") && not_bool(value) {
        return true;
    }
    if is_text(key, "hotkey") && not_hotkeys(value, SWITCH_WINDOWS_HOTKEY_ID, "switch windows", "alt+`") {
        return true;
    }
    if is_text(key, "blacklist") && not_list(value, MAX_NAME_UNITS) {
        return true;
    }
    if is_text(key, "ignore_minimal") && not_bool(value) {
        return true;
    }
    if is_text(key, "only_current_desktop") && not_auto_bool(value) {
        return true;
    }
    if is_text(key, "include_topmost") && not_bool(value) {
        return true;
    }
    if is_text(key, "include_tool_windows") && not_bool(value) {
        return true;
    }
    if is_text(key, "include_untitled") && not_bool(value) {
        return true;
    }
    if is_text(key, "min_width") && not_int(value, 0, 4096) {
        return true;
    }
    if is_text(key, "min_height") && not_int(value, 0, 4096) {
        return true;
    }
    if is_text(key, "exclude_titles") && not_list(value, MAX_TITLE_UNITS) {
        return true;
    }
    if is_text(key, "exclude_processes") && not_list(value, MAX_NAME_UNITS) {
        return true;
    }
    if is_text(key, "order") && SwitchOrder::parse(value).is_none() {
        return true;
    }
    false
}

fn rejects_apps(key: &[char], value: &str) -> (r: bool)
    ensures
        r == rejected_apps(key@, value@),
{
    if is_text(key, "enable") && not_bool(value) {
        return true;
    }
    if is_text(key, "hotkey") && not_hotkeys(value, SWITCH_APPS_HOTKEY_ID, "switch apps", "alt+tab") {
        return true;
    }
    if is_text(key, "ignore_minimal") && not_bool(value) {
        return true;
    }
    if is_text(key, "override_icons") && not_overrides(value) {
        return true;
    }
    if is_text(key, "show_badge") && not_bool(value) {
        return true;
    }
    if is_text(key, "badge_max") && not_int(value, 2, 9999) {
        return true;
    }
    if is_text(key, "badge_color") && not_color(value) {
        return true;
    }
    if is_text(key, "badge_text_color") && not_color(value) {
        return true;
    }
    if is_text(key, "badge_font_size") && not_int(value, 8, 24) {
        return true;
    }
    if is_text(key, "badge_font_family") && not_family(value) {
        return true;
    }
    if is_text(key, "badge_font_file") && not_file(value) {
        return true;
    }
    if is_text(key, "only_current_desktop") && not_auto_bool(value) {
        return true;
    }
    if is_text(key, "blacklist") && not_list(value, MAX_NAME_UNITS) {
        return true;
    }
    if is_text(key, "include_topmost") && not_bool(value) {
        return true;
    }
    if is_text(key, "include_tool_windows") && not_bool(value) {
        return true;
    }
    if is_text(key, "include_untitled") && not_bool(value) {
        return true;
    }
    if is_text(key, "min_width") && not_int(value, 0, 4096) {
        return true;
    }
    if is_text(key, "min_height") && not_int(value, 0, 4096) {
        return true;
    }
    if is_text(key, "exclude_titles") && not_list(value, MAX_TITLE_UNITS) {
        return true;
    }
    if is_text(key, "exclude_processes") && not_list(value, MAX_NAME_UNITS) {
        return true;
    }
    if is_text(key, "badge_shape") && BadgeShape::parse(value).is_none() {
        return true;
    }
    if is_text(key, "badge_size") && not_auto_int(value, 16, 48) {
        return true;
    }
    if is_text(key, "order") && SwitchOrder::parse(value).is_none() {
        return true;
    }
    false
}

fn rejects_input(key: &[char], value: &str) -> (r: bool)
    ensures
        r == rejected_input(key@, value@),
{
    if is_text(key, "unknown_foreground") && ForegroundPolicy::parse(value).is_none() {
        return true;
    }
    if is_text(key, "injected_events") && InjectedPolicy::parse(value).is_none() {
        return true;
    }
    if is_text(key, "paused") && not_bool(value) {
        return true;
    }
    if is_text(key, "pause_hotkey") && not_optional_hotkey(value) {
        return true;
    }
    false
}

fn rejects_search(key: &[char], value: &str) -> (r: bool)
    ensures
        r == rejected_search(key@, value@),
{
    if is_text(key, "enable") && not_bool(value) {
        return true;
    }
    if is_text(key, "hotkey") && not_hotkey(value) {
        return true;
    }
    if is_text(key, "match") && SearchMatch::parse(value).is_none() {
        return true;
    }
    if is_text(key, "fields") && not_fields(value) {
        return true;
    }
    if is_text(key, "max_results") && not_int(value, 10, 200) {
        return true;
    }
    false
}

fn rejects_details(key: &[char], value: &str) -> (r: bool)
    ensures
        r == rejected_details(key@, value@),
{
    if is_text(key, "enable") && not_bool(value) {
        return true;
    }
    if is_text(key, "hotkey") && not_hotkey(value) {
        return true;
    }
    false
}

fn rejects_appearance(key: &[char], value: &str) -> (r: bool)
    ensures
        r == rejected_appearance(key@, value@),
{
    if is_text(key, "monitor") && MonitorPolicy::parse(value).is_none() {
        return true;
    }
    if is_text(key, "use_work_area") && not_bool(value) {
        return true;
    }
    if is_text(key, "panel_width") && not_int(value, 0, 32768) {
        return true;
    }
    if is_text(key, "panel_height") && not_int(value, 0, 32768) {
        return true;
    }
    if is_text(key, "icon_size") && not_int(value, 24, 256) {
        return true;
    }
    if is_text(key, "icon_padding") && not_int(value, 0, 64) {
        return true;
    }
    if is_text(key, "item_gap") && not_int(value, 0, 64) {
        return true;
    }
    if is_text(key, "panel_padding") && not_int(value, 0, 128) {
        return true;
    }
    if is_text(key, "max_width") && not_int(value, 0, 32768) {
        return true;
    }
    if is_text(key, "max_height") && not_int(value, 0, 32768) {
        return true;
    }
    if is_text(key, "max_columns") && not_int(value, 0, 128) {
        return true;
    }
    if is_text(key, "theme") && Theme::parse(value).is_none() {
        return true;
    }
    if is_text(key, "background_color") && not_auto_color(value) {
        return true;
    }
    if is_text(key, "background_opacity") && not_int(value, 0, 100) {
        return true;
    }
    if is_text(key, "icon_background_color") && not_auto_color(value) {
        return true;
    }
    if is_text(key, "icon_background_opacity") && not_int(value, 0, 100) {
        return true;
    }
    if is_text(key, "selection_color") && not_auto_color(value) {
        return true;
    }
    if is_text(key, "selection_opacity") && not_int(value, 0, 100) {
        return true;
    }
    if is_text(key, "selection_border_color") && not_auto_color(value) {
        return true;
    }
    if is_text(key, "selection_border_width") && not_int(value, 0, 6) {
        return true;
    }
    if is_text(key, "panel_corner_radius") && not_radius(value, 256) {
        return true;
    }
    if is_text(key, "icon_corner_radius") && not_radius(value, 128) {
        return true;
    }
    if is_text(key, "selection_corner_radius") && not_radius(value, 128) {
        return true;
    }
    if is_text(key, "app_name_mode") && AppNameMode::parse(value).is_none() {
        return true;
    }
    if is_text(key, "app_name_font_family") && not_family(value) {
        return true;
    }
    if is_text(key, "app_name_font_file") && not_file(value) {
        return true;
    }
    if is_text(key, "app_name_font_size") && not_int(value, 12, 48) {
        return true;
    }
    if is_text(key, "app_name_font_weight") && not_weight(value) {
        return true;
    }
    if is_text(key, "app_name_font_italic") && not_bool(value) {
        return true;
    }
    if is_text(key, "app_name_text_color") && not_auto_color(value) {
        return true;
    }
    false
}

fn rejects_startup(key: &[char], value: &str) -> (r: bool)
    ensures
        r == rejected_startup(key@, value@),
{
    if is_text(key, "enabled") && StartupEnabled::parse(value).is_none() {
        return true;
    }
    if is_text(key, "run_level") && RunLevel::parse(value).is_none() {
        return true;
    }
    if is_text(key, "battery_policy") && BatteryPolicy::parse(value).is_none() {
        return true;
    }
    if is_text(key, "command_timeout_ms") && not_int(value, 500, 30000) {
        return true;
    }
    false
}

fn rejects_watch(key: &[char], value: &str) -> (r: bool)
    ensures
        r == rejected_watch(key@, value@),
{
    if is_text(key, "watch_mode") && WatchMode::parse(value).is_none() {
        return true;
    }
    if is_text(key, "poll_interval_ms") && not_int(value, 100, 60000) {
        return true;
    }
    if is_text(key, "restart_timeout_ms") && not_int(value, 1000, 60000) {
        return true;
    }
    if is_text(key, "retry_delay_ms") && not_int(value, 200, 30000) {
        return true;
    }
    if is_text(key, "retry_limit") && not_int(value, 0, 10) {
        return true;
    }
    false
}

fn rejects_localization(key: &[char], value: &str) -> (r: bool)
    ensures
        r == rejected_localization(key@, value@),
{
    if is_text(key, "language") && Language::parse(value).is_none() {
        return true;
    }
    false
}

fn rejects_log(key: &[char], value: &str) -> (r: bool)
    ensures
        r == rejected_log(key@, value@),
{
    if is_text(key, "level") && not_level(value) {
        return true;
    }
    if is_text(key, "path") && not_file(value) {
        return true;
    }
    if is_text(key, "max_file_mb") && not_int(value, 1, 100) {
        return true;
    }
    if is_text(key, "retained_files") && not_int(value, 0, 20) {
        return true;
    }
    false
}

fn rejects_performance(key: &[char], value: &str) -> (r: bool)
    ensures
        r == rejected_performance(key@, value@),
{
    if is_text(key, "metrics_enabled") && not_bool(value) {
        return true;
    }
    if is_text(key, "metrics_interval_s") && not_int(value, 1, 3600) {
        return true;
    }
    if is_text(key, "icon_cache_limit") && not_int(value, 16, 1024) {
        return true;
    }
    if is_text(key, "icon_cache_mb") && not_int(value, 4, 256) {
        return true;
    }
    if is_text(key, "icon_failure_ttl_ms") && not_int(value, 100, 60000) {
        return true;
    }
    if is_text(key, "metadata_cache_limit") && not_int(value, 16, 4096) {
        return true;
    }
    if is_text(key, "metadata_ttl_ms") && not_int(value, 100, 60000) {
        return true;
    }
    if is_text(key, "icon_query_timeout_ms") && not_int(value, 10, 500) {
        return true;
    }
    if is_text(key, "snapshot_budget_ms") && not_int(value, 5, 500) {
        return true;
    }
    if is_text(key, "render_scale") && RenderScale::parse(value).is_none() {
        return true;
    }
    if is_text(key, "render_budget_mb") && not_int(value, 8, 256) {
        return true;
    }
    if is_text(key, "mru_limit") && not_int(value, 16, 4096) {
        return true;
    }
    false
}

fn rejects_browser(key: &[char], value: &str) -> (r: bool)
    ensures
        r == rejected_browser(key@, value@),
{
    if is_text(key, "chrome_user_data_dir") && not_directory(value) {
        return true;
    }
    if is_text(key, "edge_user_data_dir") && not_directory(value) {
        return true;
    }
    false
}

/// Whether a value is refused.
pub fn rejects(section: &str, key: &str, value: &str) -> (r: bool)
    ensures
        r == rejected(section@, key@, value@),
{
    let section = chars_of(section);
    let section = section.as_slice();
    let key = chars_of(key);
    let key = key.as_slice();
    if is_text(section, "") && rejects_general(key, value) {
        return true;
    }
    if is_text(section, "switch-windows") && rejects_windows(key, value) {
        return true;
    }
    if is_text(section, "switch-apps") && rejects_apps(key, value) {
        return true;
    }
    if is_text(section, "input") && rejects_input(key, value) {
        return true;
    }
    if is_text(section, "search") && rejects_search(key, value) {
        return true;
    }
    if is_text(section, "details") && rejects_details(key, value) {
        return true;
    }
    if is_text(section, "appearance") && rejects_appearance(key, value) {
        return true;
    }
    if is_text(section, "startup") && rejects_startup(key, value) {
        return true;
    }
    if is_text(section, "config") && rejects_watch(key, value) {
        return true;
    }
    if is_text(section, "localization") && rejects_localization(key, value) {
        return true;
    }
    if is_text(section, "log") && rejects_log(key, value) {
        return true;
    }
    if is_text(section, "performance") && rejects_performance(key, value) {
        return true;
    }
    if is_text(section, "browser") && rejects_browser(key, value) {
        return true;
    }
    false
}

impl Config {
    pub open spec fn reads_general(self, d: Seq<SectionView>) -> bool {
        let c = self;
        &&& c.trayicon == bool_setting(d, ""@, "trayicon"@, true)
        &&& c.auto_restart == bool_setting(d, ""@, "auto_restart"@, true)
        &&& c.restart_delay_ms == int_setting(d, ""@, "restart_delay_ms"@, 200, 10000, 1000)
    }

    pub open spec fn reads_windows(self, d: Seq<SectionView>) -> bool {
        let c = self;
        &&& c.switch_windows_enable == bool_setting(d, "switch-windows"@, "enable"@, true)
        &&& hotkeys_setting(c.switch_windows_hotkey@, d, "switch-windows"@, "hotkey"@, SWITCH_WINDOWS_HOTKEY_ID, "switch windows"@, (0x38, 0x38, 0x29))
        &&& strings(c.switch_windows_blacklist@) == list_setting(d, "switch-windows"@, "blacklist"@, MAX_NAME_UNITS, Seq::<Seq<char>>::empty())
        &&& c.switch_windows_ignore_minimal == bool_setting(d, "switch-windows"@, "ignore_minimal"@, false)
        &&& c.switch_windows_only_current_desktop == auto_bool_setting(d, "switch-windows"@, "only_current_desktop"@)
        &&& c.switch_windows_include_topmost == bool_setting(d, "switch-windows"@, "include_topmost"@, false)
        &&& c.switch_windows_include_tool_windows == bool_setting(d, "switch-windows"@, "include_tool_windows"@, false)
        &&& c.switch_windows_include_untitled == bool_setting(d, "switch-windows"@, "include_untitled"@, false)
        &&& c.switch_windows_min_width == int_setting(d, "switch-windows"@, "min_width"@, 0, 4096, 120)
        &&& c.switch_windows_min_height == int_setting(d, "switch-windows"@, "min_height"@, 0, 4096, 90)
        &&& strings(c.switch_windows_exclude_titles@) == list_setting(d, "switch-windows"@, "exclude_titles"@, MAX_TITLE_UNITS, seq!["Windows Input Experience"@])
        &&& strings(c.switch_windows_exclude_processes@) == list_setting(d, "switch-windows"@, "exclude_processes"@, MAX_NAME_UNITS, Seq::<Seq<char>>::empty())
        &&& c.switch_windows_order == (match effective(d, "switch-windows"@, "order"@) {
            Some(text) => chosen(SwitchOrder::of(text), SwitchOrder::Existing),
            None => SwitchOrder::Existing,
        })
    }

    pub open spec fn reads_apps(self, d: Seq<SectionView>) -> bool {
        let c = self;
        &&& c.switch_apps_enable == bool_setting(d, "switch-apps"@, "enable"@, false)
        &&& hotkeys_setting(c.switch_apps_hotkey@, d, "switch-apps"@, "hotkey"@, SWITCH_APPS_HOTKEY_ID, "switch apps"@, (0x38, 0x38, 0x0f))
        &&& c.switch_apps_ignore_minimal == bool_setting(d, "switch-apps"@, "ignore_minimal"@, false)
        &&& text_entries(c.switch_apps_override_icons) == overrides_setting(d, "switch-apps"@, "override_icons"@)
        &&& c.switch_apps_show_badge == bool_setting(d, "switch-apps"@, "show_badge"@, true)
        &&& c.switch_apps_badge_max == int_setting(d, "switch-apps"@, "badge_max"@, 2, 9999, 99)
        &&& c.switch_apps_badge_color == color_setting(d, "switch-apps"@, "badge_color"@, 0x4c7094)
        &&& c.switch_apps_badge_text_color == color_setting(d, "switch-apps"@, "badge_text_color"@, 0xffffff)
        &&& c.switch_apps_badge_font_size == int_setting(d, "switch-apps"@, "badge_font_size"@, 8, 24, 12)
        &&& c.badge_font_family@ == family_setting(d, "switch-apps"@, "badge_font_family"@, "Segoe UI"@)
        &&& optional_view(c.badge_font_file) == file_setting(d, "switch-apps"@, "badge_font_file"@)
        &&& c.switch_apps_only_current_desktop == auto_bool_setting(d, "switch-apps"@, "only_current_desktop"@)
        &&& strings(c.switch_apps_blacklist@) == list_setting(d, "switch-apps"@, "blacklist"@, MAX_NAME_UNITS, Seq::<Seq<char>>::empty())
        &&& c.switch_apps_include_topmost == bool_setting(d, "switch-apps"@, "include_topmost"@, false)
        &&& c.switch_apps_include_tool_windows == bool_setting(d, "switch-apps"@, "include_tool_windows"@, false)
        &&& c.switch_apps_include_untitled == bool_setting(d, "switch-apps"@, "include_untitled"@, false)
        &&& c.switch_apps_min_width == int_setting(d, "switch-apps"@, "min_width"@, 0, 4096, 120)
        &&& c.switch_apps_min_height == int_setting(d, "switch-apps"@, "min_height"@, 0, 4096, 90)
        &&& strings(c.switch_apps_exclude_titles@) == list_setting(d, "switch-apps"@, "exclude_titles"@, MAX_TITLE_UNITS, seq!["Windows Input Experience"@])
        &&& strings(c.switch_apps_exclude_processes@) == list_setting(d, "switch-apps"@, "exclude_processes"@, MAX_NAME_UNITS, Seq::<Seq<char>>::empty())
        &&& c.switch_apps_badge_shape == (match effective(d, "switch-apps"@, "badge_shape"@) {
            Some(text) => chosen(BadgeShape::of(text), BadgeShape::Circle),
            None => BadgeShape::Circle,
        })
        &&& c.switch_apps_badge_size == auto_int_setting(d, "switch-apps"@, "badge_size"@, 16, 48)
        &&& c.switch_apps_order == (match effective(d, "switch-apps"@, "order"@) {
            Some(text) => chosen(SwitchOrder::of(text), SwitchOrder::Existing),
            None => SwitchOrder::Existing,
        })
    }

    pub open spec fn reads_input(self, d: Seq<SectionView>) -> bool {
        let c = self;
        &&& c.unknown_foreground == (match effective(d, "input"@, "unknown_foreground"@) {
            Some(text) => chosen(ForegroundPolicy::of(text), ForegroundPolicy::Passthrough),
            None => ForegroundPolicy::Passthrough,
        })
        &&& c.injected_events == (match effective(d, "input"@, "injected_events"@) {
            Some(text) => chosen(InjectedPolicy::of(text), InjectedPolicy::Handle),
            None => InjectedPolicy::Handle,
        })
        &&& c.input_paused == bool_setting(d, "input"@, "paused"@, false)
        &&& optional_hotkey_setting(c.pause_hotkey, d, "input"@, "pause_hotkey"@, PAUSE_HOTKEY_ID, "pause"@)
    }

    pub open spec fn reads_search(self, d: Seq<SectionView>) -> bool {
        let c = self;
        &&& c.search_enable == bool_setting(d, "search"@, "enable"@, false)
        &&& hotkey_setting(c.search_hotkey, d, "search"@, "hotkey"@, SEARCH_HOTKEY_ID, "search"@, (0x1d, 0x1d, 0x39))
        &&& c.search_match == (match effective(d, "search"@, "match"@) {
            Some(text) => chosen(SearchMatch::of(text), SearchMatch::Fuzzy),
            None => SearchMatch::Fuzzy,
        })
        &&& fields_setting(c.search_fields, d, "search"@, "fields"@)
        &&& c.search_max_results == int_setting(d, "search"@, "max_results"@, 10, 200, 50)
    }

    pub open spec fn reads_details(self, d: Seq<SectionView>) -> bool {
        let c = self;
        &&& c.details_enable == bool_setting(d, "details"@, "enable"@, false)
        &&& hotkey_setting(c.details_hotkey, d, "details"@, "hotkey"@, DETAILS_HOTKEY_ID, "details"@, (0x1d, 0x1d, 0x1c))
    }

    pub open spec fn reads_appearance(self, d: Seq<SectionView>) -> bool {
        let c = self;
        &&& c.monitor == (match effective(d, "appearance"@, "monitor"@) {
            Some(text) => chosen(MonitorPolicy::of(text), MonitorPolicy::Cursor),
            None => MonitorPolicy::Cursor,
        })
        &&& c.use_work_area == bool_setting(d, "appearance"@, "use_work_area"@, true)
        &&& c.panel_width == int_setting(d, "appearance"@, "panel_width"@, 0, 32768, 0)
        &&& c.panel_height == int_setting(d, "appearance"@, "panel_height"@, 0, 32768, 0)
        &&& c.icon_size == int_setting(d, "appearance"@, "icon_size"@, 24, 256, 64)
        &&& c.icon_padding == int_setting(d, "appearance"@, "icon_padding"@, 0, 64, 4)
        &&& c.item_gap == int_setting(d, "appearance"@, "item_gap"@, 0, 64, 0)
        &&& c.panel_padding == int_setting(d, "appearance"@, "panel_padding"@, 0, 128, 10)
        &&& c.max_width == int_setting(d, "appearance"@, "max_width"@, 0, 32768, 0)
        &&& c.max_height == int_setting(d, "appearance"@, "max_height"@, 0, 32768, 0)
        &&& c.max_columns == int_setting(d, "appearance"@, "max_columns"@, 0, 128, 0)
        &&& c.theme == (match effective(d, "appearance"@, "theme"@) {
            Some(text) => chosen(Theme::of(text), Theme::Auto),
            None => Theme::Auto,
        })
        &&& c.background_color == auto_color_setting(d, "appearance"@, "background_color"@)
        &&& c.background_opacity == int_setting(d, "appearance"@, "background_opacity"@, 0, 100, 100)
        &&& c.icon_background_color == auto_color_setting(d, "appearance"@, "icon_background_color"@)
        &&& c.icon_background_opacity == int_setting(d, "appearance"@, "icon_background_opacity"@, 0, 100, 0)
        &&& c.selection_color == auto_color_setting(d, "appearance"@, "selection_color"@)
        &&& c.selection_opacity == int_setting(d, "appearance"@, "selection_opacity"@, 0, 100, 100)
        &&& c.selection_border_color == auto_color_setting(d, "appearance"@, "selection_border_color"@)
        &&& c.selection_border_width == int_setting(d, "appearance"@, "selection_border_width"@, 0, 6, 2)
        &&& c.panel_corner_radius == auto_int_setting(d, "appearance"@, "panel_corner_radius"@, 0, 256)
        &&& c.icon_corner_radius == auto_int_setting(d, "appearance"@, "icon_corner_radius"@, 0, 128)
        &&& c.selection_corner_radius == auto_int_setting(d, "appearance"@, "selection_corner_radius"@, 0, 128)
        &&& c.app_name_mode == (match effective(d, "appearance"@, "app_name_mode"@) {
            Some(text) => chosen(AppNameMode::of(text), AppNameMode::Off),
            None => AppNameMode::Off,
        })
        &&& c.app_name_font_family@ == family_setting(d, "appearance"@, "app_name_font_family"@, "auto"@)
        &&& optional_view(c.app_name_font_file) == file_setting(d, "appearance"@, "app_name_font_file"@)
        &&& c.app_name_font_size == int_setting(d, "appearance"@, "app_name_font_size"@, 12, 48, 14)
        &&& c.app_name_font_weight == weight_setting(d, "appearance"@, "app_name_font_weight"@, 400)
        &&& c.app_name_font_italic == bool_setting(d, "appearance"@, "app_name_font_italic"@, false)
        &&& c.app_name_text_color == auto_color_setting(d, "appearance"@, "app_name_text_color"@)
    }

    pub open spec fn reads_startup(self, d: Seq<SectionView>) -> bool {
        let c = self;
        &&& c.startup_enabled == (match effective(d, "startup"@, "enabled"@) {
            Some(text) => chosen(StartupEnabled::of(text), StartupEnabled::Auto),
            None => StartupEnabled::Auto,
        })
        &&& c.startup_run_level == (match effective(d, "startup"@, "run_level"@) {
            Some(text) => chosen(RunLevel::of(text), RunLevel::Inherit),
            None => RunLevel::Inherit,
        })
        &&& c.startup_battery_policy == (match effective(d, "startup"@, "battery_policy"@) {
            Some(text) => chosen(BatteryPolicy::of(text), BatteryPolicy::Inherit),
            None => BatteryPolicy::Inherit,
        })
        &&& c.startup_command_timeout_ms == int_setting(d, "startup"@, "command_timeout_ms"@, 500, 30000, 5000)
    }

    pub open spec fn reads_watch(self, d: Seq<SectionView>) -> bool {
        let c = self;
        &&& c.config_watch_mode == (match effective(d, "config"@, "watch_mode"@) {
            Some(text) => chosen(WatchMode::of(text), WatchMode::Auto),
            None => WatchMode::Auto,
        })
        &&& c.config_poll_interval_ms == int_setting(d, "config"@, "poll_interval_ms"@, 100, 60000, 250)
        &&& c.config_restart_timeout_ms == int_setting(d, "config"@, "restart_timeout_ms"@, 1000, 60000, 10000)
        &&& c.config_retry_delay_ms == int_setting(d, "config"@, "retry_delay_ms"@, 200, 30000, 1000)
        &&& c.config_retry_limit == int_setting(d, "config"@, "retry_limit"@, 0, 10, 3)
    }

    pub open spec fn reads_localization(self, d: Seq<SectionView>) -> bool {
        let c = self;
        &&& c.language == (match effective(d, "localization"@, "language"@) {
            Some(text) => chosen(Language::of(text), Language::Chinese),
            None => Language::Chinese,
        })
    }

    pub open spec fn reads_log(self, d: Seq<SectionView>) -> bool {
        let c = self;
        &&& c.log_level == level_setting(d, "log"@, "level"@, LogLevel::Info)
        &&& optional_view(c.log_file) == file_setting(d, "log"@, "path"@)
        &&& c.log_max_file_mb == int_setting(d, "log"@, "max_file_mb"@, 1, 100, 10)
        &&& c.log_retained_files == int_setting(d, "log"@, "retained_files"@, 0, 20, 3)
    }

    pub open spec fn reads_performance(self, d: Seq<SectionView>) -> bool {
        let c = self;
        &&& c.metrics_enabled == bool_setting(d, "performance"@, "metrics_enabled"@, false)
        &&& c.metrics_interval_s == int_setting(d, "performance"@, "metrics_interval_s"@, 1, 3600, 60)
        &&& c.icon_cache_limit == int_setting(d, "performance"@, "icon_cache_limit"@, 16, 1024, 256)
        &&& c.icon_cache_mb == int_setting(d, "performance"@, "icon_cache_mb"@, 4, 256, 32)
        &&& c.icon_failure_ttl_ms == int_setting(d, "performance"@, "icon_failure_ttl_ms"@, 100, 60000, 3000)
        &&& c.metadata_cache_limit == int_setting(d, "performance"@, "metadata_cache_limit"@, 16, 4096, 512)
        &&& c.metadata_ttl_ms == int_setting(d, "performance"@, "metadata_ttl_ms"@, 100, 60000, 5000)
        &&& c.icon_query_timeout_ms == int_setting(d, "performance"@, "icon_query_timeout_ms"@, 10, 500, 100)
        &&& c.snapshot_budget_ms == int_setting(d, "performance"@, "snapshot_budget_ms"@, 5, 500, 50)
        &&& c.render_scale == (match effective(d, "performance"@, "render_scale"@) {
            Some(text) => chosen(RenderScale::of(text), RenderScale::Auto),
            None => RenderScale::Auto,
        })
        &&& c.render_budget_mb == int_setting(d, "performance"@, "render_budget_mb"@, 8, 256, 64)
        &&& c.mru_limit == int_setting(d, "performance"@, "mru_limit"@, 16, 4096, 512)
    }

    pub open spec fn reads_browser(self, d: Seq<SectionView>) -> bool {
        let c = self;
        &&& optional_view(c.chrome_user_data_dir) == directory_setting(d, "browser"@, "chrome_user_data_dir"@)
        &&& optional_view(c.edge_user_data_dir) == directory_setting(d, "browser"@, "edge_user_data_dir"@)
    }

    /// Whether every setting has the value that the document gives it.
    pub open spec fn reads(self, d: Seq<SectionView>) -> bool {
        &&& self.reads_general(d)
        &&& self.reads_windows(d)
        &&& self.reads_apps(d)
        &&& self.reads_input(d)
        &&& self.reads_search(d)
        &&& self.reads_details(d)
        &&& self.reads_appearance(d)
        &&& self.reads_startup(d)
        &&& self.reads_watch(d)
        &&& self.reads_localization(d)
        &&& self.reads_log(d)
        &&& self.reads_performance(d)
        &&& self.reads_browser(d)
    }

    /// Whether every setting has its default.
    pub open spec fn is_default(self) -> bool {
        let c = self;
        &&& c.trayicon == true
        &&& c.auto_restart == true
        &&& c.restart_delay_ms == 1000
        &&& c.switch_windows_enable == true
        &&& are_default_bindings(c.switch_windows_hotkey@, SWITCH_WINDOWS_HOTKEY_ID, "switch windows"@, (0x38, 0x38, 0x29))
        &&& strings(c.switch_windows_blacklist@) == Seq::<Seq<char>>::empty()
        &&& c.switch_windows_ignore_minimal == false
        &&& c.switch_windows_only_current_desktop == None::<bool>
        &&& c.switch_windows_include_topmost == false
        &&& c.switch_windows_include_tool_windows == false
        &&& c.switch_windows_include_untitled == false
        &&& c.switch_windows_min_width == 120
        &&& c.switch_windows_min_height == 90
        &&& strings(c.switch_windows_exclude_titles@) == seq!["Windows Input Experience"@]
        &&& strings(c.switch_windows_exclude_processes@) == Seq::<Seq<char>>::empty()
        &&& c.switch_windows_order == SwitchOrder::Existing
        &&& c.switch_apps_enable == false
        &&& are_default_bindings(c.switch_apps_hotkey@, SWITCH_APPS_HOTKEY_ID, "switch apps"@, (0x38, 0x38, 0x0f))
        &&& c.switch_apps_ignore_minimal == false
        &&& text_entries(c.switch_apps_override_icons) == Seq::<(Seq<char>, Seq<char>)>::empty()
        &&& c.switch_apps_show_badge == true
        &&& c.switch_apps_badge_max == 99
        &&& c.switch_apps_badge_color == 0x4c7094
        &&& c.switch_apps_badge_text_color == 0xffffff
        &&& c.switch_apps_badge_font_size == 12
        &&& c.badge_font_family@ == "Segoe UI"@
        &&& c.badge_font_file is None
        &&& c.switch_apps_only_current_desktop == None::<bool>
        &&& strings(c.switch_apps_blacklist@) == Seq::<Seq<char>>::empty()
        &&& c.switch_apps_include_topmost == false
        &&& c.switch_apps_include_tool_windows == false
        &&& c.switch_apps_include_untitled == false
        &&& c.switch_apps_min_width == 120
        &&& c.switch_apps_min_height == 90
        &&& strings(c.switch_apps_exclude_titles@) == seq!["Windows Input Experience"@]
        &&& strings(c.switch_apps_exclude_processes@) == Seq::<Seq<char>>::empty()
        &&& c.switch_apps_badge_shape == BadgeShape::Circle
        &&& c.switch_apps_badge_size == None::<u32>
        &&& c.switch_apps_order == SwitchOrder::Existing
        &&& c.unknown_foreground == ForegroundPolicy::Passthrough
        &&& c.injected_events == InjectedPolicy::Handle
        &&& c.input_paused == false
        &&& c.pause_hotkey is None
        &&& c.search_enable == false
        &&& is_default_binding(c.search_hotkey, SEARCH_HOTKEY_ID, "search"@, (0x1d, 0x1d, 0x39))
        &&& c.search_match == SearchMatch::Fuzzy
        &&& are_default_fields(c.search_fields)
        &&& c.search_max_results == 50
        &&& c.details_enable == false
        &&& is_default_binding(c.details_hotkey, DETAILS_HOTKEY_ID, "details"@, (0x1d, 0x1d, 0x1c))
        &&& c.monitor == MonitorPolicy::Cursor
        &&& c.use_work_area == true
        &&& c.panel_width == 0
        &&& c.panel_height == 0
        &&& c.icon_size == 64
        &&& c.icon_padding == 4
        &&& c.item_gap == 0
        &&& c.panel_padding == 10
        &&& c.max_width == 0
        &&& c.max_height == 0
        &&& c.max_columns == 0
        &&& c.theme == Theme::Auto
        &&& c.background_color == None::<u32>
        &&& c.background_opacity == 100
        &&& c.icon_background_color == None::<u32>
        &&& c.icon_background_opacity == 0
        &&& c.selection_color == None::<u32>
        &&& c.selection_opacity == 100
        &&& c.selection_border_color == None::<u32>
        &&& c.selection_border_width == 2
        &&& c.panel_corner_radius == None::<u32>
        &&& c.icon_corner_radius == None::<u32>
        &&& c.selection_corner_radius == None::<u32>
        &&& c.app_name_mode == AppNameMode::Off
        &&& c.app_name_font_family@ == "auto"@
        &&& c.app_name_font_file is None
        &&& c.app_name_font_size == 14
        &&& c.app_name_font_weight == 400
        &&& c.app_name_font_italic == false
        &&& c.app_name_text_color == None::<u32>
        &&& c.startup_enabled == StartupEnabled::Auto
        &&& c.startup_run_level == RunLevel::Inherit
        &&& c.startup_battery_policy == BatteryPolicy::Inherit
        &&& c.startup_command_timeout_ms == 5000
        &&& c.config_watch_mode == WatchMode::Auto
        &&& c.config_poll_interval_ms == 250
        &&& c.config_restart_timeout_ms == 10000
        &&& c.config_retry_delay_ms == 1000
        &&& c.config_retry_limit == 3
        &&& c.language == Language::Chinese
        &&& c.log_level == LogLevel::Info
        &&& c.log_file is None
        &&& c.log_max_file_mb == 10
        &&& c.log_retained_files == 3
        &&& c.metrics_enabled == false
        &&& c.metrics_interval_s == 60
        &&& c.icon_cache_limit == 256
        &&& c.icon_cache_mb == 32
        &&& c.icon_failure_ttl_ms == 3000
        &&& c.metadata_cache_limit == 512
        &&& c.metadata_ttl_ms == 5000
        &&& c.icon_query_timeout_ms == 100
        &&& c.snapshot_budget_ms == 50
        &&& c.render_scale == RenderScale::Auto
        &&& c.render_budget_mb == 64
        &&& c.mru_limit == 512
        &&& c.chrome_user_data_dir is None
        &&& c.edge_user_data_dir is None
    }
}

impl Default for Config {
    fn default() -> (r: Self)
        ensures
            r.is_default(),
    {
        Config {
            trayicon: true,
            auto_restart: true,
            restart_delay_ms: 1000,
            switch_windows_enable: true,
            switch_windows_hotkey: default_bindings(SWITCH_WINDOWS_HOTKEY_ID, "switch windows", (0x38, 0x38, 0x29)),
            switch_windows_blacklist: no_strings(),
            switch_windows_ignore_minimal: false,
            switch_windows_only_current_desktop: None,
            switch_windows_include_topmost: false,
            switch_windows_include_tool_windows: false,
            switch_windows_include_untitled: false,
            switch_windows_min_width: 120,
            switch_windows_min_height: 90,
            switch_windows_exclude_titles: single("Windows Input Experience"),
            switch_windows_exclude_processes: no_strings(),
            switch_windows_order: SwitchOrder::Existing,
            switch_apps_enable: false,
            switch_apps_hotkey: default_bindings(SWITCH_APPS_HOTKEY_ID, "switch apps", (0x38, 0x38, 0x0f)),
            switch_apps_ignore_minimal: false,
            switch_apps_override_icons: text_map(),
            switch_apps_show_badge: true,
            switch_apps_badge_max: 99,
            switch_apps_badge_color: 0x4c7094,
            switch_apps_badge_text_color: 0xffffff,
            switch_apps_badge_font_size: 12,
            badge_font_family: "Segoe UI".to_owned(),
            badge_font_file: None,
            switch_apps_only_current_desktop: None,
            switch_apps_blacklist: no_strings(),
            switch_apps_include_topmost: false,
            switch_apps_include_tool_windows: false,
            switch_apps_include_untitled: false,
            switch_apps_min_width: 120,
            switch_apps_min_height: 90,
            switch_apps_exclude_titles: single("Windows Input Experience"),
            switch_apps_exclude_processes: no_strings(),
            switch_apps_badge_shape: BadgeShape::Circle,
            switch_apps_badge_size: None,
            switch_apps_order: SwitchOrder::Existing,
            unknown_foreground: ForegroundPolicy::Passthrough,
            injected_events: InjectedPolicy::Handle,
            input_paused: false,
            pause_hotkey: None,
            search_enable: false,
            search_hotkey: default_binding(SEARCH_HOTKEY_ID, "search", (0x1d, 0x1d, 0x39)),
            search_match: SearchMatch::Fuzzy,
            search_fields: SearchFields::of(true, true, false),
            search_max_results: 50,
            details_enable: false,
            details_hotkey: default_binding(DETAILS_HOTKEY_ID, "details", (0x1d, 0x1d, 0x1c)),
            monitor: MonitorPolicy::Cursor,
            use_work_area: true,
            panel_width: 0,
            panel_height: 0,
            icon_size: 64,
            icon_padding: 4,
            item_gap: 0,
            panel_padding: 10,
            max_width: 0,
            max_height: 0,
            max_columns: 0,
            theme: Theme::Auto,
            background_color: None,
            background_opacity: 100,
            icon_background_color: None,
            icon_background_opacity: 0,
            selection_color: None,
            selection_opacity: 100,
            selection_border_color: None,
            selection_border_width: 2,
            panel_corner_radius: None,
            icon_corner_radius: None,
            selection_corner_radius: None,
            app_name_mode: AppNameMode::Off,
            app_name_font_family: "auto".to_owned(),
            app_name_font_file: None,
            app_name_font_size: 14,
            app_name_font_weight: 400,
            app_name_font_italic: false,
            app_name_text_color: None,
            startup_enabled: StartupEnabled::Auto,
            startup_run_level: RunLevel::Inherit,
            startup_battery_policy: BatteryPolicy::Inherit,
            startup_command_timeout_ms: 5000,
            config_watch_mode: WatchMode::Auto,
            config_poll_interval_ms: 250,
            config_restart_timeout_ms: 10000,
            config_retry_delay_ms: 1000,
            config_retry_limit: 3,
            language: Language::Chinese,
            log_level: LogLevel::Info,
            log_file: None,
            log_max_file_mb: 10,
            log_retained_files: 3,
            metrics_enabled: false,
            metrics_interval_s: 60,
            icon_cache_limit: 256,
            icon_cache_mb: 32,
            icon_failure_ttl_ms: 3000,
            metadata_cache_limit: 512,
            metadata_ttl_ms: 5000,
            icon_query_timeout_ms: 100,
            snapshot_budget_ms: 50,
            render_scale: RenderScale::Auto,
            render_budget_mb: 64,
            mru_limit: 512,
            chrome_user_data_dir: None,
            edge_user_data_dir: None,
        }
    }
}

fn build(reader: &Reader) -> (r: Config)
    requires
        reader.valid(),
    ensures
        r.reads(reader@),
{
    Config {
        trayicon: reader.read_bool("", "trayicon", true),
        auto_restart: reader.read_bool("", "auto_restart", true),
        restart_delay_ms: reader.read_int("", "restart_delay_ms", 200, 10000, 1000),
        switch_windows_enable: reader.read_bool("switch-windows", "enable", true),
        switch_windows_hotkey: reader.read_hotkeys("switch-windows", "hotkey", SWITCH_WINDOWS_HOTKEY_ID, "switch windows", (0x38, 0x38, 0x29)),
        switch_windows_blacklist: reader.read_list("switch-windows", "blacklist", MAX_NAME_UNITS, no_strings()),
        switch_windows_ignore_minimal: reader.read_bool("switch-windows", "ignore_minimal", false),
        switch_windows_only_current_desktop: reader.read_auto_bool("switch-windows", "only_current_desktop"),
        switch_windows_include_topmost: reader.read_bool("switch-windows", "include_topmost", false),
        switch_windows_include_tool_windows: reader.read_bool("switch-windows", "include_tool_windows", false),
        switch_windows_include_untitled: reader.read_bool("switch-windows", "include_untitled", false),
        switch_windows_min_width: reader.read_int("switch-windows", "min_width", 0, 4096, 120),
        switch_windows_min_height: reader.read_int("switch-windows", "min_height", 0, 4096, 90),
        switch_windows_exclude_titles: reader.read_list("switch-windows", "exclude_titles", MAX_TITLE_UNITS, single("Windows Input Experience")),
        switch_windows_exclude_processes: reader.read_list("switch-windows", "exclude_processes", MAX_NAME_UNITS, no_strings()),
        switch_windows_order: match reader.effective("switch-windows", "order") {
            Some(text) => match SwitchOrder::parse(text.as_str()) {
                Some(choice) => choice,
                None => SwitchOrder::Existing,
            },
            None => SwitchOrder::Existing,
        },
        switch_apps_enable: reader.read_bool("switch-apps", "enable", false),
        switch_apps_hotkey: reader.read_hotkeys("switch-apps", "hotkey", SWITCH_APPS_HOTKEY_ID, "switch apps", (0x38, 0x38, 0x0f)),
        switch_apps_ignore_minimal: reader.read_bool("switch-apps", "ignore_minimal", false),
        switch_apps_override_icons: reader.read_overrides("switch-apps", "override_icons"),
        switch_apps_show_badge: reader.read_bool("switch-apps", "show_badge", true),
        switch_apps_badge_max: reader.read_int("switch-apps", "badge_max", 2, 9999, 99),
        switch_apps_badge_color: reader.read_color("switch-apps", "badge_color", 0x4c7094),
        switch_apps_badge_text_color: reader.read_color("switch-apps", "badge_text_color", 0xffffff),
        switch_apps_badge_font_size: reader.read_int("switch-apps", "badge_font_size", 8, 24, 12),
        badge_font_family: reader.read_family("switch-apps", "badge_font_family", "Segoe UI"),
        badge_font_file: reader.read_file("switch-apps", "badge_font_file"),
        switch_apps_only_current_desktop: reader.read_auto_bool("switch-apps", "only_current_desktop"),
        switch_apps_blacklist: reader.read_list("switch-apps", "blacklist", MAX_NAME_UNITS, no_strings()),
        switch_apps_include_topmost: reader.read_bool("switch-apps", "include_topmost", false),
        switch_apps_include_tool_windows: reader.read_bool("switch-apps", "include_tool_windows", false),
        switch_apps_include_untitled: reader.read_bool("switch-apps", "include_untitled", false),
        switch_apps_min_width: reader.read_int("switch-apps", "min_width", 0, 4096, 120),
        switch_apps_min_height: reader.read_int("switch-apps", "min_height", 0, 4096, 90),
        switch_apps_exclude_titles: reader.read_list("switch-apps", "exclude_titles", MAX_TITLE_UNITS, single("Windows Input Experience")),
        switch_apps_exclude_processes: reader.read_list("switch-apps", "exclude_processes", MAX_NAME_UNITS, no_strings()),
        switch_apps_badge_shape: match reader.effective("switch-apps", "badge_shape") {
            Some(text) => match BadgeShape::parse(text.as_str()) {
                Some(choice) => choice,
                None => BadgeShape::Circle,
            },
            None => BadgeShape::Circle,
        },
        switch_apps_badge_size: reader.read_auto_int("switch-apps", "badge_size", 16, 48),
        switch_apps_order: match reader.effective("switch-apps", "order") {
            Some(text) => match SwitchOrder::parse(text.as_str()) {
                Some(choice) => choice,
                None => SwitchOrder::Existing,
            },
            None => SwitchOrder::Existing,
        },
        unknown_foreground: match reader.effective("input", "unknown_foreground") {
            Some(text) => match ForegroundPolicy::parse(text.as_str()) {
                Some(choice) => choice,
                None => ForegroundPolicy::Passthrough,
            },
            None => ForegroundPolicy::Passthrough,
        },
        injected_events: match reader.effective("input", "injected_events") {
            Some(text) => match InjectedPolicy::parse(text.as_str()) {
                Some(choice) => choice,
                None => InjectedPolicy::Handle,
            },
            None => InjectedPolicy::Handle,
        },
        input_paused: reader.read_bool("input", "paused", false),
        pause_hotkey: reader.read_optional_hotkey("input", "pause_hotkey", PAUSE_HOTKEY_ID, "pause"),
        search_enable: reader.read_bool("search", "enable", false),
        search_hotkey: reader.read_hotkey("search", "hotkey", SEARCH_HOTKEY_ID, "search", (0x1d, 0x1d, 0x39)),
        search_match: match reader.effective("search", "match") {
            Some(text) => match SearchMatch::parse(text.as_str()) {
                Some(choice) => choice,
                None => SearchMatch::Fuzzy,
            },
            None => SearchMatch::Fuzzy,
        },
        search_fields: reader.read_fields("search", "fields"),
        search_max_results: reader.read_int("search", "max_results", 10, 200, 50),
        details_enable: reader.read_bool("details", "enable", false),
        details_hotkey: reader.read_hotkey("details", "hotkey", DETAILS_HOTKEY_ID, "details", (0x1d, 0x1d, 0x1c)),
        monitor: match reader.effective("appearance", "monitor") {
            Some(text) => match MonitorPolicy::parse(text.as_str()) {
                Some(choice) => choice,
                None => MonitorPolicy::Cursor,
            },
            None => MonitorPolicy::Cursor,
        },
        use_work_area: reader.read_bool("appearance", "use_work_area", true),
        panel_width: reader.read_int("appearance", "panel_width", 0, 32768, 0),
        panel_height: reader.read_int("appearance", "panel_height", 0, 32768, 0),
        icon_size: reader.read_int("appearance", "icon_size", 24, 256, 64),
        icon_padding: reader.read_int("appearance", "icon_padding", 0, 64, 4),
        item_gap: reader.read_int("appearance", "item_gap", 0, 64, 0),
        panel_padding: reader.read_int("appearance", "panel_padding", 0, 128, 10),
        max_width: reader.read_int("appearance", "max_width", 0, 32768, 0),
        max_height: reader.read_int("appearance", "max_height", 0, 32768, 0),
        max_columns: reader.read_int("appearance", "max_columns", 0, 128, 0),
        theme: match reader.effective("appearance", "theme") {
            Some(text) => match Theme::parse(text.as_str()) {
                Some(choice) => choice,
                None => Theme::Auto,
            },
            None => Theme::Auto,
        },
        background_color: reader.read_auto_color("appearance", "background_color"),
        background_opacity: reader.read_int("appearance", "background_opacity", 0, 100, 100),
        icon_background_color: reader.read_auto_color("appearance", "icon_background_color"),
        icon_background_opacity: reader.read_int("appearance", "icon_background_opacity", 0, 100, 0),
        selection_color: reader.read_auto_color("appearance", "selection_color"),
        selection_opacity: reader.read_int("appearance", "selection_opacity", 0, 100, 100),
        selection_border_color: reader.read_auto_color("appearance", "selection_border_color"),
        selection_border_width: reader.read_int("appearance", "selection_border_width", 0, 6, 2),
        panel_corner_radius: reader.read_auto_int("appearance", "panel_corner_radius", 0, 256),
        icon_corner_radius: reader.read_auto_int("appearance", "icon_corner_radius", 0, 128),
        selection_corner_radius: reader.read_auto_int("appearance", "selection_corner_radius", 0, 128),
        app_name_mode: match reader.effective("appearance", "app_name_mode") {
            Some(text) => match AppNameMode::parse(text.as_str()) {
                Some(choice) => choice,
                None => AppNameMode::Off,
            },
            None => AppNameMode::Off,
        },
        app_name_font_family: reader.read_family("appearance", "app_name_font_family", "auto"),
        app_name_font_file: reader.read_file("appearance", "app_name_font_file"),
        app_name_font_size: reader.read_int("appearance", "app_name_font_size", 12, 48, 14),
        app_name_font_weight: reader.read_weight("appearance", "app_name_font_weight", 400),
        app_name_font_italic: reader.read_bool("appearance", "app_name_font_italic", false),
        app_name_text_color: reader.read_auto_color("appearance", "app_name_text_color"),
        startup_enabled: match reader.effective("startup", "enabled") {
            Some(text) => match StartupEnabled::parse(text.as_str()) {
                Some(choice) => choice,
                None => StartupEnabled::Auto,
            },
            None => StartupEnabled::Auto,
        },
        startup_run_level: match reader.effective("startup", "run_level") {
            Some(text) => match RunLevel::parse(text.as_str()) {
                Some(choice) => choice,
                None => RunLevel::Inherit,
            },
            None => RunLevel::Inherit,
        },
        startup_battery_policy: match reader.effective("startup", "battery_policy") {
            Some(text) => match BatteryPolicy::parse(text.as_str()) {
                Some(choice) => choice,
                None => BatteryPolicy::Inherit,
            },
            None => BatteryPolicy::Inherit,
        },
        startup_command_timeout_ms: reader.read_int("startup", "command_timeout_ms", 500, 30000, 5000),
        config_watch_mode: match reader.effective("config", "watch_mode") {
            Some(text) => match WatchMode::parse(text.as_str()) {
                Some(choice) => choice,
                None => WatchMode::Auto,
            },
            None => WatchMode::Auto,
        },
        config_poll_interval_ms: reader.read_int("config", "poll_interval_ms", 100, 60000, 250),
        config_restart_timeout_ms: reader.read_int("config", "restart_timeout_ms", 1000, 60000, 10000),
        config_retry_delay_ms: reader.read_int("config", "retry_delay_ms", 200, 30000, 1000),
        config_retry_limit: reader.read_int("config", "retry_limit", 0, 10, 3),
        language: match reader.effective("localization", "language") {
            Some(text) => match Language::parse(text.as_str()) {
                Some(choice) => choice,
                None => Language::Chinese,
            },
            None => Language::Chinese,
        },
        log_level: reader.read_level("log", "level", LogLevel::Info),
        log_file: reader.read_file("log", "path"),
        log_max_file_mb: reader.read_int("log", "max_file_mb", 1, 100, 10),
        log_retained_files: reader.read_int("log", "retained_files", 0, 20, 3),
        metrics_enabled: reader.read_bool("performance", "metrics_enabled", false),
        metrics_interval_s: reader.read_int("performance", "metrics_interval_s", 1, 3600, 60),
        icon_cache_limit: reader.read_int("performance", "icon_cache_limit", 16, 1024, 256),
        icon_cache_mb: reader.read_int("performance", "icon_cache_mb", 4, 256, 32),
        icon_failure_ttl_ms: reader.read_int("performance", "icon_failure_ttl_ms", 100, 60000, 3000),
        metadata_cache_limit: reader.read_int("performance", "metadata_cache_limit", 16, 4096, 512),
        metadata_ttl_ms: reader.read_int("performance", "metadata_ttl_ms", 100, 60000, 5000),
        icon_query_timeout_ms: reader.read_int("performance", "icon_query_timeout_ms", 10, 500, 100),
        snapshot_budget_ms: reader.read_int("performance", "snapshot_budget_ms", 5, 500, 50),
        render_scale: match reader.effective("performance", "render_scale") {
            Some(text) => match RenderScale::parse(text.as_str()) {
                Some(choice) => choice,
                None => RenderScale::Auto,
            },
            None => RenderScale::Auto,
        },
        render_budget_mb: reader.read_int("performance", "render_budget_mb", 8, 256, 64),
        mru_limit: reader.read_int("performance", "mru_limit", 16, 4096, 512),
        chrome_user_data_dir: reader.read_directory("browser", "chrome_user_data_dir"),
        edge_user_data_dir: reader.read_directory("browser", "edge_user_data_dir"),
    }
}

impl Config {
    /// The truth value that a text names.
    pub fn to_bool(value: &str) -> (r: Option<bool>)
        ensures
            r == bool_value(value@),
    {
        boolean(value)
    }
}

// ---------------------------------------------------------------------------
// Loading

/// Why a document is no valid configuration.
#[derive(Debug, Clone, PartialEq, Eq)]
pub enum ConfigError {
    /// A value of a declared setting is invalid.
    Invalid { section: String, key: String, value: String },
    /// The sizes of the panel conflict.
    Layout(LayoutError),
    /// The bindings conflict, or input is paused without a way to resume it.
    Bindings(BindingProblem),
}

/// The first entry, from a place on, whose value is refused.
pub open spec fn first_rejected(entries: Seq<EntryView>, from: int) -> Option<EntryView>
    decreases entries.len() - from,
{
    if from < 0 || from >= entries.len() {
        None
    } else if rejected(entries[from].0, entries[from].1, entries[from].2) {
        Some(entries[from])
    } else {
        first_rejected(entries, from + 1)
    }
}

/// Whether a load result is the one that the document has. Every value of a declared setting is
/// checked, also those that do not decide the setting.
pub open spec fn is_loaded(r: Result<Config, ConfigError>, d: Seq<SectionView>) -> bool {
    match first_rejected(entries_of(d), 0) {
        Some(entry) => r matches Err(ConfigError::Invalid { section, key, value }) && section@
            == entry.0 && key@ == entry.1 && value@ == entry.2,
        None => match r {
            Ok(config) => {
                &&& config.reads(d)
                &&& config.layout_options().conflict() is None
                &&& bindings_problem(config) is None
            },
            Err(ConfigError::Layout(error)) => exists|config: Config| #[trigger]
                config.reads(d) && config.layout_options().conflict() == Some(error),
            Err(ConfigError::Bindings(problem)) => exists|config: Config| #[trigger]
                config.reads(d) && config.layout_options().conflict() is None && bindings_problem(
                    config,
                ) == Some(problem),
            Err(ConfigError::Invalid { .. }) => false,
        },
    }
}

impl Config {
    /// The sizes of the panel.
    pub open spec fn layout_options(self) -> LayoutOptions {
        LayoutOptions {
            panel_width: self.panel_width,
            panel_height: self.panel_height,
            icon_size: self.icon_size,
            icon_padding: self.icon_padding,
            item_gap: self.item_gap,
            panel_padding: self.panel_padding,
            max_width: self.max_width,
            max_height: self.max_height,
            max_columns: self.max_columns,
            name_height: self.name_height() as u32,
        }
    }

    /// Height reserved for the name of the selected application: one and a half lines of its font
    /// and a margin.
    pub open spec fn name_height(self) -> int {
        if self.app_name_mode == AppNameMode::Off {
            0
        } else {
            let height = self.app_name_font_size as int * 3 / 2 + 6;
            if height > u32::MAX {
                u32::MAX as int
            } else {
                height
            }
        }
    }

    /// Reads the settings of a document; a setting with an invalid value has its default.
    pub fn read(document: &IniDocument) -> (r: Config)
        ensures
            r.reads(document@),
    {
        let entries = values(document);
        let reader = Reader { document, entries: &entries };
        build(&reader)
    }

    /// Reads the settings of a document.
    pub fn load(document: &IniDocument) -> (r: Result<Config, ConfigError>)
        ensures
            is_loaded(r, document@),
    {
        let entries = values(document);
        let ghost all = entries_of(document@);
        let mut i: usize = 0;
        while i < entries.len()
            invariant
                i <= entries@.len(),
                entry_views(entries@) == all,
                all == entries_of(document@),
                first_rejected(all, 0) == first_rejected(all, i as int),
            decreases entries@.len() - i,
        {
            assert(all[i as int] == entries@[i as int]@);
            if rejects(
                entries[i].section.as_str(),
                entries[i].key.as_str(),
                entries[i].value.as_str(),
            ) {
                return Err(
                    ConfigError::Invalid {
                        section: entries[i].section.clone(),
                        key: entries[i].key.clone(),
                        value: entries[i].value.clone(),
                    },
                );
            }
            i += 1;
        }
        let reader = Reader { document, entries: &entries };
        let config = build(&reader);
        match LayoutOptions::from_config(&config).validate() {
            Err(error) => {
                return Err(ConfigError::Layout(error));
            },
            Ok(()) => {},
        }
        match crate::config::bindings::validate(&config) {
            Err(problem) => Err(ConfigError::Bindings(problem)),
            Ok(()) => Ok(config),
        }
    }
}

impl LayoutOptions {
    /// The sizes of the panel that a configuration asks for.
    pub fn from_config(config: &Config) -> (r: LayoutOptions)
        ensures
            r == config.layout_options(),
    {
        let name_height: u32 = if config.app_name_mode == AppNameMode::Off {
            0
        } else {
            let height: u64 = config.app_name_font_size as u64 * 3 / 2 + 6;
            if height > u32::MAX as u64 {
                u32::MAX
            } else {
                height as u32
            }
        };
        LayoutOptions {
            panel_width: config.panel_width,
            panel_height: config.panel_height,
            icon_size: config.icon_size,
            icon_padding: config.icon_padding,
            item_gap: config.item_gap,
            panel_padding: config.panel_padding,
            max_width: config.max_width,
            max_height: config.max_height,
            max_columns: config.max_columns,
            name_height,
        }
    }
}

// ---------------------------------------------------------------------------
// Laws of a configuration

/// A document without a value has no entry.
pub proof fn no_entry_in_blank(d: Seq<SectionView>)
    requires
        crate::config::document::blank(d),
    ensures
        entries_of(d).len() == 0,
    decreases d.len(),
{
    if d.len() > 0 {
        assert forall|i: int| 0 <= i < d.drop_last().len() implies (
        #[trigger] d.drop_last()[i]).1.len() == 0 by {
            assert(d.drop_last()[i] == d[i]);
        }
        no_entry_in_blank(d.drop_last());
        assert(d[d.len() - 1].1.len() == 0);
    }
}

proof fn no_lookup_in_blank(
    d: Seq<SectionView>,
    name: Option<Seq<char>>,
    key: Seq<char>,
    from: int,
)
    requires
        crate::config::document::blank(d),
    ensures
        lookup(d, name, key, from) is None,
    decreases d.len() - from,
{
    if 0 <= from < d.len() {
        assert(d[from].1.len() == 0);
        no_lookup_in_blank(d, name, key, from + 1);
    }
}

/// A document without values gives every setting its default.
#[verifier::rlimit(80)]
pub proof fn blank_document_gives_defaults(config: Config, d: Seq<SectionView>)
    requires
        crate::config::document::blank(d),
        config.reads(d),
    ensures
        config.is_default(),
{
    no_entry_in_blank(d);
    assert forall|section: Seq<char>, key: Seq<char>| #[trigger]
        effective(d, section, key) is None by {
        reveal(effective);
        let name = if section.len() == 0 {
            None
        } else {
            Some(section)
        };
        no_lookup_in_blank(d, name, key, 0);
        assert(values_of(entries_of(d), section, key).len() == 0);
    }
    reveal(bool_setting);
    reveal(auto_bool_setting);
    reveal(int_setting);
    reveal(auto_int_setting);
    reveal(color_setting);
    reveal(auto_color_setting);
    reveal(weight_setting);
    reveal(family_setting);
    reveal(file_setting);
    reveal(directory_setting);
    reveal(level_setting);
    reveal(list_setting);
    reveal(overrides_setting);
    reveal(fields_setting);
    reveal(hotkeys_setting);
    reveal(hotkey_setting);
    reveal(optional_hotkey_setting);
}

/// No declared setting with an invalid value, at whatever place, is loaded.
pub proof fn every_value_is_checked(r: Result<Config, ConfigError>, d: Seq<SectionView>, i: int)
    requires
        is_loaded(r, d),
        0 <= i < entries_of(d).len(),
        rejected(entries_of(d)[i].0, entries_of(d)[i].1, entries_of(d)[i].2),
    ensures
        r matches Err(ConfigError::Invalid { .. }),
{
    rejection_is_found(entries_of(d), 0, i);
}

proof fn rejection_is_found(entries: Seq<EntryView>, from: int, i: int)
    requires
        0 <= from <= i < entries.len(),
        rejected(entries[i].0, entries[i].1, entries[i].2),
    ensures
        first_rejected(entries, from) is Some,
    decreases i - from,
{
    if from < i {
        rejection_is_found(entries, from + 1, i);
    }
}

proof fn section_entry_listed(d: Seq<SectionView>, i: int, j: int)
    requires
        0 <= i < d.len(),
        0 <= j < d[i].1.len(),
    ensures
        entries_of(d).contains(
            (crate::config::document::section_key(d[i].0), d[i].1[j].0, d[i].1[j].1),
        ),
    decreases d.len(),
{
    let entry = (crate::config::document::section_key(d[i].0), d[i].1[j].0, d[i].1[j].1);
    let front = entries_of(d.drop_last());
    let back = crate::config::document::section_entries(d.last());
    if i < d.len() - 1 {
        section_entry_listed(d.drop_last(), i, j);
        let k = choose|k: int| 0 <= k < front.len() && front[k] == entry;
        assert((front + back)[k] == entry);
    } else {
        assert(back[j] == entry);
        assert((front + back)[front.len() + j] == entry);
    }
}

proof fn found_property_listed(
    d: Seq<SectionView>,
    name: Option<Seq<char>>,
    key: Seq<char>,
    i: int,
    place: int,
)
    requires
        0 <= i < d.len(),
        d[i].0 == name,
        0 <= place,
        crate::config::document::property(d[i].1, key, place) is Some,
    ensures
        entries_of(d).contains(
            (
                crate::config::document::section_key(name),
                key,
                crate::config::document::property(d[i].1, key, place)->0,
            ),
        ),
    decreases d[i].1.len() - place,
{
    if d[i].1[place].0 == key {
        section_entry_listed(d, i, place);
    } else {
        found_property_listed(d, name, key, i, place + 1);
    }
}

proof fn found_value_listed(d: Seq<SectionView>, name: Option<Seq<char>>, key: Seq<char>, from: int)
    requires
        0 <= from,
        lookup(d, name, key, from) is Some,
    ensures
        entries_of(d).contains(
            (crate::config::document::section_key(name), key, lookup(d, name, key, from)->0),
        ),
    decreases d.len() - from,
{
    if d[from].0 == name {
        found_property_listed(d, name, key, from, 0);
    } else {
        found_value_listed(d, name, key, from + 1);
    }
}

proof fn last_value_listed(entries: Seq<EntryView>, section: Seq<char>, key: Seq<char>)
    requires
        values_of(entries, section, key).len() > 0,
    ensures
        entries.contains((section, key, values_of(entries, section, key).last())),
    decreases entries.len(),
{
    let front = entries.drop_last();
    if entries.last().0 == section && entries.last().1 == key {
        assert(entries[entries.len() - 1] == (section, key, entries.last().2));
    } else {
        last_value_listed(front, section, key);
        let entry = (section, key, values_of(front, section, key).last());
        let k = choose|k: int| 0 <= k < front.len() && front[k] == entry;
        assert(entries[k] == entry);
    }
}

/// The text that decides a setting is one of its values in the document.
pub proof fn effective_is_listed(d: Seq<SectionView>, section: Seq<char>, key: Seq<char>)
    requires
        effective(d, section, key) is Some,
    ensures
        entries_of(d).contains((section, key, effective(d, section, key)->0)),
{
    reveal(effective);
    let name = if section.len() == 0 {
        None
    } else {
        Some(section)
    };
    if lookup(d, name, key, 0) is Some {
        found_value_listed(d, name, key, 0);
        assert(crate::config::document::section_key(name) =~= section);
    } else {
        last_value_listed(entries_of(d), section, key);
    }
}

/// A setting that has a value in the document is decided by one.
pub proof fn listed_is_effective(d: Seq<SectionView>, section: Seq<char>, key: Seq<char>, i: int)
    requires
        0 <= i < entries_of(d).len(),
        entries_of(d)[i].0 == section,
        entries_of(d)[i].1 == key,
    ensures
        effective(d, section, key) is Some,
{
    reveal(effective);
    has_values(entries_of(d), section, key, i);
}

proof fn has_values(entries: Seq<EntryView>, section: Seq<char>, key: Seq<char>, i: int)
    requires
        0 <= i < entries.len(),
        entries[i].0 == section,
        entries[i].1 == key,
    ensures
        values_of(entries, section, key).len() > 0,
    decreases entries.len(),
{
    if i < entries.len() - 1 {
        has_values(entries.drop_last(), section, key, i);
    }
}

/// The text that decides a setting of a loaded configuration stands in the document and is valid.
pub proof fn deciding_value_is_valid(
    config: Config,
    d: Seq<SectionView>,
    section: Seq<char>,
    key: Seq<char>,
)
    requires
        is_loaded(Ok(config), d),
        effective(d, section, key) is Some,
    ensures
        entries_of(d).contains((section, key, effective(d, section, key)->0)),
        !rejected(section, key, effective(d, section, key)->0),
{
    reveal(effective);
    let text = effective(d, section, key)->0;
    let name = if section.len() == 0 {
        None
    } else {
        Some(section)
    };
    if lookup(d, name, key, 0) is Some {
        found_value_listed(d, name, key, 0);
        assert(crate::config::document::section_key(name) =~= section);
    } else {
        last_value_listed(entries_of(d), section, key);
    }
    let i = choose|i: int|
        0 <= i < entries_of(d).len() && entries_of(d)[i] == (section, key, text);
    if rejected(section, key, text) {
        rejection_is_found(entries_of(d), 0, i);
    }
}

}
