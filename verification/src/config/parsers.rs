//! Parsers of setting values.

use vstd::prelude::*;

use crate::config::hotkey::Hotkey;
use crate::text::{
    all_white, chars_of, contains_char, contains_control, has_char, has_control, is_text, is_white,
    parse_unsigned, pieces, same_chars, split_at_char, split_either, string_of, strings, texts,
    trim, trimmed, trimming_takes_white_space_away, unsigned, utf16_len, utf16_longer,
};

verus! {

/// Longest path in UTF-16 units.
pub const MAX_PATH_UNITS: u64 = 32767;

/// Longest process name or pattern in UTF-16 units.
pub const MAX_NAME_UNITS: u64 = 260;

/// Longest window title in UTF-16 units.
pub const MAX_TITLE_UNITS: u64 = 4096;

/// Largest number of list items or icon overrides.
pub const MAX_LIST_ITEMS: usize = 256;

/// Longest font family name in characters.
pub const MAX_FAMILY_CHARS: usize = 128;

/// The truth value that a text names.
pub open spec fn bool_value(value: Seq<char>) -> Option<bool> {
    if value == "yes"@ || value == "true"@ || value == "on"@ || value == "1"@ {
        Some(true)
    } else if value == "no"@ || value == "false"@ || value == "off"@ || value == "0"@ {
        Some(false)
    } else {
        None
    }
}

pub fn boolean(value: &str) -> (r: Option<bool>)
    ensures
        r == bool_value(value@),
{
    let value = chars_of(value);
    let value = value.as_slice();
    if is_text(value, "yes") || is_text(value, "true") || is_text(value, "on") || is_text(
        value,
        "1",
    ) {
        Some(true)
    } else if is_text(value, "no") || is_text(value, "false") || is_text(value, "off") || is_text(
        value,
        "0",
    ) {
        Some(false)
    } else {
        None
    }
}

/// A truth value, or `auto` for none.
pub open spec fn auto_bool_value(value: Seq<char>) -> Option<Option<bool>> {
    if value == "auto"@ {
        Some(None)
    } else {
        match bool_value(value) {
            Some(b) => Some(Some(b)),
            None => None,
        }
    }
}

pub fn automatic_bool(value: &str) -> (r: Option<Option<bool>>)
    ensures
        r == auto_bool_value(value@),
{
    if crate::text::same_str(value, "auto") {
        Some(None)
    } else {
        match boolean(value) {
            Some(b) => Some(Some(b)),
            None => None,
        }
    }
}

/// A decimal integer of the range.
pub open spec fn int_value(value: Seq<char>, minimum: u32, maximum: u32) -> Option<u32> {
    match unsigned(value, u32::MAX as nat) {
        Some(n) => if minimum <= n && n <= maximum {
            Some(n as u32)
        } else {
            None
        },
        None => None,
    }
}

pub fn integer(value: &str, minimum: u32, maximum: u32) -> (r: Option<u32>)
    ensures
        r == int_value(value@, minimum, maximum),
{
    let value = chars_of(value);
    match parse_unsigned(value.as_slice(), u32::MAX as u64) {
        Some(n) => if minimum as u64 <= n && n <= maximum as u64 {
            Some(n as u32)
        } else {
            None
        },
        None => None,
    }
}

/// A decimal integer of the range, or `auto` for none.
pub open spec fn auto_int_value(value: Seq<char>, minimum: u32, maximum: u32) -> Option<
    Option<u32>,
> {
    if value == "auto"@ {
        Some(None)
    } else {
        match int_value(value, minimum, maximum) {
            Some(n) => Some(Some(n)),
            None => None,
        }
    }
}

pub fn automatic_integer(value: &str, minimum: u32, maximum: u32) -> (r: Option<Option<u32>>)
    ensures
        r == auto_int_value(value@, minimum, maximum),
{
    if crate::text::same_str(value, "auto") {
        Some(None)
    } else {
        match integer(value, minimum, maximum) {
            Some(n) => Some(Some(n)),
            None => None,
        }
    }
}

/// The value of a hexadecimal digit.
pub open spec fn hex_digit(c: char) -> Option<nat> {
    if '0' <= c && c <= '9' {
        Some((c as u32 - '0' as u32) as nat)
    } else if 'a' <= c && c <= 'f' {
        Some((c as u32 - 'a' as u32 + 10) as nat)
    } else if 'A' <= c && c <= 'F' {
        Some((c as u32 - 'A' as u32 + 10) as nat)
    } else {
        None
    }
}

/// Whether every character is a hexadecimal digit.
pub open spec fn all_hex(s: Seq<char>) -> bool {
    forall|i: int| 0 <= i < s.len() ==> hex_digit(#[trigger] s[i]) is Some
}

/// The value of a sequence of hexadecimal digits.
pub open spec fn hex_value(s: Seq<char>) -> nat
    decreases s.len(),
{
    if s.len() == 0 {
        0
    } else {
        hex_value(s.drop_last()) * 16 + (match hex_digit(s.last()) {
            Some(d) => d,
            None => 0,
        })
    }
}

/// The text without one leading `#`.
pub open spec fn without_hash(value: Seq<char>) -> Seq<char> {
    if value.len() > 0 && value[0] == '#' {
        value.drop_first()
    } else {
        value
    }
}

/// A colour of six hexadecimal digits, with an optional leading `#`.
pub open spec fn color_value(value: Seq<char>) -> Option<u32> {
    let hex = without_hash(value);
    if hex.len() == 6 && all_hex(hex) {
        Some(hex_value(hex) as u32)
    } else {
        None
    }
}

fn hex_digit_of(c: char) -> (r: Option<u32>)
    ensures
        r is Some == hex_digit(c) is Some,
        r is Some ==> r->0 == hex_digit(c)->0 && r->0 < 16,
{
    if '0' <= c && c <= '9' {
        Some(c as u32 - '0' as u32)
    } else if 'a' <= c && c <= 'f' {
        Some(c as u32 - 'a' as u32 + 10)
    } else if 'A' <= c && c <= 'F' {
        Some(c as u32 - 'A' as u32 + 10)
    } else {
        None
    }
}

pub fn parse_color(value: &str) -> (r: Option<u32>)
    ensures
        r == color_value(value@),
{
    let chars = chars_of(value);
    let from: usize = if chars.len() > 0 && chars[0] == '#' {
        1
    } else {
        0
    };
    let ghost hex = without_hash(value@);
    assert(hex == chars@.skip(from as int));
    if chars.len() - from != 6 {
        return None;
    }
    let mut total: u32 = 0;
    let mut limit: u32 = 1;
    for i in 0..6usize
        invariant
            hex.len() == 6,
            hex == without_hash(value@),
            from <= 1,
            from + 6 == chars@.len(),
            hex == chars@.skip(from as int),
            limit <= 0x100_0000,
            i == 0 ==> limit == 1,
            i == 1 ==> limit == 0x10,
            i == 2 ==> limit == 0x100,
            i == 3 ==> limit == 0x1000,
            i == 4 ==> limit == 0x1_0000,
            i == 5 ==> limit == 0x10_0000,
            total < limit,
            total == hex_value(hex.take(i as int)),
            forall|k: int| 0 <= k < i ==> hex_digit(#[trigger] hex[k]) is Some,
    {
        assert(hex[i as int] == chars@[from + i]);
        assert(hex.take(i + 1).drop_last() == hex.take(i as int));
        match hex_digit_of(chars[from + i]) {
            Some(digit) => {
                total = total * 16 + digit;
                limit = limit * 16;
            },
            None => {
                return None;
            },
        }
    }
    assert(hex.take(6) == hex);
    Some(total)
}

pub fn color(value: &str) -> (r: Option<u32>)
    ensures
        r == color_value(value@),
{
    parse_color(value)
}

/// A colour that begins with `#`, or `auto` for none.
pub open spec fn auto_color_value(value: Seq<char>) -> Option<Option<u32>> {
    if value == "auto"@ {
        Some(None)
    } else if value.len() > 0 && value[0] == '#' {
        match color_value(value) {
            Some(c) => Some(Some(c)),
            None => None,
        }
    } else {
        None
    }
}

pub fn automatic_color(value: &str) -> (r: Option<Option<u32>>)
    ensures
        r == auto_color_value(value@),
{
    if crate::text::same_str(value, "auto") {
        return Some(None);
    }
    let chars = chars_of(value);
    if chars.len() == 0 || chars[0] != '#' {
        return None;
    }
    match color(value) {
        Some(c) => Some(Some(c)),
        None => None,
    }
}

pub fn radius(value: &str, maximum: u32) -> (r: Option<Option<u32>>)
    ensures
        r == auto_int_value(value@, 0, maximum),
{
    automatic_integer(value, 0, maximum)
}

/// A font family: one to 128 characters, none of them a control character.
pub open spec fn family_value(value: Seq<char>) -> Option<Seq<char>> {
    let name = trimmed(value);
    if name.len() == 0 || name.len() > MAX_FAMILY_CHARS || has_control(name) {
        None
    } else {
        Some(name)
    }
}

/// The view of an optional string.
pub open spec fn optional_view(value: Option<String>) -> Option<Seq<char>> {
    match value {
        Some(text) => Some(text@),
        None => None,
    }
}

pub fn font_family(value: &str) -> (r: Option<String>)
    ensures
        optional_view(r) == family_value(value@),
{
    let chars = chars_of(value);
    let name = trim(chars.as_slice());
    if name.len() == 0 || name.len() > MAX_FAMILY_CHARS || contains_control(name.as_slice()) {
        None
    } else {
        Some(string_of(name.as_slice()))
    }
}

/// Whether a text can be a path: no NUL, at most 32767 UTF-16 units.
pub open spec fn is_path(value: Seq<char>) -> bool {
    !has_char(value, '\0') && utf16_len(value) <= MAX_PATH_UNITS
}

/// A path, or blank text for none.
pub open spec fn file_value(value: Seq<char>) -> Option<Option<Seq<char>>> {
    if trimmed(value).len() == 0 {
        Some(None)
    } else if is_path(value) {
        Some(Some(value))
    } else {
        None
    }
}

/// The view of a parsed optional string.
pub open spec fn file_view(value: Option<Option<String>>) -> Option<Option<Seq<char>>> {
    match value {
        Some(file) => Some(optional_view(file)),
        None => None,
    }
}

/// A font file. A relative path stands for a file beside the configuration file.
pub fn font_file(value: &str) -> (r: Option<Option<String>>)
    ensures
        file_view(r) == file_value(value@),
{
    let chars = chars_of(value);
    let visible = trim(chars.as_slice());
    if visible.len() == 0 {
        return Some(None);
    }
    if contains_char(chars.as_slice(), '\0') || utf16_longer(chars.as_slice(), MAX_PATH_UNITS) {
        return None;
    }
    Some(Some(value.to_owned()))
}

/// A log file. A relative path stands for a file beside the program.
pub fn log_path(value: &str) -> (r: Option<Option<String>>)
    ensures
        file_view(r) == file_value(value@),
{
    font_file(value)
}

/// A font weight: a multiple of one hundred from 100 to 900.
pub open spec fn weight_value(value: Seq<char>) -> Option<u32> {
    match int_value(value, 100, 900) {
        Some(n) => if n % 100 == 0 {
            Some(n)
        } else {
            None
        },
        None => None,
    }
}

pub fn font_weight(value: &str) -> (r: Option<u32>)
    ensures
        r == weight_value(value@),
{
    match integer(value, 100, 900) {
        Some(n) => if n % 100 == 0 {
            Some(n)
        } else {
            None
        },
        None => None,
    }
}

/// The text of a binding list: the default where the value is blank.
pub open spec fn binding_text(value: Seq<char>, default: Seq<char>) -> Seq<char> {
    if trimmed(value).len() == 0 {
        default
    } else {
        value
    }
}

pub fn hotkeys(value: &str, id: u32, name: &str, default: &str) -> (r: Option<Vec<Hotkey>>)
    ensures
        r is Some <==> crate::config::hotkey::hotkeys_valid(binding_text(value@, default@)),
        r is Some ==> crate::config::hotkey::are_hotkeys(
            r->0@,
            id,
            name@,
            binding_text(value@, default@),
        ),
{
    let chars = chars_of(value);
    let visible = trim(chars.as_slice());
    let text = if visible.len() == 0 {
        default
    } else {
        value
    };
    match crate::config::hotkey::parse_hotkeys(id, name, text) {
        Ok(list) => Some(list),
        Err(_) => None,
    }
}

/// The trimmed pieces of a list that are not empty.
pub open spec fn visible_parts(parts: Seq<Seq<char>>) -> Seq<Seq<char>>
    decreases parts.len(),
{
    if parts.len() == 0 {
        seq![]
    } else {
        let rest = visible_parts(parts.drop_last());
        if trimmed(parts.last()).len() == 0 {
            rest
        } else {
            rest.push(trimmed(parts.last()))
        }
    }
}

/// The items of a comma separated list.
pub open spec fn list_items(value: Seq<char>) -> Seq<Seq<char>> {
    visible_parts(split_at_char(value, ','))
}

/// The items of a list without repetitions, each at its first place.
pub open spec fn distinct(items: Seq<Seq<char>>) -> Seq<Seq<char>>
    decreases items.len(),
{
    if items.len() == 0 {
        seq![]
    } else {
        let rest = distinct(items.drop_last());
        if rest.contains(items.last()) {
            rest
        } else {
            rest.push(items.last())
        }
    }
}

/// Whether a list is within the limits on the number and the length of its items.
pub open spec fn list_valid(value: Seq<char>, item_limit: u64) -> bool {
    let items = list_items(value);
    items.len() <= MAX_LIST_ITEMS && forall|i: int|
        0 <= i < items.len() ==> !has_char(#[trigger] items[i], '\0') && utf16_len(items[i])
            <= item_limit
}

/// The trimmed pieces that are not empty.
pub fn visible(parts: &Vec<Vec<char>>) -> (r: Vec<Vec<char>>)
    ensures
        texts(r@) == visible_parts(texts(parts@)),
{
    let mut r: Vec<Vec<char>> = Vec::new();
    let ghost all = texts(parts@);
    assert(texts(r@) == visible_parts(all.take(0)));
    for i in 0..parts.len()
        invariant
            all == texts(parts@),
            texts(r@) == visible_parts(all.take(i as int)),
    {
        assert(all.take(i + 1).drop_last() == all.take(i as int));
        assert(all[i as int] == parts@[i as int]@);
        let part = trim(parts[i].as_slice());
        let ghost before = r@;
        if part.len() != 0 {
            r.push(part);
            assert(texts(r@) == texts(before).push(r@.last()@));
        }
    }
    assert(all.take(all.len() as int) == all);
    r
}

/// Whether a list of strings holds the characters.
pub fn holds(list: &Vec<String>, chars: &[char]) -> (r: bool)
    ensures
        r == strings(list@).contains(chars@),
{
    for i in 0..list.len()
        invariant
            forall|k: int| 0 <= k < i ==> strings(list@)[k] != chars@,
    {
        let item = chars_of(list[i].as_str());
        if same_chars(item.as_slice(), chars) {
            assert(strings(list@)[i as int] == chars@);
            return true;
        }
    }
    false
}

/// Reads a comma separated list into its distinct items.
pub fn string_list(value: &str, item_limit: u64) -> (r: Option<Vec<String>>)
    ensures
        r is Some <==> list_valid(value@, item_limit),
        r is Some ==> strings(r->0@) == distinct(list_items(value@)),
{
    let chars = chars_of(value);
    let parts = split_either(chars.as_slice(), ',', ',');
    let items = visible(&parts);
    let ghost all = list_items(value@);
    assert(texts(items@) == all);
    assert(items@.len() == all.len());
    if items.len() > MAX_LIST_ITEMS {
        return None;
    }
    let mut r: Vec<String> = Vec::new();
    assert(strings(r@) == distinct(all.take(0)));
    for i in 0..items.len()
        invariant
            all == list_items(value@),
            texts(items@) == all,
            strings(r@) == distinct(all.take(i as int)),
            forall|k: int|
                0 <= k < i ==> !has_char(#[trigger] all[k], '\0') && utf16_len(all[k])
                    <= item_limit,
    {
        assert(all[i as int] == items@[i as int]@);
        assert(all.take(i + 1).drop_last() == all.take(i as int));
        let item = items[i].as_slice();
        if contains_char(item, '\0') || utf16_longer(item, item_limit) {
            return None;
        }
        let ghost before = r@;
        if !holds(&r, item) {
            r.push(string_of(item));
            assert(strings(r@) == strings(before).push(all[i as int]));
        }
    }
    assert(all.take(all.len() as int) == all);
    Some(r)
}

pub fn blacklist(value: &str) -> (r: Option<Vec<String>>)
    ensures
        r is Some <==> list_valid(value@, MAX_NAME_UNITS),
        r is Some ==> strings(r->0@) == distinct(list_items(value@)),
{
    string_list(value, MAX_NAME_UNITS)
}

pub fn titles(value: &str) -> (r: Option<Vec<String>>)
    ensures
        r is Some <==> list_valid(value@, MAX_TITLE_UNITS),
        r is Some ==> strings(r->0@) == distinct(list_items(value@)),
{
    string_list(value, MAX_TITLE_UNITS)
}

/// A directory, or `auto` for none.
pub open spec fn directory_value(value: Seq<char>) -> Option<Option<Seq<char>>> {
    if value == "auto"@ {
        Some(None)
    } else if trimmed(value).len() > 0 && is_path(value) {
        Some(Some(value))
    } else {
        None
    }
}

pub fn directory(value: &str) -> (r: Option<Option<String>>)
    ensures
        file_view(r) == directory_value(value@),
{
    if crate::text::same_str(value, "auto") {
        return Some(None);
    }
    let chars = chars_of(value);
    let visible = trim(chars.as_slice());
    if visible.len() == 0 || contains_char(chars.as_slice(), '\0') || utf16_longer(
        chars.as_slice(),
        MAX_PATH_UNITS,
    ) {
        return None;
    }
    Some(Some(value.to_owned()))
}

/// No item of a list appears twice in its distinct items, and every item is among them.
pub proof fn distinct_items(items: Seq<Seq<char>>)
    ensures
        forall|i: int, j: int|
            0 <= i < j < distinct(items).len() ==> distinct(items)[i] != distinct(items)[j],
        forall|x: Seq<char>| distinct(items).contains(x) <==> items.contains(x),
        distinct(items).len() <= items.len(),
    decreases items.len(),
{
    if items.len() > 0 {
        let front = items.drop_last();
        let rest = distinct(front);
        distinct_items(front);
        assert forall|x: Seq<char>| distinct(items).contains(x) <==> items.contains(x) by {
            if items.contains(x) {
                let i = choose|i: int| 0 <= i < items.len() && items[i] == x;
                if i < front.len() {
                    assert(front[i] == x);
                    assert(front.contains(x));
                    assert(rest.contains(x));
                    let k = choose|k: int| 0 <= k < rest.len() && rest[k] == x;
                    assert(distinct(items)[k] == x);
                } else if rest.contains(x) {
                } else {
                    assert(distinct(items)[rest.len() as int] == x);
                }
            }
            if distinct(items).contains(x) {
                let k = choose|k: int| 0 <= k < distinct(items).len() && distinct(items)[k] == x;
                if k < rest.len() {
                    assert(rest[k] == x);
                    assert(front.contains(x));
                    let i = choose|i: int| 0 <= i < front.len() && front[i] == x;
                    assert(items[i] == x);
                } else {
                    assert(items[items.len() - 1] == x);
                }
            }
        }
    }
}

/// A list without repetitions holds the same items, each once: at its first place among the others.
pub proof fn repeated_items_are_dropped(items: Seq<Seq<char>>, item: Seq<char>)
    ensures
        distinct(items).contains(item) <==> items.contains(item),
        items.contains(item) ==> distinct(items.push(item)) == distinct(items),
        !items.contains(item) ==> distinct(items.push(item)) == distinct(items).push(item),
        distinct(Seq::<Seq<char>>::empty()).len() == 0,
        distinct(items).no_duplicates(),
    decreases items.len(),
{
    assert(items.push(item).drop_last() =~= items);
    if items.len() > 0 {
        let before = items.drop_last();
        let last = items.last();
        repeated_items_are_dropped(before, item);
        repeated_items_are_dropped(before, last);
        assert(items =~= before.push(last));
        let rest = distinct(before);
        assert(items.contains(item) <==> before.contains(item) || item == last) by {
            if before.contains(item) {
                let k = before.index_of(item);
                assert(items[k] == item);
            }
            if items.contains(item) {
                let k = items.index_of(item);
                if k < before.len() {
                    assert(before[k] == item);
                }
            }
            assert(items[items.len() - 1] == last);
        }
        assert(distinct(items).contains(item) <==> rest.contains(item) || item == last) by {
            if rest.contains(item) {
                let k = rest.index_of(item);
                assert(distinct(items)[k] == item);
            }
            if !rest.contains(last) {
                assert(distinct(items)[rest.len() as int] == last);
            }
            if distinct(items).contains(item) {
                let k = distinct(items).index_of(item);
                if k < rest.len() {
                    assert(rest[k] == item);
                }
            }
        }
        assert(distinct(items).no_duplicates()) by {
            if !rest.contains(last) {
                let all = distinct(items);
                assert forall|i: int, j: int| 0 <= i < all.len() && 0 <= j < all.len() && i != j implies all[i]
                    != all[j] by {
                    if i < rest.len() && j < rest.len() {
                        assert(all[i] == rest[i] && all[j] == rest[j]);
                    } else if i < rest.len() {
                        assert(rest.contains(rest[i]));
                    } else {
                        assert(rest.contains(rest[j]));
                    }
                }
            }
        }
    }
}

/// A blank list of bindings stands for the default ones; any other is taken as it is.
pub proof fn blank_bindings_are_the_default(value: Seq<char>, default: Seq<char>)
    ensures
        all_white(value) ==> binding_text(value, default) == default,
        !all_white(value) ==> binding_text(value, default) == value,
{
    let ends = trimming_takes_white_space_away(value);
    if all_white(value) && trimmed(value).len() > 0 {
        let n = ends.0.len() as int;
        assert(value[n] == trimmed(value)[0]);
    }
    if trimmed(value).len() == 0 {
        assert forall|i: int| 0 <= i < value.len() implies is_white(#[trigger] value[i]) by {
            if i < ends.0.len() {
                assert(value[i] == ends.0[i]);
            } else {
                assert(value[i] == ends.1[i - ends.0.len()]);
            }
        }
    }
}

}
