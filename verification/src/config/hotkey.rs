//! Hotkey bindings: a modifier key combined with one main key.

use vstd::prelude::*;

use crate::text::{
    chars_of, is_text, lower, lowered, split_at_char, split_bars, split_either, texts, trim,
    trimmed, bar_pieces,
};

verus! {

/// Identifier of the binding that cycles the windows of one application.
pub const SWITCH_WINDOWS_HOTKEY_ID: u32 = 1;

/// Identifier of the binding that cycles applications.
pub const SWITCH_APPS_HOTKEY_ID: u32 = 2;

/// Identifier of the binding that opens the search panel.
pub const SEARCH_HOTKEY_ID: u32 = 3;

/// Identifier of the binding that pauses and resumes input handling.
pub const PAUSE_HOTKEY_ID: u32 = 4;

/// Identifier of the binding that shows the details of the selected application.
pub const DETAILS_HOTKEY_ID: u32 = 5;

/// A binding of an identified function to a modifier and a key scan code.
#[derive(Debug, Clone, PartialEq, Eq)]
pub struct Hotkey {
    pub id: u32,
    pub name: String,
    pub modifier: [u32; 2],
    pub code: u32,
}

/// The text of a binding could not be read.
#[derive(Debug, Clone, PartialEq, Eq)]
pub struct HotkeyError {
    /// Name of the function whose binding is invalid.
    pub name: String,
}

impl HotkeyError {
    /// The message shown for the error.
    pub fn message(&self) -> (r: String)
        ensures
            r@ == "Invalid "@ + self.name@ + " hotkey"@,
    {
        let mut r = "Invalid ".to_owned();
        crate::text::push_text(&mut r, self.name.as_str());
        crate::text::push_text(&mut r, " hotkey");
        r
    }
}

/// The sequence without its spaces.
pub open spec fn without_spaces(s: Seq<char>) -> Seq<char> {
    s.filter(|c: char| c != ' ')
}

/// The sequence without the prefix `vk_` of virtual key names, wherever it stands.
pub open spec fn without_vk(s: Seq<char>) -> Seq<char>
    decreases s.len(),
{
    if s.len() >= 3 && s[0] == 'v' && s[1] == 'k' && s[2] == '_' {
        without_vk(s.skip(3))
    } else if s.len() > 0 {
        seq![s[0]] + without_vk(s.drop_first())
    } else {
        s
    }
}

/// The form in which the two words of a binding are compared.
pub open spec fn normalized(value: Seq<char>) -> Seq<char> {
    without_vk(without_spaces(lowered(value)))
}

/// The left and right scan codes of a modifier.
pub open spec fn modifier_codes(word: Seq<char>) -> Option<(u32, u32)> {
    if word == "win"@ {
        Some((0x5b, 0x5c))
    } else if word == "alt"@ {
        Some((0x38, 0x38))
    } else if word == "ctrl"@ {
        Some((0x1d, 0x1d))
    } else {
        None
    }
}

/// The scan code of a main key.
pub open spec fn key_code(word: Seq<char>) -> Option<u32> {
    if word == "esc"@ || word == "escape"@ {
        Some(0x01)
    } else if word == "1"@ || word == "!"@ {
        Some(0x02)
    } else if word == "2"@ || word == "@"@ {
        Some(0x03)
    } else if word == "3"@ || word == "#"@ {
        Some(0x04)
    } else if word == "4"@ || word == "$"@ {
        Some(0x05)
    } else if word == "5"@ || word == "%"@ {
        Some(0x06)
    } else if word == "6"@ || word == "^"@ {
        Some(0x07)
    } else if word == "7"@ || word == "&"@ {
        Some(0x08)
    } else if word == "8"@ || word == "*"@ {
        Some(0x09)
    } else if word == "9"@ || word == "("@ {
        Some(0x0a)
    } else if word == "0"@ || word == ")"@ {
        Some(0x0b)
    } else if word == "-"@ || word == "_"@ || word == "oem_minus"@ {
        Some(0x0c)
    } else if word == "+"@ || word == "="@ || word == "oem_plus"@ {
        Some(0x0d)
    } else if word == "bs"@ || word == "backspace"@ {
        Some(0x0e)
    } else if word == "tab"@ {
        Some(0x0f)
    } else if word == "q"@ {
        Some(0x10)
    } else if word == "w"@ {
        Some(0x11)
    } else if word == "e"@ {
        Some(0x12)
    } else if word == "r"@ {
        Some(0x13)
    } else if word == "t"@ {
        Some(0x14)
    } else if word == "y"@ {
        Some(0x15)
    } else if word == "u"@ {
        Some(0x16)
    } else if word == "i"@ {
        Some(0x17)
    } else if word == "o"@ {
        Some(0x18)
    } else if word == "p"@ {
        Some(0x19)
    } else if word == "{"@ || word == "["@ || word == "oem_4"@ {
        Some(0x1a)
    } else if word == "}"@ || word == "]"@ || word == "oem_6"@ {
        Some(0x1b)
    } else if word == "enter"@ || word == "return"@ {
        Some(0x1c)
    } else if word == "a"@ {
        Some(0x1e)
    } else if word == "s"@ {
        Some(0x1f)
    } else if word == "d"@ {
        Some(0x20)
    } else if word == "f"@ {
        Some(0x21)
    } else if word == "g"@ {
        Some(0x22)
    } else if word == "h"@ {
        Some(0x23)
    } else if word == "j"@ {
        Some(0x24)
    } else if word == "k"@ {
        Some(0x25)
    } else if word == "l"@ {
        Some(0x26)
    } else if word == ":"@ || word == ";"@ || word == "oem_1"@ {
        Some(0x27)
    } else if word == "\""@ || word == "'"@ || word == "oem_7"@ {
        Some(0x28)
    } else if word == "~"@ || word == "`"@ || word == "oem_3"@ {
        Some(0x29)
    } else if word == "|"@ || word == "\\"@ || word == "oem_5"@ {
        Some(0x2b)
    } else if word == "z"@ {
        Some(0x2c)
    } else if word == "x"@ {
        Some(0x2d)
    } else if word == "c"@ {
        Some(0x2e)
    } else if word == "v"@ {
        Some(0x2f)
    } else if word == "b"@ {
        Some(0x30)
    } else if word == "n"@ {
        Some(0x31)
    } else if word == "m"@ {
        Some(0x32)
    } else if word == "<"@ || word == ","@ || word == "oem_comma"@ {
        Some(0x33)
    } else if word == ">"@ || word == "."@ || word == "oem_period"@ {
        Some(0x34)
    } else if word == "?"@ || word == "/"@ || word == "oem_2"@ {
        Some(0x35)
    } else if word == "space"@ {
        Some(0x39)
    } else if word == "capslock"@ {
        Some(0x3a)
    } else if word == "f1"@ {
        Some(0x3b)
    } else if word == "f2"@ {
        Some(0x3c)
    } else if word == "f3"@ {
        Some(0x3d)
    } else if word == "f4"@ {
        Some(0x3e)
    } else if word == "f5"@ {
        Some(0x3f)
    } else if word == "f6"@ {
        Some(0x40)
    } else if word == "f7"@ {
        Some(0x41)
    } else if word == "f8"@ {
        Some(0x42)
    } else if word == "f9"@ {
        Some(0x43)
    } else if word == "f10"@ {
        Some(0x44)
    } else if word == "numlock"@ {
        Some(0x45)
    } else if word == "scrolllock"@ {
        Some(0x46)
    } else if word == "home"@ {
        Some(0x47)
    } else if word == "up"@ {
        Some(0x48)
    } else if word == "pageup"@ {
        Some(0x49)
    } else if word == "left"@ {
        Some(0x4b)
    } else if word == "right"@ {
        Some(0x4d)
    } else if word == "end"@ {
        Some(0x4f)
    } else if word == "down"@ {
        Some(0x50)
    } else if word == "pagedown"@ {
        Some(0x51)
    } else if word == "insert"@ {
        Some(0x52)
    } else if word == "delete"@ {
        Some(0x53)
    } else if word == "prtsc"@ || word == "printscreen"@ {
        Some(0x54)
    } else if word == "oem_102"@ {
        Some(0x56)
    } else if word == "f11"@ {
        Some(0x57)
    } else if word == "f12"@ {
        Some(0x58)
    } else if word == "menu"@ {
        Some(0x5d)
    } else {
        None
    }
}

/// The modifier and the scan code that a binding's text denotes.
pub open spec fn parsed(value: Seq<char>) -> Option<((u32, u32), u32)> {
    let words = split_at_char(normalized(value), '+');
    if words.len() != 2 {
        None
    } else {
        match (modifier_codes(words[0]), key_code(words[1])) {
            (Some(modifier), Some(code)) => Some((modifier, code)),
            _ => None,
        }
    }
}

/// Whether a binding has the given identity and the keys that the text denotes.
pub open spec fn is_hotkey(hotkey: Hotkey, id: u32, name: Seq<char>, value: Seq<char>) -> bool {
    &&& hotkey.id == id
    &&& hotkey.name@ == name
    &&& parsed(value) == Some(((hotkey.modifier@[0], hotkey.modifier@[1]), hotkey.code))
}

fn strip_spaces(s: &[char]) -> (r: Vec<char>)
    ensures
        r@ == without_spaces(s@),
{
    let mut r: Vec<char> = Vec::new();
    for i in 0..s.len()
        invariant
            r@ == without_spaces(s@.take(i as int)),
    {
        proof {
            reveal(Seq::filter);
            assert(s@.take(i + 1).drop_last() == s@.take(i as int));
        }
        if s[i] != ' ' {
            r.push(s[i]);
        }
    }
    assert(s@.take(s@.len() as int) == s@);
    r
}

fn strip_vk(s: &[char]) -> (r: Vec<char>)
    ensures
        r@ == without_vk(s@),
{
    let mut r: Vec<char> = Vec::new();
    let mut i: usize = 0;
    assert(s@.skip(0) == s@);
    while i < s.len()
        invariant
            i <= s@.len(),
            without_vk(s@) == r@ + without_vk(s@.skip(i as int)),
        decreases s@.len() - i,
    {
        let ghost rest = s@.skip(i as int);
        if s.len() - i >= 3 && s[i] == 'v' && s[i + 1] == 'k' && s[i + 2] == '_' {
            assert(rest.skip(3) == s@.skip(i + 3));
            i += 3;
        } else {
            assert(rest.drop_first() == s@.skip(i + 1));
            let ghost before = r@;
            r.push(s[i]);
            assert(before + (seq![rest[0]] + without_vk(s@.skip(i + 1))) == r@ + without_vk(
                s@.skip(i + 1),
            ));
            i += 1;
        }
    }
    r
}

fn modifier_of(word: &[char]) -> (r: Option<(u32, u32)>)
    ensures
        r == modifier_codes(word@),
{
    if is_text(word, "win") {
        Some((0x5b, 0x5c))
    } else if is_text(word, "alt") {
        Some((0x38, 0x38))
    } else if is_text(word, "ctrl") {
        Some((0x1d, 0x1d))
    } else {
        None
    }
}

fn code_of(word: &[char]) -> (r: Option<u32>)
    ensures
        r == key_code(word@),
{
    if is_text(word, "esc") || is_text(word, "escape") {
        return Some(0x01);
    }
    if is_text(word, "1") || is_text(word, "!") {
        return Some(0x02);
    }
    if is_text(word, "2") || is_text(word, "@") {
        return Some(0x03);
    }
    if is_text(word, "3") || is_text(word, "#") {
        return Some(0x04);
    }
    if is_text(word, "4") || is_text(word, "$") {
        return Some(0x05);
    }
    if is_text(word, "5") || is_text(word, "%") {
        return Some(0x06);
    }
    if is_text(word, "6") || is_text(word, "^") {
        return Some(0x07);
    }
    if is_text(word, "7") || is_text(word, "&") {
        return Some(0x08);
    }
    if is_text(word, "8") || is_text(word, "*") {
        return Some(0x09);
    }
    if is_text(word, "9") || is_text(word, "(") {
        return Some(0x0a);
    }
    if is_text(word, "0") || is_text(word, ")") {
        return Some(0x0b);
    }
    if is_text(word, "-") || is_text(word, "_") || is_text(word, "oem_minus") {
        return Some(0x0c);
    }
    if is_text(word, "+") || is_text(word, "=") || is_text(word, "oem_plus") {
        return Some(0x0d);
    }
    if is_text(word, "bs") || is_text(word, "backspace") {
        return Some(0x0e);
    }
    if is_text(word, "tab") {
        return Some(0x0f);
    }
    if is_text(word, "q") {
        return Some(0x10);
    }
    if is_text(word, "w") {
        return Some(0x11);
    }
    if is_text(word, "e") {
        return Some(0x12);
    }
    if is_text(word, "r") {
        return Some(0x13);
    }
    if is_text(word, "t") {
        return Some(0x14);
    }
    if is_text(word, "y") {
        return Some(0x15);
    }
    if is_text(word, "u") {
        return Some(0x16);
    }
    if is_text(word, "i") {
        return Some(0x17);
    }
    if is_text(word, "o") {
        return Some(0x18);
    }
    if is_text(word, "p") {
        return Some(0x19);
    }
    if is_text(word, "{") || is_text(word, "[") || is_text(word, "oem_4") {
        return Some(0x1a);
    }
    if is_text(word, "}") || is_text(word, "]") || is_text(word, "oem_6") {
        return Some(0x1b);
    }
    if is_text(word, "enter") || is_text(word, "return") {
        return Some(0x1c);
    }
    if is_text(word, "a") {
        return Some(0x1e);
    }
    if is_text(word, "s") {
        return Some(0x1f);
    }
    if is_text(word, "d") {
        return Some(0x20);
    }
    if is_text(word, "f") {
        return Some(0x21);
    }
    if is_text(word, "g") {
        return Some(0x22);
    }
    if is_text(word, "h") {
        return Some(0x23);
    }
    if is_text(word, "j") {
        return Some(0x24);
    }
    if is_text(word, "k") {
        return Some(0x25);
    }
    if is_text(word, "l") {
        return Some(0x26);
    }
    if is_text(word, ":") || is_text(word, ";") || is_text(word, "oem_1") {
        return Some(0x27);
    }
    if is_text(word, "\"") || is_text(word, "'") || is_text(word, "oem_7") {
        return Some(0x28);
    }
    if is_text(word, "~") || is_text(word, "`") || is_text(word, "oem_3") {
        return Some(0x29);
    }
    if is_text(word, "|") || is_text(word, "\\") || is_text(word, "oem_5") {
        return Some(0x2b);
    }
    if is_text(word, "z") {
        return Some(0x2c);
    }
    if is_text(word, "x") {
        return Some(0x2d);
    }
    if is_text(word, "c") {
        return Some(0x2e);
    }
    if is_text(word, "v") {
        return Some(0x2f);
    }
    if is_text(word, "b") {
        return Some(0x30);
    }
    if is_text(word, "n") {
        return Some(0x31);
    }
    if is_text(word, "m") {
        return Some(0x32);
    }
    if is_text(word, "<") || is_text(word, ",") || is_text(word, "oem_comma") {
        return Some(0x33);
    }
    if is_text(word, ">") || is_text(word, ".") || is_text(word, "oem_period") {
        return Some(0x34);
    }
    if is_text(word, "?") || is_text(word, "/") || is_text(word, "oem_2") {
        return Some(0x35);
    }
    if is_text(word, "space") {
        return Some(0x39);
    }
    if is_text(word, "capslock") {
        return Some(0x3a);
    }
    if is_text(word, "f1") {
        return Some(0x3b);
    }
    if is_text(word, "f2") {
        return Some(0x3c);
    }
    if is_text(word, "f3") {
        return Some(0x3d);
    }
    if is_text(word, "f4") {
        return Some(0x3e);
    }
    if is_text(word, "f5") {
        return Some(0x3f);
    }
    if is_text(word, "f6") {
        return Some(0x40);
    }
    if is_text(word, "f7") {
        return Some(0x41);
    }
    if is_text(word, "f8") {
        return Some(0x42);
    }
    if is_text(word, "f9") {
        return Some(0x43);
    }
    if is_text(word, "f10") {
        return Some(0x44);
    }
    if is_text(word, "numlock") {
        return Some(0x45);
    }
    if is_text(word, "scrolllock") {
        return Some(0x46);
    }
    if is_text(word, "home") {
        return Some(0x47);
    }
    if is_text(word, "up") {
        return Some(0x48);
    }
    if is_text(word, "pageup") {
        return Some(0x49);
    }
    if is_text(word, "left") {
        return Some(0x4b);
    }
    if is_text(word, "right") {
        return Some(0x4d);
    }
    if is_text(word, "end") {
        return Some(0x4f);
    }
    if is_text(word, "down") {
        return Some(0x50);
    }
    if is_text(word, "pagedown") {
        return Some(0x51);
    }
    if is_text(word, "insert") {
        return Some(0x52);
    }
    if is_text(word, "delete") {
        return Some(0x53);
    }
    if is_text(word, "prtsc") || is_text(word, "printscreen") {
        return Some(0x54);
    }
    if is_text(word, "oem_102") {
        return Some(0x56);
    }
    if is_text(word, "f11") {
        return Some(0x57);
    }
    if is_text(word, "f12") {
        return Some(0x58);
    }
    if is_text(word, "menu") {
        return Some(0x5d);
    }
    None
}

impl Hotkey {
    /// Reads a binding for the named function.
    pub fn create(id: u32, name: &str, value: &str) -> (r: Result<Self, HotkeyError>)
        ensures
            match r {
                Ok(hotkey) => is_hotkey(hotkey, id, name@, value@),
                Err(error) => parsed(value@) is None && error.name@ == name@,
            },
    {
        match Self::parse(value) {
            Some((modifier, code)) => Ok(Hotkey { id, name: name.to_owned(), modifier, code }),
            None => Err(HotkeyError { name: name.to_owned() }),
        }
    }

    /// The scan code that identifies the modifier.
    pub fn get_modifier(&self) -> (r: u32)
        ensures
            r == self.modifier@[0],
    {
        self.modifier[0]
    }

    /// Reads the modifier codes and the key code of a binding.
    pub fn parse(value: &str) -> (r: Option<([u32; 2], u32)>)
        ensures
            match r {
                Some((modifier, code)) => parsed(value@) == Some(
                    ((modifier@[0], modifier@[1]), code),
                ),
                None => parsed(value@) is None,
            },
    {
        let value = chars_of(value);
        let value = lower(value.as_slice());
        let value = strip_spaces(value.as_slice());
        let value = strip_vk(value.as_slice());
        let keys = split_either(value.as_slice(), '+', '+');
        assert(texts(keys@).len() == keys@.len());
        if keys.len() != 2 {
            return None;
        }
        assert(texts(keys@)[0] == keys@[0]@ && texts(keys@)[1] == keys@[1]@);
        match (modifier_of(keys[0].as_slice()), code_of(keys[1].as_slice())) {
            (Some((left, right)), Some(code)) => Some(([left, right], code)),
            _ => None,
        }
    }

    /// Whether two bindings agree in every field.
    pub fn same(&self, other: &Hotkey) -> (r: bool)
        ensures
            r == (self.id == other.id && self.name@ == other.name@ && self.modifier@
                == other.modifier@ && self.code == other.code),
    {
        assert(self.modifier@ =~= other.modifier@ <==> self.modifier@[0] == other.modifier@[0]
            && self.modifier@[1] == other.modifier@[1]);
        self.id == other.id && self.modifier[0] == other.modifier[0] && self.modifier[1]
            == other.modifier[1] && self.code == other.code && crate::text::same_str(
            self.name.as_str(),
            other.name.as_str(),
        )
    }
}

/// The trimmed parts of a list of bindings that are not empty.
pub open spec fn hotkey_parts(parts: Seq<Seq<char>>) -> Seq<Seq<char>>
    decreases parts.len(),
{
    if parts.len() == 0 {
        seq![]
    } else {
        let rest = hotkey_parts(parts.drop_last());
        if trimmed(parts.last()).len() == 0 {
            rest
        } else {
            rest.push(trimmed(parts.last()))
        }
    }
}

/// The texts of the single bindings in a `||` separated list.
pub open spec fn listed(value: Seq<char>) -> Seq<Seq<char>> {
    hotkey_parts(bar_pieces(value))
}

/// Whether a list of bindings holds at least one and only readable ones.
pub open spec fn hotkeys_valid(value: Seq<char>) -> bool {
    listed(value).len() > 0 && forall|i: int|
        0 <= i < listed(value).len() ==> parsed(#[trigger] listed(value)[i]) is Some
}

/// Whether the bindings are those of the list, in its order.
pub open spec fn are_hotkeys(
    hotkeys: Seq<Hotkey>,
    id: u32,
    name: Seq<char>,
    value: Seq<char>,
) -> bool {
    hotkeys.len() == listed(value).len() && forall|i: int|
        0 <= i < hotkeys.len() ==> is_hotkey(#[trigger] hotkeys[i], id, name, listed(value)[i])
}

proof fn hotkey_parts_prefix(parts: Seq<Seq<char>>, n: int)
    requires
        0 <= n <= parts.len(),
    ensures
        hotkey_parts(parts.take(n)).len() <= hotkey_parts(parts).len(),
        hotkey_parts(parts).take(hotkey_parts(parts.take(n)).len() as int) == hotkey_parts(
            parts.take(n),
        ),
    decreases parts.len(),
{
    if n == parts.len() {
        assert(parts.take(n) == parts);
    } else {
        hotkey_parts_prefix(parts.drop_last(), n);
        assert(parts.drop_last().take(n) == parts.take(n));
    }
}

/// Reads a `||` separated list of bindings for one function.
pub fn parse_hotkeys(id: u32, name: &str, value: &str) -> (r: Result<Vec<Hotkey>, HotkeyError>)
    ensures
        match r {
            Ok(hotkeys) => hotkeys_valid(value@) && are_hotkeys(hotkeys@, id, name@, value@),
            Err(error) => !hotkeys_valid(value@) && error.name@ == name@,
        },
{
    let chars = chars_of(value);
    let parts = split_bars(chars.as_slice());
    let ghost pieces = bar_pieces(value@);
    let mut hotkeys: Vec<Hotkey> = Vec::new();
    for i in 0..parts.len()
        invariant
            texts(parts@) == pieces,
            pieces == bar_pieces(value@),
            hotkeys@.len() == hotkey_parts(pieces.take(i as int)).len(),
            forall|k: int|
                0 <= k < hotkeys@.len() ==> is_hotkey(
                    #[trigger] hotkeys@[k],
                    id,
                    name@,
                    hotkey_parts(pieces.take(i as int))[k],
                ),
    {
        assert(pieces[i as int] == parts@[i as int]@);
        assert(pieces.take(i + 1).drop_last() == pieces.take(i as int));
        assert(pieces.take(i + 1).last() == parts@[i as int]@);
        let part = trim(parts[i].as_slice());
        if part.len() != 0 {
            let text = crate::text::string_of(part.as_slice());
            match Hotkey::create(id, name, text.as_str()) {
                Ok(hotkey) => {
                    hotkeys.push(hotkey);
                },
                Err(error) => {
                    proof {
                        hotkey_parts_prefix(pieces, i + 1);
                        let whole = hotkey_parts(pieces);
                        let upto = hotkey_parts(pieces.take(i + 1));
                        let k = upto.len() - 1;
                        assert(whole.take(upto.len() as int)[k] == whole[k]);
                        assert(parsed(listed(value@)[k]) is None);
                    }
                    return Err(error);
                },
            }
        }
    }
    assert(pieces.take(pieces.len() as int) == pieces);
    if hotkeys.len() == 0 {
        return Err(HotkeyError { name: name.to_owned() });
    }
    proof {
        assert forall|i: int| 0 <= i < listed(value@).len() implies parsed(
            #[trigger] listed(value@)[i],
        ) is Some by {
            assert(is_hotkey(hotkeys@[i], id, name@, listed(value@)[i]));
        }
    }
    Ok(hotkeys)
}

/// Bindings are read without regard to the case of ASCII letters.
pub proof fn binding_ignores_case(a: Seq<char>, b: Seq<char>)
    requires
        lowered(a) == lowered(b),
    ensures
        parsed(a) == parsed(b),
{
}

/// A space may stand anywhere in a binding without changing what it denotes.
pub proof fn binding_ignores_spaces(a: Seq<char>, b: Seq<char>)
    ensures
        parsed(a + seq![' '] + b) == parsed(a + b),
{
    let keep = |c: char| c != ' ';
    let gap = seq![' '];
    assert(lowered(a + gap + b) == lowered(a) + gap + lowered(b));
    assert(lowered(a + b) == lowered(a) + lowered(b));
    Seq::filter_distributes_over_add(lowered(a) + gap, lowered(b), keep);
    Seq::filter_distributes_over_add(lowered(a), gap, keep);
    Seq::filter_distributes_over_add(lowered(a), lowered(b), keep);
    reveal(Seq::filter);
    assert(gap.drop_last() == Seq::<char>::empty());
    assert(gap.drop_last().filter(keep) == Seq::<char>::empty());
    assert(gap.filter(keep) == Seq::<char>::empty());
    assert(lowered(a).filter(keep) + Seq::<char>::empty() == lowered(a).filter(keep));
}

}
