//! What the words of a binding denote.

use vstd::prelude::*;

use crate::config::hotkey::{
    is_hotkey, key_code, modifier_codes, normalized, parsed, without_spaces, without_vk, Hotkey,
};
use crate::text::{ascii_lower, lowered, pieces, split_at_char, until, until_range};

verus! {

/// Whether a word is written as bindings are compared: without spaces, plus signs and capitals,
/// and without the prefix of virtual key names.
pub open spec fn plain_word(word: Seq<char>) -> bool {
    &&& forall|i: int|
        0 <= i < word.len() ==> #[trigger] word[i] != ' ' && word[i] != '+' && !('A' <= word[i]
            && word[i] <= 'Z')
    &&& forall|i: int| !#[trigger] prefix_at(word, i)
}

/// Whether the prefix of virtual key names stands at a place.
pub open spec fn prefix_at(word: Seq<char>, i: int) -> bool {
    0 <= i < word.len() - 2 && word[i] == 'v' && word[i + 1] == 'k' && word[i + 2] == '_'
}

/// Whether a word is one key of a row of a keyboard whose keys have consecutive scan codes.
pub open spec fn on_row(word: Seq<char>, code: u32, row: Seq<char>, first: u32) -> bool {
    word.len() == 1 && 0 <= code - first < row.len() && word[0] == row[code - first]
}

/// The keys of a US keyboard: four rows with consecutive scan codes, plain and with Shift, and the
/// keys that have names.
pub open spec fn is_key(word: Seq<char>, code: u32) -> bool {
    ||| on_row(word, code, "1234567890-="@, 0x02)
    ||| on_row(word, code, "qwertyuiop[]"@, 0x10)
    ||| on_row(word, code, "asdfghjkl;'`"@, 0x1e)
    ||| on_row(word, code, "\\zxcvbnm,./"@, 0x2b)
    ||| on_row(word, code, "!@#$%^&*()_"@, 0x02)
    ||| on_row(word, code, "{}"@, 0x1a)
    ||| on_row(word, code, ":\"~"@, 0x27)
    ||| on_row(word, code, "|"@, 0x2b)
    ||| on_row(word, code, "<>?"@, 0x33)
    ||| word == "esc"@ && code == 0x01
    ||| word == "escape"@ && code == 0x01
    ||| word == "oem_minus"@ && code == 0x0c
    ||| word == "oem_plus"@ && code == 0x0d
    ||| word == "bs"@ && code == 0x0e
    ||| word == "backspace"@ && code == 0x0e
    ||| word == "tab"@ && code == 0x0f
    ||| word == "oem_4"@ && code == 0x1a
    ||| word == "oem_6"@ && code == 0x1b
    ||| word == "enter"@ && code == 0x1c
    ||| word == "return"@ && code == 0x1c
    ||| word == "oem_1"@ && code == 0x27
    ||| word == "oem_7"@ && code == 0x28
    ||| word == "oem_3"@ && code == 0x29
    ||| word == "oem_5"@ && code == 0x2b
    ||| word == "oem_comma"@ && code == 0x33
    ||| word == "oem_period"@ && code == 0x34
    ||| word == "oem_2"@ && code == 0x35
    ||| word == "space"@ && code == 0x39
    ||| word == "capslock"@ && code == 0x3a
    ||| word == "f1"@ && code == 0x3b
    ||| word == "f2"@ && code == 0x3c
    ||| word == "f3"@ && code == 0x3d
    ||| word == "f4"@ && code == 0x3e
    ||| word == "f5"@ && code == 0x3f
    ||| word == "f6"@ && code == 0x40
    ||| word == "f7"@ && code == 0x41
    ||| word == "f8"@ && code == 0x42
    ||| word == "f9"@ && code == 0x43
    ||| word == "f10"@ && code == 0x44
    ||| word == "numlock"@ && code == 0x45
    ||| word == "scrolllock"@ && code == 0x46
    ||| word == "home"@ && code == 0x47
    ||| word == "up"@ && code == 0x48
    ||| word == "pageup"@ && code == 0x49
    ||| word == "left"@ && code == 0x4b
    ||| word == "right"@ && code == 0x4d
    ||| word == "end"@ && code == 0x4f
    ||| word == "down"@ && code == 0x50
    ||| word == "pagedown"@ && code == 0x51
    ||| word == "insert"@ && code == 0x52
    ||| word == "delete"@ && code == 0x53
    ||| word == "prtsc"@ && code == 0x54
    ||| word == "printscreen"@ && code == 0x54
    ||| word == "oem_102"@ && code == 0x56
    ||| word == "f11"@ && code == 0x57
    ||| word == "f12"@ && code == 0x58
    ||| word == "menu"@ && code == 0x5d
}

/// The two scan codes of a modifier word.
pub open spec fn is_modifier(word: Seq<char>, left: u32, right: u32) -> bool {
    ||| word == "win"@ && left == 0x5b && right == 0x5c
    ||| word == "alt"@ && left == 0x38 && right == 0x38
    ||| word == "ctrl"@ && left == 0x1d && right == 0x1d
}

proof fn nothing_to_lower(s: Seq<char>)
    requires
        forall|i: int| 0 <= i < s.len() ==> !('A' <= #[trigger] s[i] && s[i] <= 'Z'),
    ensures
        lowered(s) == s,
{
    assert forall|i: int| 0 <= i < s.len() implies lowered(s)[i] == s[i] by {
        assert(!('A' <= s[i] && s[i] <= 'Z'));
    }
    assert(lowered(s) =~= s);
}

proof fn no_space_to_strip(s: Seq<char>)
    requires
        forall|i: int| 0 <= i < s.len() ==> #[trigger] s[i] != ' ',
    ensures
        without_spaces(s) == s,
    decreases s.len(),
{
    reveal(Seq::filter);
    let keep = |c: char| c != ' ';
    if s.len() == 0 {
        assert(s.filter(keep) =~= s);
    } else {
        let rest = s.drop_last();
        assert forall|i: int| 0 <= i < rest.len() implies #[trigger] rest[i] != ' ' by {
            assert(rest[i] == s[i]);
        }
        no_space_to_strip(rest);
        assert(s[s.len() - 1] != ' ');
        assert(rest.push(s.last()) =~= s);
    }
}

proof fn no_prefix_to_strip(s: Seq<char>)
    requires
        forall|i: int| !#[trigger] prefix_at(s, i),
    ensures
        without_vk(s) == s,
    decreases s.len(),
{
    if s.len() > 0 {
        let rest = s.drop_first();
        assert forall|i: int| !#[trigger] prefix_at(rest, i) by {
            assert(!prefix_at(s, i + 1));
        }
        assert(!prefix_at(s, 0));
        no_prefix_to_strip(rest);
        assert(seq![s[0]] + rest =~= s);
    }
}

proof fn no_separator(s: Seq<char>)
    requires
        forall|i: int| 0 <= i < s.len() ==> #[trigger] s[i] != '+',
    ensures
        pieces(s, '+', '+') == seq![s],
{
    until_range(s, '+', '+');
}

proof fn no_prefix_joined(modifier: Seq<char>, key: Seq<char>)
    requires
        plain_word(modifier),
        plain_word(key),
    ensures
        forall|i: int| !#[trigger] prefix_at(modifier.push('+') + key, i),
{
    let s = modifier.push('+') + key;
    assert forall|i: int| !#[trigger] prefix_at(s, i) by {
        assert(!prefix_at(modifier, i));
        assert(!prefix_at(key, i - modifier.len() - 1));
        assert(s[modifier.len() as int] == '+');
    }
}

/// The words of a binding that is written plainly are its two words.
proof fn words_are_split(modifier: Seq<char>, key: Seq<char>)
    requires
        plain_word(modifier),
        plain_word(key),
    ensures
        normalized(modifier.push('+') + key) == modifier.push('+') + key,
        split_at_char(normalized(modifier.push('+') + key), '+') == seq![modifier, key],
{
    let s = modifier.push('+') + key;
    assert forall|i: int| 0 <= i < s.len() implies #[trigger] s[i] != ' ' && !('A' <= s[i] && s[i]
        <= 'Z') by {
        if i < modifier.len() {
            assert(s[i] == modifier[i]);
        } else if i > modifier.len() {
            assert(s[i] == key[i - modifier.len() - 1]);
        }
    }
    nothing_to_lower(s);
    no_space_to_strip(s);
    no_prefix_joined(modifier, key);
    no_prefix_to_strip(s);
    assert(normalized(s) == s);
    let at = until(s, '+', '+');
    until_range(s, '+', '+');
    assert(at == modifier.len()) by {
        if at < modifier.len() {
            assert(s[at] == modifier[at]);
        }
        assert(s[modifier.len() as int] == '+');
    }
    assert(s.take(at) =~= modifier);
    assert(s.skip(at + 1) =~= key);
    assert forall|i: int| 0 <= i < key.len() implies #[trigger] key[i] != '+' by {}
    no_separator(key);
    assert(seq![modifier] + seq![key] =~= seq![modifier, key]);
}

proof fn modifier_words(word: Seq<char>)
    ensures
        match modifier_codes(word) {
            Some((left, right)) => is_modifier(word, left, right),
            None => forall|left: u32, right: u32| !is_modifier(word, left, right),
        },
        forall|left: u32, right: u32|
            is_modifier(word, left, right) ==> modifier_codes(word) == Some((left, right)),
{
    reveal_strlit("win");
    reveal_strlit("alt");
    reveal_strlit("ctrl");
    assert("win"@[0] == 'w' && "alt"@[0] == 'a' && "ctrl"@[0] == 'c');
}

#[verifier::rlimit(60)]
proof fn single_keys(c: char, code: u32)
    requires
        c != '+',
    ensures
        key_code(seq![c]) == Some(code) <==> is_key(seq![c], code),
{
    reveal_strlit("esc");
    reveal_strlit("escape");
    reveal_strlit("1");
    reveal_strlit("!");
    reveal_strlit("2");
    reveal_strlit("@");
    reveal_strlit("3");
    reveal_strlit("#");
    reveal_strlit("4");
    reveal_strlit("$");
    reveal_strlit("5");
    reveal_strlit("%");
    reveal_strlit("6");
    reveal_strlit("^");
    reveal_strlit("7");
    reveal_strlit("&");
    reveal_strlit("8");
    reveal_strlit("*");
    reveal_strlit("9");
    reveal_strlit("(");
    reveal_strlit("0");
    reveal_strlit(")");
    reveal_strlit("-");
    reveal_strlit("_");
    reveal_strlit("oem_minus");
    reveal_strlit("+");
    reveal_strlit("=");
    reveal_strlit("oem_plus");
    reveal_strlit("bs");
    reveal_strlit("backspace");
    reveal_strlit("tab");
    reveal_strlit("q");
    reveal_strlit("w");
    reveal_strlit("e");
    reveal_strlit("r");
    reveal_strlit("t");
    reveal_strlit("y");
    reveal_strlit("u");
    reveal_strlit("i");
    reveal_strlit("o");
    reveal_strlit("p");
    reveal_strlit("{");
    reveal_strlit("[");
    reveal_strlit("oem_4");
    reveal_strlit("}");
    reveal_strlit("]");
    reveal_strlit("oem_6");
    reveal_strlit("enter");
    reveal_strlit("return");
    reveal_strlit("a");
    reveal_strlit("s");
    reveal_strlit("d");
    reveal_strlit("f");
    reveal_strlit("g");
    reveal_strlit("h");
    reveal_strlit("j");
    reveal_strlit("k");
    reveal_strlit("l");
    reveal_strlit(":");
    reveal_strlit(";");
    reveal_strlit("oem_1");
    reveal_strlit("\"");
    reveal_strlit("'");
    reveal_strlit("oem_7");
    reveal_strlit("~");
    reveal_strlit("`");
    reveal_strlit("oem_3");
    reveal_strlit("|");
    reveal_strlit("\\");
    reveal_strlit("oem_5");
    reveal_strlit("z");
    reveal_strlit("x");
    reveal_strlit("c");
    reveal_strlit("v");
    reveal_strlit("b");
    reveal_strlit("n");
    reveal_strlit("m");
    reveal_strlit("<");
    reveal_strlit(",");
    reveal_strlit("oem_comma");
    reveal_strlit(">");
    reveal_strlit(".");
    reveal_strlit("oem_period");
    reveal_strlit("?");
    reveal_strlit("/");
    reveal_strlit("oem_2");
    reveal_strlit("space");
    reveal_strlit("capslock");
    reveal_strlit("f1");
    reveal_strlit("f2");
    reveal_strlit("f3");
    reveal_strlit("f4");
    reveal_strlit("f5");
    reveal_strlit("f6");
    reveal_strlit("f7");
    reveal_strlit("f8");
    reveal_strlit("f9");
    reveal_strlit("f10");
    reveal_strlit("numlock");
    reveal_strlit("scrolllock");
    reveal_strlit("home");
    reveal_strlit("up");
    reveal_strlit("pageup");
    reveal_strlit("left");
    reveal_strlit("right");
    reveal_strlit("end");
    reveal_strlit("down");
    reveal_strlit("pagedown");
    reveal_strlit("insert");
    reveal_strlit("delete");
    reveal_strlit("prtsc");
    reveal_strlit("printscreen");
    reveal_strlit("oem_102");
    reveal_strlit("f11");
    reveal_strlit("f12");
    reveal_strlit("menu");
    reveal_strlit("1234567890-=");
    reveal_strlit("qwertyuiop[]");
    reveal_strlit("asdfghjkl;'`");
    reveal_strlit("\\zxcvbnm,./");
    reveal_strlit("!@#$%^&*()_");
    reveal_strlit("{}");
    reveal_strlit(":\"~");
    reveal_strlit("|");
    reveal_strlit("<>?");
    assert("1"@ =~= seq!['1']);
    assert("!"@ =~= seq!['!']);
    assert("2"@ =~= seq!['2']);
    assert("@"@ =~= seq!['@']);
    assert("3"@ =~= seq!['3']);
    assert("#"@ =~= seq!['#']);
    assert("4"@ =~= seq!['4']);
    assert("$"@ =~= seq!['$']);
    assert("5"@ =~= seq!['5']);
    assert("%"@ =~= seq!['%']);
    assert("6"@ =~= seq!['6']);
    assert("^"@ =~= seq!['^']);
    assert("7"@ =~= seq!['7']);
    assert("&"@ =~= seq!['&']);
    assert("8"@ =~= seq!['8']);
    assert("*"@ =~= seq!['*']);
    assert("9"@ =~= seq!['9']);
    assert("("@ =~= seq!['(']);
    assert("0"@ =~= seq!['0']);
    assert(")"@ =~= seq![')']);
    assert("-"@ =~= seq!['-']);
    assert("_"@ =~= seq!['_']);
    assert("+"@ =~= seq!['+']);
    assert("="@ =~= seq!['=']);
    assert("q"@ =~= seq!['q']);
    assert("w"@ =~= seq!['w']);
    assert("e"@ =~= seq!['e']);
    assert("r"@ =~= seq!['r']);
    assert("t"@ =~= seq!['t']);
    assert("y"@ =~= seq!['y']);
    assert("u"@ =~= seq!['u']);
    assert("i"@ =~= seq!['i']);
    assert("o"@ =~= seq!['o']);
    assert("p"@ =~= seq!['p']);
    assert("{"@ =~= seq!['{']);
    assert("["@ =~= seq!['[']);
    assert("}"@ =~= seq!['}']);
    assert("]"@ =~= seq![']']);
    assert("a"@ =~= seq!['a']);
    assert("s"@ =~= seq!['s']);
    assert("d"@ =~= seq!['d']);
    assert("f"@ =~= seq!['f']);
    assert("g"@ =~= seq!['g']);
    assert("h"@ =~= seq!['h']);
    assert("j"@ =~= seq!['j']);
    assert("k"@ =~= seq!['k']);
    assert("l"@ =~= seq!['l']);
    assert(":"@ =~= seq![':']);
    assert(";"@ =~= seq![';']);
    assert("\""@ =~= seq!['"']);
    assert("'"@ =~= seq!['\'']);
    assert("~"@ =~= seq!['~']);
    assert("`"@ =~= seq!['`']);
    assert("|"@ =~= seq!['|']);
    assert("\\"@ =~= seq!['\\']);
    assert("z"@ =~= seq!['z']);
    assert("x"@ =~= seq!['x']);
    assert("c"@ =~= seq!['c']);
    assert("v"@ =~= seq!['v']);
    assert("b"@ =~= seq!['b']);
    assert("n"@ =~= seq!['n']);
    assert("m"@ =~= seq!['m']);
    assert("<"@ =~= seq!['<']);
    assert(","@ =~= seq![',']);
    assert(">"@ =~= seq!['>']);
    assert("."@ =~= seq!['.']);
    assert("?"@ =~= seq!['?']);
    assert("/"@ =~= seq!['/']);
    let word = seq![c];
    assert(word[0] == c);
}

#[verifier::rlimit(60)]
proof fn named_keys(word: Seq<char>, code: u32)
    requires
        word.len() != 1,
    ensures
        key_code(word) == Some(code) <==> is_key(word, code),
{
    reveal_strlit("esc");
    reveal_strlit("escape");
    reveal_strlit("1");
    reveal_strlit("!");
    reveal_strlit("2");
    reveal_strlit("@");
    reveal_strlit("3");
    reveal_strlit("#");
    reveal_strlit("4");
    reveal_strlit("$");
    reveal_strlit("5");
    reveal_strlit("%");
    reveal_strlit("6");
    reveal_strlit("^");
    reveal_strlit("7");
    reveal_strlit("&");
    reveal_strlit("8");
    reveal_strlit("*");
    reveal_strlit("9");
    reveal_strlit("(");
    reveal_strlit("0");
    reveal_strlit(")");
    reveal_strlit("-");
    reveal_strlit("_");
    reveal_strlit("oem_minus");
    reveal_strlit("+");
    reveal_strlit("=");
    reveal_strlit("oem_plus");
    reveal_strlit("bs");
    reveal_strlit("backspace");
    reveal_strlit("tab");
    reveal_strlit("q");
    reveal_strlit("w");
    reveal_strlit("e");
    reveal_strlit("r");
    reveal_strlit("t");
    reveal_strlit("y");
    reveal_strlit("u");
    reveal_strlit("i");
    reveal_strlit("o");
    reveal_strlit("p");
    reveal_strlit("{");
    reveal_strlit("[");
    reveal_strlit("oem_4");
    reveal_strlit("}");
    reveal_strlit("]");
    reveal_strlit("oem_6");
    reveal_strlit("enter");
    reveal_strlit("return");
    reveal_strlit("a");
    reveal_strlit("s");
    reveal_strlit("d");
    reveal_strlit("f");
    reveal_strlit("g");
    reveal_strlit("h");
    reveal_strlit("j");
    reveal_strlit("k");
    reveal_strlit("l");
    reveal_strlit(":");
    reveal_strlit(";");
    reveal_strlit("oem_1");
    reveal_strlit("\"");
    reveal_strlit("'");
    reveal_strlit("oem_7");
    reveal_strlit("~");
    reveal_strlit("`");
    reveal_strlit("oem_3");
    reveal_strlit("|");
    reveal_strlit("\\");
    reveal_strlit("oem_5");
    reveal_strlit("z");
    reveal_strlit("x");
    reveal_strlit("c");
    reveal_strlit("v");
    reveal_strlit("b");
    reveal_strlit("n");
    reveal_strlit("m");
    reveal_strlit("<");
    reveal_strlit(",");
    reveal_strlit("oem_comma");
    reveal_strlit(">");
    reveal_strlit(".");
    reveal_strlit("oem_period");
    reveal_strlit("?");
    reveal_strlit("/");
    reveal_strlit("oem_2");
    reveal_strlit("space");
    reveal_strlit("capslock");
    reveal_strlit("f1");
    reveal_strlit("f2");
    reveal_strlit("f3");
    reveal_strlit("f4");
    reveal_strlit("f5");
    reveal_strlit("f6");
    reveal_strlit("f7");
    reveal_strlit("f8");
    reveal_strlit("f9");
    reveal_strlit("f10");
    reveal_strlit("numlock");
    reveal_strlit("scrolllock");
    reveal_strlit("home");
    reveal_strlit("up");
    reveal_strlit("pageup");
    reveal_strlit("left");
    reveal_strlit("right");
    reveal_strlit("end");
    reveal_strlit("down");
    reveal_strlit("pagedown");
    reveal_strlit("insert");
    reveal_strlit("delete");
    reveal_strlit("prtsc");
    reveal_strlit("printscreen");
    reveal_strlit("oem_102");
    reveal_strlit("f11");
    reveal_strlit("f12");
    reveal_strlit("menu");
    assert("esc"@[0] == 'e' && "esc"@[1] == 's' && "esc"@[2] == 'c');
    assert("escape"@[0] == 'e' && "escape"@[1] == 's' && "escape"@[2] == 'c' && "escape"@[3] == 'a' && "escape"@[4] == 'p' && "escape"@[5] == 'e');
    assert("oem_minus"@[0] == 'o' && "oem_minus"@[1] == 'e' && "oem_minus"@[2] == 'm' && "oem_minus"@[3] == '_' && "oem_minus"@[4] == 'm' && "oem_minus"@[5] == 'i' && "oem_minus"@[6] == 'n' && "oem_minus"@[7] == 'u' && "oem_minus"@[8] == 's');
    assert("oem_plus"@[0] == 'o' && "oem_plus"@[1] == 'e' && "oem_plus"@[2] == 'm' && "oem_plus"@[3] == '_' && "oem_plus"@[4] == 'p' && "oem_plus"@[5] == 'l' && "oem_plus"@[6] == 'u' && "oem_plus"@[7] == 's');
    assert("bs"@[0] == 'b' && "bs"@[1] == 's');
    assert("backspace"@[0] == 'b' && "backspace"@[1] == 'a' && "backspace"@[2] == 'c' && "backspace"@[3] == 'k' && "backspace"@[4] == 's' && "backspace"@[5] == 'p' && "backspace"@[6] == 'a' && "backspace"@[7] == 'c' && "backspace"@[8] == 'e');
    assert("tab"@[0] == 't' && "tab"@[1] == 'a' && "tab"@[2] == 'b');
    assert("oem_4"@[0] == 'o' && "oem_4"@[1] == 'e' && "oem_4"@[2] == 'm' && "oem_4"@[3] == '_' && "oem_4"@[4] == '4');
    assert("oem_6"@[0] == 'o' && "oem_6"@[1] == 'e' && "oem_6"@[2] == 'm' && "oem_6"@[3] == '_' && "oem_6"@[4] == '6');
    assert("enter"@[0] == 'e' && "enter"@[1] == 'n' && "enter"@[2] == 't' && "enter"@[3] == 'e' && "enter"@[4] == 'r');
    assert("return"@[0] == 'r' && "return"@[1] == 'e' && "return"@[2] == 't' && "return"@[3] == 'u' && "return"@[4] == 'r' && "return"@[5] == 'n');
    assert("oem_1"@[0] == 'o' && "oem_1"@[1] == 'e' && "oem_1"@[2] == 'm' && "oem_1"@[3] == '_' && "oem_1"@[4] == '1');
    assert("oem_7"@[0] == 'o' && "oem_7"@[1] == 'e' && "oem_7"@[2] == 'm' && "oem_7"@[3] == '_' && "oem_7"@[4] == '7');
    assert("oem_3"@[0] == 'o' && "oem_3"@[1] == 'e' && "oem_3"@[2] == 'm' && "oem_3"@[3] == '_' && "oem_3"@[4] == '3');
    assert("oem_5"@[0] == 'o' && "oem_5"@[1] == 'e' && "oem_5"@[2] == 'm' && "oem_5"@[3] == '_' && "oem_5"@[4] == '5');
    assert("oem_comma"@[0] == 'o' && "oem_comma"@[1] == 'e' && "oem_comma"@[2] == 'm' && "oem_comma"@[3] == '_' && "oem_comma"@[4] == 'c' && "oem_comma"@[5] == 'o' && "oem_comma"@[6] == 'm' && "oem_comma"@[7] == 'm' && "oem_comma"@[8] == 'a');
    assert("oem_period"@[0] == 'o' && "oem_period"@[1] == 'e' && "oem_period"@[2] == 'm' && "oem_period"@[3] == '_' && "oem_period"@[4] == 'p' && "oem_period"@[5] == 'e' && "oem_period"@[6] == 'r' && "oem_period"@[7] == 'i' && "oem_period"@[8] == 'o' && "oem_period"@[9] == 'd');
    assert("oem_2"@[0] == 'o' && "oem_2"@[1] == 'e' && "oem_2"@[2] == 'm' && "oem_2"@[3] == '_' && "oem_2"@[4] == '2');
    assert("space"@[0] == 's' && "space"@[1] == 'p' && "space"@[2] == 'a' && "space"@[3] == 'c' && "space"@[4] == 'e');
    assert("capslock"@[0] == 'c' && "capslock"@[1] == 'a' && "capslock"@[2] == 'p' && "capslock"@[3] == 's' && "capslock"@[4] == 'l' && "capslock"@[5] == 'o' && "capslock"@[6] == 'c' && "capslock"@[7] == 'k');
    assert("f1"@[0] == 'f' && "f1"@[1] == '1');
    assert("f2"@[0] == 'f' && "f2"@[1] == '2');
    assert("f3"@[0] == 'f' && "f3"@[1] == '3');
    assert("f4"@[0] == 'f' && "f4"@[1] == '4');
    assert("f5"@[0] == 'f' && "f5"@[1] == '5');
    assert("f6"@[0] == 'f' && "f6"@[1] == '6');
    assert("f7"@[0] == 'f' && "f7"@[1] == '7');
    assert("f8"@[0] == 'f' && "f8"@[1] == '8');
    assert("f9"@[0] == 'f' && "f9"@[1] == '9');
    assert("f10"@[0] == 'f' && "f10"@[1] == '1' && "f10"@[2] == '0');
    assert("numlock"@[0] == 'n' && "numlock"@[1] == 'u' && "numlock"@[2] == 'm' && "numlock"@[3] == 'l' && "numlock"@[4] == 'o' && "numlock"@[5] == 'c' && "numlock"@[6] == 'k');
    assert("scrolllock"@[0] == 's' && "scrolllock"@[1] == 'c' && "scrolllock"@[2] == 'r' && "scrolllock"@[3] == 'o' && "scrolllock"@[4] == 'l' && "scrolllock"@[5] == 'l' && "scrolllock"@[6] == 'l' && "scrolllock"@[7] == 'o' && "scrolllock"@[8] == 'c' && "scrolllock"@[9] == 'k');
    assert("home"@[0] == 'h' && "home"@[1] == 'o' && "home"@[2] == 'm' && "home"@[3] == 'e');
    assert("up"@[0] == 'u' && "up"@[1] == 'p');
    assert("pageup"@[0] == 'p' && "pageup"@[1] == 'a' && "pageup"@[2] == 'g' && "pageup"@[3] == 'e' && "pageup"@[4] == 'u' && "pageup"@[5] == 'p');
    assert("left"@[0] == 'l' && "left"@[1] == 'e' && "left"@[2] == 'f' && "left"@[3] == 't');
    assert("right"@[0] == 'r' && "right"@[1] == 'i' && "right"@[2] == 'g' && "right"@[3] == 'h' && "right"@[4] == 't');
    assert("end"@[0] == 'e' && "end"@[1] == 'n' && "end"@[2] == 'd');
    assert("down"@[0] == 'd' && "down"@[1] == 'o' && "down"@[2] == 'w' && "down"@[3] == 'n');
    assert("pagedown"@[0] == 'p' && "pagedown"@[1] == 'a' && "pagedown"@[2] == 'g' && "pagedown"@[3] == 'e' && "pagedown"@[4] == 'd' && "pagedown"@[5] == 'o' && "pagedown"@[6] == 'w' && "pagedown"@[7] == 'n');
    assert("insert"@[0] == 'i' && "insert"@[1] == 'n' && "insert"@[2] == 's' && "insert"@[3] == 'e' && "insert"@[4] == 'r' && "insert"@[5] == 't');
    assert("delete"@[0] == 'd' && "delete"@[1] == 'e' && "delete"@[2] == 'l' && "delete"@[3] == 'e' && "delete"@[4] == 't' && "delete"@[5] == 'e');
    assert("prtsc"@[0] == 'p' && "prtsc"@[1] == 'r' && "prtsc"@[2] == 't' && "prtsc"@[3] == 's' && "prtsc"@[4] == 'c');
    assert("printscreen"@[0] == 'p' && "printscreen"@[1] == 'r' && "printscreen"@[2] == 'i' && "printscreen"@[3] == 'n' && "printscreen"@[4] == 't' && "printscreen"@[5] == 's' && "printscreen"@[6] == 'c' && "printscreen"@[7] == 'r' && "printscreen"@[8] == 'e' && "printscreen"@[9] == 'e' && "printscreen"@[10] == 'n');
    assert("oem_102"@[0] == 'o' && "oem_102"@[1] == 'e' && "oem_102"@[2] == 'm' && "oem_102"@[3] == '_' && "oem_102"@[4] == '1' && "oem_102"@[5] == '0' && "oem_102"@[6] == '2');
    assert("f11"@[0] == 'f' && "f11"@[1] == '1' && "f11"@[2] == '1');
    assert("f12"@[0] == 'f' && "f12"@[1] == '1' && "f12"@[2] == '2');
    assert("menu"@[0] == 'm' && "menu"@[1] == 'e' && "menu"@[2] == 'n' && "menu"@[3] == 'u');
}

proof fn key_words(word: Seq<char>, code: u32)
    requires
        word != "+"@,
    ensures
        key_code(word) == Some(code) <==> is_key(word, code),
{
    if word.len() == 1 {
        reveal_strlit("+");
        assert(word =~= seq![word[0]]);
        if word[0] == '+' {
            assert(word =~= "+"@);
        }
        single_keys(word[0], code);
    } else {
        named_keys(word, code);
    }
}

/// What a binding denotes: its first word names a modifier with its own two scan codes, and its
/// second word a key of the keyboard. Any other word makes it no binding.
pub proof fn binding_denotes_its_words(modifier: Seq<char>, key: Seq<char>)
    requires
        plain_word(modifier),
        plain_word(key),
    ensures
        match parsed(modifier.push('+') + key) {
            Some(((left, right), code)) => is_modifier(modifier, left, right) && is_key(key, code),
            None => forall|left: u32, right: u32, code: u32|
                !(is_modifier(modifier, left, right) && is_key(key, code)),
        },
{
    words_are_split(modifier, key);
    modifier_words(modifier);
    reveal_strlit("+");
    if key == "+"@ {
        assert(key[0] == '+');
    }
    assert forall|code: u32| key_code(key) == Some(code) <==> is_key(key, code) by {
        key_words(key, code);
    }
}

/// Each modifier has its own keys: the Windows keys, Alt and Control, whatever the main key is.
pub proof fn modifiers_have_their_own_keys(key: Seq<char>)
    requires
        plain_word(key),
    ensures
        ({
            let win = parsed("win+"@ + key);
            let alt = parsed("alt+"@ + key);
            let control = parsed("ctrl+"@ + key);
            &&& win is Some <==> alt is Some
            &&& win is Some <==> control is Some
            &&& win matches Some((codes, code)) ==> codes == (0x5bu32, 0x5cu32)
            &&& alt matches Some((codes, code)) ==> codes == (0x38u32, 0x38u32)
            &&& control matches Some((codes, code)) ==> codes == (0x1du32, 0x1du32)
            &&& win is Some ==> (win->0).1 == (alt->0).1 && (win->0).1 == (control->0).1
        }),
{
    reveal_strlit("win");
    reveal_strlit("alt");
    reveal_strlit("ctrl");
    reveal_strlit("win+");
    reveal_strlit("alt+");
    reveal_strlit("ctrl+");
    assert("win+"@ + key =~= "win"@.push('+') + key);
    assert("alt+"@ + key =~= "alt"@.push('+') + key);
    assert("ctrl+"@ + key =~= "ctrl"@.push('+') + key);
    words_are_split("win"@, key);
    words_are_split("alt"@, key);
    words_are_split("ctrl"@, key);
    modifier_words("win"@);
    modifier_words("alt"@);
    modifier_words("ctrl"@);
    assert(is_modifier("win"@, 0x5b, 0x5c));
    assert(is_modifier("alt"@, 0x38, 0x38));
    assert(is_modifier("ctrl"@, 0x1d, 0x1d));
}

/// Bindings with different modifier words never have the same modifier, and those with the same
/// modifier word always have.
pub proof fn modifier_words_are_told_apart(a: Seq<char>, b: Seq<char>)
    requires
        parsed(a) is Some,
        parsed(b) is Some,
    ensures
        (parsed(a)->0).0 == (parsed(b)->0).0 <==> split_at_char(normalized(a), '+')[0]
            == split_at_char(normalized(b), '+')[0],
        (parsed(a)->0).0.0 == (parsed(b)->0).0.0 <==> split_at_char(normalized(a), '+')[0]
            == split_at_char(normalized(b), '+')[0],
{
    let x = split_at_char(normalized(a), '+')[0];
    let y = split_at_char(normalized(b), '+')[0];
    modifier_words(x);
    modifier_words(y);
}

/// The prefix `vk_` of a key name changes nothing.
pub proof fn binding_ignores_the_key_prefix(modifier: Seq<char>, key: Seq<char>)
    requires
        plain_word(modifier),
        plain_word(key),
    ensures
        parsed(modifier.push('+') + seq!['v', 'k', '_'] + key) == parsed(modifier.push('+') + key),
{
    let head = modifier.push('+');
    let prefix = seq!['v', 'k', '_'];
    let s = head + prefix + key;
    let t = head + key;
    assert forall|i: int| 0 <= i < s.len() implies #[trigger] s[i] != ' ' && !('A' <= s[i] && s[i]
        <= 'Z') by {
        if i < modifier.len() {
            assert(s[i] == modifier[i]);
        } else if i >= modifier.len() + 4 {
            assert(s[i] == key[i - modifier.len() - 4]);
        }
    }
    nothing_to_lower(s);
    no_space_to_strip(s);
    prefix_is_stripped(modifier, key);
    words_are_split(modifier, key);
    assert(normalized(s) == t);
}

proof fn prefix_is_stripped(modifier: Seq<char>, key: Seq<char>)
    requires
        plain_word(modifier),
        plain_word(key),
    ensures
        without_vk(modifier.push('+') + seq!['v', 'k', '_'] + key) == modifier.push('+') + key,
    decreases modifier.len(),
{
    let prefix = seq!['v', 'k', '_'];
    let s = modifier.push('+') + prefix + key;
    if modifier.len() == 0 {
        let rest = s.drop_first();
        assert(s[0] == '+');
        assert(rest =~= prefix + key);
        assert(rest.skip(3) =~= key);
        no_prefix_to_strip(key);
        assert(without_vk(rest) == key);
        assert(seq!['+'] + key =~= modifier.push('+') + key);
    } else {
        let less = modifier.drop_first();
        assert forall|i: int| 0 <= i < less.len() implies #[trigger] less[i] != ' ' && less[i] != '+'
            && !('A' <= less[i] && less[i] <= 'Z') by {
            assert(less[i] == modifier[i + 1]);
        }
        assert forall|i: int| !#[trigger] prefix_at(less, i) by {
            assert(!prefix_at(modifier, i + 1));
        }
        prefix_is_stripped(less, key);
        assert(s.drop_first() =~= less.push('+') + prefix + key);
        assert(s[0] == modifier[0]);
        assert(!prefix_at(modifier, 0));
        assert(s[modifier.len() as int] == '+');
        assert(seq![modifier[0]] + (less.push('+') + key) =~= modifier.push('+') + key);
    }
}

/// A binding that was read has the identity it was read for and the keys that its words denote.
pub proof fn binding_keeps_its_identity(
    hotkey: Hotkey,
    id: u32,
    name: Seq<char>,
    modifier: Seq<char>,
    key: Seq<char>,
)
    requires
        plain_word(modifier),
        plain_word(key),
        is_hotkey(hotkey, id, name, modifier.push('+') + key),
    ensures
        hotkey.id == id,
        hotkey.name@ == name,
        is_modifier(modifier, hotkey.modifier@[0], hotkey.modifier@[1]),
        is_key(key, hotkey.code),
{
    binding_denotes_its_words(modifier, key);
}

}
