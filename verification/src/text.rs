//! Character-level text primitives with exact models over `Seq<char>`.

use vstd::prelude::*;

verus! {

/// `String::push` appends the given character to the end of the string.
pub assume_specification[ String::push ](s: &mut String, c: char)
    ensures
        final(s)@ == old(s)@.push(c),
;

/// The views of a list of character vectors.
pub open spec fn texts(list: Seq<Vec<char>>) -> Seq<Seq<char>> {
    Seq::new(list.len(), |i: int| list[i]@)
}

/// The views of a list of strings.
pub open spec fn strings(list: Seq<String>) -> Seq<Seq<char>> {
    Seq::new(list.len(), |i: int| list[i]@)
}

/// The characters of a string, in order.
pub fn chars_of(s: &str) -> (r: Vec<char>)
    ensures
        r@ == s@,
{
    let mut r: Vec<char> = Vec::new();
    for c in it: s.chars()
        invariant
            r@ == it.seq().take(it.index()),
            it.seq() == s@,
    {
        r.push(c);
    }
    r
}

/// The string made of the given characters.
pub fn string_of(chars: &[char]) -> (r: String)
    ensures
        r@ == chars@,
{
    let mut r = String::new();
    for i in 0..chars.len()
        invariant
            r@ == chars@.take(i as int),
    {
        r.push(chars[i]);
    }
    assert(chars@.take(chars@.len() as int) == chars@);
    r
}

/// Whether two character sequences are equal.
pub fn same_chars(a: &[char], b: &[char]) -> (r: bool)
    ensures
        r == (a@ == b@),
{
    if a.len() != b.len() {
        return false;
    }
    for i in 0..a.len()
        invariant
            a@.len() == b@.len(),
            a@.take(i as int) == b@.take(i as int),
    {
        if a[i] != b[i] {
            assert(a@[i as int] != b@[i as int]);
            return false;
        }
        assert(a@.take(i + 1) == a@.take(i as int).push(a@[i as int]));
        assert(b@.take(i + 1) == b@.take(i as int).push(b@[i as int]));
    }
    assert(a@.take(a@.len() as int) == a@);
    assert(b@.take(b@.len() as int) == b@);
    true
}

/// Whether the characters are those of the literal.
pub fn is_text(chars: &[char], literal: &str) -> (r: bool)
    ensures
        r == (chars@ == literal@),
{
    let other = chars_of(literal);
    same_chars(chars, other.as_slice())
}

/// Whether two strings hold the same characters.
pub fn same_str(a: &str, b: &str) -> (r: bool)
    ensures
        r == (a@ == b@),
{
    let a = chars_of(a);
    let b = chars_of(b);
    same_chars(a.as_slice(), b.as_slice())
}

/// Whether two optional strings are both absent or hold the same characters.
pub fn same_optional(a: Option<&str>, b: Option<&str>) -> (r: bool)
    ensures
        r == match (a, b) {
            (Some(x), Some(y)) => x@ == y@,
            (None, None) => true,
            _ => false,
        },
{
    match (a, b) {
        (Some(x), Some(y)) => same_str(x, y),
        (None, None) => true,
        _ => false,
    }
}

/// Concatenation of two strings.
pub fn joined(a: &str, b: &str) -> (r: String)
    ensures
        r@ == a@ + b@,
{
    let mut r = a.to_owned();
    push_text(&mut r, b);
    r
}

/// Appends a string.
pub fn push_text(s: &mut String, tail: &str)
    ensures
        final(s)@ == old(s)@ + tail@,
{
    for c in it: tail.chars()
        invariant
            s@ == old(s)@ + it.seq().take(it.index()),
            it.seq() == tail@,
    {
        s.push(c);
    }
    assert(tail@.take(tail@.len() as int) == tail@);
}

/// A part of a character sequence.
pub fn part(s: &[char], from: usize, to: usize) -> (r: Vec<char>)
    requires
        from <= to <= s@.len(),
    ensures
        r@ == s@.subrange(from as int, to as int),
{
    let mut r: Vec<char> = Vec::new();
    let mut i: usize = from;
    while i < to
        invariant
            from <= i <= to <= s@.len(),
            r@ == s@.subrange(from as int, i as int),
        decreases to - i,
    {
        r.push(s[i]);
        i += 1;
    }
    r
}

/// Appends a character sequence.
pub fn push_chars(r: &mut Vec<char>, tail: &[char])
    ensures
        final(r)@ == old(r)@ + tail@,
{
    for i in 0..tail.len()
        invariant
            r@ == old(r)@ + tail@.take(i as int),
    {
        r.push(tail[i]);
    }
    assert(tail@.take(tail@.len() as int) == tail@);
}

// ---------------------------------------------------------------------------
// Character classes

/// The characters of the Unicode property `White_Space`.
pub open spec fn is_white(c: char) -> bool {
    let n = c as u32;
    (9 <= n && n <= 13) || n == 0x20 || n == 0x85 || n == 0xa0 || n == 0x1680 || (0x2000 <= n && n
        <= 0x200a) || n == 0x2028 || n == 0x2029 || n == 0x202f || n == 0x205f || n == 0x3000
}

pub fn white(c: char) -> (r: bool)
    ensures
        r == is_white(c),
{
    let n: u32 = c as u32;
    (9 <= n && n <= 13) || n == 0x20 || n == 0x85 || n == 0xa0 || n == 0x1680 || (0x2000 <= n && n
        <= 0x200a) || n == 0x2028 || n == 0x2029 || n == 0x202f || n == 0x205f || n == 0x3000
}

/// The characters of the Unicode category `Cc`.
pub open spec fn is_control_char(c: char) -> bool {
    let n = c as u32;
    n <= 0x1f || (0x7f <= n && n <= 0x9f)
}

/// Whether some character is a control character.
pub open spec fn has_control(s: Seq<char>) -> bool {
    exists|i: int| 0 <= i < s.len() && is_control_char(#[trigger] s[i])
}

pub fn contains_control(s: &[char]) -> (r: bool)
    ensures
        r == has_control(s@),
{
    for i in 0..s.len()
        invariant
            forall|k: int| 0 <= k < i ==> !is_control_char(#[trigger] s@[k]),
    {
        let n: u32 = s[i] as u32;
        if n <= 0x1f || (0x7f <= n && n <= 0x9f) {
            assert(is_control_char(s@[i as int]));
            return true;
        }
    }
    false
}

/// The ASCII lower case of a character.
pub open spec fn ascii_lower(c: char) -> char {
    if 'A' <= c && c <= 'Z' {
        ((c as u8 + 32) as u8) as char
    } else {
        c
    }
}

/// Every ASCII letter in lower case.
pub open spec fn lowered(s: Seq<char>) -> Seq<char> {
    Seq::new(s.len(), |i: int| ascii_lower(s[i]))
}

pub fn lower_char(c: char) -> (r: char)
    ensures
        r == ascii_lower(c),
{
    if 'A' <= c && c <= 'Z' {
        (c as u8 + 32) as char
    } else {
        c
    }
}

pub fn lower(s: &[char]) -> (r: Vec<char>)
    ensures
        r@ == lowered(s@),
{
    let mut r: Vec<char> = Vec::new();
    for i in 0..s.len()
        invariant
            r@ == lowered(s@.take(i as int)),
    {
        r.push(lower_char(s[i]));
        assert(s@.take(i + 1) == s@.take(i as int).push(s@[i as int]));
    }
    assert(s@.take(s@.len() as int) == s@);
    r
}

/// Whether two sequences differ at most in the case of ASCII letters.
pub open spec fn same_ignoring_case(a: Seq<char>, b: Seq<char>) -> bool {
    lowered(a) == lowered(b)
}

pub fn equal_ignoring_case(a: &[char], b: &str) -> (r: bool)
    ensures
        r == same_ignoring_case(a@, b@),
{
    let x = lower(a);
    let y = chars_of(b);
    let y = lower(y.as_slice());
    same_chars(x.as_slice(), y.as_slice())
}

// ---------------------------------------------------------------------------
// Trimming

/// The sequence without its leading white space.
pub open spec fn trimmed_start(s: Seq<char>) -> Seq<char>
    decreases s.len(),
{
    if s.len() > 0 && is_white(s[0]) {
        trimmed_start(s.drop_first())
    } else {
        s
    }
}

/// The sequence without its trailing white space.
pub open spec fn trimmed_end(s: Seq<char>) -> Seq<char>
    decreases s.len(),
{
    if s.len() > 0 && is_white(s.last()) {
        trimmed_end(s.drop_last())
    } else {
        s
    }
}

/// The sequence without leading and trailing white space.
pub open spec fn trimmed(s: Seq<char>) -> Seq<char> {
    trimmed_end(trimmed_start(s))
}

pub fn trim_start(s: &[char]) -> (r: Vec<char>)
    ensures
        r@ == trimmed_start(s@),
{
    let mut start: usize = 0;
    assert(s@.skip(0) == s@);
    while start < s.len() && white(s[start])
        invariant
            start <= s@.len(),
            trimmed_start(s@) == trimmed_start(s@.skip(start as int)),
        decreases s@.len() - start,
    {
        assert(s@.skip(start as int).drop_first() == s@.skip(start + 1));
        start += 1;
    }
    assert(s@.skip(start as int) == s@.subrange(start as int, s@.len() as int));
    part(s, start, s.len())
}

pub fn trim_end(s: &[char]) -> (r: Vec<char>)
    ensures
        r@ == trimmed_end(s@),
{
    let mut end: usize = s.len();
    assert(s@.take(end as int) == s@);
    while end > 0 && white(s[end - 1])
        invariant
            end <= s@.len(),
            trimmed_end(s@) == trimmed_end(s@.take(end as int)),
        decreases end,
    {
        assert(s@.take(end as int).drop_last() == s@.take(end - 1));
        end -= 1;
    }
    part(s, 0, end)
}

pub fn trim(s: &[char]) -> (r: Vec<char>)
    ensures
        r@ == trimmed(s@),
{
    let front = trim_start(s);
    trim_end(front.as_slice())
}

/// The trimmed sequence begins and ends, where it is not empty, with a visible character.
pub proof fn trimmed_ends(s: Seq<char>)
    ensures
        trimmed(s).len() <= s.len(),
        trimmed(s).len() > 0 ==> !is_white(trimmed(s)[0]) && !is_white(trimmed(s).last()),
{
    trimmed_start_facts(s);
    trimmed_end_facts(trimmed_start(s));
}

proof fn trimmed_start_facts(s: Seq<char>)
    ensures
        trimmed_start(s).len() <= s.len(),
        trimmed_start(s).len() > 0 ==> !is_white(trimmed_start(s)[0]),
    decreases s.len(),
{
    if s.len() > 0 && is_white(s[0]) {
        trimmed_start_facts(s.drop_first());
    }
}

proof fn trimmed_end_facts(s: Seq<char>)
    ensures
        trimmed_end(s).len() <= s.len(),
        trimmed_end(s).len() > 0 ==> !is_white(trimmed_end(s).last()) && trimmed_end(s)[0] == s[0],
    decreases s.len(),
{
    if s.len() > 0 && is_white(s.last()) {
        trimmed_end_facts(s.drop_last());
    }
}

// ---------------------------------------------------------------------------
// Searching and splitting

/// The first position that holds `a` or `b`; the length where neither occurs.
pub open spec fn until(s: Seq<char>, a: char, b: char) -> int
    decreases s.len(),
{
    if s.len() == 0 || s[0] == a || s[0] == b {
        0
    } else {
        1 + until(s.drop_first(), a, b)
    }
}

/// The first position that holds `a` or `b` lies within the sequence, and neither stands before it.
pub proof fn until_range(s: Seq<char>, a: char, b: char)
    ensures
        0 <= until(s, a, b) <= s.len(),
        until(s, a, b) < s.len() ==> s[until(s, a, b)] == a || s[until(s, a, b)] == b,
        forall|k: int| 0 <= k < until(s, a, b) ==> s[k] != a && s[k] != b,
    decreases s.len(),
{
    if s.len() == 0 || s[0] == a || s[0] == b {
    } else {
        until_range(s.drop_first(), a, b);
        assert forall|k: int| 0 <= k < until(s, a, b) implies s[k] != a && s[k] != b by {
            if k > 0 {
                assert(s[k] == s.drop_first()[k - 1]);
            }
        }
    }
}

pub fn find_either(s: &[char], from: usize, a: char, b: char) -> (r: usize)
    requires
        from <= s@.len(),
    ensures
        from <= r <= s@.len(),
        r == from + until(s@.skip(from as int), a, b),
{
    let mut i: usize = from;
    while i < s.len() && s[i] != a && s[i] != b
        invariant
            from <= i <= s@.len(),
            until(s@.skip(from as int), a, b) == (i - from) + until(s@.skip(i as int), a, b),
        decreases s@.len() - i,
    {
        assert(s@.skip(i as int).drop_first() == s@.skip(i + 1));
        i += 1;
    }
    i
}

/// Position of the first occurrence of a character.
pub fn find(s: &[char], c: char) -> (r: Option<usize>)
    ensures
        r == (if until(s@, c, c) < s@.len() {
            Some(until(s@, c, c) as usize)
        } else {
            None
        }),
        r is Some ==> r->0 < s@.len(),
{
    assert(s@.skip(0) == s@);
    let at: usize = find_either(s, 0, c, c);
    if at < s.len() {
        Some(at)
    } else {
        None
    }
}

/// Whether a character occurs.
pub open spec fn has_char(s: Seq<char>, c: char) -> bool {
    exists|i: int| 0 <= i < s.len() && #[trigger] s[i] == c
}

pub fn contains_char(s: &[char], c: char) -> (r: bool)
    ensures
        r == has_char(s@, c),
{
    for i in 0..s.len()
        invariant
            forall|k: int| 0 <= k < i ==> #[trigger] s@[k] != c,
    {
        if s[i] == c {
            return true;
        }
    }
    false
}

/// The pieces between the separators `a` and `b`.
pub open spec fn pieces(s: Seq<char>, a: char, b: char) -> Seq<Seq<char>>
    decreases s.len(),
{
    let i = until(s, a, b);
    if 0 <= i < s.len() {
        seq![s.take(i)] + pieces(s.skip(i + 1), a, b)
    } else {
        seq![s]
    }
}

pub fn split_either(s: &[char], a: char, b: char) -> (r: Vec<Vec<char>>)
    ensures
        texts(r@) == pieces(s@, a, b),
{
    let mut r: Vec<Vec<char>> = Vec::new();
    let mut start: usize = 0;
    assert(s@.skip(0) == s@);
    loop
        invariant
            start <= s@.len(),
            pieces(s@, a, b) == texts(r@) + pieces(s@.skip(start as int), a, b),
        decreases s@.len() - start,
    {
        let ghost rest = s@.skip(start as int);
        let at: usize = find_either(s, start, a, b);
        let item = part(s, start, at);
        let ghost before = r@;
        if at == s.len() {
            assert(rest == s@.subrange(start as int, at as int));
            r.push(item);
            assert(texts(r@) == texts(before) + seq![rest]);
            return r;
        }
        assert(rest.take(at - start) == s@.subrange(start as int, at as int));
        assert(rest.skip(at - start + 1) == s@.skip(at + 1));
        r.push(item);
        assert(texts(r@) == texts(before).push(rest.take(at - start)));
        assert(texts(before) + (seq![rest.take(at - start)] + pieces(s@.skip(at + 1), a, b)) == texts(
            r@,
        ) + pieces(s@.skip(at + 1), a, b));
        start = at + 1;
    }
}

/// The pieces between occurrences of one separator.
pub open spec fn split_at_char(s: Seq<char>, c: char) -> Seq<Seq<char>> {
    pieces(s, c, c)
}

/// The first position of a character that stands twice; the length where it does not occur.
pub open spec fn until_pair(s: Seq<char>, c: char) -> int
    decreases s.len(),
{
    if s.len() < 2 {
        s.len() as int
    } else if s[0] == c && s[1] == c {
        0
    } else {
        1 + until_pair(s.drop_first(), c)
    }
}

/// The pieces between occurrences of a doubled character.
pub open spec fn pair_pieces(s: Seq<char>, c: char) -> Seq<Seq<char>>
    decreases s.len(),
{
    let i = until_pair(s, c);
    if 0 <= i && i + 2 <= s.len() {
        seq![s.take(i)] + pair_pieces(s.skip(i + 2), c)
    } else {
        seq![s]
    }
}

fn find_pair(s: &[char], from: usize, c: char) -> (r: usize)
    requires
        from <= s@.len(),
    ensures
        from <= r <= s@.len(),
        r == from + until_pair(s@.skip(from as int), c),
        r == s@.len() || r + 2 <= s@.len(),
{
    let mut i: usize = from;
    while s.len() - i >= 2 && !(s[i] == c && s[i + 1] == c)
        invariant
            from <= i <= s@.len(),
            until_pair(s@.skip(from as int), c) == (i - from) + until_pair(s@.skip(i as int), c),
        decreases s@.len() - i,
    {
        assert(s@.skip(i as int).drop_first() == s@.skip(i + 1));
        i += 1;
    }
    if s.len() - i < 2 {
        s.len()
    } else {
        i
    }
}

pub fn split_pair(s: &[char], c: char) -> (r: Vec<Vec<char>>)
    ensures
        texts(r@) == pair_pieces(s@, c),
{
    let mut r: Vec<Vec<char>> = Vec::new();
    let mut start: usize = 0;
    assert(s@.skip(0) == s@);
    loop
        invariant
            start <= s@.len(),
            pair_pieces(s@, c) == texts(r@) + pair_pieces(s@.skip(start as int), c),
        decreases s@.len() - start,
    {
        let ghost rest = s@.skip(start as int);
        let at: usize = find_pair(s, start, c);
        let item = part(s, start, at);
        let ghost before = r@;
        if at == s.len() {
            assert(rest == s@.subrange(start as int, at as int));
            r.push(item);
            assert(texts(r@) == texts(before) + seq![rest]);
            return r;
        }
        assert(rest.take(at - start) == s@.subrange(start as int, at as int));
        assert(rest.skip(at - start + 2) == s@.skip(at + 2));
        r.push(item);
        assert(texts(r@) == texts(before).push(rest.take(at - start)));
        assert(texts(before) + (seq![rest.take(at - start)] + pair_pieces(s@.skip(at + 2), c)) == texts(
            r@,
        ) + pair_pieces(s@.skip(at + 2), c));
        start = at + 2;
    }
}

/// The pieces between occurrences of `||`.
pub open spec fn bar_pieces(s: Seq<char>) -> Seq<Seq<char>> {
    pair_pieces(s, '|')
}

pub fn split_bars(s: &[char]) -> (r: Vec<Vec<char>>)
    ensures
        texts(r@) == bar_pieces(s@),
{
    split_pair(s, '|')
}

/// The lines of a text, each with its terminating newline where it has one.
pub open spec fn raw_lines(s: Seq<char>) -> Seq<Seq<char>>
    decreases s.len(),
{
    let i = until(s, '\n', '\n');
    if s.len() == 0 {
        seq![]
    } else if 0 <= i < s.len() {
        seq![s.take(i + 1)] + raw_lines(s.skip(i + 1))
    } else {
        seq![s]
    }
}

pub fn split_lines(s: &[char]) -> (r: Vec<Vec<char>>)
    ensures
        texts(r@) == raw_lines(s@),
{
    let mut r: Vec<Vec<char>> = Vec::new();
    let mut start: usize = 0;
    assert(s@.skip(0) == s@);
    while start < s.len()
        invariant
            start <= s@.len(),
            raw_lines(s@) == texts(r@) + raw_lines(s@.skip(start as int)),
        decreases s@.len() - start,
    {
        let ghost rest = s@.skip(start as int);
        let at: usize = find_either(s, start, '\n', '\n');
        let ghost before = r@;
        if at == s.len() {
            let item = part(s, start, at);
            assert(rest == s@.subrange(start as int, at as int));
            r.push(item);
            assert(texts(r@) == texts(before) + seq![rest]);
            return r;
        }
        let item = part(s, start, at + 1);
        assert(rest.take(at - start + 1) == s@.subrange(start as int, at + 1));
        assert(rest.skip(at - start + 1) == s@.skip(at + 1));
        r.push(item);
        assert(texts(r@) == texts(before).push(rest.take(at - start + 1)));
        assert(texts(before) + (seq![rest.take(at - start + 1)] + raw_lines(s@.skip(at + 1)))
            == texts(r@) + raw_lines(s@.skip(at + 1)));
        start = at + 1;
    }
    r
}

/// Whether `needle` occurs at position `at`.
pub open spec fn occurs_at(s: Seq<char>, needle: Seq<char>, at: int) -> bool {
    0 <= at && at + needle.len() <= s.len() && s.subrange(at, at + needle.len()) == needle
}

/// Whether `needle` occurs somewhere.
pub open spec fn has_text(s: Seq<char>, needle: Seq<char>) -> bool {
    exists|at: int| occurs_at(s, needle, at)
}

/// Whether `prefix` begins the sequence.
pub open spec fn begins_with(s: Seq<char>, prefix: Seq<char>) -> bool {
    occurs_at(s, prefix, 0)
}

/// Whether `suffix` ends the sequence.
pub open spec fn finishes_with(s: Seq<char>, suffix: Seq<char>) -> bool {
    occurs_at(s, suffix, s.len() - suffix.len())
}

pub fn text_at(s: &[char], needle: &[char], at: usize) -> (r: bool)
    ensures
        r == occurs_at(s@, needle@, at as int),
{
    if at > s.len() || s.len() - at < needle.len() {
        return false;
    }
    for i in 0..needle.len()
        invariant
            at + needle@.len() <= s@.len() <= usize::MAX,
            s@.subrange(at as int, at + i) == needle@.take(i as int),
    {
        if s[at + i] != needle[i] {
            assert(s@.subrange(at as int, at + needle@.len())[i as int] != needle@[i as int]);
            return false;
        }
    }
    assert(needle@.take(needle@.len() as int) == needle@);
    true
}

pub fn contains_text(s: &[char], needle: &[char]) -> (r: bool)
    ensures
        r == has_text(s@, needle@),
{
    let mut at: usize = 0;
    loop
        invariant
            at <= s@.len(),
            forall|k: int| 0 <= k < at ==> !occurs_at(s@, needle@, k),
        decreases s@.len() - at,
    {
        if text_at(s, needle, at) {
            return true;
        }
        if at == s.len() {
            return false;
        }
        at += 1;
    }
}

pub fn starts_with(s: &[char], prefix: &[char]) -> (r: bool)
    ensures
        r == begins_with(s@, prefix@),
{
    text_at(s, prefix, 0)
}

pub fn ends_with(s: &[char], suffix: &[char]) -> (r: bool)
    ensures
        r == finishes_with(s@, suffix@),
{
    if s.len() < suffix.len() {
        return false;
    }
    text_at(s, suffix, s.len() - suffix.len())
}

// ---------------------------------------------------------------------------
// UTF-16 lengths

/// Number of UTF-16 units of one character.
pub open spec fn utf16_units(c: char) -> nat {
    if c as u32 >= 0x10000 {
        2
    } else {
        1
    }
}

/// Number of UTF-16 units of a text.
pub open spec fn utf16_len(s: Seq<char>) -> nat
    decreases s.len(),
{
    if s.len() == 0 {
        0
    } else {
        utf16_len(s.drop_last()) + utf16_units(s.last())
    }
}

proof fn utf16_len_grows(s: Seq<char>, i: int)
    requires
        0 <= i <= s.len(),
    ensures
        utf16_len(s.take(i)) <= utf16_len(s),
    decreases s.len(),
{
    if i < s.len() {
        utf16_len_grows(s.drop_last(), i);
        assert(s.drop_last().take(i) == s.take(i));
    } else {
        assert(s.take(i) == s);
    }
}

/// Whether a text has more than `limit` UTF-16 units.
pub fn utf16_longer(s: &[char], limit: u64) -> (r: bool)
    ensures
        r == (utf16_len(s@) > limit),
{
    let mut total: u64 = 0;
    for i in 0..s.len()
        invariant
            total == utf16_len(s@.take(i as int)),
            total <= limit,
    {
        assert(s@.take(i + 1).drop_last() == s@.take(i as int));
        let units: u64 = if s[i] as u32 >= 0x10000 {
            2
        } else {
            1
        };
        if units > limit - total {
            proof {
                utf16_len_grows(s@, i + 1);
            }
            return true;
        }
        total = total + units;
    }
    assert(s@.take(s@.len() as int) == s@);
    false
}

// ---------------------------------------------------------------------------
// Numbers

/// The value of a decimal digit.
pub open spec fn is_digit(c: char) -> bool {
    '0' <= c && c <= '9'
}

pub open spec fn digit_value(c: char) -> nat {
    (c as u32 - '0' as u32) as nat
}

/// Whether every character is a decimal digit and there is one.
pub open spec fn is_number(s: Seq<char>) -> bool {
    s.len() > 0 && forall|i: int| 0 <= i < s.len() ==> is_digit(#[trigger] s[i])
}

/// The value of a sequence of decimal digits.
pub open spec fn number_value(s: Seq<char>) -> nat
    decreases s.len(),
{
    if s.len() == 0 {
        0
    } else {
        number_value(s.drop_last()) * 10 + digit_value(s.last())
    }
}

/// The sequence without one leading plus sign.
pub open spec fn without_plus(s: Seq<char>) -> Seq<char> {
    if s.len() > 0 && s[0] == '+' {
        s.drop_first()
    } else {
        s
    }
}

/// The value of an unsigned decimal integer of at most `max`, with an optional plus sign.
pub open spec fn unsigned(s: Seq<char>, max: nat) -> Option<nat> {
    let body = without_plus(s);
    if is_number(body) && number_value(body) <= max {
        Some(number_value(body))
    } else {
        None
    }
}

proof fn number_value_grows(s: Seq<char>, i: int)
    requires
        0 <= i <= s.len(),
    ensures
        number_value(s.take(i)) <= number_value(s),
    decreases s.len(),
{
    if i < s.len() {
        number_value_grows(s.drop_last(), i);
        assert(s.drop_last().take(i) == s.take(i));
    } else {
        assert(s.take(i) == s);
    }
}

fn parse_digits(s: &[char], from: usize, max: u64) -> (r: Option<u64>)
    requires
        from <= s@.len(),
    ensures
        ({
            let body = s@.skip(from as int);
            match r {
                Some(v) => is_number(body) && number_value(body) == v && v <= max,
                None => !is_number(body) || number_value(body) > max,
            }
        }),
{
    let ghost body = s@.skip(from as int);
    if from == s.len() {
        return None;
    }
    let mut total: u64 = 0;
    let mut i: usize = from;
    while i < s.len()
        invariant
            from <= i <= s@.len(),
            body == s@.skip(from as int),
            total == number_value(body.take(i - from)),
            total <= max,
            forall|k: int| 0 <= k < i - from ==> is_digit(#[trigger] body[k]),
        decreases s@.len() - i,
    {
        let c = s[i];
        assert(body[i - from] == c);
        if !('0' <= c && c <= '9') {
            return None;
        }
        assert(body.take(i - from + 1).drop_last() == body.take(i - from));
        let digit: u64 = (c as u32 - '0' as u32) as u64;
        let wide: u128 = total as u128 * 10 + digit as u128;
        if wide > max as u128 {
            proof {
                number_value_grows(body, i - from + 1);
            }
            return None;
        }
        total = wide as u64;
        i += 1;
    }
    assert(body.take(body.len() as int) == body);
    Some(total)
}

pub fn parse_unsigned(s: &[char], max: u64) -> (r: Option<u64>)
    ensures
        r == (match unsigned(s@, max as nat) {
            Some(v) => Some(v as u64),
            None => None,
        }),
        r is Some ==> r->0 <= max,
{
    if s.len() > 0 && s[0] == '+' {
        assert(s@.skip(1) == s@.drop_first());
        parse_digits(s, 1, max)
    } else {
        assert(s@.skip(0) == s@);
        parse_digits(s, 0, max)
    }
}

/// The value of a signed 32-bit decimal integer with an optional sign.
pub open spec fn signed32(s: Seq<char>) -> Option<int> {
    if s.len() > 0 && s[0] == '-' {
        if is_number(s.drop_first()) && number_value(s.drop_first()) <= 0x8000_0000 {
            Some(-(number_value(s.drop_first()) as int))
        } else {
            None
        }
    } else {
        match unsigned(s, 0x7fff_ffff) {
            Some(v) => Some(v as int),
            None => None,
        }
    }
}

pub fn parse_signed32(s: &[char]) -> (r: Option<i32>)
    ensures
        r == (match signed32(s@) {
            Some(v) => Some(v as i32),
            None => None,
        }),
        r is Some ==> r->0 == signed32(s@)->0,
{
    if s.len() > 0 && s[0] == '-' {
        assert(s@.skip(1) == s@.drop_first());
        match parse_digits(s, 1, 0x8000_0000) {
            Some(v) => Some((-(v as i64)) as i32),
            None => None,
        }
    } else {
        match parse_unsigned(s, 0x7fff_ffff) {
            Some(v) => Some(v as i32),
            None => None,
        }
    }
}

/// The decimal digit of a value below ten.
pub open spec fn digit_char(n: nat) -> char {
    ((n + '0' as u32) as u32) as char
}

/// The decimal digits of a number.
pub open spec fn decimal(n: nat) -> Seq<char>
    decreases n,
{
    if n < 10 {
        seq![digit_char(n)]
    } else {
        decimal(n / 10).push(digit_char(n % 10))
    }
}

/// Writes a number in decimal digits.
pub fn decimal_chars(n: u64) -> (r: Vec<char>)
    ensures
        r@ == decimal(n as nat),
    decreases n,
{
    let last: char = (48 + (n % 10) as u8) as char;
    let mut r = if n < 10 {
        Vec::new()
    } else {
        decimal_chars(n / 10)
    };
    r.push(last);
    r
}

pub fn decimal_text(n: u64) -> (r: String)
    ensures
        r@ == decimal(n as nat),
{
    let r = decimal_chars(n);
    string_of(r.as_slice())
}

/// Reading the decimal digits of a number gives the number back.
pub proof fn decimal_round_trip(n: nat, max: nat)
    requires
        n <= max,
    ensures
        unsigned(decimal(n), max) == Some(n),
{
    decimal_facts(n);
    assert(without_plus(decimal(n)) == decimal(n)) by {
        assert(is_digit(decimal(n)[0]));
    }
}

proof fn decimal_facts(n: nat)
    ensures
        is_number(decimal(n)),
        number_value(decimal(n)) == n,
    decreases n,
{
    let last = digit_char(n % 10);
    assert(is_digit(last) && digit_value(last) == n % 10);
    if n < 10 {
        assert(n % 10 == n);
        assert(decimal(n).drop_last() == Seq::<char>::empty());
        assert(number_value(Seq::<char>::empty()) == 0);
        assert(decimal(n).last() == last);
    } else {
        decimal_facts(n / 10);
        assert(decimal(n).drop_last() == decimal(n / 10));
        assert(decimal(n).last() == last);
        assert(n == (n / 10) * 10 + n % 10);
    }
}

/// The decimal digits of a whole number, with a minus sign where it is negative.
pub open spec fn signed_decimal(n: int) -> Seq<char> {
    if n < 0 {
        seq!['-'] + decimal((-n) as nat)
    } else {
        decimal(n as nat)
    }
}

pub fn signed_text(n: i32) -> (r: String)
    ensures
        r@ == signed_decimal(n as int),
{
    if n < 0 {
        let mut r: Vec<char> = Vec::new();
        r.push('-');
        let digits = decimal_chars((-(n as i64)) as u64);
        push_chars(&mut r, digits.as_slice());
        assert(r@ =~= signed_decimal(n as int));
        string_of(r.as_slice())
    } else {
        decimal_text(n as u64)
    }
}

/// Texts one after the other, with the given text between them.
pub open spec fn joined_by(list: Seq<Seq<char>>, between: Seq<char>) -> Seq<char>
    decreases list.len(),
{
    if list.len() == 0 {
        seq![]
    } else if list.len() == 1 {
        list[0]
    } else {
        list[0] + between + joined_by(list.drop_first(), between)
    }
}

proof fn joined_first(first: Seq<char>, rest: Seq<Seq<char>>, between: Seq<char>)
    requires
        rest.len() > 0,
    ensures
        joined_by(seq![first] + rest, between) == first + between + joined_by(rest, between),
{
    assert((seq![first] + rest).drop_first() =~= rest);
}

/// Whether a text consists of white space alone.
pub open spec fn all_white(s: Seq<char>) -> bool {
    forall|i: int| 0 <= i < s.len() ==> is_white(#[trigger] s[i])
}

/// Trimming takes white space away at both ends, and nothing else: what is left neither begins nor
/// ends with it.
pub proof fn trimming_takes_white_space_away(s: Seq<char>) -> (ends: (Seq<char>, Seq<char>))
    ensures
        s == ends.0 + trimmed(s) + ends.1,
        all_white(ends.0),
        all_white(ends.1),
        trimmed(s).len() > 0 ==> !is_white(trimmed(s)[0]) && !is_white(trimmed(s).last()),
        s == ends.0 + trimmed_start(s),
        trimmed_start(s).len() > 0 ==> !is_white(trimmed_start(s)[0]),
{
    let head = trimming_the_start(s);
    let tail = trimming_the_end(trimmed_start(s));
    assert(s =~= head + trimmed(s) + tail);
    if trimmed(s).len() > 0 {
        assert(trimmed(s)[0] == trimmed_start(s)[0]);
    }
    (head, tail)
}

proof fn trimming_the_start(s: Seq<char>) -> (head: Seq<char>)
    ensures
        s == head + trimmed_start(s),
        all_white(head),
        trimmed_start(s).len() > 0 ==> !is_white(trimmed_start(s)[0]),
    decreases s.len(),
{
    if s.len() > 0 && is_white(s[0]) {
        let rest = trimming_the_start(s.drop_first());
        let head = seq![s[0]] + rest;
        assert(s =~= seq![s[0]] + s.drop_first());
        assert(head + trimmed_start(s) =~= seq![s[0]] + (rest + trimmed_start(s.drop_first())));
        head
    } else {
        assert(s =~= Seq::<char>::empty() + s);
        Seq::empty()
    }
}

proof fn trimming_the_end(s: Seq<char>) -> (tail: Seq<char>)
    ensures
        s == trimmed_end(s) + tail,
        all_white(tail),
        trimmed_end(s).len() > 0 ==> !is_white(trimmed_end(s).last()),
    decreases s.len(),
{
    if s.len() > 0 && is_white(s.last()) {
        let rest = trimming_the_end(s.drop_last());
        let tail = rest.push(s.last());
        assert(s =~= s.drop_last().push(s.last()));
        assert(trimmed_end(s) + tail =~= (trimmed_end(s.drop_last()) + rest).push(s.last()));
        tail
    } else {
        assert(s =~= s + Seq::<char>::empty());
        Seq::empty()
    }
}

/// A text is its pieces with the separator between them, and the separator stands in none of them.
pub proof fn pieces_make_up_the_text(s: Seq<char>, c: char)
    ensures
        split_at_char(s, c).len() > 0,
        joined_by(split_at_char(s, c), seq![c]) == s,
        forall|i: int|
            0 <= i < split_at_char(s, c).len() ==> !has_char(
                #[trigger] split_at_char(s, c)[i],
                c,
            ),
    decreases s.len(),
{
    let at = until(s, c, c);
    until_range(s, c, c);
    if at < s.len() {
        let rest = split_at_char(s.skip(at + 1), c);
        pieces_make_up_the_text(s.skip(at + 1), c);
        joined_first(s.take(at), rest, seq![c]);
        assert(s =~= s.take(at) + seq![c] + s.skip(at + 1));
        assert forall|i: int| 0 <= i < split_at_char(s, c).len() implies !has_char(
            #[trigger] split_at_char(s, c)[i],
            c,
        ) by {
            if i > 0 {
                assert(split_at_char(s, c)[i] == rest[i - 1]);
            }
        }
    }
}

/// With two separators, neither stands in a piece, and every separator ends one.
pub proof fn pieces_hold_no_separator(s: Seq<char>, a: char, b: char)
    ensures
        pieces(s, a, b).len() > 0,
        forall|i: int|
            0 <= i < pieces(s, a, b).len() ==> !has_char(#[trigger] pieces(s, a, b)[i], a)
                && !has_char(pieces(s, a, b)[i], b),
        !has_char(s, a) && !has_char(s, b) ==> pieces(s, a, b) == seq![s],
    decreases s.len(),
{
    let at = until(s, a, b);
    until_range(s, a, b);
    if at < s.len() {
        let rest = pieces(s.skip(at + 1), a, b);
        pieces_hold_no_separator(s.skip(at + 1), a, b);
        assert forall|i: int| 0 <= i < pieces(s, a, b).len() implies !has_char(
            #[trigger] pieces(s, a, b)[i],
            a,
        ) && !has_char(pieces(s, a, b)[i], b) by {
            if i > 0 {
                assert(pieces(s, a, b)[i] == rest[i - 1]);
            }
        }
    }
}

/// A separator between two texts parts their pieces.
pub proof fn separator_parts_the_pieces(p: Seq<char>, c: char, q: Seq<char>, a: char, b: char)
    requires
        c == a || c == b,
    ensures
        pieces(p + seq![c] + q, a, b) == pieces(p, a, b) + pieces(q, a, b),
    decreases p.len(),
{
    let s = p + seq![c] + q;
    let at = until(s, a, b);
    until_range(s, a, b);
    let mine = until(p, a, b);
    until_range(p, a, b);
    if mine < p.len() {
        assert(s[mine] == p[mine]);
        assert(at == mine) by {
            if at < mine {
                assert(s[at] == p[at]);
            }
        }
        let rest = p.skip(mine + 1);
        separator_parts_the_pieces(rest, c, q, a, b);
        assert(s.skip(at + 1) =~= rest + seq![c] + q);
        assert(s.take(at) =~= p.take(at));
        assert((seq![p.take(at)] + pieces(rest, a, b)) + pieces(q, a, b) =~= seq![p.take(at)] + (
        pieces(rest, a, b) + pieces(q, a, b)));
    } else {
        assert(s[p.len() as int] == c);
        assert(at == p.len()) by {
            if at < p.len() {
                assert(s[at] == p[at]);
            }
        }
        assert(s.take(at) =~= p);
        assert(s.skip(at + 1) =~= q);
    }
}

/// A text is its pieces with the doubled separator between them, and the separator stands twice in
/// none of them.
pub proof fn pairs_make_up_the_text(s: Seq<char>, c: char)
    ensures
        pair_pieces(s, c).len() > 0,
        joined_by(pair_pieces(s, c), seq![c, c]) == s,
        c == '|' ==> bar_pieces(s) == pair_pieces(s, c),
        forall|i: int, k: int|
            0 <= i < pair_pieces(s, c).len() && 0 <= k < pair_pieces(s, c)[i].len() - 1 ==> !(
            #[trigger] pair_pieces(s, c)[i][k] == c && pair_pieces(s, c)[i][k + 1] == c),
    decreases s.len(),
{
    let at = until_pair(s, c);
    until_pair_facts(s, c);
    if at < s.len() {
        let rest = pair_pieces(s.skip(at + 2), c);
        pairs_make_up_the_text(s.skip(at + 2), c);
        joined_first(s.take(at), rest, seq![c, c]);
        assert(s =~= s.take(at) + seq![c, c] + s.skip(at + 2));
        assert forall|i: int, k: int|
            0 <= i < pair_pieces(s, c).len() && 0 <= k < pair_pieces(s, c)[i].len() - 1 implies !(
        #[trigger] pair_pieces(s, c)[i][k] == c && pair_pieces(s, c)[i][k + 1] == c) by {
            if i > 0 {
                assert(pair_pieces(s, c)[i] == rest[i - 1]);
                assert(!(rest[i - 1][k] == c && rest[i - 1][k + 1] == c));
            } else {
                assert(pair_pieces(s, c)[0] == s.take(at));
                assert(pair_at(s, c, k) || !(s[k] == c && s[k + 1] == c));
            }
        }
    } else {
        assert forall|i: int, k: int|
            0 <= i < pair_pieces(s, c).len() && 0 <= k < pair_pieces(s, c)[i].len() - 1 implies !(
        #[trigger] pair_pieces(s, c)[i][k] == c && pair_pieces(s, c)[i][k + 1] == c) by {
            assert(pair_pieces(s, c)[0] == s);
            assert(pair_at(s, c, k) || !(s[k] == c && s[k + 1] == c));
        }
    }
}

spec fn pair_at(s: Seq<char>, c: char, k: int) -> bool {
    s[k] == c && s[k + 1] == c
}

proof fn until_pair_facts(s: Seq<char>, c: char)
    ensures
        0 <= until_pair(s, c) <= s.len(),
        until_pair(s, c) < s.len() ==> until_pair(s, c) + 2 <= s.len() && pair_at(
            s,
            c,
            until_pair(s, c),
        ),
        forall|k: int| 0 <= k < until_pair(s, c) && k + 1 < s.len() ==> !#[trigger] pair_at(s, c, k),
    decreases s.len(),
{
    if s.len() >= 2 && !(s[0] == c && s[1] == c) {
        let rest = s.drop_first();
        until_pair_facts(rest, c);
        assert forall|k: int| 0 <= k < until_pair(s, c) && k + 1 < s.len() implies !#[trigger] pair_at(
            s,
            c,
            k,
        ) by {
            if k > 0 {
                assert(!pair_at(rest, c, k - 1));
            }
        }
    }
}

/// The lines of a text make it up. Each ends with its newline, but for the last, and holds no other.
pub proof fn lines_make_up_the_text(s: Seq<char>)
    ensures
        joined_by(raw_lines(s), Seq::<char>::empty()) == s,
        raw_lines(s).len() == 0 <==> s.len() == 0,
        forall|i: int|
            0 <= i < raw_lines(s).len() ==> {
                &&& (#[trigger] raw_lines(s)[i]).len() > 0
                &&& i < raw_lines(s).len() - 1 ==> raw_lines(s)[i].last() == '\n'
                &&& !has_char(raw_lines(s)[i].drop_last(), '\n')
            },
    decreases s.len(),
{
    let at = until(s, '\n', '\n');
    until_range(s, '\n', '\n');
    if s.len() > 0 && at < s.len() {
        let rest = raw_lines(s.skip(at + 1));
        lines_make_up_the_text(s.skip(at + 1));
        let first = s.take(at + 1);
        assert(first.drop_last() =~= s.take(at));
        assert(s =~= first + Seq::<char>::empty() + s.skip(at + 1));
        if rest.len() > 0 {
            joined_first(first, rest, Seq::<char>::empty());
        } else {
            assert(s =~= first);
            assert(seq![first] + rest =~= seq![first]);
        }
        assert forall|i: int| 0 <= i < raw_lines(s).len() implies {
            &&& (#[trigger] raw_lines(s)[i]).len() > 0
            &&& i < raw_lines(s).len() - 1 ==> raw_lines(s)[i].last() == '\n'
            &&& !has_char(raw_lines(s)[i].drop_last(), '\n')
        } by {
            if i > 0 {
                assert(raw_lines(s)[i] == rest[i - 1]);
            } else {
                assert(raw_lines(s)[0] == first);
            }
        }
    } else if s.len() > 0 {
        assert(raw_lines(s) =~= seq![s]);
        assert forall|k: int| 0 <= k < s.drop_last().len() implies #[trigger] s.drop_last()[k]
            != '\n' by {
            assert(s.drop_last()[k] == s[k]);
        }
    }
}

/// White space is what Unicode calls so; in ASCII it is the space and the five characters from the
/// tabulator to the carriage return.
pub proof fn white_space_characters(c: char)
    ensures
        c as u32 <= 0x7f ==> (is_white(c) <==> c == ' ' || c == '\t' || c == '\n' || c == '\u{b}'
            || c == '\u{c}' || c == '\r'),
        c as u32 > 0x7f ==> (is_white(c) <==> seq![
            0x85u32,
            0xa0,
            0x1680,
            0x2000,
            0x2001,
            0x2002,
            0x2003,
            0x2004,
            0x2005,
            0x2006,
            0x2007,
            0x2008,
            0x2009,
            0x200a,
            0x2028,
            0x2029,
            0x202f,
            0x205f,
            0x3000,
        ].contains(c as u32)),
        is_control_char(c) <==> c as u32 <= 31 || 127 <= c as u32 <= 159,
{
    let list = seq![
        0x85u32,
        0xa0,
        0x1680,
        0x2000,
        0x2001,
        0x2002,
        0x2003,
        0x2004,
        0x2005,
        0x2006,
        0x2007,
        0x2008,
        0x2009,
        0x200a,
        0x2028,
        0x2029,
        0x202f,
        0x205f,
        0x3000,
    ];
    let n = c as u32;
    if list.contains(n) {
        let k = list.index_of(n);
        assert(list[k] == n);
    }
    if is_white(c) && n > 0x7f {
        assert(list[0] == 0x85 && list[1] == 0xa0 && list[2] == 0x1680 && list[14] == 0x2028
            && list[15] == 0x2029 && list[16] == 0x202f && list[17] == 0x205f && list[18] == 0x3000);
        if 0x2000 <= n <= 0x200a {
            assert(list[n - 0x2000 + 3] == n);
        }
        assert(list.contains(n));
    }
}

/// Lower case changes the capital letters of ASCII, each into its small one, and nothing else.
pub proof fn lower_case_of_letters(s: Seq<char>, i: int)
    requires
        0 <= i < s.len(),
    ensures
        lowered(s).len() == s.len(),
        lowered(lowered(s)) == lowered(s),
        'A' <= s[i] <= 'Z' ==> lowered(s)[i] as u32 - 'a' as u32 == s[i] as u32 - 'A' as u32,
        !('A' <= s[i] <= 'Z') ==> lowered(s)[i] == s[i],
{
    assert(lowered(lowered(s)) =~= lowered(s));
}

/// The length of a text in UTF-16 is that of its characters together, where each beyond U+FFFF
/// counts for two.
pub proof fn utf16_lengths_add_up(a: Seq<char>, b: Seq<char>, c: char)
    ensures
        utf16_len(a + b) == utf16_len(a) + utf16_len(b),
        utf16_len(seq![c]) == if c as u32 > 0xffff {
            2nat
        } else {
            1nat
        },
        a.len() <= utf16_len(a) <= 2 * a.len(),
    decreases a.len() + b.len(),
{
    assert(seq![c].drop_last() =~= Seq::<char>::empty());
    assert(utf16_len(Seq::<char>::empty()) == 0);
    assert(seq![c].last() == c);
    if b.len() > 0 {
        utf16_lengths_add_up(a, b.drop_last(), c);
        assert((a + b).drop_last() =~= a + b.drop_last());
    } else {
        assert(a + b =~= a);
        if a.len() > 0 {
            utf16_lengths_add_up(a.drop_last(), b, c);
        }
    }
}

/// Digits one after the other are read as one number: the digits before count ten fold for each
/// digit behind them. Each digit has its value.
pub proof fn digits_are_decimal(s: Seq<char>, c: char)
    ensures
        number_value(s.push(c)) == 10 * number_value(s) + number_value(seq![c]),
        '0' <= c <= '9' ==> number_value(seq![c]) == c as u32 - '0' as u32,
        number_value(seq!['0'] + s) == number_value(s),
        is_number(seq![c]) <==> '0' <= c <= '9',
        is_number(s.push(c)) <==> (s.len() == 0 || is_number(s)) && is_number(seq![c]),
    decreases s.len(),
{
    reveal_with_fuel(number_value, 2);
    assert(s.push(c).drop_last() =~= s);
    assert(seq![c].drop_last() =~= Seq::<char>::empty());
    assert(seq![c][0] == c);
    if s.len() > 0 {
        digits_are_decimal(s.drop_last(), c);
        assert((seq!['0'] + s).drop_last() =~= seq!['0'] + s.drop_last());
        assert((seq!['0'] + s).last() == s.last());
    } else {
        assert(seq!['0'] + s =~= seq!['0']);
        assert(seq!['0'].drop_last() =~= Seq::<char>::empty());
    }
    if is_number(s.push(c)) {
        assert forall|i: int| 0 <= i < s.len() implies is_digit(#[trigger] s[i]) by {
            assert(s.push(c)[i] == s[i]);
        }
        assert(s.push(c)[s.len() as int] == c);
    }
}

}
