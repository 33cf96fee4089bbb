//! The encodings of a configuration file.

use vstd::prelude::*;
use vstd::utf8::{decode_utf8, encode_utf8, valid_utf8};

verus! {

/// The encoding of a configuration file.
#[derive(Debug, Clone, Copy, PartialEq, Eq, Structural)]
pub enum IniEncoding {
    Utf8,
    Utf8Bom,
    Utf16Le,
    Utf16Be,
}

/// Why bytes are no text.
#[derive(Debug, Clone, Copy, PartialEq, Eq, Structural)]
pub enum DecodeError {
    /// The bytes, behind a UTF-8 mark or without one, are not UTF-8: after `valid` bytes stand
    /// `wrong` bytes that encode nothing, or the bytes end within a character.
    Utf8 { marked: bool, valid: usize, wrong: Option<usize> },
    /// The bytes after a UTF-16 mark are not whole units.
    Length,
    /// The units are not UTF-16.
    Utf16,
}

/// The UTF-16 units of a character.
pub open spec fn char_units(c: char) -> Seq<u16> {
    let n = c as u32;
    if n < 0x10000 {
        seq![n as u16]
    } else {
        let rest = (n - 0x10000) as u32;
        seq![(0xd800 + rest / 0x400) as u16, (0xdc00 + rest % 0x400) as u16]
    }
}

/// The UTF-16 units of a text.
pub open spec fn encode_utf16(text: Seq<char>) -> Seq<u16>
    decreases text.len(),
{
    if text.len() == 0 {
        seq![]
    } else {
        char_units(text[0]) + encode_utf16(text.drop_first())
    }
}

pub open spec fn is_high(unit: u16) -> bool {
    0xd800 <= unit < 0xdc00
}

pub open spec fn is_low(unit: u16) -> bool {
    0xdc00 <= unit < 0xe000
}

/// The character of a surrogate pair.
pub open spec fn pair_char(high: u16, low: u16) -> char {
    ((0x10000 + (high - 0xd800) * 0x400 + (low - 0xdc00)) as u32) as char
}

/// The text that UTF-16 units encode; none where a surrogate stands alone.
pub open spec fn decode_utf16(units: Seq<u16>) -> Option<Seq<char>>
    decreases units.len(),
{
    if units.len() == 0 {
        Some(seq![])
    } else if !is_high(units[0]) && !is_low(units[0]) {
        match decode_utf16(units.drop_first()) {
            Some(rest) => Some(seq![units[0] as char] + rest),
            None => None,
        }
    } else if is_high(units[0]) && units.len() > 1 && is_low(units[1]) {
        match decode_utf16(units.skip(2)) {
            Some(rest) => Some(seq![pair_char(units[0], units[1])] + rest),
            None => None,
        }
    } else {
        None
    }
}

/// The unit of two bytes.
pub open spec fn unit_of(first: u8, second: u8, encoding: IniEncoding) -> u16 {
    if encoding == IniEncoding::Utf16Le {
        (first + 256 * second) as u16
    } else {
        (256 * first + second) as u16
    }
}

/// The units of an even number of bytes.
pub open spec fn bytes_units(bytes: Seq<u8>, encoding: IniEncoding) -> Seq<u16> {
    Seq::new(bytes.len() / 2, |i: int| unit_of(bytes[2 * i], bytes[2 * i + 1], encoding))
}

/// The bytes of units.
pub open spec fn units_bytes(units: Seq<u16>, encoding: IniEncoding) -> Seq<u8> {
    Seq::new(
        2 * units.len(),
        |i: int|
            if (i % 2 == 0) == (encoding == IniEncoding::Utf16Le) {
                (units[i / 2] % 256) as u8
            } else {
                (units[i / 2] / 256) as u8
            },
    )
}

/// The mark at the beginning of a file.
pub open spec fn mark(encoding: IniEncoding) -> Seq<u8> {
    match encoding {
        IniEncoding::Utf8 => seq![],
        IniEncoding::Utf8Bom => seq![0xef, 0xbb, 0xbf],
        IniEncoding::Utf16Le => seq![0xff, 0xfe],
        IniEncoding::Utf16Be => seq![0xfe, 0xff],
    }
}

/// Whether bytes begin with the mark of an encoding.
pub open spec fn marked(bytes: Seq<u8>, encoding: IniEncoding) -> bool {
    mark(encoding).len() <= bytes.len() && bytes.take(mark(encoding).len() as int) == mark(encoding)
}

/// The encoding that the mark of a file names.
pub open spec fn encoding_of(bytes: Seq<u8>) -> IniEncoding {
    if marked(bytes, IniEncoding::Utf8Bom) {
        IniEncoding::Utf8Bom
    } else if marked(bytes, IniEncoding::Utf16Le) {
        IniEncoding::Utf16Le
    } else if marked(bytes, IniEncoding::Utf16Be) {
        IniEncoding::Utf16Be
    } else {
        IniEncoding::Utf8
    }
}

/// The text of a file.
pub open spec fn decoded(bytes: Seq<u8>) -> Result<(Seq<char>, IniEncoding), DecodeError> {
    let encoding = encoding_of(bytes);
    let body = bytes.skip(mark(encoding).len() as int);
    if encoding == IniEncoding::Utf8 || encoding == IniEncoding::Utf8Bom {
        if valid_utf8(body) {
            Ok((decode_utf8(body), encoding))
        } else {
            let (valid, wrong) = utf8_fault(body);
            Err(DecodeError::Utf8 { marked: encoding == IniEncoding::Utf8Bom, valid, wrong })
        }
    } else if body.len() % 2 != 0 {
        Err(DecodeError::Length)
    } else {
        match decode_utf16(bytes_units(body, encoding)) {
            Some(text) => Ok((text, encoding)),
            None => Err(DecodeError::Utf16),
        }
    }
}

/// The bytes of a file.
pub open spec fn encoded(text: Seq<char>, encoding: IniEncoding) -> Seq<u8> {
    if encoding == IniEncoding::Utf8 || encoding == IniEncoding::Utf8Bom {
        mark(encoding) + encode_utf8(text)
    } else {
        mark(encoding) + units_bytes(encode_utf16(text), encoding)
    }
}

/// Where bytes stop being UTF-8, as the error of `std::str::from_utf8` says: the number of bytes
/// before, and the number of bytes there that encode nothing; none where the bytes end too early.
pub uninterp spec fn utf8_fault(bytes: Seq<u8>) -> (usize, Option<usize>);

/// `std::str::from_utf8` returns the text of valid UTF-8 bytes and an error for other bytes. What
/// the error says depends on the bytes alone and is here under the name `utf8_fault`; the place
/// that it names is the largest up to which the bytes are UTF-8.
#[verifier::external_body]
fn utf8_text(bytes: &[u8]) -> (r: Result<String, (usize, Option<usize>)>)
    ensures
        match r {
            Ok(text) => valid_utf8(bytes@) && text@ == decode_utf8(bytes@),
            Err(fault) => {
                &&& !valid_utf8(bytes@)
                &&& fault == utf8_fault(bytes@)
                &&& fault.0 <= bytes@.len()
                &&& valid_utf8(bytes@.take(fault.0 as int))
                &&& forall|n: int|
                    fault.0 < n <= bytes@.len() ==> !valid_utf8(#[trigger] bytes@.take(n))
            },
        },
{
    match std::str::from_utf8(bytes) {
        Ok(text) => Ok(text.to_owned()),
        Err(error) => Err((error.valid_up_to(), error.error_len())),
    }
}

/// `char::from_u32` returns the character with the given number; numbers above 0x10FFFF and
/// surrogates have none.
pub assume_specification[ char::from_u32 ](number: u32) -> (r: Option<char>)
    ensures
        r == (if number <= 0x10ffff && !(0xd800 <= number && number <= 0xdfff) {
            Some(number as char)
        } else {
            None
        }),
;

fn bytes_from(bytes: &[u8], from: usize) -> (r: Vec<u8>)
    requires
        from <= bytes@.len(),
    ensures
        r@ == bytes@.skip(from as int),
{
    let mut r: Vec<u8> = Vec::new();
    let mut i: usize = from;
    while i < bytes.len()
        invariant
            from <= i <= bytes@.len(),
            r@ == bytes@.subrange(from as int, i as int),
        decreases bytes@.len() - i,
    {
        r.push(bytes[i]);
        i += 1;
    }
    assert(bytes@.subrange(from as int, bytes@.len() as int) == bytes@.skip(from as int));
    r
}

fn detect(bytes: &[u8]) -> (r: (IniEncoding, usize))
    ensures
        r.0 == encoding_of(bytes@),
        r.1 == mark(r.0).len(),
        r.1 <= bytes@.len(),
{
    proof {
        if bytes@.len() >= 3 {
            assert(bytes@.take(3) =~= seq![bytes@[0], bytes@[1], bytes@[2]]);
            assert(marked(bytes@, IniEncoding::Utf8Bom) <==> bytes@[0] == 0xef && bytes@[1] == 0xbb
                && bytes@[2] == 0xbf) by {
                assert(bytes@.take(3)[0] == bytes@[0]);
                assert(bytes@.take(3)[1] == bytes@[1]);
                assert(bytes@.take(3)[2] == bytes@[2]);
            }
        }
        if bytes@.len() >= 2 {
            assert(bytes@.take(2)[0] == bytes@[0]);
            assert(bytes@.take(2)[1] == bytes@[1]);
            assert(bytes@.take(2) =~= seq![bytes@[0], bytes@[1]]);
        }
    }
    if bytes.len() >= 3 && bytes[0] == 0xef && bytes[1] == 0xbb && bytes[2] == 0xbf {
        return (IniEncoding::Utf8Bom, 3);
    }
    if bytes.len() >= 2 && bytes[0] == 0xff && bytes[1] == 0xfe {
        return (IniEncoding::Utf16Le, 2);
    }
    if bytes.len() >= 2 && bytes[0] == 0xfe && bytes[1] == 0xff {
        return (IniEncoding::Utf16Be, 2);
    }
    (IniEncoding::Utf8, 0)
}

fn read_units(bytes: &[u8], encoding: IniEncoding) -> (r: Vec<u16>)
    requires
        bytes@.len() % 2 == 0,
    ensures
        r@ == bytes_units(bytes@, encoding),
{
    let mut r: Vec<u16> = Vec::new();
    let mut i: usize = 0;
    while i < bytes.len()
        invariant
            i <= bytes@.len(),
            i % 2 == 0,
            bytes@.len() % 2 == 0,
            r@ == bytes_units(bytes@, encoding).take(i as int / 2),
        decreases bytes@.len() - i,
    {
        let unit: u16 = if encoding == IniEncoding::Utf16Le {
            bytes[i] as u16 + 256 * bytes[i + 1] as u16
        } else {
            256 * bytes[i] as u16 + bytes[i + 1] as u16
        };
        assert(unit == bytes_units(bytes@, encoding)[i as int / 2]);
        r.push(unit);
        i = i + 2;
    }
    assert(bytes_units(bytes@, encoding).take(bytes@.len() as int / 2) == bytes_units(
        bytes@,
        encoding,
    ));
    r
}

/// The text that UTF-16 units encode.
pub fn text_of_units(units: &[u16]) -> (r: Option<String>)
    ensures
        match r {
            Some(text) => decode_utf16(units@) == Some(text@),
            None => decode_utf16(units@) is None,
        },
{
    let mut r = String::new();
    let mut i: usize = 0;
    assert(units@.skip(0) == units@);
    while i < units.len()
        invariant
            i <= units@.len(),
            match decode_utf16(units@.skip(i as int)) {
                Some(rest) => decode_utf16(units@) == Some(r@ + rest),
                None => decode_utf16(units@) is None,
            },
        decreases units@.len() - i,
    {
        let unit: u16 = units[i];
        let ghost rest = units@.skip(i as int);
        let ghost before = r@;
        assert(rest.drop_first() == units@.skip(i + 1));
        if unit < 0xd800 || unit >= 0xe000 {
            match char::from_u32(unit as u32) {
                Some(c) => {
                    assert(c == unit as char);
                    r.push(c);
                    proof {
                        if let Some(tail) = decode_utf16(units@.skip(i + 1)) {
                            assert(before + (seq![c] + tail) == r@ + tail);
                        }
                    }
                },
                None => {
                    return None;
                },
            }
            i = i + 1;
        } else if unit < 0xdc00 && units.len() - i > 1 && units[i + 1] >= 0xdc00 && units[i + 1]
            < 0xe000 {
            let low: u16 = units[i + 1];
            assert(rest[1] == low);
            assert(rest.skip(2) == units@.skip(i + 2));
            let number: u32 = 0x10000 + (unit as u32 - 0xd800) * 0x400 + (low as u32 - 0xdc00);
            match char::from_u32(number) {
                Some(c) => {
                    assert(c == pair_char(unit, low));
                    r.push(c);
                    proof {
                        if let Some(tail) = decode_utf16(units@.skip(i + 2)) {
                            assert(before + (seq![c] + tail) == r@ + tail);
                        }
                    }
                },
                None => {
                    return None;
                },
            }
            i = i + 2;
        } else {
            assert(rest.len() > 1 ==> rest[1] == units@[i + 1]);
            return None;
        }
    }
    assert(units@.skip(i as int).len() == 0);
    assert(r@ + Seq::<char>::empty() == r@);
    Some(r)
}

/// Reads the text of a file and its encoding.
pub fn decode(bytes: &[u8]) -> (r: Result<(String, IniEncoding), DecodeError>)
    ensures
        match r {
            Ok((text, encoding)) => decoded(bytes@) == Ok::<_, DecodeError>((text@, encoding)),
            Err(error) => decoded(bytes@) == Err::<(Seq<char>, IniEncoding), _>(error),
        },
{
    let (encoding, start) = detect(bytes);
    let body = bytes_from(bytes, start);
    if encoding == IniEncoding::Utf8 || encoding == IniEncoding::Utf8Bom {
        return match utf8_text(body.as_slice()) {
            Ok(text) => Ok((text, encoding)),
            Err((valid, wrong)) => Err(
                DecodeError::Utf8 { marked: encoding == IniEncoding::Utf8Bom, valid, wrong },
            ),
        };
    }
    if body.len() % 2 != 0 {
        return Err(DecodeError::Length);
    }
    let units = read_units(body.as_slice(), encoding);
    match text_of_units(units.as_slice()) {
        Some(text) => Ok((text, encoding)),
        None => Err(DecodeError::Utf16),
    }
}

fn push_unit(r: &mut Vec<u8>, unit: u16, encoding: IniEncoding)
    ensures
        final(r)@ == old(r)@ + units_bytes(seq![unit], encoding),
{
    let low: u8 = (unit % 256) as u8;
    let high: u8 = (unit / 256) as u8;
    if encoding == IniEncoding::Utf16Le {
        r.push(low);
        r.push(high);
    } else {
        r.push(high);
        r.push(low);
    }
    assert(r@ =~= old(r)@ + units_bytes(seq![unit], encoding));
}

proof fn units_bytes_add(a: Seq<u16>, b: Seq<u16>, encoding: IniEncoding)
    ensures
        units_bytes(a + b, encoding) == units_bytes(a, encoding) + units_bytes(b, encoding),
{
    let both = units_bytes(a + b, encoding);
    let x = units_bytes(a, encoding);
    let y = units_bytes(b, encoding);
    assert forall|i: int| 0 <= i < both.len() implies both[i] == (x + y)[i] by {
        if i < 2 * a.len() {
            assert((a + b)[i / 2] == a[i / 2]);
        } else {
            assert((a + b)[i / 2] == b[(i - 2 * a.len()) / 2]);
        }
    }
    assert(both =~= x + y);
}

proof fn encode_utf16_push(text: Seq<char>, c: char)
    ensures
        encode_utf16(text.push(c)) == encode_utf16(text) + char_units(c),
    decreases text.len(),
{
    if text.len() == 0 {
        assert(text.push(c).drop_first() == Seq::<char>::empty());
        assert(encode_utf16(Seq::<char>::empty()) == Seq::<u16>::empty());
        assert(char_units(c) + Seq::<u16>::empty() == Seq::<u16>::empty() + char_units(c));
    } else {
        encode_utf16_push(text.drop_first(), c);
        assert(text.push(c).drop_first() == text.drop_first().push(c));
        assert(char_units(text[0]) + (encode_utf16(text.drop_first()) + char_units(c))
            == char_units(text[0]) + encode_utf16(text.drop_first()) + char_units(c));
    }
}

/// Writes a text in an encoding.
pub fn encode(text: &str, encoding: IniEncoding) -> (r: Vec<u8>)
    ensures
        r@ == encoded(text@, encoding),
{
    let mut r: Vec<u8> = Vec::new();
    match encoding {
        IniEncoding::Utf8 => {},
        IniEncoding::Utf8Bom => {
            r.push(0xef);
            r.push(0xbb);
            r.push(0xbf);
        },
        IniEncoding::Utf16Le => {
            r.push(0xff);
            r.push(0xfe);
        },
        IniEncoding::Utf16Be => {
            r.push(0xfe);
            r.push(0xff);
        },
    }
    assert(r@ =~= mark(encoding));
    if encoding == IniEncoding::Utf8 || encoding == IniEncoding::Utf8Bom {
        r.extend_from_slice(text.as_bytes());
        assert(r@ =~= encoded(text@, encoding));
        return r;
    }
    let chars = crate::text::chars_of(text);
    assert(encode_utf16(chars@.take(0)) == Seq::<u16>::empty());
    assert(r@ =~= mark(encoding) + units_bytes(encode_utf16(chars@.take(0)), encoding));
    for i in 0..chars.len()
        invariant
            encoding == IniEncoding::Utf16Le || encoding == IniEncoding::Utf16Be,
            r@ == mark(encoding) + units_bytes(encode_utf16(chars@.take(i as int)), encoding),
    {
        let c = chars[i];
        let number: u32 = c as u32;
        let ghost before = r@;
        let ghost done = encode_utf16(chars@.take(i as int));
        proof {
            assert(chars@.take(i + 1) == chars@.take(i as int).push(c));
            encode_utf16_push(chars@.take(i as int), c);
            units_bytes_add(done, char_units(c), encoding);
        }
        if number < 0x10000 {
            push_unit(&mut r, number as u16, encoding);
            assert(char_units(c) =~= seq![number as u16]);
        } else {
            let rest: u32 = number - 0x10000;
            let high: u16 = (0xd800 + rest / 0x400) as u16;
            let low: u16 = (0xdc00 + rest % 0x400) as u16;
            push_unit(&mut r, high, encoding);
            push_unit(&mut r, low, encoding);
            proof {
                assert(char_units(c) =~= seq![high] + seq![low]);
                units_bytes_add(seq![high], seq![low], encoding);
            }
        }
        assert(r@ =~= mark(encoding) + (units_bytes(done, encoding) + units_bytes(
            char_units(c),
            encoding,
        )));
    }
    assert(chars@.take(chars@.len() as int) == chars@);
    r
}

// ---------------------------------------------------------------------------
// Laws of the encodings

proof fn utf16_round_trip(text: Seq<char>)
    ensures
        decode_utf16(encode_utf16(text)) == Some(text),
    decreases text.len(),
{
    if text.len() == 0 {
        assert(text =~= seq![]);
    } else {
        let c = text[0];
        let rest = encode_utf16(text.drop_first());
        let all = encode_utf16(text);
        utf16_round_trip(text.drop_first());
        let number = c as u32;
        vstd::utf8::char_is_scalar(c);
        vstd::utf8::char_u32_cast(c, number);
        if number < 0x10000 {
            assert(all.drop_first() =~= rest);
            assert(all[0] == number as u16);
            assert(all[0] as char == c);
        } else {
            assert(all.skip(2) =~= rest);
            assert(all[0] == char_units(c)[0] && all[1] == char_units(c)[1]);
            assert(0x10000 + (all[0] - 0xd800) * 0x400 + (all[1] - 0xdc00) == number);
            assert(pair_char(all[0], all[1]) == c);
        }
        assert(seq![c] + text.drop_first() =~= text);
    }
}

proof fn units_round_trip(units: Seq<u16>, encoding: IniEncoding)
    requires
        encoding == IniEncoding::Utf16Le || encoding == IniEncoding::Utf16Be,
    ensures
        bytes_units(units_bytes(units, encoding), encoding) == units,
        units_bytes(units, encoding).len() % 2 == 0,
{
    let bytes = units_bytes(units, encoding);
    let back = bytes_units(bytes, encoding);
    assert forall|i: int| 0 <= i < units.len() implies back[i] == units[i] by {
        assert((2 * i) / 2 == i && (2 * i + 1) / 2 == i);
        assert(bytes[2 * i] == (if encoding == IniEncoding::Utf16Le {
            (units[i] % 256) as u8
        } else {
            (units[i] / 256) as u8
        }));
        assert(bytes[2 * i + 1] == (if encoding == IniEncoding::Utf16Le {
            (units[i] / 256) as u8
        } else {
            (units[i] % 256) as u8
        }));
    }
    assert(back =~= units);
}

proof fn utf8_marks(text: Seq<char>)
    requires
        text.len() == 0 || text[0] != '\u{feff}',
    ensures
        encoding_of(encode_utf8(text)) == IniEncoding::Utf8,
{
    let bytes = encode_utf8(text);
    vstd::utf8::encode_utf8_valid_utf8(text);
    vstd::utf8::encode_utf8_decode_utf8(text);
    if marked(bytes, IniEncoding::Utf8Bom) {
        assert(bytes.take(3)[0] == bytes[0] && bytes.take(3)[1] == bytes[1] && bytes.take(3)[2]
            == bytes[2]);
        assert(bytes[0] == 0xef && bytes[1] == 0xbb && bytes[2] == 0xbf);
        assert(decode_utf8(bytes)[0] == vstd::utf8::decode_first_scalar(bytes) as char);
        assert((((0xefu8 & 0x0fu8) as u32) << 12u32) | (((0xbbu8 & 0x3fu8) as u32) << 6u32) | ((
        0xbfu8 & 0x3fu8) as u32) == 0xfeffu32) by (bit_vector);
        assert(vstd::utf8::decode_first_scalar(bytes) == 0xfeff);
        assert(text[0] == '\u{feff}');
    }
    if marked(bytes, IniEncoding::Utf16Le) {
        assert(bytes.take(2)[0] == bytes[0]);
        assert(bytes[0] == 0xff);
    }
    if marked(bytes, IniEncoding::Utf16Be) {
        assert(bytes.take(2)[0] == bytes[0]);
        assert(bytes[0] == 0xfe);
    }
}

/// Reading a written file gives back the text and the encoding. The one exception is a text that
/// begins with U+FEFF and is written without a mark: the character is then read as the mark.
pub proof fn encoding_round_trip(text: Seq<char>, encoding: IniEncoding)
    requires
        encoding == IniEncoding::Utf8 ==> text.len() == 0 || text[0] != '\u{feff}',
    ensures
        decoded(encoded(text, encoding)) == Ok::<_, DecodeError>((text, encoding)),
{
    let bytes = encoded(text, encoding);
    let head = mark(encoding);
    let n = head.len() as int;
    vstd::utf8::encode_utf8_valid_utf8(text);
    vstd::utf8::encode_utf8_decode_utf8(text);
    assert(bytes.take(n) =~= head);
    if encoding == IniEncoding::Utf8 {
        utf8_marks(text);
        assert(bytes =~= encode_utf8(text));
        assert(bytes.skip(0) =~= encode_utf8(text));
    } else if encoding == IniEncoding::Utf8Bom {
        assert(bytes.skip(3) =~= encode_utf8(text));
    } else {
        let units = encode_utf16(text);
        units_round_trip(units, encoding);
        utf16_round_trip(text);
        assert(bytes.skip(2) =~= units_bytes(units, encoding));
        if marked(bytes, IniEncoding::Utf8Bom) {
            assert(bytes.take(3)[0] == bytes[0]);
            assert(bytes.take(2)[0] == bytes[0]);
        }
        assert(bytes.take(2)[0] == bytes[0] && bytes.take(2)[1] == bytes[1]);
    }
}

proof fn utf16_goes_back(units: Seq<u16>)
    requires
        decode_utf16(units) is Some,
    ensures
        encode_utf16(decode_utf16(units)->0) == units,
    decreases units.len(),
{
    let text = decode_utf16(units)->0;
    if units.len() == 0 {
        assert(encode_utf16(text) =~= units);
    } else if !is_high(units[0]) && !is_low(units[0]) {
        let rest = units.drop_first();
        utf16_goes_back(rest);
        let c = units[0] as char;
        vstd::utf8::char_u32_cast(c, units[0] as u32);
        assert(text.drop_first() =~= decode_utf16(rest)->0);
        assert(char_units(c) =~= seq![units[0]]);
        assert(encode_utf16(text) =~= units);
    } else {
        let rest = units.skip(2);
        utf16_goes_back(rest);
        let number = (0x10000 + (units[0] - 0xd800) * 0x400 + (units[1] - 0xdc00)) as u32;
        let c = pair_char(units[0], units[1]);
        vstd::utf8::char_u32_cast(c, number);
        assert(text.drop_first() =~= decode_utf16(rest)->0);
        assert((number - 0x10000) / 0x400 == units[0] - 0xd800);
        assert((number - 0x10000) % 0x400 == units[1] - 0xdc00);
        assert(char_units(c) =~= seq![units[0], units[1]]);
        assert(encode_utf16(text) =~= units);
    }
}

proof fn units_go_back(bytes: Seq<u8>, encoding: IniEncoding)
    requires
        encoding == IniEncoding::Utf16Le || encoding == IniEncoding::Utf16Be,
        bytes.len() % 2 == 0,
    ensures
        units_bytes(bytes_units(bytes, encoding), encoding) == bytes,
{
    let units = bytes_units(bytes, encoding);
    let back = units_bytes(units, encoding);
    assert forall|i: int| 0 <= i < bytes.len() implies back[i] == bytes[i] by {
        let k = i / 2;
        let unit = units[k];
        assert(unit == unit_of(bytes[2 * k], bytes[2 * k + 1], encoding));
        if encoding == IniEncoding::Utf16Le {
            assert(unit == bytes[2 * k] + 256 * bytes[2 * k + 1]);
        } else {
            assert(unit == 256 * bytes[2 * k] + bytes[2 * k + 1]);
        }
    }
    assert(back =~= bytes);
}

/// Writing what was read gives back the file byte for byte, its mark included.
pub proof fn decoding_round_trip(bytes: Seq<u8>)
    requires
        decoded(bytes) is Ok,
    ensures
        encoded((decoded(bytes)->Ok_0).0, (decoded(bytes)->Ok_0).1) == bytes,
{
    let encoding = encoding_of(bytes);
    let head = mark(encoding);
    let body = bytes.skip(head.len() as int);
    assert(marked(bytes, encoding)) by {
        assert(bytes.take(0) =~= Seq::<u8>::empty());
    }
    assert(head + body =~= bytes);
    if encoding == IniEncoding::Utf8 || encoding == IniEncoding::Utf8Bom {
        vstd::utf8::decode_utf8_encode_utf8(body);
    } else {
        let units = bytes_units(body, encoding);
        utf16_goes_back(units);
        units_go_back(body, encoding);
    }
}

/// A file begins with the bytes that name its encoding. Without such bytes it is plain UTF-8.
pub proof fn marks_name_the_encoding(bytes: Seq<u8>)
    ensures
        encoding_of(bytes) == IniEncoding::Utf8Bom <==> bytes.len() >= 3 && bytes[0] == 0xef
            && bytes[1] == 0xbb && bytes[2] == 0xbf,
        encoding_of(bytes) == IniEncoding::Utf16Le <==> bytes.len() >= 2 && bytes[0] == 0xff
            && bytes[1] == 0xfe,
        encoding_of(bytes) == IniEncoding::Utf16Be <==> bytes.len() >= 2 && bytes[0] == 0xfe
            && bytes[1] == 0xff,
{
    if bytes.len() >= 3 {
        assert(bytes.take(3) =~= seq![bytes[0], bytes[1], bytes[2]]);
        assert(bytes.take(3)[0] == bytes[0]);
        assert(bytes.take(3)[1] == bytes[1]);
        assert(bytes.take(3)[2] == bytes[2]);
    }
    if bytes.len() >= 2 {
        assert(bytes.take(2) =~= seq![bytes[0], bytes[1]]);
        assert(bytes.take(2)[0] == bytes[0]);
        assert(bytes.take(2)[1] == bytes[1]);
    }
}

/// UTF-8 goes into a file as it is, behind its mark where it has one. A UTF-16 unit is two bytes:
/// with the low one first in little endian, and with the high one first in big endian.
pub proof fn bytes_of_an_encoding(text: Seq<char>, units: Seq<u16>, at: int)
    requires
        0 <= at < units.len(),
    ensures
        encoded(text, IniEncoding::Utf8) == encode_utf8(text),
        encoded(text, IniEncoding::Utf8Bom) == seq![0xefu8, 0xbb, 0xbf] + encode_utf8(text),
        encoded(text, IniEncoding::Utf16Le) == seq![0xffu8, 0xfe] + units_bytes(
            encode_utf16(text),
            IniEncoding::Utf16Le,
        ),
        encoded(text, IniEncoding::Utf16Be) == seq![0xfeu8, 0xff] + units_bytes(
            encode_utf16(text),
            IniEncoding::Utf16Be,
        ),
        ({
            let little = units_bytes(units, IniEncoding::Utf16Le);
            let big = units_bytes(units, IniEncoding::Utf16Be);
            &&& little.len() == 2 * units.len() && big.len() == 2 * units.len()
            &&& units[at] == little[2 * at] + 256 * little[2 * at + 1]
            &&& big[2 * at] == little[2 * at + 1] && big[2 * at + 1] == little[2 * at]
        }),
{
    assert(Seq::<u8>::empty() + encode_utf8(text) =~= encode_utf8(text));
    assert((2 * at) % 2 == 0 && (2 * at) / 2 == at);
    assert((2 * at + 1) % 2 == 1 && (2 * at + 1) / 2 == at);
}

/// A character up to U+FFFF is one UTF-16 unit; any other is a pair of surrogates that holds, ten
/// bits each, its distance from U+10000.
pub proof fn units_of_a_character(c: char)
    ensures
        (c as u32) < 0x10000 ==> char_units(c).len() == 1 && char_units(c)[0] == c as u32,
        (c as u32) >= 0x10000 ==> {
            let units = char_units(c);
            &&& units.len() == 2
            &&& 0xd800 <= units[0] <= 0xdbff
            &&& 0xdc00 <= units[1] <= 0xdfff
            &&& c as u32 == 0x10000 + (units[0] - 0xd800) * 1024 + (units[1] - 0xdc00)
        },
{
}

/// Two texts of UTF-16 units one after the other are the one text and the other. A unit that is no
/// surrogate is the character with its number.
pub proof fn units_are_read_in_order(a: Seq<u16>, b: Seq<u16>, unit: u16)
    requires
        decode_utf16(a) is Some,
        decode_utf16(b) is Some,
        !(0xd800 <= unit <= 0xdfff),
    ensures
        decode_utf16(a + b) == Some(decode_utf16(a)->0 + decode_utf16(b)->0),
        decode_utf16(seq![unit]) == Some(seq![unit as char]),
        decode_utf16(Seq::<u16>::empty()) == Some(Seq::<char>::empty()),
    decreases a.len(),
{
    reveal_with_fuel(decode_utf16, 2);
    let one = seq![unit];
    assert(one.drop_first() =~= Seq::<u16>::empty());
    assert(seq![unit as char] + Seq::<char>::empty() =~= seq![unit as char]);
    if a.len() == 0 {
        assert(a + b =~= b);
        assert(Seq::<char>::empty() + decode_utf16(b)->0 =~= decode_utf16(b)->0);
    } else if !is_high(a[0]) && !is_low(a[0]) {
        let rest = a.drop_first();
        units_are_read_in_order(rest, b, unit);
        assert((a + b).drop_first() =~= rest + b);
        assert(seq![a[0] as char] + (decode_utf16(rest)->0 + decode_utf16(b)->0) =~= (
        seq![a[0] as char] + decode_utf16(rest)->0) + decode_utf16(b)->0);
    } else {
        let rest = a.skip(2);
        units_are_read_in_order(rest, b, unit);
        assert((a + b).skip(2) =~= rest + b);
        let c = pair_char(a[0], a[1]);
        assert(seq![c] + (decode_utf16(rest)->0 + decode_utf16(b)->0) =~= (seq![c]
            + decode_utf16(rest)->0) + decode_utf16(b)->0);
    }
}

/// A file is refused for what follows its mark: UTF-8 bytes that are none, UTF-16 that does not
/// consist of pairs of bytes, or units of which a surrogate stands alone.
pub proof fn refused_files(bytes: Seq<u8>)
    ensures
        ({
            let two = encoding_of(bytes) == IniEncoding::Utf16Le || encoding_of(bytes)
                == IniEncoding::Utf16Be;
            let three = encoding_of(bytes) == IniEncoding::Utf8Bom;
            &&& decoded(bytes) is Ok ==> (decoded(bytes)->Ok_0).1 == encoding_of(bytes)
            &&& decoded(bytes) == Err::<(Seq<char>, IniEncoding), _>(DecodeError::Length) <==> two
                && bytes.len() % 2 == 1
            &&& decoded(bytes) == Err::<(Seq<char>, IniEncoding), _>(DecodeError::Utf16) <==> two
                && bytes.len() % 2 == 0 && decode_utf16(
                bytes_units(bytes.skip(2), encoding_of(bytes)),
            ) is None
            &&& three ==> (decoded(bytes) is Ok <==> valid_utf8(bytes.skip(3)))
            &&& !two && !three ==> (decoded(bytes) is Ok <==> valid_utf8(bytes))
            &&& decoded(bytes) matches Err(DecodeError::Utf8 { marked, valid, wrong }) ==> !two
                && marked == three
        }),
{
    marks_name_the_encoding(bytes);
    assert(bytes.skip(0) =~= bytes);
}

}
