//! The rotation of the log file and its archives.

use vstd::prelude::*;

use crate::config::file_identity::{key_char, FileIdentity};
use crate::text::{
    begins_with, chars_of, decimal, decimal_text, parse_unsigned, part, push_text, starts_with,
    unsigned, until, is_digit, find_either, has_char, until_range,
};

verus! {

/// Largest number of archives.
pub const MAX_ARCHIVES: u32 = 20;

/// Number of bytes at the beginning of an archive that can hold its header.
pub const HEADER_LIMIT: u64 = 256;

/// Whether the limits of a log can be kept.
pub fn limits_valid(max_bytes: u64, retained: u32) -> (r: bool)
    ensures
        r == (max_bytes >= 2 * HEADER_LIMIT && retained <= MAX_ARCHIVES),
{
    max_bytes >= 2 * HEADER_LIMIT && retained <= MAX_ARCHIVES
}

/// The name of an archive of a log.
pub fn archive_name(name: &str, index: u32) -> (r: String)
    ensures
        r@ == name@ + ".window-switcher."@ + decimal(index as nat) + ".log"@,
{
    let mut r = name.to_owned();
    push_text(&mut r, ".window-switcher.");
    push_text(&mut r, decimal_text(index as u64).as_str());
    push_text(&mut r, ".log");
    r
}

/// The beginning of the header of an archive.
pub open spec fn header_prefix(key: Seq<char>) -> Seq<char> {
    "# window-switcher archive v1 "@ + key + " "@
}

/// The header line of an archive.
pub open spec fn header(key: Seq<char>, sequence: nat) -> Seq<char> {
    header_prefix(key) + decimal(sequence) + "\n"@
}

fn prefix_text(key: &str) -> (r: String)
    ensures
        r@ == header_prefix(key@),
{
    let mut r = "# window-switcher archive v1 ".to_owned();
    push_text(&mut r, key);
    push_text(&mut r, " ");
    r
}

/// The header line of an archive.
pub fn archive_header(key: &str, sequence: u64) -> (r: String)
    ensures
        r@ == header(key@, sequence as nat),
{
    let mut r = prefix_text(key);
    push_text(&mut r, decimal_text(sequence).as_str());
    push_text(&mut r, "\n");
    r
}

/// The bytes as characters, one for one.
pub open spec fn characters(bytes: Seq<u8>) -> Seq<char> {
    Seq::new(bytes.len(), |i: int| bytes[i] as char)
}

/// The first line of a text, without its end.
pub open spec fn first_line(text: Seq<char>) -> Seq<char> {
    let line = text.take(until(text, '\n', '\n'));
    if until(text, '\n', '\n') < text.len() && line.len() > 0 && line.last() == '\r' {
        line.drop_last()
    } else {
        line
    }
}

/// The number in the header of an archive of the log with this key.
pub open spec fn sequence_of(text: Seq<char>, key: Seq<char>) -> Option<nat> {
    let line = first_line(text);
    if begins_with(line, header_prefix(key)) {
        unsigned(line.skip(header_prefix(key).len() as int), u64::MAX as nat)
    } else {
        None
    }
}

/// Reads the number from the first bytes of an archive; none where the file is no archive of the
/// log with this key.
pub fn archive_sequence(bytes: &[u8], key: &str) -> (r: Option<u64>)
    ensures
        r == (match sequence_of(characters(bytes@), key@) {
            Some(number) => Some(number as u64),
            None => None,
        }),
{
    let mut text: Vec<char> = Vec::new();
    for i in 0..bytes.len()
        invariant
            text@ == characters(bytes@).take(i as int),
    {
        let c: char = bytes[i] as char;
        text.push(c);
        assert(text@ =~= characters(bytes@).take(i + 1));
    }
    assert(text@ =~= characters(bytes@));
    assert(text@.skip(0) =~= text@);
    let mut end: usize = find_either(text.as_slice(), 0, '\n', '\n');
    let ghost line = text@.take(end as int);
    if end < text.len() && end > 0 && text[end - 1] == '\r' {
        assert(line.drop_last() =~= text@.take(end - 1));
        end = end - 1;
    }
    let line = part(text.as_slice(), 0, end);
    assert(line@ =~= text@.take(end as int));
    assert(line@ == first_line(text@));
    let prefix = prefix_text(key);
    let prefix = chars_of(prefix.as_str());
    if !starts_with(line.as_slice(), prefix.as_slice()) {
        return None;
    }
    let number = part(line.as_slice(), prefix.len(), line.len());
    assert(number@ =~= line@.skip(prefix@.len() as int));
    parse_unsigned(number.as_slice(), 0xffff_ffff_ffff_ffff)
}

/// An archive on the disk: the number in its name and that in its header.
#[derive(Debug, Clone, Copy, PartialEq, Eq)]
pub struct Archive {
    pub index: u32,
    pub sequence: u64,
}

/// What to do with a file that has the name of an archive.
#[derive(Debug, Clone, Copy, PartialEq, Eq)]
pub enum ArchiveFate {
    /// It belongs to something else, and nothing is rotated.
    Foreign,
    /// It is over the number of archives to keep.
    Delete,
    Keep(Archive),
}

/// Decides on a file that has the name of an archive.
pub fn archive_fate(index: u32, retained: u32, bytes: &[u8], key: &str) -> (r: ArchiveFate)
    ensures
        r == (match sequence_of(characters(bytes@), key@) {
            None => ArchiveFate::Foreign,
            Some(number) => if index > retained {
                ArchiveFate::Delete
            } else {
                ArchiveFate::Keep(Archive { index, sequence: number as u64 })
            },
        }),
{
    match archive_sequence(bytes, key) {
        None => ArchiveFate::Foreign,
        Some(sequence) => if index > retained {
            ArchiveFate::Delete
        } else {
            ArchiveFate::Keep(Archive { index, sequence })
        },
    }
}

/// What a record needs before it is appended.
#[derive(Debug, Clone, Copy, PartialEq, Eq, Structural)]
pub enum RecordStep {
    /// It is longer than the log may be.
    TooLong,
    /// Nothing.
    Append,
    /// The archives are looked through.
    Inspect,
    /// The archives are looked through and the log is rotated.
    Rotate,
}

/// What a record of a length needs before it is appended to a log of another length.
pub open spec fn step_for(inspected: bool, length: int, record: int, max_bytes: int) -> RecordStep {
    if record > max_bytes {
        RecordStep::TooLong
    } else if length + record > max_bytes && max_bytes < u64::MAX {
        RecordStep::Rotate
    } else if inspected {
        RecordStep::Append
    } else {
        RecordStep::Inspect
    }
}

/// What a record needs before it is appended to a log of the given length.
pub fn record_step(inspected: bool, length: u64, record: usize, max_bytes: u64) -> (r: RecordStep)
    ensures
        r == (if record > max_bytes {
            RecordStep::TooLong
        } else if length + record > max_bytes && max_bytes < u64::MAX {
            RecordStep::Rotate
        } else if inspected {
            RecordStep::Append
        } else {
            RecordStep::Inspect
        }),
        r == step_for(inspected, length as int, record as int, max_bytes as int),
{
    if record as u128 > max_bytes as u128 {
        RecordStep::TooLong
    } else if length.saturating_add(record as u64) > max_bytes {
        RecordStep::Rotate
    } else if inspected {
        RecordStep::Append
    } else {
        RecordStep::Inspect
    }
}

/// The archive that a rotation writes.
#[derive(Debug, Clone, Copy, PartialEq, Eq)]
pub struct Rotation {
    /// The number in the name of the new archive.
    pub index: u32,
    /// The number in its header.
    pub sequence: u64,
    /// The place of the archive that is deleted first.
    pub replaced: Option<usize>,
    /// Number of bytes from the end of the log that are kept.
    pub tail: u64,
}

/// Whether an index is taken.
pub open spec fn taken(archives: Seq<Archive>, index: u32) -> bool {
    exists|i: int| 0 <= i < archives.len() && (#[trigger] archives[i]).index == index
}

/// Whether the number is the least one above those of the archives.
pub open spec fn next_sequence(archives: Seq<Archive>, sequence: int) -> bool {
    &&& sequence >= 1
    &&& forall|i: int| 0 <= i < archives.len() ==> (#[trigger] archives[i]).sequence < sequence
    &&& sequence == 1 || exists|i: int|
        0 <= i < archives.len() && (#[trigger] archives[i]).sequence == sequence - 1
}

/// Whether the archive at a place is the oldest, and the first of several.
pub open spec fn is_oldest(archives: Seq<Archive>, place: int) -> bool {
    &&& 0 <= place < archives.len()
    &&& forall|i: int|
        0 <= i < archives.len() ==> archives[place].sequence <= (#[trigger] archives[i]).sequence
    &&& forall|i: int|
        0 <= i < place ==> archives[place].sequence < (#[trigger] archives[i]).sequence
}

/// Whether a rotation is the one to do: it takes the first free name, or that of the oldest
/// archive.
pub open spec fn is_rotation(
    rotation: Rotation,
    archives: Seq<Archive>,
    retained: u32,
    length: u64,
    max_bytes: u64,
) -> bool {
    &&& next_sequence(archives, rotation.sequence as int)
    &&& match rotation.replaced {
        None => 1 <= rotation.index <= retained && !taken(archives, rotation.index) && forall|
            index: u32,
        |
            1 <= index < rotation.index ==> #[trigger] taken(archives, index),
        Some(place) => {
            &&& forall|index: u32| 1 <= index <= retained ==> #[trigger] taken(archives, index)
            &&& is_oldest(archives, place as int)
            &&& rotation.index == archives[place as int].index
        },
    }
    &&& rotation.tail == (if length < max_bytes - HEADER_LIMIT {
        length as int
    } else {
        max_bytes - HEADER_LIMIT
    })
}

fn is_taken(archives: &[Archive], index: u32) -> (r: bool)
    ensures
        r == taken(archives@, index),
{
    for i in 0..archives.len()
        invariant
            forall|k: int| 0 <= k < i ==> (#[trigger] archives@[k]).index != index,
    {
        if archives[i].index == index {
            return true;
        }
    }
    false
}

/// Plans a rotation over the archives that are kept. None is written where none is retained; the
/// numbers can be exhausted.
pub fn plan_rotation(
    archives: &[Archive],
    retained: u32,
    length: u64,
    max_bytes: u64,
) -> (r: Result<Option<Rotation>, ()>)
    requires
        max_bytes >= HEADER_LIMIT,
        retained < u32::MAX,
    ensures
        match r {
            Ok(None) => retained == 0,
            Ok(Some(rotation)) => retained > 0 && is_rotation(
                rotation,
                archives@,
                retained,
                length,
                max_bytes,
            ),
            Err(_) => retained > 0 && exists|i: int|
                0 <= i < archives@.len() && (#[trigger] archives@[i]).sequence == u64::MAX,
        },
{
    if retained == 0 {
        return Ok(None);
    }
    let mut newest: u64 = 0;
    let mut oldest: usize = 0;
    for i in 0..archives.len()
        invariant
            forall|k: int| 0 <= k < i ==> (#[trigger] archives@[k]).sequence <= newest,
            newest == 0 || exists|k: int|
                0 <= k < i && (#[trigger] archives@[k]).sequence == newest,
            i > 0 ==> oldest < i,
            i == 0 ==> oldest == 0,
            forall|k: int|
                0 <= k < i ==> archives@[oldest as int].sequence <= (
                #[trigger] archives@[k]).sequence,
            forall|k: int|
                0 <= k < oldest ==> archives@[oldest as int].sequence < (
                #[trigger] archives@[k]).sequence,
    {
        if archives[i].sequence > newest {
            newest = archives[i].sequence;
        }
        if archives[i].sequence < archives[oldest].sequence {
            oldest = i;
        }
    }
    if newest == 0xffff_ffff_ffff_ffff {
        return Err(());
    }
    let sequence: u64 = newest + 1;
    assert(next_sequence(archives@, sequence as int));
    let limit: u64 = max_bytes - HEADER_LIMIT;
    let tail: u64 = if length < limit {
        length
    } else {
        limit
    };
    let mut index: u32 = 1;
    while index <= retained
        invariant
            1 <= index <= retained + 1,
            retained < u32::MAX,
            forall|k: u32| 1 <= k < index ==> #[trigger] taken(archives@, k),
            next_sequence(archives@, sequence as int),
            max_bytes >= HEADER_LIMIT,
            retained > 0,
            tail == (if length < max_bytes - HEADER_LIMIT {
                length as int
            } else {
                max_bytes - HEADER_LIMIT
            }),
        decreases retained + 1 - index,
    {
        if !is_taken(archives, index) {
            return Ok(Some(Rotation { index, sequence, replaced: None, tail }));
        }
        index = index + 1;
    }
    assert(taken(archives@, 1));
    assert(is_oldest(archives@, oldest as int));
    Ok(
        Some(
            Rotation {
                index: archives[oldest].index,
                sequence,
                replaced: Some(oldest),
                tail,
            },
        ),
    )
}

proof fn no_line_end_before(s: Seq<char>, n: int)
    requires
        0 <= n < s.len(),
        s[n] == '\n',
        forall|i: int| 0 <= i < n ==> #[trigger] s[i] != '\n',
    ensures
        until(s, '\n', '\n') == n,
    decreases n,
{
    reveal_with_fuel(until, 2);
    if n > 0 {
        assert(s[0] != '\n');
        let rest = s.skip(1);
        assert(rest =~= s.drop_first());
        assert forall|i: int| 0 <= i < n - 1 implies #[trigger] rest[i] != '\n' by {
            assert(rest[i] == s[i + 1]);
        }
        no_line_end_before(rest, n - 1);
    }
}

/// The header of an archive gives its number back, whatever follows the header.
pub proof fn header_round_trip(identity: FileIdentity, sequence: u64, rest: Seq<char>)
    ensures
        sequence_of(header(identity.key(), sequence as nat) + rest, identity.key()) == Some(
            sequence as nat,
        ),
{
    let key = identity.key();
    let number = decimal(sequence as nat);
    let prefix = header_prefix(key);
    let all = header(key, sequence as nat) + rest;
    reveal_strlit("# window-switcher archive v1 ");
    reveal_strlit(" ");
    reveal_strlit("\n");
    crate::config::file_identity::key_characters(identity);
    crate::text::decimal_round_trip(sequence as nat, u64::MAX as nat);
    let line = prefix + number;
    digits_only(sequence as nat);
    assert(all.take(line.len() as int) =~= line);
    assert(all[line.len() as int] == '\n');
    let first = "# window-switcher archive v1 "@;
    assert forall|i: int| 0 <= i < line.len() implies #[trigger] all[i] != '\n' by {
        assert(all[i] == line[i]);
        if i < first.len() {
            assert(line[i] == first[i]);
        } else if i < first.len() + key.len() {
            assert(line[i] == key[i - first.len()]);
            assert(key_char(key[i - first.len()]));
        } else if i < prefix.len() {
            assert(line[i] == ' ');
        } else {
            assert(line[i] == number[i - prefix.len()]);
            assert(is_digit(number[i - prefix.len()]));
        }
    }
    no_line_end_before(all, line.len() as int);
    assert(line.last() == number.last());
    assert(is_digit(number[number.len() - 1]));
    assert(first_line(all) == line);
    assert(line.subrange(0, prefix.len() as int) =~= prefix);
    assert(line.skip(prefix.len() as int) =~= number);
}

proof fn digits_only(n: nat)
    ensures
        decimal(n).len() > 0,
        forall|i: int| 0 <= i < decimal(n).len() ==> is_digit(#[trigger] decimal(n)[i]),
    decreases n,
{
    if n >= 10 {
        digits_only(n / 10);
        let front = decimal(n / 10);
        assert forall|i: int| 0 <= i < decimal(n).len() implies is_digit(
            #[trigger] decimal(n)[i],
        ) by {
            if i < front.len() {
                assert(decimal(n)[i] == front[i]);
            }
        }
    }
}

proof fn decimal_len(n: nat, digits: nat, limit: nat)
    requires
        digits > 0,
        n < limit,
        limit == vstd::arithmetic::power::pow(10, digits),
    ensures
        decimal(n).len() <= digits,
    decreases digits,
{
    vstd::arithmetic::power::lemma_pow0(10);
    if n >= 10 {
        if digits == 1 {
            vstd::arithmetic::power::lemma_pow1(10);
        } else {
            let smaller = vstd::arithmetic::power::pow(10, (digits - 1) as nat);
            assert(limit == 10 * smaller) by {
                reveal(vstd::arithmetic::power::pow);
            }
            assert(n / 10 < smaller);
            decimal_len(n / 10, (digits - 1) as nat, smaller as nat);
        }
    }
}

/// An archive is never longer than the log may be: its header fits into the part that a rotation
/// leaves free.
pub proof fn archives_are_bounded(
    identity: FileIdentity,
    rotation: Rotation,
    archives: Seq<Archive>,
    retained: u32,
    length: u64,
    max_bytes: u64,
)
    requires
        max_bytes >= HEADER_LIMIT,
        is_rotation(rotation, archives, retained, length, max_bytes),
    ensures
        header(identity.key(), rotation.sequence as nat).len() + rotation.tail <= max_bytes,
{
    reveal_strlit("# window-switcher archive v1 ");
    reveal_strlit(" ");
    reveal_strlit("\n");
    crate::config::file_identity::key_length(identity);
    assert(vstd::arithmetic::power::pow(10, 20) == 100000000000000000000) by {
        reveal(vstd::arithmetic::power::pow);
        reveal_with_fuel(vstd::arithmetic::power::pow, 21);
    }
    decimal_len(rotation.sequence as nat, 20, 100000000000000000000);
}

/// A rotation deletes an archive only where every name is taken, and then the oldest.
pub proof fn rotation_deletes_the_oldest(
    rotation: Rotation,
    archives: Seq<Archive>,
    retained: u32,
    length: u64,
    max_bytes: u64,
    place: int,
)
    requires
        max_bytes >= HEADER_LIMIT,
        is_rotation(rotation, archives, retained, length, max_bytes),
        rotation.replaced is Some,
        0 <= place < archives.len(),
    ensures
        archives[rotation.replaced->0 as int].sequence <= archives[place].sequence,
        forall|index: u32| 1 <= index <= retained ==> #[trigger] taken(archives, index),
{
}

/// The new archive is newer than every other.
pub proof fn new_archive_is_the_newest(
    rotation: Rotation,
    archives: Seq<Archive>,
    retained: u32,
    length: u64,
    max_bytes: u64,
    place: int,
)
    requires
        max_bytes >= HEADER_LIMIT,
        is_rotation(rotation, archives, retained, length, max_bytes),
        0 <= place < archives.len(),
    ensures
        archives[place].sequence < rotation.sequence,
{
}

/// A rotation writes the archive with the lowest free number from one on, and that of the oldest one
/// where all numbers up to the limit are taken. Its own number is one above all others, from one
/// on, and it keeps the end of the log: all of it, or as much as leaves 256 bytes for the header.
pub proof fn rotation_takes_the_first_free_name(
    rotation: Rotation,
    archives: Seq<Archive>,
    retained: u32,
    length: u64,
    max_bytes: u64,
    index: u32,
    place: int,
)
    requires
        max_bytes >= 256,
        is_rotation(rotation, archives, retained, length, max_bytes),
        1 <= index <= retained,
        0 <= place < archives.len(),
    ensures
        !taken(archives, index) ==> rotation.replaced is None && 1 <= rotation.index <= index,
        rotation.replaced is None ==> archives[place].index != rotation.index,
        rotation.replaced matches Some(at) ==> {
            &&& at < archives.len()
            &&& rotation.index == archives[at as int].index
            &&& archives[at as int].sequence <= archives[place].sequence
            &&& place < at ==> archives[at as int].sequence < archives[place].sequence
        },
        archives[place].sequence < rotation.sequence,
        exists|i: int|
            0 <= i < archives.len() && (#[trigger] archives[i]).sequence + 1 == rotation.sequence,
        rotation.tail <= length,
        rotation.tail <= max_bytes - 256,
        rotation.tail == length || rotation.tail == max_bytes - 256,
{
    assert(taken(archives, archives[place].index));
    if rotation.sequence == 1 {
        assert(archives[place].sequence < 1);
        assert(archives[place].sequence + 1 == rotation.sequence);
    }
}

/// The first archive of a log has the number one, in its name and in its header.
pub proof fn first_archive(rotation: Rotation, retained: u32, length: u64, max_bytes: u64)
    requires
        max_bytes >= 256,
        retained > 0,
        is_rotation(rotation, Seq::<Archive>::empty(), retained, length, max_bytes),
    ensures
        rotation.index == 1,
        rotation.sequence == 1,
        rotation.replaced is None,
{
    assert(!taken(Seq::<Archive>::empty(), 1));
}

/// An archive begins with a line that says what it is, of which log and which number. Only the
/// archives of the same log are recognized.
pub proof fn archives_belong_to_their_log(
    a: FileIdentity,
    b: FileIdentity,
    sequence: u64,
    rest: Seq<char>,
)
    ensures
        header_prefix(a.key()) == seq!['#', ' ', 'w', 'i', 'n', 'd', 'o', 'w', '-', 's', 'w', 'i', 't', 'c', 'h', 'e', 'r', ' ', 'a', 'r', 'c', 'h', 'i', 'v', 'e', ' ', 'v', '1', ' '] + a.key() + seq![' '],
        header(a.key(), sequence as nat) == header_prefix(a.key()) + decimal(sequence as nat) + seq!['\n'],
        sequence_of(header(a.key(), sequence as nat) + rest, b.key()) is Some <==> a.same(b),
        MAX_ARCHIVES == 20,
        HEADER_LIMIT == 256,
{
    reveal_strlit("# window-switcher archive v1 ");
    reveal_strlit(" ");
    reveal_strlit("\n");
    assert("# window-switcher archive v1 "@ =~= seq!['#', ' ', 'w', 'i', 'n', 'd', 'o', 'w', '-', 's', 'w', 'i', 't', 'c', 'h', 'e', 'r', ' ', 'a', 'r', 'c', 'h', 'i', 'v', 'e', ' ', 'v', '1', ' ']);
    assert(" "@ =~= seq![' ']);
    assert("\n"@ =~= seq!['\n']);
    crate::config::file_identity::keys_tell_files_apart(a, b);
    header_round_trip(a, sequence, rest);
    if !a.same(b) {
        crate::config::file_identity::key_length(a);
        crate::config::file_identity::key_length(b);
        let all = header(a.key(), sequence as nat) + rest;
        let line = first_line(all);
        let mine = header_prefix(a.key());
        let other = header_prefix(b.key());
        assert(begins_with(line, mine));
        assert(mine.len() == other.len());
        if begins_with(line, other) {
            assert(line.subrange(0, mine.len() as int) == mine);
            assert(line.subrange(0, mine.len() as int) == other);
            let n = "# window-switcher archive v1 "@.len() as int;
            assert(mine.subrange(n, n + a.key().len()) =~= a.key());
            assert(other.subrange(n, n + a.key().len()) =~= b.key());
        }
    }
}

/// A record is appended only where the log with it stays within its limit. One that fits into an
/// empty log never is too long; the log is rotated before it where it does not fit any more.
pub proof fn logs_stay_within_their_limit(inspected: bool, length: int, record: int, max_bytes: int)
    requires
        0 <= length,
        0 <= record,
        0 <= max_bytes < u64::MAX,
    ensures
        ({
            let step = step_for(inspected, length, record, max_bytes);
            &&& step == RecordStep::Append || step == RecordStep::Inspect <==> length + record
                <= max_bytes
            &&& step == RecordStep::TooLong <==> record > max_bytes
            &&& step == RecordStep::Rotate <==> record <= max_bytes < length + record
            &&& step == RecordStep::Append ==> inspected
            &&& step == RecordStep::Inspect ==> !inspected
            &&& step_for(inspected, 0, record, max_bytes) != RecordStep::Rotate
        }),
{
}

/// The first line of an archive ends before its newline, and before the carriage return in front of
/// it. A text without a newline is one line as it stands.
pub proof fn first_lines(line: Seq<char>, rest: Seq<char>)
    requires
        !has_char(line, '\n'),
    ensures
        line.len() == 0 || line.last() != '\r' ==> first_line(line + seq!['\n'] + rest) == line,
        first_line(line + seq!['\r', '\n'] + rest) == line,
        first_line(line) == line,
{
    until_range(line, '\n', '\n');
    assert(until(line, '\n', '\n') == line.len());
    assert(line.take(line.len() as int) =~= line);
    let one = line + seq!['\n'] + rest;
    line_before_its_end(line, rest);
    assert(one.take(line.len() as int) =~= line);
    let longer = line.push('\r');
    let two = line + seq!['\r', '\n'] + rest;
    assert(two =~= longer + seq!['\n'] + rest);
    assert forall|i: int| 0 <= i < longer.len() implies #[trigger] longer[i] != '\n' by {
        if i < line.len() {
            assert(longer[i] == line[i]);
        }
    }
    line_before_its_end(longer, rest);
    assert(two.take(longer.len() as int) =~= longer);
    assert(longer.drop_last() =~= line);
}

proof fn line_before_its_end(line: Seq<char>, rest: Seq<char>)
    requires
        !has_char(line, '\n'),
    ensures
        until(line + seq!['\n'] + rest, '\n', '\n') == line.len(),
{
    let all = line + seq!['\n'] + rest;
    until_range(all, '\n', '\n');
    let at = until(all, '\n', '\n');
    assert(all[line.len() as int] == '\n');
    if at < line.len() {
        assert(all[at] == line[at]);
    }
}

/// A first line names the number of an archive where it is the beginning of the header and a number
/// behind it; with any other beginning, or something else behind it, it names none.
pub proof fn numbers_of_archives(text: Seq<char>, key: Seq<char>, behind: Seq<char>)
    ensures
        first_line(text) == header_prefix(key) + behind ==> sequence_of(text, key) == unsigned(
            behind,
            18446744073709551615,
        ),
        sequence_of(text, key) is Some ==> header_prefix(key).is_prefix_of(first_line(text)),
{
    let line = first_line(text);
    let prefix = header_prefix(key);
    if line == prefix + behind {
        assert(line.subrange(0, prefix.len() as int) =~= prefix);
        assert(line.skip(prefix.len() as int) =~= behind);
    }
    if begins_with(line, prefix) {
        assert(line.subrange(0, prefix.len() as int) == prefix);
    }
}

}
