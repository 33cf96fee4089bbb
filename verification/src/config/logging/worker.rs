//! The lines of the log and the thread that writes them.

use vstd::prelude::*;

use crate::text::{chars_of, decimal, decimal_text, part, push_text, string_of};

verus! {

/// Largest length of a line in bytes before its end is cut.
pub const LINE_LIMIT: usize = 16384;

/// Number of lines that wait for the writer.
pub const QUEUE_LENGTH: usize = 256;

/// How long a record is tried again while another process rotates, in milliseconds.
pub const RETRY_MS: u64 = 250;

/// Number of bytes of a character in UTF-8.
pub open spec fn utf8_bytes(c: char) -> nat {
    if (c as u32) < 0x80 {
        1
    } else if (c as u32) < 0x800 {
        2
    } else if (c as u32) < 0x10000 {
        3
    } else {
        4
    }
}

/// Number of bytes of a text in UTF-8.
pub open spec fn utf8_len(text: Seq<char>) -> nat
    decreases text.len(),
{
    if text.len() == 0 {
        0
    } else {
        utf8_len(text.drop_last()) + utf8_bytes(text.last())
    }
}

/// The number of characters at the beginning of a text that fit into a number of bytes.
pub open spec fn fitting(text: Seq<char>, limit: nat) -> nat
    decreases text.len(),
{
    if utf8_len(text) <= limit {
        text.len()
    } else {
        fitting(text.drop_last(), limit)
    }
}

/// A line that is cut where it is too long.
pub open spec fn limited(line: Seq<char>) -> Seq<char> {
    if utf8_len(line) > LINE_LIMIT {
        line.take(fitting(line, LINE_LIMIT as nat) as int) + " [record limited]"@
    } else {
        line
    }
}

/// The line of a record.
pub open spec fn record_line(time: nat, level: Seq<char>, message: Seq<char>) -> Seq<char> {
    limited("ts="@ + decimal(time) + " level="@ + level + " "@ + message) + "\n"@
}

fn byte_count(c: char) -> (r: usize)
    ensures
        r == utf8_bytes(c),
{
    let n: u32 = c as u32;
    if n < 0x80 {
        1
    } else if n < 0x800 {
        2
    } else if n < 0x10000 {
        3
    } else {
        4
    }
}

proof fn utf8_len_grows(text: Seq<char>, n: int)
    requires
        0 <= n <= text.len(),
    ensures
        utf8_len(text.take(n)) <= utf8_len(text),
    decreases text.len(),
{
    if n < text.len() {
        utf8_len_grows(text.drop_last(), n);
        assert(text.drop_last().take(n) =~= text.take(n));
    } else {
        assert(text.take(n) =~= text);
    }
}

proof fn fitting_is(text: Seq<char>, n: int, limit: nat)
    requires
        0 <= n < text.len(),
        utf8_len(text.take(n)) <= limit,
        utf8_len(text.take(n + 1)) > limit,
    ensures
        fitting(text, limit) == n,
        utf8_len(text) > limit,
    decreases text.len(),
{
    reveal_with_fuel(fitting, 2);
    utf8_len_grows(text, n + 1);
    if n + 1 == text.len() {
        assert(text.drop_last() =~= text.take(n));
    } else {
        assert(text.drop_last().take(n) =~= text.take(n));
        assert(text.drop_last().take(n + 1) =~= text.take(n + 1));
        fitting_is(text.drop_last(), n, limit);
    }
}

/// Cuts a line that is too long at the end of a character.
pub fn limit_line(line: &str) -> (r: String)
    ensures
        r@ == limited(line@),
{
    let chars = chars_of(line);
    let mut bytes: usize = 0;
    let mut i: usize = 0;
    assert(chars@.take(0) =~= Seq::<char>::empty());
    while i < chars.len()
        invariant
            i <= chars@.len(),
            chars@ == line@,
            bytes == utf8_len(chars@.take(i as int)),
            bytes <= LINE_LIMIT,
        decreases chars@.len() - i,
    {
        assert(chars@.take(i + 1).drop_last() =~= chars@.take(i as int));
        bytes = bytes + byte_count(chars[i]);
        if bytes > LINE_LIMIT {
            proof {
                fitting_is(chars@, i as int, LINE_LIMIT as nat);
            }
            let kept = part(chars.as_slice(), 0, i);
            assert(kept@ =~= chars@.take(i as int));
            let mut r = string_of(kept.as_slice());
            push_text(&mut r, " [record limited]");
            return r;
        }
        i = i + 1;
    }
    assert(chars@.take(chars@.len() as int) =~= chars@);
    line.to_owned()
}

/// The line of a record: its time in milliseconds, its level and its text.
pub fn log_line(time: u64, level: &str, message: &str) -> (r: String)
    ensures
        r@ == record_line(time as nat, level@, message@),
{
    let mut line = "ts=".to_owned();
    push_text(&mut line, decimal_text(time).as_str());
    push_text(&mut line, " level=");
    push_text(&mut line, level);
    push_text(&mut line, " ");
    push_text(&mut line, message);
    let mut line = limit_line(line.as_str());
    push_text(&mut line, "\n");
    line
}

/// Whether a record is taken; nothing is taken while the log stops.
pub fn takes_record(level: u8, limit: u8, stopping: bool) -> (r: bool)
    ensures
        r == (level <= limit && !stopping),
{
    level <= limit && !stopping
}

/// What to do after a record was not written.
#[derive(Debug, Clone, Copy, PartialEq, Eq, Structural)]
pub enum WriteStep {
    Retry,
    GiveUp,
}

/// Whether a record that was not written is tried again: only while the log is held by another
/// process, and not after the deadline.
pub fn after_failure(would_block: bool, now: u64, deadline: u64) -> (r: WriteStep)
    ensures
        r == (if would_block && now < deadline {
            WriteStep::Retry
        } else {
            WriteStep::GiveUp
        }),
{
    if would_block && now < deadline {
        WriteStep::Retry
    } else {
        WriteStep::GiveUp
    }
}

proof fn utf8_len_splits(a: Seq<char>, b: Seq<char>)
    ensures
        utf8_len(a + b) == utf8_len(a) + utf8_len(b),
    decreases b.len(),
{
    if b.len() == 0 {
        assert(a + b =~= a);
    } else {
        utf8_len_splits(a, b.drop_last());
        assert((a + b).drop_last() =~= a + b.drop_last());
        assert((a + b).last() == b.last());
    }
}

proof fn fitting_fits(text: Seq<char>, limit: nat)
    ensures
        fitting(text, limit) <= text.len(),
        utf8_len(text.take(fitting(text, limit) as int)) <= limit,
    decreases text.len(),
{
    if utf8_len(text) <= limit {
        assert(text.take(text.len() as int) =~= text);
    } else if text.len() > 0 {
        fitting_fits(text.drop_last(), limit);
        assert(text.drop_last().take(fitting(text, limit) as int) =~= text.take(
            fitting(text, limit) as int,
        ));
    }
}

/// A line of the log has at most 16402 bytes, whatever the record.
pub proof fn lines_are_bounded(time: nat, level: Seq<char>, message: Seq<char>)
    ensures
        utf8_len(record_line(time, level, message)) <= LINE_LIMIT + 18,
{
    let line = "ts="@ + decimal(time) + " level="@ + level + " "@ + message;
    reveal_strlit("\n");
    reveal_strlit(" [record limited]");
    let mark = " [record limited]"@;
    utf8_len_splits(limited(line), "\n"@);
    ascii_len("\n"@);
    if utf8_len(line) > LINE_LIMIT {
        fitting_fits(line, LINE_LIMIT as nat);
        ascii_len(mark);
        utf8_len_splits(line.take(fitting(line, LINE_LIMIT as nat) as int), mark);
    }
}

proof fn ascii_len(text: Seq<char>)
    requires
        forall|i: int| 0 <= i < text.len() ==> (#[trigger] text[i] as u32) < 0x80,
    ensures
        utf8_len(text) == text.len(),
    decreases text.len(),
{
    if text.len() > 0 {
        ascii_len(text.drop_last());
    }
}

/// A character takes one to four bytes in UTF-8, by its number; a text takes those of its
/// characters together.
pub proof fn bytes_of_a_text(a: Seq<char>, b: Seq<char>, c: char)
    ensures
        utf8_len(a + b) == utf8_len(a) + utf8_len(b),
        utf8_len(Seq::<char>::empty()) == 0,
        c as u32 <= 0x7f ==> utf8_len(seq![c]) == 1,
        0x80 <= c as u32 <= 0x7ff ==> utf8_len(seq![c]) == 2,
        0x800 <= c as u32 <= 0xffff ==> utf8_len(seq![c]) == 3,
        0x10000 <= c as u32 ==> utf8_len(seq![c]) == 4,
{
    reveal_with_fuel(utf8_len, 2);
    utf8_len_splits(a, b);
    assert(seq![c].drop_last() =~= Seq::<char>::empty());
    assert(seq![c].last() == c);
}

/// A line of up to 16384 bytes is kept as it is. A longer one is cut at the last character that
/// ends within them, and says so.
pub proof fn long_lines_are_cut(line: Seq<char>) -> (kept: int)
    ensures
        utf8_len(line) <= 16384 ==> limited(line) == line,
        utf8_len(line) > 16384 ==> {
            &&& 0 <= kept < line.len()
            &&& utf8_len(line.take(kept)) <= 16384
            &&& utf8_len(line.take(kept + 1)) > 16384
            &&& limited(line) == line.take(kept) + seq![' ', '[', 'r', 'e', 'c', 'o', 'r', 'd', ' ', 'l', 'i', 'm', 'i', 't', 'e', 'd', ']']
        },
{
    reveal_strlit(" [record limited]");
    assert(" [record limited]"@ =~= seq![' ', '[', 'r', 'e', 'c', 'o', 'r', 'd', ' ', 'l', 'i', 'm', 'i', 't', 'e', 'd', ']']);
    let kept = fitting(line, LINE_LIMIT as nat) as int;
    if utf8_len(line) > 16384 {
        fitting_fits(line, LINE_LIMIT as nat);
        no_more_fits(line, LINE_LIMIT as nat);
    }
    kept
}

proof fn no_more_fits(text: Seq<char>, limit: nat)
    requires
        utf8_len(text) > limit,
    ensures
        fitting(text, limit) < text.len(),
        utf8_len(text.take(fitting(text, limit) as int + 1)) > limit,
    decreases text.len(),
{
    let shorter = text.drop_last();
    fitting_fits(shorter, limit);
    if utf8_len(shorter) <= limit {
        assert(fitting(shorter, limit) == shorter.len());
        assert(text.take(text.len() as int) =~= text);
    } else {
        no_more_fits(shorter, limit);
        let n = fitting(shorter, limit) as int + 1;
        assert(shorter.take(n) =~= text.take(n));
    }
}

/// A record is one line: its time, its level and its text, in this order.
pub proof fn records_are_lines(time: nat, level: Seq<char>, message: Seq<char>)
    ensures
        ({
            let line = seq!['t', 's', '='] + decimal(time) + seq![' ', 'l', 'e', 'v', 'e', 'l', '='] + level + seq![' '] + message;
            &&& record_line(time, level, message) == limited(line) + seq!['\n']
            &&& utf8_len(line) <= 16384 ==> record_line(time, level, message) == line + seq!['\n']
        }),
{
    reveal_strlit("ts=");
    reveal_strlit(" level=");
    reveal_strlit(" ");
    reveal_strlit("\n");
    assert("ts="@ =~= seq!['t', 's', '=']);
    assert(" level="@ =~= seq![' ', 'l', 'e', 'v', 'e', 'l', '=']);
    assert(" "@ =~= seq![' ']);
    assert("\n"@ =~= seq!['\n']);
}

/// 256 lines wait for the writer at most, and a record is tried for a quarter of a second.
pub proof fn limits_of_the_writer()
    ensures
        QUEUE_LENGTH == 256,
        RETRY_MS == 250,
{
}

}
