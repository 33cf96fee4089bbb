//! The identity of files and the rules on their names.

use vstd::prelude::*;

use crate::text::{chars_of, has_char};

verus! {

/// The attribute of a reparse point.
pub const REPARSE_POINT: u32 = 0x400;

/// The stable identity of a file on a volume.
#[derive(Debug, Clone, Copy, PartialEq, Eq)]
pub struct FileIdentity {
    pub volume: u64,
    pub id: [u8; 16],
}

/// The hexadecimal digit, in lower case, of a value below sixteen.
pub open spec fn hex_char(n: nat) -> char {
    if n < 10 {
        ((n + '0' as u32) as u32) as char
    } else {
        ((n - 10 + 'a' as u32) as u32) as char
    }
}

/// The last digits of a number in hexadecimal, padded with zeros.
pub open spec fn hex(n: nat, digits: nat) -> Seq<char>
    decreases digits,
{
    if digits == 0 {
        seq![]
    } else {
        hex(n / 16, (digits - 1) as nat).push(hex_char(n % 16))
    }
}

/// Two hexadecimal digits for each byte.
pub open spec fn hex_bytes(bytes: Seq<u8>) -> Seq<char>
    decreases bytes.len(),
{
    if bytes.len() == 0 {
        seq![]
    } else {
        hex_bytes(bytes.drop_last()) + hex(bytes.last() as nat, 2)
    }
}

fn push_hex(r: &mut Vec<char>, n: u64, digits: usize)
    ensures
        final(r)@ == old(r)@ + hex(n as nat, digits as nat),
    decreases digits,
{
    if digits > 0 {
        push_hex(r, n / 16, digits - 1);
        let last: u8 = (n % 16) as u8;
        let c: char = if last < 10 {
            (48 + last) as char
        } else {
            (87 + last) as char
        };
        assert(c == hex_char((n % 16) as nat));
        r.push(c);
    }
    assert(r@ =~= old(r)@ + hex(n as nat, digits as nat));
}

/// Whether every byte is zero.
pub open spec fn all_zero(bytes: Seq<u8>) -> bool {
    forall|i: int| 0 <= i < bytes.len() ==> #[trigger] bytes[i] == 0
}

impl FileIdentity {
    /// The identity that a file system reports; one that is all zeros is none.
    pub fn of(volume: u64, id: [u8; 16]) -> (r: Option<FileIdentity>)
        ensures
            r == (if all_zero(id@) {
                None
            } else {
                Some(FileIdentity { volume, id })
            }),
    {
        for i in 0..16
            invariant
                id@.len() == 16,
                forall|k: int| 0 <= k < i ==> #[trigger] id@[k] == 0,
        {
            if id[i] != 0 {
                return Some(FileIdentity { volume, id });
            }
        }
        None
    }

    /// Whether two identities are of one file.
    pub open spec fn same(self, other: FileIdentity) -> bool {
        self.volume == other.volume && self.id@ == other.id@
    }

    /// Whether two identities are of one file.
    pub fn is_same(&self, other: &FileIdentity) -> (r: bool)
        ensures
            r == self.same(*other),
    {
        if self.volume != other.volume {
            return false;
        }
        for i in 0..16
            invariant
                self.id@.len() == 16,
                other.id@.len() == 16,
                forall|k: int| 0 <= k < i ==> #[trigger] self.id@[k] == other.id@[k],
        {
            if self.id[i] != other.id[i] {
                return false;
            }
        }
        assert(self.id@ =~= other.id@);
        true
    }

    /// The key of the identity in the names and headers of archives.
    pub open spec fn key(self) -> Seq<char> {
        hex(self.volume as nat, 16) + seq!['-'] + hex_bytes(self.id@)
    }

    /// The key of the identity in the names and headers of archives.
    pub fn archive_key(&self) -> (r: String)
        ensures
            r@ == self.key(),
    {
        let mut r: Vec<char> = Vec::new();
        push_hex(&mut r, self.volume, 16);
        r.push('-');
        let ghost start = hex(self.volume as nat, 16) + seq!['-'];
        assert(r@ =~= start);
        assert(hex_bytes(self.id@.take(0)) =~= seq![]);
        for i in 0..16
            invariant
                self.id@.len() == 16,
                r@ == start + hex_bytes(self.id@.take(i as int)),
        {
            assert(self.id@.take(i + 1).drop_last() =~= self.id@.take(i as int));
            push_hex(&mut r, self.id[i] as u64, 2);
            assert(r@ =~= start + hex_bytes(self.id@.take(i + 1)));
        }
        assert(self.id@.take(16) =~= self.id@);
        crate::text::string_of(r.as_slice())
    }
}

/// Whether the facts of an open file are those of a regular file: no directory, no reparse point
/// and no device.
pub fn require_regular(is_file: bool, attributes: u32, on_disk: bool) -> (r: bool)
    ensures
        r == (is_file && attributes & REPARSE_POINT == 0 && on_disk),
{
    is_file && attributes & REPARSE_POINT == 0 && on_disk
}

/// Whether the facts of an open directory are those of a plain directory.
pub fn require_directory(is_directory: bool, attributes: u32) -> (r: bool)
    ensures
        r == (is_directory && attributes & REPARSE_POINT == 0),
{
    is_directory && attributes & REPARSE_POINT == 0
}

/// Whether a file name names neither an alternate stream nor holds NUL.
pub fn plain_name(name: &str) -> (r: bool)
    ensures
        r == (!has_char(name@, ':') && !has_char(name@, '\0')),
{
    let chars = chars_of(name);
    !crate::text::contains_char(chars.as_slice(), ':') && !crate::text::contains_char(
        chars.as_slice(),
        '\0',
    )
}

/// A component of the path of a directory.
#[derive(Debug, Clone, Copy, PartialEq, Eq, Structural)]
pub enum PathPart {
    Prefix,
    Parent,
    Other,
}

/// What to do with a component of a path that is pinned.
#[derive(Debug, Clone, Copy, PartialEq, Eq, Structural)]
pub enum PinStep {
    /// Nothing: it is no directory by itself.
    Skip,
    /// The path is refused.
    Refuse,
    /// The directory up to this component is opened and held.
    Hold,
}

/// The step for a component of a path that is pinned.
pub fn pin_step(part: PathPart) -> (r: PinStep)
    ensures
        r == (match part {
            PathPart::Prefix => PinStep::Skip,
            PathPart::Parent => PinStep::Refuse,
            PathPart::Other => PinStep::Hold,
        }),
{
    match part {
        PathPart::Prefix => PinStep::Skip,
        PathPart::Parent => PinStep::Refuse,
        PathPart::Other => PinStep::Hold,
    }
}

/// The sizes in bytes of a rename request.
#[derive(Debug, Clone, Copy, PartialEq, Eq)]
pub struct RenameRequest {
    /// The name without its terminator.
    pub name: u32,
    /// The whole request.
    pub total: u32,
}

/// The size of a rename request: the fixed part up to the name, the name and its terminator, but
/// no less than the smallest request.
pub open spec fn request_size(units: int, offset: int, smallest: int) -> int {
    if offset + units * 2 + 2 > smallest {
        offset + units * 2 + 2
    } else {
        smallest
    }
}

/// The sizes of a rename request for a path of `units` UTF-16 units; none where the path is too
/// long.
pub fn rename_request(units: usize, offset: usize, smallest: usize) -> (r: Option<RenameRequest>)
    ensures
        match r {
            Some(request) => request.name == units * 2 && request.total == request_size(
                units as int,
                offset as int,
                smallest as int,
            ),
            None => request_size(units as int, offset as int, smallest as int) > u32::MAX,
        },
{
    let name: u128 = units as u128 * 2;
    let total: u128 = offset as u128 + name + 2;
    let total: u128 = if total > smallest as u128 {
        total
    } else {
        smallest as u128
    };
    if total > 0xffff_ffff {
        return None;
    }
    Some(RenameRequest { name: name as u32, total: total as u32 })
}

/// A rename request has room for the name and its terminator behind the fixed part.
pub proof fn request_holds_the_name(units: int, offset: int, smallest: int)
    requires
        0 <= units,
        0 <= offset,
    ensures
        offset + units * 2 < request_size(units, offset, smallest),
{
}

proof fn hex_len(n: nat, digits: nat)
    ensures
        hex(n, digits).len() == digits,
    decreases digits,
{
    if digits > 0 {
        hex_len(n / 16, (digits - 1) as nat);
    }
}

proof fn hex_bytes_len(bytes: Seq<u8>)
    ensures
        hex_bytes(bytes).len() == 2 * bytes.len(),
    decreases bytes.len(),
{
    if bytes.len() > 0 {
        hex_bytes_len(bytes.drop_last());
        hex_len(bytes.last() as nat, 2);
    }
}

/// The key of an identity has 49 characters.
pub proof fn key_length(identity: FileIdentity)
    ensures
        identity.key().len() == 49,
{
    hex_len(identity.volume as nat, 16);
    hex_bytes_len(identity.id@);
}

/// Whether a character is a hexadecimal digit in lower case or the hyphen.
pub open spec fn key_char(c: char) -> bool {
    '0' <= c <= '9' || 'a' <= c <= 'f' || c == '-'
}

proof fn hex_chars(n: nat, digits: nat)
    ensures
        forall|i: int| 0 <= i < hex(n, digits).len() ==> key_char(#[trigger] hex(n, digits)[i]),
    decreases digits,
{
    if digits > 0 {
        let front = hex(n / 16, (digits - 1) as nat);
        hex_chars(n / 16, (digits - 1) as nat);
        assert(key_char(hex_char(n % 16)));
        assert forall|i: int| 0 <= i < hex(n, digits).len() implies key_char(
            #[trigger] hex(n, digits)[i],
        ) by {
            if i < front.len() {
                assert(hex(n, digits)[i] == front[i]);
            }
        }
    }
}

proof fn hex_bytes_chars(bytes: Seq<u8>)
    ensures
        forall|i: int| 0 <= i < hex_bytes(bytes).len() ==> key_char(#[trigger] hex_bytes(bytes)[i]),
    decreases bytes.len(),
{
    if bytes.len() > 0 {
        let front = hex_bytes(bytes.drop_last());
        let back = hex(bytes.last() as nat, 2);
        hex_bytes_chars(bytes.drop_last());
        hex_chars(bytes.last() as nat, 2);
        assert forall|i: int| 0 <= i < hex_bytes(bytes).len() implies key_char(
            #[trigger] hex_bytes(bytes)[i],
        ) by {
            if i < front.len() {
                assert(hex_bytes(bytes)[i] == front[i]);
            } else {
                assert(hex_bytes(bytes)[i] == back[i - front.len()]);
            }
        }
    }
}

/// The key of an identity holds only hexadecimal digits in lower case and a hyphen.
pub proof fn key_characters(identity: FileIdentity)
    ensures
        forall|i: int|
            0 <= i < identity.key().len() ==> key_char(#[trigger] identity.key()[i]),
{
    hex_chars(identity.volume as nat, 16);
    hex_bytes_chars(identity.id@);
}

/// The value of a hexadecimal digit.
pub open spec fn hex_value(c: char) -> int {
    if '0' <= c <= '9' {
        c as u32 - '0' as u32
    } else {
        c as u32 - 'a' as u32 + 10
    }
}

/// The number that hexadecimal digits denote.
pub open spec fn hex_number(s: Seq<char>) -> int
    decreases s.len(),
{
    if s.len() == 0 {
        0
    } else {
        16 * hex_number(s.drop_last()) + hex_value(s.last())
    }
}

/// The hexadecimal digits of a number that they have room for denote it.
pub proof fn hex_denotes_its_number(n: nat, digits: nat)
    ensures
        hex(n, digits).len() == digits,
        digits == 2 && n < 256 ==> hex_number(hex(n, digits)) == n,
        digits == 16 && n <= u64::MAX ==> hex_number(hex(n, digits)) == n,
{
    hex_len(n, digits);
    reveal_with_fuel(pow16, 17);
    if (digits == 2 && n < 256) || (digits == 16 && n <= u64::MAX) {
        hex_reads_back(n, digits);
    }
}

spec fn pow16(digits: nat) -> nat
    decreases digits,
{
    if digits == 0 {
        1
    } else {
        16 * pow16((digits - 1) as nat)
    }
}

proof fn hex_reads_back(n: nat, digits: nat)
    requires
        n < pow16(digits),
    ensures
        hex_number(hex(n, digits)) == n,
    decreases digits,
{
    if digits > 0 {
        hex_reads_back(n / 16, (digits - 1) as nat);
        let rest = hex(n / 16, (digits - 1) as nat);
        assert(hex(n, digits).drop_last() =~= rest);
        assert(hex_value(hex_char(n % 16)) == n % 16);
        assert(n == 16 * (n / 16) + n % 16);
    }
}

/// The key of a file is its volume in sixteen digits, a hyphen, and its bytes in two digits each.
/// Two files have the same key exactly where they are the same.
pub proof fn keys_tell_files_apart(a: FileIdentity, b: FileIdentity)
    ensures
        hex_number(a.key().take(16)) == a.volume,
        a.key()[16] == '-',
        a.key().skip(17) == hex_bytes(a.id@),
        a.key() == b.key() <==> a.same(b),
        a.same(b) <==> a.volume == b.volume && a.id@ == b.id@,
{
    hex_denotes_its_number(a.volume as nat, 16);
    hex_denotes_its_number(b.volume as nat, 16);
    assert(a.key().take(16) =~= hex(a.volume as nat, 16));
    assert(b.key().take(16) =~= hex(b.volume as nat, 16));
    assert(a.key().skip(17) =~= hex_bytes(a.id@));
    assert(b.key().skip(17) =~= hex_bytes(b.id@));
    if a.key() == b.key() {
        same_hex_bytes(a.id@, b.id@);
    }
}

proof fn same_hex_bytes(a: Seq<u8>, b: Seq<u8>)
    requires
        hex_bytes(a) == hex_bytes(b),
    ensures
        a == b,
    decreases a.len(),
{
    hex_bytes_len(a);
    hex_bytes_len(b);
    if a.len() > 0 {
        let n = hex_bytes(a).len() - 2;
        hex_denotes_its_number(a.last() as nat, 2);
        hex_denotes_its_number(b.last() as nat, 2);
        assert(hex_bytes(a).take(n) =~= hex_bytes(a.drop_last()));
        assert(hex_bytes(b).take(n) =~= hex_bytes(b.drop_last()));
        assert(hex_bytes(a).skip(n) =~= hex(a.last() as nat, 2));
        assert(hex_bytes(b).skip(n) =~= hex(b.last() as nat, 2));
        same_hex_bytes(a.drop_last(), b.drop_last());
        assert(a =~= a.drop_last().push(a.last()));
        assert(b =~= b.drop_last().push(b.last()));
    } else {
        assert(a =~= b);
    }
}

/// The digits of bytes stand in the order of the bytes.
pub proof fn bytes_keep_their_order(bytes: Seq<u8>, byte: u8)
    ensures
        hex_bytes(Seq::<u8>::empty()).len() == 0,
        hex_bytes(bytes.push(byte)).len() == hex_bytes(bytes).len() + 2,
        hex_bytes(bytes.push(byte)).take(hex_bytes(bytes).len() as int) == hex_bytes(bytes),
        hex_number(hex_bytes(bytes.push(byte)).skip(hex_bytes(bytes).len() as int)) == byte,
{
    assert(bytes.push(byte).drop_last() =~= bytes);
    hex_denotes_its_number(byte as nat, 2);
    let all = hex_bytes(bytes.push(byte));
    assert(all.take(hex_bytes(bytes).len() as int) =~= hex_bytes(bytes));
    assert(all.skip(hex_bytes(bytes).len() as int) =~= hex(byte as nat, 2));
}

/// A rename request is as large as its fixed part, two bytes for each unit of the name and two for
/// its terminator, and never smaller than the smallest one.
pub proof fn request_sizes(units: int, offset: int, smallest: int)
    ensures
        request_size(units, offset, smallest) >= offset + 2 * units + 2,
        request_size(units, offset, smallest) >= smallest,
        request_size(units, offset, smallest) == smallest || request_size(units, offset, smallest)
            == offset + 2 * (units + 1),
{
}

}
