//! The check of icon files before they reach the decoder of the system: sizes, offsets and
//! checksums of PNG images and icon tables.

use vstd::prelude::*;
use vstd::slice::slice_subrange;

verus! {

/// Largest icon file in bytes.
pub const SOURCE_LIMIT: u64 = 16777216;

/// Largest width and height of an image.
pub const MAX_DIMENSION: u32 = 1024;

/// The number that four bytes hold, the lowest first.
pub open spec fn little_value(bytes: Seq<u8>, offset: int) -> nat {
    (bytes[offset] + bytes[offset + 1] * 0x100 + bytes[offset + 2] * 0x10000 + bytes[offset + 3]
        * 0x1000000) as nat
}

/// The number that four bytes hold, the highest first.
pub open spec fn big_value(bytes: Seq<u8>, offset: int) -> nat {
    (bytes[offset] * 0x1000000 + bytes[offset + 1] * 0x10000 + bytes[offset + 2] * 0x100
        + bytes[offset + 3]) as nat
}

/// Whether a range of four bytes lies within the file.
pub open spec fn has_four(bytes: Seq<u8>, offset: int) -> bool {
    0 <= offset && offset + 4 <= bytes.len()
}

/// Reads four bytes, the lowest first; none past the end.
pub fn little(bytes: &[u8], offset: usize) -> (r: Option<u32>)
    ensures
        match r {
            Some(value) => has_four(bytes@, offset as int) && value == little_value(
                bytes@,
                offset as int,
            ),
            None => !has_four(bytes@, offset as int),
        },
{
    if offset > bytes.len() || bytes.len() - offset < 4 {
        return None;
    }
    Some(
        bytes[offset] as u32 + bytes[offset + 1] as u32 * 0x100 + bytes[offset + 2] as u32 * 0x10000
            + bytes[offset + 3] as u32 * 0x1000000,
    )
}

/// Reads four bytes, the highest first; none past the end.
pub fn big(bytes: &[u8], offset: usize) -> (r: Option<u32>)
    ensures
        match r {
            Some(value) => has_four(bytes@, offset as int) && value == big_value(
                bytes@,
                offset as int,
            ),
            None => !has_four(bytes@, offset as int),
        },
{
    if offset > bytes.len() || bytes.len() - offset < 4 {
        return None;
    }
    Some(
        bytes[offset] as u32 * 0x1000000 + bytes[offset + 1] as u32 * 0x10000 + bytes[offset + 2]
            as u32 * 0x100 + bytes[offset + 3] as u32,
    )
}

/// Whether the file holds the given bytes at a place.
pub open spec fn holds_at(bytes: Seq<u8>, offset: int, expected: Seq<u8>) -> bool {
    0 <= offset && offset + expected.len() <= bytes.len() && bytes.subrange(
        offset,
        offset + expected.len(),
    ) == expected
}

fn bytes_at(bytes: &[u8], offset: usize, expected: &[u8]) -> (r: bool)
    ensures
        r == holds_at(bytes@, offset as int, expected@),
{
    if offset > bytes.len() || bytes.len() - offset < expected.len() {
        return false;
    }
    for i in 0..expected.len()
        invariant
            offset + expected@.len() <= bytes@.len() <= usize::MAX,
            forall|k: int| 0 <= k < i ==> bytes@[offset + k] == #[trigger] expected@[k],
    {
        if bytes[offset + i] != expected[i] {
            assert(bytes@.subrange(offset as int, offset + expected@.len())[i as int]
                != expected@[i as int]);
            return false;
        }
    }
    assert(bytes@.subrange(offset as int, offset + expected@.len()) =~= expected@);
    true
}

// ---------------------------------------------------------------------------
// The checksum

/// One step of the checksum over a bit.
pub open spec fn crc_bit(crc: u32) -> u32 {
    if crc & 1 == 1 {
        (crc >> 1) ^ 0xedb88320u32
    } else {
        crc >> 1
    }
}

/// A number of steps over bits.
pub open spec fn crc_bits(crc: u32, bits: nat) -> u32
    decreases bits,
{
    if bits == 0 {
        crc
    } else {
        crc_bit(crc_bits(crc, (bits - 1) as nat))
    }
}

/// The register of the checksum after bytes; it starts with all bits set.
pub open spec fn crc_register(bytes: Seq<u8>) -> u32
    decreases bytes.len(),
{
    if bytes.len() == 0 {
        0xffffffff
    } else {
        crc_bits(crc_register(bytes.drop_last()) ^ (bytes.last() as u32), 8)
    }
}

/// The CRC-32 of bytes.
pub open spec fn crc_of(bytes: Seq<u8>) -> u32 {
    !crc_register(bytes)
}

/// The CRC-32 of bytes.
pub fn crc32(bytes: &[u8]) -> (r: u32)
    ensures
        r == crc_of(bytes@),
{
    let mut crc: u32 = 0xffffffff;
    assert(bytes@.take(0) =~= seq![]);
    for i in 0..bytes.len()
        invariant
            crc == crc_register(bytes@.take(i as int)),
    {
        assert(bytes@.take(i + 1).drop_last() =~= bytes@.take(i as int));
        crc = crc ^ (bytes[i] as u32);
        let ghost start = crc;
        for k in 0..8
            invariant
                crc == crc_bits(start, k as nat),
        {
            crc = if crc & 1 == 1 {
                (crc >> 1) ^ 0xedb88320u32
            } else {
                crc >> 1
            };
        }
    }
    assert(bytes@.take(bytes@.len() as int) =~= bytes@);
    !crc
}

// ---------------------------------------------------------------------------
// PNG

/// The signature of a PNG image.
pub open spec fn png_signature() -> Seq<u8> {
    seq![0x89, 0x50, 0x4e, 0x47, 0x0d, 0x0a, 0x1a, 0x0a]
}

pub open spec fn header_kind() -> Seq<u8> {
    seq![0x49, 0x48, 0x44, 0x52]
}

pub open spec fn data_kind() -> Seq<u8> {
    seq![0x49, 0x44, 0x41, 0x54]
}

pub open spec fn end_kind() -> Seq<u8> {
    seq![0x49, 0x45, 0x4e, 0x44]
}

/// The end of the chunk at a place.
pub open spec fn chunk_end(bytes: Seq<u8>, offset: int) -> int {
    offset + big_value(bytes, offset) + 12
}

/// Whether a whole chunk with a right checksum stands at a place.
pub open spec fn chunk_sound(bytes: Seq<u8>, offset: int) -> bool {
    &&& has_four(bytes, offset)
    &&& chunk_end(bytes, offset) <= bytes.len()
    &&& crc_of(bytes.subrange(offset + 4, chunk_end(bytes, offset) - 4)) == big_value(
        bytes,
        chunk_end(bytes, offset) - 4,
    )
}

/// Whether sound chunks fill the rest of the file: at least one holds image data, and the last
/// is the empty end chunk.
pub open spec fn chunks_sound(bytes: Seq<u8>, offset: int, data: bool) -> bool
    decreases bytes.len() - offset,
{
    if !chunk_sound(bytes, offset) {
        false
    } else {
        let kind = bytes.subrange(offset + 4, offset + 8);
        let seen = data || kind == data_kind();
        if kind == end_kind() {
            big_value(bytes, offset) == 0 && seen && chunk_end(bytes, offset) == bytes.len()
        } else {
            chunks_sound(bytes, chunk_end(bytes, offset), seen)
        }
    }
}

/// Whether the beginning of the file is that of a PNG image that is accepted.
pub open spec fn png_header(bytes: Seq<u8>) -> bool {
    &&& holds_at(bytes, 0, png_signature())
    &&& has_four(bytes, 8) && big_value(bytes, 8) == 13
    &&& holds_at(bytes, 12, header_kind())
    &&& has_four(bytes, 20)
    &&& 1 <= big_value(bytes, 16) <= MAX_DIMENSION
    &&& 1 <= big_value(bytes, 20) <= MAX_DIMENSION
    &&& bytes.len() > 28
    &&& bytes[26] == 0 && bytes[27] == 0 && bytes[28] <= 1
}

/// Width and height of a sound PNG image.
pub open spec fn png_size(bytes: Seq<u8>) -> Option<(u32, u32)> {
    if png_header(bytes) && chunks_sound(bytes, 8, false) {
        Some((big_value(bytes, 16) as u32, big_value(bytes, 20) as u32))
    } else {
        None
    }
}

fn is_png_start(bytes: &[u8]) -> (r: bool)
    ensures
        r == holds_at(bytes@, 0, png_signature()),
{
    let signature: [u8; 8] = [0x89, 0x50, 0x4e, 0x47, 0x0d, 0x0a, 0x1a, 0x0a];
    assert(signature@ =~= png_signature());
    bytes_at(bytes, 0, &signature)
}

/// Checks a PNG image; returns its width and height.
pub fn png_dimensions(bytes: &[u8]) -> (r: Option<(u32, u32)>)
    ensures
        r == png_size(bytes@),
{
    let header: [u8; 4] = [0x49, 0x48, 0x44, 0x52];
    let data: [u8; 4] = [0x49, 0x44, 0x41, 0x54];
    let end_mark: [u8; 4] = [0x49, 0x45, 0x4e, 0x44];
    assert(header@ =~= header_kind());
    assert(data@ =~= data_kind());
    assert(end_mark@ =~= end_kind());
    if !is_png_start(bytes) || big(bytes, 8) != Some(13u32) || !bytes_at(bytes, 12, &header) {
        return None;
    }
    let Some(width) = big(bytes, 16) else {
        return None;
    };
    let Some(height) = big(bytes, 20) else {
        return None;
    };
    if width < 1 || width > MAX_DIMENSION || height < 1 || height > MAX_DIMENSION || bytes.len()
        <= 28 || bytes[26] != 0 || bytes[27] != 0 || bytes[28] > 1 {
        return None;
    }
    let mut offset: usize = 8;
    let mut seen = false;
    loop
        invariant
            png_header(bytes@),
            width == big_value(bytes@, 16),
            height == big_value(bytes@, 20),
            8 <= offset <= bytes@.len(),
            data@ == data_kind(),
            end_mark@ == end_kind(),
            chunks_sound(bytes@, 8, false) == chunks_sound(bytes@, offset as int, seen),
        decreases bytes@.len() - offset,
    {
        let Some(length) = big(bytes, offset) else {
            return None;
        };
        let length = length as usize;
        let available: usize = bytes.len() - offset;
        if available < 12 || available - 12 < length {
            return None;
        }
        let end: usize = offset + length + 12;
        assert(end == chunk_end(bytes@, offset as int));
        let chunk = slice_subrange(bytes, offset + 4, end - 4);
        if Some(crc32(chunk)) != big(bytes, end - 4) {
            return None;
        }
        assert(chunk_sound(bytes@, offset as int));
        let is_data = bytes_at(bytes, offset + 4, &data);
        let is_end = bytes_at(bytes, offset + 4, &end_mark);
        if is_data {
            seen = true;
        }
        if is_end {
            if length == 0 && seen && end == bytes.len() {
                return Some((width, height));
            }
            return None;
        }
        offset = end;
    }
}

// ---------------------------------------------------------------------------
// Icon tables

/// The number that two bytes hold, the lowest first.
pub open spec fn pair_value(bytes: Seq<u8>, offset: int) -> int {
    bytes[offset] + bytes[offset + 1] * 0x100
}

/// A number divided and rounded up.
pub open spec fn divided_up(n: int, by: int) -> int {
    (n + by - 1) / by
}

/// Number of colours of a palette of `bits` bits.
pub open spec fn palette(bits: int) -> int {
    if bits == 1 {
        2
    } else if bits == 4 {
        16
    } else {
        256
    }
}

/// The number of colours that a bitmap declares.
pub open spec fn declared_colors(bytes: Seq<u8>) -> int {
    if has_four(bytes, 32) {
        little_value(bytes, 32) as int
    } else {
        0
    }
}

/// Number of colours in the palette of a bitmap.
pub open spec fn color_count(bytes: Seq<u8>, bits: int) -> int {
    if bits > 8 {
        0
    } else if declared_colors(bytes) == 0 {
        palette(bits)
    } else {
        declared_colors(bytes)
    }
}

/// The number of bytes that a bitmap with its palette and its mask needs.
pub open spec fn bitmap_bytes(header: int, colors: int, bits: int, width: int, height: int) -> int {
    header + colors * 4 + divided_up(width * bits, 32) * 4 * height + (if bits == 32 {
        0
    } else {
        divided_up(width, 32) * 4 * height
    })
}

/// Whether the bytes are a whole uncompressed bitmap of an icon: of the given width, with twice
/// the given height for the image and its mask.
pub open spec fn dib_sound(bytes: Seq<u8>, width: int, height: int) -> bool {
    &&& bytes.len() >= 20
    &&& little_value(bytes, 0) == 40 || little_value(bytes, 0) == 108 || little_value(bytes, 0)
        == 124
    &&& little_value(bytes, 4) == width
    &&& little_value(bytes, 8) == height * 2
    &&& bytes[12] == 1 && bytes[13] == 0
    &&& little_value(bytes, 16) == 0
    &&& ({
        let bits = pair_value(bytes, 14);
        &&& bits == 1 || bits == 4 || bits == 8 || bits == 16 || bits == 24 || bits == 32
        &&& bits <= 8 ==> declared_colors(bytes) <= palette(bits)
        &&& bitmap_bytes(
            little_value(bytes, 0) as int,
            color_count(bytes, bits),
            bits,
            width,
            height,
        ) <= bytes.len()
    })
}

/// Checks the bitmap of an icon.
pub fn valid_dib(bytes: &[u8], width: u32, height: u32) -> (r: bool)
    ensures
        r == dib_sound(bytes@, width as int, height as int),
{
    if bytes.len() < 20 {
        return false;
    }
    let header: u32 = match little(bytes, 0) {
        Some(size) => size,
        None => {
            return false;
        },
    };
    if header != 40 && header != 108 && header != 124 {
        return false;
    }
    if height > 0x7fff_ffff {
        return false;
    }
    if little(bytes, 4) != Some(width) || little(bytes, 8) != Some(height * 2) || bytes[12] != 1
        || bytes[13] != 0 || little(bytes, 16) != Some(0u32) {
        return false;
    }
    let bits: u32 = bytes[14] as u32 + bytes[15] as u32 * 0x100;
    if bits != 1 && bits != 4 && bits != 8 && bits != 16 && bits != 24 && bits != 32 {
        return false;
    }
    let colors: u32 = if bits <= 8 {
        let declared: u32 = match little(bytes, 32) {
            Some(count) => count,
            None => 0,
        };
        let most: u32 = if bits == 1 {
            2
        } else if bits == 4 {
            16
        } else {
            256
        };
        if declared > most {
            return false;
        }
        if declared == 0 {
            most
        } else {
            declared
        }
    } else {
        0
    };
    assert(width * bits <= 0xffff_ffff * 32) by (nonlinear_arith)
        requires
            width <= 0xffff_ffff,
            bits <= 32,
    ;
    let row: u128 = (width as u128 * bits as u128 + 31) / 32 * 4;
    let mask_row: u128 = if bits == 32 {
        0
    } else {
        (width as u128 + 31) / 32 * 4
    };
    assert(row <= 0x4_0000_0000);
    assert(row * height <= 0x4_0000_0000 * 0xffff_ffff) by (nonlinear_arith)
        requires
            0 <= row <= 0x4_0000_0000,
            height <= 0xffff_ffff,
    ;
    assert(mask_row <= 0x4_0000_0000);
    assert(mask_row * height <= 0x4_0000_0000 * 0xffff_ffff) by (nonlinear_arith)
        requires
            0 <= mask_row <= 0x4_0000_0000,
            height <= 0xffff_ffff,
    ;
    let needed: u128 = header as u128 + colors as u128 * 4 + row * height as u128 + mask_row
        * height as u128;
    assert(needed == bitmap_bytes(
        header as int,
        colors as int,
        bits as int,
        width as int,
        height as int,
    )) by {
        assert(divided_up(width * bits, 32) * 4 == row);
        assert(bits != 32 ==> divided_up(width as int, 32) * 4 == mask_row);
    }
    needed <= bytes.len() as u128
}

/// The number of entries of an icon table.
pub open spec fn table_count(bytes: Seq<u8>) -> int {
    pair_value(bytes, 4)
}

/// The end of an icon table.
pub open spec fn table_end(bytes: Seq<u8>) -> int {
    6 + table_count(bytes) * 16
}

/// Whether the file begins with a whole icon table.
pub open spec fn table_sound(bytes: Seq<u8>) -> bool {
    &&& holds_at(bytes, 0, seq![0, 0, 1, 0])
    &&& bytes.len() >= 6
    &&& 1 <= table_count(bytes) <= 256
    &&& table_end(bytes) <= bytes.len()
}

/// A width or height in an icon table; zero stands for 256.
pub open spec fn table_dimension(byte: u8) -> int {
    if byte == 0 {
        256
    } else {
        byte as int
    }
}

pub open spec fn entry_width(bytes: Seq<u8>, index: int) -> int {
    table_dimension(bytes[6 + index * 16])
}

pub open spec fn entry_height(bytes: Seq<u8>, index: int) -> int {
    table_dimension(bytes[7 + index * 16])
}

pub open spec fn entry_length(bytes: Seq<u8>, index: int) -> int {
    little_value(bytes, 14 + index * 16) as int
}

pub open spec fn entry_offset(bytes: Seq<u8>, index: int) -> int {
    little_value(bytes, 18 + index * 16) as int
}

/// The image of an entry.
pub open spec fn entry_image(bytes: Seq<u8>, index: int) -> Seq<u8> {
    bytes.subrange(
        entry_offset(bytes, index),
        entry_offset(bytes, index) + entry_length(bytes, index),
    )
}

/// Whether the image of an entry lies behind the table and is sound in the size of the entry.
pub open spec fn entry_sound(bytes: Seq<u8>, index: int) -> bool {
    &&& entry_length(bytes, index) > 0
    &&& entry_offset(bytes, index) >= table_end(bytes)
    &&& entry_offset(bytes, index) + entry_length(bytes, index) <= bytes.len()
    &&& if holds_at(entry_image(bytes, index), 0, seq![0x89, 0x50, 0x4e, 0x47]) {
        png_size(entry_image(bytes, index)) == Some(
            (entry_width(bytes, index) as u32, entry_height(bytes, index) as u32),
        )
    } else {
        dib_sound(entry_image(bytes, index), entry_width(bytes, index), entry_height(bytes, index))
    }
}

/// Number of pixels of an entry.
pub open spec fn entry_area(bytes: Seq<u8>, index: int) -> int {
    entry_width(bytes, index) * entry_height(bytes, index)
}

/// The first of the largest of a number of entries.
pub open spec fn largest_entry(bytes: Seq<u8>, count: int) -> int
    decreases count,
{
    if count <= 1 {
        0
    } else {
        let before = largest_entry(bytes, count - 1);
        if entry_area(bytes, count - 1) > entry_area(bytes, before) {
            count - 1
        } else {
            before
        }
    }
}

/// Whether every entry of an icon table is sound.
pub open spec fn icon_sound(bytes: Seq<u8>) -> bool {
    table_sound(bytes) && forall|i: int|
        0 <= i < table_count(bytes) ==> #[trigger] entry_sound(bytes, i)
}

fn dimension(byte: u8) -> (r: u32)
    ensures
        r == table_dimension(byte),
        1 <= r <= 256,
{
    if byte == 0 {
        256
    } else {
        byte as u32
    }
}

fn check_entry(bytes: &[u8], index: usize) -> (r: Option<(usize, usize, u32)>)
    requires
        table_sound(bytes@),
        index < table_count(bytes@),
    ensures
        match r {
            Some((from, to, area)) => entry_sound(bytes@, index as int) && from == entry_offset(
                bytes@,
                index as int,
            ) && to == from + entry_length(bytes@, index as int) && area == entry_area(
                bytes@,
                index as int,
            ) && from <= to <= bytes@.len(),
            None => !entry_sound(bytes@, index as int),
        },
{
    let count: usize = bytes[4] as usize + bytes[5] as usize * 0x100;
    let end: usize = 6 + count * 16;
    let entry: usize = 6 + index * 16;
    let width = dimension(bytes[entry]);
    let height = dimension(bytes[entry + 1]);
    let (length, offset) = match (little(bytes, entry + 8), little(bytes, entry + 12)) {
        (Some(length), Some(offset)) => (length as usize, offset as usize),
        _ => {
            return None;
        },
    };
    if length == 0 || offset < end || offset > bytes.len() || bytes.len() - offset < length {
        return None;
    }
    let image = slice_subrange(bytes, offset, offset + length);
    let mark: [u8; 4] = [0x89, 0x50, 0x4e, 0x47];
    assert(mark@ =~= seq![0x89, 0x50, 0x4e, 0x47]);
    if bytes_at(image, 0, &mark) {
        match png_dimensions(image) {
            Some((w, h)) => {
                if w != width || h != height {
                    return None;
                }
            },
            None => {
                return None;
            },
        }
    } else if !valid_dib(image, width, height) {
        return None;
    }
    assert(width * height <= 65536) by (nonlinear_arith)
        requires
            width <= 256,
            height <= 256,
    ;
    Some((offset, offset + length, width * height))
}

/// Checks an icon file; returns the image with the most pixels.
pub fn ico_resource(bytes: &[u8]) -> (r: Option<&[u8]>)
    ensures
        match r {
            Some(image) => icon_sound(bytes@) && image@ == entry_image(
                bytes@,
                largest_entry(bytes@, table_count(bytes@)),
            ),
            None => !icon_sound(bytes@),
        },
{
    let mark: [u8; 4] = [0, 0, 1, 0];
    assert(mark@ =~= seq![0, 0, 1, 0]);
    if !bytes_at(bytes, 0, &mark) || bytes.len() < 6 {
        return None;
    }
    let count: usize = bytes[4] as usize + bytes[5] as usize * 0x100;
    if count == 0 || count > 256 || bytes.len() < 6 + count * 16 {
        return None;
    }
    assert(table_sound(bytes@));
    let (mut from, mut to, mut best) = match check_entry(bytes, 0) {
        Some(entry) => entry,
        None => {
            assert(!entry_sound(bytes@, 0));
            return None;
        },
    };
    let mut i: usize = 1;
    while i < count
        invariant
            1 <= i <= count,
            count == table_count(bytes@),
            table_sound(bytes@),
            forall|k: int| 0 <= k < i ==> #[trigger] entry_sound(bytes@, k),
            from == entry_offset(bytes@, largest_entry(bytes@, i as int)),
            to == from + entry_length(bytes@, largest_entry(bytes@, i as int)),
            best == entry_area(bytes@, largest_entry(bytes@, i as int)),
            from <= to <= bytes@.len(),
        decreases count - i,
    {
        match check_entry(bytes, i) {
            Some((start, end, area)) => {
                if area > best {
                    from = start;
                    to = end;
                    best = area;
                }
            },
            None => {
                assert(!entry_sound(bytes@, i as int));
                return None;
            },
        }
        i = i + 1;
    }
    Some(slice_subrange(bytes, from, to))
}

/// Whether an icon file is accepted.
pub open spec fn source_sound(bytes: Seq<u8>) -> bool {
    &&& 0 < bytes.len() <= SOURCE_LIMIT
    &&& if holds_at(bytes, 0, png_signature()) {
        png_size(bytes) is Some
    } else {
        icon_sound(bytes)
    }
}

/// The image of an icon file for the decoder of the system: a PNG image as a whole, or the
/// largest image of an icon table.
pub fn icon_resource(bytes: &[u8]) -> (r: Option<&[u8]>)
    ensures
        match r {
            Some(image) => source_sound(bytes@) && image@ == (if holds_at(
                bytes@,
                0,
                png_signature(),
            ) {
                bytes@
            } else {
                entry_image(bytes@, largest_entry(bytes@, table_count(bytes@)))
            }),
            None => !source_sound(bytes@),
        },
{
    if bytes.len() == 0 || bytes.len() as u64 > SOURCE_LIMIT {
        return None;
    }
    if is_png_start(bytes) {
        match png_dimensions(bytes) {
            Some(_) => Some(bytes),
            None => None,
        }
    } else {
        ico_resource(bytes)
    }
}

/// The chosen image of an icon table is one of its entries and none has more pixels.
pub proof fn chosen_entry_is_the_largest(bytes: Seq<u8>, count: int, index: int)
    requires
        0 <= index < count,
    ensures
        0 <= largest_entry(bytes, count) < count,
        entry_area(bytes, index) <= entry_area(bytes, largest_entry(bytes, count)),
    decreases count,
{
    if count > 1 {
        if index < count - 1 {
            chosen_entry_is_the_largest(bytes, count - 1, index);
        } else {
            chosen_entry_is_the_largest(bytes, count - 1, 0);
        }
    }
}

/// An accepted PNG image is never larger than the limit in either direction, and not empty.
pub proof fn accepted_images_are_bounded(bytes: Seq<u8>)
    requires
        png_size(bytes) is Some,
    ensures
        1 <= (png_size(bytes)->0).0 <= MAX_DIMENSION,
        1 <= (png_size(bytes)->0).1 <= MAX_DIMENSION,
{
}

/// Every image that an accepted icon table names lies within the file, behind the table.
pub proof fn images_lie_within_the_file(bytes: Seq<u8>, index: int)
    requires
        icon_sound(bytes),
        0 <= index < table_count(bytes),
    ensures
        table_end(bytes) <= entry_offset(bytes, index),
        entry_offset(bytes, index) + entry_image(bytes, index).len() <= bytes.len(),
        entry_image(bytes, index).len() > 0,
{
    assert(entry_sound(bytes, index));
}

/// Four bytes are read as a number of four digits to the base 256: with the lowest first in an icon
/// table, and with the highest first in a PNG image. Two bytes are read with the lowest first.
pub proof fn bytes_are_digits(before: Seq<u8>, a: u8, b: u8, c: u8, d: u8, rest: Seq<u8>)
    ensures
        ({
            let bytes = before + seq![a, b, c, d] + rest;
            let at = before.len() as int;
            &&& has_four(bytes, at)
            &&& little_value(bytes, at) == a + 256 * (b + 256 * (c + 256 * d))
            &&& big_value(bytes, at) == d + 256 * (c + 256 * (b + 256 * a))
            &&& pair_value(bytes, at) == a + 256 * b
        }),
        !has_four(seq![a, b, c], 0),
        !has_four(before, before.len() - 3),
{
    let bytes = before + seq![a, b, c, d] + rest;
    let at = before.len() as int;
    assert(bytes[at] == a && bytes[at + 1] == b && bytes[at + 2] == c && bytes[at + 3] == d);
}

/// The checksum is that of the reversed polynomial 0xedb88320: each bit halves the register, and a
/// bit that falls out adds the polynomial. It starts and ends with its complement.
pub proof fn checksum_of_bytes(bytes: Seq<u8>, byte: u8, register: u32, bits: nat)
    ensures
        crc_of(Seq::<u8>::empty()) == 0,
        crc_bit(register) == (register / 2) ^ (if register % 2 == 1 {
            0xedb88320u32
        } else {
            0u32
        }),
        crc_bits(register, 0) == register,
        crc_bits(register, bits + 1) == crc_bit(crc_bits(register, bits)),
        crc_of(bytes.push(byte)) == !crc_bits(!crc_of(bytes) ^ (byte as u32), 8),
{
    assert(bytes.push(byte).drop_last() =~= bytes);
    let inner = crc_register(bytes);
    assert(!(!inner) == inner) by (bit_vector);
    assert(!0xffff_ffffu32 == 0u32) by (bit_vector);
    assert(register >> 1 == register / 2) by (bit_vector);
    assert((register & 1 == 1) == (register % 2 == 1)) by (bit_vector);
    let halved = register / 2;
    assert(halved ^ 0u32 == halved) by (bit_vector);
}

/// An accepted PNG image begins with its signature and a header of 13 bytes, which gives its size, up
/// to 1024 pixels, and names the one kind of compression and of filters that there is.
pub proof fn headers_of_images(bytes: Seq<u8>, k: int)
    requires
        png_size(bytes) is Some,
        0 <= k < 8,
    ensures
        bytes.len() > 28,
        bytes[k] == seq![137u8, 80, 78, 71, 13, 10, 26, 10][k],
        big_value(bytes, 8) == 13,
        bytes[12] == 'I' as u8 && bytes[13] == 'H' as u8 && bytes[14] == 'D' as u8 && bytes[15]
            == 'R' as u8,
        (png_size(bytes)->0).0 == big_value(bytes, 16),
        (png_size(bytes)->0).1 == big_value(bytes, 20),
        1 <= big_value(bytes, 16) <= 1024,
        1 <= big_value(bytes, 20) <= 1024,
        bytes[26] == 0 && bytes[27] == 0 && bytes[28] <= 1,
        chunks_sound(bytes, 8, false),
{
    assert(bytes.subrange(0, 8)[k] == bytes[k]);
    let kind = bytes.subrange(12, 16);
    assert(kind[0] == bytes[12] && kind[1] == bytes[13] && kind[2] == bytes[14] && kind[3]
        == bytes[15]);
}

/// A file with such a header and sound chunks behind it is accepted.
pub proof fn images_that_are_accepted(bytes: Seq<u8>)
    requires
        bytes.len() > 28,
        bytes.take(8) == seq![137u8, 80, 78, 71, 13, 10, 26, 10],
        big_value(bytes, 8) == 13,
        bytes.subrange(12, 16) == seq!['I' as u8, 'H' as u8, 'D' as u8, 'R' as u8],
        1 <= big_value(bytes, 16) <= 1024,
        1 <= big_value(bytes, 20) <= 1024,
        bytes[26] == 0 && bytes[27] == 0 && bytes[28] <= 1,
        chunks_sound(bytes, 8, false),
    ensures
        png_size(bytes) is Some,
{
    assert(bytes.subrange(0, 8) =~= bytes.take(8));
    assert(bytes.take(8) =~= png_signature());
    assert(bytes.subrange(12, 16) =~= header_kind());
}

/// The chunks of an image follow each other without a gap: four bytes for the length, four for the
/// kind, the contents and four for the checksum of kind and contents. They end with an empty one
/// of the kind `IEND` at the end of the file, and at least one of the kind `IDAT` comes before it.
pub proof fn chunks_of_images(bytes: Seq<u8>, offset: int, data: bool)
    requires
        0 <= offset,
    ensures
        ({
            let length = big_value(bytes, offset);
            let end = offset + 4 + 4 + length + 4;
            let kind = bytes.subrange(offset + 4, offset + 8);
            let whole = offset + 4 <= bytes.len() && end <= bytes.len() && crc_of(
                bytes.subrange(offset + 4, end - 4),
            ) == big_value(bytes, end - 4);
            let last = kind == seq!['I' as u8, 'E' as u8, 'N' as u8, 'D' as u8];
            let image = kind == seq!['I' as u8, 'D' as u8, 'A' as u8, 'T' as u8];
            &&& !whole ==> !chunks_sound(bytes, offset, data)
            &&& whole && last ==> (chunks_sound(bytes, offset, data) <==> length == 0 && data && end
                == bytes.len())
            &&& whole && !last ==> chunks_sound(bytes, offset, data) == chunks_sound(
                bytes,
                end,
                data || image,
            )
        }),
{
    assert(end_kind() =~= seq!['I' as u8, 'E' as u8, 'N' as u8, 'D' as u8]);
    assert(data_kind() =~= seq!['I' as u8, 'D' as u8, 'A' as u8, 'T' as u8]);
    assert(end_kind()[1] != data_kind()[1]);
}

/// A palette has two colours for each combination of its bits. Rows of a bitmap and of its mask are
/// filled up to multiples of 32 bits.
pub proof fn sizes_of_bitmaps(header: int, colors: int, bits: int, width: int, height: int)
    requires
        width >= 1,
        height >= 0,
        bits == 1 || bits == 4 || bits == 8 || bits == 16 || bits == 24 || bits == 32,
    ensures
        palette(1) == 2 && palette(4) == 16 && palette(8) == 256,
        ({
            let row = divided_up(width * bits, 32);
            let mask = divided_up(width, 32);
            &&& 32 * (row - 1) < width * bits <= 32 * row
            &&& 32 * (mask - 1) < width <= 32 * mask
            &&& bits == 32 ==> bitmap_bytes(header, colors, bits, width, height) == header + 4 * colors
                + row * 4 * height
            &&& bits != 32 ==> bitmap_bytes(header, colors, bits, width, height) == header + 4 * colors
                + row * 4 * height + mask * 4 * height
        }),
{
}

/// An accepted bitmap has one of the three known headers, the size of its entry with twice the
/// height for the mask, one plane, one of the known depths and no compression, and is whole.
pub proof fn bitmaps_that_are_accepted(bytes: Seq<u8>, width: int, height: int)
    ensures
        dib_sound(bytes, width, height) <==> {
            let size = little_value(bytes, 0);
            let bits = bytes[14] + 256 * bytes[15];
            let declared = if bytes.len() >= 36 {
                little_value(bytes, 32) as int
            } else {
                0
            };
            let most = if bits == 1 {
                2int
            } else if bits == 4 {
                16
            } else {
                256
            };
            let colors = if bits > 8 {
                0
            } else if declared == 0 {
                most
            } else {
                declared
            };
            &&& bytes.len() >= 20
            &&& size == 40 || size == 108 || size == 124
            &&& little_value(bytes, 4) == width
            &&& little_value(bytes, 8) == 2 * height
            &&& bytes[12] == 1 && bytes[13] == 0
            &&& bits == 1 || bits == 4 || bits == 8 || bits == 16 || bits == 24 || bits == 32
            &&& little_value(bytes, 16) == 0
            &&& bits <= 8 ==> declared <= most
            &&& bitmap_bytes(size as int, colors, bits, width, height) <= bytes.len()
        },
{
}

/// An icon table begins with 0, 0, 1, 0 and the number of its entries, from one to 256, of sixteen
/// bytes each.
pub proof fn tables_of_icons(bytes: Seq<u8>)
    ensures
        table_sound(bytes) <==> {
            let count = bytes[4] + 256 * bytes[5];
            &&& bytes.len() >= 6
            &&& bytes[0] == 0 && bytes[1] == 0 && bytes[2] == 1 && bytes[3] == 0
            &&& 1 <= count <= 256
            &&& 6 + 16 * count <= bytes.len()
        },
        icon_sound(bytes) ==> table_sound(bytes) && table_count(bytes) == bytes[4] + 256 * bytes[5]
            && table_end(bytes) == 6 + 16 * table_count(bytes),
{
    if bytes.len() >= 4 {
        let start = bytes.subrange(0, 4);
        assert(start[0] == bytes[0] && start[1] == bytes[1] && start[2] == bytes[2] && start[3]
            == bytes[3]);
        let wanted = seq![0u8, 0, 1, 0];
        assert(wanted[0] == 0 && wanted[1] == 0 && wanted[2] == 1 && wanted[3] == 0);
        if bytes[0] == 0 && bytes[1] == 0 && bytes[2] == 1 && bytes[3] == 0 {
            assert(start =~= wanted);
        }
    }
}

/// An entry gives the width, the height, the length and the place of its image. The image lies
/// behind the table and within the file, and it is a PNG image of that size or a bitmap of it.
pub proof fn entries_of_icons(bytes: Seq<u8>, index: int)
    requires
        0 <= index,
    ensures
        ({
            let at = 6 + 16 * index;
            let width = if bytes[at] == 0 {
                256
            } else {
                bytes[at] as int
            };
            let height = if bytes[at + 1] == 0 {
                256
            } else {
                bytes[at + 1] as int
            };
            let length = little_value(bytes, at + 8);
            let from = little_value(bytes, at + 12) as int;
            let image = bytes.subrange(from, from + length);
            &&& entry_area(bytes, index) == width * height
            &&& entry_image(bytes, index) == image
            &&& entry_sound(bytes, index) <==> {
                &&& length > 0
                &&& from >= table_end(bytes)
                &&& from + length <= bytes.len()
                &&& if holds_at(image, 0, seq![137u8, 80, 78, 71]) {
                    png_size(image) == Some((width as u32, height as u32))
                } else {
                    dib_sound(image, width, height)
                }
            }
        }),
{
    assert(seq![0x89u8, 0x50, 0x4e, 0x47] =~= seq![137u8, 80, 78, 71]);
}

/// Of several entries with the most pixels the first is chosen.
pub proof fn first_of_the_largest_entries(bytes: Seq<u8>, count: int, index: int)
    requires
        0 <= index < largest_entry(bytes, count),
        1 <= count,
    ensures
        entry_area(bytes, index) < entry_area(bytes, largest_entry(bytes, count)),
    decreases count,
{
    if count > 1 {
        let before = largest_entry(bytes, count - 1);
        if largest_entry(bytes, count) == count - 1 {
            chosen_entry_is_the_largest(bytes, count - 1, index);
        } else {
            first_of_the_largest_entries(bytes, count - 1, index);
        }
    }
}

/// A file of up to sixteen megabytes is accepted: as a PNG image where it begins with the signature
/// of one, and else as an icon table of which every entry is sound.
pub proof fn files_that_are_accepted(bytes: Seq<u8>, index: int)
    ensures
        bytes.len() == 0 || bytes.len() > 16 * 1024 * 1024 ==> !source_sound(bytes),
        source_sound(bytes) && bytes.take(8) == seq![137u8, 80, 78, 71, 13, 10, 26, 10] ==> png_size(
            bytes,
        ) is Some,
        source_sound(bytes) && bytes.take(8) != seq![137u8, 80, 78, 71, 13, 10, 26, 10]
            ==> icon_sound(bytes),
        0 < bytes.len() <= 16 * 1024 * 1024 && png_size(bytes) is Some ==> source_sound(bytes),
        0 < bytes.len() <= 16 * 1024 * 1024 && icon_sound(bytes) ==> source_sound(bytes),
        icon_sound(bytes) && 0 <= index < table_count(bytes) ==> entry_sound(bytes, index),
{
    assert(seq![137u8, 80, 78, 71, 13, 10, 26, 10] =~= png_signature());
    if bytes.len() >= 8 {
        assert(bytes.take(8) =~= bytes.subrange(0, 8));
        if holds_at(bytes, 0, png_signature()) {
            assert(bytes.subrange(0, 8)[0] == bytes[0]);
            if icon_sound(bytes) {
                tables_of_icons(bytes);
            }
        }
    }
}

}
