//! The cache of text formats and the bounds of a text.

use vstd::prelude::*;

use crate::font_resources::FontRole;
use crate::text::{chars_of, utf16_len, utf16_longer};

verus! {

/// Largest number of text formats.
pub const MAX_FORMATS: usize = 64;

/// Largest number of UTF-16 units of a text.
pub const MAX_TEXT_UNITS: u64 = 4096;

/// The box that a text is set in.
#[derive(Debug, Clone, Copy, PartialEq, Eq, Structural)]
pub struct TextBox {
    pub role: FontRole,
    pub pixels: u32,
    pub width: i32,
    pub height: i32,
    pub ellipsis: bool,
}

/// Whether a text can be set in a box.
pub fn accepts_text(text: &str, bounds: &TextBox) -> (r: bool)
    ensures
        r == (utf16_len(text@) <= MAX_TEXT_UNITS && 1 <= bounds.pixels <= 4096 && bounds.width > 0
            && bounds.height > 0),
{
    let chars = chars_of(text);
    !utf16_longer(chars.as_slice(), MAX_TEXT_UNITS) && bounds.pixels >= 1 && bounds.pixels <= 4096
        && bounds.width > 0 && bounds.height > 0
}

/// The entries of a map from a role and a size to a format, in order.
pub uninterp spec fn format_entries(formats: indexmap::IndexMap<(u32, u32), u64>) -> Seq<
    ((u32, u32), u64),
>;

/// The place of a key; the length where it is absent.
pub open spec fn format_place(entries: Seq<((u32, u32), u64)>, key: (u32, u32)) -> int
    decreases entries.len(),
{
    if entries.len() == 0 || entries[0].0 == key {
        0
    } else {
        1 + format_place(entries.drop_first(), key)
    }
}

/// Whether a key is present.
pub open spec fn has_format(entries: Seq<((u32, u32), u64)>, key: (u32, u32)) -> bool {
    format_place(entries, key) < entries.len()
}

/// The entries after an insertion: a present key keeps its place, a new one comes last.
pub open spec fn with_format(
    entries: Seq<((u32, u32), u64)>,
    key: (u32, u32),
    format: u64,
) -> Seq<((u32, u32), u64)> {
    if has_format(entries, key) {
        entries.update(format_place(entries, key), (key, format))
    } else {
        entries.push((key, format))
    }
}

/// `IndexMap::new` returns a map without entries.
#[verifier::external_body]
fn format_map() -> (r: indexmap::IndexMap<(u32, u32), u64>)
    ensures
        format_entries(r) == Seq::<((u32, u32), u64)>::empty(),
{
    indexmap::IndexMap::new()
}

/// `IndexMap::len` returns the number of entries.
#[verifier::external_body]
fn format_count(formats: &indexmap::IndexMap<(u32, u32), u64>) -> (r: usize)
    ensures
        r == format_entries(*formats).len(),
{
    formats.len()
}

/// `IndexMap::insert` replaces the value of a present key, which keeps its place, or adds a new
/// entry in the last place.
#[verifier::external_body]
fn format_insert(formats: &mut indexmap::IndexMap<(u32, u32), u64>, key: (u32, u32), format: u64)
    ensures
        format_entries(*final(formats)) == with_format(format_entries(*old(formats)), key, format),
{
    formats.insert(key, format);
}

/// `IndexMap::shift_remove` removes the entry of a key, keeps the order of the others and returns
/// the value, or does nothing where the key is absent.
#[verifier::external_body]
fn format_remove(formats: &mut indexmap::IndexMap<(u32, u32), u64>, key: (u32, u32)) -> (r: Option<
    u64,
>)
    ensures
        ({
            let before = format_entries(*old(formats));
            if has_format(before, key) {
                &&& r == Some(before[format_place(before, key)].1)
                &&& format_entries(*final(formats)) == before.remove(format_place(before, key))
            } else {
                r is None && format_entries(*final(formats)) == before
            }
        }),
{
    formats.shift_remove(&key)
}

/// `IndexMap::shift_remove_index` removes the entry at a place and keeps the order of the others;
/// past the end it does nothing.
#[verifier::external_body]
fn format_remove_at(formats: &mut indexmap::IndexMap<(u32, u32), u64>, place: usize)
    ensures
        format_entries(*final(formats)) == (if place < format_entries(*old(formats)).len() {
            format_entries(*old(formats)).remove(place as int)
        } else {
            format_entries(*old(formats))
        }),
{
    formats.shift_remove_index(place);
}

/// The text formats by role and size, the most recently used last.
pub struct FormatCache {
    pub formats: indexmap::IndexMap<(u32, u32), u64>,
}

impl FormatCache {
    /// The invariant: the cache is bounded, and each key has one format.
    pub open spec fn valid(self) -> bool {
        &&& format_entries(self.formats).len() <= MAX_FORMATS
        &&& distinct_keys(format_entries(self.formats))
    }

    pub fn new() -> (r: Self)
        ensures
            r.valid(),
            format_entries(r.formats).len() == 0,
    {
        FormatCache { formats: format_map() }
    }

    /// Looks a format up; one that is found becomes the most recently used.
    pub fn find(&mut self, role: FontRole, pixels: u32) -> (r: Option<u64>)
        requires
            old(self).valid(),
        ensures
            final(self).valid(),
            ({
                let before = format_entries(old(self).formats);
                let key = (role.number(), pixels);
                if has_format(before, key) {
                    let format = before[format_place(before, key)].1;
                    &&& r == Some(format)
                    &&& format_entries(final(self).formats) == before.remove(
                        format_place(before, key),
                    ).push((key, format))
                } else {
                    r is None && format_entries(final(self).formats) == before
                }
            }),
            (format_entries(final(self).formats), r) == looked_up(
                format_entries(old(self).formats),
                (role.number(), pixels),
            ),
    {
        let key: (u32, u32) = (role.index() as u32, pixels);
        let ghost before = format_entries(self.formats);
        proof {
            place_facts(before, key);
        }
        match format_remove(&mut self.formats, key) {
            Some(format) => {
                proof {
                    removed_key_is_absent(before, format_place(before, key));
                }
                format_insert(&mut self.formats, key, format);
                Some(format)
            },
            None => None,
        }
    }

    /// Puts a new format into the cache; the least recently used ones make way.
    pub fn store(&mut self, role: FontRole, pixels: u32, format: u64)
        requires
            old(self).valid(),
            !has_format(format_entries(old(self).formats), (role.number(), pixels)),
        ensures
            final(self).valid(),
            ({
                let before = format_entries(old(self).formats);
                let kept = if before.len() >= MAX_FORMATS {
                    before.drop_first()
                } else {
                    before
                };
                format_entries(final(self).formats) == kept.push(
                    ((role.number(), pixels), format),
                )
            }),
            format_entries(final(self).formats) == after_stores(
                format_entries(old(self).formats),
                seq![((role.number(), pixels), format)],
            ),
    {
        let key: (u32, u32) = (role.index() as u32, pixels);
        let ghost before = format_entries(self.formats);
        proof {
            place_facts(before, key);
        }
        if format_count(&self.formats) >= MAX_FORMATS {
            format_remove_at(&mut self.formats, 0);
            assert(format_entries(self.formats) =~= before.drop_first());
            proof {
                assert forall|i: int| 0 <= i < before.drop_first().len() implies (
                #[trigger] before.drop_first()[i]).0 != key by {
                    assert(before.drop_first()[i] == before[i + 1]);
                }
                absent_key(before.drop_first(), key);
                distinct_rest(before);
            }
        }
        let ghost kept = format_entries(self.formats);
        proof {
            place_facts(kept, key);
            reveal_with_fuel(after_stores, 2);
            let new = seq![(key, format)];
            assert(new.drop_last() =~= Seq::<((u32, u32), u64)>::empty());
            assert(new.last() == (key, format));
        }
        format_insert(&mut self.formats, key, format);
    }
}

/// The entries and the format after one is looked up: what is found moves to the last place.
pub open spec fn looked_up(entries: Seq<((u32, u32), u64)>, key: (u32, u32)) -> (
    Seq<((u32, u32), u64)>,
    Option<u64>,
) {
    let place = format_place(entries, key);
    if place < entries.len() {
        (entries.remove(place).push(entries[place]), Some(entries[place].1))
    } else {
        (entries, None)
    }
}

/// Whether each key occurs once.
pub open spec fn distinct_keys(entries: Seq<((u32, u32), u64)>) -> bool {
    forall|i: int, j: int|
        0 <= i < j < entries.len() ==> (#[trigger] entries[i]).0 != (#[trigger] entries[j]).0
}

proof fn place_facts(entries: Seq<((u32, u32), u64)>, key: (u32, u32))
    ensures
        0 <= format_place(entries, key) <= entries.len(),
        has_format(entries, key) ==> entries[format_place(entries, key)].0 == key,
        forall|i: int| 0 <= i < format_place(entries, key) ==> (#[trigger] entries[i]).0 != key,
    decreases entries.len(),
{
    if entries.len() > 0 && entries[0].0 != key {
        let rest = entries.drop_first();
        place_facts(rest, key);
        assert forall|i: int| 0 <= i < format_place(entries, key) implies (
        #[trigger] entries[i]).0 != key by {
            if i > 0 {
                assert(entries[i] == rest[i - 1]);
            }
        }
        if has_format(entries, key) {
            assert(entries[format_place(entries, key)] == rest[format_place(rest, key)]);
        }
    }
}

proof fn absent_key(entries: Seq<((u32, u32), u64)>, key: (u32, u32))
    requires
        forall|i: int| 0 <= i < entries.len() ==> (#[trigger] entries[i]).0 != key,
    ensures
        !has_format(entries, key),
{
    place_facts(entries, key);
    if has_format(entries, key) {
        assert(entries[format_place(entries, key)].0 == key);
    }
}

proof fn distinct_rest(entries: Seq<((u32, u32), u64)>)
    requires
        distinct_keys(entries),
        entries.len() > 0,
    ensures
        distinct_keys(entries.drop_first()),
{
    let rest = entries.drop_first();
    assert forall|i: int, j: int| 0 <= i < j < rest.len() implies (#[trigger] rest[i]).0 != (
    #[trigger] rest[j]).0 by {
        assert(rest[i] == entries[i + 1] && rest[j] == entries[j + 1]);
    }
}

proof fn removed_key_is_absent(entries: Seq<((u32, u32), u64)>, place: int)
    requires
        distinct_keys(entries),
        0 <= place < entries.len(),
    ensures
        !has_format(entries.remove(place), entries[place].0),
        distinct_keys(entries.remove(place)),
        distinct_keys(entries.remove(place).push(entries[place])),
{
    let rest = entries.remove(place);
    assert forall|i: int| 0 <= i < rest.len() implies (#[trigger] rest[i]).0 != entries[place].0 by {
        if i < place {
            assert(rest[i] == entries[i]);
        } else {
            assert(rest[i] == entries[i + 1]);
        }
    }
    absent_key(rest, entries[place].0);
    assert forall|i: int, j: int| 0 <= i < j < rest.len() implies (#[trigger] rest[i]).0 != (
    #[trigger] rest[j]).0 by {
        let a = if i < place {
            i
        } else {
            i + 1
        };
        let b = if j < place {
            j
        } else {
            j + 1
        };
        assert(rest[i] == entries[a] && rest[j] == entries[b]);
    }
}

/// The entries after new formats were put into the cache, one after the other.
pub open spec fn after_stores(
    entries: Seq<((u32, u32), u64)>,
    stored: Seq<((u32, u32), u64)>,
) -> Seq<((u32, u32), u64)>
    decreases stored.len(),
{
    if stored.len() == 0 {
        entries
    } else {
        let before = after_stores(entries, stored.drop_last());
        let kept = if before.len() >= MAX_FORMATS {
            before.drop_first()
        } else {
            before
        };
        kept.push(stored.last())
    }
}

/// The cache never grows beyond its bound.
pub proof fn formats_are_bounded(
    entries: Seq<((u32, u32), u64)>,
    stored: Seq<((u32, u32), u64)>,
)
    requires
        entries.len() <= MAX_FORMATS,
    ensures
        after_stores(entries, stored).len() <= MAX_FORMATS,
    decreases stored.len(),
{
    if stored.len() > 0 {
        formats_are_bounded(entries, stored.drop_last());
    }
}

/// A format that was just looked up or stored, and so stands last, stays through as many new
/// formats as there are other places: only those that were not used for longer make way.
pub proof fn recent_formats_stay(
    entries: Seq<((u32, u32), u64)>,
    stored: Seq<((u32, u32), u64)>,
)
    requires
        0 < entries.len() <= MAX_FORMATS,
        stored.len() < MAX_FORMATS,
    ensures
        after_stores(entries, stored).len() > stored.len(),
        after_stores(entries, stored)[after_stores(entries, stored).len() - 1 - stored.len()]
            == entries.last(),
    decreases stored.len(),
{
    if stored.len() > 0 {
        let rest = stored.drop_last();
        recent_formats_stay(entries, rest);
        formats_are_bounded(entries, rest);
    }
}

/// A format is found by its role and size. It is then the last, the others keep their order, and
/// nothing is lost; a format that is not there changes nothing.
pub proof fn found_formats_move_to_the_end(
    entries: Seq<((u32, u32), u64)>,
    key: (u32, u32),
    at: int,
)
    requires
        distinct_keys(entries),
        0 <= at < entries.len(),
    ensures
        entries[at].0 == key ==> looked_up(entries, key) == (
            entries.remove(at).push(entries[at]),
            Some(entries[at].1),
        ),
        looked_up(entries, key).1 is None ==> looked_up(entries, key).0 == entries && entries[at].0
            != key,
        looked_up(entries, key).0.len() == entries.len(),
        looked_up(entries, key).1 is Some ==> looked_up(entries, key).0.last() == (
            key,
            looked_up(entries, key).1->0,
        ),
{
    place_facts(entries, key);
    let place = format_place(entries, key);
    if entries[at].0 == key && place < at {
        assert(entries[place].0 != entries[at].0);
    }
}

/// A new format comes last. While there are fewer than 64 nothing is lost; then the first makes way,
/// which is the one that was not used for the longest time.
pub proof fn new_formats_come_last(entries: Seq<((u32, u32), u64)>, new: ((u32, u32), u64))
    ensures
        after_stores(entries, seq![new]).last() == new,
        entries.len() < 64 ==> after_stores(entries, seq![new]).drop_last() == entries,
        entries.len() >= 64 ==> after_stores(entries, seq![new]).drop_last()
            == entries.drop_first(),
{
    reveal_with_fuel(after_stores, 2);
    assert(seq![new].drop_last() =~= Seq::<((u32, u32), u64)>::empty());
    assert(seq![new].last() == new);
    let after = after_stores(entries, seq![new]);
    if entries.len() < 64 {
        assert(after.drop_last() =~= entries);
    } else {
        assert(after.drop_last() =~= entries.drop_first());
    }
}

}
