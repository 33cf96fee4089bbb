//! Icon overrides: patterns of process names, each with the icon to show.

use vstd::prelude::*;

use crate::config::parsers::{visible_parts, MAX_LIST_ITEMS, MAX_NAME_UNITS, MAX_PATH_UNITS};
use crate::text::{
    chars_of, contains_char, find_either, has_char, part, pieces, split_either, string_of, texts,
    trim, trimmed, until, utf16_len, utf16_longer,
};

verus! {

/// `indexmap::IndexMap`, a hash map that keeps its entries in insertion order.
#[verifier::external_type_specification]
#[verifier::external_body]
#[verifier::reject_recursive_types(K)]
#[verifier::reject_recursive_types(V)]
#[verifier::reject_recursive_types(S)]
pub struct ExIndexMap<K, V, S>(indexmap::IndexMap<K, V, S>);

/// The entries of a map from texts to texts, in order.
pub uninterp spec fn text_entries(map: indexmap::IndexMap<String, String>) -> Seq<
    (Seq<char>, Seq<char>),
>;

/// The position of a key; the length where it is absent.
pub open spec fn position(entries: Seq<(Seq<char>, Seq<char>)>, key: Seq<char>) -> int
    decreases entries.len(),
{
    if entries.len() == 0 || entries[0].0 == key {
        0
    } else {
        1 + position(entries.drop_first(), key)
    }
}

/// Whether a key is present.
pub open spec fn has_key(entries: Seq<(Seq<char>, Seq<char>)>, key: Seq<char>) -> bool {
    position(entries, key) < entries.len()
}

/// The entries after an insertion: a present key keeps its place, a new one comes last.
pub open spec fn put(
    entries: Seq<(Seq<char>, Seq<char>)>,
    key: Seq<char>,
    value: Seq<char>,
) -> Seq<(Seq<char>, Seq<char>)> {
    if has_key(entries, key) {
        entries.update(position(entries, key), (key, value))
    } else {
        entries.push((key, value))
    }
}

/// `IndexMap::new` returns a map without entries.
#[verifier::external_body]
pub(crate) fn text_map() -> (r: indexmap::IndexMap<String, String>)
    ensures
        text_entries(r) == Seq::<(Seq<char>, Seq<char>)>::empty(),
{
    indexmap::IndexMap::new()
}

/// `IndexMap::insert` replaces the value of a present key, which keeps its place, or adds a new
/// entry in the last place; it returns the value that was replaced.
#[verifier::external_body]
pub(crate) fn text_insert(
    map: &mut indexmap::IndexMap<String, String>,
    key: String,
    value: String,
) -> (r: Option<String>)
    ensures
        text_entries(*final(map)) == put(text_entries(*old(map)), key@, value@),
        r is Some == has_key(text_entries(*old(map)), key@),
        r is Some ==> r->0@ == text_entries(*old(map))[position(text_entries(*old(map)), key@)].1,
{
    map.insert(key, value)
}

/// `IndexMap::len` returns the number of entries.
#[verifier::external_body]
pub(crate) fn text_len(map: &indexmap::IndexMap<String, String>) -> (r: usize)
    ensures
        r == text_entries(*map).len(),
{
    map.len()
}

/// `IndexMap::get_index` returns the entry at a place, or nothing past the end.
#[verifier::external_body]
pub(crate) fn text_entry(map: &indexmap::IndexMap<String, String>, place: usize) -> (r: Option<
    (&String, &String),
>)
    ensures
        r is Some == (place < text_entries(*map).len()),
        r is Some ==> ((r->0).0@, (r->0).1@) == text_entries(*map)[place as int],
{
    map.get_index(place)
}

/// `IndexMap::get` returns the value of a key, or nothing where the key is absent.
#[verifier::external_body]
pub(crate) fn text_get<'a>(map: &'a indexmap::IndexMap<String, String>, key: &str) -> (r: Option<
    &'a String,
>)
    ensures
        r is Some == has_key(text_entries(*map), key@),
        r is Some ==> (r->0)@ == text_entries(*map)[position(text_entries(*map), key@)].1,
{
    map.get(key)
}

/// `str::to_lowercase` maps a text to its Unicode lower case; the mapping has no locale.
pub uninterp spec fn unicode_lower(text: Seq<char>) -> Seq<char>;

/// `str::to_lowercase` returns the Unicode lower case of the text, here under the name
/// `unicode_lower`.
#[verifier::external_body]
pub(crate) fn lower_unicode(text: &str) -> (r: String)
    ensures
        r@ == unicode_lower(text@),
{
    text.to_lowercase()
}

/// Why icon overrides are refused.
#[derive(Debug, Clone, Copy, PartialEq, Eq, Structural)]
pub enum OverrideError {
    /// An entry has no equals sign.
    Form,
    /// A pattern or a path is empty, or an entry holds NUL.
    Content,
    /// A pattern or a path is too long.
    Length,
    /// There are too many patterns.
    Count,
}

/// The part before the first equals sign.
pub open spec fn pattern_part(entry: Seq<char>) -> Seq<char> {
    entry.take(until(entry, '=', '='))
}

/// The part after the first equals sign.
pub open spec fn path_part(entry: Seq<char>) -> Seq<char> {
    entry.skip(until(entry, '=', '=') + 1)
}

/// Why a single entry is refused.
pub open spec fn entry_error(entry: Seq<char>) -> Option<OverrideError> {
    if until(entry, '=', '=') >= entry.len() {
        Some(OverrideError::Form)
    } else if trimmed(pattern_part(entry)).len() == 0 || trimmed(path_part(entry)).len() == 0
        || has_char(entry, '\0') {
        Some(OverrideError::Content)
    } else if utf16_len(pattern_part(entry)) > MAX_NAME_UNITS || utf16_len(path_part(entry))
        > MAX_PATH_UNITS {
        Some(OverrideError::Length)
    } else {
        None
    }
}

/// The overrides after the given entries: the first position and the last value of a pattern win.
pub open spec fn override_map(entries: Seq<Seq<char>>) -> Result<
    Seq<(Seq<char>, Seq<char>)>,
    OverrideError,
>
    decreases entries.len(),
{
    if entries.len() == 0 {
        Ok(seq![])
    } else {
        match override_map(entries.drop_last()) {
            Err(error) => Err(error),
            Ok(map) => {
                let entry = entries.last();
                match entry_error(entry) {
                    Some(error) => Err(error),
                    None => {
                        let next = put(
                            map,
                            unicode_lower(trimmed(pattern_part(entry))),
                            trimmed(path_part(entry)),
                        );
                        if next.len() > MAX_LIST_ITEMS {
                            Err(OverrideError::Count)
                        } else {
                            Ok(next)
                        }
                    },
                }
            },
        }
    }
}

/// The entries of an override list.
pub open spec fn override_items(value: Seq<char>) -> Seq<Seq<char>> {
    visible_parts(pieces(value, ',', ';'))
}

/// The overrides that a text denotes.
pub open spec fn overrides_value(value: Seq<char>) -> Result<
    Seq<(Seq<char>, Seq<char>)>,
    OverrideError,
> {
    override_map(override_items(value))
}

proof fn override_error_stays(entries: Seq<Seq<char>>, n: int)
    requires
        0 <= n <= entries.len(),
        override_map(entries.take(n)) is Err,
    ensures
        override_map(entries) == override_map(entries.take(n)),
    decreases entries.len(),
{
    if n == entries.len() {
        assert(entries.take(n) == entries);
    } else {
        assert(entries.drop_last().take(n) == entries.take(n));
        override_error_stays(entries.drop_last(), n);
    }
}

/// Reads icon overrides, `pattern=path` entries separated by commas or semicolons.
pub fn overrides(value: &str) -> (r: Result<indexmap::IndexMap<String, String>, OverrideError>)
    ensures
        match r {
            Ok(map) => overrides_value(value@) == Ok::<_, OverrideError>(text_entries(map)),
            Err(error) => overrides_value(value@) == Err::<
                Seq<(Seq<char>, Seq<char>)>,
                OverrideError,
            >(error),
        },
{
    let chars = chars_of(value);
    let parts = split_either(chars.as_slice(), ',', ';');
    let items = crate::config::parsers::visible(&parts);
    let ghost all = override_items(value@);
    assert(texts(items@) == all);
    let mut map = text_map();
    assert(override_map(all.take(0)) == Ok::<_, OverrideError>(text_entries(map)));
    for i in 0..items.len()
        invariant
            all == override_items(value@),
            texts(items@) == all,
            override_map(all.take(i as int)) == Ok::<_, OverrideError>(text_entries(map)),
    {
        let entry = items[i].as_slice();
        assert(all[i as int] == entry@);
        assert(all.take(i + 1).drop_last() == all.take(i as int));
        match read_override(entry) {
            Err(error) => {
                proof {
                    override_error_stays(all, i + 1);
                }
                return Err(error);
            },
            Ok((pattern, path)) => {
                let pattern = lower_unicode(pattern.as_str());
                let _ = text_insert(&mut map, pattern, path);
                if text_len(&map) > MAX_LIST_ITEMS {
                    proof {
                        override_error_stays(all, i + 1);
                    }
                    return Err(OverrideError::Count);
                }
            },
        }
    }
    assert(all.take(all.len() as int) == all);
    Ok(map)
}

/// Reads one override entry: its trimmed pattern and path.
pub fn read_override(entry: &[char]) -> (r: Result<(String, String), OverrideError>)
    ensures
        match r {
            Ok((pattern, path)) => entry_error(entry@) is None && pattern@ == trimmed(
                pattern_part(entry@),
            ) && path@ == trimmed(path_part(entry@)),
            Err(error) => entry_error(entry@) == Some(error),
        },
{
    assert(entry@.skip(0) == entry@);
    let at: usize = find_either(entry, 0, '=', '=');
    if at == entry.len() {
        return Err(OverrideError::Form);
    }
    let pattern = part(entry, 0, at);
    let path = part(entry, at + 1, entry.len());
    assert(pattern@ == pattern_part(entry@));
    assert(path@ == path_part(entry@));
    let trimmed_pattern = trim(pattern.as_slice());
    let trimmed_path = trim(path.as_slice());
    if trimmed_pattern.len() == 0 || trimmed_path.len() == 0 || contains_char(entry, '\0') {
        return Err(OverrideError::Content);
    }
    if utf16_longer(pattern.as_slice(), MAX_NAME_UNITS) || utf16_longer(
        path.as_slice(),
        MAX_PATH_UNITS,
    ) {
        return Err(OverrideError::Length);
    }
    Ok((string_of(trimmed_pattern.as_slice()), string_of(trimmed_path.as_slice())))
}

proof fn position_facts(entries: Seq<(Seq<char>, Seq<char>)>, key: Seq<char>)
    ensures
        0 <= position(entries, key) <= entries.len(),
        has_key(entries, key) ==> entries[position(entries, key)].0 == key,
        forall|k: int| 0 <= k < position(entries, key) ==> (#[trigger] entries[k]).0 != key,
    decreases entries.len(),
{
    if entries.len() > 0 && entries[0].0 != key {
        position_facts(entries.drop_first(), key);
        assert forall|k: int| 0 <= k < position(entries, key) implies (#[trigger] entries[k]).0
            != key by {
            if k > 0 {
                assert(entries[k] == entries.drop_first()[k - 1]);
            }
        }
    }
}

/// Overrides hold each pattern once and at most 256 of them.
pub proof fn override_patterns_are_unique(entries: Seq<Seq<char>>)
    requires
        override_map(entries) is Ok,
    ensures
        override_map(entries)->Ok_0.len() <= MAX_LIST_ITEMS,
        forall|i: int, j: int|
            0 <= i < j < override_map(entries)->Ok_0.len() ==> (#[trigger] override_map(
                entries,
            )->Ok_0[i]).0 != (#[trigger] override_map(entries)->Ok_0[j]).0,
    decreases entries.len(),
{
    if entries.len() > 0 {
        override_patterns_are_unique(entries.drop_last());
        let map = override_map(entries.drop_last())->Ok_0;
        let key = unicode_lower(trimmed(pattern_part(entries.last())));
        position_facts(map, key);
        let next = override_map(entries)->Ok_0;
        assert forall|i: int, j: int| 0 <= i < j < next.len() implies (#[trigger] next[i]).0 != (
        #[trigger] next[j]).0 by {
            if i < map.len() && j < map.len() {
                assert(map[i].0 != map[j].0);
                assert(next[i].0 == map[i].0 && next[j].0 == map[j].0);
            } else {
                assert(map[i].0 != key);
            }
        }
    }
}

}
