//! The cache of icons. Its memory is bounded: an icon counts until its last user lets it go, also
//! after it left the cache.

use vstd::prelude::*;

use crate::config::schema::Config;
use crate::text::same_str;
use crate::window_identity::WindowIdentity;

verus! {

/// Width and height of a cached icon.
pub const ICON_PIXELS: u32 = 256;

/// Number of bytes of a cached icon.
pub const ICON_BYTES: u64 = 262144;

/// How long an icon that was found stays valid, in milliseconds.
pub const ICON_TTL_MS: u64 = 30000;

/// What an icon belongs to.
#[derive(Debug, Clone, PartialEq, Eq)]
pub struct IconKey {
    pub group: String,
    pub identity: WindowIdentity,
}

/// The version of a file by its length and times.
#[derive(Debug, Clone, Copy, PartialEq, Eq)]
pub struct FileVersion {
    pub length: u64,
    pub modified: Option<i64>,
    pub created: Option<i64>,
}

/// A file that an icon came from, with the version it had; none where the file was missing.
#[derive(Debug, Clone, PartialEq, Eq)]
pub struct SourceStamp {
    pub path: String,
    pub version: Option<FileVersion>,
}

/// An icon that can be used. Each user has to give it back.
#[derive(Debug, Clone, Copy, PartialEq, Eq)]
pub struct CachedIcon {
    pub id: u64,
    pub revision: u64,
    pub expires: u64,
}

/// An icon in memory: the number of its users outside the cache, and whether the cache holds it.
#[derive(Debug, Clone, Copy, PartialEq, Eq)]
pub struct IconRecord {
    pub id: u64,
    pub users: u64,
    pub cached: bool,
}

/// How a request for an icon begins.
#[derive(Debug, Clone, Copy, PartialEq, Eq)]
pub enum IconBegin {
    /// The cache knows the icon, or that there is none.
    Cached(Option<CachedIcon>),
    /// The icon is to be loaded into the memory that was set aside.
    Load(u64),
    /// All memory is in use.
    Full,
}

/// An entry of the cache; without an icon it stands for a failure.
pub struct Entry {
    pub key: IconKey,
    pub image: Option<CachedIcon>,
    pub sources: Vec<SourceStamp>,
    pub expires: u64,
    pub used: u64,
}

/// A file with the version it had, as a mathematical value.
pub type StampView = (Seq<char>, Option<FileVersion>);

impl View for SourceStamp {
    type V = StampView;

    open spec fn view(&self) -> StampView {
        (self.path@, self.version)
    }
}

/// A key as a mathematical value.
pub type KeyView = (Seq<char>, WindowIdentity);

impl View for IconKey {
    type V = KeyView;

    open spec fn view(&self) -> KeyView {
        (self.group@, self.identity)
    }
}

/// An entry as a mathematical value.
#[verifier::ext_equal]
pub struct EntryView {
    pub key: KeyView,
    pub image: Option<CachedIcon>,
    pub stamps: Seq<StampView>,
    pub expires: u64,
    pub used: u64,
}

/// The files of a list with the versions they had.
pub open spec fn stamps_of(sources: Seq<SourceStamp>) -> Seq<StampView> {
    Seq::new(sources.len(), |i: int| sources[i]@)
}

/// The versions that files had.
pub open spec fn versions_of(stamps: Seq<StampView>) -> Seq<Option<FileVersion>> {
    Seq::new(stamps.len(), |i: int| stamps[i].1)
}

impl View for Entry {
    type V = EntryView;

    open spec fn view(&self) -> EntryView {
        EntryView {
            key: self.key@,
            image: self.image,
            stamps: stamps_of(self.sources@),
            expires: self.expires,
            used: self.used,
        }
    }
}

/// The counters and limits of the cache.
#[derive(Debug, Clone, Copy, PartialEq, Eq)]
pub struct CacheStatus {
    pub limit: u64,
    pub failure_ttl: u64,
    pub byte_limit: u64,
    pub clock: u64,
    pub next_id: u64,
    pub next_revision: u64,
    pub hits: u64,
    pub misses: u64,
    pub failures: u64,
    pub fallbacks: u64,
}

/// The cache as a mathematical value.
#[verifier::ext_equal]
pub struct Cache {
    pub entries: Seq<EntryView>,
    pub icons: Seq<IconRecord>,
    pub status: CacheStatus,
}

/// The place of an icon; the length where it is absent.
pub open spec fn icon_place(icons: Seq<IconRecord>, id: u64) -> int
    decreases icons.len(),
{
    if icons.len() == 0 || icons[0].id == id {
        0
    } else {
        1 + icon_place(icons.drop_first(), id)
    }
}

/// The place of a key; the length where it is absent.
pub open spec fn entry_place(entries: Seq<EntryView>, key: KeyView) -> int
    decreases entries.len(),
{
    if entries.len() == 0 || entries[0].key == key {
        0
    } else {
        1 + entry_place(entries.drop_first(), key)
    }
}

/// The icons after one of them changed; one that nobody needs any more is dropped.
pub open spec fn settled(icons: Seq<IconRecord>, place: int, record: IconRecord) -> Seq<IconRecord> {
    if record.users == 0 && !record.cached {
        icons.remove(place)
    } else {
        icons.update(place, record)
    }
}

/// The icons after the cache let one go.
pub open spec fn uncached(icons: Seq<IconRecord>, image: Option<CachedIcon>) -> Seq<IconRecord> {
    match image {
        Some(icon) => {
            let place = icon_place(icons, icon.id);
            if place < icons.len() {
                settled(icons, place, IconRecord { cached: false, ..icons[place] })
            } else {
                icons
            }
        },
        None => icons,
    }
}

/// The place of the first of the entries that were not used for the longest time.
pub open spec fn oldest(entries: Seq<EntryView>) -> int
    decreases entries.len(),
{
    if entries.len() <= 1 {
        0
    } else {
        let before = oldest(entries.drop_last());
        if entries.last().used < entries[before].used {
            entries.len() - 1
        } else {
            before
        }
    }
}

/// Whether the cache holds an icon in memory.
pub open spec fn holds(icons: Seq<IconRecord>, id: u64) -> bool {
    exists|k: int| 0 <= k < icons.len() && (#[trigger] icons[k]).id == id && icons[k].cached
}

/// Whether every icon of an entry is held in memory, and by one entry only.
pub open spec fn linked(entries: Seq<EntryView>, icons: Seq<IconRecord>) -> bool {
    &&& forall|i: int|
        0 <= i < entries.len() && (#[trigger] entries[i]).image is Some ==> holds(
            icons,
            entries[i].image->0.id,
        )
    &&& forall|i: int, j: int|
        0 <= i < j < entries.len() && (#[trigger] entries[i]).image is Some && (
        #[trigger] entries[j]).image is Some ==> entries[i].image->0.id != entries[j].image->0.id
}

impl Cache {
    /// The invariant: each key and each icon occurs once, an icon is in memory as long as it has
    /// a user or an entry, and the memory is bounded.
    pub open spec fn valid(self) -> bool {
        &&& forall|i: int, j: int|
            0 <= i < j < self.entries.len() ==> (#[trigger] self.entries[i]).key != (
            #[trigger] self.entries[j]).key
        &&& forall|i: int, j: int|
            0 <= i < j < self.icons.len() ==> (#[trigger] self.icons[i]).id != (
            #[trigger] self.icons[j]).id
        &&& forall|i: int|
            0 <= i < self.icons.len() ==> {
                &&& (#[trigger] self.icons[i]).id < self.status.next_id
                &&& self.icons[i].users > 0 || self.icons[i].cached
            }
        &&& self.icons.len() * ICON_BYTES <= self.status.byte_limit
        &&& linked(self.entries, self.icons)
    }

    /// Number of bytes in use.
    pub open spec fn bytes(self) -> int {
        self.icons.len() * ICON_BYTES
    }

    /// The cache without the entry at a place.
    pub open spec fn without(self, place: int) -> Cache {
        Cache {
            entries: self.entries.remove(place),
            icons: uncached(self.icons, self.entries[place].image),
            ..self
        }
    }

    /// The cache without the entry that was not used for the longest time.
    pub open spec fn evicted(self) -> Cache {
        if self.entries.len() == 0 {
            self
        } else {
            self.without(oldest(self.entries))
        }
    }

    /// Whether another icon fits.
    pub open spec fn has_room(self) -> bool {
        self.bytes() + ICON_BYTES <= self.status.byte_limit
    }

    /// The cache after entries were dropped until another icon fits, or none is left.
    pub open spec fn with_room(self) -> Cache
        decreases self.entries.len(),
    {
        if self.has_room() || self.entries.len() == 0 {
            self
        } else {
            proof {
                oldest_facts(self.entries);
            }
            self.evicted().with_room()
        }
    }

    /// The cache after entries were dropped until a new one has a place, or none is left.
    pub open spec fn with_place(self) -> Cache
        decreases self.entries.len(),
    {
        if self.entries.len() < self.status.limit || self.entries.len() == 0 {
            self
        } else {
            proof {
                oldest_facts(self.entries);
            }
            self.evicted().with_place()
        }
    }

    /// The files that the entry of a key came from, with the versions they had.
    pub open spec fn sources_of(self, key: KeyView) -> Option<Seq<StampView>> {
        let place = entry_place(self.entries, key);
        if place < self.entries.len() {
            Some(self.entries[place].stamps)
        } else {
            None
        }
    }

    /// Whether an entry can be used: it is not too old, and its files are unchanged.
    pub open spec fn is_fresh(
        self,
        place: int,
        now: u64,
        versions: Seq<Option<FileVersion>>,
    ) -> bool {
        self.entries[place].expires > now && versions_of(self.entries[place].stamps) == versions
    }

    /// The cache and the result after an icon is looked up.
    pub open spec fn looked_up(
        self,
        key: KeyView,
        now: u64,
        versions: Seq<Option<FileVersion>>,
    ) -> (Cache, Option<Option<CachedIcon>>) {
        let before = self.ticked();
        let place = entry_place(before.entries, key);
        if place < before.entries.len() && before.is_fresh(place, now, versions) {
            (
                Cache {
                    entries: before.entries.update(
                        place,
                        EntryView { used: before.status.clock, ..before.entries[place] },
                    ),
                    icons: shared(before.icons, before.entries[place].image),
                    status: CacheStatus {
                        hits: before.status.hits.wrapping_add(1),
                        ..before.status
                    },
                },
                Some(before.entries[place].image),
            )
        } else {
            let kept = if place < before.entries.len() {
                before.without(place)
            } else {
                before
            };
            (
                Cache {
                    status: CacheStatus {
                        misses: before.status.misses.wrapping_add(1),
                        ..kept.status
                    },
                    ..kept
                },
                None,
            )
        }
    }

    /// The cache and the result after memory is set aside.
    pub open spec fn reserved(self) -> (Cache, Option<u64>) {
        let room = self.with_room();
        if room.has_room() {
            (
                Cache {
                    icons: room.icons.push(
                        IconRecord { id: room.status.next_id, users: 1, cached: false },
                    ),
                    status: CacheStatus {
                        next_id: (room.status.next_id + 1) as u64,
                        ..room.status
                    },
                    ..room
                },
                Some(room.status.next_id),
            )
        } else {
            (room, None)
        }
    }

    /// The cache and the beginning of a request for an icon.
    pub open spec fn begun(
        self,
        key: KeyView,
        now: u64,
        versions: Seq<Option<FileVersion>>,
    ) -> (Cache, IconBegin) {
        let (found, image) = self.looked_up(key, now, versions);
        match image {
            Some(image) => (found, IconBegin::Cached(image)),
            None => {
                let (room, id) = found.reserved();
                match id {
                    Some(id) => (room, IconBegin::Load(id)),
                    None => (
                        inserted(room, key, None, seq![], false, now),
                        IconBegin::Full,
                    ),
                }
            },
        }
    }

    /// The cache with the counter of uses advanced.
    pub open spec fn ticked(self) -> Cache {
        Cache {
            status: CacheStatus { clock: self.status.clock.wrapping_add(1), ..self.status },
            ..self
        }
    }
}

/// The icons after one got another user.
pub open spec fn shared(icons: Seq<IconRecord>, image: Option<CachedIcon>) -> Seq<IconRecord> {
    match image {
        Some(icon) => {
            let place = icon_place(icons, icon.id);
            if place < icons.len() {
                icons.update(
                    place,
                    IconRecord { users: icons[place].users.wrapping_add(1), ..icons[place] },
                )
            } else {
                icons
            }
        },
        None => icons,
    }
}

/// The cache of icons.
pub struct IconCache {
    pub entries: Vec<Entry>,
    pub icons: Vec<IconRecord>,
    pub status: CacheStatus,
}

pub open spec fn entry_views(entries: Seq<Entry>) -> Seq<EntryView> {
    Seq::new(entries.len(), |i: int| entries[i]@)
}

impl View for IconCache {
    type V = Cache;

    open spec fn view(&self) -> Cache {
        Cache { entries: entry_views(self.entries@), icons: self.icons@, status: self.status }
    }
}

proof fn icon_place_facts(icons: Seq<IconRecord>, id: u64)
    ensures
        0 <= icon_place(icons, id) <= icons.len(),
        icon_place(icons, id) < icons.len() ==> icons[icon_place(icons, id)].id == id,
        forall|i: int| 0 <= i < icon_place(icons, id) ==> (#[trigger] icons[i]).id != id,
    decreases icons.len(),
{
    if icons.len() > 0 && icons[0].id != id {
        let rest = icons.drop_first();
        icon_place_facts(rest, id);
        assert forall|i: int| 0 <= i < icon_place(icons, id) implies (#[trigger] icons[i]).id
            != id by {
            if i > 0 {
                assert(icons[i] == rest[i - 1]);
            }
        }
        if icon_place(icons, id) < icons.len() {
            assert(icons[icon_place(icons, id)] == rest[icon_place(rest, id)]);
        }
    }
}

proof fn entry_place_facts(entries: Seq<EntryView>, key: KeyView)
    ensures
        0 <= entry_place(entries, key) <= entries.len(),
        entry_place(entries, key) < entries.len() ==> entries[entry_place(entries, key)].key
            == key,
        forall|i: int| 0 <= i < entry_place(entries, key) ==> (#[trigger] entries[i]).key != key,
    decreases entries.len(),
{
    if entries.len() > 0 && entries[0].key != key {
        let rest = entries.drop_first();
        entry_place_facts(rest, key);
        assert forall|i: int| 0 <= i < entry_place(entries, key) implies (
        #[trigger] entries[i]).key != key by {
            if i > 0 {
                assert(entries[i] == rest[i - 1]);
            }
        }
        if entry_place(entries, key) < entries.len() {
            assert(entries[entry_place(entries, key)] == rest[entry_place(rest, key)]);
        }
    }
}

/// The oldest entry is one of the entries, and none was used before it.
pub proof fn oldest_facts(entries: Seq<EntryView>)
    requires
        entries.len() > 0,
    ensures
        0 <= oldest(entries) < entries.len(),
        forall|i: int|
            0 <= i < entries.len() ==> entries[oldest(entries)].used <= (
            #[trigger] entries[i]).used,
    decreases entries.len(),
{
    if entries.len() > 1 {
        let rest = entries.drop_last();
        oldest_facts(rest);
        assert forall|i: int| 0 <= i < entries.len() implies entries[oldest(entries)].used <= (
        #[trigger] entries[i]).used by {
            if i < rest.len() {
                assert(entries[i] == rest[i]);
                assert(rest[oldest(rest)].used <= rest[i].used);
            }
        }
    }
}

proof fn settled_keeps(icons: Seq<IconRecord>, place: int, record: IconRecord, next_id: u64)
    requires
        0 <= place < icons.len(),
        record.id == icons[place].id,
        forall|i: int, j: int|
            0 <= i < j < icons.len() ==> (#[trigger] icons[i]).id != (#[trigger] icons[j]).id,
        forall|i: int|
            0 <= i < icons.len() ==> {
                &&& (#[trigger] icons[i]).id < next_id
                &&& icons[i].users > 0 || icons[i].cached || i == place
            },
    ensures
        forall|i: int, j: int|
            0 <= i < j < settled(icons, place, record).len() ==> (#[trigger] settled(
                icons,
                place,
                record,
            )[i]).id != (#[trigger] settled(icons, place, record)[j]).id,
        forall|i: int|
            0 <= i < settled(icons, place, record).len() ==> {
                &&& (#[trigger] settled(icons, place, record)[i]).id < next_id
                &&& settled(icons, place, record)[i].users > 0 || settled(
                    icons,
                    place,
                    record,
                )[i].cached
            },
        settled(icons, place, record).len() <= icons.len(),
{
    let after = settled(icons, place, record);
    if record.users == 0 && !record.cached {
        assert forall|i: int, j: int| 0 <= i < j < after.len() implies (#[trigger] after[i]).id != (
        #[trigger] after[j]).id by {
            let a = if i < place {
                i
            } else {
                i + 1
            };
            let b = if j < place {
                j
            } else {
                j + 1
            };
            assert(after[i] == icons[a] && after[j] == icons[b]);
        }
        assert forall|i: int| 0 <= i < after.len() implies {
            &&& (#[trigger] after[i]).id < next_id
            &&& after[i].users > 0 || after[i].cached
        } by {
            let a = if i < place {
                i
            } else {
                i + 1
            };
            assert(after[i] == icons[a]);
        }
    } else {
        assert forall|i: int, j: int| 0 <= i < j < after.len() implies (#[trigger] after[i]).id != (
        #[trigger] after[j]).id by {
            assert(icons[i].id != icons[j].id);
        }
        assert forall|i: int| 0 <= i < after.len() implies {
            &&& (#[trigger] after[i]).id < next_id
            &&& after[i].users > 0 || after[i].cached
        } by {
            assert(icons[i].id < next_id);
        }
    }
}

proof fn settled_holds(icons: Seq<IconRecord>, place: int, record: IconRecord, id: u64)
    requires
        0 <= place < icons.len(),
        holds(icons, id),
        icons[place].id != id || record == (IconRecord { cached: true, id, ..record }),
    ensures
        holds(settled(icons, place, record), id),
{
    let k = choose|k: int| 0 <= k < icons.len() && (#[trigger] icons[k]).id == id && icons[k].cached;
    let after = settled(icons, place, record);
    if record.users == 0 && !record.cached {
        let at = if k < place {
            k
        } else {
            k - 1
        };
        assert(after[at] == icons[k]);
    } else {
        assert(after[k].id == id && after[k].cached);
    }
}

proof fn removal_keeps_links(cache: Cache, place: int)
    requires
        cache.valid(),
        0 <= place < cache.entries.len(),
    ensures
        linked(cache.without(place).entries, cache.without(place).icons),
{
    let entries = cache.entries;
    let after = cache.without(place).entries;
    let icons = cache.without(place).icons;
    assert forall|i: int| 0 <= i < after.len() && (#[trigger] after[i]).image is Some implies holds(
        icons,
        after[i].image->0.id,
    ) by {
        let a = if i < place {
            i
        } else {
            i + 1
        };
        assert(after[i] == entries[a]);
        let id = entries[a].image->0.id;
        assert(holds(cache.icons, id));
        match entries[place].image {
            Some(icon) => {
                assert(icon.id != id) by {
                    if a < place {
                        assert(entries[a].image->0.id != entries[place].image->0.id);
                    } else {
                        assert(entries[place].image->0.id != entries[a].image->0.id);
                    }
                }
                icon_place_facts(cache.icons, icon.id);
                let at = icon_place(cache.icons, icon.id);
                if at < cache.icons.len() {
                    settled_holds(
                        cache.icons,
                        at,
                        IconRecord { cached: false, ..cache.icons[at] },
                        id,
                    );
                }
            },
            None => {},
        }
    }
    assert forall|i: int, j: int|
        0 <= i < j < after.len() && (#[trigger] after[i]).image is Some && (
        #[trigger] after[j]).image is Some implies after[i].image->0.id != after[j].image->0.id by {
        let a = if i < place {
            i
        } else {
            i + 1
        };
        let b = if j < place {
            j
        } else {
            j + 1
        };
        assert(after[i] == entries[a] && after[j] == entries[b]);
    }
}

proof fn links_follow(
    entries: Seq<EntryView>,
    icons: Seq<IconRecord>,
    later_entries: Seq<EntryView>,
    later_icons: Seq<IconRecord>,
)
    requires
        linked(entries, icons),
        later_entries.len() == entries.len(),
        forall|i: int|
            0 <= i < entries.len() ==> (#[trigger] later_entries[i]).image == entries[i].image,
        forall|id: u64| #[trigger] holds(icons, id) ==> holds(later_icons, id),
    ensures
        linked(later_entries, later_icons),
{
    assert forall|i: int|
        0 <= i < later_entries.len() && (
        #[trigger] later_entries[i]).image is Some implies holds(
        later_icons,
        later_entries[i].image->0.id,
    ) by {
        assert(later_entries[i].image == entries[i].image);
        assert(holds(icons, entries[i].image->0.id));
    }
    assert forall|i: int, j: int|
        0 <= i < j < later_entries.len() && (#[trigger] later_entries[i]).image is Some && (
        #[trigger] later_entries[j]).image is Some implies later_entries[i].image->0.id
        != later_entries[j].image->0.id by {
        assert(later_entries[i].image == entries[i].image);
        assert(later_entries[j].image == entries[j].image);
    }
}

proof fn update_holds(icons: Seq<IconRecord>, place: int, record: IconRecord)
    requires
        0 <= place < icons.len(),
        record.id == icons[place].id,
        icons[place].cached ==> record.cached,
    ensures
        forall|id: u64| #[trigger] holds(icons, id) ==> holds(icons.update(place, record), id),
{
    assert forall|id: u64| #[trigger] holds(icons, id) implies holds(
        icons.update(place, record),
        id,
    ) by {
        let k = choose|k: int|
            0 <= k < icons.len() && (#[trigger] icons[k]).id == id && icons[k].cached;
        let after = icons.update(place, record);
        assert(after[k].id == id && after[k].cached);
    }
}

proof fn push_holds(icons: Seq<IconRecord>, record: IconRecord)
    ensures
        forall|id: u64| #[trigger] holds(icons, id) ==> holds(icons.push(record), id),
{
    assert forall|id: u64| #[trigger] holds(icons, id) implies holds(icons.push(record), id) by {
        let k = choose|k: int|
            0 <= k < icons.len() && (#[trigger] icons[k]).id == id && icons[k].cached;
        let after = icons.push(record);
        assert(after[k].id == id && after[k].cached);
    }
}

/// Whether an icon is in memory with a user, and not held by the cache.
pub open spec fn unclaimed(icons: Seq<IconRecord>, id: u64) -> bool {
    exists|k: int|
        0 <= k < icons.len() && (#[trigger] icons[k]).id == id && icons[k].users > 0
            && !icons[k].cached
}

proof fn unclaimed_is_free(cache: Cache, id: u64)
    requires
        cache.valid(),
        unclaimed(cache.icons, id),
    ensures
        !holds(cache.icons, id),
        forall|i: int|
            0 <= i < cache.entries.len() && (
            #[trigger] cache.entries[i]).image is Some ==> cache.entries[i].image->0.id != id,
        icon_place(cache.icons, id) < cache.icons.len(),
        cache.icons[icon_place(cache.icons, id)].users > 0,
        !cache.icons[icon_place(cache.icons, id)].cached,
{
    let icons = cache.icons;
    let k = choose|k: int|
        0 <= k < icons.len() && (#[trigger] icons[k]).id == id && icons[k].users > 0
            && !icons[k].cached;
    icon_place_facts(icons, id);
    let at = icon_place(icons, id);
    assert(at == k) by {
        if at < k {
            assert(icons[at].id != icons[k].id);
        }
    }
    if holds(icons, id) {
        let h = choose|h: int|
            0 <= h < icons.len() && (#[trigger] icons[h]).id == id && icons[h].cached;
        if h < k {
            assert(icons[h].id != icons[k].id);
        } else {
            assert(icons[k].id != icons[h].id);
        }
    }
}

proof fn removal_keeps_unclaimed(cache: Cache, place: int, id: u64)
    requires
        cache.valid(),
        0 <= place < cache.entries.len(),
        unclaimed(cache.icons, id),
    ensures
        unclaimed(cache.without(place).icons, id),
{
    unclaimed_is_free(cache, id);
    let icons = cache.icons;
    let k = icon_place(icons, id);
    icon_place_facts(icons, id);
    let after = cache.without(place).icons;
    match cache.entries[place].image {
        Some(icon) => {
            assert(icon.id != id);
            icon_place_facts(icons, icon.id);
            let at = icon_place(icons, icon.id);
            if at < icons.len() {
                if icons[at].users == 0 {
                    let i = if k < at {
                        k
                    } else {
                        k - 1
                    };
                    assert(after[i] == icons[k]);
                } else {
                    assert(after[k] == icons[k]);
                }
            } else {
                assert(after[k] == icons[k]);
            }
        },
        None => {
            assert(after[k] == icons[k]);
        },
    }
}

proof fn with_place_keeps_unclaimed(cache: Cache, id: u64)
    requires
        cache.valid(),
        unclaimed(cache.icons, id),
    ensures
        unclaimed(cache.with_place().icons, id),
    decreases cache.entries.len(),
{
    if !(cache.entries.len() < cache.status.limit || cache.entries.len() == 0) {
        oldest_facts(cache.entries);
        let place = oldest(cache.entries);
        without_keeps(cache, place);
        removal_keeps_unclaimed(cache, place, id);
        with_place_keeps_unclaimed(cache.evicted(), id);
    }
}

proof fn taking_up_links(cache: Cache, entry: EntryView)
    requires
        cache.valid(),
        entry.image is Some ==> unclaimed(cache.icons, entry.image->0.id),
    ensures
        linked(cache.entries.push(entry), taken_up(cache.icons, entry.image)),
{
    let entries = cache.entries.push(entry);
    let icons = taken_up(cache.icons, entry.image);
    match entry.image {
        Some(icon) => {
            unclaimed_is_free(cache, icon.id);
            icon_place_facts(cache.icons, icon.id);
            let at = icon_place(cache.icons, icon.id);
            update_holds(cache.icons, at, IconRecord { cached: true, ..cache.icons[at] });
            assert(icons[at].id == icon.id && icons[at].cached);
            assert(holds(icons, icon.id));
        },
        None => {},
    }
    assert forall|i: int|
        0 <= i < entries.len() && (#[trigger] entries[i]).image is Some implies holds(
        icons,
        entries[i].image->0.id,
    ) by {
        if i < cache.entries.len() {
            assert(entries[i] == cache.entries[i]);
            assert(holds(cache.icons, cache.entries[i].image->0.id));
        }
    }
    assert forall|i: int, j: int|
        0 <= i < j < entries.len() && (#[trigger] entries[i]).image is Some && (
        #[trigger] entries[j]).image is Some implies entries[i].image->0.id
        != entries[j].image->0.id by {
        assert(entries[i] == cache.entries[i]);
        if j < cache.entries.len() {
            assert(entries[j] == cache.entries[j]);
        }
    }
}

proof fn removal_keeps_keys(entries: Seq<EntryView>, place: int)
    requires
        0 <= place < entries.len(),
        forall|i: int, j: int|
            0 <= i < j < entries.len() ==> (#[trigger] entries[i]).key != (
            #[trigger] entries[j]).key,
    ensures
        forall|i: int, j: int|
            0 <= i < j < entries.remove(place).len() ==> (#[trigger] entries.remove(
                place,
            )[i]).key != (#[trigger] entries.remove(place)[j]).key,
{
    let after = entries.remove(place);
    assert forall|i: int, j: int| 0 <= i < j < after.len() implies (#[trigger] after[i]).key != (
    #[trigger] after[j]).key by {
        let a = if i < place {
            i
        } else {
            i + 1
        };
        let b = if j < place {
            j
        } else {
            j + 1
        };
        assert(after[i] == entries[a] && after[j] == entries[b]);
    }
}

proof fn without_keeps(cache: Cache, place: int)
    requires
        cache.valid(),
        0 <= place < cache.entries.len(),
    ensures
        cache.without(place).valid(),
{
    removal_keeps_keys(cache.entries, place);
    removal_keeps_links(cache, place);
    match cache.entries[place].image {
        Some(icon) => {
            icon_place_facts(cache.icons, icon.id);
            let at = icon_place(cache.icons, icon.id);
            if at < cache.icons.len() {
                let record = IconRecord { cached: false, ..cache.icons[at] };
                settled_keeps(cache.icons, at, record, cache.status.next_id);
            }
        },
        None => {},
    }
}

impl IconCache {
    pub fn new(config: &Config) -> (r: Self)
        ensures
            r@.valid(),
            r@ == (Cache {
                entries: seq![],
                icons: seq![],
                status: CacheStatus {
                    limit: config.icon_cache_limit as u64,
                    failure_ttl: config.icon_failure_ttl_ms as u64,
                    byte_limit: (config.icon_cache_mb * 1048576) as u64,
                    clock: 0,
                    next_id: 0,
                    next_revision: 1,
                    hits: 0,
                    misses: 0,
                    failures: 0,
                    fallbacks: 0,
                },
            }),
    {
        let r = IconCache {
            entries: Vec::new(),
            icons: Vec::new(),
            status: CacheStatus {
                limit: config.icon_cache_limit as u64,
                failure_ttl: config.icon_failure_ttl_ms as u64,
                byte_limit: config.icon_cache_mb as u64 * 1048576,
                clock: 0,
                next_id: 0,
                next_revision: 1,
                hits: 0,
                misses: 0,
                failures: 0,
                fallbacks: 0,
            },
        };
        assert(r@.entries =~= seq![]);
        assert(r@.icons =~= seq![]);
        r
    }

    fn place_of(&self, key: &IconKey) -> (r: usize)
        ensures
            r == entry_place(self@.entries, key@),
            r <= self@.entries.len(),
    {
        let ghost all = self@.entries;
        proof {
            entry_place_facts(all, key@);
        }
        for i in 0..self.entries.len()
            invariant
                all == self@.entries,
                0 <= entry_place(all, key@) <= all.len(),
                entry_place(all, key@) < all.len() ==> all[entry_place(all, key@)].key == key@,
                forall|k: int|
                    0 <= k < entry_place(all, key@) ==> (#[trigger] all[k]).key != key@,
                i <= entry_place(all, key@),
        {
            assert(all[i as int] == self.entries@[i as int]@);
            if self.entries[i].key.identity == key.identity && same_str(
                self.entries[i].key.group.as_str(),
                key.group.as_str(),
            ) {
                return i;
            }
        }
        self.entries.len()
    }

    fn icon_index(&self, id: u64) -> (r: usize)
        ensures
            r == icon_place(self@.icons, id),
            r <= self@.icons.len(),
    {
        proof {
            icon_place_facts(self@.icons, id);
        }
        for i in 0..self.icons.len()
            invariant
                0 <= icon_place(self@.icons, id) <= self@.icons.len(),
                icon_place(self@.icons, id) < self@.icons.len() ==> self@.icons[icon_place(
                    self@.icons,
                    id,
                )].id == id,
                forall|k: int|
                    0 <= k < icon_place(self@.icons, id) ==> (#[trigger] self@.icons[k]).id != id,
                i <= icon_place(self@.icons, id),
        {
            if self.icons[i].id == id {
                return i;
            }
        }
        self.icons.len()
    }

    fn settle(&mut self, place: usize, record: IconRecord)
        requires
            place < old(self)@.icons.len(),
        ensures
            final(self)@ == (Cache {
                icons: settled(old(self)@.icons, place as int, record),
                ..old(self)@
            }),
    {
        if record.users == 0 && !record.cached {
            self.icons.remove(place);
        } else {
            self.icons.set(place, record);
        }
    }

    fn remove_entry(&mut self, place: usize)
        requires
            old(self)@.valid(),
            place < old(self)@.entries.len(),
        ensures
            final(self)@.valid(),
            final(self)@ == old(self)@.without(place as int),
    {
        proof {
            without_keeps(self@, place as int);
        }
        let ghost before = self@;
        let entry = self.entries.remove(place);
        assert(before.entries[place as int] == entry@);
        assert(self@.entries =~= before.entries.remove(place as int));
        match entry.image {
            Some(icon) => {
                let at = self.icon_index(icon.id);
                if at < self.icons.len() {
                    let record = self.icons[at];
                    self.settle(
                        at,
                        IconRecord { id: record.id, users: record.users, cached: false },
                    );
                }
            },
            None => {},
        }
    }

    /// The files that the entry of a key came from; their present versions decide on its use.
    pub fn sources(&self, key: &IconKey) -> (r: Option<&Vec<SourceStamp>>)
        ensures
            match r {
                Some(sources) => self@.sources_of(key@) == Some(stamps_of(sources@)),
                None => self@.sources_of(key@) is None,
            },
    {
        let place = self.place_of(key);
        if place < self.entries.len() {
            assert(self@.entries[place as int] == self.entries@[place as int]@);
            Some(&self.entries[place].sources)
        } else {
            None
        }
    }

    /// Looks an icon up; the result has one more user. An entry that is too old or whose files
    /// changed is dropped. The outer `None` stands for an absent entry, the inner for a failure.
    pub fn get(&mut self, key: &IconKey, now: u64, versions: &[Option<FileVersion>]) -> (r: Option<
        Option<CachedIcon>,
    >)
        requires
            old(self)@.valid(),
            forall|i: int|
                0 <= i < old(self)@.icons.len() ==> (#[trigger] old(self)@.icons[i]).users
                    < u64::MAX,
        ensures
            final(self)@.valid(),
            (final(self)@, r) == old(self)@.looked_up(key@, now, versions@),
    {
        self.status.clock = self.status.clock.wrapping_add(1);
        let ghost before = self@;
        assert(before =~= old(self)@.ticked());
        let place = self.place_of(key);
        if place < self.entries.len() {
            assert(before.entries[place as int] == self.entries@[place as int]@);
            let entry = &self.entries[place];
            let image = entry.image;
            if entry.expires > now && same_versions(&entry.sources, versions) {
                let mut entry = self.entries.remove(place);
                entry.used = self.status.clock;
                self.entries.insert(place, entry);
                self.status.hits = self.status.hits.wrapping_add(1);
                assert(self@.entries =~= before.entries.update(
                    place as int,
                    EntryView { used: before.status.clock, ..before.entries[place as int] },
                ));
                match image {
                    Some(icon) => {
                        let at = self.icon_index(icon.id);
                        if at < self.icons.len() {
                            let record = self.icons[at];
                            assert(old(self)@.icons[at as int].users < u64::MAX);
                            let next = IconRecord {
                                id: record.id,
                                users: record.users.wrapping_add(1),
                                cached: record.cached,
                            };
                            proof {
                                update_holds(before.icons, at as int, next);
                            }
                            self.icons.set(at, next);
                        }
                    },
                    None => {},
                }
                proof {
                    links_follow(before.entries, before.icons, self@.entries, self@.icons);
                }
                return Some(image);
            }
            self.remove_entry(place);
        }
        self.status.misses = self.status.misses.wrapping_add(1);
        None
    }

    fn evict(&mut self) -> (r: bool)
        requires
            old(self)@.valid(),
        ensures
            final(self)@.valid(),
            final(self)@ == old(self)@.evicted(),
            r == (old(self)@.entries.len() > 0),
            r ==> final(self)@.entries.len() < old(self)@.entries.len(),
    {
        if self.entries.len() == 0 {
            return false;
        }
        let ghost all = self@.entries;
        let mut place: usize = 0;
        let mut i: usize = 1;
        proof {
            oldest_facts(all);
            assert(all.take(1).len() == 1);
        }
        while i < self.entries.len()
            invariant
                1 <= i <= all.len(),
                all == self@.entries,
                all.len() == self.entries@.len(),
                place == oldest(all.take(i as int)),
                place < i,
            decreases all.len() - i,
        {
            assert(all.take(i + 1).drop_last() =~= all.take(i as int));
            assert(all[i as int] == self.entries@[i as int]@);
            assert(all[place as int] == self.entries@[place as int]@);
            assert(all.take(i + 1).last() == all[i as int]);
            if self.entries[i].used < self.entries[place].used {
                place = i;
            }
            i = i + 1;
        }
        assert(all.take(all.len() as int) =~= all);
        self.remove_entry(place);
        true
    }

    /// Sets memory aside for an icon; it has one user, who has to give it back. Entries are
    /// dropped, the longest unused first, until it fits; none where it still does not.
    pub fn reserve(&mut self) -> (r: Option<u64>)
        requires
            old(self)@.valid(),
            old(self)@.status.next_id < u64::MAX,
        ensures
            final(self)@.valid(),
            (final(self)@, r) == old(self)@.reserved(),
            final(self)@.status == (CacheStatus {
                next_id: final(self)@.status.next_id,
                ..old(self)@.status
            }),
    {
        loop
            invariant
                self@.valid(),
                self@.with_room() == old(self)@.with_room(),
                self@.status == old(self)@.status,
                self@.status.next_id < u64::MAX,
            decreases self@.entries.len(),
        {
            assert(self@.icons.len() == self.icons@.len());
            let used: u128 = self.icons.len() as u128 * ICON_BYTES as u128;
            if used + ICON_BYTES as u128 <= self.status.byte_limit as u128 {
                let id = self.status.next_id;
                let ghost before = self@;
                self.icons.push(IconRecord { id, users: 1, cached: false });
                self.status.next_id = id + 1;
                proof {
                    push_holds(before.icons, IconRecord { id, users: 1, cached: false });
                    links_follow(before.entries, before.icons, self@.entries, self@.icons);
                }
                return Some(id);
            }
            let ghost before = self@;
            if !self.evict() {
                return None;
            }
        }
    }

    /// Puts an icon, or the failure to find one, into the cache; returns the icon, which keeps its
    /// user. The entry that was not used for the longest time makes way.
    pub fn insert(
        &mut self,
        key: IconKey,
        image: Option<u64>,
        sources: Vec<SourceStamp>,
        succeeded: bool,
        now: u64,
    ) -> (r: Option<CachedIcon>)
        requires
            old(self)@.valid(),
            now <= u64::MAX - ICON_TTL_MS,
            now <= u64::MAX - old(self)@.status.failure_ttl,
            image is Some ==> unclaimed(old(self)@.icons, image->0),
        ensures
            final(self)@.valid(),
            r == inserted_icon(old(self)@, image, succeeded, now),
            final(self)@ == inserted(
                old(self)@,
                key@,
                image,
                stamps_of(sources@),
                succeeded,
                now,
            ),
    {
        if !succeeded || image.is_none() {
            self.status.failures = self.status.failures.wrapping_add(1);
        }
        if !succeeded && image.is_some() {
            self.status.fallbacks = self.status.fallbacks.wrapping_add(1);
        }
        let ttl: u64 = if succeeded && image.is_some() {
            ICON_TTL_MS
        } else {
            self.status.failure_ttl
        };
        let expires: u64 = now + ttl;
        let revision = self.status.next_revision;
        let icon = match image {
            Some(id) => {
                self.status.next_revision = self.status.next_revision.wrapping_add(1);
                Some(CachedIcon { id, revision, expires })
            },
            None => None,
        };
        assert(self@ =~= counted(old(self)@, image, succeeded));
        assert(icon == inserted_icon(old(self)@, image, succeeded, now));
        let place = self.place_of(&key);
        let ghost start = self@;
        if place < self.entries.len() {
            self.remove_entry(place);
        } else {
            loop
                invariant_except_break
                    self@.valid(),
                    self@.with_place() == start.with_place(),
                    self@.status == start.status,
                ensures
                    self@.valid(),
                    self@ == start.with_place(),
                decreases self@.entries.len(),
            {
                if (self.entries.len() as u64) < self.status.limit {
                    break;
                }
                if !self.evict() {
                    break;
                }
            }
        }
        let ghost room = self@;
        assert(room == make_place(start, key@));
        proof {
            make_place_facts(start, key@);
            if let Some(id) = image {
                entry_place_facts(start.entries, key@);
                if entry_place(start.entries, key@) < start.entries.len() {
                    removal_keeps_unclaimed(start, entry_place(start.entries, key@), id);
                } else {
                    with_place_keeps_unclaimed(start, id);
                }
                unclaimed_is_free(room, id);
            }
        }
        self.status.clock = self.status.clock.wrapping_add(1);
        match icon {
            Some(icon) => {
                let at = self.icon_index(icon.id);
                if at < self.icons.len() {
                    let record = self.icons[at];
                    self.icons.set(
                        at,
                        IconRecord { id: record.id, users: record.users, cached: true },
                    );
                }
            },
            None => {},
        }
        let entry = Entry { key, image: icon, sources, expires, used: self.status.clock };
        let ghost added = entry@;
        self.entries.push(entry);
        proof {
            assert(self@.entries =~= room.entries.push(added));
            assert(self@.icons =~= taken_up(room.icons, icon));
            taking_up_links(room, added);
        }
        icon
    }

    /// Begins with a request for an icon. A failure to set memory aside is remembered like any
    /// other.
    pub fn begin(&mut self, key: IconKey, now: u64, versions: &[Option<FileVersion>]) -> (r:
        IconBegin)
        requires
            old(self)@.valid(),
            old(self)@.status.next_id < u64::MAX,
            now <= u64::MAX - ICON_TTL_MS,
            now <= u64::MAX - old(self)@.status.failure_ttl,
            forall|i: int|
                0 <= i < old(self)@.icons.len() ==> (#[trigger] old(self)@.icons[i]).users
                    < u64::MAX,
        ensures
            final(self)@.valid(),
            (final(self)@, r) == old(self)@.begun(key@, now, versions@),
            r matches IconBegin::Load(id) ==> unclaimed(final(self)@.icons, id),
    {
        match self.get(&key, now, versions) {
            Some(image) => IconBegin::Cached(image),
            None => match self.reserve() {
                Some(id) => {
                    assert(self@.icons.last().id == id);
                    IconBegin::Load(id)
                },
                None => {
                    let sources: Vec<SourceStamp> = Vec::new();
                    assert(stamps_of(sources@) =~= seq![]);
                    let _ = self.insert(key, None, sources, false, now);
                    IconBegin::Full
                },
            },
        }
    }

    /// Takes note of another user of an icon.
    pub fn retain(&mut self, id: u64) -> (r: bool)
        requires
            old(self)@.valid(),
            forall|i: int|
                0 <= i < old(self)@.icons.len() ==> (#[trigger] old(self)@.icons[i]).users
                    < u64::MAX,
        ensures
            final(self)@.valid(),
            ({
                let place = icon_place(old(self)@.icons, id);
                if place < old(self)@.icons.len() {
                    &&& r
                    &&& final(self)@ == (Cache {
                        icons: old(self)@.icons.update(
                            place,
                            IconRecord {
                                users: (old(self)@.icons[place].users + 1) as u64,
                                ..old(self)@.icons[place]
                            },
                        ),
                        ..old(self)@
                    })
                } else {
                    !r && final(self)@ == old(self)@
                }
            }),
    {
        let at = self.icon_index(id);
        if at >= self.icons.len() {
            return false;
        }
        let record = self.icons[at];
        assert(old(self)@.icons[at as int].users < u64::MAX);
        let next = IconRecord { id: record.id, users: record.users + 1, cached: record.cached };
        proof {
            update_holds(self@.icons, at as int, next);
        }
        self.icons.set(at, next);
        proof {
            links_follow(old(self)@.entries, old(self)@.icons, self@.entries, self@.icons);
        }
        true
    }

    /// Takes note that a user let an icon go. The memory is free when the last one did and the
    /// cache does not hold the icon either.
    pub fn release(&mut self, id: u64) -> (r: bool)
        requires
            old(self)@.valid(),
        ensures
            final(self)@.valid(),
            ({
                let place = icon_place(old(self)@.icons, id);
                if place < old(self)@.icons.len() && old(self)@.icons[place].users > 0 {
                    &&& r
                    &&& final(self)@ == old(self)@.released(place)
                } else {
                    !r && final(self)@ == old(self)@
                }
            }),
    {
        let at = self.icon_index(id);
        if at >= self.icons.len() || self.icons[at].users == 0 {
            return false;
        }
        let record = self.icons[at];
        let next = IconRecord { id: record.id, users: record.users - 1, cached: record.cached };
        proof {
            settled_keeps(self@.icons, at as int, next, self@.status.next_id);
            icon_place_facts(self@.icons, id);
            let icons = self@.icons;
            let after = settled(icons, at as int, next);
            assert forall|other: u64| #[trigger] holds(icons, other) implies holds(
                after,
                other,
            ) by {
                if other == id {
                    let k = choose|k: int|
                        0 <= k < icons.len() && (#[trigger] icons[k]).id == id && icons[k].cached;
                    if k < at {
                        assert(icons[k].id != icons[at as int].id);
                    } else if at < k {
                        assert(icons[at as int].id != icons[k].id);
                    }
                }
                settled_holds(icons, at as int, next, other);
            }
        }
        self.settle(at, next);
        proof {
            links_follow(old(self)@.entries, old(self)@.icons, self@.entries, self@.icons);
        }
        true
    }

    /// Number of bytes in use.
    pub fn bytes(&self) -> (r: u64)
        requires
            self@.valid(),
        ensures
            r == self@.bytes(),
    {
        self.icons.len() as u64 * ICON_BYTES
    }

    pub fn len(&self) -> (r: usize)
        ensures
            r == self@.entries.len(),
    {
        self.entries.len()
    }
}

impl Cache {
    /// The cache after a user let the icon at a place go.
    pub open spec fn released(self, place: int) -> Cache {
        Cache {
            icons: settled(
                self.icons,
                place,
                IconRecord {
                    users: (self.icons[place].users - 1) as u64,
                    ..self.icons[place]
                },
            ),
            ..self
        }
    }
}

fn same_versions(sources: &Vec<SourceStamp>, versions: &[Option<FileVersion>]) -> (r: bool)
    ensures
        r == (versions_of(stamps_of(sources@)) == versions@),
{
    if sources.len() != versions.len() {
        assert(versions_of(stamps_of(sources@)).len() != versions@.len());
        return false;
    }
    for i in 0..sources.len()
        invariant
            sources@.len() == versions@.len(),
            forall|k: int| 0 <= k < i ==> (#[trigger] sources@[k]).version == versions@[k],
    {
        if !same_version(sources[i].version, versions[i]) {
            assert(versions_of(stamps_of(sources@))[i as int] != versions@[i as int]);
            return false;
        }
    }
    assert(versions_of(stamps_of(sources@)) =~= versions@);
    true
}

fn same_time(a: Option<i64>, b: Option<i64>) -> (r: bool)
    ensures
        r == (a == b),
{
    match (a, b) {
        (Some(a), Some(b)) => a == b,
        (None, None) => true,
        _ => false,
    }
}

fn same_version(a: Option<FileVersion>, b: Option<FileVersion>) -> (r: bool)
    ensures
        r == (a == b),
{
    match (a, b) {
        (Some(a), Some(b)) => a.length == b.length && same_time(a.modified, b.modified)
            && same_time(a.created, b.created),
        (None, None) => true,
        _ => false,
    }
}

/// The cache with a new result counted.
pub open spec fn counted(cache: Cache, image: Option<u64>, succeeded: bool) -> Cache {
    let status = cache.status;
    Cache {
        status: CacheStatus {
            failures: if !succeeded || image is None {
                status.failures.wrapping_add(1)
            } else {
                status.failures
            },
            fallbacks: if !succeeded && image is Some {
                status.fallbacks.wrapping_add(1)
            } else {
                status.fallbacks
            },
            next_revision: if image is Some {
                status.next_revision.wrapping_add(1)
            } else {
                status.next_revision
            },
            ..status
        },
        ..cache
    }
}

/// The icon of a new entry: what was found stays valid for half a minute, anything else only for
/// the time of a failure.
pub open spec fn inserted_icon(
    cache: Cache,
    image: Option<u64>,
    succeeded: bool,
    now: u64,
) -> Option<CachedIcon> {
    match image {
        Some(id) => Some(
            CachedIcon {
                id,
                revision: cache.status.next_revision,
                expires: entry_expires(cache, image, succeeded, now),
            },
        ),
        None => None,
    }
}

pub open spec fn entry_expires(
    cache: Cache,
    image: Option<u64>,
    succeeded: bool,
    now: u64,
) -> u64 {
    (now + (if succeeded && image is Some {
        ICON_TTL_MS
    } else {
        cache.status.failure_ttl
    })) as u64
}

/// The cache with a place for an entry: the entry of the same key goes, or the oldest ones.
pub open spec fn make_place(cache: Cache, key: KeyView) -> Cache {
    let place = entry_place(cache.entries, key);
    if place < cache.entries.len() {
        cache.without(place)
    } else {
        cache.with_place()
    }
}

/// The icons after the cache took one up.
pub open spec fn taken_up(icons: Seq<IconRecord>, image: Option<CachedIcon>) -> Seq<IconRecord> {
    match image {
        Some(icon) => {
            let place = icon_place(icons, icon.id);
            if place < icons.len() {
                icons.update(place, IconRecord { cached: true, ..icons[place] })
            } else {
                icons
            }
        },
        None => icons,
    }
}

/// The cache after an icon or a failure was put into it.
pub open spec fn inserted(
    cache: Cache,
    key: KeyView,
    image: Option<u64>,
    stamps: Seq<StampView>,
    succeeded: bool,
    now: u64,
) -> Cache {
    let icon = inserted_icon(cache, image, succeeded, now);
    let room = make_place(counted(cache, image, succeeded), key);
    let clock = room.status.clock.wrapping_add(1);
    Cache {
        entries: room.entries.push(
            EntryView {
                key,
                image: icon,
                stamps,
                expires: entry_expires(cache, image, succeeded, now),
                used: clock,
            },
        ),
        icons: taken_up(room.icons, icon),
        status: CacheStatus { clock, ..room.status },
    }
}

proof fn with_place_facts(cache: Cache, key: KeyView)
    requires
        cache.valid(),
        entry_place(cache.entries, key) == cache.entries.len(),
    ensures
        cache.with_place().valid(),
        forall|i: int|
            0 <= i < cache.with_place().entries.len() ==> (
            #[trigger] cache.with_place().entries[i]).key != key,
    decreases cache.entries.len(),
{
    entry_place_facts(cache.entries, key);
    if !(cache.entries.len() < cache.status.limit || cache.entries.len() == 0) {
        oldest_facts(cache.entries);
        let place = oldest(cache.entries);
        without_keeps(cache, place);
        let next = cache.evicted();
        entry_place_facts(next.entries, key);
        assert forall|i: int| 0 <= i < next.entries.len() implies (
        #[trigger] next.entries[i]).key != key by {
            let a = if i < place {
                i
            } else {
                i + 1
            };
            assert(next.entries[i] == cache.entries[a]);
        }
        with_place_facts(next, key);
    }
}

proof fn make_place_facts(cache: Cache, key: KeyView)
    requires
        cache.valid(),
    ensures
        make_place(cache, key).valid(),
        forall|i: int|
            0 <= i < make_place(cache, key).entries.len() ==> (#[trigger] make_place(
                cache,
                key,
            ).entries[i]).key != key,
{
    entry_place_facts(cache.entries, key);
    let place = entry_place(cache.entries, key);
    if place < cache.entries.len() {
        without_keeps(cache, place);
        let after = cache.without(place).entries;
        assert forall|i: int| 0 <= i < after.len() implies (#[trigger] after[i]).key != key by {
            let a = if i < place {
                i
            } else {
                i + 1
            };
            assert(after[i] == cache.entries[a]);
        }
    } else {
        with_place_facts(cache, key);
    }
}

// ---------------------------------------------------------------------------
// Laws

/// The memory of the icons never exceeds the limit.
pub proof fn memory_is_bounded(cache: Cache)
    requires
        cache.valid(),
    ensures
        cache.bytes() <= cache.status.byte_limit,
{
}

/// Dropping an entry frees no memory while its icon still has a user.
pub proof fn used_icons_count_after_eviction(cache: Cache, place: int, id: u64)
    requires
        cache.valid(),
        0 <= place < cache.entries.len(),
        icon_place(cache.icons, id) < cache.icons.len(),
        cache.icons[icon_place(cache.icons, id)].users > 0,
    ensures
        exists|i: int|
            0 <= i < cache.without(place).icons.len() && (#[trigger] cache.without(
                place,
            ).icons[i]).id == id && cache.without(place).icons[i].users == cache.icons[icon_place(
                cache.icons,
                id,
            )].users,
{
    icon_place_facts(cache.icons, id);
    let at = icon_place(cache.icons, id);
    let after = cache.without(place).icons;
    match cache.entries[place].image {
        Some(icon) => {
            icon_place_facts(cache.icons, icon.id);
            let gone = icon_place(cache.icons, icon.id);
            if gone < cache.icons.len() {
                if cache.icons[gone].users == 0 {
                    assert(gone != at);
                    let i = if at < gone {
                        at
                    } else {
                        at - 1
                    };
                    assert(after[i] == cache.icons[at]);
                } else {
                    assert(after[at].id == id);
                }
            } else {
                assert(after[at] == cache.icons[at]);
            }
        },
        None => {
            assert(after[at] == cache.icons[at]);
        },
    }
}

/// When the last user lets an icon go that the cache does not hold, its memory is free again.
pub proof fn last_user_frees_the_memory(cache: Cache, place: int)
    requires
        cache.valid(),
        0 <= place < cache.icons.len(),
        cache.icons[place].users == 1,
        !cache.icons[place].cached,
    ensures
        cache.released(place).bytes() == cache.bytes() - ICON_BYTES,
{
}

proof fn with_place_bound(cache: Cache)
    requires
        cache.valid(),
        cache.status.limit > 0,
    ensures
        cache.with_place().entries.len() < cache.status.limit,
        cache.with_place().status == cache.status,
    decreases cache.entries.len(),
{
    if !(cache.entries.len() < cache.status.limit || cache.entries.len() == 0) {
        oldest_facts(cache.entries);
        without_keeps(cache, oldest(cache.entries));
        with_place_bound(cache.evicted());
    }
}

/// The number of entries never exceeds the limit.
pub proof fn entries_are_bounded(
    cache: Cache,
    key: KeyView,
    image: Option<u64>,
    stamps: Seq<StampView>,
    succeeded: bool,
    now: u64,
)
    requires
        cache.valid(),
        cache.status.limit > 0,
        cache.entries.len() <= cache.status.limit,
    ensures
        inserted(cache, key, image, stamps, succeeded, now).entries.len() <= cache.status.limit,
{
    let start = counted(cache, image, succeeded);
    entry_place_facts(start.entries, key);
    if entry_place(start.entries, key) == start.entries.len() {
        with_place_bound(start);
    }
}

/// The entry that makes way is the one that was not used for the longest time.
pub proof fn oldest_entry_makes_way(cache: Cache, place: int)
    requires
        cache.entries.len() > 0,
        0 <= place < cache.entries.len(),
    ensures
        cache.entries[oldest(cache.entries)].used <= cache.entries[place].used,
        cache.evicted() == cache.without(oldest(cache.entries)),
{
    oldest_facts(cache.entries);
}

proof fn inserted_entry_is_last(
    cache: Cache,
    key: KeyView,
    image: Option<u64>,
    stamps: Seq<StampView>,
    succeeded: bool,
    now: u64,
)
    requires
        cache.valid(),
    ensures
        ({
            let after = inserted(cache, key, image, stamps, succeeded, now);
            entry_place(after.entries, key) == after.entries.len() - 1
        }),
{
    let start = counted(cache, image, succeeded);
    let room = make_place(start, key);
    let after = inserted(cache, key, image, stamps, succeeded, now);
    make_place_facts(start, key);
    entry_place_facts(after.entries, key);
    let place = entry_place(after.entries, key);
    let last = after.entries.len() - 1;
    assert(after.entries[last].key == key);
    if place < last {
        assert(after.entries[place] == room.entries[place]);
    }
}

/// The files that a key was put into the cache with, paths and versions, are those that the cache
/// names for the key.
pub proof fn inserted_sources_are_named(
    cache: Cache,
    key: KeyView,
    image: Option<u64>,
    stamps: Seq<StampView>,
    succeeded: bool,
    now: u64,
)
    requires
        cache.valid(),
    ensures
        inserted(cache, key, image, stamps, succeeded, now).sources_of(key) == Some(stamps),
{
    inserted_entry_is_last(cache, key, image, stamps, succeeded, now);
}

/// What was put into the cache is found again as long as it is not too old and its files have the
/// versions they had, and only so long.
pub proof fn entry_is_good_while_its_files_are_unchanged(
    cache: Cache,
    key: KeyView,
    image: Option<u64>,
    stamps: Seq<StampView>,
    succeeded: bool,
    now: u64,
    later: u64,
    versions: Seq<Option<FileVersion>>,
)
    requires
        cache.valid(),
    ensures
        inserted(cache, key, image, stamps, succeeded, now).looked_up(key, later, versions).1 == (
        if later < entry_expires(cache, image, succeeded, now) && versions == versions_of(stamps) {
            Some(inserted_icon(cache, image, succeeded, now))
        } else {
            None
        }),
{
    inserted_entry_is_last(cache, key, image, stamps, succeeded, now);
}

/// What was put into the cache is found again for half a minute where the icon was found, and for
/// the time of a failure otherwise, as long as its files have the versions they had. What comes
/// back is what was put in.
pub proof fn found_icons_last_half_a_minute(
    cache: Cache,
    key: KeyView,
    image: Option<u64>,
    stamps: Seq<StampView>,
    succeeded: bool,
    now: u64,
    later: u64,
    versions: Seq<Option<FileVersion>>,
)
    requires
        cache.valid(),
        now <= u64::MAX - 30000,
        now <= u64::MAX - cache.status.failure_ttl,
    ensures
        ({
            let found = inserted(cache, key, image, stamps, succeeded, now).looked_up(
                key,
                later,
                versions,
            ).1;
            let lasts = if succeeded && image is Some {
                30000u64
            } else {
                cache.status.failure_ttl
            };
            &&& found is Some <==> {
                &&& later - now < lasts
                &&& versions.len() == stamps.len()
                &&& forall|i: int| 0 <= i < stamps.len() ==> (#[trigger] stamps[i]).1 == versions[i]
            }
            &&& found is Some ==> (found->0 is Some <==> image is Some)
            &&& found is Some && image is Some ==> {
                let icon = (found->0)->0;
                &&& icon.id == image->0
                &&& icon.expires == now + lasts
                &&& icon.revision == cache.status.next_revision
            }
        }),
{
    inserted_entry_is_last(cache, key, image, stamps, succeeded, now);
    if versions.len() == stamps.len() && (forall|i: int|
        0 <= i < stamps.len() ==> (#[trigger] stamps[i]).1 == versions[i]) {
        assert(versions_of(stamps) =~= versions);
    } else if versions_of(stamps) == versions {
        assert forall|i: int| 0 <= i < stamps.len() implies (#[trigger] stamps[i]).1
            == versions[i] by {
            assert(versions_of(stamps)[i] == versions[i]);
        }
    }
}

/// Every request counts as a hit or as a miss, and every result that is no icon from its own
/// source as a failure; one with an icon all the same is a fallback. Each request and each result
/// is one tick of the clock of uses, and each icon has a revision of its own.
pub proof fn requests_and_results_are_counted(
    cache: Cache,
    key: KeyView,
    image: Option<u64>,
    stamps: Seq<StampView>,
    succeeded: bool,
    now: u64,
    versions: Seq<Option<FileVersion>>,
)
    requires
        cache.valid(),
        cache.status.hits < u64::MAX,
        cache.status.misses < u64::MAX,
        cache.status.failures < u64::MAX,
        cache.status.fallbacks < u64::MAX,
        cache.status.clock < u64::MAX,
        cache.status.next_revision < u64::MAX,
    ensures
        ({
            let (after, found) = cache.looked_up(key, now, versions);
            after.status == CacheStatus {
                clock: (cache.status.clock + 1) as u64,
                hits: (cache.status.hits + (if found is Some {
                    1int
                } else {
                    0
                })) as u64,
                misses: (cache.status.misses + (if found is Some {
                    0int
                } else {
                    1
                })) as u64,
                ..cache.status
            }
        }),
        inserted(cache, key, image, stamps, succeeded, now).status == (CacheStatus {
            clock: (cache.status.clock + 1) as u64,
            failures: (cache.status.failures + (if succeeded && image is Some {
                0int
            } else {
                1
            })) as u64,
            fallbacks: (cache.status.fallbacks + (if !succeeded && image is Some {
                1int
            } else {
                0
            })) as u64,
            next_revision: (cache.status.next_revision + (if image is Some {
                1int
            } else {
                0
            })) as u64,
            ..cache.status
        }),
{
    eviction_keeps_the_status(counted(cache, image, succeeded));
}

proof fn eviction_keeps_the_status(cache: Cache)
    requires
        cache.valid(),
    ensures
        cache.with_place().status == cache.status,
        cache.with_room().status == cache.status,
    decreases cache.entries.len(),
{
    if cache.entries.len() > 0 {
        oldest_facts(cache.entries);
        without_keeps(cache, oldest(cache.entries));
        eviction_keeps_the_status(cache.evicted());
    }
}

/// An entry that is found stays, is the one that was used last, and its icon has one user more. All
/// other entries and icons stay as they were.
pub proof fn found_entry_is_the_last_used(
    cache: Cache,
    key: KeyView,
    now: u64,
    versions: Seq<Option<FileVersion>>,
    at: int,
)
    requires
        cache.valid(),
        cache.status.clock < u64::MAX,
        0 <= at < cache.entries.len(),
        cache.entries[at].key == key,
        cache.looked_up(key, now, versions).1 is Some,
    ensures
        ({
            let (after, found) = cache.looked_up(key, now, versions);
            let used = EntryView { used: (cache.status.clock + 1) as u64, ..cache.entries[at] };
            &&& found == Some(cache.entries[at].image)
            &&& after.entries == cache.entries.update(at, used)
            &&& cache.entries[at].image is None ==> after.icons == cache.icons
            &&& after.icons.len() == cache.icons.len()
            &&& forall|i: int|
                0 <= i < cache.icons.len() ==> {
                    &&& (#[trigger] after.icons[i]).id == cache.icons[i].id
                    &&& after.icons[i].cached == cache.icons[i].cached
                    &&& cache.icons[i].users < u64::MAX ==> after.icons[i].users
                        == cache.icons[i].users + (if cache.entries[at].image is Some
                        && cache.entries[at].image->0.id == cache.icons[i].id {
                        1int
                    } else {
                        0
                    })
                }
        }),
{
    entry_place_facts(cache.entries, key);
    let place = entry_place(cache.entries, key);
    if place < at {
        assert(cache.entries[place].key != cache.entries[at].key);
    }
    match cache.entries[at].image {
        Some(icon) => {
            icon_place_facts(cache.icons, icon.id);
            let k = icon_place(cache.icons, icon.id);
            assert forall|i: int| 0 <= i < cache.icons.len() && i != k implies (
            #[trigger] cache.icons[i]).id != icon.id by {
                if k < i {
                    assert(cache.icons[k].id != cache.icons[i].id);
                }
            }
        },
        None => {},
    }
}

/// A request that is a miss forgets the entry of its key, and no other.
pub proof fn missed_entry_is_forgotten(
    cache: Cache,
    key: KeyView,
    now: u64,
    versions: Seq<Option<FileVersion>>,
)
    requires
        cache.valid(),
        cache.looked_up(key, now, versions).1 is None,
    ensures
        ({
            let after = cache.looked_up(key, now, versions).0;
            &&& after.sources_of(key) is None
            &&& forall|i: int|
                0 <= i < cache.entries.len() && (#[trigger] cache.entries[i]).key != key
                    ==> after.entries.contains(cache.entries[i])
            &&& cache.sources_of(key) is None ==> after.entries == cache.entries && after.icons
                == cache.icons
        }),
{
    entry_place_facts(cache.entries, key);
    let place = entry_place(cache.entries, key);
    let after = cache.looked_up(key, now, versions).0;
    entry_place_facts(after.entries, key);
    if place < cache.entries.len() {
        removed_entry_is_the_only_one(cache.entries, place);
        if entry_place(after.entries, key) < after.entries.len() {
            let i = entry_place(after.entries, key);
            let a = if i < place {
                i
            } else {
                i + 1
            };
            assert(after.entries[i] == cache.entries[a]);
            if place < a {
                assert(cache.entries[place].key != cache.entries[a].key);
            }
        }
    } else {
        assert forall|i: int|
            0 <= i < cache.entries.len() && (
            #[trigger] cache.entries[i]).key != key implies after.entries.contains(
            cache.entries[i],
        ) by {
            assert(after.entries[i] == cache.entries[i]);
        }
    }
}

proof fn removed_entry_is_the_only_one(entries: Seq<EntryView>, place: int)
    requires
        0 <= place < entries.len(),
    ensures
        forall|i: int|
            0 <= i < entries.len() && i != place ==> entries.remove(place).contains(
                #[trigger] entries[i],
            ),
{
    let after = entries.remove(place);
    assert forall|i: int| 0 <= i < entries.len() && i != place implies after.contains(
        #[trigger] entries[i],
    ) by {
        let a = if i < place {
            i
        } else {
            i - 1
        };
        assert(after[a] == entries[i]);
    }
}

/// A result for a key that is in the cache takes the place of the entry of that key and drops no
/// other. For a new key nothing is dropped while there is a place, and one entry where there is
/// none: the one that was not used for the longest time.
pub proof fn insertion_drops_at_most_one(
    cache: Cache,
    key: KeyView,
    image: Option<u64>,
    stamps: Seq<StampView>,
    succeeded: bool,
    now: u64,
)
    requires
        cache.valid(),
        cache.status.clock < u64::MAX,
        cache.status.limit > 0,
        cache.entries.len() <= cache.status.limit,
    ensures
        ({
            let after = inserted(cache, key, image, stamps, succeeded, now).entries;
            let old = cache.entries;
            &&& after.last().key == key
            &&& after.last().stamps == stamps
            &&& after.last().used == cache.status.clock + 1
            &&& after.last().image is Some <==> image is Some
            &&& cache.sources_of(key) is None && old.len() < cache.status.limit
                ==> after.drop_last() == old
            &&& cache.sources_of(key) is Some ==> after.len() == old.len() && forall|i: int|
                0 <= i < old.len() && (#[trigger] old[i]).key != key ==> after.contains(old[i])
            &&& cache.sources_of(key) is None && old.len() == cache.status.limit ==> exists|gone: int|
                {
                    &&& 0 <= gone < old.len()
                    &&& after.drop_last() == #[trigger] old.remove(gone)
                    &&& forall|i: int|
                        0 <= i < old.len() ==> old[gone].used <= (#[trigger] old[i]).used
                }
        }),
{
    let start = counted(cache, image, succeeded);
    let after = inserted(cache, key, image, stamps, succeeded, now).entries;
    let old = cache.entries;
    let room = make_place(start, key);
    let place = entry_place(old, key);
    entry_place_facts(old, key);
    eviction_keeps_the_status(start);
    assert(after.drop_last() =~= room.entries);
    if place < old.len() {
        removed_entry_is_the_only_one(old, place);
        assert forall|i: int| 0 <= i < old.len() && (
        #[trigger] old[i]).key != key implies after.contains(old[i]) by {
            assert(room.entries.contains(old[i]));
            let k = room.entries.index_of(old[i]);
            assert(after[k] == old[i]);
        }
    } else if old.len() == cache.status.limit {
        oldest_facts(old);
        let gone = oldest(old);
        let next = start.evicted();
        assert(next.entries.len() < next.status.limit);
        assert(start.with_place() == next.with_place());
        assert(next.with_place() == next);
        assert(after.drop_last() == old.remove(gone));
    }
}

/// Memory for an icon is set aside where another quarter of a megabyte stays within the limit.
/// Only where it does not, entries are dropped, one by one from the one that was not used for the
/// longest time; it is refused where none is left.
pub proof fn memory_is_made_by_dropping_entries(cache: Cache)
    requires
        cache.valid(),
        cache.status.next_id < u64::MAX,
    ensures
        ({
            let (after, id) = cache.reserved();
            let fits = (cache.icons.len() + 1) * 262144 <= cache.status.byte_limit;
            &&& fits ==> id == Some(cache.status.next_id) && after.entries == cache.entries
                && after.icons == cache.icons.push(
                IconRecord { id: cache.status.next_id, users: 1, cached: false },
            ) && after.status == (CacheStatus {
                next_id: (cache.status.next_id + 1) as u64,
                ..cache.status
            })
            &&& !fits && cache.entries.len() == 0 ==> id is None && after == cache
            &&& !fits && cache.entries.len() > 0 ==> exists|gone: int|
                {
                    &&& 0 <= gone < cache.entries.len()
                    &&& (after, id) == #[trigger] cache.without(gone).reserved()
                    &&& forall|i: int|
                        0 <= i < cache.entries.len() ==> cache.entries[gone].used <= (
                        #[trigger] cache.entries[i]).used
                }
        }),
{
    if cache.entries.len() > 0 {
        oldest_facts(cache.entries);
        let gone = oldest(cache.entries);
        assert(cache.evicted() == cache.without(gone));
        if !((cache.icons.len() + 1) * 262144 <= cache.status.byte_limit) {
            assert(!cache.has_room());
            assert(cache.with_room() == cache.without(gone).with_room());
            assert(cache.reserved() == cache.without(gone).reserved());
        }
    }
}

/// Dropping an entry drops that one. Its icon leaves memory where nobody uses it, and is kept for
/// its users otherwise.
pub proof fn dropped_icon_is_kept_for_its_users(cache: Cache, place: int, at: int)
    requires
        cache.valid(),
        0 <= place < cache.entries.len(),
        0 <= at < cache.icons.len(),
    ensures
        ({
            let after = cache.without(place);
            let mine = cache.entries[place].image is Some && cache.entries[place].image->0.id
                == cache.icons[at].id;
            &&& after.entries == cache.entries.remove(place)
            &&& after.status == cache.status
            &&& cache.entries[place].image is None ==> after.icons == cache.icons
            &&& mine && cache.icons[at].users == 0 ==> after.icons == cache.icons.remove(at)
                && after.bytes() == cache.bytes() - 262144
            &&& mine && cache.icons[at].users > 0 ==> after.icons == cache.icons.update(
                at,
                IconRecord { cached: false, ..cache.icons[at] },
            ) && after.bytes() == cache.bytes()
        }),
{
    match cache.entries[place].image {
        Some(icon) => {
            icon_place_facts(cache.icons, icon.id);
            let k = icon_place(cache.icons, icon.id);
            if icon.id == cache.icons[at].id && k < at {
                assert(cache.icons[k].id != cache.icons[at].id);
            }
        },
        None => {},
    }
}

/// A user that lets an icon go is counted; with the last one an icon that no entry holds leaves
/// memory, and one that an entry holds stays.
pub proof fn released_icon_has_one_user_less(cache: Cache, place: int)
    requires
        cache.valid(),
        0 <= place < cache.icons.len(),
        cache.icons[place].users > 0,
    ensures
        ({
            let after = cache.released(place);
            let record = cache.icons[place];
            &&& after.entries == cache.entries
            &&& after.status == cache.status
            &&& record.users == 1 && !record.cached ==> after.icons == cache.icons.remove(place)
            &&& record.users > 1 || record.cached ==> after.icons == cache.icons.update(
                place,
                IconRecord { users: (record.users - 1) as u64, ..record },
            )
        }),
{
}

/// A request is answered from the cache where the entry can be used. Otherwise memory is set aside
/// for the icon; where there is none, the failure is kept for its time.
pub proof fn requests_begin(
    cache: Cache,
    key: KeyView,
    now: u64,
    versions: Seq<Option<FileVersion>>,
)
    requires
        cache.valid(),
    ensures
        ({
            let (after, begin) = cache.begun(key, now, versions);
            let (found, image) = cache.looked_up(key, now, versions);
            let (room, id) = found.reserved();
            &&& image is Some ==> begin == IconBegin::Cached(image->0) && after == found
            &&& image is None && id is Some ==> begin == IconBegin::Load(id->0) && after == room
            &&& image is None && id is None ==> begin == IconBegin::Full && after == inserted(
                room,
                key,
                None,
                Seq::<StampView>::empty(),
                false,
                now,
            )
        }),
{
}

/// An icon is 256 pixels wide and high, with four bytes for each pixel.
pub proof fn icon_sizes()
    ensures
        ICON_PIXELS == 256,
        ICON_BYTES == 256 * 256 * 4,
        forall|cache: Cache| #[trigger] cache.bytes() == cache.icons.len() * (256 * 256 * 4),
{
}

}
