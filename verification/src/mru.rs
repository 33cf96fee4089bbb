//! The order of windows by recent use, for the running session only: neither titles nor paths are
//! kept, and nothing is written to the disk.

use vstd::prelude::*;

use crate::config::schema::Config;
use crate::config::types::SwitchOrder;
use crate::keyboard::state::SwitchKind;
use crate::order::{slot_for, slot_is, stable_sort};
use crate::window_identity::{Lifetimes, ProcessIdentity, WindowIdentity, WindowLifetimes};

verus! {

/// A window as it was found.
#[derive(Debug, Clone, PartialEq, Eq)]
pub struct WindowRecord {
    pub identity: WindowIdentity,
    pub executable: String,
    pub title: String,
    pub minimized: bool,
}

/// The windows of a moment, in groups of one application.
pub struct WindowSnapshot {
    pub revision: u64,
    pub groups: indexmap::IndexMap<String, Vec<WindowRecord>>,
}

/// The groups of windows in order.
pub uninterp spec fn window_groups(
    groups: indexmap::IndexMap<String, Vec<WindowRecord>>,
) -> Seq<(Seq<char>, Seq<WindowRecord>)>;

/// `IndexMap::len` returns the number of entries.
#[verifier::external_body]
fn group_count(groups: &indexmap::IndexMap<String, Vec<WindowRecord>>) -> (r: usize)
    ensures
        r == window_groups(*groups).len(),
{
    groups.len()
}

/// `IndexMap::get_index` returns the entry at a place, here only its value.
#[verifier::external_body]
fn group_records(groups: &indexmap::IndexMap<String, Vec<WindowRecord>>, place: usize) -> (r:
    Option<&Vec<WindowRecord>>)
    ensures
        r is Some == (place < window_groups(*groups).len()),
        r is Some ==> (r->0)@ == window_groups(*groups)[place as int].1,
{
    groups.get_index(place).map(|entry| entry.1)
}

/// The `IndexMut<usize>` of `IndexMap` gives access to the value at a place, which the new value
/// replaces; keys and places stay. It panics past the end.
#[verifier::external_body]
fn group_replace(
    groups: &mut indexmap::IndexMap<String, Vec<WindowRecord>>,
    place: usize,
    records: Vec<WindowRecord>,
) -> (r: Vec<WindowRecord>)
    requires
        place < window_groups(*old(groups)).len(),
    ensures
        r@ == window_groups(*old(groups))[place as int].1,
        window_groups(*final(groups)) == window_groups(*old(groups)).update(
            place as int,
            (window_groups(*old(groups))[place as int].0, records@),
        ),
{
    std::mem::replace(&mut groups[place], records)
}

/// `IndexMap::sort_by` sorts the entries by a comparison and is stable; the comparison is that of
/// the ranks of the groups.
#[verifier::external_body]
fn groups_sort(groups: &mut indexmap::IndexMap<String, Vec<WindowRecord>>, recent: &Vec<
    WindowIdentity,
>)
    ensures
        window_groups(*final(groups)) == stable_sort(
            window_groups(*old(groups)),
            group_rank(recent@),
        ),
{
    groups.sort_by(|_, left, _, right| compare_groups(recent, left, right))
}

/// The place of a window in the history; the length where it is absent.
pub open spec fn rank_of(recent: Seq<WindowIdentity>, identity: WindowIdentity) -> int
    decreases recent.len(),
{
    if recent.len() == 0 || recent[0] == identity {
        0
    } else {
        1 + rank_of(recent.drop_first(), identity)
    }
}

/// The rank of a window record.
pub open spec fn record_rank(recent: Seq<WindowIdentity>) -> spec_fn(WindowRecord) -> int {
    |record: WindowRecord| rank_of(recent, record.identity)
}

/// The rank of a group: that of its first window; an empty group comes before all others.
pub open spec fn group_rank(recent: Seq<WindowIdentity>) -> spec_fn(
    (Seq<char>, Seq<WindowRecord>),
) -> int {
    |group: (Seq<char>, Seq<WindowRecord>)| records_rank(recent, group.1)
}

pub open spec fn records_rank(recent: Seq<WindowIdentity>, records: Seq<WindowRecord>) -> int {
    if records.len() == 0 {
        -1
    } else {
        rank_of(recent, records[0].identity)
    }
}

proof fn rank_is(recent: Seq<WindowIdentity>, identity: WindowIdentity, place: int)
    requires
        0 <= place <= recent.len(),
        forall|i: int| 0 <= i < place ==> #[trigger] recent[i] != identity,
        place < recent.len() ==> recent[place] == identity,
    ensures
        rank_of(recent, identity) == place,
    decreases recent.len(),
{
    if place > 0 {
        assert(recent[0] != identity);
        let rest = recent.drop_first();
        assert forall|i: int| 0 <= i < place - 1 implies #[trigger] rest[i] != identity by {
            assert(rest[i] == recent[i + 1]);
        }
        rank_is(rest, identity, place - 1);
    }
}

proof fn rank_range(recent: Seq<WindowIdentity>, identity: WindowIdentity)
    ensures
        0 <= rank_of(recent, identity) <= recent.len(),
    decreases recent.len(),
{
    if recent.len() > 0 {
        rank_range(recent.drop_first(), identity);
    }
}

fn rank(recent: &Vec<WindowIdentity>, identity: &WindowIdentity) -> (r: usize)
    ensures
        r == rank_of(recent@, *identity),
{
    for i in 0..recent.len()
        invariant
            forall|k: int| 0 <= k < i ==> #[trigger] recent@[k] != *identity,
    {
        if recent[i] == *identity {
            proof {
                rank_is(recent@, *identity, i as int);
            }
            return i;
        }
    }
    proof {
        rank_is(recent@, *identity, recent@.len() as int);
    }
    recent.len()
}

/// Compares two groups by the recent use of their first windows.
fn compare_groups(
    recent: &Vec<WindowIdentity>,
    left: &Vec<WindowRecord>,
    right: &Vec<WindowRecord>,
) -> (r: core::cmp::Ordering)
    ensures
        match r {
            core::cmp::Ordering::Less => records_rank(recent@, left@) < records_rank(
                recent@,
                right@,
            ),
            core::cmp::Ordering::Equal => records_rank(recent@, left@) == records_rank(
                recent@,
                right@,
            ),
            core::cmp::Ordering::Greater => records_rank(recent@, left@) > records_rank(
                recent@,
                right@,
            ),
        },
{
    proof {
        if left@.len() > 0 {
            rank_range(recent@, left@[0].identity);
        }
        if right@.len() > 0 {
            rank_range(recent@, right@[0].identity);
        }
    }
    if left.len() == 0 {
        if right.len() == 0 {
            core::cmp::Ordering::Equal
        } else {
            core::cmp::Ordering::Less
        }
    } else if right.len() == 0 {
        core::cmp::Ordering::Greater
    } else {
        let first = rank(recent, &left[0].identity);
        let second = rank(recent, &right[0].identity);
        if first < second {
            core::cmp::Ordering::Less
        } else if first == second {
            core::cmp::Ordering::Equal
        } else {
            core::cmp::Ordering::Greater
        }
    }
}

fn sort_records(recent: &Vec<WindowIdentity>, records: Vec<WindowRecord>) -> (r: Vec<WindowRecord>)
    ensures
        r@ == stable_sort(records@, record_rank(recent@)),
{
    let ghost all = records@;
    let ghost ranks = record_rank(recent@);
    let mut rest = records;
    let mut sorted: Vec<WindowRecord> = Vec::new();
    assert(all.skip(all.len() as int) =~= sorted@);
    while rest.len() > 0
        invariant
            rest@.len() <= all.len(),
            rest@ == all.take(rest@.len() as int),
            ranks == record_rank(recent@),
            sorted@ == stable_sort(all.skip(rest@.len() as int), ranks),
        decreases rest@.len(),
    {
        let ghost n = rest@.len() - 1;
        let last = rest.len() - 1;
        let record = rest.remove(last);
        assert(rest@ =~= all.take(n));
        assert(record == all[n]);
        let value = rank(recent, &record.identity);
        assert(ranks(record) == value);
        let mut place: usize = 0;
        while place < sorted.len() && rank(recent, &sorted[place].identity) < value
            invariant
                place <= sorted@.len(),
                ranks == record_rank(recent@),
                forall|i: int| 0 <= i < place ==> ranks(#[trigger] sorted@[i]) < value,
            decreases sorted@.len() - place,
        {
            assert(ranks(sorted@[place as int]) == rank_of(
                recent@,
                sorted@[place as int].identity,
            ));
            place = place + 1;
        }
        proof {
            if place < sorted@.len() {
                assert(ranks(sorted@[place as int]) == rank_of(
                    recent@,
                    sorted@[place as int].identity,
                ));
            }
            slot_is(sorted@, ranks, value as int, place as int);
            assert(all.skip(n)[0] == record);
            assert(all.skip(n).drop_first() =~= all.skip(n + 1));
        }
        sorted.insert(place, record);
    }
    assert(all.skip(0) =~= all);
    sorted
}

/// The windows other than those of one handle, in order.
pub open spec fn without_window(recent: Seq<WindowIdentity>, window: u64) -> Seq<WindowIdentity>
    decreases recent.len(),
{
    if recent.len() == 0 {
        seq![]
    } else {
        let rest = without_window(recent.drop_last(), window);
        if recent.last().window != window {
            rest.push(recent.last())
        } else {
            rest
        }
    }
}

/// The windows in their current lifetime, in order.
pub open spec fn current_only(recent: Seq<WindowIdentity>, lifetimes: Lifetimes) -> Seq<
    WindowIdentity,
>
    decreases recent.len(),
{
    if recent.len() == 0 {
        seq![]
    } else {
        let rest = current_only(recent.drop_last(), lifetimes);
        if lifetimes.is_current(recent.last()) {
            rest.push(recent.last())
        } else {
            rest
        }
    }
}

/// At most a number of windows from the front.
pub open spec fn front(recent: Seq<WindowIdentity>, limit: int) -> Seq<WindowIdentity> {
    if recent.len() > limit {
        recent.take(limit)
    } else {
        recent
    }
}

/// The history after windows were added at the end, up to the limit and none twice.
pub open spec fn extended(
    recent: Seq<WindowIdentity>,
    added: Seq<WindowIdentity>,
    limit: int,
) -> Seq<WindowIdentity>
    decreases added.len(),
{
    if added.len() == 0 {
        recent
    } else {
        let before = extended(recent, added.drop_last(), limit);
        if before.len() < limit && !before.contains(added.last()) {
            before.push(added.last())
        } else {
            before
        }
    }
}

/// The identities of all windows, group by group.
pub open spec fn all_windows(groups: Seq<(Seq<char>, Seq<WindowRecord>)>) -> Seq<WindowIdentity>
    decreases groups.len(),
{
    if groups.len() == 0 {
        seq![]
    } else {
        all_windows(groups.drop_last()) + identities(groups.last().1)
    }
}

pub open spec fn identities(records: Seq<WindowRecord>) -> Seq<WindowIdentity> {
    Seq::new(records.len(), |i: int| records[i].identity)
}

/// The history as a mathematical value.
#[verifier::ext_equal]
pub struct History {
    pub limit: nat,
    pub recent: Seq<WindowIdentity>,
    pub seeded: bool,
    pub revision: u64,
}

impl History {
    /// The invariant: the history is bounded.
    pub open spec fn valid(self) -> bool {
        self.recent.len() <= self.limit
    }

    /// The history after a window came to the foreground.
    pub open spec fn observed(self, identity: WindowIdentity) -> History {
        if self.limit == 0 || (self.recent.len() > 0 && self.recent[0] == identity) {
            self
        } else {
            History {
                recent: front(
                    seq![identity] + without_window(self.recent, identity.window),
                    self.limit as int,
                ),
                ..self
            }
        }
    }

    /// The history after its first snapshot.
    pub open spec fn seeded_with(self, added: Seq<WindowIdentity>) -> History {
        if self.seeded || self.limit == 0 {
            self
        } else {
            History {
                seeded: true,
                recent: extended(self.recent, added, self.limit as int),
                ..self
            }
        }
    }
}

/// The history of windows by recent use.
pub struct Mru {
    pub limit: usize,
    pub recent: Vec<WindowIdentity>,
    pub seeded: bool,
    pub revision: u64,
}

impl View for Mru {
    type V = History;

    open spec fn view(&self) -> History {
        History {
            limit: self.limit as nat,
            recent: self.recent@,
            seeded: self.seeded,
            revision: self.revision,
        }
    }
}

impl Mru {
    /// An empty history. It records nothing where neither switch orders by recent use.
    pub fn new(config: &Config) -> (r: Self)
        ensures
            r@.valid(),
            r@.recent.len() == 0,
            !r@.seeded,
            r@.revision == 0,
            r@.limit == (if config.switch_apps_order == SwitchOrder::Mru
                || config.switch_windows_order == SwitchOrder::Mru {
                config.mru_limit as nat
            } else {
                0
            }),
    {
        let enabled = config.switch_apps_order == SwitchOrder::Mru || config.switch_windows_order
            == SwitchOrder::Mru;
        Mru {
            limit: if enabled {
                config.mru_limit as usize
            } else {
                0
            },
            recent: Vec::new(),
            seeded: false,
            revision: 0,
        }
    }

    /// Takes note of the window in the foreground. Windows whose lifetime ended are forgotten
    /// first.
    pub fn observe_foreground(
        &mut self,
        observed: Option<(u64, ProcessIdentity)>,
        lifetimes: &WindowLifetimes,
    )
        requires
            old(self)@.valid(),
        ensures
            final(self)@.valid(),
            ({
                let kept = if old(self)@.revision != lifetimes@.revision {
                    (History {
                        revision: lifetimes@.revision,
                        recent: current_only(old(self)@.recent, lifetimes@),
                        ..old(self)@
                    })
                } else {
                    old(self)@
                };
                final(self)@ == (if old(self)@.limit == 0 {
                    old(self)@
                } else {
                    match observed {
                        Some((window, process)) => if window == 0 {
                            kept
                        } else {
                            kept.observed(
                                WindowIdentity {
                                    window,
                                    process,
                                    epoch: lifetimes@.epoch,
                                    lifetime: lifetimes@.lifetime(window),
                                },
                            )
                        },
                        None => kept,
                    }
                })
            }),
    {
        if self.limit == 0 {
            return ;
        }
        let revision = lifetimes.revision();
        if self.revision != revision {
            self.revision = revision;
            self.prune(lifetimes);
        }
        if let Some((window, process)) = observed {
            if let Some(identity) = lifetimes.identify(window, process) {
                self.observe(identity);
            }
        }
    }

    fn prune(&mut self, lifetimes: &WindowLifetimes)
        requires
            old(self)@.valid(),
        ensures
            final(self)@.valid(),
            final(self)@ == (History {
                recent: current_only(old(self)@.recent, lifetimes@),
                ..old(self)@
            }),
    {
        let ghost all = self.recent@;
        let mut kept: Vec<WindowIdentity> = Vec::new();
        assert(all.take(0) =~= seq![]);
        for i in 0..self.recent.len()
            invariant
                all == self.recent@,
                kept@ == current_only(all.take(i as int), lifetimes@),
                kept@.len() <= i,
        {
            assert(all.take(i + 1).drop_last() =~= all.take(i as int));
            if lifetimes.is_current(&self.recent[i]) {
                kept.push(self.recent[i]);
            }
        }
        assert(all.take(all.len() as int) =~= all);
        self.recent = kept;
    }

    /// Takes note of a window in the foreground; returns whether the history changed. A reused
    /// handle does not inherit the rank of the window that had it before.
    pub fn observe(&mut self, identity: WindowIdentity) -> (r: bool)
        requires
            old(self)@.valid(),
        ensures
            final(self)@.valid(),
            final(self)@ == old(self)@.observed(identity),
            r == !(old(self)@.limit == 0 || (old(self)@.recent.len() > 0 && old(self)@.recent[0]
                == identity)),
    {
        if self.limit == 0 || (self.recent.len() > 0 && self.recent[0] == identity) {
            return false;
        }
        let ghost all = self.recent@;
        let ghost limit = self.limit as int;
        let mut kept: Vec<WindowIdentity> = Vec::new();
        kept.push(identity);
        assert(all.take(0) =~= seq![]);
        assert(kept@ =~= seq![identity] + without_window(all.take(0), identity.window));
        for i in 0..self.recent.len()
            invariant
                all == self.recent@,
                kept@ == seq![identity] + without_window(all.take(i as int), identity.window),
        {
            assert(all.take(i + 1).drop_last() =~= all.take(i as int));
            if self.recent[i].window != identity.window {
                kept.push(self.recent[i]);
            }
            assert(kept@ =~= seq![identity] + without_window(all.take(i + 1), identity.window));
        }
        assert(all.take(all.len() as int) =~= all);
        kept.truncate(self.limit);
        self.recent = kept;
        assert(self.recent@ =~= front(
            seq![identity] + without_window(all, identity.window),
            limit,
        ));
        true
    }

    /// Fills the history with the windows of the first snapshot, behind those that were observed.
    pub fn seed(&mut self, added: &[WindowIdentity])
        requires
            old(self)@.valid(),
        ensures
            final(self)@.valid(),
            final(self)@ == old(self)@.seeded_with(added@),
    {
        if self.seeded || self.limit == 0 {
            return ;
        }
        self.seeded = true;
        let ghost start = self.recent@;
        let ghost limit = self.limit as int;
        assert(added@.take(0) =~= seq![]);
        for i in 0..added.len()
            invariant
                self.limit == limit,
                self.seeded,
                self.revision == old(self).revision,
                self.recent@ == extended(start, added@.take(i as int), limit),
                self.recent@.len() <= limit,
        {
            assert(added@.take(i + 1).drop_last() =~= added@.take(i as int));
            if self.recent.len() < self.limit && !self.contains(&added[i]) {
                self.recent.push(added[i]);
            }
        }
        assert(added@.take(added@.len() as int) =~= added@);
    }

    fn contains(&self, identity: &WindowIdentity) -> (r: bool)
        ensures
            r == self.recent@.contains(*identity),
    {
        for i in 0..self.recent.len()
            invariant
                forall|k: int| 0 <= k < i ==> #[trigger] self.recent@[k] != *identity,
        {
            if self.recent[i] == *identity {
                return true;
            }
        }
        false
    }

    /// The rank of a window: its place from the most recent on; none where it is not recorded.
    pub fn rank(&self, identity: &WindowIdentity) -> (r: Option<usize>)
        ensures
            r == (if rank_of(self@.recent, *identity) < self@.recent.len() {
                Some(rank_of(self@.recent, *identity) as usize)
            } else {
                None
            }),
    {
        let place = rank(&self.recent, identity);
        if place < self.recent.len() {
            Some(place)
        } else {
            None
        }
    }

    /// Orders the windows of each group, and then the groups, by recent use, where the switch is
    /// to be ordered so.
    pub fn order(&mut self, snapshot: &mut WindowSnapshot, kind: SwitchKind, config: &Config)
        requires
            old(self)@.valid(),
        ensures
            final(self)@.valid(),
            final(snapshot).revision == old(snapshot).revision,
            ({
                let before = window_groups(old(snapshot).groups);
                let after = window_groups(final(snapshot).groups);
                if ordered_by_use(kind, config.switch_apps_order, config.switch_windows_order) {
                    &&& final(self)@ == old(self)@.seeded_with(all_windows(before))
                    &&& after == ordered(before, final(self)@.recent)
                } else {
                    final(self)@ == old(self)@ && after == before
                }
            }),
            (final(self)@, window_groups(final(snapshot).groups)) == after_ordering(
                old(self)@,
                window_groups(old(snapshot).groups),
                kind,
                config.switch_apps_order,
                config.switch_windows_order,
            ),
    {
        let order = match kind {
            SwitchKind::Apps => config.switch_apps_order,
            SwitchKind::Windows => config.switch_windows_order,
            SwitchKind::Search => {
                return ;
            },
        };
        if order == SwitchOrder::Existing {
            return ;
        }
        let ghost before = window_groups(snapshot.groups);
        let windows = list_windows(&snapshot.groups);
        self.seed(windows.as_slice());
        let ghost recent = self.recent@;
        let count = group_count(&snapshot.groups);
        for i in 0..count
            invariant
                count == before.len(),
                recent == self.recent@,
                snapshot.revision == old(snapshot).revision,
                window_groups(snapshot.groups).len() == before.len(),
                forall|k: int|
                    0 <= k < before.len() ==> #[trigger] window_groups(snapshot.groups)[k] == (if k
                        < i {
                        sorted_group(before[k], recent)
                    } else {
                        before[k]
                    }),
        {
            let records = group_replace(&mut snapshot.groups, i, Vec::new());
            let sorted = sort_records(&self.recent, records);
            let _ = group_replace(&mut snapshot.groups, i, sorted);
        }
        let ghost middle = window_groups(snapshot.groups);
        assert(middle =~= Seq::new(before.len(), |i: int| sorted_group(before[i], recent)));
        groups_sort(&mut snapshot.groups, &self.recent);
    }
}

/// Whether a switch is ordered by recent use.
pub open spec fn ordered_by_use(kind: SwitchKind, apps: SwitchOrder, windows: SwitchOrder) -> bool {
    match kind {
        SwitchKind::Apps => apps == SwitchOrder::Mru,
        SwitchKind::Windows => windows == SwitchOrder::Mru,
        SwitchKind::Search => false,
    }
}

/// The history and the groups after a switch was ordered.
pub open spec fn after_ordering(
    history: History,
    groups: Seq<(Seq<char>, Seq<WindowRecord>)>,
    kind: SwitchKind,
    apps: SwitchOrder,
    windows: SwitchOrder,
) -> (History, Seq<(Seq<char>, Seq<WindowRecord>)>) {
    if ordered_by_use(kind, apps, windows) {
        let seeded = history.seeded_with(all_windows(groups));
        (seeded, ordered(groups, seeded.recent))
    } else {
        (history, groups)
    }
}

/// A group with its windows ordered by recent use.
pub open spec fn sorted_group(
    group: (Seq<char>, Seq<WindowRecord>),
    recent: Seq<WindowIdentity>,
) -> (Seq<char>, Seq<WindowRecord>) {
    (group.0, stable_sort(group.1, record_rank(recent)))
}

/// The groups ordered by recent use, and the windows of each.
pub open spec fn ordered(
    groups: Seq<(Seq<char>, Seq<WindowRecord>)>,
    recent: Seq<WindowIdentity>,
) -> Seq<(Seq<char>, Seq<WindowRecord>)> {
    stable_sort(
        Seq::new(groups.len(), |i: int| sorted_group(groups[i], recent)),
        group_rank(recent),
    )
}

fn list_windows(groups: &indexmap::IndexMap<String, Vec<WindowRecord>>) -> (r: Vec<WindowIdentity>)
    ensures
        r@ == all_windows(window_groups(*groups)),
{
    let mut r: Vec<WindowIdentity> = Vec::new();
    let count = group_count(groups);
    let ghost all = window_groups(*groups);
    assert(all.take(0) =~= seq![]);
    for i in 0..count
        invariant
            count == all.len(),
            all == window_groups(*groups),
            r@ == all_windows(all.take(i as int)),
    {
        assert(all.take(i + 1).drop_last() =~= all.take(i as int));
        if let Some(records) = group_records(groups, i) {
            let ghost start = r@;
            assert(r@ =~= start + identities(records@).take(0));
            for k in 0..records.len()
                invariant
                    r@ == start + identities(records@).take(k as int),
            {
                r.push(records[k].identity);
                assert(r@ =~= start + identities(records@).take(k + 1));
            }
            assert(identities(records@).take(records@.len() as int) =~= identities(records@));
        }
    }
    assert(all.take(all.len() as int) =~= all);
    r
}

// ---------------------------------------------------------------------------
// Laws

proof fn without_window_facts(recent: Seq<WindowIdentity>, window: u64)
    ensures
        without_window(recent, window).len() <= recent.len(),
        forall|i: int|
            0 <= i < without_window(recent, window).len() ==> (#[trigger] without_window(
                recent,
                window,
            )[i]).window != window,
    decreases recent.len(),
{
    if recent.len() > 0 {
        without_window_facts(recent.drop_last(), window);
    }
}

/// A window in the foreground is first afterwards, and no other identity of its handle remains.
pub proof fn foreground_window_is_first(history: History, identity: WindowIdentity)
    requires
        history.valid(),
        history.limit > 0,
        history.recent.len() == 0 || history.recent[0] != identity,
    ensures
        history.observed(identity).recent.len() > 0,
        history.observed(identity).recent[0] == identity,
        forall|i: int|
            0 < i < history.observed(identity).recent.len() ==> (#[trigger] history.observed(
                identity,
            ).recent[i]).window != identity.window,
{
    without_window_facts(history.recent, identity.window);
    let all = seq![identity] + without_window(history.recent, identity.window);
    let recent = history.observed(identity).recent;
    assert forall|i: int| 0 < i < recent.len() implies (#[trigger] recent[i]).window
        != identity.window by {
        assert(recent[i] == all[i]);
        assert(all[i] == without_window(history.recent, identity.window)[i - 1]);
    }
}

/// The history never grows over its limit.
pub proof fn history_is_bounded(
    history: History,
    identity: WindowIdentity,
    added: Seq<WindowIdentity>,
)
    requires
        history.valid(),
    ensures
        history.observed(identity).valid(),
        history.seeded_with(added).valid(),
{
    extended_is_bounded(history.recent, added, history.limit as int);
}

proof fn extended_is_bounded(
    recent: Seq<WindowIdentity>,
    added: Seq<WindowIdentity>,
    limit: int,
)
    requires
        recent.len() <= limit,
    ensures
        extended(recent, added, limit).len() <= limit,
        recent.len() <= extended(recent, added, limit).len(),
        extended(recent, added, limit).take(recent.len() as int) =~= recent,
    decreases added.len(),
{
    if added.len() > 0 {
        extended_is_bounded(recent, added.drop_last(), limit);
    }
}

/// The first snapshot is added behind the windows that were observed before, which keep their
/// places; later snapshots add nothing.
pub proof fn seeding_keeps_the_observed(
    history: History,
    added: Seq<WindowIdentity>,
    later: Seq<WindowIdentity>,
)
    requires
        history.valid(),
    ensures
        history.recent.len() <= history.seeded_with(added).recent.len(),
        history.seeded_with(added).recent.take(history.recent.len() as int) =~= history.recent,
        history.seeded_with(added).seeded_with(later) == history.seeded_with(added),
{
    extended_is_bounded(history.recent, added, history.limit as int);
}

/// Ordering the groups and windows loses none and adds none.
pub proof fn ordering_keeps_every_group(
    groups: Seq<(Seq<char>, Seq<WindowRecord>)>,
    recent: Seq<WindowIdentity>,
)
    ensures
        ordered(groups, recent).to_multiset() =~= Seq::new(
            groups.len(),
            |i: int| sorted_group(groups[i], recent),
        ).to_multiset(),
        forall|i: int|
            0 <= i < groups.len() ==> (#[trigger] sorted_group(
                groups[i],
                recent,
            )).1.to_multiset() =~= groups[i].1.to_multiset(),
        crate::order::is_ranked(ordered(groups, recent), group_rank(recent)),
{
    let sorted = Seq::new(groups.len(), |i: int| sorted_group(groups[i], recent));
    crate::order::sorted_is_a_permutation(sorted, group_rank(recent));
    crate::order::sorted_is_ranked(sorted, group_rank(recent));
    assert forall|i: int| 0 <= i < groups.len() implies (#[trigger] sorted_group(
        groups[i],
        recent,
    )).1.to_multiset() =~= groups[i].1.to_multiset() by {
        crate::order::sorted_is_a_permutation(groups[i].1, record_rank(recent));
    }
}

/// Without windows of recent use the order stays as it was: nothing moves.
pub proof fn unknown_windows_stay(records: Seq<WindowRecord>)
    ensures
        stable_sort(records, record_rank(seq![])) == records,
    decreases records.len(),
{
    let ranks = record_rank(seq![]);
    if records.len() > 0 {
        unknown_windows_stay(records.drop_first());
        let rest = records.drop_first();
        assert(rest.len() > 0 ==> ranks(rest[0]) >= ranks(records[0]));
        assert(slot_for(rest, ranks, ranks(records[0])) == 0);
        assert(rest.insert(0, records[0]) =~= records);
    }
}

/// The orders of the two switches are independent: a switch that keeps the existing order moves
/// nothing and records nothing, whatever the other one does, and a search never does. A switch
/// that is ordered by recent use gives the same, whatever the other one does.
pub proof fn orders_are_independent(
    history: History,
    groups: Seq<(Seq<char>, Seq<WindowRecord>)>,
    one: SwitchOrder,
    other: SwitchOrder,
)
    ensures
        after_ordering(history, groups, SwitchKind::Apps, SwitchOrder::Existing, one) == (
            history,
            groups,
        ),
        after_ordering(history, groups, SwitchKind::Windows, one, SwitchOrder::Existing) == (
            history,
            groups,
        ),
        after_ordering(history, groups, SwitchKind::Search, one, other) == (history, groups),
        after_ordering(history, groups, SwitchKind::Apps, SwitchOrder::Mru, one)
            == after_ordering(history, groups, SwitchKind::Windows, other, SwitchOrder::Mru),
{
}

/// Whether one window was in use later than another one: it comes first in the history, or alone
/// is there.
pub open spec fn used_later(
    recent: Seq<WindowIdentity>,
    one: WindowIdentity,
    other: WindowIdentity,
) -> bool {
    exists|p: int|
        0 <= p < recent.len() && #[trigger] recent[p] == one && forall|q: int|
            0 <= q <= p ==> #[trigger] recent[q] != other
}

proof fn rank_bounds(recent: Seq<WindowIdentity>, identity: WindowIdentity)
    ensures
        0 <= rank_of(recent, identity) <= recent.len(),
        rank_of(recent, identity) < recent.len() ==> recent[rank_of(recent, identity)] == identity,
        forall|k: int| 0 <= k < rank_of(recent, identity) ==> #[trigger] recent[k] != identity,
    decreases recent.len(),
{
    if recent.len() > 0 && recent[0] != identity {
        let rest = recent.drop_first();
        rank_bounds(rest, identity);
        assert forall|k: int| 0 <= k < rank_of(recent, identity) implies #[trigger] recent[k]
            != identity by {
            if k > 0 {
                assert(recent[k] == rest[k - 1]);
            }
        }
    }
}

proof fn later_has_lower_rank(
    recent: Seq<WindowIdentity>,
    one: WindowIdentity,
    other: WindowIdentity,
)
    ensures
        used_later(recent, one, other) <==> rank_of(recent, one) < rank_of(recent, other),
{
    rank_bounds(recent, one);
    rank_bounds(recent, other);
    if used_later(recent, one, other) {
        let p = choose|p: int|
            0 <= p < recent.len() && #[trigger] recent[p] == one && forall|q: int|
                0 <= q <= p ==> #[trigger] recent[q] != other;
        if rank_of(recent, other) <= p {
            assert(recent[rank_of(recent, other)] != other);
        }
    }
    if rank_of(recent, one) < rank_of(recent, other) {
        let p = rank_of(recent, one);
        assert(recent[p] == one);
    }
}

/// Where a switch is ordered by recent use, what was in use later comes first: no window stands
/// behind one of its group that was in use earlier, and no group behind one whose first window
/// was in use earlier than its own. A group without windows stands behind none that has some.
pub proof fn later_use_comes_first(
    history: History,
    groups: Seq<(Seq<char>, Seq<WindowRecord>)>,
    kind: SwitchKind,
    apps: SwitchOrder,
    windows: SwitchOrder,
)
    requires
        kind == SwitchKind::Apps && apps == SwitchOrder::Mru || kind == SwitchKind::Windows
            && windows == SwitchOrder::Mru,
    ensures
        ({
            let (after, moved) = after_ordering(history, groups, kind, apps, windows);
            &&& moved.len() == groups.len()
            &&& forall|g: int, i: int, j: int|
                0 <= g < moved.len() && 0 <= i < j < moved[g].1.len() ==> !used_later(
                    after.recent,
                    (#[trigger] moved[g].1[j]).identity,
                    (#[trigger] moved[g].1[i]).identity,
                )
            &&& forall|g: int, h: int|
                0 <= g < h < moved.len() && (#[trigger] moved[g]).1.len() > 0 && (
                #[trigger] moved[h]).1.len() > 0 ==> !used_later(
                    after.recent,
                    moved[h].1[0].identity,
                    moved[g].1[0].identity,
                )
            &&& forall|g: int, h: int|
                0 <= g < h < moved.len() && (#[trigger] moved[g]).1.len() > 0 ==> (
                #[trigger] moved[h]).1.len() > 0
        }),
{
    let recent = history.seeded_with(all_windows(groups)).recent;
    let sorted = Seq::new(groups.len(), |i: int| sorted_group(groups[i], recent));
    let moved = stable_sort(sorted, group_rank(recent));
    crate::order::sorted_is_a_permutation(sorted, group_rank(recent));
    crate::order::sorted_is_ranked(sorted, group_rank(recent));
    assert forall|g: int, i: int, j: int|
        0 <= g < moved.len() && 0 <= i < j < moved[g].1.len() implies !used_later(
        recent,
        (#[trigger] moved[g].1[j]).identity,
        (#[trigger] moved[g].1[i]).identity,
    ) by {
        let k = same_elements(moved, sorted, g);
        crate::order::sorted_is_ranked(groups[k].1, record_rank(recent));
        let ranks = record_rank(recent);
        assert(ranks(moved[g].1[i]) <= ranks(moved[g].1[j]));
        later_has_lower_rank(recent, moved[g].1[j].identity, moved[g].1[i].identity);
    }
    assert forall|g: int, h: int|
        0 <= g < h < moved.len() && (#[trigger] moved[g]).1.len() > 0 && (#[trigger] moved[h]).1.len()
            > 0 implies !used_later(
        recent,
        moved[h].1[0].identity,
        moved[g].1[0].identity,
    ) by {
        let ranks = group_rank(recent);
        assert(ranks(moved[g]) <= ranks(moved[h]));
        later_has_lower_rank(recent, moved[h].1[0].identity, moved[g].1[0].identity);
    }
    assert forall|g: int, h: int|
        0 <= g < h < moved.len() && (#[trigger] moved[g]).1.len() > 0 implies (
    #[trigger] moved[h]).1.len() > 0 by {
        let ranks = group_rank(recent);
        assert(ranks(moved[g]) <= ranks(moved[h]));
        rank_bounds(recent, moved[g].1[0].identity);
    }
}

proof fn same_elements<T>(a: Seq<T>, b: Seq<T>, i: int) -> (k: int)
    requires
        a.to_multiset() =~= b.to_multiset(),
        0 <= i < a.len(),
    ensures
        0 <= k < b.len(),
        b[k] == a[i],
{
    broadcast use vstd::seq_lib::group_to_multiset_ensures;

    assert(a.contains(a[i]));
    assert(a.to_multiset().count(a[i]) > 0);
    assert(b.contains(a[i]));
    choose|k: int| 0 <= k < b.len() && b[k] == a[i]
}

/// Ordering by recent use moves whole groups: each group keeps its name and its windows, and
/// windows of which none was in use later keep their order.
pub proof fn ordering_moves_whole_groups(
    history: History,
    groups: Seq<(Seq<char>, Seq<WindowRecord>)>,
    kind: SwitchKind,
    apps: SwitchOrder,
    windows: SwitchOrder,
    g: int,
) -> (k: int)
    requires
        0 <= g < groups.len(),
    ensures
        ({
            let (after, moved) = after_ordering(history, groups, kind, apps, windows);
            let ranks = record_rank(after.recent);
            &&& moved.len() == groups.len()
            &&& 0 <= k < groups.len()
            &&& moved[g].0 == groups[k].0
            &&& moved[g].1.to_multiset() =~= groups[k].1.to_multiset()
            &&& forall|rank: int| #[trigger]
                crate::order::of_rank(moved[g].1, ranks, rank) == crate::order::of_rank(
                    groups[k].1,
                    ranks,
                    rank,
                )
        }),
{
    if ordered_by_use(kind, apps, windows) {
        let recent = history.seeded_with(all_windows(groups)).recent;
        let sorted = Seq::new(groups.len(), |i: int| sorted_group(groups[i], recent));
        let moved = stable_sort(sorted, group_rank(recent));
        crate::order::sorted_is_a_permutation(sorted, group_rank(recent));
        let k = same_elements(moved, sorted, g);
        crate::order::sorted_is_a_permutation(groups[k].1, record_rank(recent));
        assert forall|rank: int| #[trigger]
            crate::order::of_rank(moved[g].1, record_rank(recent), rank) == crate::order::of_rank(
                groups[k].1,
                record_rank(recent),
                rank,
            ) by {
            crate::order::sorted_is_stable(groups[k].1, record_rank(recent), rank);
        }
        k
    } else {
        g
    }
}

proof fn without_window_is_a_filter(recent: Seq<WindowIdentity>, window: u64)
    ensures
        without_window(recent, window) == recent.filter(|w: WindowIdentity| w.window != window),
    decreases recent.len(),
{
    reveal(Seq::filter);
    if recent.len() > 0 {
        without_window_is_a_filter(recent.drop_last(), window);
    }
}

/// A window in the foreground goes to the front of the history. The windows of other handles stay
/// behind it in their order, and only those beyond the limit are forgotten. A history without
/// room records nothing.
pub proof fn foreground_goes_to_the_front(history: History, identity: WindowIdentity)
    requires
        history.valid(),
    ensures
        ({
            let after = history.observed(identity);
            let others = history.recent.filter(|w: WindowIdentity| w.window != identity.window);
            &&& after.limit == history.limit && after.seeded == history.seeded && after.revision
                == history.revision
            &&& history.limit == 0 ==> after.recent.len() == 0
            &&& history.limit > 0 ==> after.recent[0] == identity
            &&& history.limit > 0 && !(history.recent.len() > 0 && history.recent[0] == identity)
                ==> {
                &&& after.recent.len() == if others.len() < history.limit {
                    others.len() + 1
                } else {
                    history.limit
                }
                &&& forall|i: int|
                    1 <= i < after.recent.len() ==> #[trigger] after.recent[i] == others[i - 1]
            }
            &&& history.recent.len() > 0 && history.recent[0] == identity ==> after.recent
                == history.recent
        }),
{
    without_window_is_a_filter(history.recent, identity.window);
}

proof fn current_only_is_a_filter(recent: Seq<WindowIdentity>, lifetimes: Lifetimes)
    ensures
        current_only(recent, lifetimes) == recent.filter(
            |w: WindowIdentity| lifetimes.is_current(w),
        ),
    decreases recent.len(),
{
    reveal(Seq::filter);
    if recent.len() > 0 {
        current_only_is_a_filter(recent.drop_last(), lifetimes);
    }
}

/// Pruning forgets exactly the windows whose lifetime ended, and keeps the order of the others.
pub proof fn pruning_forgets_ended_windows(recent: Seq<WindowIdentity>, lifetimes: Lifetimes)
    ensures
        current_only(recent, lifetimes) == recent.filter(
            |w: WindowIdentity|
                w.epoch == lifetimes.epoch && w.lifetime == (if lifetimes.counts.dom().contains(
                    w.window,
                ) {
                    lifetimes.counts[w.window]
                } else {
                    0
                }),
        ),
{
    current_only_is_a_filter(recent, lifetimes);
    let a = |w: WindowIdentity| lifetimes.is_current(w);
    let b = |w: WindowIdentity|
        w.epoch == lifetimes.epoch && w.lifetime == (if lifetimes.counts.dom().contains(w.window) {
            lifetimes.counts[w.window]
        } else {
            0
        });
    assert(a =~= b);
}

/// Seeding adds the windows that are not recorded yet behind the others, none twice, until the
/// history is full: afterwards each is recorded, or the limit is reached. Only the first seeding
/// counts, and a history without room has none.
pub proof fn seeding_records_every_window(history: History, added: Seq<WindowIdentity>)
    requires
        history.valid(),
    ensures
        ({
            let after = history.seeded_with(added);
            let old_count = history.recent.len() as int;
            &&& after.seeded == (history.seeded || history.limit > 0)
            &&& after.limit == history.limit && after.revision == history.revision
            &&& history.seeded || history.limit == 0 ==> after.recent == history.recent
            &&& forall|i: int|
                0 <= i < old_count ==> #[trigger] after.recent[i] == history.recent[i]
            &&& forall|i: int, j: int|
                0 <= i < j < after.recent.len() && old_count <= j ==> #[trigger] after.recent[i]
                    != #[trigger] after.recent[j]
            &&& forall|i: int|
                old_count <= i < after.recent.len() ==> added.contains(#[trigger] after.recent[i])
            &&& !history.seeded ==> after.recent.len() == history.limit || forall|k: int|
                0 <= k < added.len() ==> after.recent.contains(#[trigger] added[k])
        }),
{
    if !history.seeded && history.limit > 0 {
        extended_is_bounded(history.recent, added, history.limit as int);
        extended_records(history.recent, added, history.limit as int);
        let after = history.seeded_with(added);
        assert forall|i: int| 0 <= i < history.recent.len() implies #[trigger] after.recent[i]
            == history.recent[i] by {
            assert(after.recent.take(history.recent.len() as int)[i] == history.recent[i]);
        }
    }
}

proof fn extended_records(recent: Seq<WindowIdentity>, added: Seq<WindowIdentity>, limit: int)
    requires
        recent.len() <= limit,
    ensures
        ({
            let after = extended(recent, added, limit);
            &&& forall|i: int, j: int|
                0 <= i < j < after.len() && recent.len() <= j ==> #[trigger] after[i]
                    != #[trigger] after[j]
            &&& forall|i: int|
                recent.len() <= i < after.len() ==> added.contains(#[trigger] after[i])
            &&& after.len() == limit || forall|k: int|
                0 <= k < added.len() ==> after.contains(#[trigger] added[k])
        }),
    decreases added.len(),
{
    if added.len() > 0 {
        let less = added.drop_last();
        let before = extended(recent, less, limit);
        let after = extended(recent, added, limit);
        extended_records(recent, less, limit);
        extended_is_bounded(recent, less, limit);
        assert forall|i: int| recent.len() <= i < after.len() implies added.contains(
            #[trigger] after[i],
        ) by {
            if i < before.len() {
                assert(after[i] == before[i]);
                let k = choose|k: int| 0 <= k < less.len() && less[k] == before[i];
                assert(added[k] == before[i]);
            } else {
                assert(added[added.len() - 1] == after[i]);
            }
        }
        assert forall|i: int, j: int| 0 <= i < j < after.len() && recent.len() <= j implies #[trigger] after[i]
            != #[trigger] after[j] by {
            assert(after[i] == before[i]);
            if j < before.len() {
                assert(after[j] == before[j]);
            } else {
                assert(before.contains(before[i]));
            }
        }
        if after.len() != limit {
            assert forall|k: int| 0 <= k < added.len() implies after.contains(
                #[trigger] added[k],
            ) by {
                if k < less.len() {
                    assert(less[k] == added[k]);
                    assert(before.contains(less[k]));
                    let i = choose|i: int| 0 <= i < before.len() && before[i] == less[k];
                    assert(after[i] == before[i]);
                } else if !before.contains(added.last()) {
                    assert(after.last() == added.last());
                }
            }
        }
    }
}

/// Groups whose first windows were in use at the same place of the history, or are both unknown,
/// keep their order.
pub proof fn equal_groups_keep_their_order(
    groups: Seq<(Seq<char>, Seq<WindowRecord>)>,
    recent: Seq<WindowIdentity>,
    rank: int,
)
    ensures
        crate::order::of_rank(ordered(groups, recent), group_rank(recent), rank)
            == crate::order::of_rank(
            Seq::new(groups.len(), |i: int| sorted_group(groups[i], recent)),
            group_rank(recent),
            rank,
        ),
{
    crate::order::sorted_is_stable(
        Seq::new(groups.len(), |i: int| sorted_group(groups[i], recent)),
        group_rank(recent),
        rank,
    );
}

/// The windows of a snapshot are listed group by group, each in its order.
pub proof fn windows_are_listed_in_order(
    groups: Seq<(Seq<char>, Seq<WindowRecord>)>,
    name: Seq<char>,
    records: Seq<WindowRecord>,
    i: int,
)
    requires
        0 <= i < records.len(),
    ensures
        ({
            let before = all_windows(groups);
            let after = all_windows(groups.push((name, records)));
            &&& after.len() == before.len() + records.len()
            &&& after.take(before.len() as int) =~= before
            &&& after[before.len() + i] == records[i].identity
        }),
        all_windows(seq![]).len() == 0,
{
    assert(groups.push((name, records)).drop_last() =~= groups);
}

}
