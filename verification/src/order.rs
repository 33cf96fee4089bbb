//! Stable sorting by a rank.

use vstd::prelude::*;

verus! {

/// The place of the first element whose rank is not less than the given one.
pub open spec fn slot_for<T>(items: Seq<T>, rank: spec_fn(T) -> int, value: int) -> int
    decreases items.len(),
{
    if items.len() == 0 || rank(items[0]) >= value {
        0
    } else {
        1 + slot_for(items.drop_first(), rank, value)
    }
}

/// The elements in the order of their ranks; those of one rank keep their order.
pub open spec fn stable_sort<T>(items: Seq<T>, rank: spec_fn(T) -> int) -> Seq<T>
    decreases items.len(),
{
    if items.len() == 0 {
        items
    } else {
        let rest = stable_sort(items.drop_first(), rank);
        rest.insert(slot_for(rest, rank, rank(items[0])), items[0])
    }
}

/// Whether the ranks never decrease.
pub open spec fn is_ranked<T>(items: Seq<T>, rank: spec_fn(T) -> int) -> bool {
    forall|i: int, j: int|
        0 <= i <= j < items.len() ==> rank(#[trigger] items[i]) <= rank(#[trigger] items[j])
}

/// The elements of one rank, in order.
pub open spec fn of_rank<T>(items: Seq<T>, rank: spec_fn(T) -> int, value: int) -> Seq<T>
    decreases items.len(),
{
    if items.len() == 0 {
        seq![]
    } else {
        let rest = of_rank(items.drop_first(), rank, value);
        if rank(items[0]) == value {
            seq![items[0]] + rest
        } else {
            rest
        }
    }
}

/// The slot of a rank lies within the list; only smaller ranks stand before it, none at it.
pub proof fn slot_facts<T>(items: Seq<T>, rank: spec_fn(T) -> int, value: int)
    ensures
        0 <= slot_for(items, rank, value) <= items.len(),
        forall|i: int|
            0 <= i < slot_for(items, rank, value) ==> rank(#[trigger] items[i]) < value,
        slot_for(items, rank, value) < items.len() ==> rank(
            items[slot_for(items, rank, value)],
        ) >= value,
    decreases items.len(),
{
    if items.len() > 0 && rank(items[0]) < value {
        let rest = items.drop_first();
        slot_facts(rest, rank, value);
        assert forall|i: int| 0 <= i < slot_for(items, rank, value) implies rank(
            #[trigger] items[i],
        ) < value by {
            if i > 0 {
                assert(items[i] == rest[i - 1]);
            }
        }
        if slot_for(items, rank, value) < items.len() {
            assert(items[slot_for(items, rank, value)] == rest[slot_for(rest, rank, value)]);
        }
    }
}

/// The place found by a search from the front is the slot.
pub proof fn slot_is<T>(items: Seq<T>, rank: spec_fn(T) -> int, value: int, place: int)
    requires
        0 <= place <= items.len(),
        forall|i: int| 0 <= i < place ==> rank(#[trigger] items[i]) < value,
        place < items.len() ==> rank(items[place]) >= value,
    ensures
        slot_for(items, rank, value) == place,
{
    slot_facts(items, rank, value);
    let slot = slot_for(items, rank, value);
    if slot < place {
        assert(rank(items[slot]) < value);
    }
    if place < slot {
        assert(rank(items[place]) < value);
    }
}

/// Sorting gives ranks that never decrease.
pub proof fn sorted_is_ranked<T>(items: Seq<T>, rank: spec_fn(T) -> int)
    ensures
        is_ranked(stable_sort(items, rank), rank),
    decreases items.len(),
{
    if items.len() > 0 {
        let rest = stable_sort(items.drop_first(), rank);
        let value = rank(items[0]);
        sorted_is_ranked(items.drop_first(), rank);
        slot_facts(rest, rank, value);
        let slot = slot_for(rest, rank, value);
        let all = rest.insert(slot, items[0]);
        assert forall|i: int, j: int| 0 <= i <= j < all.len() implies rank(#[trigger] all[i])
            <= rank(#[trigger] all[j]) by {
            let a = if i < slot {
                i
            } else {
                i - 1
            };
            let b = if j < slot {
                j
            } else {
                j - 1
            };
            if i != slot {
                assert(all[i] == rest[a]);
            }
            if j != slot {
                assert(all[j] == rest[b]);
            }
            if i != slot && j != slot {
                assert(rank(rest[a]) <= rank(rest[b]));
            } else if i == slot && j > slot {
                assert(rank(rest[slot]) >= value);
                assert(rank(rest[slot]) <= rank(rest[b]));
            }
        }
    }
}

/// Sorting loses and adds nothing.
pub proof fn sorted_is_a_permutation<T>(items: Seq<T>, rank: spec_fn(T) -> int)
    ensures
        stable_sort(items, rank).to_multiset() =~= items.to_multiset(),
        stable_sort(items, rank).len() == items.len(),
    decreases items.len(),
{
    broadcast use vstd::seq_lib::group_to_multiset_ensures;

    if items.len() > 0 {
        let rest = stable_sort(items.drop_first(), rank);
        sorted_is_a_permutation(items.drop_first(), rank);
        slot_facts(rest, rank, rank(items[0]));
        let slot = slot_for(rest, rank, rank(items[0]));
        vstd::seq_lib::to_multiset_insert(rest, slot, items[0]);
        assert(items =~= seq![items[0]] + items.drop_first());
        assert(items.drop_first().insert(0, items[0]) =~= items);
        vstd::seq_lib::to_multiset_insert(items.drop_first(), 0, items[0]);
    }
}

proof fn of_rank_insert<T>(
    items: Seq<T>,
    rank: spec_fn(T) -> int,
    value: int,
    place: int,
    item: T,
)
    requires
        0 <= place <= items.len(),
        forall|i: int| 0 <= i < place ==> rank(#[trigger] items[i]) != rank(item),
    ensures
        of_rank(items.insert(place, item), rank, value) == (if rank(item) == value {
            seq![item] + of_rank(items, rank, value)
        } else {
            of_rank(items, rank, value)
        }),
    decreases items.len(),
{
    let all = items.insert(place, item);
    if place == 0 {
        assert(all.drop_first() =~= items);
        assert(all[0] == item);
    } else {
        let rest = items.drop_first();
        assert forall|i: int| 0 <= i < place - 1 implies rank(#[trigger] rest[i]) != rank(item) by {
            assert(rest[i] == items[i + 1]);
        }
        of_rank_insert(rest, rank, value, place - 1, item);
        assert(all.drop_first() =~= rest.insert(place - 1, item));
        assert(all[0] == items[0]);
        assert(rank(items[0]) != rank(item));
    }
}

/// Elements of one rank keep their order.
pub proof fn sorted_is_stable<T>(items: Seq<T>, rank: spec_fn(T) -> int, value: int)
    ensures
        of_rank(stable_sort(items, rank), rank, value) == of_rank(items, rank, value),
    decreases items.len(),
{
    if items.len() > 0 {
        let rest = stable_sort(items.drop_first(), rank);
        sorted_is_stable(items.drop_first(), rank, value);
        slot_facts(rest, rank, rank(items[0]));
        of_rank_insert(rest, rank, value, slot_for(rest, rank, rank(items[0])), items[0]);
    }
}

}
