use crate::allocation::{extended, CacheArenaAllocation};
use crate::arena::GenericCacheArena;
use crate::backing::{spliced, ArenaBacking, Hash256};
use crate::error::Error;
use crate::offsets::shifted;
use vstd::prelude::*;

verus! {

/// A splice within one allocation resizes that allocation and no other.
///
/// `after` is `before` with the values at `start..end` of allocation `id`
/// replaced by `replacement` in the backing store, and with the offsets of
/// the allocations after `id` moved by the change in length. Then `after` is
/// well formed, allocation `id` holds the spliced values, every other
/// allocation holds the values it held, and each allocation after `id` starts
/// exactly the change in length further on.
pub proof fn lemma_splice_within<B: ArenaBacking>(
    before: GenericCacheArena<B>,
    after: GenericCacheArena<B>,
    id: int,
    start: int,
    end: int,
    replacement: Seq<Hash256>,
)
    requires
        before.well_formed(),
        0 <= id < before@.len(),
        0 <= start <= end <= before@[id].len(),
        before.backing_view().len() - (end - start) + replacement.len() <= usize::MAX,
        after.backing_view() == spliced(
            before.backing_view(),
            before.start_of(id) + start,
            before.start_of(id) + end,
            replacement,
        ),
        after.offsets_view() == shifted(
            before.offsets_view(),
            id + 1,
            before.offsets_view().len() as int,
            replacement.len() - (end - start),
        ),
    ensures
        after.well_formed(),
        after@ == before@.update(id, spliced(before@[id], start, end, replacement)),
        forall|other: int| 0 <= other < before@.len() && other != id ==> after@[other] == before@[other],
        forall|earlier: int| 0 <= earlier <= id ==> after.start_of(earlier) == before.start_of(earlier),
        forall|later: int|
            id < later < before@.len() ==> after.start_of(later) == before.start_of(later)
                + replacement.len() - (end - start),
{
    let delta = replacement.len() - (end - start);
    let n = before.offsets_view().len() as int;
    let old_offsets = before.offsets_view();
    let new_offsets = after.offsets_view();
    assert forall|k: int| id < k < n implies new_offsets[k] == old_offsets[k] + delta by {}
    assert forall|j: int, k: int| 0 <= j <= k < n implies new_offsets[j] <= new_offsets[k] by {}
    assert forall|b: int| 0 <= b < n implies after.allocation(b) == before@.update(
        id,
        spliced(before@[id], start, end, replacement),
    )[b] by {}
}

/// The number of values in all of `allocations` together.
pub open spec fn total_len(allocations: Seq<Seq<Hash256>>) -> nat
    decreases allocations.len(),
{
    if allocations.len() == 0 {
        0
    } else {
        total_len(allocations.drop_last()) + allocations.last().len()
    }
}

/// The allocations of a well-formed arena fill its backing store: their
/// lengths add up to the length of the store, and laid end to end they are
/// the store.
pub proof fn lemma_allocations_fill_backing<B: ArenaBacking>(arena: GenericCacheArena<B>)
    requires
        arena.well_formed(),
    ensures
        total_len(arena@) == arena.backing_view().len(),
        arena@.flatten() == arena.backing_view(),
{
    let n = arena@.len() as int;
    if n > 0 {
        lemma_prefix_fills(arena, n);
        assert(arena@.take(n) == arena@);
    }
}

/// The first `count` allocations of a well-formed arena, laid end to end,
/// are the backing store up to where allocation `count - 1` ends.
proof fn lemma_prefix_fills<B: ArenaBacking>(arena: GenericCacheArena<B>, count: int)
    requires
        arena.well_formed(),
        1 <= count <= arena@.len(),
    ensures
        total_len(arena@.take(count)) == arena.end_of(count - 1),
        arena@.take(count).flatten() == arena.backing_view().take(arena.end_of(count - 1)),
    decreases count,
{
    let firsts = arena@.take(count);
    assert(firsts.drop_last() == arena@.take(count - 1));
    firsts.drop_last().lemma_flatten_push(firsts.last());
    assert(firsts.drop_last().push(firsts.last()) == firsts);
    if count == 1 {
        assert(total_len(firsts.drop_last()) == 0);
    } else {
        lemma_prefix_fills(arena, count - 1);
    }
}

/// Changing one value in place changes one position of one allocation.
///
/// `after` is `before` with the value at position `i` of allocation `id`
/// replaced in the backing store, the offsets as they were. Then `after` is
/// well formed and its allocations are those of `before` but for that value.
pub proof fn lemma_update_within<B: ArenaBacking>(
    before: GenericCacheArena<B>,
    after: GenericCacheArena<B>,
    id: int,
    i: int,
)
    requires
        before.well_formed(),
        0 <= id < before@.len(),
        0 <= i < before@[id].len(),
        after.offsets_view() == before.offsets_view(),
        after.backing_view() == before.backing_view().update(
            before.start_of(id) + i,
            after.backing_view()[before.start_of(id) + i],
        ),
    ensures
        after.well_formed(),
        after@[id][i] == after.backing_view()[before.start_of(id) + i],
        after@ == before@.update(id, before@[id].update(i, after@[id][i])),
{
    let n = before@.len() as int;
    let position = before.start_of(id) + i;
    assert forall|b: int| 0 <= b < n implies after.allocation(b) == before@.update(
        id,
        before@[id].update(i, after.backing_view()[position]),
    )[b] by {}
}

/// `allocations` after the values of `values` were pushed onto allocation
/// `id`, one at a time and in their order.
pub open spec fn pushed_each(
    allocations: Seq<Seq<Hash256>>,
    id: int,
    values: Seq<Hash256>,
) -> Seq<Seq<Hash256>>
    decreases values.len(),
{
    if values.len() == 0 {
        allocations
    } else {
        extended(pushed_each(allocations, id, values.drop_last()), id, seq![values.last()])
    }
}

/// Pushes accumulate. After any number of pushes onto allocation `id`, the
/// allocation holds what it held followed by the pushed values in the order
/// of the pushes, so that it has grown by their number, and no other
/// allocation has changed. Pushed onto an empty allocation, the values are
/// the allocation.
pub proof fn lemma_pushes_accumulate(allocations: Seq<Seq<Hash256>>, id: int, values: Seq<Hash256>)
    requires
        0 <= id < allocations.len(),
    ensures
        pushed_each(allocations, id, values) == extended(allocations, id, values),
        pushed_each(allocations, id, values).len() == allocations.len(),
        pushed_each(allocations, id, values)[id].len() == allocations[id].len() + values.len(),
        forall|i: int|
            0 <= i < values.len() ==> pushed_each(allocations, id, values)[id][allocations[id].len()
                + i] == values[i],
        forall|other: int|
            0 <= other < allocations.len() && other != id ==> pushed_each(
                allocations,
                id,
                values,
            )[other] == allocations[other],
        allocations[id].len() == 0 ==> pushed_each(allocations, id, values)[id] == values,
    decreases values.len(),
{
    if values.len() > 0 {
        lemma_pushes_accumulate(allocations, id, values.drop_last());
        assert(pushed_each(allocations, id, values) =~~= extended(allocations, id, values));
    }
}

/// Allocations are independent. Where `after` is `before` with `values`
/// appended to the allocation of `handle`, every other allocation holds in
/// `after` what it held in `before`, position by position; the allocations
/// created up to and including that of `handle` start where they started,
/// and each one created later starts exactly `values.len()` further on.
pub proof fn lemma_append_leaves_others<B: ArenaBacking>(
    handle: CacheArenaAllocation,
    before: GenericCacheArena<B>,
    after: GenericCacheArena<B>,
    values: Seq<Hash256>,
)
    requires
        before.well_formed(),
        handle.id() < before@.len(),
        handle.appended(&before, &after, values),
    ensures
        after@.len() == before@.len(),
        after@[handle.id() as int] == before@[handle.id() as int] + values,
        forall|other: int|
            0 <= other < before@.len() && other != handle.id() ==> after@[other] == before@[other],
        forall|earlier: int|
            0 <= earlier <= handle.id() ==> after.start_of(earlier) == before.start_of(earlier),
        forall|later: int|
            handle.id() < later < before@.len() ==> after.start_of(later) == before.start_of(later)
                + values.len(),
{
}

/// Reading is repeatable: whatever two calls of `get` return for the same
/// arena, allocation and position, they return the same.
pub proof fn lemma_get_is_repeatable<B: ArenaBacking>(
    arena: GenericCacheArena<B>,
    alloc_id: usize,
    i: usize,
    first: Result<Option<Hash256>, Error>,
    second: Result<Option<Hash256>, Error>,
)
    requires
        arena.well_formed(),
        call_ensures(GenericCacheArena::<B>::get, (&arena, alloc_id, i), first),
        call_ensures(GenericCacheArena::<B>::get, (&arena, alloc_id, i), second),
    ensures
        first == second,
{
}

} // verus!
