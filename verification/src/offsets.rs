use vstd::prelude::*;

verus! {

/// Whether `offsets` partition a store of `len` values: the store is no
/// longer than the index type allows, the offsets start at zero, never
/// decrease, and none lies beyond the end of the store; without offsets the
/// store is empty.
pub open spec fn partitions(offsets: Seq<usize>, len: nat) -> bool {
    &&& len <= usize::MAX
    &&& offsets.len() == 0 ==> len == 0
    &&& offsets.len() > 0 ==> offsets[0] == 0
    &&& forall|j: int, k: int| 0 <= j <= k < offsets.len() ==> offsets[j] <= offsets[k]
    &&& forall|k: int| 0 <= k < offsets.len() ==> offsets[k] <= len
}

/// Decide whether `offsets` partition a store of `len` values.
pub fn is_partition(offsets: &Vec<usize>, len: usize) -> (holds: bool)
    ensures
        holds == partitions(offsets@, len as nat),
{
    let count = offsets.len();
    if count == 0 {
        return len == 0;
    }
    if offsets[0] != 0 {
        return false;
    }
    let mut k: usize = 1;
    while k < count
        invariant
            1 <= k <= count,
            count == offsets@.len(),
            forall|i: int, j: int| 0 <= i <= j < k ==> offsets@[i] <= offsets@[j],
        decreases count - k,
    {
        if offsets[k - 1] > offsets[k] {
            return false;
        }
        k += 1;
    }
    offsets[count - 1] <= len
}

/// Whether `offset` can be moved by `delta` and stay within the index type.
pub open spec fn fits(offset: usize, delta: int) -> bool {
    0 <= offset + delta <= usize::MAX
}

/// The first position at or after `from` whose offset cannot be moved by
/// `delta`, or the length of `offsets` when every one of them can.
pub open spec fn shift_stop(offsets: Seq<usize>, from: int, delta: int) -> int
    decreases offsets.len() - from,
{
    if from < 0 || from >= offsets.len() {
        offsets.len() as int
    } else if !fits(offsets[from], delta) {
        from
    } else {
        shift_stop(offsets, from + 1, delta)
    }
}

/// `offsets` with the entries at positions `from..to` moved by `delta`.
pub open spec fn shifted(offsets: Seq<usize>, from: int, to: int, delta: int) -> Seq<usize> {
    Seq::new(
        offsets.len(),
        |k: int|
            if from <= k < to {
                (offsets[k] + delta) as usize
            } else {
                offsets[k]
            },
    )
}

/// Where the moving of sorted offsets stops. Offsets that never decrease and
/// lie within a store of `len` values can all be moved to the right by the
/// amount by which the store grew; moved to the left, either all of them stay
/// at or above zero or the very first one does not.
pub proof fn lemma_shift_stop_of_sorted(offsets: Seq<usize>, len: int, id: int, delta: int)
    requires
        0 <= id < offsets.len(),
        forall|j: int, k: int| 0 <= j <= k < offsets.len() ==> offsets[j] <= offsets[k],
        forall|k: int| 0 <= k < offsets.len() ==> offsets[k] <= len,
        len + delta <= usize::MAX,
    ensures
        delta >= 0 ==> shift_stop(offsets, id + 1, delta) == offsets.len(),
        delta < 0 && id + 1 < offsets.len() && offsets[id + 1] + delta >= 0 ==> shift_stop(
            offsets,
            id + 1,
            delta,
        ) == offsets.len(),
        delta < 0 && id + 1 < offsets.len() && offsets[id + 1] + delta < 0 ==> shift_stop(
            offsets,
            id + 1,
            delta,
        ) == id + 1,
        id + 1 == offsets.len() ==> shift_stop(offsets, id + 1, delta) == offsets.len(),
{
    if id + 1 < offsets.len() && (delta >= 0 || offsets[id + 1] + delta >= 0) {
        lemma_shift_stop_all_fit(offsets, id + 1, delta);
    }
}

/// When every offset from `from` on can be moved by `delta`, the moving
/// stops only at the end.
pub proof fn lemma_shift_stop_all_fit(offsets: Seq<usize>, from: int, delta: int)
    requires
        0 <= from <= offsets.len(),
        forall|k: int| from <= k < offsets.len() ==> fits(offsets[k], delta),
    ensures
        shift_stop(offsets, from, delta) == offsets.len(),
    decreases offsets.len() - from,
{
    if from < offsets.len() {
        lemma_shift_stop_all_fit(offsets, from + 1, delta);
    }
}

} // verus!
