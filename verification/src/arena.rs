use crate::allocation::CacheArenaAllocation;
use crate::backing::{spliced, ArenaBacking, Hash256};
use crate::error::Error;
use crate::lemmas::{
    lemma_allocations_fill_backing, lemma_splice_within, lemma_update_within, total_len,
};
use crate::offsets::{is_partition, lemma_shift_stop_of_sorted, partitions, shift_stop, shifted};
use std::ops::Range;
use vstd::prelude::*;

verus! {

/// A single contiguous store from which many growable allocations are
/// carved. Allocation `k` occupies the positions from its offset up to the
/// offset of allocation `k + 1`, or up to the end of the store when it is the
/// last one. Resizing one allocation moves every value to its right.
#[derive(Debug, PartialEq, Clone)]
pub struct GenericCacheArena<B: ArenaBacking> {
    /// The backing store, holding the values of every allocation.
    backing: B,
    /// The position in `backing` at which each allocation starts.
    offsets: Vec<usize>,
}

/// An arena backed by a heap-resident buffer.
pub type CacheArena = GenericCacheArena<Vec<Hash256>>;

impl<B: ArenaBacking> Default for GenericCacheArena<B> {
    /// An arena without allocations.
    fn default() -> (arena: Self)
        ensures
            arena.well_formed(),
            arena.backing_view() == Seq::<Hash256>::empty(),
            arena.offsets_view() == Seq::<usize>::empty(),
            arena@ == Seq::<Seq<Hash256>>::empty(),
    {
        Self::with_capacity(0)
    }
}

impl<B: ArenaBacking> View for GenericCacheArena<B> {
    type V = Seq<Seq<Hash256>>;

    /// The allocations in creation order, each as the sequence of its values.
    open spec fn view(&self) -> Seq<Seq<Hash256>> {
        Seq::new(self.offsets_view().len(), |k: int| self.allocation(k))
    }
}

impl<B: ArenaBacking> GenericCacheArena<B> {
    /// Every value held by the backing store, in order.
    pub closed spec fn backing_view(&self) -> Seq<Hash256> {
        self.backing.contents()
    }

    /// The offset table.
    pub closed spec fn offsets_view(&self) -> Seq<usize> {
        self.offsets@
    }

    /// Where allocation `id` starts in the backing store.
    pub open spec fn start_of(&self, id: int) -> int {
        self.offsets_view()[id] as int
    }

    /// Where allocation `id` ends in the backing store.
    pub open spec fn end_of(&self, id: int) -> int {
        if id + 1 < self.offsets_view().len() {
            self.offsets_view()[id + 1] as int
        } else {
            self.backing_view().len() as int
        }
    }

    /// The values of allocation `id`.
    pub open spec fn allocation(&self, id: int) -> Seq<Hash256> {
        self.backing_view().subrange(self.start_of(id), self.end_of(id))
    }

    /// The offsets partition the backing store.
    pub open spec fn well_formed(&self) -> bool {
        partitions(self.offsets_view(), self.backing_view().len())
    }

    /// Instantiate an arena whose backing store has room for `capacity` values.
    pub fn with_capacity(capacity: usize) -> (arena: Self)
        ensures
            arena.well_formed(),
            arena.backing_view() == Seq::<Hash256>::empty(),
            arena.offsets_view() == Seq::<usize>::empty(),
            arena@ == Seq::<Seq<Hash256>>::empty(),
    {
        Self { backing: B::with_capacity(capacity), offsets: Vec::new() }
    }

    /// Put an arena together from a backing store and an offset table, as
    /// they come out of storage. `None` unless the offsets partition the store.
    pub fn from_parts(backing: B, offsets: Vec<usize>) -> (arena: Option<Self>)
        ensures
            arena is Some <==> partitions(offsets@, backing.contents().len()),
            arena matches Some(arena) ==> {
                &&& arena.well_formed()
                &&& arena.backing_view() == backing.contents()
                &&& arena.offsets_view() == offsets@
            },
    {
        let len = backing.len();
        if is_partition(&offsets, len) {
            Some(Self { backing, offsets })
        } else {
            None
        }
    }

    /// The backing store.
    pub fn backing(&self) -> (backing: &B)
        ensures
            backing.contents() == self.backing_view(),
    {
        &self.backing
    }

    /// The offset table.
    pub fn offsets(&self) -> (offsets: &Vec<usize>)
        ensures
            offsets@ == self.offsets_view(),
    {
        &self.offsets
    }

    /// Produce an allocation of zero length at the end of the backing store.
    pub fn allocate(&mut self) -> (allocation: CacheArenaAllocation)
        ensures
            allocation.id() == old(self).offsets_view().len(),
            final(self).backing_view() == old(self).backing_view(),
            final(self).offsets_view() == old(self).offsets_view().push(
                old(self).backing_view().len() as usize,
            ),
            old(self).well_formed() ==> {
                &&& final(self).well_formed()
                &&& final(self)@ == old(self)@.push(Seq::<Hash256>::empty())
                &&& final(self)@[allocation.id() as int].len() == 0
            },
    {
        let alloc_id = self.offsets.len();
        let end = self.backing.len();
        self.offsets.push(end);
        proof {
            if old(self).well_formed() {
                assert(final(self)@ =~~= old(self)@.push(Seq::<Hash256>::empty()));
            }
        }
        CacheArenaAllocation::new(alloc_id)
    }

    /// Move the offsets of the allocations after `alloc_id` to the right by
    /// `grow_by`, stopping at the first one that would leave the index type.
    fn grow(&mut self, alloc_id: usize, grow_by: usize) -> (result: Result<(), Error>)
        ensures
            final(self).backing_view() == old(self).backing_view(),
            alloc_id >= old(self).offsets_view().len() ==> result == Err::<(), Error>(
                Error::UnknownAllocId(alloc_id),
            ) && final(self).offsets_view() == old(self).offsets_view(),
            alloc_id < old(self).offsets_view().len() ==> ({
                let stop = shift_stop(old(self).offsets_view(), alloc_id + 1, grow_by as int);
                &&& final(self).offsets_view() == shifted(
                    old(self).offsets_view(),
                    alloc_id + 1,
                    stop,
                    grow_by as int,
                )
                &&& result == if stop == old(self).offsets_view().len() {
                    Ok::<(), Error>(())
                } else {
                    Err::<(), Error>(Error::OffsetOverflow)
                }
            }),
    {
        if alloc_id < self.offsets.len() {
            let ghost before = self.offsets@;
            let mut k: usize = alloc_id + 1;
            while k < self.offsets.len()
                invariant
                    alloc_id < k <= self.offsets@.len(),
                    self.offsets@.len() == before.len(),
                    self.backing == old(self).backing,
                    before == old(self).offsets@,
                    self.offsets@ == shifted(before, alloc_id + 1, k as int, grow_by as int),
                    shift_stop(before, alloc_id + 1, grow_by as int) == shift_stop(
                        before,
                        k as int,
                        grow_by as int,
                    ),
                decreases self.offsets@.len() - k,
            {
                match self.offsets[k].checked_add(grow_by) {
                    Some(moved) => {
                        self.offsets[k] = moved;
                    },
                    None => {
                        return Err(Error::OffsetOverflow);
                    },
                }
                k += 1;
            }
            Ok(())
        } else {
            Err(Error::UnknownAllocId(alloc_id))
        }
    }

    /// Move the offsets of the allocations after `alloc_id` to the left by
    /// `shrink_by`, stopping at the first one that would fall below zero.
    fn shrink(&mut self, alloc_id: usize, shrink_by: usize) -> (result: Result<(), Error>)
        ensures
            final(self).backing_view() == old(self).backing_view(),
            alloc_id >= old(self).offsets_view().len() ==> result == Err::<(), Error>(
                Error::UnknownAllocId(alloc_id),
            ) && final(self).offsets_view() == old(self).offsets_view(),
            alloc_id < old(self).offsets_view().len() ==> ({
                let stop = shift_stop(old(self).offsets_view(), alloc_id + 1, -(shrink_by as int));
                &&& final(self).offsets_view() == shifted(
                    old(self).offsets_view(),
                    alloc_id + 1,
                    stop,
                    -(shrink_by as int),
                )
                &&& result == if stop == old(self).offsets_view().len() {
                    Ok::<(), Error>(())
                } else {
                    Err::<(), Error>(Error::OffsetUnderflow)
                }
            }),
    {
        if alloc_id < self.offsets.len() {
            let ghost before = self.offsets@;
            let ghost delta = -(shrink_by as int);
            let mut k: usize = alloc_id + 1;
            while k < self.offsets.len()
                invariant
                    alloc_id < k <= self.offsets@.len(),
                    self.offsets@.len() == before.len(),
                    self.backing == old(self).backing,
                    before == old(self).offsets@,
                    delta == -(shrink_by as int),
                    self.offsets@ == shifted(before, alloc_id + 1, k as int, delta),
                    shift_stop(before, alloc_id + 1, delta) == shift_stop(before, k as int, delta),
                decreases self.offsets@.len() - k,
            {
                match self.offsets[k].checked_sub(shrink_by) {
                    Some(moved) => {
                        self.offsets[k] = moved;
                    },
                    None => {
                        return Err(Error::OffsetUnderflow);
                    },
                }
                k += 1;
            }
            Ok(())
        } else {
            Err(Error::UnknownAllocId(alloc_id))
        }
    }

    /// Whether a splice of `range`, relative to allocation `alloc_id`, gets
    /// as far as the backing store: the allocation exists and both ends of
    /// the range, counted from the start of the store, are within the index
    /// type.
    pub open spec fn range_is_addressable(&self, alloc_id: usize, range: Range<usize>) -> bool {
        &&& alloc_id < self.offsets_view().len()
        &&& self.start_of(alloc_id as int) + range.start <= usize::MAX
        &&& self.start_of(alloc_id as int) + range.end <= usize::MAX
    }

    /// Replace the values at `range` of allocation `alloc_id` with
    /// `replace_with`; the replaced values are dropped. The range is relative
    /// to the allocation: with an offset of 20, `0..1` names position 20 of
    /// the backing store.
    ///
    /// A range that stays within the allocation resizes that allocation alone.
    /// One that reaches past its end removes values of the allocations that
    /// follow, and the offsets are moved all the same.
    pub fn splice_forgetful(
        &mut self,
        alloc_id: usize,
        range: Range<usize>,
        replace_with: &[Hash256],
    ) -> (result: Result<(), Error>)
        requires
            old(self).well_formed(),
            old(self).range_is_addressable(alloc_id, range) ==> {
                &&& range.start <= range.end
                &&& old(self).start_of(alloc_id as int) + range.end <= old(self).backing_view().len()
                &&& old(self).backing_view().len() - (range.end - range.start) + replace_with@.len()
                    <= usize::MAX
            },
        ensures
            alloc_id >= old(self).offsets_view().len() ==> result == Err::<(), Error>(
                Error::UnknownAllocId(alloc_id),
            ) && *final(self) == *old(self),
            alloc_id < old(self).offsets_view().len() && !old(self).range_is_addressable(
                alloc_id,
                range,
            ) ==> result == Err::<(), Error>(Error::RangeOverFlow) && *final(self) == *old(self),
            old(self).range_is_addressable(alloc_id, range) ==> ({
                let start = old(self).start_of(alloc_id as int);
                let delta = replace_with@.len() - (range.end - range.start);
                let stop = shift_stop(old(self).offsets_view(), alloc_id + 1, delta);
                &&& final(self).backing_view() == spliced(
                    old(self).backing_view(),
                    start + range.start,
                    start + range.end,
                    replace_with@,
                )
                &&& final(self).offsets_view() == shifted(
                    old(self).offsets_view(),
                    alloc_id + 1,
                    stop,
                    delta,
                )
                &&& result == if stop == old(self).offsets_view().len() {
                    Ok::<(), Error>(())
                } else {
                    Err::<(), Error>(Error::OffsetUnderflow)
                }
            }),
            alloc_id < old(self)@.len() && range.start <= range.end <= old(self)@[alloc_id as int].len()
                ==> result.is_ok() && final(self).well_formed() && final(self)@ == old(self)@.update(
                alloc_id as int,
                spliced(
                    old(self)@[alloc_id as int],
                    range.start as int,
                    range.end as int,
                    replace_with@,
                ),
            ),
    {
        if alloc_id >= self.offsets.len() {
            return Err(Error::UnknownAllocId(alloc_id));
        }
        let offset = self.offsets[alloc_id];
        let prev_len = self.backing.len();
        let start = match range.start.checked_add(offset) {
            Some(start) => start,
            None => {
                return Err(Error::RangeOverFlow);
            },
        };
        let end = match range.end.checked_add(offset) {
            Some(end) => end,
            None => {
                return Err(Error::RangeOverFlow);
            },
        };
        let ghost delta = replace_with@.len() - (range.end - range.start);

        self.backing.splice_forgetful(start..end, replace_with);

        let new_len = self.backing.len();
        proof {
            lemma_shift_stop_of_sorted(old(self).offsets_view(), prev_len as int, alloc_id as int, delta);
        }
        if prev_len > new_len {
            match self.shrink(alloc_id, prev_len - new_len) {
                Ok(()) => {},
                Err(e) => {
                    return Err(e);
                },
            }
        } else if prev_len < new_len {
            match self.grow(alloc_id, new_len - prev_len) {
                Ok(()) => {},
                Err(e) => {
                    return Err(e);
                },
            }
        } else {
            proof {
                assert(self.offsets@ =~= shifted(
                    old(self).offsets_view(),
                    alloc_id + 1,
                    old(self).offsets_view().len() as int,
                    0,
                ));
            }
        }
        proof {
            if range.end <= old(self)@[alloc_id as int].len() {
                lemma_splice_within(
                    *old(self),
                    *self,
                    alloc_id as int,
                    range.start as int,
                    range.end as int,
                    replace_with@,
                );
            }
        }
        Ok(())
    }

    /// The number of values in allocation `alloc_id`.
    pub fn len(&self, alloc_id: usize) -> (result: Result<usize, Error>)
        requires
            self.well_formed(),
        ensures
            result == if alloc_id < self@.len() {
                Ok::<usize, Error>(self@[alloc_id as int].len() as usize)
            } else {
                Err::<usize, Error>(Error::UnknownAllocId(alloc_id))
            },
    {
        if alloc_id >= self.offsets.len() {
            return Err(Error::UnknownAllocId(alloc_id));
        }
        let start = self.offsets[alloc_id];
        let end = if alloc_id + 1 < self.offsets.len() {
            self.offsets[alloc_id + 1]
        } else {
            self.backing.len()
        };
        Ok(end - start)
    }

    /// The value at position `i` of allocation `alloc_id`, or `None` when the
    /// allocation has no such position.
    pub fn get(&self, alloc_id: usize, i: usize) -> (result: Result<Option<Hash256>, Error>)
        requires
            self.well_formed(),
        ensures
            result == if alloc_id >= self@.len() {
                Err::<Option<Hash256>, Error>(Error::UnknownAllocId(alloc_id))
            } else if i < self@[alloc_id as int].len() {
                Ok::<Option<Hash256>, Error>(Some(self@[alloc_id as int][i as int]))
            } else {
                Ok::<Option<Hash256>, Error>(None)
            },
    {
        let len = match self.len(alloc_id) {
            Ok(len) => len,
            Err(e) => {
                return Err(e);
            },
        };
        if i < len {
            let offset = self.offsets[alloc_id];
            Ok(self.backing.get(i + offset))
        } else {
            Ok(None)
        }
    }

    /// The bytes of the value at position `i` of allocation `alloc_id`, open
    /// to change, or `None` when the allocation has no such position.
    pub fn get_mut(&mut self, alloc_id: usize, i: usize) -> (result: Result<
        Option<&mut [u8]>,
        Error,
    >)
        requires
            old(self).well_formed(),
        ensures
            alloc_id >= old(self)@.len() ==> (result matches Err(e) && e == Error::UnknownAllocId(
                alloc_id,
            )) && *final(self) == *old(self),
            alloc_id < old(self)@.len() && i >= old(self)@[alloc_id as int].len() ==> (
            result matches Ok(None)) && *final(self) == *old(self),
            alloc_id < old(self)@.len() && i < old(self)@[alloc_id as int].len() ==> {
                &&& result matches Ok(Some(bytes))
                &&& bytes@ == old(self)@[alloc_id as int][i as int]@
                &&& final(self)@[alloc_id as int][i as int]@ == final(bytes)@
                &&& final(self).well_formed()
                &&& final(self).offsets_view() == old(self).offsets_view()
                &&& final(self)@ == old(self)@.update(
                    alloc_id as int,
                    old(self)@[alloc_id as int].update(
                        i as int,
                        final(self)@[alloc_id as int][i as int],
                    ),
                )
            },
    {
        let len = match self.len(alloc_id) {
            Ok(len) => len,
            Err(e) => {
                return Err(e);
            },
        };
        if i < len {
            let offset = self.offsets[alloc_id];
            proof {
                let before = *self;
                assert forall|after: Self|
                    #[trigger] after.offsets_view() == before.offsets_view()
                        && after.backing_view() == before.backing_view().update(
                        offset + i,
                        after.backing_view()[offset + i],
                    ) implies after.well_formed() && after@[alloc_id as int][i as int]
                    == after.backing_view()[offset + i] && after@ == before@.update(
                    alloc_id as int,
                    before@[alloc_id as int].update(i as int, after@[alloc_id as int][i as int]),
                ) by {
                    lemma_update_within(before, after, alloc_id as int, i as int);
                }
            }
            Ok(self.backing.get_mut(i + offset))
        } else {
            Ok(None)
        }
    }

    /// The positions of the backing store that allocation `alloc_id` occupies.
    pub fn range(&self, alloc_id: usize) -> (result: Result<Range<usize>, Error>)
        ensures
            alloc_id >= self.offsets_view().len() ==> result == Err::<Range<usize>, Error>(
                Error::UnknownAllocId(alloc_id),
            ),
            alloc_id < self.offsets_view().len() ==> (result matches Ok(range) && range.start
                == self.start_of(alloc_id as int) && range.end == self.end_of(alloc_id as int)),
    {
        if alloc_id >= self.offsets.len() {
            return Err(Error::UnknownAllocId(alloc_id));
        }
        let start = self.offsets[alloc_id];
        let end = if alloc_id + 1 < self.offsets.len() {
            self.offsets[alloc_id + 1]
        } else {
            self.backing.len()
        };
        Ok(start..end)
    }

    /// Every value of allocation `alloc_id`, in order.
    pub fn iter(&self, alloc_id: usize) -> (result: Result<Vec<Hash256>, Error>)
        requires
            self.well_formed(),
        ensures
            alloc_id >= self@.len() ==> (result matches Err(e) && e == Error::UnknownAllocId(
                alloc_id,
            )),
            alloc_id < self@.len() ==> (result matches Ok(values) && values@
                == self@[alloc_id as int]),
    {
        let range = match self.range(alloc_id) {
            Ok(range) => range,
            Err(e) => {
                return Err(e);
            },
        };
        Ok(self.backing.iter_range(range))
    }

    /// Every value of allocation `alloc_id`, in order and open to change.
    ///
    /// The values come as one slice of the backing store. A slice keeps its
    /// length whatever is written to it; a caller that has shown as much of
    /// its own writes learns that the arena is well formed afterwards and
    /// that the allocation holds what the slice then held.
    pub fn iter_mut(&mut self, alloc_id: usize) -> (result: Result<&mut [Hash256], Error>)
        requires
            old(self).well_formed(),
        ensures
            alloc_id >= old(self)@.len() ==> (result matches Err(e) && e == Error::UnknownAllocId(
                alloc_id,
            )) && *final(self) == *old(self),
            alloc_id < old(self)@.len() ==> {
                &&& result matches Ok(values)
                &&& values@ == old(self)@[alloc_id as int]
                &&& final(self).offsets_view() == old(self).offsets_view()
                &&& final(self).backing_view() == spliced(
                    old(self).backing_view(),
                    old(self).start_of(alloc_id as int),
                    old(self).end_of(alloc_id as int),
                    final(values)@,
                )
                &&& final(values)@.len() == values@.len() ==> {
                    &&& final(self).well_formed()
                    &&& final(self)@ == old(self)@.update(alloc_id as int, final(values)@)
                }
            },
    {
        let range = match self.range(alloc_id) {
            Ok(range) => range,
            Err(e) => {
                return Err(e);
            },
        };
        proof {
            let before = *self;
            let len = before@[alloc_id as int].len() as int;
            assert forall|after: Self, values: Seq<Hash256>|
                #[trigger] after.offsets_view() == before.offsets_view() && values.len() == len
                    && after.backing_view() == #[trigger] spliced(
                    before.backing_view(),
                    range.start as int,
                    range.end as int,
                    values,
                ) implies after.well_formed() && after@ == before@.update(
                alloc_id as int,
                values,
            ) by {
                assert(before.offsets_view() =~= shifted(
                    before.offsets_view(),
                    alloc_id + 1,
                    before.offsets_view().len() as int,
                    0,
                ));
                lemma_splice_within(before, after, alloc_id as int, 0, len, values);
            }
        }
        Ok(self.backing.iter_range_mut(range))
    }

    /// The number of values stored in the arena: those of all its
    /// allocations together.
    pub fn backing_len(&self) -> (len: usize)
        ensures
            len == self.backing_view().len(),
            self.well_formed() ==> len == total_len(self@),
    {
        proof {
            if self.well_formed() {
                lemma_allocations_fill_backing(*self);
            }
        }
        self.backing.len()
    }

    /// Make room in the backing store for `capacity` further values. No
    /// allocation changes.
    pub fn extend_capacity(&mut self, capacity: usize)
        ensures
            final(self).backing_view() == old(self).backing_view(),
            final(self).offsets_view() == old(self).offsets_view(),
            final(self)@ == old(self)@,
            final(self).well_formed() == old(self).well_formed(),
    {
        self.backing.extend_capacity(capacity)
    }
}

} // verus!
