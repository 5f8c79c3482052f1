use crate::arena::GenericCacheArena;
use crate::backing::{spliced, ArenaBacking, Hash256};
use crate::error::Error;
use crate::offsets::shifted;
use crate::small_vec::{small_vec_as_slice, small_vec_items, SmallVec8};
use vstd::prelude::*;

verus! {

/// A handle to one allocation of an arena: an index into its offset table.
///
/// The handle holds no data. Every operation takes the arena that produced
/// the handle; pairing it with another arena addresses whatever allocation
/// has the same index there.
#[derive(Debug, PartialEq, Eq, Hash, Clone, Copy, Structural)]
pub struct CacheArenaAllocation {
    alloc_id: usize,
}

impl Default for CacheArenaAllocation {
    /// The handle with index zero.
    fn default() -> (allocation: Self)
        ensures
            allocation.id() == 0,
    {
        CacheArenaAllocation { alloc_id: 0 }
    }
}

impl CacheArenaAllocation {
    /// The index of the allocation in the offset table of its arena.
    pub closed spec fn id(&self) -> usize {
        self.alloc_id
    }

    /// The handle of the allocation with index `alloc_id`, as it comes out
    /// of storage. Whether an arena knows the allocation shows when the
    /// handle is used.
    pub fn new(alloc_id: usize) -> (allocation: Self)
        ensures
            allocation.id() == alloc_id,
    {
        CacheArenaAllocation { alloc_id }
    }

    /// The index of the allocation in the offset table of its arena.
    pub fn alloc_id(&self) -> (alloc_id: usize)
        ensures
            alloc_id == self.id(),
    {
        self.alloc_id
    }

    /// A handle is its index and nothing more: two handles are equal exactly
    /// when their indices are.
    pub proof fn lemma_equal_by_index(self, other: Self)
        ensures
            self == other <==> self.id() == other.id(),
    {
    }
}

/// `allocations` with `values` appended to allocation `id`.
pub open spec fn extended(
    allocations: Seq<Seq<Hash256>>,
    id: int,
    values: Seq<Hash256>,
) -> Seq<Seq<Hash256>> {
    allocations.update(id, allocations[id] + values)
}

impl CacheArenaAllocation {
    /// What appending `values` to this allocation does to `before`, an arena
    /// in which the allocation exists: the values stand at the end of the
    /// allocation, every other allocation holds what it held, the backing
    /// store has the values where the allocation ended, and the allocations
    /// created later start `values.len()` further on.
    pub open spec fn appended<B: ArenaBacking>(
        &self,
        before: &GenericCacheArena<B>,
        after: &GenericCacheArena<B>,
        values: Seq<Hash256>,
    ) -> bool {
        &&& after.well_formed()
        &&& after@ == extended(before@, self.id() as int, values)
        &&& after.backing_view() == spliced(
            before.backing_view(),
            before.end_of(self.id() as int),
            before.end_of(self.id() as int),
            values,
        )
        &&& after.offsets_view() == shifted(
            before.offsets_view(),
            self.id() + 1,
            before.offsets_view().len() as int,
            values.len() as int,
        )
    }

    /// Append `values` to the allocation.
    ///
    /// The values must fit: the backing store cannot hold more than the index
    /// type counts.
    pub fn extend_from_slice<B: ArenaBacking>(
        &self,
        arena: &mut GenericCacheArena<B>,
        values: &[Hash256],
    ) -> (result: Result<(), Error>)
        requires
            old(arena).well_formed(),
            self.id() < old(arena)@.len() ==> old(arena).backing_view().len() + values@.len()
                <= usize::MAX,
        ensures
            self.id() >= old(arena)@.len() ==> result == Err::<(), Error>(
                Error::UnknownAllocId(self.id()),
            ) && *final(arena) == *old(arena),
            self.id() < old(arena)@.len() ==> result == Ok::<(), Error>(()) && self.appended(
                old(arena),
                final(arena),
                values@,
            ),
    {
        let len = match arena.len(self.alloc_id) {
            Ok(len) => len,
            Err(e) => {
                return Err(e);
            },
        };
        proof {
            assert(spliced(old(arena)@[self.id() as int], len as int, len as int, values@)
                =~= old(arena)@[self.id() as int] + values@);
        }
        arena.splice_forgetful(self.alloc_id, len..len, values)
    }

    /// Grow the allocation in `arena`, appending `vec` to the current values.
    ///
    /// The values must fit: the backing store cannot hold more than the index
    /// type counts.
    pub fn extend_with_vec<B: ArenaBacking>(
        &self,
        arena: &mut GenericCacheArena<B>,
        vec: SmallVec8<Hash256>,
    ) -> (result: Result<(), Error>)
        requires
            old(arena).well_formed(),
            self.id() < old(arena)@.len() ==> old(arena).backing_view().len() + small_vec_items(
                vec,
            ).len() <= usize::MAX,
        ensures
            self.id() >= old(arena)@.len() ==> result == Err::<(), Error>(
                Error::UnknownAllocId(self.id()),
            ) && *final(arena) == *old(arena),
            self.id() < old(arena)@.len() ==> result == Ok::<(), Error>(()) && self.appended(
                old(arena),
                final(arena),
                small_vec_items(vec),
            ),
    {
        self.extend_from_slice(arena, small_vec_as_slice(&vec))
    }

    /// Append `vec` to the allocation where the values fit, and leave the
    /// arena as it is, with `None`, where the backing store would outgrow the
    /// index type.
    pub fn try_extend_with_vec<B: ArenaBacking>(
        &self,
        arena: &mut GenericCacheArena<B>,
        vec: SmallVec8<Hash256>,
    ) -> (result: Option<Result<(), Error>>)
        requires
            old(arena).well_formed(),
        ensures
            old(arena).backing_view().len() + small_vec_items(vec).len() > usize::MAX ==> result
                is None && *final(arena) == *old(arena),
            old(arena).backing_view().len() + small_vec_items(vec).len() <= usize::MAX ==> {
                &&& result is Some
                &&& self.id() >= old(arena)@.len() ==> result == Some(
                    Err::<(), Error>(Error::UnknownAllocId(self.id())),
                ) && *final(arena) == *old(arena)
                &&& self.id() < old(arena)@.len() ==> result == Some(Ok::<(), Error>(()))
                    && self.appended(old(arena), final(arena), small_vec_items(vec))
            },
    {
        let values = small_vec_as_slice(&vec);
        if values.len() <= usize::MAX - arena.backing_len() {
            Some(self.extend_from_slice(arena, values))
        } else {
            None
        }
    }

    /// Push `item` to the end of the allocation in `arena`.
    ///
    /// An error is returned if the allocation is not known to `arena`. The
    /// value must fit: the backing store cannot hold more than the index type
    /// counts.
    pub fn push<B: ArenaBacking>(&self, arena: &mut GenericCacheArena<B>, item: Hash256) -> (result:
        Result<(), Error>)
        requires
            old(arena).well_formed(),
            self.id() < old(arena)@.len() ==> old(arena).backing_view().len() < usize::MAX,
        ensures
            self.id() >= old(arena)@.len() ==> result == Err::<(), Error>(
                Error::UnknownAllocId(self.id()),
            ) && *final(arena) == *old(arena),
            self.id() < old(arena)@.len() ==> result == Ok::<(), Error>(()) && self.appended(
                old(arena),
                final(arena),
                seq![item],
            ),
    {
        let values: [Hash256; 1] = [item];
        proof {
            assert(values@ =~= seq![item]);
        }
        self.extend_from_slice(arena, values.as_slice())
    }

    /// Get the i'th item in the `arena`, relative to this allocation.
    ///
    /// An error is returned if the allocation is not known to `arena`.
    pub fn get<B: ArenaBacking>(&self, arena: &GenericCacheArena<B>, i: usize) -> (result: Result<
        Option<Hash256>,
        Error,
    >)
        requires
            arena.well_formed(),
        ensures
            result == if self.id() >= arena@.len() {
                Err::<Option<Hash256>, Error>(Error::UnknownAllocId(self.id()))
            } else if i < arena@[self.id() as int].len() {
                Ok::<Option<Hash256>, Error>(Some(arena@[self.id() as int][i as int]))
            } else {
                Ok::<Option<Hash256>, Error>(None)
            },
    {
        arena.get(self.alloc_id, i)
    }

    /// Mutably get the bytes of the i'th item in the `arena`, relative to
    /// this allocation.
    ///
    /// An error is returned if the allocation is not known to `arena`.
    pub fn get_mut<'a, B: ArenaBacking>(
        &self,
        arena: &'a mut GenericCacheArena<B>,
        i: usize,
    ) -> (result: Result<Option<&'a mut [u8]>, Error>)
        requires
            old(arena).well_formed(),
        ensures
            self.id() >= old(arena)@.len() ==> (result matches Err(e) && e
                == Error::UnknownAllocId(self.id())) && *final(arena) == *old(arena),
            self.id() < old(arena)@.len() && i >= old(arena)@[self.id() as int].len() ==> (
            result matches Ok(None)) && *final(arena) == *old(arena),
            self.id() < old(arena)@.len() && i < old(arena)@[self.id() as int].len() ==> {
                &&& result matches Ok(Some(bytes))
                &&& bytes@ == old(arena)@[self.id() as int][i as int]@
                &&& final(arena)@[self.id() as int][i as int]@ == final(bytes)@
                &&& final(arena).well_formed()
                &&& final(arena).offsets_view() == old(arena).offsets_view()
                &&& final(arena)@ == old(arena)@.update(
                    self.id() as int,
                    old(arena)@[self.id() as int].update(
                        i as int,
                        final(arena)@[self.id() as int][i as int],
                    ),
                )
            },
    {
        arena.get_mut(self.alloc_id, i)
    }

    /// Every item of this allocation in the `arena`, in order.
    pub fn iter<B: ArenaBacking>(&self, arena: &GenericCacheArena<B>) -> (result: Result<
        Vec<Hash256>,
        Error,
    >)
        requires
            arena.well_formed(),
        ensures
            self.id() >= arena@.len() ==> (result matches Err(e) && e == Error::UnknownAllocId(
                self.id(),
            )),
            self.id() < arena@.len() ==> (result matches Ok(values) && values@
                == arena@[self.id() as int]),
    {
        arena.iter(self.alloc_id)
    }

    /// Every item of this allocation in the `arena`, in order and open to
    /// change.
    pub fn iter_mut<'a, B: ArenaBacking>(&self, arena: &'a mut GenericCacheArena<B>) -> (result:
        Result<&'a mut [Hash256], Error>)
        requires
            old(arena).well_formed(),
        ensures
            self.id() >= old(arena)@.len() ==> (result matches Err(e) && e
                == Error::UnknownAllocId(self.id())) && *final(arena) == *old(arena),
            self.id() < old(arena)@.len() ==> {
                &&& result matches Ok(values)
                &&& values@ == old(arena)@[self.id() as int]
                &&& final(arena).offsets_view() == old(arena).offsets_view()
                &&& final(arena).backing_view() == spliced(
                    old(arena).backing_view(),
                    old(arena).start_of(self.id() as int),
                    old(arena).end_of(self.id() as int),
                    final(values)@,
                )
                &&& final(values)@.len() == values@.len() ==> {
                    &&& final(arena).well_formed()
                    &&& final(arena)@ == old(arena)@.update(self.id() as int, final(values)@)
                }
            },
    {
        arena.iter_mut(self.alloc_id)
    }

    /// Return the number of items stored in this allocation.
    pub fn len<B: ArenaBacking>(&self, arena: &GenericCacheArena<B>) -> (result: Result<
        usize,
        Error,
    >)
        requires
            arena.well_formed(),
        ensures
            result == if self.id() < arena@.len() {
                Ok::<usize, Error>(arena@[self.id() as int].len() as usize)
            } else {
                Err::<usize, Error>(Error::UnknownAllocId(self.id()))
            },
    {
        arena.len(self.alloc_id)
    }

    /// Returns true if this allocation is empty.
    pub fn is_empty<B: ArenaBacking>(&self, arena: &GenericCacheArena<B>) -> (result: Result<
        bool,
        Error,
    >)
        requires
            arena.well_formed(),
        ensures
            result == if self.id() < arena@.len() {
                Ok::<bool, Error>(arena@[self.id() as int].len() == 0)
            } else {
                Err::<bool, Error>(Error::UnknownAllocId(self.id()))
            },
    {
        match self.len(arena) {
            Ok(len) => Ok(len == 0),
            Err(e) => Err(e),
        }
    }
}

} // verus!
