use vstd::prelude::*;

verus! {

/// The ways in which an operation on an arena can fail.
#[derive(Debug, PartialEq, Eq, Clone, Copy, Structural)]
pub enum Error {
    /// The allocation identifier does not name an allocation of the arena.
    UnknownAllocId(usize),
    /// Moving an offset to the right would exceed the index type.
    OffsetOverflow,
    /// Moving an offset to the left would go below zero.
    OffsetUnderflow,
    /// The absolute positions of a relative range would exceed the index type.
    RangeOverFlow,
}

} // verus!
