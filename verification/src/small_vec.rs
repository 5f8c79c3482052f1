use crate::backing::Hash256;
use smallvec::SmallVec;
use vstd::prelude::*;

verus! {

/// A short sequence that keeps up to eight values inline and moves to the
/// heap beyond that: a `smallvec::SmallVec` over an array of eight.
#[verifier::external_body]
#[verifier::reject_recursive_types(T)]
pub struct SmallVec8<T> {
    inner: SmallVec<[T; 8]>,
}

/// The values that a short sequence of hashes holds, in order.
pub uninterp spec fn small_vec_items(values: SmallVec8<Hash256>) -> Seq<Hash256>;

/// `SmallVec::from_slice`, believed without proof to copy the values of the
/// slice, all of them and in their order, into a new sequence.
#[verifier::external_body]
fn small_vec_from_slice(values: &[Hash256]) -> (batch: SmallVec8<Hash256>)
    ensures
        small_vec_items(batch) == values@,
{
    SmallVec8 { inner: SmallVec::from_slice(values) }
}

/// `SmallVec::as_slice`, believed without proof to hand out the values of
/// the sequence, all of them and in their order, as one slice.
#[verifier::external_body]
pub(crate) fn small_vec_as_slice(values: &SmallVec8<Hash256>) -> (items: &[Hash256])
    ensures
        items@ == small_vec_items(*values),
{
    values.inner.as_slice()
}

impl SmallVec8<Hash256> {
    /// A short sequence holding the values of `values`, in their order.
    pub fn from_slice(values: &[Hash256]) -> (batch: Self)
        ensures
            small_vec_items(batch) == values@,
    {
        small_vec_from_slice(values)
    }
}

} // verus!
