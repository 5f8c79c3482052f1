use std::ops::Range;
use vstd::prelude::*;

verus! {

/// A fixed-size hash value: thirty-two opaque bytes.
pub type Hash256 = [u8; 32];

/// The result of replacing `items[start..end]` with `replacement`.
pub open spec fn spliced(
    items: Seq<Hash256>,
    start: int,
    end: int,
    replacement: Seq<Hash256>,
) -> Seq<Hash256> {
    items.subrange(0, start) + replacement + items.subrange(end, items.len() as int)
}

/// A flat, resizable store of hash values: what an arena keeps its values in.
///
/// The arena relies on nothing but the effects stated here, so that a buffer
/// on the heap and one in mapped memory serve alike.
pub trait ArenaBacking: Sized {
    /// The stored values, in order.
    spec fn contents(&self) -> Seq<Hash256>;

    /// An empty store with room for `capacity` values.
    fn with_capacity(capacity: usize) -> (backing: Self)
        ensures
            backing.contents() == Seq::<Hash256>::empty(),
    ;

    /// The number of stored values.
    fn len(&self) -> (len: usize)
        ensures
            len == self.contents().len(),
    ;

    /// The value at position `i`, or `None` beyond the end.
    fn get(&self, i: usize) -> (value: Option<Hash256>)
        ensures
            value == (if i < self.contents().len() {
                Some(self.contents()[i as int])
            } else {
                None
            }),
    ;

    /// The bytes of the value at position `i`, open to change, or `None`
    /// beyond the end. No other value changes with them.
    fn get_mut(&mut self, i: usize) -> (bytes: Option<&mut [u8]>)
        ensures
            i >= old(self).contents().len() ==> bytes is None && final(self).contents() == old(
                self,
            ).contents(),
            i < old(self).contents().len() ==> {
                &&& bytes matches Some(bytes)
                &&& bytes@ == old(self).contents()[i as int]@
                &&& final(self).contents()[i as int]@ == final(bytes)@
                &&& final(self).contents() == old(self).contents().update(
                    i as int,
                    final(self).contents()[i as int],
                )
            },
    ;

    /// The values at the positions of `range`, in order.
    fn iter_range(&self, range: Range<usize>) -> (values: Vec<Hash256>)
        requires
            range.start <= range.end <= self.contents().len(),
        ensures
            values@ == self.contents().subrange(range.start as int, range.end as int),
    ;

    /// The values at the positions of `range`, in order and open to change.
    /// What the slice holds in the end stands in the store in their place.
    fn iter_range_mut(&mut self, range: Range<usize>) -> (values: &mut [Hash256])
        requires
            range.start <= range.end <= old(self).contents().len(),
        ensures
            values@ == old(self).contents().subrange(range.start as int, range.end as int),
            final(self).contents() == spliced(
                old(self).contents(),
                range.start as int,
                range.end as int,
                final(values)@,
            ),
    ;

    /// Replace the values at the positions of `range` with `replace_with`,
    /// growing or shrinking the store; the replaced values are dropped. The
    /// values before and after the range keep their order. The store must not
    /// outgrow the index type.
    fn splice_forgetful(&mut self, range: Range<usize>, replace_with: &[Hash256])
        requires
            range.start <= range.end <= old(self).contents().len(),
            old(self).contents().len() - (range.end - range.start) + replace_with@.len()
                <= usize::MAX,
        ensures
            final(self).contents() == spliced(
                old(self).contents(),
                range.start as int,
                range.end as int,
                replace_with@,
            ),
    ;

    /// Make room for `capacity` further values. The stored values stay as
    /// they are.
    fn extend_capacity(&mut self, capacity: usize)
        ensures
            final(self).contents() == old(self).contents(),
    ;
}

/// The store on the heap. Room is reserved as far as the allocator grants
/// it; where it does not, the store works on with the room it has.
impl ArenaBacking for Vec<Hash256> {
    open spec fn contents(&self) -> Seq<Hash256> {
        self@
    }

    fn with_capacity(capacity: usize) -> (backing: Self) {
        let mut backing: Vec<Hash256> = Vec::new();
        let _ = backing.try_reserve(capacity);
        backing
    }

    fn len(&self) -> (len: usize) {
        Vec::len(self)
    }

    fn get(&self, i: usize) -> (value: Option<Hash256>) {
        if i < Vec::len(self) {
            Some(self[i])
        } else {
            None
        }
    }

    fn get_mut(&mut self, i: usize) -> (bytes: Option<&mut [u8]>) {
        if i < Vec::len(self) {
            let value: &mut Hash256 = &mut self[i];
            Some(value)
        } else {
            None
        }
    }

    fn iter_range(&self, range: Range<usize>) -> (values: Vec<Hash256>) {
        let mut values: Vec<Hash256> = Vec::new();
        let mut i: usize = range.start;
        while i < range.end
            invariant
                range.start <= i <= range.end <= self@.len(),
                values@ == self@.subrange(range.start as int, i as int),
            decreases range.end - i,
        {
            values.push(self[i]);
            i += 1;
        }
        values
    }

    fn iter_range_mut(&mut self, range: Range<usize>) -> (values: &mut [Hash256]) {
        let whole = self.as_mut_slice();
        let (_, rest) = whole.split_at_mut(range.start);
        let (values, _) = rest.split_at_mut(range.end - range.start);
        values
    }

    fn splice_forgetful(&mut self, range: Range<usize>, replace_with: &[Hash256]) {
        let mut tail = self.split_off(range.end);
        self.truncate(range.start);
        let mut i: usize = 0;
        while i < replace_with.len()
            invariant
                i <= replace_with@.len(),
                self@ == old(self)@.subrange(0, range.start as int) + replace_with@.subrange(0, i as int),
                self@.len() + (replace_with@.len() - i) + tail@.len() <= usize::MAX,
            decreases replace_with@.len() - i,
        {
            self.push(replace_with[i]);
            i += 1;
        }
        self.append(&mut tail);
    }

    fn extend_capacity(&mut self, capacity: usize) {
        let _ = self.try_reserve(capacity);
    }
}

} // verus!
