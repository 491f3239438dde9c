//! Value wrappers standing for a borrowed handle to one addressed bit: a
//! read-only snapshot tied to a shared borrow of the map, and a mutating
//! handle tied to an exclusive borrow. Rust's borrowing rules enforce the
//! exclusivity discipline: while a `BitRefMut` lives, no other access to the
//! same map can be made.

use vstd::prelude::*;
use crate::bitmap::Bitmap;
use crate::bits::{bit_value, spec_set_bit, spec_clear_bit, spec_flip_bit};

verus! {

broadcast use crate::bitmap::lemma_bitmap_view_len;

/// A wrapper of an immutable reference to one bit of a bitmap: the value the
/// bit had when the wrapper was made, together with a shared borrow of the
/// map. The value is a snapshot, not a live view.
#[derive(Clone, Copy)]
pub struct BitRef<'map, const BYTES: usize> {
    /// The snapshot taken when the wrapper was made.
    pub value: bool,
    /// The shared borrow that keeps the map readable while the wrapper lives.
    pub map: &'map Bitmap<BYTES>,
}

/// A wrapper of a mutable reference to one bit of a bitmap: the addressed
/// index, the bit's current value, and the exclusive borrow of the map that
/// its mutating operations go through.
pub struct BitRefMut<'map, const BYTES: usize> {
    /// The index of the addressed bit.
    pub idx: usize,
    /// The value of the addressed bit after the latest operation.
    pub value: bool,
    /// The exclusive borrow the mutating operations write through.
    pub map: &'map mut Bitmap<BYTES>,
}

impl<'map, const BYTES: usize> BitRef<'map, BYTES> {
    /// Create a wrapper of the indexed bit of `map`.
    pub fn new(map: &'map Bitmap<BYTES>, index: usize) -> (r: Self)
        requires
            index < 8 * BYTES,
        ensures
            r.value == bit_value(map@, index as int),
            r.map == map,
    {
        BitRef { value: map.get_bool(index), map }
    }

    /// The snapshotted value, surrendering the wrapper.
    pub fn into_bool(self) -> (r: bool)
        ensures
            r == self.value,
    {
        self.value
    }
}

impl<'map, const BYTES: usize> BitRefMut<'map, BYTES> {
    /// Create a wrapper granting exclusive access to the indexed bit of
    /// `map`.
    pub fn new(map: &'map mut Bitmap<BYTES>, index: usize) -> (r: Self)
        requires
            index < 8 * BYTES,
        ensures
            r.idx == index,
            r.value == bit_value(old(map)@, index as int),
            (*r.map)@ == old(map)@,
            *final(map) == *final(r.map),
    {
        let value = map.get_bool(index);
        BitRefMut { idx: index, value, map }
    }

    /// Set the referenced bit to 1; the handle returned allows chained
    /// calls.
    pub fn set(&mut self) -> (r: &mut Self)
        requires
            old(self).idx < 8 * BYTES,
        ensures
            r.idx == old(self).idx,
            r.value == true,
            (*r.map)@ == spec_set_bit((*old(self).map)@, old(self).idx as int),
            forall|j: int|
                0 <= j < 8 * BYTES ==> bit_value((*r.map)@, j) == (j == old(self).idx
                    || bit_value((*old(self).map)@, j)),
            *final(r.map) == *final(old(self).map),
            *final(self) == *final(r),
    {
        self.map.set(self.idx);
        self.value = true;
        self
    }

    /// Set the referenced bit to 0; the handle returned allows chained
    /// calls.
    pub fn reset(&mut self) -> (r: &mut Self)
        requires
            old(self).idx < 8 * BYTES,
        ensures
            r.idx == old(self).idx,
            r.value == false,
            (*r.map)@ == spec_clear_bit((*old(self).map)@, old(self).idx as int),
            forall|j: int|
                0 <= j < 8 * BYTES ==> bit_value((*r.map)@, j) == (j != old(self).idx
                    && bit_value((*old(self).map)@, j)),
            *final(r.map) == *final(old(self).map),
            *final(self) == *final(r),
    {
        self.map.reset(self.idx);
        self.value = false;
        self
    }

    /// Toggle the referenced bit; the handle returned allows chained calls.
    pub fn flip(&mut self) -> (r: &mut Self)
        requires
            old(self).idx < 8 * BYTES,
        ensures
            r.idx == old(self).idx,
            r.value == !old(self).value,
            (*r.map)@ == spec_flip_bit((*old(self).map)@, old(self).idx as int),
            forall|j: int|
                0 <= j < 8 * BYTES ==> bit_value((*r.map)@, j) == (if j == old(self).idx {
                    !bit_value((*old(self).map)@, j)
                } else {
                    bit_value((*old(self).map)@, j)
                }),
            *final(r.map) == *final(old(self).map),
            *final(self) == *final(r),
    {
        self.map.flip(self.idx);
        let flipped = !self.value;
        self.value = flipped;
        self
    }

    /// The cached value, surrendering the wrapper and with it the exclusive
    /// borrow of the map.
    pub fn into_bool(self) -> (r: bool)
        ensures
            r == self.value,
            *final(self.map) == *old(self.map),
    {
        self.value
    }
}

impl<const BYTES: usize> Bitmap<BYTES> {
    /// A read wrapper of the indexed bit, holding a shared borrow of the
    /// map.
    pub fn at<'map>(&'map self, index: usize) -> (r: BitRef<'map, BYTES>)
        requires
            index < 8 * BYTES,
        ensures
            r.value == bit_value(self@, index as int),
            r.map == self,
    {
        BitRef::new(self, index)
    }

    /// A mutating wrapper of the indexed bit, holding the map's one
    /// exclusive borrow for as long as it lives.
    pub fn at_mut<'map>(&'map mut self, index: usize) -> (r: BitRefMut<'map, BYTES>)
        requires
            index < 8 * BYTES,
        ensures
            r.idx == index,
            r.value == bit_value(old(self)@, index as int),
            (*r.map)@ == old(self)@,
            *final(self) == *final(r.map),
    {
        BitRefMut::new(self, index)
    }
}

} // verus!
