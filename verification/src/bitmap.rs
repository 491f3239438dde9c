//! The bitmap itself: a fixed-size byte array addressed bit by bit, with
//! single-bit reads and writes and the whole-map operations.

use vstd::prelude::*;
use crate::bits::{
    bit_value, spec_set_bit, spec_clear_bit, spec_flip_bit, spec_flip_all, lemma_set_bit,
    lemma_clear_bit, lemma_flip_bit, lemma_flip_all_bit, lemma_u8_const_bits,
};

verus! {

/// A size-fixed bitmap of `BYTES * 8` single-bit flags, bit `k` of byte `b`
/// holding logical bit `b * 8 + k`. A zero-capacity map is legal: it has no
/// addressable bit, and the whole-map operations on it do nothing.
#[derive(Clone)]
pub struct Bitmap<const BYTES: usize> {
    bits: [u8; BYTES],
}

impl<const BYTES: usize> View for Bitmap<BYTES> {
    type V = Seq<u8>;

    closed spec fn view(&self) -> Seq<u8> {
        self.bits@
    }
}

/// A bitmap's view always has exactly `BYTES` bytes.
pub broadcast proof fn lemma_bitmap_view_len<const BYTES: usize>(m: Bitmap<BYTES>)
    ensures
        (#[trigger] m@).len() == BYTES,
{
}

impl<const BYTES: usize> Bitmap<BYTES> {
    /// Create a bitmap with every flag cleared.
    pub fn new() -> (r: Self)
        ensures
            r@.len() == BYTES,
            forall|i: int| 0 <= i < BYTES ==> r@[i] == 0u8,
            forall|j: int| 0 <= j < 8 * BYTES ==> !bit_value(r@, j),
    {
        let r = Bitmap { bits: [0u8; BYTES] };
        proof {
            assert forall|j: int| 0 <= j < 8 * BYTES implies !bit_value(r@, j) by {
                lemma_u8_const_bits((j % 8) as u8);
            };
        }
        r
    }

    /// Wrap a caller-supplied byte array without copying it.
    pub(crate) fn from_array(bits: [u8; BYTES]) -> (r: Self)
        ensures
            r@ == bits@,
    {
        Bitmap { bits }
    }

    /// Surrender the backing byte array.
    pub(crate) fn to_array(self) -> (r: [u8; BYTES])
        ensures
            r@ == self@,
    {
        self.bits
    }

    /// Read one byte of the backing storage.
    pub(crate) fn byte_at(&self, i: usize) -> (r: u8)
        requires
            i < BYTES,
        ensures
            r == self@[i as int],
    {
        self.bits[i]
    }

    /// Overwrite one byte of the backing storage.
    pub(crate) fn set_byte(&mut self, i: usize, v: u8)
        requires
            i < BYTES,
        ensures
            final(self)@ == old(self)@.update(i as int, v),
    {
        self.bits[i] = v;
    }

    /// The length of the bitmap in bits.
    pub fn bit_len(&self) -> (r: usize)
        requires
            8 * BYTES <= usize::MAX,
        ensures
            r == 8 * BYTES,
    {
        BYTES * 8
    }

    /// The length of the bitmap in bytes.
    pub fn byte_len(&self) -> (r: usize)
        ensures
            r == BYTES,
    {
        BYTES
    }

    /// Read one flag.
    pub fn get_bool(&self, index: usize) -> (r: bool)
        requires
            index < 8 * BYTES,
        ensures
            r == bit_value(self@, index as int),
    {
        let byte: usize = index / 8;
        let bit: usize = index % 8;
        let r = (self.bits[byte] >> (bit as u8)) & 1 == 1;
        proof {
            let b = self.bits@[byte as int];
            let k = bit as u8;
            assert(k < 8 ==> (((b >> k) & 1 == 1) <==> (b & (1u8 << k) != 0))) by (bit_vector);
        }
        r
    }

    /// Read one flag as `0` or `1`.
    pub fn get_01(&self, index: usize) -> (r: u8)
        requires
            index < 8 * BYTES,
        ensures
            r == (if bit_value(self@, index as int) {
                1u8
            } else {
                0u8
            }),
    {
        if self.get_bool(index) {
            1
        } else {
            0
        }
    }

    /// Read one flag; an alias of `get_bool`.
    pub fn test(&self, index: usize) -> (r: bool)
        requires
            index < 8 * BYTES,
        ensures
            r == bit_value(self@, index as int),
    {
        self.get_bool(index)
    }

    /// Set one flag to 1; the handle returned allows chained calls.
    pub fn set(&mut self, index: usize) -> (r: &mut Self)
        requires
            index < 8 * BYTES,
        ensures
            r@ == spec_set_bit(old(self)@, index as int),
            forall|j: int|
                0 <= j < 8 * BYTES ==> bit_value(r@, j) == (j == index || bit_value(
                    old(self)@,
                    j,
                )),
            *final(self) == *final(r),
    {
        let byte: usize = index / 8;
        let bit: usize = index % 8;
        self.bits[byte] = self.bits[byte] | (1u8 << (bit as u8));
        proof {
            assert(self@ == spec_set_bit(old(self)@, index as int));
            assert forall|j: int| 0 <= j < 8 * BYTES implies bit_value(self@, j) == (j == index
                || bit_value(old(self)@, j)) by {
                lemma_set_bit(old(self)@, index as int, j);
            };
        }
        self
    }

    /// Set one flag to 0; the handle returned allows chained calls.
    pub fn reset(&mut self, index: usize) -> (r: &mut Self)
        requires
            index < 8 * BYTES,
        ensures
            r@ == spec_clear_bit(old(self)@, index as int),
            forall|j: int|
                0 <= j < 8 * BYTES ==> bit_value(r@, j) == (j != index && bit_value(
                    old(self)@,
                    j,
                )),
            *final(self) == *final(r),
    {
        let byte: usize = index / 8;
        let bit: usize = index % 8;
        self.bits[byte] = self.bits[byte] & !(1u8 << (bit as u8));
        proof {
            assert(self@ == spec_clear_bit(old(self)@, index as int));
            assert forall|j: int| 0 <= j < 8 * BYTES implies bit_value(self@, j) == (j != index
                && bit_value(old(self)@, j)) by {
                lemma_clear_bit(old(self)@, index as int, j);
            };
        }
        self
    }

    /// Toggle one flag; the handle returned allows chained calls.
    pub fn flip(&mut self, index: usize) -> (r: &mut Self)
        requires
            index < 8 * BYTES,
        ensures
            r@ == spec_flip_bit(old(self)@, index as int),
            forall|j: int|
                0 <= j < 8 * BYTES ==> bit_value(r@, j) == (if j == index {
                    !bit_value(old(self)@, j)
                } else {
                    bit_value(old(self)@, j)
                }),
            *final(self) == *final(r),
    {
        let byte: usize = index / 8;
        let bit: usize = index % 8;
        self.bits[byte] = self.bits[byte] ^ (1u8 << (bit as u8));
        proof {
            assert(self@ == spec_flip_bit(old(self)@, index as int));
            assert forall|j: int| 0 <= j < 8 * BYTES implies bit_value(self@, j) == (if j == index {
                !bit_value(old(self)@, j)
            } else {
                bit_value(old(self)@, j)
            }) by {
                lemma_flip_bit(old(self)@, index as int, j);
            };
        }
        self
    }

    /// Set every flag to 1; the handle returned allows chained calls.
    pub fn set_all(&mut self) -> (r: &mut Self)
        ensures
            r@.len() == BYTES,
            forall|i: int| 0 <= i < BYTES ==> r@[i] == 255u8,
            forall|j: int| 0 <= j < 8 * BYTES ==> bit_value(r@, j),
            *final(self) == *final(r),
    {
        self.bits = [255u8; BYTES];
        proof {
            assert forall|j: int| 0 <= j < 8 * BYTES implies bit_value(self@, j) by {
                lemma_u8_const_bits((j % 8) as u8);
            };
        }
        self
    }

    /// Set every flag to 0; the handle returned allows chained calls.
    pub fn reset_all(&mut self) -> (r: &mut Self)
        ensures
            r@.len() == BYTES,
            forall|i: int| 0 <= i < BYTES ==> r@[i] == 0u8,
            forall|j: int| 0 <= j < 8 * BYTES ==> !bit_value(r@, j),
            *final(self) == *final(r),
    {
        self.bits = [0u8; BYTES];
        proof {
            assert forall|j: int| 0 <= j < 8 * BYTES implies !bit_value(self@, j) by {
                lemma_u8_const_bits((j % 8) as u8);
            };
        }
        self
    }

    /// Toggle every flag; the handle returned allows chained calls.
    pub fn flip_all(&mut self) -> (r: &mut Self)
        ensures
            r@ == spec_flip_all(old(self)@),
            forall|j: int|
                0 <= j < 8 * BYTES ==> bit_value(r@, j) == !bit_value(old(self)@, j),
            *final(self) == *final(r),
    {
        let mut i: usize = 0;
        while i < BYTES
            invariant
                i <= BYTES,
                self@.len() == BYTES,
                forall|k: int| 0 <= k < i ==> self@[k] == !old(self)@[k],
                forall|k: int| i <= k < BYTES ==> self@[k] == old(self)@[k],
            decreases BYTES - i,
        {
            self.bits[i] = !self.bits[i];
            i += 1;
        }
        proof {
            assert(self@ =~= spec_flip_all(old(self)@));
            assert forall|j: int| 0 <= j < 8 * BYTES implies bit_value(self@, j) == !bit_value(
                old(self)@,
                j,
            ) by {
                lemma_flip_all_bit(old(self)@, j);
            };
        }
        self
    }

    /// A read-only view of the backing byte array.
    pub fn as_ref(&self) -> (r: &[u8; BYTES])
        ensures
            r@ == self@,
    {
        &self.bits
    }

    /// A mutable view of the backing byte array.
    pub fn as_mut(&mut self) -> (r: &mut [u8; BYTES])
        ensures
            r@ == old(self)@,
            final(self)@ == final(r)@,
    {
        &mut self.bits
    }
}

impl<const BYTES: usize> Default for Bitmap<BYTES> {
    /// The default bitmap has every flag cleared, as `new` does.
    fn default() -> (r: Self)
        ensures
            r@.len() == BYTES,
            forall|i: int| 0 <= i < BYTES ==> r@[i] == 0u8,
            forall|j: int| 0 <= j < 8 * BYTES ==> !bit_value(r@, j),
    {
        Bitmap::<BYTES>::new()
    }
}

} // verus!
