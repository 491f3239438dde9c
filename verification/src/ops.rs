//! Bitwise interoperation between a bitmap and byte arrays or little-endian
//! integers: plain AND producing a new array, AND-assign and OR-assign in
//! place, and the prefix fill that overwrites the map's leading bytes.
//!
//! The two AND forms treat a length mismatch differently, as the contracts
//! record: plain AND copies the array's bytes beyond the map through to the
//! output zeroed, while AND-assign zeroes the map's bytes beyond the array;
//! OR-assign touches only the overlap.

use vstd::prelude::*;
use crate::bitmap::Bitmap;
use crate::bits::{bit_value, lemma_u8_or, lemma_u8_and, lemma_u8_const_bits};
use crate::convert::{le_bytes, le_value, lemma_pow256_values};

verus! {

broadcast use crate::bitmap::lemma_bitmap_view_len;

/// AND of a map against an array, read out as an array of the array's
/// length: bytes beyond the map come out zero.
pub open spec fn spec_bitand_out(map: Seq<u8>, rhs: Seq<u8>) -> Seq<u8> {
    Seq::new(rhs.len(), |i: int| if i < map.len() {
        map[i] & rhs[i]
    } else {
        0u8
    })
}

/// AND of an array into a map: bytes of the map beyond the array are
/// zeroed, as if the missing operand bytes were all-zero.
pub open spec fn spec_bitand_assign(map: Seq<u8>, rhs: Seq<u8>) -> Seq<u8> {
    Seq::new(map.len(), |i: int| if i < rhs.len() {
        map[i] & rhs[i]
    } else {
        0u8
    })
}

/// OR of an array into a map: only the overlapping bytes change.
pub open spec fn spec_bitor_assign(map: Seq<u8>, rhs: Seq<u8>) -> Seq<u8> {
    Seq::new(map.len(), |i: int| if i < rhs.len() {
        map[i] | rhs[i]
    } else {
        map[i]
    })
}

/// A map with its leading bytes overwritten by a source, the rest kept.
pub open spec fn spec_fill_prefix(map: Seq<u8>, src: Seq<u8>) -> Seq<u8> {
    Seq::new(map.len(), |i: int| if i < src.len() {
        src[i]
    } else {
        map[i]
    })
}

/// Fill the leading bytes of a bitmap with the bytes of a value, leaving
/// the remainder untouched.
pub trait FillPrefix<T>: View<V = Seq<u8>> + Sized {
    /// The bytes the source writes over the map's prefix.
    spec fn prefix_of(value: T) -> Seq<u8>;

    /// Overwrite the map's leading bytes with the source's bytes; the
    /// handle returned allows chained calls.
    fn fill_prefix(&mut self, value: T) -> (r: &mut Self)
        ensures
            r@ == spec_fill_prefix(old(self)@, Self::prefix_of(value)),
            *final(self) == *final(r),
    ;
}

impl<const BYTES: usize> Bitmap<BYTES> {
    /// AND the map against a byte array, producing a new array of the
    /// array's length; the map is not changed.
    pub fn bitand<const N: usize>(&self, rhs: [u8; N]) -> (r: [u8; N])
        ensures
            r@ == spec_bitand_out(self@, rhs@),
            forall|j: int|
                0 <= j < 8 * N ==> bit_value(r@, j) == (j < 8 * BYTES && bit_value(self@, j)
                    && bit_value(rhs@, j)),
    {
        let mut out: [u8; N] = [0u8; N];
        let limit: usize = if N < BYTES {
            N
        } else {
            BYTES
        };
        let mut i: usize = 0;
        while i < limit
            invariant
                i <= limit,
                limit == (if N < BYTES {
                    N as int
                } else {
                    BYTES as int
                }),
                self@.len() == BYTES,
                out@.len() == N,
                rhs@.len() == N,
                forall|k: int| 0 <= k < i ==> out@[k] == (self@[k] & rhs@[k]),
                forall|k: int| i <= k < N ==> out@[k] == 0u8,
            decreases limit - i,
        {
            out[i] = self.byte_at(i) & rhs[i];
            i += 1;
        }
        proof {
            assert(out@ =~= spec_bitand_out(self@, rhs@));
            assert forall|j: int| 0 <= j < 8 * N implies bit_value(out@, j) == (j < 8 * BYTES
                && bit_value(self@, j) && bit_value(rhs@, j)) by {
                if j / 8 < BYTES {
                    lemma_u8_and(self@[j / 8], rhs@[j / 8], (j % 8) as u8);
                } else {
                    lemma_u8_const_bits((j % 8) as u8);
                }
            };
        }
        out
    }

    /// AND a byte array into the map in place; the map's bytes beyond the
    /// array are zeroed.
    pub fn bitand_assign<const N: usize>(&mut self, rhs: [u8; N])
        ensures
            final(self)@ == spec_bitand_assign(old(self)@, rhs@),
            forall|j: int|
                0 <= j < 8 * BYTES ==> #[trigger] bit_value(spec_bitand_assign(old(self)@, rhs@), j)
                    == (j < 8 * N && bit_value(old(self)@, j) && bit_value(rhs@, j)),
    {
        let limit: usize = if N < BYTES {
            N
        } else {
            BYTES
        };
        let mut i: usize = 0;
        while i < limit
            invariant
                i <= limit,
                limit == (if N < BYTES {
                    N as int
                } else {
                    BYTES as int
                }),
                self@.len() == BYTES,
                rhs@.len() == N,
                forall|k: int| 0 <= k < i ==> self@[k] == (old(self)@[k] & rhs@[k]),
                forall|k: int| i <= k < BYTES ==> self@[k] == old(self)@[k],
            decreases limit - i,
        {
            let b = self.byte_at(i) & rhs[i];
            self.set_byte(i, b);
            i += 1;
        }
        let mut j: usize = limit;
        while j < BYTES
            invariant
                limit <= j <= BYTES,
                limit == (if N < BYTES {
                    N as int
                } else {
                    BYTES as int
                }),
                self@.len() == BYTES,
                rhs@.len() == N,
                forall|k: int| 0 <= k < limit ==> self@[k] == (old(self)@[k] & rhs@[k]),
                forall|k: int| limit <= k < j ==> self@[k] == 0u8,
                forall|k: int| j <= k < BYTES ==> self@[k] == old(self)@[k],
            decreases BYTES - j,
        {
            self.set_byte(j, 0);
            j += 1;
        }
        proof {
            assert(self@ =~= spec_bitand_assign(old(self)@, rhs@));
            assert forall|j: int| 0 <= j < 8 * BYTES implies #[trigger] bit_value(
                spec_bitand_assign(old(self)@, rhs@),
                j,
            ) == (j < 8 * N && bit_value(old(self)@, j) && bit_value(rhs@, j)) by {
                if j / 8 < N {
                    lemma_u8_and(old(self)@[j / 8], rhs@[j / 8], (j % 8) as u8);
                } else {
                    lemma_u8_const_bits((j % 8) as u8);
                }
            };
        }
    }

    /// OR a byte array into the map in place; only the overlapping bytes
    /// change.
    pub fn bitor_assign<const N: usize>(&mut self, rhs: [u8; N])
        ensures
            final(self)@ == spec_bitor_assign(old(self)@, rhs@),
            forall|j: int|
                0 <= j < 8 * BYTES ==> #[trigger] bit_value(spec_bitor_assign(old(self)@, rhs@), j)
                    == (bit_value(old(self)@, j) || (j < 8 * N && bit_value(rhs@, j))),
    {
        let limit: usize = if N < BYTES {
            N
        } else {
            BYTES
        };
        let mut i: usize = 0;
        while i < limit
            invariant
                i <= limit,
                limit == (if N < BYTES {
                    N as int
                } else {
                    BYTES as int
                }),
                self@.len() == BYTES,
                rhs@.len() == N,
                forall|k: int| 0 <= k < i ==> self@[k] == (old(self)@[k] | rhs@[k]),
                forall|k: int| i <= k < BYTES ==> self@[k] == old(self)@[k],
            decreases limit - i,
        {
            let b = self.byte_at(i) | rhs[i];
            self.set_byte(i, b);
            i += 1;
        }
        proof {
            assert(self@ =~= spec_bitor_assign(old(self)@, rhs@));
            assert forall|j: int| 0 <= j < 8 * BYTES implies #[trigger] bit_value(
                spec_bitor_assign(old(self)@, rhs@),
                j,
            ) == (bit_value(old(self)@, j) || (j < 8 * N && bit_value(rhs@, j))) by {
                if j / 8 < N {
                    lemma_u8_or(old(self)@[j / 8], rhs@[j / 8], (j % 8) as u8);
                }
            };
        }
    }
}

impl<const BYTES: usize> Bitmap<BYTES> {
    /// AND the map against the little-endian bytes of a `u8`, read back as
    /// a `u8`; the map is not changed.
    pub fn bitand_u8(&self, rhs: u8) -> (r: u8)
        ensures
            r == le_value(spec_bitand_out(self@, le_bytes(rhs as nat, 1))),
    {
        let arr = crate::convert::le_array_of_u128::<1>(rhs as u128);
        let out = self.bitand(arr);
        let v = crate::convert::u128_of_le_array::<1>(&out);
        proof {
            crate::convert::lemma_le_value_bound(out@);
            lemma_pow256_values();
        }
        v as u8
    }

    /// AND the map against the little-endian bytes of a `u16`, read back as
    /// a `u16`; the map is not changed.
    pub fn bitand_u16(&self, rhs: u16) -> (r: u16)
        ensures
            r == le_value(spec_bitand_out(self@, le_bytes(rhs as nat, 2))),
    {
        let arr = crate::convert::le_array_of_u128::<2>(rhs as u128);
        let out = self.bitand(arr);
        let v = crate::convert::u128_of_le_array::<2>(&out);
        proof {
            crate::convert::lemma_le_value_bound(out@);
            lemma_pow256_values();
        }
        v as u16
    }

    /// AND the map against the little-endian bytes of a `u32`, read back as
    /// a `u32`; the map is not changed.
    pub fn bitand_u32(&self, rhs: u32) -> (r: u32)
        ensures
            r == le_value(spec_bitand_out(self@, le_bytes(rhs as nat, 4))),
    {
        let arr = crate::convert::le_array_of_u128::<4>(rhs as u128);
        let out = self.bitand(arr);
        let v = crate::convert::u128_of_le_array::<4>(&out);
        proof {
            crate::convert::lemma_le_value_bound(out@);
            lemma_pow256_values();
        }
        v as u32
    }

    /// AND the map against the little-endian bytes of a `u64`, read back as
    /// a `u64`; the map is not changed.
    pub fn bitand_u64(&self, rhs: u64) -> (r: u64)
        ensures
            r == le_value(spec_bitand_out(self@, le_bytes(rhs as nat, 8))),
    {
        let arr = crate::convert::le_array_of_u128::<8>(rhs as u128);
        let out = self.bitand(arr);
        let v = crate::convert::u128_of_le_array::<8>(&out);
        proof {
            crate::convert::lemma_le_value_bound(out@);
            lemma_pow256_values();
        }
        v as u64
    }

    /// AND the map against the little-endian bytes of a `u128`, read back
    /// as a `u128`; the map is not changed.
    pub fn bitand_u128(&self, rhs: u128) -> (r: u128)
        ensures
            r == le_value(spec_bitand_out(self@, le_bytes(rhs as nat, 16))),
    {
        let arr = crate::convert::le_array_of_u128::<16>(rhs);
        let out = self.bitand(arr);
        let v = crate::convert::u128_of_le_array::<16>(&out);
        v
    }

    /// AND the little-endian bytes of a `u8` into the map in place.
    pub fn bitand_assign_u8(&mut self, rhs: u8)
        ensures
            final(self)@ == spec_bitand_assign(old(self)@, le_bytes(rhs as nat, 1)),
    {
        let arr = crate::convert::le_array_of_u128::<1>(rhs as u128);
        self.bitand_assign(arr);
    }

    /// AND the little-endian bytes of a `u16` into the map in place.
    pub fn bitand_assign_u16(&mut self, rhs: u16)
        ensures
            final(self)@ == spec_bitand_assign(old(self)@, le_bytes(rhs as nat, 2)),
    {
        let arr = crate::convert::le_array_of_u128::<2>(rhs as u128);
        self.bitand_assign(arr);
    }

    /// AND the little-endian bytes of a `u32` into the map in place.
    pub fn bitand_assign_u32(&mut self, rhs: u32)
        ensures
            final(self)@ == spec_bitand_assign(old(self)@, le_bytes(rhs as nat, 4)),
    {
        let arr = crate::convert::le_array_of_u128::<4>(rhs as u128);
        self.bitand_assign(arr);
    }

    /// AND the little-endian bytes of a `u64` into the map in place.
    pub fn bitand_assign_u64(&mut self, rhs: u64)
        ensures
            final(self)@ == spec_bitand_assign(old(self)@, le_bytes(rhs as nat, 8)),
    {
        let arr = crate::convert::le_array_of_u128::<8>(rhs as u128);
        self.bitand_assign(arr);
    }

    /// AND the little-endian bytes of a `u128` into the map in place.
    pub fn bitand_assign_u128(&mut self, rhs: u128)
        ensures
            final(self)@ == spec_bitand_assign(old(self)@, le_bytes(rhs as nat, 16)),
    {
        let arr = crate::convert::le_array_of_u128::<16>(rhs);
        self.bitand_assign(arr);
    }

    /// OR the little-endian bytes of a `u8` into the map in place.
    pub fn bitor_assign_u8(&mut self, rhs: u8)
        ensures
            final(self)@ == spec_bitor_assign(old(self)@, le_bytes(rhs as nat, 1)),
    {
        let arr = crate::convert::le_array_of_u128::<1>(rhs as u128);
        self.bitor_assign(arr);
    }

    /// OR the little-endian bytes of a `u16` into the map in place.
    pub fn bitor_assign_u16(&mut self, rhs: u16)
        ensures
            final(self)@ == spec_bitor_assign(old(self)@, le_bytes(rhs as nat, 2)),
    {
        let arr = crate::convert::le_array_of_u128::<2>(rhs as u128);
        self.bitor_assign(arr);
    }

    /// OR the little-endian bytes of a `u32` into the map in place.
    pub fn bitor_assign_u32(&mut self, rhs: u32)
        ensures
            final(self)@ == spec_bitor_assign(old(self)@, le_bytes(rhs as nat, 4)),
    {
        let arr = crate::convert::le_array_of_u128::<4>(rhs as u128);
        self.bitor_assign(arr);
    }

    /// OR the little-endian bytes of a `u64` into the map in place.
    pub fn bitor_assign_u64(&mut self, rhs: u64)
        ensures
            final(self)@ == spec_bitor_assign(old(self)@, le_bytes(rhs as nat, 8)),
    {
        let arr = crate::convert::le_array_of_u128::<8>(rhs as u128);
        self.bitor_assign(arr);
    }

    /// OR the little-endian bytes of a `u128` into the map in place.
    pub fn bitor_assign_u128(&mut self, rhs: u128)
        ensures
            final(self)@ == spec_bitor_assign(old(self)@, le_bytes(rhs as nat, 16)),
    {
        let arr = crate::convert::le_array_of_u128::<16>(rhs);
        self.bitor_assign(arr);
    }
}

impl<const BYTES: usize, const N: usize> FillPrefix<[u8; N]> for Bitmap<BYTES> {
    open spec fn prefix_of(value: [u8; N]) -> Seq<u8> {
        value@
    }

    fn fill_prefix(&mut self, value: [u8; N]) -> (r: &mut Self) {
        let limit: usize = if N < BYTES {
            N
        } else {
            BYTES
        };
        let mut i: usize = 0;
        while i < limit
            invariant
                i <= limit,
                limit == (if N < BYTES {
                    N as int
                } else {
                    BYTES as int
                }),
                self@.len() == BYTES,
                value@.len() == N,
                forall|k: int| 0 <= k < i ==> self@[k] == value@[k],
                forall|k: int| i <= k < BYTES ==> self@[k] == old(self)@[k],
            decreases limit - i,
        {
            self.set_byte(i, value[i]);
            i += 1;
        }
        proof {
            assert(self@ =~= spec_fill_prefix(old(self)@, value@));
        }
        self
    }
}

impl<const BYTES: usize> FillPrefix<u8> for Bitmap<BYTES> {
    open spec fn prefix_of(value: u8) -> Seq<u8> {
        le_bytes(value as nat, 1)
    }

    fn fill_prefix(&mut self, value: u8) -> (r: &mut Self) {
        let arr = crate::convert::le_array_of_u128::<1>(value as u128);
        self.fill_prefix(arr)
    }
}

impl<const BYTES: usize> FillPrefix<u16> for Bitmap<BYTES> {
    open spec fn prefix_of(value: u16) -> Seq<u8> {
        le_bytes(value as nat, 2)
    }

    fn fill_prefix(&mut self, value: u16) -> (r: &mut Self) {
        let arr = crate::convert::le_array_of_u128::<2>(value as u128);
        self.fill_prefix(arr)
    }
}

impl<const BYTES: usize> FillPrefix<u32> for Bitmap<BYTES> {
    open spec fn prefix_of(value: u32) -> Seq<u8> {
        le_bytes(value as nat, 4)
    }

    fn fill_prefix(&mut self, value: u32) -> (r: &mut Self) {
        let arr = crate::convert::le_array_of_u128::<4>(value as u128);
        self.fill_prefix(arr)
    }
}

impl<const BYTES: usize> FillPrefix<u64> for Bitmap<BYTES> {
    open spec fn prefix_of(value: u64) -> Seq<u8> {
        le_bytes(value as nat, 8)
    }

    fn fill_prefix(&mut self, value: u64) -> (r: &mut Self) {
        let arr = crate::convert::le_array_of_u128::<8>(value as u128);
        self.fill_prefix(arr)
    }
}

impl<const BYTES: usize> FillPrefix<u128> for Bitmap<BYTES> {
    open spec fn prefix_of(value: u128) -> Seq<u8> {
        le_bytes(value as nat, 16)
    }

    fn fill_prefix(&mut self, value: u128) -> (r: &mut Self) {
        let arr = crate::convert::le_array_of_u128::<16>(value);
        self.fill_prefix(arr)
    }
}

} // verus!
