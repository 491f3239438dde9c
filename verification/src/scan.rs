//! Scans across the whole map: population count, the first set and the first
//! clear bit, and the predicates derived from them.

use vstd::prelude::*;
use crate::bitmap::Bitmap;
use crate::bits::{
    bit_value, byte_ones, count_ones, spec_none, spec_all, spec_first_one, spec_first_zero,
    lemma_count_ones_step, lemma_byte_ones_bound, lemma_first_one_at, lemma_first_one_none,
    lemma_first_zero_at, lemma_first_zero_none, lemma_u8_const_bits,
};

verus! {

broadcast use crate::bitmap::lemma_bitmap_view_len;

/// Count the set bits of one byte by the parallel-bits technique: pairwise
/// sums of 2-bit groups, then 4-bit groups, then the final fold.
fn count_byte(b: u8) -> (r: u8)
    ensures
        r == byte_ones(b),
{
    proof {
        assert((b & 0x55) + ((b >> 1u8) & 0x55) < 256) by (bit_vector);
    }
    let c2: u8 = (b & 0x55) + ((b >> 1) & 0x55);
    proof {
        assert((c2 & 0x33) + ((c2 >> 2u8) & 0x33) < 256) by (bit_vector);
    }
    let c4: u8 = (c2 & 0x33) + ((c2 >> 2) & 0x33);
    proof {
        assert((c4 & 0x0f) + (c4 >> 4u8) < 256) by (bit_vector);
    }
    let c8: u8 = (c4 & 0x0f) + (c4 >> 4);
    proof {
        assert(c8 == byte_ones(b)) by (bit_vector)
            requires
                c2 == (b & 0x55) + ((b >> 1u8) & 0x55),
                c4 == (c2 & 0x33) + ((c2 >> 2u8) & 0x33),
                c8 == (c4 & 0x0f) + (c4 >> 4u8),
        ;
    }
    c8
}

/// The position of the lowest set bit of a nonzero byte, found by isolating
/// it with the two's-complement trick `b & (-b)` and mapping the resulting
/// power of two to its exponent.
fn lowest_one_of_byte(b: u8) -> (k: u8)
    requires
        b != 0,
    ensures
        k < 8,
        b & (1u8 << k) != 0,
        forall|l: u8| l < k ==> b & (1u8 << l) == 0,
{
    let neg: u8 = 255 - b + 1;
    let iso: u8 = b & neg;
    let k: u8 = if iso == 1 {
        0
    } else if iso == 2 {
        1
    } else if iso == 4 {
        2
    } else if iso == 8 {
        3
    } else if iso == 16 {
        4
    } else if iso == 32 {
        5
    } else if iso == 64 {
        6
    } else {
        7
    };
    proof {
        assert(k < 8 && b & (1u8 << k) != 0 && (forall|l: u8| l < k ==> b & (1u8 << l) == 0))
            by (bit_vector)
            requires
                b != 0,
                neg == 255 - b + 1,
                iso == b & neg,
                k == (if iso == 1 {
                    0u8
                } else if iso == 2 {
                    1u8
                } else if iso == 4 {
                    2u8
                } else if iso == 8 {
                    3u8
                } else if iso == 16 {
                    4u8
                } else if iso == 32 {
                    5u8
                } else if iso == 64 {
                    6u8
                } else {
                    7u8
                }),
        ;
    }
    k
}

/// The position of the lowest clear bit of a byte that is not all-ones,
/// found by isolating it with `(b + 1) & !b` and mapping the resulting power
/// of two to its exponent.
fn lowest_zero_of_byte(b: u8) -> (k: u8)
    requires
        b != 255,
    ensures
        k < 8,
        b & (1u8 << k) == 0,
        forall|l: u8| l < k ==> b & (1u8 << l) != 0,
{
    let iso: u8 = (b + 1) & !b;
    let k: u8 = if iso == 1 {
        0
    } else if iso == 2 {
        1
    } else if iso == 4 {
        2
    } else if iso == 8 {
        3
    } else if iso == 16 {
        4
    } else if iso == 32 {
        5
    } else if iso == 64 {
        6
    } else {
        7
    };
    proof {
        assert(k < 8 && b & (1u8 << k) == 0 && (forall|l: u8| l < k ==> b & (1u8 << l) != 0))
            by (bit_vector)
            requires
                b != 255,
                iso == ((b + 1) as u8) & !b,
                k == (if iso == 1 {
                    0u8
                } else if iso == 2 {
                    1u8
                } else if iso == 4 {
                    2u8
                } else if iso == 8 {
                    3u8
                } else if iso == 16 {
                    4u8
                } else if iso == 32 {
                    5u8
                } else if iso == 64 {
                    6u8
                } else {
                    7u8
                }),
        ;
    }
    k
}

impl<const BYTES: usize> Bitmap<BYTES> {
    /// The number of set bits across the whole map.
    pub fn count(&self) -> (r: usize)
        requires
            8 * BYTES <= usize::MAX,
        ensures
            r == count_ones(self@),
    {
        let mut total: usize = 0;
        let mut i: usize = 0;
        proof {
            assert(self@.take(0) =~= Seq::<u8>::empty());
        }
        while i < BYTES
            invariant
                i <= BYTES,
                8 * BYTES <= usize::MAX,
                self@.len() == BYTES,
                total == count_ones(self@.take(i as int)),
                total <= 8 * i,
            decreases BYTES - i,
        {
            let ones = count_byte(self.byte_at(i));
            proof {
                lemma_byte_ones_bound(self@[i as int]);
                lemma_count_ones_step(self@, i as int);
            }
            total = total + ones as usize;
            i += 1;
        }
        proof {
            assert(self@.take(BYTES as int) =~= self@);
        }
        total
    }

    /// The lowest index whose flag is set, or nothing if the map is all-zero.
    pub fn find_first_one(&self) -> (r: Option<usize>)
        requires
            8 * BYTES <= usize::MAX,
        ensures
            r matches Some(i) ==> i < 8 * BYTES && bit_value(self@, i as int) && (forall|j: int|
                0 <= j < i ==> !bit_value(self@, j)),
            r matches Some(i) ==> spec_first_one(self@) == Some(i as int),
            r is None <==> spec_none(self@),
            r is None <==> spec_first_one(self@) is None,
    {
        let mut byte: usize = 0;
        while byte < BYTES
            invariant
                byte <= BYTES,
                8 * BYTES <= usize::MAX,
                self@.len() == BYTES,
                forall|j: int| 0 <= j < 8 * byte ==> !bit_value(self@, j),
            decreases BYTES - byte,
        {
            let b = self.byte_at(byte);
            if b != 0 {
                let k = lowest_one_of_byte(b);
                let index: usize = byte * 8 + k as usize;
                proof {
                    assert(index as int / 8 == byte && index as int % 8 == k);
                    assert forall|j: int| 0 <= j < index implies !bit_value(self@, j) by {
                        if j >= 8 * byte {
                            assert(j / 8 == byte && j % 8 < k);
                        }
                    };
                    lemma_first_one_at(self@, index as int);
                    assert(bit_value(self@, index as int));
                    assert(!spec_none(self@));
                }
                return Some(index);
            }
            proof {
                assert forall|j: int| 8 * byte <= j < 8 * (byte + 1) implies !bit_value(
                    self@,
                    j,
                ) by {
                    assert(j / 8 == byte);
                    lemma_u8_const_bits((j % 8) as u8);
                };
            }
            byte += 1;
        }
        proof {
            lemma_first_one_none(self@, 0);
        }
        None
    }

    /// The lowest index whose flag is clear, or nothing if the map is
    /// all-ones.
    pub fn find_first_zero(&self) -> (r: Option<usize>)
        requires
            8 * BYTES <= usize::MAX,
        ensures
            r matches Some(i) ==> i < 8 * BYTES && !bit_value(self@, i as int) && (forall|j: int|
                0 <= j < i ==> bit_value(self@, j)),
            r matches Some(i) ==> spec_first_zero(self@) == Some(i as int),
            r is None <==> spec_all(self@),
            r is None <==> spec_first_zero(self@) is None,
    {
        let mut byte: usize = 0;
        while byte < BYTES
            invariant
                byte <= BYTES,
                8 * BYTES <= usize::MAX,
                self@.len() == BYTES,
                forall|j: int| 0 <= j < 8 * byte ==> bit_value(self@, j),
            decreases BYTES - byte,
        {
            let b = self.byte_at(byte);
            if b != 255 {
                let k = lowest_zero_of_byte(b);
                let index: usize = byte * 8 + k as usize;
                proof {
                    assert(index as int / 8 == byte && index as int % 8 == k);
                    assert forall|j: int| 0 <= j < index implies bit_value(self@, j) by {
                        if j >= 8 * byte {
                            assert(j / 8 == byte && j % 8 < k);
                        }
                    };
                    lemma_first_zero_at(self@, index as int);
                    assert(!bit_value(self@, index as int));
                    assert(!spec_all(self@));
                }
                return Some(index);
            }
            proof {
                assert forall|j: int| 8 * byte <= j < 8 * (byte + 1) implies bit_value(
                    self@,
                    j,
                ) by {
                    assert(j / 8 == byte);
                    lemma_u8_const_bits((j % 8) as u8);
                };
            }
            byte += 1;
        }
        proof {
            lemma_first_zero_none(self@, 0);
        }
        None
    }

    /// Whether any flag at all is set.
    pub fn any(&self) -> (r: bool)
        requires
            8 * BYTES <= usize::MAX,
        ensures
            r == !spec_none(self@),
    {
        self.find_first_one().is_some()
    }

    /// Whether no flag at all is set.
    pub fn none(&self) -> (r: bool)
        requires
            8 * BYTES <= usize::MAX,
        ensures
            r == spec_none(self@),
    {
        self.find_first_one().is_none()
    }

    /// Whether every flag is set.
    pub fn all(&self) -> (r: bool)
        requires
            8 * BYTES <= usize::MAX,
        ensures
            r == spec_all(self@),
    {
        self.find_first_zero().is_none()
    }
}

} // verus!
