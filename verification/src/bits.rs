//! The mathematical model of a packed bit sequence: what each logical bit of
//! a byte sequence is, how single-bit and whole-map edits change it, and how
//! many bits are set. The proof functions at the end relate byte-level
//! twiddling to the bit-level reading.

use vstd::prelude::*;

verus! {

/// The mask selecting logical bit `i` within its byte.
pub open spec fn bit_mask(i: int) -> u8 {
    1u8 << (i % 8) as u8
}

/// The value of logical bit `i` of a packed byte sequence: bit `i % 8`
/// (0 = least significant) of byte `i / 8`.
pub open spec fn bit_value(bytes: Seq<u8>, i: int) -> bool
    recommends
        0 <= i < bytes.len() * 8,
{
    bytes[i / 8] & bit_mask(i) != 0
}

/// The byte sequence after setting logical bit `i` to 1.
pub open spec fn spec_set_bit(bytes: Seq<u8>, i: int) -> Seq<u8>
    recommends
        0 <= i < bytes.len() * 8,
{
    bytes.update(i / 8, bytes[i / 8] | bit_mask(i))
}

/// The byte sequence after setting logical bit `i` to 0.
pub open spec fn spec_clear_bit(bytes: Seq<u8>, i: int) -> Seq<u8>
    recommends
        0 <= i < bytes.len() * 8,
{
    bytes.update(i / 8, bytes[i / 8] & !bit_mask(i))
}

/// The byte sequence after toggling logical bit `i`.
pub open spec fn spec_flip_bit(bytes: Seq<u8>, i: int) -> Seq<u8>
    recommends
        0 <= i < bytes.len() * 8,
{
    bytes.update(i / 8, bytes[i / 8] ^ bit_mask(i))
}

/// The byte sequence with every bit toggled.
pub open spec fn spec_flip_all(bytes: Seq<u8>) -> Seq<u8> {
    bytes.map_values(|b: u8| !b)
}

/// How many of the 8 bits of one byte are set.
pub open spec fn byte_ones(b: u8) -> int {
    ((b >> 0u8) & 1) + ((b >> 1u8) & 1) + ((b >> 2u8) & 1) + ((b >> 3u8) & 1) + ((b >> 4u8) & 1)
        + ((b >> 5u8) & 1) + ((b >> 6u8) & 1) + ((b >> 7u8) & 1)
}

/// How many bits are set in a whole byte sequence, summed byte by byte.
pub open spec fn count_ones(bytes: Seq<u8>) -> int
    decreases bytes.len(),
{
    if bytes.len() == 0 {
        0
    } else {
        count_ones(bytes.drop_last()) + byte_ones(bytes.last())
    }
}

/// How many logical bits below index `n` are set, counted bit by bit.
/// An independent way of counting, used to state that `count_ones` is right.
pub open spec fn ones_below(bytes: Seq<u8>, n: int) -> int
    decreases n,
{
    if n <= 0 {
        0
    } else {
        ones_below(bytes, n - 1) + if bit_value(bytes, n - 1) {
            1int
        } else {
            0int
        }
    }
}

/// No bit of the sequence is set.
pub open spec fn spec_none(bytes: Seq<u8>) -> bool {
    forall|i: int| 0 <= i < bytes.len() * 8 ==> !bit_value(bytes, i)
}

/// Every bit of the sequence is set.
pub open spec fn spec_all(bytes: Seq<u8>) -> bool {
    forall|i: int| 0 <= i < bytes.len() * 8 ==> bit_value(bytes, i)
}

/// The lowest set bit at or above index `i`, if any.
pub open spec fn first_one_from(bytes: Seq<u8>, i: int) -> Option<int>
    decreases 8 * bytes.len() - i,
{
    if i < 0 || i >= 8 * bytes.len() {
        None
    } else if bit_value(bytes, i) {
        Some(i)
    } else {
        first_one_from(bytes, i + 1)
    }
}

/// The lowest set bit of the sequence, if any.
pub open spec fn spec_first_one(bytes: Seq<u8>) -> Option<int> {
    first_one_from(bytes, 0)
}

/// The lowest clear bit at or above index `i`, if any.
pub open spec fn first_zero_from(bytes: Seq<u8>, i: int) -> Option<int>
    decreases 8 * bytes.len() - i,
{
    if i < 0 || i >= 8 * bytes.len() {
        None
    } else if !bit_value(bytes, i) {
        Some(i)
    } else {
        first_zero_from(bytes, i + 1)
    }
}

/// The lowest clear bit of the sequence, if any.
pub open spec fn spec_first_zero(bytes: Seq<u8>) -> Option<int> {
    first_zero_from(bytes, 0)
}

/// Distinct in-range bit indices share a byte exactly when they share it
/// bitwise: `i == j` means same byte and same position within it.
proof fn lemma_index_split(i: int, j: int)
    requires
        0 <= i,
        0 <= j,
    ensures
        (i == j) <==> (i / 8 == j / 8 && i % 8 == j % 8),
{
}

/// Setting bit `k` of a byte turns position `k` on and leaves the others.
proof fn lemma_u8_or_mask(b: u8, k: u8, l: u8)
    requires
        k < 8,
        l < 8,
    ensures
        ((b | (1u8 << k)) & (1u8 << l) != 0) == (k == l || (b & (1u8 << l) != 0)),
{
    assert(k < 8 && l < 8 ==> ((b | (1u8 << k)) & (1u8 << l) != 0) == (k == l || (b & (1u8 << l)
        != 0))) by (bit_vector);
}

/// Clearing bit `k` of a byte turns position `k` off and leaves the others.
proof fn lemma_u8_andnot_mask(b: u8, k: u8, l: u8)
    requires
        k < 8,
        l < 8,
    ensures
        ((b & !(1u8 << k)) & (1u8 << l) != 0) == (k != l && (b & (1u8 << l) != 0)),
{
    assert(k < 8 && l < 8 ==> ((b & !(1u8 << k)) & (1u8 << l) != 0) == (k != l && (b & (1u8 << l)
        != 0))) by (bit_vector);
}

/// Toggling bit `k` of a byte negates position `k` and leaves the others.
proof fn lemma_u8_xor_mask(b: u8, k: u8, l: u8)
    requires
        k < 8,
        l < 8,
    ensures
        ((b ^ (1u8 << k)) & (1u8 << l) != 0) == (if k == l {
            !(b & (1u8 << l) != 0)
        } else {
            b & (1u8 << l) != 0
        }),
{
    assert(k < 8 && l < 8 ==> ((b ^ (1u8 << k)) & (1u8 << l) != 0) == (if k == l {
        !(b & (1u8 << l) != 0)
    } else {
        b & (1u8 << l) != 0
    })) by (bit_vector);
}

/// Complementing a byte negates every position.
pub proof fn lemma_u8_not(b: u8, l: u8)
    requires
        l < 8,
    ensures
        (!b & (1u8 << l) != 0) == !(b & (1u8 << l) != 0),
{
    assert(l < 8 ==> ((!b & (1u8 << l) != 0) == !(b & (1u8 << l) != 0))) by (bit_vector);
}

/// OR of two bytes sets every position set in either.
pub proof fn lemma_u8_or(a: u8, b: u8, l: u8)
    requires
        l < 8,
    ensures
        ((a | b) & (1u8 << l) != 0) == ((a & (1u8 << l) != 0) || (b & (1u8 << l) != 0)),
{
    assert(l < 8 ==> (((a | b) & (1u8 << l) != 0) == ((a & (1u8 << l) != 0) || (b & (1u8 << l)
        != 0)))) by (bit_vector);
}

/// AND of two bytes sets every position set in both.
pub proof fn lemma_u8_and(a: u8, b: u8, l: u8)
    requires
        l < 8,
    ensures
        ((a & b) & (1u8 << l) != 0) == ((a & (1u8 << l) != 0) && (b & (1u8 << l) != 0)),
{
    assert(l < 8 ==> (((a & b) & (1u8 << l) != 0) == ((a & (1u8 << l) != 0) && (b & (1u8 << l)
        != 0)))) by (bit_vector);
}

/// The all-zero and all-one bytes read as expected at every position.
pub proof fn lemma_u8_const_bits(l: u8)
    requires
        l < 8,
    ensures
        0u8 & (1u8 << l) == 0,
        255u8 & (1u8 << l) != 0,
{
    assert(l < 8 ==> (0u8 & (1u8 << l) == 0 && 255u8 & (1u8 << l) != 0)) by (bit_vector);
}

/// One byte of a sequence counted on its own: counting the first `i + 1`
/// bytes is counting the first `i` and then byte `i`.
pub proof fn lemma_count_ones_step(bytes: Seq<u8>, i: int)
    requires
        0 <= i < bytes.len(),
    ensures
        count_ones(bytes.take(i + 1)) == count_ones(bytes.take(i)) + byte_ones(bytes[i]),
{
    assert(bytes.take(i + 1).drop_last() =~= bytes.take(i));
    assert(bytes.take(i + 1).last() == bytes[i]);
}

/// A byte holds between 0 and 8 set bits.
pub proof fn lemma_byte_ones_bound(b: u8)
    ensures
        0 <= byte_ones(b) <= 8,
{
    assert(0 <= byte_ones(b) <= 8) by (bit_vector);
}

/// A byte's count of set bits is the sum of its bits read through masks.
pub proof fn lemma_byte_ones_is_bits(b: u8)
    ensures
        byte_ones(b) == (if b & (1u8 << 0u8) != 0 { 1int } else { 0int })
            + (if b & (1u8 << 1u8) != 0 { 1int } else { 0int })
            + (if b & (1u8 << 2u8) != 0 { 1int } else { 0int })
            + (if b & (1u8 << 3u8) != 0 { 1int } else { 0int })
            + (if b & (1u8 << 4u8) != 0 { 1int } else { 0int })
            + (if b & (1u8 << 5u8) != 0 { 1int } else { 0int })
            + (if b & (1u8 << 6u8) != 0 { 1int } else { 0int })
            + (if b & (1u8 << 7u8) != 0 { 1int } else { 0int }),
{
    assert(byte_ones(b) == (if b & (1u8 << 0u8) != 0 { 1int } else { 0int })
        + (if b & (1u8 << 1u8) != 0 { 1int } else { 0int })
        + (if b & (1u8 << 2u8) != 0 { 1int } else { 0int })
        + (if b & (1u8 << 3u8) != 0 { 1int } else { 0int })
        + (if b & (1u8 << 4u8) != 0 { 1int } else { 0int })
        + (if b & (1u8 << 5u8) != 0 { 1int } else { 0int })
        + (if b & (1u8 << 6u8) != 0 { 1int } else { 0int })
        + (if b & (1u8 << 7u8) != 0 { 1int } else { 0int })) by (bit_vector);
}

/// Scanning for a set bit can skip over a stretch of clear bits.
pub proof fn lemma_first_one_skip(bytes: Seq<u8>, lo: int, hi: int)
    requires
        0 <= lo <= hi <= 8 * bytes.len(),
        forall|j: int| lo <= j < hi ==> !bit_value(bytes, j),
    ensures
        first_one_from(bytes, lo) == first_one_from(bytes, hi),
    decreases hi - lo,
{
    if lo < hi {
        lemma_first_one_skip(bytes, lo + 1, hi);
    }
}

/// A set bit below which everything is clear is the first set bit.
pub proof fn lemma_first_one_at(bytes: Seq<u8>, i: int)
    requires
        0 <= i < 8 * bytes.len(),
        bit_value(bytes, i),
        forall|j: int| 0 <= j < i ==> !bit_value(bytes, j),
    ensures
        spec_first_one(bytes) == Some(i),
{
    lemma_first_one_skip(bytes, 0, i);
}

/// An all-clear map has no first set bit, and the other way round.
pub proof fn lemma_first_one_none(bytes: Seq<u8>, lo: int)
    requires
        0 <= lo <= 8 * bytes.len(),
    ensures
        first_one_from(bytes, lo) is None <==> (forall|j: int|
            lo <= j < 8 * bytes.len() ==> !bit_value(bytes, j)),
    decreases 8 * bytes.len() - lo,
{
    if lo < 8 * bytes.len() {
        lemma_first_one_none(bytes, lo + 1);
    }
}

/// Scanning for a clear bit can skip over a stretch of set bits.
pub proof fn lemma_first_zero_skip(bytes: Seq<u8>, lo: int, hi: int)
    requires
        0 <= lo <= hi <= 8 * bytes.len(),
        forall|j: int| lo <= j < hi ==> bit_value(bytes, j),
    ensures
        first_zero_from(bytes, lo) == first_zero_from(bytes, hi),
    decreases hi - lo,
{
    if lo < hi {
        lemma_first_zero_skip(bytes, lo + 1, hi);
    }
}

/// A clear bit below which everything is set is the first clear bit.
pub proof fn lemma_first_zero_at(bytes: Seq<u8>, i: int)
    requires
        0 <= i < 8 * bytes.len(),
        !bit_value(bytes, i),
        forall|j: int| 0 <= j < i ==> bit_value(bytes, j),
    ensures
        spec_first_zero(bytes) == Some(i),
{
    lemma_first_zero_skip(bytes, 0, i);
}

/// An all-set map has no first clear bit, and the other way round.
pub proof fn lemma_first_zero_none(bytes: Seq<u8>, lo: int)
    requires
        0 <= lo <= 8 * bytes.len(),
    ensures
        first_zero_from(bytes, lo) is None <==> (forall|j: int|
            lo <= j < 8 * bytes.len() ==> bit_value(bytes, j)),
    decreases 8 * bytes.len() - lo,
{
    if lo < 8 * bytes.len() {
        lemma_first_zero_none(bytes, lo + 1);
    }
}

/// What `spec_set_bit` does, read bit by bit.
pub proof fn lemma_set_bit(bytes: Seq<u8>, i: int, j: int)
    requires
        0 <= i < bytes.len() * 8,
        0 <= j < bytes.len() * 8,
    ensures
        bit_value(spec_set_bit(bytes, i), j) == (i == j || bit_value(bytes, j)),
{
    lemma_index_split(i, j);
    if i / 8 == j / 8 {
        lemma_u8_or_mask(bytes[i / 8], (i % 8) as u8, (j % 8) as u8);
    }
}

/// What `spec_clear_bit` does, read bit by bit.
pub proof fn lemma_clear_bit(bytes: Seq<u8>, i: int, j: int)
    requires
        0 <= i < bytes.len() * 8,
        0 <= j < bytes.len() * 8,
    ensures
        bit_value(spec_clear_bit(bytes, i), j) == (i != j && bit_value(bytes, j)),
{
    lemma_index_split(i, j);
    if i / 8 == j / 8 {
        lemma_u8_andnot_mask(bytes[i / 8], (i % 8) as u8, (j % 8) as u8);
    }
}

/// What `spec_flip_bit` does, read bit by bit.
pub proof fn lemma_flip_bit(bytes: Seq<u8>, i: int, j: int)
    requires
        0 <= i < bytes.len() * 8,
        0 <= j < bytes.len() * 8,
    ensures
        bit_value(spec_flip_bit(bytes, i), j) == (if i == j {
            !bit_value(bytes, j)
        } else {
            bit_value(bytes, j)
        }),
{
    lemma_index_split(i, j);
    if i / 8 == j / 8 {
        lemma_u8_xor_mask(bytes[i / 8], (i % 8) as u8, (j % 8) as u8);
    }
}

/// What `spec_flip_all` does, read bit by bit.
pub proof fn lemma_flip_all_bit(bytes: Seq<u8>, j: int)
    requires
        0 <= j < bytes.len() * 8,
    ensures
        bit_value(spec_flip_all(bytes), j) == !bit_value(bytes, j),
{
    lemma_u8_not(bytes[j / 8], (j % 8) as u8);
}

} // verus!
