//! Properties that hold across operations, proved once and for all over the
//! model: the byte round-trip, idempotence of setting and clearing,
//! involution of flipping, the agreement of the two ways of counting set
//! bits, and the tie between the scans and the all-clear and all-set
//! predicates.

use vstd::prelude::*;
use crate::bits::{
    bit_value, bit_mask, spec_set_bit, spec_clear_bit, spec_flip_bit, spec_flip_all, byte_ones,
    count_ones, ones_below, spec_none, spec_all, spec_first_one, spec_first_zero,
    lemma_first_one_none, lemma_first_zero_none, lemma_byte_ones_is_bits,
};
use crate::convert::spec_resize;

verus! {

/// Round-trip: a byte array taken into a bitmap of exactly its own length
/// comes back unchanged.
pub proof fn lemma_bytes_round_trip(src: Seq<u8>)
    ensures
        spec_resize(src, src.len() as int) == src,
{
    assert(spec_resize(src, src.len() as int) =~= src);
}

/// Idempotence: setting a bit that is already set changes nothing, so two
/// `set` calls at one index leave the same map as one.
pub proof fn lemma_set_idempotent(bytes: Seq<u8>, i: int)
    requires
        0 <= i < bytes.len() * 8,
    ensures
        spec_set_bit(spec_set_bit(bytes, i), i) == spec_set_bit(bytes, i),
{
    let x = bytes[i / 8];
    let m = bit_mask(i);
    assert((x | m) | m == x | m) by (bit_vector);
    assert(spec_set_bit(spec_set_bit(bytes, i), i) =~= spec_set_bit(bytes, i));
}

/// Idempotence: clearing a bit that is already clear changes nothing, so
/// two `reset` calls at one index leave the same map as one.
pub proof fn lemma_clear_idempotent(bytes: Seq<u8>, i: int)
    requires
        0 <= i < bytes.len() * 8,
    ensures
        spec_clear_bit(spec_clear_bit(bytes, i), i) == spec_clear_bit(bytes, i),
{
    let x = bytes[i / 8];
    let m = bit_mask(i);
    assert((x & !m) & !m == x & !m) by (bit_vector);
    assert(spec_clear_bit(spec_clear_bit(bytes, i), i) =~= spec_clear_bit(bytes, i));
}

/// Involution: flipping one bit twice restores the whole map.
pub proof fn lemma_flip_involutive(bytes: Seq<u8>, i: int)
    requires
        0 <= i < bytes.len() * 8,
    ensures
        spec_flip_bit(spec_flip_bit(bytes, i), i) == bytes,
{
    let x = bytes[i / 8];
    let m = bit_mask(i);
    assert((x ^ m) ^ m == x) by (bit_vector);
    assert(spec_flip_bit(spec_flip_bit(bytes, i), i) =~= bytes);
}

/// Involution: flipping the whole map twice restores it.
pub proof fn lemma_flip_all_involutive(bytes: Seq<u8>)
    ensures
        spec_flip_all(spec_flip_all(bytes)) == bytes,
{
    assert forall|k: int| 0 <= k < bytes.len() implies spec_flip_all(spec_flip_all(bytes))[k]
        == bytes[k] by {
        let x = bytes[k];
        assert(!(!x) == x) by (bit_vector);
    };
    assert(spec_flip_all(spec_flip_all(bytes)) =~= bytes);
}

/// Complementarity: there is no first set bit exactly when no bit at all is
/// set, so `find_first_one` finds nothing exactly when `none` holds.
pub proof fn lemma_first_one_complement(bytes: Seq<u8>)
    ensures
        (spec_first_one(bytes) is None) <==> spec_none(bytes),
{
    lemma_first_one_none(bytes, 0);
}

/// Complementarity: there is no first clear bit exactly when every bit is
/// set, so `find_first_zero` finds nothing exactly when `all` holds.
pub proof fn lemma_first_zero_complement(bytes: Seq<u8>)
    ensures
        (spec_first_zero(bytes) is None) <==> spec_all(bytes),
{
    lemma_first_zero_none(bytes, 0);
}

/// Counting bit by bit ignores bytes wholly above the counted range.
proof fn lemma_ones_below_prefix(bytes: Seq<u8>, n: int)
    requires
        bytes.len() >= 1,
        n <= 8 * (bytes.len() - 1),
    ensures
        ones_below(bytes, n) == ones_below(bytes.drop_last(), n),
    decreases n,
{
    if n > 0 {
        lemma_ones_below_prefix(bytes, n - 1);
        assert((n - 1) / 8 < bytes.len() - 1);
        assert(bit_value(bytes, n - 1) == bit_value(bytes.drop_last(), n - 1));
    }
}

/// The last byte's contribution to the bit-by-bit count is its own
/// population count.
proof fn lemma_ones_below_last_byte(bytes: Seq<u8>)
    requires
        bytes.len() >= 1,
    ensures
        ones_below(bytes, 8 * bytes.len() as int) == ones_below(bytes, 8 * (bytes.len() - 1))
            + byte_ones(bytes.last()),
{
    let q = bytes.len() - 1;
    let b = bytes.last();
    assert forall|l: int| 0 <= l < 8 implies #[trigger] bit_value(bytes, 8 * q + l) == (b & (1u8
        << l as u8) != 0) by {
        assert((8 * q + l) / 8 == q && (8 * q + l) % 8 == l);
    };
    assert(ones_below(bytes, 8 * q + 1) == ones_below(bytes, 8 * q) + (if bit_value(bytes, 8 * q) {
        1int
    } else {
        0int
    }));
    assert(ones_below(bytes, 8 * q + 2) == ones_below(bytes, 8 * q + 1) + (if bit_value(
        bytes,
        8 * q + 1,
    ) {
        1int
    } else {
        0int
    }));
    assert(ones_below(bytes, 8 * q + 3) == ones_below(bytes, 8 * q + 2) + (if bit_value(
        bytes,
        8 * q + 2,
    ) {
        1int
    } else {
        0int
    }));
    assert(ones_below(bytes, 8 * q + 4) == ones_below(bytes, 8 * q + 3) + (if bit_value(
        bytes,
        8 * q + 3,
    ) {
        1int
    } else {
        0int
    }));
    assert(ones_below(bytes, 8 * q + 5) == ones_below(bytes, 8 * q + 4) + (if bit_value(
        bytes,
        8 * q + 4,
    ) {
        1int
    } else {
        0int
    }));
    assert(ones_below(bytes, 8 * q + 6) == ones_below(bytes, 8 * q + 5) + (if bit_value(
        bytes,
        8 * q + 5,
    ) {
        1int
    } else {
        0int
    }));
    assert(ones_below(bytes, 8 * q + 7) == ones_below(bytes, 8 * q + 6) + (if bit_value(
        bytes,
        8 * q + 6,
    ) {
        1int
    } else {
        0int
    }));
    assert(ones_below(bytes, 8 * q + 8) == ones_below(bytes, 8 * q + 7) + (if bit_value(
        bytes,
        8 * q + 7,
    ) {
        1int
    } else {
        0int
    }));
    lemma_byte_ones_is_bits(b);
    assert(8 * bytes.len() == 8 * q + 8);
}

/// Popcount correctness: the byte-wise count every `count` call returns
/// equals the count made by testing every bit on its own.
pub proof fn lemma_count_is_bit_count(bytes: Seq<u8>)
    ensures
        count_ones(bytes) == ones_below(bytes, 8 * bytes.len() as int),
    decreases bytes.len(),
{
    if bytes.len() == 0 {
    } else {
        lemma_count_is_bit_count(bytes.drop_last());
        lemma_ones_below_prefix(bytes, 8 * (bytes.len() - 1));
        lemma_ones_below_last_byte(bytes);
    }
}

} // verus!
