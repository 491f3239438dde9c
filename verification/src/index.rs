//! Index arithmetic: mapping a linear bit index to its byte and to its
//! position within that byte, and the bounds test every addressed operation
//! relies on. All pure, with no failure modes.

use vstd::prelude::*;

verus! {

/// Index of the byte that holds logical bit `index`.
pub fn byte_of(index: usize) -> (r: usize)
    ensures
        r == index as int / 8,
{
    proof {
        assert(index >> 3u8 == index as int / 8) by (bit_vector);
    }
    index >> 3
}

/// Position of logical bit `index` within its byte (0 = least significant).
pub fn bit_of(index: usize) -> (r: usize)
    ensures
        r == index as int % 8,
{
    proof {
        assert(index & 7 == index as int % 8) by (bit_vector);
    }
    index & 7
}

/// Both coordinates of a bit index at once: its byte and its position.
pub fn split(index: usize) -> (r: (usize, usize))
    ensures
        r.0 == index as int / 8,
        r.1 == index as int % 8,
{
    (byte_of(index), bit_of(index))
}

/// Whether bit `index` lies beyond a map of `capacity_bytes` bytes.
pub fn out_of_bounds(capacity_bytes: usize, index: usize) -> (r: bool)
    ensures
        r <==> index as int / 8 >= capacity_bytes,
        r <==> index >= 8 * capacity_bytes,
{
    byte_of(index) >= capacity_bytes
}

} // verus!
