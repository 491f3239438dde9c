//! Building a bitmap out of byte arrays and little-endian integers, and
//! handing its bytes back. A source shorter than the map zero-fills the
//! high-order bytes; a longer one is truncated to the map's capacity.

use vstd::prelude::*;
use crate::bitmap::Bitmap;

verus! {

broadcast use crate::bitmap::lemma_bitmap_view_len;

/// `256^n`: the number of values `n` bytes can hold.
pub open spec fn pow256(n: nat) -> nat
    decreases n,
{
    if n == 0 {
        1
    } else {
        256 * pow256((n - 1) as nat)
    }
}

/// The little-endian byte rendering of `v`, truncated or zero-filled to
/// exactly `n` bytes: the first byte is the least significant.
pub open spec fn le_bytes(v: nat, n: nat) -> Seq<u8>
    decreases n,
{
    if n == 0 {
        Seq::empty()
    } else {
        seq![(v % 256) as u8] + le_bytes(v / 256, (n - 1) as nat)
    }
}

/// The value a little-endian byte sequence stands for.
pub open spec fn le_value(bytes: Seq<u8>) -> nat
    decreases bytes.len(),
{
    if bytes.len() == 0 {
        0
    } else {
        bytes[0] as nat + 256 * le_value(bytes.skip(1))
    }
}

/// `src` resized to `n` bytes: truncated, or zero-filled at the top.
pub open spec fn spec_resize(src: Seq<u8>, n: int) -> Seq<u8> {
    Seq::new(n as nat, |i: int| if i < src.len() {
        src[i]
    } else {
        0u8
    })
}

/// The powers of 256 up to the widest integer handled here.
pub proof fn lemma_pow256_values()
    ensures
        pow256(0) == 1,
        pow256(1) == 0x100,
        pow256(2) == 0x10000,
        pow256(4) == 0x1_0000_0000,
        pow256(8) == 0x1_0000_0000_0000_0000,
        pow256(16) == 0x1_0000_0000_0000_0000_0000_0000_0000_0000,
{
    assert(pow256(0) == 1);
    assert(pow256(1) == 0x100);
    assert(pow256(2) == 0x10000);
    assert(pow256(3) == 0x100_0000);
    assert(pow256(4) == 0x1_0000_0000);
    assert(pow256(5) == 0x100_0000_0000);
    assert(pow256(6) == 0x1_0000_0000_0000);
    assert(pow256(7) == 0x100_0000_0000_0000);
    assert(pow256(8) == 0x1_0000_0000_0000_0000);
    assert(pow256(9) == 0x100_0000_0000_0000_0000);
    assert(pow256(10) == 0x1_0000_0000_0000_0000_0000);
    assert(pow256(11) == 0x100_0000_0000_0000_0000_0000);
    assert(pow256(12) == 0x1_0000_0000_0000_0000_0000_0000);
    assert(pow256(13) == 0x100_0000_0000_0000_0000_0000_0000);
    assert(pow256(14) == 0x1_0000_0000_0000_0000_0000_0000_0000);
    assert(pow256(15) == 0x100_0000_0000_0000_0000_0000_0000_0000);
    assert(pow256(16) == 0x1_0000_0000_0000_0000_0000_0000_0000_0000);
}

/// A little-endian byte sequence stands for a value below `256^len`.
pub proof fn lemma_le_value_bound(bytes: Seq<u8>)
    ensures
        le_value(bytes) < pow256(bytes.len()),
    decreases bytes.len(),
{
    if bytes.len() > 0 {
        lemma_le_value_bound(bytes.skip(1));
    }
}

/// Turn the low `N` bytes of a value into a little-endian array.
pub(crate) fn le_array_of_u128<const N: usize>(v: u128) -> (r: [u8; N])
    ensures
        r@ == le_bytes(v as nat, N as nat),
{
    let mut arr: [u8; N] = [0u8; N];
    let mut x: u128 = v;
    let mut i: usize = 0;
    proof {
        assert(arr@.take(0) =~= Seq::<u8>::empty());
        assert(Seq::<u8>::empty() + le_bytes(v as nat, N as nat) =~= le_bytes(v as nat, N as nat));
    }
    while i < N
        invariant
            i <= N,
            arr@.len() == N,
            arr@.take(i as int) + le_bytes(x as nat, (N - i) as nat) == le_bytes(
                v as nat,
                N as nat,
            ),
        decreases N - i,
    {
        let ghost prefix = arr@.take(i as int);
        let ghost x0 = x as nat;
        arr[i] = (x % 256) as u8;
        x = x / 256;
        proof {
            assert(le_bytes(x0, (N - i) as nat) == seq![(x0 % 256) as u8] + le_bytes(
                x0 / 256,
                (N - i - 1) as nat,
            ));
            assert(arr@.take(i + 1) =~= prefix + seq![(x0 % 256) as u8]);
            assert(arr@.take(i + 1) + le_bytes(x as nat, (N - (i + 1)) as nat) =~= prefix + (seq![
                (x0 % 256) as u8,
            ] + le_bytes(x0 / 256, (N - i - 1) as nat)));
        }
        i += 1;
    }
    proof {
        assert(arr@.take(N as int) =~= arr@);
        assert(arr@ + le_bytes(x as nat, 0) =~= arr@);
    }
    arr
}

/// Read a little-endian array back into a value; up to 16 bytes fit a
/// `u128`.
pub(crate) fn u128_of_le_array<const N: usize>(arr: &[u8; N]) -> (r: u128)
    requires
        N <= 16,
    ensures
        r as nat == le_value(arr@),
{
    proof {
        lemma_pow256_values();
    }
    let mut x: u128 = 0;
    let mut i: usize = N;
    proof {
        assert(arr@.skip(N as int) =~= Seq::<u8>::empty());
    }
    while i > 0
        invariant
            i <= N <= 16,
            arr@.len() == N,
            x as nat == le_value(arr@.skip(i as int)),
            (x as nat) < pow256((N - i) as nat),
        decreases i,
    {
        proof {
            assert(arr@.skip(i - 1).skip(1) =~= arr@.skip(i as int));
            assert(pow256((N - i + 1) as nat) == 256 * pow256((N - i) as nat));
            assert(pow256((N - i + 1) as nat) <= pow256(16)) by {
                lemma_pow256_increases((N - i + 1) as nat, 16);
            };
            assert((x as nat) * 256 + 255 < pow256((N - i + 1) as nat));
            assert((x as nat) * 256 + 255 < pow256(16));
            assert(pow256(16) == u128::MAX + 1) by {
                lemma_pow256_values();
            };
        }
        x = x * 256 + arr[i - 1] as u128;
        i -= 1;
    }
    proof {
        assert(arr@.skip(0) =~= arr@);
    }
    x
}

/// Higher byte widths hold at least as many values.
pub proof fn lemma_pow256_increases(m: nat, n: nat)
    requires
        m <= n,
    ensures
        pow256(m) <= pow256(n),
    decreases n,
{
    if m < n {
        lemma_pow256_increases(m, (n - 1) as nat);
    }
}

impl<const BYTES: usize> Bitmap<BYTES> {
    /// Build a bitmap out of a byte array, truncating it or zero-filling
    /// the high-order bytes as the capacities differ.
    pub fn from_bytes<const N: usize>(src: [u8; N]) -> (r: Self)
        ensures
            r@ == spec_resize(src@, BYTES as int),
    {
        let mut bits: [u8; BYTES] = [0u8; BYTES];
        let limit: usize = if N < BYTES {
            N
        } else {
            BYTES
        };
        let mut i: usize = 0;
        while i < limit
            invariant
                i <= limit,
                limit == (if N < BYTES {
                    N as int
                } else {
                    BYTES as int
                }),
                bits@.len() == BYTES,
                src@.len() == N,
                forall|k: int| 0 <= k < i ==> bits@[k] == src@[k],
                forall|k: int| i <= k < BYTES ==> bits@[k] == 0u8,
            decreases limit - i,
        {
            bits[i] = src[i];
            i += 1;
        }
        proof {
            assert(bits@ =~= spec_resize(src@, BYTES as int));
        }
        Bitmap::from_array(bits)
    }

    /// Surrender the bitmap's bytes as an array.
    pub fn into_bytes(self) -> (r: [u8; BYTES])
        ensures
            r@ == self@,
    {
        self.to_array()
    }

    /// Build a bitmap out of the little-endian bytes of a value, however
    /// wide the map: bytes beyond the value are zero, bytes beyond the map
    /// are dropped.
    fn from_le_value(v: u128) -> (r: Self)
        ensures
            r@ == le_bytes(v as nat, BYTES as nat),
    {
        let mut bits: [u8; BYTES] = [0u8; BYTES];
        let mut x: u128 = v;
        let mut i: usize = 0;
        proof {
            assert(bits@.take(0) =~= Seq::<u8>::empty());
            assert(Seq::<u8>::empty() + le_bytes(v as nat, BYTES as nat) =~= le_bytes(
                v as nat,
                BYTES as nat,
            ));
        }
        while i < BYTES
            invariant
                i <= BYTES,
                bits@.len() == BYTES,
                bits@.take(i as int) + le_bytes(x as nat, (BYTES - i) as nat) == le_bytes(
                    v as nat,
                    BYTES as nat,
                ),
            decreases BYTES - i,
        {
            let ghost prefix = bits@.take(i as int);
            let ghost x0 = x as nat;
            bits[i] = (x % 256) as u8;
            x = x / 256;
            proof {
                assert(le_bytes(x0, (BYTES - i) as nat) == seq![(x0 % 256) as u8] + le_bytes(
                    x0 / 256,
                    (BYTES - i - 1) as nat,
                ));
                assert(bits@.take(i + 1) =~= prefix + seq![(x0 % 256) as u8]);
                assert(bits@.take(i + 1) + le_bytes(x as nat, (BYTES - (i + 1)) as nat) =~= prefix
                    + (seq![(x0 % 256) as u8] + le_bytes(x0 / 256, (BYTES - i - 1) as nat)));
            }
            i += 1;
        }
        proof {
            assert(bits@.take(BYTES as int) =~= bits@);
            assert(bits@ + le_bytes(x as nat, 0) =~= bits@);
        }
        Bitmap::from_array(bits)
    }

    /// Build a bitmap out of the little-endian bytes of a `u8`.
    pub fn from_u8(v: u8) -> (r: Self)
        ensures
            r@ == le_bytes(v as nat, BYTES as nat),
    {
        Self::from_le_value(v as u128)
    }

    /// Build a bitmap out of the little-endian bytes of a `u16`.
    pub fn from_u16(v: u16) -> (r: Self)
        ensures
            r@ == le_bytes(v as nat, BYTES as nat),
    {
        Self::from_le_value(v as u128)
    }

    /// Build a bitmap out of the little-endian bytes of a `u32`.
    pub fn from_u32(v: u32) -> (r: Self)
        ensures
            r@ == le_bytes(v as nat, BYTES as nat),
    {
        Self::from_le_value(v as u128)
    }

    /// Build a bitmap out of the little-endian bytes of a `u64`.
    pub fn from_u64(v: u64) -> (r: Self)
        ensures
            r@ == le_bytes(v as nat, BYTES as nat),
    {
        Self::from_le_value(v as u128)
    }

    /// Build a bitmap out of the little-endian bytes of a `u128`.
    pub fn from_u128(v: u128) -> (r: Self)
        ensures
            r@ == le_bytes(v as nat, BYTES as nat),
    {
        Self::from_le_value(v)
    }
}

} // verus!
