//! Human-readable rendering: a binary dump of an arbitrary bit range, and
//! the diagnostic summary of the whole map showing its bit length and its
//! lowest bytes. Neither is a lossless serialization.

use vstd::prelude::*;
use vstd::string::StringExecFns;
use crate::bitmap::Bitmap;
use crate::bits::bit_value;
use crate::index::out_of_bounds;

verus! {

broadcast use crate::bitmap::lemma_bitmap_view_len;

/// The character one bit renders as.
pub open spec fn bit_char(bytes: Seq<u8>, i: int) -> char {
    if bit_value(bytes, i) {
        '1'
    } else {
        '0'
    }
}

/// The rendering of bits `i` down to `start`, highest first, with a space
/// after every bit that closes a byte before the range's end.
pub open spec fn range_chars(bytes: Seq<u8>, start: int, i: int) -> Seq<char>
    decreases i - start + 1,
{
    if i < start {
        Seq::empty()
    } else {
        seq![bit_char(bytes, i)] + (if i % 8 == 0 && i > start {
            seq![' ']
        } else {
            Seq::empty()
        }) + range_chars(bytes, start, i - 1)
    }
}

/// The character a decimal digit renders as.
pub open spec fn dec_digit(d: int) -> char {
    if d == 0 {
        '0'
    } else if d == 1 {
        '1'
    } else if d == 2 {
        '2'
    } else if d == 3 {
        '3'
    } else if d == 4 {
        '4'
    } else if d == 5 {
        '5'
    } else if d == 6 {
        '6'
    } else if d == 7 {
        '7'
    } else if d == 8 {
        '8'
    } else {
        '9'
    }
}

/// The decimal rendering of a number, most significant digit first.
pub open spec fn dec_chars(n: int) -> Seq<char>
    recommends
        n >= 0,
    decreases n,
{
    if n < 10 {
        seq![dec_digit(n)]
    } else {
        dec_chars(n / 10) + seq![dec_digit(n % 10)]
    }
}

/// The binary rendering of one byte, most significant bit first.
pub open spec fn byte_bin_chars(b: u8) -> Seq<char> {
    Seq::new(8, |k: int| if b & (1u8 << ((7 - k) as u8)) != 0 {
        '1'
    } else {
        '0'
    })
}

/// The whole-map summary: the bit length in brackets, then up to the two
/// lowest bytes in binary, highest of the two first, with an ellipsis when
/// more bytes exist than are shown.
pub open spec fn display_chars(bytes: Seq<u8>) -> Seq<char> {
    seq!['['] + dec_chars(8 * bytes.len() as int) + seq![' ', 'b', 'i', 't', 's', ']', ' '] + (
    if bytes.len() > 2 {
        seq!['.', '.', '.']
    } else {
        Seq::empty()
    }) + (if bytes.len() == 0 {
        Seq::empty()
    } else if bytes.len() == 1 {
        byte_bin_chars(bytes[0])
    } else {
        byte_bin_chars(bytes[1]) + seq![' '] + byte_bin_chars(bytes[0])
    })
}

/// One decimal digit as a string slice.
fn digit_str(d: usize) -> (r: &'static str)
    requires
        d < 10,
    ensures
        r@ == seq![dec_digit(d as int)],
{
    let r = if d == 0 {
        "0"
    } else if d == 1 {
        "1"
    } else if d == 2 {
        "2"
    } else if d == 3 {
        "3"
    } else if d == 4 {
        "4"
    } else if d == 5 {
        "5"
    } else if d == 6 {
        "6"
    } else if d == 7 {
        "7"
    } else if d == 8 {
        "8"
    } else {
        "9"
    };
    proof {
        reveal_strlit("0");
        reveal_strlit("1");
        reveal_strlit("2");
        reveal_strlit("3");
        reveal_strlit("4");
        reveal_strlit("5");
        reveal_strlit("6");
        reveal_strlit("7");
        reveal_strlit("8");
        reveal_strlit("9");
        assert(r@ =~= seq![dec_digit(d as int)]);
    }
    r
}

/// Append the decimal rendering of a number.
fn append_decimal(s: &mut String, n: usize)
    ensures
        final(s)@ == old(s)@ + dec_chars(n as int),
    decreases n,
{
    if n < 10 {
        s.append(digit_str(n));
    } else {
        append_decimal(s, n / 10);
        let ghost mid = s@;
        s.append(digit_str(n % 10));
        proof {
            assert(mid + seq![dec_digit(n as int % 10)] =~= old(s)@ + (dec_chars(n as int / 10)
                + seq![dec_digit(n as int % 10)]));
        }
    }
}

/// Append the binary rendering of one byte, most significant bit first.
fn append_byte_bits(s: &mut String, b: u8)
    ensures
        final(s)@ == old(s)@ + byte_bin_chars(b),
{
    let mut k: usize = 0;
    proof {
        assert(s@ =~= old(s)@ + byte_bin_chars(b).take(0));
    }
    while k < 8
        invariant
            k <= 8,
            s@ == old(s)@ + byte_bin_chars(b).take(k as int),
        decreases 8 - k,
    {
        let ghost mid = s@;
        let shift: u8 = (7 - k) as u8;
        let one = (b >> shift) & 1 == 1;
        proof {
            assert(shift < 8 ==> (((b >> shift) & 1 == 1) <==> (b & (1u8 << shift) != 0)))
                by (bit_vector);
            reveal_strlit("0");
            reveal_strlit("1");
        }
        if one {
            s.append("1");
        } else {
            s.append("0");
        }
        proof {
            assert(byte_bin_chars(b)[k as int] == (if one {
                '1'
            } else {
                '0'
            }));
            assert(s@ =~= old(s)@ + byte_bin_chars(b).take(k + 1));
        }
        k += 1;
    }
    proof {
        assert(byte_bin_chars(b).take(8) =~= byte_bin_chars(b));
    }
}

impl<const BYTES: usize> Bitmap<BYTES> {
    /// Render bits `start` up to but not including `end`, highest index
    /// first, a space at each byte boundary crossed. An empty or
    /// out-of-bounds range yields nothing rather than failing.
    pub fn range_to_string(&self, start: usize, end: usize) -> (r: Option<String>)
        ensures
            r is Some <==> (start < end && end <= 8 * BYTES),
            r matches Some(s) ==> s@ == range_chars(self@, start as int, end - 1),
    {
        if start >= end {
            return None;
        }
        if out_of_bounds(BYTES, start) || out_of_bounds(BYTES, end - 1) {
            return None;
        }
        let mut s = String::new();
        let mut n: usize = end - start;
        proof {
            assert(range_chars(self@, start as int, end - 1) =~= Seq::<char>::empty()
                + range_chars(self@, start as int, end - 1));
        }
        while n > 0
            invariant
                n <= end - start,
                start < end,
                end <= 8 * BYTES,
                self@.len() == BYTES,
                range_chars(self@, start as int, end - 1) == s@ + range_chars(
                    self@,
                    start as int,
                    start + n - 1,
                ),
            decreases n,
        {
            let i: usize = start + n - 1;
            let ghost mid = s@;
            let one = self.get_bool(i);
            proof {
                reveal_strlit("0");
                reveal_strlit("1");
                reveal_strlit(" ");
            }
            if one {
                s.append("1");
            } else {
                s.append("0");
            }
            if i % 8 == 0 && i > start {
                s.append(" ");
            }
            proof {
                let ghost sep: Seq<char> = if i as int % 8 == 0 && i > start {
                    seq![' ']
                } else {
                    Seq::<char>::empty()
                };
                assert(s@ =~= mid + (seq![bit_char(self@, i as int)] + sep));
                assert(range_chars(self@, start as int, i as int) == seq![
                    bit_char(self@, i as int),
                ] + sep + range_chars(self@, start as int, i - 1));
                assert(mid + (seq![bit_char(self@, i as int)] + sep) + range_chars(
                    self@,
                    start as int,
                    i - 1,
                ) =~= mid + range_chars(self@, start as int, i as int));
            }
            n -= 1;
        }
        proof {
            assert(range_chars(self@, start as int, start - 1) =~= Seq::<char>::empty());
            assert(s@ + Seq::<char>::empty() =~= s@);
        }
        Some(s)
    }

    /// The whole-map diagnostic summary: bit length, then up to the two
    /// lowest bytes in binary, an ellipsis standing for the rest.
    pub fn display_string(&self) -> (r: String)
        requires
            8 * BYTES <= usize::MAX,
        ensures
            r@ == display_chars(self@),
    {
        let mut s = String::new();
        proof {
            reveal_strlit("[");
            reveal_strlit(" bits] ");
            reveal_strlit("...");
            reveal_strlit(" ");
        }
        s.append("[");
        append_decimal(&mut s, BYTES * 8);
        s.append(" bits] ");
        if BYTES > 2 {
            s.append("...");
        }
        if BYTES >= 2 {
            append_byte_bits(&mut s, self.byte_at(1));
            s.append(" ");
            append_byte_bits(&mut s, self.byte_at(0));
        } else if BYTES == 1 {
            append_byte_bits(&mut s, self.byte_at(0));
        }
        proof {
            assert(s@ =~= display_chars(self@));
        }
        s
    }
}

} // verus!
