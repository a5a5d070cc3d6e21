//! One byte to two hex digits, and two hex digits back to one byte.

use vstd::prelude::*;
use crate::table::{hex_digit, lemma_table_entries, Case, LUT_LOW, LUT_UP};

verus! {

/// The two digits of a byte: the high nibble first, then the low one.
pub open spec fn hex_pair(b: u8, c: Case) -> Seq<u8> {
    seq![hex_digit(c, b as int / 16), hex_digit(c, b as int % 16)]
}

/// Whether a byte is one of `0-9`, `a-f`, `A-F`.
pub open spec fn is_hex_digit(h: u8) -> bool {
    (0x30 <= h <= 0x39) || (0x61 <= h <= 0x66) || (0x41 <= h <= 0x46)
}

/// What a single character stands for. Decimal digits give 0 to 9. Letters
/// of either case count on from ten through the whole alphabet, so `g`
/// gives 16 and `z` gives 35. Any other byte gives the sentinel 255.
pub open spec fn nibble_of(h: u8) -> int {
    if 0x41 <= h <= 0x5a {
        h - 0x41 + 10
    } else if 0x61 <= h <= 0x7a {
        h - 0x61 + 10
    } else if 0x30 <= h <= 0x39 {
        h - 0x30
    } else {
        0xff
    }
}

/// The byte that a pair of characters spells, if both are hex digits.
pub open spec fn hex_pair_value(hi: u8, lo: u8) -> Option<u8> {
    if is_hex_digit(hi) && is_hex_digit(lo) {
        Some((16 * nibble_of(hi) + nibble_of(lo)) as u8)
    } else {
        None
    }
}

/// A character is a hex digit exactly when its value fits in four bits.
pub proof fn lemma_hex_digit_iff_nibble(h: u8)
    ensures
        is_hex_digit(h) <==> nibble_of(h) <= 0xf,
        0 <= nibble_of(h) <= 0xff,
{
}

proof fn lemma_split_byte(b: u8)
    ensures
        (b >> 4) == b / 16,
        (b & 0xf) == b % 16,
        (b >> 4) < 16,
        (b & 0xf) < 16,
{
    assert((b >> 4) == b / 16) by (bit_vector);
    assert((b & 0xf) == b % 16) by (bit_vector);
}

proof fn lemma_join_nibbles(hi: u8, lo: u8)
    requires
        hi <= 0xf,
        lo <= 0xf,
    ensures
        ((hi << 4) | lo) == 16 * hi + lo,
{
    assert(((hi << 4) | lo) == 16 * hi + lo) by (bit_vector)
        requires
            hi <= 0xf,
            lo <= 0xf,
    ;
}

/// Encodes one byte as its two hex digits in the given case.
#[must_use]
pub fn from_byte(b: u8, c: Case) -> (h: [u8; 2])
    ensures
        h@ == hex_pair(b, c),
{
    let lut = match c {
        Case::Lower => LUT_LOW,
        Case::Upper => LUT_UP,
    };
    proof {
        lemma_split_byte(b);
        lemma_table_entries(c);
    }
    let mut h: [u8; 2] = [0, 0];
    h[0] = lut[(b >> 4) as usize];
    h[1] = lut[(b & 0xf) as usize];
    h
}

/// Maps one character to its value; see `nibble_of`. The result is at most
/// 15 exactly for hex digits.
#[must_use]
pub fn from_nibble(h: u8) -> (n: u8)
    ensures
        n == nibble_of(h),
        n <= 0xf <==> is_hex_digit(h),
{
    if 0x41 <= h && h <= 0x5a {
        h - 0x41 + 10
    } else if 0x61 <= h && h <= 0x7a {
        h - 0x61 + 10
    } else if 0x30 <= h && h <= 0x39 {
        h - 0x30
    } else {
        0xff
    }
}

/// Decodes two hex digits, each of either case, into the byte they spell.
///
/// Fails exactly when one of the two characters is not a hex digit.
pub fn from_hex(h: [u8; 2]) -> (r: Result<u8, ()>)
    ensures
        r is Ok <==> is_hex_digit(h@[0]) && is_hex_digit(h@[1]),
        r == match hex_pair_value(h@[0], h@[1]) {
            Some(b) => Ok::<u8, ()>(b),
            None => Err::<u8, ()>(()),
        },
{
    let hi = from_nibble(h[0]);
    let lo = from_nibble(h[1]);
    if hi > 0xf || lo > 0xf {
        return Err(());
    }
    proof {
        lemma_join_nibbles(hi, lo);
    }
    Ok((hi << 4) | lo)
}

} // verus!
