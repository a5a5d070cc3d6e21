//! Packing hex text back into bytes, into a second buffer or in place.

use vstd::prelude::*;
use crate::byte::{from_hex, hex_pair_value, is_hex_digit};
use crate::encode::lemma_odd_neighbour;

verus! {

/// Why a buffer of hex text could not be decoded.
#[derive(Debug, Clone, Copy, PartialEq, Eq, Structural)]
pub enum DecodeHexError {
    /// The text has an odd number of characters.
    Odd,
    /// A pair holds a character that is not a hex digit.
    NotNibble,
    /// The destination cannot hold the decoded bytes.
    Small,
}

impl DecodeHexError {
    /// The text of `message`, for each error.
    pub open spec fn message_text(self) -> Seq<char> {
        match self {
            DecodeHexError::Odd => "Buffer has an odd `len`"@,
            DecodeHexError::NotNibble => "One or more bytes is not an ASCII nibble"@,
            DecodeHexError::Small => "Destination buffer isn't big enough"@,
        }
    }

    /// A short description of the error, for display.
    pub fn message(&self) -> (s: &'static str)
        ensures
            s@ == self.message_text(),
    {
        match self {
            DecodeHexError::Odd => "Buffer has an odd `len`",
            DecodeHexError::NotNibble => "One or more bytes is not an ASCII nibble",
            DecodeHexError::Small => "Destination buffer isn't big enough",
        }
    }
}

/// Whether the characters at `2i` and `2i + 1` are both hex digits.
pub open spec fn pair_is_hex(text: Seq<u8>, i: int) -> bool {
    is_hex_digit(text[2 * i]) && is_hex_digit(text[2 * i + 1])
}

/// The index of the first pair at or after `from` that is not a pair of hex
/// digits, or the number of whole pairs in `text` where there is none.
pub open spec fn hex_pairs_from(text: Seq<u8>, from: int) -> int
    decreases text.len() - 2 * from,
{
    if 0 <= from && 2 * from + 1 < text.len() && pair_is_hex(text, from) {
        hex_pairs_from(text, from + 1)
    } else {
        from
    }
}

/// How many pairs at the start of `text` decode before the first one that
/// does not.
pub open spec fn leading_hex_pairs(text: Seq<u8>) -> int {
    hex_pairs_from(text, 0)
}

/// The bytes that hex text spells, one for each pair. An entry has a
/// meaning only where its pair is made of hex digits.
pub open spec fn hex_decoding(text: Seq<u8>) -> Seq<u8> {
    Seq::new(
        text.len() / 2,
        |i: int| hex_pair_value(text[2 * i], text[2 * i + 1]).unwrap(),
    )
}

/// What decoding `text` into a buffer with room for `room` bytes reports.
/// The length is looked at first, then the room, then the pairs from left to
/// right.
pub open spec fn decode_outcome(text: Seq<u8>, room: nat) -> Result<(), DecodeHexError> {
    if text.len() % 2 != 0 {
        Err(DecodeHexError::Odd)
    } else if text.len() / 2 > room {
        Err(DecodeHexError::Small)
    } else if leading_hex_pairs(text) < text.len() / 2 {
        Err(DecodeHexError::NotNibble)
    } else {
        Ok(())
    }
}

/// What decoding `text` leaves in a buffer that held `buf`. A rejected
/// length or too little room leaves the buffer as it was. Otherwise the
/// pairs before the first bad one have been written to the front, and every
/// byte behind them is as before.
pub open spec fn decoded_buffer(text: Seq<u8>, buf: Seq<u8>) -> Seq<u8> {
    if text.len() % 2 != 0 || text.len() / 2 > buf.len() {
        buf
    } else {
        let k = leading_hex_pairs(text);
        hex_decoding(text.take(2 * k)) + buf.skip(k)
    }
}

/// Packs the hex text in `src` into the first `src.len() / 2` bytes of
/// `dest`.
///
/// An odd length gives `Odd` and too small a destination gives `Small`, both
/// before anything is written. A pair that is not hex gives `NotNibble`; the
/// bytes decoded before it stay written.
pub fn decode_slice(src: &[u8], dest: &mut [u8]) -> (r: Result<(), DecodeHexError>)
    ensures
        r == decode_outcome(src@, old(dest)@.len()),
        final(dest)@ == decoded_buffer(src@, old(dest)@),
{
    if src.len() % 2 != 0 {
        return Err(DecodeHexError::Odd);
    }
    if src.len() / 2 > dest.len() {
        return Err(DecodeHexError::Small);
    }
    let len: usize = src.len() / 2;
    let mut i: usize = 0;
    while i < len
        invariant
            i <= len,
            2 * len == src@.len() <= usize::MAX,
            len <= dest@.len(),
            dest@.len() == old(dest)@.len(),
            leading_hex_pairs(src@) == hex_pairs_from(src@, i as int),
            forall|j: int| 0 <= j < i ==> dest@[j] == hex_decoding(src@)[j],
            forall|j: int| i <= j < dest@.len() ==> dest@[j] == old(dest)@[j],
        decreases len - i,
    {
        let i2: usize = i + i;
        proof {
            lemma_odd_neighbour(i2);
        }
        match from_hex([src[i2], src[i2 | 1]]) {
            Ok(b) => dest[i] = b,
            _ => {
                assert(dest@ =~= hex_decoding(src@.take(2 * i)) + old(dest)@.skip(i as int));
                return Err(DecodeHexError::NotNibble);
            },
        }
        i += 1;
    }
    assert(src@.take(2 * len) =~= src@);
    assert(dest@ =~= hex_decoding(src@) + old(dest)@.skip(len as int));
    Ok(())
}

/// Packs the hex text that fills `s` into the first half of `s`.
///
/// An odd length gives `Odd` before anything is written. A pair that is not
/// hex gives `NotNibble`; the bytes decoded before it stay written. Every
/// byte behind the last one written is as it was.
pub fn decode_slice_in_place(s: &mut [u8]) -> (r: Result<(), DecodeHexError>)
    ensures
        r == decode_outcome(old(s)@, old(s)@.len()),
        final(s)@ == decoded_buffer(old(s)@, old(s)@),
{
    if s.len() % 2 != 0 {
        return Err(DecodeHexError::Odd);
    }
    let len: usize = s.len() / 2;
    let mut i: usize = 0;
    while i < len
        invariant
            i <= len,
            2 * len == s@.len() <= usize::MAX,
            s@.len() == old(s)@.len(),
            leading_hex_pairs(old(s)@) == hex_pairs_from(old(s)@, i as int),
            forall|j: int| 0 <= j < i ==> s@[j] == hex_decoding(old(s)@)[j],
            forall|j: int| i <= j < s@.len() ==> s@[j] == old(s)@[j],
        decreases len - i,
    {
        let i2: usize = i + i;
        proof {
            lemma_odd_neighbour(i2);
        }
        match from_hex([s[i2], s[i2 | 1]]) {
            Ok(b) => s[i] = b,
            _ => {
                assert(s@ =~= hex_decoding(old(s)@.take(2 * i)) + old(s)@.skip(i as int));
                return Err(DecodeHexError::NotNibble);
            },
        }
        i += 1;
    }
    assert(old(s)@.take(2 * len) =~= old(s)@);
    assert(s@ =~= hex_decoding(old(s)@) + old(s)@.skip(len as int));
    Ok(())
}

} // verus!
