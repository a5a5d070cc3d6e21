//! Laws that relate encoding and decoding, stated over the same spec
//! functions as the contracts of the executable functions.

use vstd::prelude::*;
use crate::byte::{hex_pair, hex_pair_value, is_hex_digit, nibble_of};
use crate::decode::{
    decode_outcome, decoded_buffer, hex_decoding, hex_pairs_from, leading_hex_pairs, pair_is_hex,
    DecodeHexError,
};
use crate::encode::{encode_fits, hex_encoding};
use crate::table::{hex_digit, Case};

verus! {

/// The upper-case form of a letter; any other byte unchanged.
pub open spec fn ascii_upper(h: u8) -> u8 {
    if 0x61 <= h <= 0x7a {
        (h - 0x20) as u8
    } else {
        h
    }
}

/// The lower-case form of a letter; any other byte unchanged.
pub open spec fn ascii_lower(h: u8) -> u8 {
    if 0x41 <= h <= 0x5a {
        (h + 0x20) as u8
    } else {
        h
    }
}

/// Whether two characters are the same up to the case of a letter.
pub open spec fn same_up_to_case(a: u8, b: u8) -> bool {
    ascii_lower(a) == ascii_lower(b)
}

/// The digits that encoding writes are hex digits, and each stands for the
/// nibble it was written for, whichever case was chosen.
pub proof fn lemma_digit_value(c: Case, v: int)
    requires
        0 <= v < 16,
    ensures
        is_hex_digit(hex_digit(c, v)),
        nibble_of(hex_digit(c, v)) == v,
{
}

/// Decoding the two digits of a byte gives the byte back, also where the
/// two digits were written in different cases.
pub proof fn lemma_pair_round_trip(b: u8, hi_case: Case, lo_case: Case)
    ensures
        hex_pair_value(hex_digit(hi_case, b as int / 16), hex_digit(lo_case, b as int % 16))
            == Some(b),
        hex_pair_value(hex_pair(b, hi_case)[0], hex_pair(b, hi_case)[1]) == Some(b),
{
    lemma_digit_value(hi_case, b as int / 16);
    lemma_digit_value(lo_case, b as int % 16);
    lemma_digit_value(hi_case, b as int % 16);
}

/// Decoding does not look at the case of a letter: two pairs that differ
/// only in the case of their characters decode alike, to the same byte or
/// both to nothing.
pub proof fn lemma_decode_ignores_case(hi: u8, lo: u8, hi2: u8, lo2: u8)
    requires
        same_up_to_case(hi, hi2),
        same_up_to_case(lo, lo2),
    ensures
        hex_pair_value(hi, lo) == hex_pair_value(hi2, lo2),
        hex_pair_value(hi, lo) == hex_pair_value(ascii_lower(hi), ascii_lower(lo)),
        hex_pair_value(hi, lo) == hex_pair_value(ascii_upper(hi), ascii_upper(lo)),
{
}

/// One byte, two characters: in the hex text of `bytes`, the digits of byte
/// `i` stand at `2i` and `2i + 1`, high nibble first, and they are the pair
/// that `from_byte` gives for that byte.
pub proof fn lemma_encoding_by_pairs(bytes: Seq<u8>, c: Case, i: int)
    requires
        0 <= i < bytes.len(),
    ensures
        hex_encoding(bytes, c).len() == 2 * bytes.len(),
        hex_encoding(bytes, c)[2 * i] == hex_digit(c, bytes[i] as int / 16),
        hex_encoding(bytes, c)[2 * i + 1] == hex_digit(c, bytes[i] as int % 16),
        hex_encoding(bytes, c).subrange(2 * i, 2 * i + 2) == hex_pair(bytes[i], c),
{
    assert(hex_encoding(bytes, c).subrange(2 * i, 2 * i + 2) =~= hex_pair(bytes[i], c));
}

/// `leading_hex_pairs` is the index of the first pair that is not hex: all
/// pairs before it are hex, and it is either a pair that is not, or the
/// number of whole pairs in the text.
pub proof fn lemma_leading_hex_pairs(text: Seq<u8>)
    ensures
        0 <= leading_hex_pairs(text) <= text.len() / 2,
        forall|i: int| 0 <= i < leading_hex_pairs(text) ==> pair_is_hex(text, i),
        leading_hex_pairs(text) < text.len() / 2 ==> !pair_is_hex(text, leading_hex_pairs(text)),
{
    lemma_hex_pairs_from(text, 0);
}

proof fn lemma_hex_pairs_from(text: Seq<u8>, from: int)
    requires
        0 <= from <= text.len() / 2,
    ensures
        from <= hex_pairs_from(text, from) <= text.len() / 2,
        forall|i: int| from <= i < hex_pairs_from(text, from) ==> pair_is_hex(text, i),
        hex_pairs_from(text, from) < text.len() / 2 ==> !pair_is_hex(
            text,
            hex_pairs_from(text, from),
        ),
    decreases text.len() - 2 * from,
{
    if 2 * from + 1 < text.len() && pair_is_hex(text, from) {
        lemma_hex_pairs_from(text, from + 1);
    }
}

proof fn lemma_all_pairs_hex(text: Seq<u8>, from: int)
    requires
        0 <= from <= text.len() / 2,
        forall|i: int| from <= i < text.len() / 2 ==> pair_is_hex(text, i),
    ensures
        hex_pairs_from(text, from) == text.len() / 2,
    decreases text.len() - 2 * from,
{
    if 2 * from + 1 < text.len() {
        assert(pair_is_hex(text, from));
        lemma_all_pairs_hex(text, from + 1);
    }
}

/// Decoding succeeds exactly on text of even length that fits and whose
/// pairs are all hex.
pub proof fn lemma_decode_succeeds_iff(text: Seq<u8>, room: nat)
    ensures
        decode_outcome(text, room) is Ok <==> {
            &&& text.len() % 2 == 0
            &&& text.len() / 2 <= room
            &&& forall|i: int| 0 <= i < text.len() / 2 ==> pair_is_hex(text, i)
        },
{
    lemma_leading_hex_pairs(text);
    if text.len() % 2 == 0 && text.len() / 2 <= room {
        if forall|i: int| 0 <= i < text.len() / 2 ==> pair_is_hex(text, i) {
            lemma_all_pairs_hex(text, 0);
        }
    }
}

/// Round trip: the hex text of any bytes, in either case, decodes, and
/// decodes to those bytes. In a buffer with room for them the bytes come
/// first and the rest of the buffer is untouched.
pub proof fn lemma_round_trip(bytes: Seq<u8>, c: Case, buf: Seq<u8>)
    requires
        bytes.len() <= buf.len(),
    ensures
        hex_encoding(bytes, c).len() == 2 * bytes.len(),
        leading_hex_pairs(hex_encoding(bytes, c)) == bytes.len(),
        hex_decoding(hex_encoding(bytes, c)) == bytes,
        decode_outcome(hex_encoding(bytes, c), buf.len()) == Ok::<(), DecodeHexError>(()),
        decoded_buffer(hex_encoding(bytes, c), buf) == bytes + buf.skip(bytes.len() as int),
{
    let text = hex_encoding(bytes, c);
    assert forall|i: int| 0 <= i < text.len() / 2 implies pair_is_hex(text, i)
        && hex_pair_value(text[2 * i], text[2 * i + 1]) == Some(bytes[i]) by {
        lemma_pair_round_trip(bytes[i], c, c);
    }
    lemma_all_pairs_hex(text, 0);
    assert(hex_decoding(text) =~= bytes);
    assert(text.take(2 * bytes.len() as int) =~= text);
}

/// Capacity boundary of `encode_slice`: a destination of exactly twice the
/// source's length is enough, and one byte less is not.
pub proof fn lemma_encode_capacity(src_len: nat)
    ensures
        encode_fits(src_len, 2 * src_len),
        src_len > 0 ==> !encode_fits(src_len, (2 * src_len - 1) as nat),
{
}

/// Text of odd length is rejected as `Odd`, whatever it holds and whatever
/// the room, and the buffer stays as it was.
pub proof fn lemma_odd_length_rejected(text: Seq<u8>, buf: Seq<u8>)
    requires
        text.len() % 2 == 1,
    ensures
        decode_outcome(text, buf.len()) == Err::<(), DecodeHexError>(DecodeHexError::Odd),
        decoded_buffer(text, buf) == buf,
{
}

/// Where the first pair is not hex, decoding reports `NotNibble` and the
/// buffer stays as it was.
pub proof fn lemma_bad_first_pair(text: Seq<u8>, buf: Seq<u8>)
    requires
        text.len() % 2 == 0,
        2 <= text.len() <= 2 * buf.len(),
        !pair_is_hex(text, 0),
    ensures
        decode_outcome(text, buf.len()) == Err::<(), DecodeHexError>(DecodeHexError::NotNibble),
        decoded_buffer(text, buf) == buf,
{
    assert(hex_decoding(text.take(0)) + buf.skip(0) =~= buf);
}

} // verus!
