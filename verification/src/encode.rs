//! Expanding a buffer of bytes into hex text, into a second buffer or in
//! place.

use vstd::prelude::*;
use crate::byte::from_byte;
use crate::table::{hex_digit, Case};

verus! {

/// The hex text of a byte sequence: twice as long, with the digits of byte
/// `i` at positions `2i` (high nibble) and `2i + 1` (low nibble).
pub open spec fn hex_encoding(bytes: Seq<u8>, c: Case) -> Seq<u8> {
    Seq::new(
        2 * bytes.len(),
        |j: int|
            if j % 2 == 0 {
                hex_digit(c, bytes[j / 2] as int / 16)
            } else {
                hex_digit(c, bytes[j / 2] as int % 16)
            },
    )
}

/// Whether `encode_slice` accepts a destination of `dest_len` bytes for a
/// source of `src_len` bytes.
pub open spec fn encode_fits(src_len: nat, dest_len: nat) -> bool {
    src_len <= dest_len / 2
}

/// Setting the lowest bit of an even index gives the next index.
pub(crate) proof fn lemma_odd_neighbour(i2: usize)
    requires
        i2 % 2 == 0,
    ensures
        (i2 | 1) == i2 + 1,
{
    assert((i2 | 1) == i2 + 1) by (bit_vector)
        requires
            i2 % 2 == 0,
    ;
}

/// Writes the hex text of `src` into the first `2 * src.len()` bytes of
/// `dest`, and leaves every byte of `dest` beyond that as it was.
///
/// Fails, writing nothing, exactly when `src.len() > dest.len() / 2`.
pub fn encode_slice(src: &[u8], dest: &mut [u8], c: Case) -> (r: Result<(), ()>)
    ensures
        r is Ok <==> encode_fits(src@.len(), old(dest)@.len()),
        r is Err ==> final(dest)@ == old(dest)@,
        r is Ok ==> final(dest)@ == hex_encoding(src@, c) + old(dest)@.skip(2 * src@.len() as int),
{
    if src.len() > dest.len() / 2 {
        return Err(());
    }
    let mut i: usize = 0;
    while i < src.len()
        invariant
            i <= src@.len(),
            2 * src@.len() <= dest@.len() <= usize::MAX,
            dest@.len() == old(dest)@.len(),
            forall|j: int| 0 <= j < 2 * i ==> dest@[j] == hex_encoding(src@, c)[j],
            forall|j: int| 2 * i <= j < dest@.len() ==> dest@[j] == old(dest)@[j],
        decreases src@.len() - i,
    {
        let i2: usize = i + i;
        let h = from_byte(src[i], c);
        proof {
            lemma_odd_neighbour(i2);
        }
        dest[i2] = h[0];
        dest[i2 | 1] = h[1];
        i += 1;
    }
    Ok(())
}

/// Expands the bytes in the first half of `s` into hex text that fills `s`.
///
/// The source is `s[0 .. s.len() / 2]`. Where the length is even the text
/// fills the whole buffer; where it is odd the text fills `s[1..]` and the
/// first byte stays as it was. The walk goes from the last source byte down
/// to the first, so that no source byte is overwritten before it is read.
pub fn encode_slice_in_place(s: &mut [u8], c: Case)
    ensures
        final(s)@ == old(s)@.take(old(s)@.len() as int % 2) + hex_encoding(
            old(s)@.take(old(s)@.len() as int / 2),
            c,
        ),
{
    let off: usize = s.len() % 2;
    let mut i: usize = s.len() / 2;
    let ghost text = hex_encoding(old(s)@.take(old(s)@.len() as int / 2), c);
    while i > 0
        invariant
            off == old(s)@.len() % 2,
            s@.len() == old(s)@.len(),
            s@.len() <= usize::MAX,
            2 * i + off <= s@.len(),
            text == hex_encoding(old(s)@.take(old(s)@.len() as int / 2), c),
            forall|j: int| 0 <= j < off + 2 * i ==> s@[j] == old(s)@[j],
            forall|j: int| off + 2 * i <= j < s@.len() ==> s@[j] == text[j - off],
        decreases i,
    {
        i -= 1;
        let i2: usize = off + i + i;
        let h = from_byte(s[i], c);
        s[i2] = h[0];
        s[i2 + 1] = h[1];
    }
}

} // verus!
