//! The two nibble tables: for each letter case, the ASCII digit of every
//! 4-bit value.

use vstd::prelude::*;

verus! {

/// Which alphabet renders the digits above nine when encoding.
#[derive(Debug, Clone, Copy, PartialEq, Eq, Structural)]
pub enum Case {
    Lower,
    Upper,
}

/// The ASCII digit that stands for the nibble `v` in the given case:
/// `'0'..'9'` for values below ten, then `'a'..'f'` or `'A'..'F'`.
pub open spec fn hex_digit(c: Case, v: int) -> u8
    recommends
        0 <= v < 16,
{
    if v < 10 {
        (0x30 + v) as u8
    } else {
        match c {
            Case::Lower => (0x61 + (v - 10)) as u8,
            Case::Upper => (0x41 + (v - 10)) as u8,
        }
    }
}

/// The whole table of a case: entry `v` is `hex_digit(c, v)`.
pub open spec fn nibble_table(c: Case) -> Seq<u8> {
    Seq::new(16, |v: int| hex_digit(c, v))
}

/// The table that `from_byte` reads for a case.
pub open spec fn lut_of(c: Case) -> [u8; 16] {
    match c {
        Case::Lower => LUT_LOW,
        Case::Upper => LUT_UP,
    }
}

/// Builds the table of a case, entry by entry. The result is the stored
/// table of that case.
pub fn gen_lut(c: Case) -> (lut: [u8; 16])
    ensures
        lut@ == nibble_table(c),
        lut@ == lut_of(c)@,
{
    proof {
        lemma_tables_spell_alphabets();
    }
    let alpha: u8 = match c {
        Case::Lower => 0x61,
        Case::Upper => 0x41,
    };
    let mut h: [u8; 16] = [0u8; 16];
    let mut i: u8 = 0;
    while i < 0x10
        invariant
            i <= 0x10,
            alpha == hex_digit(c, 10),
            forall|v: int| 0 <= v < i ==> h@[v] == hex_digit(c, v),
        decreases 0x10 - i,
    {
        h[i as usize] = i + if i < 10 {
            0x30
        } else {
            alpha - 10
        };
        i += 1;
    }
    h
}

/// The lower-case table, `0123456789abcdef`.
pub const LUT_LOW: [u8; 16] = [
    0x30, 0x31, 0x32, 0x33, 0x34, 0x35, 0x36, 0x37,
    0x38, 0x39, 0x61, 0x62, 0x63, 0x64, 0x65, 0x66,
];

/// The upper-case table, `0123456789ABCDEF`.
pub const LUT_UP: [u8; 16] = [
    0x30, 0x31, 0x32, 0x33, 0x34, 0x35, 0x36, 0x37,
    0x38, 0x39, 0x41, 0x42, 0x43, 0x44, 0x45, 0x46,
];

/// The stored tables are the hex alphabets: `LUT_LOW` spells
/// `0123456789abcdef`, `LUT_UP` spells `0123456789ABCDEF`, and each is the
/// table that `gen_lut` builds for its case.
pub proof fn lemma_tables_spell_alphabets()
    ensures
        LUT_LOW@ == seq![
            0x30u8, 0x31u8, 0x32u8, 0x33u8, 0x34u8, 0x35u8, 0x36u8, 0x37u8,
            0x38u8, 0x39u8, 0x61u8, 0x62u8, 0x63u8, 0x64u8, 0x65u8, 0x66u8,
        ],
        LUT_UP@ == seq![
            0x30u8, 0x31u8, 0x32u8, 0x33u8, 0x34u8, 0x35u8, 0x36u8, 0x37u8,
            0x38u8, 0x39u8, 0x41u8, 0x42u8, 0x43u8, 0x44u8, 0x45u8, 0x46u8,
        ],
        LUT_LOW@ == nibble_table(Case::Lower),
        LUT_UP@ == nibble_table(Case::Upper),
{
}

/// Every entry of a stored table is the digit of its index, and no two
/// indices share a digit.
pub proof fn lemma_table_entries(c: Case)
    ensures
        lut_of(c)@ == nibble_table(c),
        forall|v: int| 0 <= v < 16 ==> #[trigger] lut_of(c)@[v] == hex_digit(c, v),
        forall|v: int, w: int|
            0 <= v < 16 && 0 <= w < 16 && v != w ==> #[trigger] hex_digit(c, v)
                != #[trigger] hex_digit(c, w),
{
    lemma_tables_spell_alphabets();
}

} // verus!
