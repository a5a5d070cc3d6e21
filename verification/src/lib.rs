//! A minimal hexadecimal codec over caller-owned byte buffers.
//!
//! Every byte corresponds to exactly two ASCII hex digits, high nibble first.
//! Encoding and decoding are offered both between two buffers and in place
//! within one buffer. Nothing here allocates, and every failure is reported
//! through a `Result`.

pub mod byte;
pub mod decode;
pub mod encode;
pub mod laws;
pub mod table;

pub use byte::{from_byte, from_hex, from_nibble};
pub use decode::{decode_slice, decode_slice_in_place, DecodeHexError};
pub use encode::{encode_slice, encode_slice_in_place};
pub use table::{gen_lut, Case, LUT_LOW, LUT_UP};
