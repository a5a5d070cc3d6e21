use hex_codec::{
    decode_slice, decode_slice_in_place, encode_slice, encode_slice_in_place, Case,
    DecodeHexError,
};

#[test]
fn encode_slice_exact_capacity_succeeds() {
    let mut dest = [0xaau8; 6];
    assert_eq!(encode_slice(&[0x01, 0x23, 0xef], &mut dest, Case::Lower), Ok(()));
    assert_eq!(dest, *b"0123ef");
}

#[test]
fn encode_slice_one_byte_short_fails_and_writes_nothing() {
    let mut dest = [0xaau8; 5];
    assert_eq!(encode_slice(&[0x01, 0x23, 0xef], &mut dest, Case::Lower), Err(()));
    assert_eq!(dest, [0xaa; 5]);
}

#[test]
fn encode_slice_into_empty_destination() {
    let mut dest: [u8; 0] = [];
    assert_eq!(encode_slice(&[], &mut dest, Case::Lower), Ok(()));
    assert_eq!(encode_slice(&[0x00], &mut dest, Case::Lower), Err(()));
}

#[test]
fn encode_slice_leaves_spare_bytes_intact() {
    let mut dest = [0x55u8; 7];
    assert_eq!(encode_slice(&[0xde, 0xad], &mut dest, Case::Upper), Ok(()));
    assert_eq!(dest, [b'D', b'E', b'A', b'D', 0x55, 0x55, 0x55]);
}

#[test]
fn encode_slice_empty_source_writes_nothing() {
    let mut dest = [7u8; 3];
    assert_eq!(encode_slice(&[], &mut dest, Case::Upper), Ok(()));
    assert_eq!(dest, [7, 7, 7]);
}

#[test]
fn encode_slice_uses_one_case_per_call() {
    let mut lower = [0u8; 8];
    let mut upper = [0u8; 8];
    encode_slice(&[0xab, 0xcd, 0xef, 0x9a], &mut lower, Case::Lower).unwrap();
    encode_slice(&[0xab, 0xcd, 0xef, 0x9a], &mut upper, Case::Upper).unwrap();
    assert_eq!(lower, *b"abcdef9a");
    assert_eq!(upper, *b"ABCDEF9A");
}

#[test]
fn encode_in_place_even_length() {
    let mut buf = [0x68, 0x65, 0x6c, 0xff, 0xff, 0xff];
    encode_slice_in_place(&mut buf, Case::Lower);
    assert_eq!(buf, *b"68656c");
}

#[test]
fn encode_in_place_reads_each_byte_before_overwriting_it() {
    let mut buf = [0x12, 0x34, 0x56, 0x78, 0, 0, 0, 0];
    encode_slice_in_place(&mut buf, Case::Upper);
    assert_eq!(buf, *b"12345678");
}

#[test]
fn encode_in_place_odd_length_keeps_first_byte() {
    let mut buf = [0x68, 0x65, 9, 9, 9];
    encode_slice_in_place(&mut buf, Case::Lower);
    assert_eq!(buf, [0x68, b'6', b'8', b'6', b'5']);
}

#[test]
fn encode_in_place_tiny_buffers() {
    let mut empty: [u8; 0] = [];
    encode_slice_in_place(&mut empty, Case::Lower);
    assert_eq!(empty, []);

    let mut one = [0xabu8];
    encode_slice_in_place(&mut one, Case::Lower);
    assert_eq!(one, [0xab]);

    let mut two = [0xabu8, 0x00];
    encode_slice_in_place(&mut two, Case::Lower);
    assert_eq!(two, *b"ab");
}

#[test]
fn decode_slice_ok() {
    let mut dest = [0u8; 5];
    assert_eq!(decode_slice(b"68656c6c6f", &mut dest), Ok(()));
    assert_eq!(dest, *b"hello");
}

#[test]
fn decode_slice_leaves_spare_bytes_intact() {
    let mut dest = [0x11u8; 4];
    assert_eq!(decode_slice(b"DEad", &mut dest), Ok(()));
    assert_eq!(dest, [0xde, 0xad, 0x11, 0x11]);
}

#[test]
fn decode_slice_odd_fails_before_writing() {
    let mut dest = [0x11u8; 4];
    assert_eq!(decode_slice(b"686", &mut dest), Err(DecodeHexError::Odd));
    assert_eq!(dest, [0x11; 4]);
    assert_eq!(decode_slice(b"6", &mut dest), Err(DecodeHexError::Odd));
    assert_eq!(dest, [0x11; 4]);
}

#[test]
fn decode_slice_odd_is_checked_before_small() {
    let mut dest = [0x11u8; 1];
    assert_eq!(decode_slice(b"68656", &mut dest), Err(DecodeHexError::Odd));
    assert_eq!(dest, [0x11]);
}

#[test]
fn decode_slice_small_fails_before_writing() {
    let mut dest = [0x11u8; 2];
    assert_eq!(decode_slice(b"68656c", &mut dest), Err(DecodeHexError::Small));
    assert_eq!(dest, [0x11; 2]);
}

#[test]
fn decode_slice_small_is_checked_before_the_digits() {
    let mut dest = [0x11u8; 1];
    assert_eq!(decode_slice(b"zzzz", &mut dest), Err(DecodeHexError::Small));
    assert_eq!(dest, [0x11]);
}

#[test]
fn decode_slice_exact_room_succeeds() {
    let mut dest = [0u8; 3];
    assert_eq!(decode_slice(b"68656c", &mut dest), Ok(()));
    assert_eq!(dest, [0x68, 0x65, 0x6c]);
}

#[test]
fn decode_slice_rejects_zz_without_writing() {
    let mut dest = [0x11u8; 2];
    assert_eq!(decode_slice(b"zz", &mut dest), Err(DecodeHexError::NotNibble));
    assert_eq!(dest, [0x11; 2]);
}

#[test]
fn decode_slice_keeps_bytes_decoded_before_a_bad_pair() {
    let mut dest = [0x11u8; 4];
    assert_eq!(decode_slice(b"6865zz6c", &mut dest), Err(DecodeHexError::NotNibble));
    assert_eq!(dest, [0x68, 0x65, 0x11, 0x11]);
}

#[test]
fn decode_slice_rejects_a_pair_with_one_bad_character() {
    let mut dest = [0x11u8; 2];
    assert_eq!(decode_slice(b"686g", &mut dest), Err(DecodeHexError::NotNibble));
    assert_eq!(dest, [0x68, 0x11]);
    let mut dest = [0x11u8; 2];
    assert_eq!(decode_slice(b"68g6", &mut dest), Err(DecodeHexError::NotNibble));
    assert_eq!(dest, [0x68, 0x11]);
}

#[test]
fn decode_slice_empty_text() {
    let mut dest = [0x11u8; 2];
    assert_eq!(decode_slice(b"", &mut dest), Ok(()));
    assert_eq!(dest, [0x11; 2]);
    let mut none: [u8; 0] = [];
    assert_eq!(decode_slice(b"", &mut none), Ok(()));
}

#[test]
fn decode_slice_mixed_case() {
    let mut dest = [0u8; 4];
    assert_eq!(decode_slice(b"aBCdEf9A", &mut dest), Ok(()));
    assert_eq!(dest, [0xab, 0xcd, 0xef, 0x9a]);
}

#[test]
fn decode_in_place_ok_keeps_second_half() {
    let mut buf = *b"DEADBEEF";
    assert_eq!(decode_slice_in_place(&mut buf), Ok(()));
    assert_eq!(buf, [0xde, 0xad, 0xbe, 0xef, b'B', b'E', b'E', b'F']);
}

#[test]
fn decode_in_place_odd_fails_before_writing() {
    let mut buf = *b"686";
    assert_eq!(decode_slice_in_place(&mut buf), Err(DecodeHexError::Odd));
    assert_eq!(buf, *b"686");
}

#[test]
fn decode_in_place_rejects_zz_without_writing() {
    let mut buf = *b"zz";
    assert_eq!(decode_slice_in_place(&mut buf), Err(DecodeHexError::NotNibble));
    assert_eq!(buf, *b"zz");
}

#[test]
fn decode_in_place_keeps_bytes_decoded_before_a_bad_pair() {
    let mut buf = *b"6865zz6c";
    assert_eq!(decode_slice_in_place(&mut buf), Err(DecodeHexError::NotNibble));
    assert_eq!(buf, [0x68, 0x65, b'6', b'5', b'z', b'z', b'6', b'c']);
}

#[test]
fn decode_in_place_empty() {
    let mut buf: [u8; 0] = [];
    assert_eq!(decode_slice_in_place(&mut buf), Ok(()));
}

#[test]
fn round_trip_every_byte_both_cases() {
    let mut bytes = [0u8; 256];
    for (i, b) in bytes.iter_mut().enumerate() {
        *b = i as u8;
    }
    for case in [Case::Lower, Case::Upper] {
        let mut text = [0u8; 512];
        assert_eq!(encode_slice(&bytes, &mut text, case), Ok(()));
        let mut back = [0u8; 256];
        assert_eq!(decode_slice(&text, &mut back), Ok(()));
        assert_eq!(back, bytes);
    }
}

#[test]
fn round_trip_in_place() {
    for case in [Case::Lower, Case::Upper] {
        let mut buf = [0u8; 64];
        for (i, b) in buf.iter_mut().enumerate().take(32) {
            *b = (i as u8).wrapping_mul(37).wrapping_add(11);
        }
        let before = buf;
        encode_slice_in_place(&mut buf, case);
        assert_eq!(decode_slice_in_place(&mut buf), Ok(()));
        assert_eq!(buf[..32], before[..32]);
    }
}

#[test]
fn in_place_and_copying_encoders_agree() {
    let src = [0x00, 0x7f, 0x80, 0xff, 0x5a];
    let mut copied = [0u8; 10];
    encode_slice(&src, &mut copied, Case::Upper).unwrap();
    let mut buf = [0u8; 10];
    buf[..5].copy_from_slice(&src);
    encode_slice_in_place(&mut buf, Case::Upper);
    assert_eq!(buf, copied);
    assert_eq!(buf, *b"007F80FF5A");
}

#[test]
fn error_messages() {
    assert_eq!(DecodeHexError::Odd.message(), "Buffer has an odd `len`");
    assert_eq!(
        DecodeHexError::NotNibble.message(),
        "One or more bytes is not an ASCII nibble"
    );
    assert_eq!(DecodeHexError::Small.message(), "Destination buffer isn't big enough");
}

#[test]
fn error_and_case_are_plain_values() {
    let e = DecodeHexError::Small;
    let f = e;
    assert_eq!(e, f);
    assert_ne!(DecodeHexError::Odd, DecodeHexError::NotNibble);
    assert_eq!(format!("{:?}", DecodeHexError::NotNibble), "NotNibble");
    let c = Case::Lower;
    let d = c;
    assert_eq!(c, d);
    assert_ne!(Case::Lower, Case::Upper);
    assert_eq!(format!("{:?}", Case::Upper), "Upper");
}
