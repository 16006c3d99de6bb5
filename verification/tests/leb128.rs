use winter_core::error::ErrorKind;
use winter_core::leb128::{
    leb128_encode_signed, leb128_encode_unsigned, leb128_i128, leb128_i16, leb128_i32, leb128_i33, leb128_i64,
    leb128_i8, leb128_size, leb128_u128, leb128_u16, leb128_u32, leb128_u64, leb128_u8,
};

#[test]
fn test_leb128() {
    assert_eq!(leb128_size(8), 2);

    let value = leb128_u8(&[0x03], 0);
    assert_eq!(value.unwrap(), (3, 1));
    let value = leb128_u8(&[0x83, 0x00], 0);
    assert_eq!(value.unwrap(), (3, 2), "Should consume upto n/7 bytes");
    let value = leb128_u8(&[0x83, 0x00, 0x00], 0);
    assert_eq!(value.unwrap(), (3, 2));
    let value = leb128_u8(&[0x83, 0x80, 0x00], 0);
    assert!(value.is_err(), "Should fail on too large input");

    assert_eq!(leb128_size(16), 3);

    let value = leb128_u16(&[0x03], 0);
    assert_eq!(value.unwrap(), (3, 1));
    let value = leb128_u16(&[0x83, 0x00], 0);
    assert_eq!(value.unwrap(), (3, 2));
    let value = leb128_u16(&[0x83, 0x80, 0x00], 0);
    assert_eq!(value.unwrap(), (3, 3));
    let value = leb128_u16(&[0x83, 0x80, 0x00, 0x00], 0);
    assert_eq!(value.unwrap(), (3, 3));
    let value = leb128_u16(&[0x83, 0x80, 0x80, 0x00, 0x00], 0);
    assert!(value.is_err(), "Should fail on too large input");

    assert_eq!(leb128_size(16), 3);

    let value = leb128_i16(&[0x03], 0);
    assert_eq!(value.unwrap(), (3, 1));
    let value = leb128_i16(&[0x83, 0x00], 0);
    assert_eq!(value.unwrap(), (3, 2));
    let value = leb128_i16(&[0x83, 0x80, 0x00], 0);
    assert_eq!(value.unwrap(), (3, 3));
    let value = leb128_i16(&[0x83, 0x80, 0x00, 0x00], 0);
    assert_eq!(value.unwrap(), (3, 3));
    let value = leb128_i16(&[0x83, 0x80, 0x80, 0x00, 0x00], 0);
    assert!(value.is_err(), "Should fail on too large input");

    let value = leb128_i16(&[0x7E], 0);
    assert_eq!(value.unwrap(), (-2, 1));
    let value = leb128_i16(&[0xFE, 0x7F], 0);
    assert_eq!(value.unwrap(), (-2, 2));
    let value = leb128_i16(&[0xFE, 0xFF, 0x7F], 0);
    assert_eq!(value.unwrap(), (-2, 3));
    let value = leb128_i16(&[0xFE, 0xFF, 0x7F, 0x00], 0);
    assert_eq!(value.unwrap(), (-2, 3));
    let value = leb128_i16(&[0xFE, 0xFF, 0xFF, 0x7F, 0x00], 0);
    assert!(value.is_err(), "Should fail on too large input");
}

#[test]
fn leb128_size_of_common_widths() {
    assert_eq!(leb128_size(32), 5);
    assert_eq!(leb128_size(33), 5);
    assert_eq!(leb128_size(64), 10);
    assert_eq!(leb128_size(128), 19);
}

#[test]
fn signed_sixteen_over_long_forms() {
    // the canonical, the over-long, and the over-long-with-trailing-byte
    // encodings of -2, and a five-byte form that is too long
    assert_eq!(leb128_i16(&[0x7E], 0).unwrap(), (-2, 1));
    assert_eq!(leb128_i16(&[0xFE, 0x7F], 0).unwrap(), (-2, 2));
    assert_eq!(leb128_i16(&[0xFE, 0xFF, 0x7F, 0x00], 0).unwrap(), (-2, 3));
    let e = leb128_i16(&[0xFE, 0xFF, 0xFF, 0x7F, 0x00], 0).unwrap_err();
    assert_eq!(e.kind, ErrorKind::Encoding);
}

#[test]
fn unsigned_too_long_is_encoding_error() {
    let e = leb128_u32(&[0x80, 0x80, 0x80, 0x80, 0x80, 0x00], 0).unwrap_err();
    assert_eq!(e.kind, ErrorKind::Encoding);
    let e = leb128_u64(&[0x80; 10], 0).unwrap_err();
    assert_eq!(e.kind, ErrorKind::Encoding);
}

#[test]
fn empty_input_is_incomplete() {
    let e = leb128_u8(&[], 0).unwrap_err();
    assert_eq!(e.kind, ErrorKind::Incomplete);
    let e = leb128_u32(&[0x80, 0x80], 0).unwrap_err();
    assert_eq!(e.kind, ErrorKind::Incomplete);
}

#[test]
fn unsigned_round_trip() {
    for &(x, w) in &[
        (0u128, 8u32),
        (1, 8),
        (127, 8),
        (128, 8),
        (255, 8),
        (300, 16),
        (65535, 16),
        (0, 32),
        (624485, 32),
        (0xFFFF_FFFF, 32),
        (0xFFFF_FFFF_FFFF_FFFF, 64),
        (u128::MAX, 128),
    ] {
        let out = leb128_encode_unsigned(x, w);
        match w {
            8 => assert_eq!(leb128_u8(&out, 0).unwrap(), (x as u8, out.len())),
            16 => assert_eq!(leb128_u16(&out, 0).unwrap(), (x as u16, out.len())),
            32 => assert_eq!(leb128_u32(&out, 0).unwrap(), (x as u32, out.len())),
            64 => assert_eq!(leb128_u64(&out, 0).unwrap(), (x as u64, out.len())),
            _ => assert_eq!(leb128_u128(&out, 0).unwrap(), (x, out.len())),
        }
    }
}

#[test]
fn signed_round_trip() {
    for &(x, w) in &[
        (0i128, 8u32),
        (1, 8),
        (-1, 8),
        (63, 8),
        (64, 8),
        (-64, 8),
        (-65, 8),
        (127, 8),
        (-128, 8),
        (-2, 16),
        (-123456, 32),
        (624485, 32),
        (i64::MIN as i128, 64),
        (i64::MAX as i128, 64),
        (i128::MIN, 128),
        (i128::MAX, 128),
    ] {
        let out = leb128_encode_signed(x, w);
        match w {
            8 => assert_eq!(leb128_i8(&out, 0).unwrap(), (x as i8, out.len())),
            16 => assert_eq!(leb128_i16(&out, 0).unwrap(), (x as i16, out.len())),
            32 => assert_eq!(leb128_i32(&out, 0).unwrap(), (x as i32, out.len())),
            64 => assert_eq!(leb128_i64(&out, 0).unwrap(), (x as i64, out.len())),
            _ => assert_eq!(leb128_i128(&out, 0).unwrap(), (x, out.len())),
        }
    }
}

#[test]
fn signed_thirty_three_bits() {
    // a type index above the 32-bit boundary still decodes, and sign
    // extension works from the fifth group
    assert_eq!(leb128_i33(&[0x00], 0).unwrap(), (0, 1));
    assert_eq!(leb128_i33(&[0x7F], 0).unwrap(), (-1, 1));
    let out = leb128_encode_signed(0xFFFF_FFFF, 33);
    assert_eq!(leb128_i33(&out, 0).unwrap(), (0xFFFF_FFFF, out.len()));
    let out = leb128_encode_signed(-0x1_0000_0000, 33);
    assert_eq!(leb128_i33(&out, 0).unwrap(), (-0x1_0000_0000, out.len()));
    let e = leb128_i33(&[0x80, 0x80, 0x80, 0x80, 0x80, 0x00], 0).unwrap_err();
    assert_eq!(e.kind, ErrorKind::Encoding);
}
