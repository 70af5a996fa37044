use nari_act::error::DecodeError;
use nari_act::number::{
    f32_from_hex_bits, hex_digit, parse_hex, split_bytes, split_halves, u16_from_hex,
    u16_pair_from_hex, u32_from_hex, u32_to_hex, u8_quad_from_hex, F32Bits,
};

const MALFORMED: DecodeError = DecodeError::MalformedNumber { field: 0 };

#[test]
fn hex_digit_reads_both_cases() {
    assert_eq!(hex_digit(b'0'), Some(0));
    assert_eq!(hex_digit(b'9'), Some(9));
    assert_eq!(hex_digit(b'a'), Some(10));
    assert_eq!(hex_digit(b'f'), Some(15));
    assert_eq!(hex_digit(b'A'), Some(10));
    assert_eq!(hex_digit(b'F'), Some(15));
}

#[test]
fn hex_digit_rejects_neighbours_of_the_ranges() {
    for b in [b'/', b':', b'@', b'G', b'`', b'g', b' ', b'+', b'-', 0u8, 0x80, 0xff] {
        assert_eq!(hex_digit(b), None, "byte {b:#x}");
    }
}

#[test]
fn hex_digit_agrees_with_std_on_every_byte() {
    for b in 0u8..=255 {
        let expected = (b as char).to_digit(16).filter(|_| b < 128).map(|d| d as u8);
        assert_eq!(hex_digit(b), expected, "byte {b:#x}");
    }
}

#[test]
fn parse_hex_respects_the_bound() {
    assert_eq!(parse_hex("ff", 255), Some(255));
    assert_eq!(parse_hex("100", 255), None);
    assert_eq!(parse_hex("0", 0), Some(0));
    assert_eq!(parse_hex("1", 0), None);
    assert_eq!(parse_hex("FFFFFFFF", u32::MAX), Some(u32::MAX));
    assert_eq!(parse_hex("100000000", u32::MAX), None);
}

#[test]
fn u32_from_hex_reads_words() {
    assert_eq!(u32_from_hex("00000000"), Ok(0));
    assert_eq!(u32_from_hex("00000001"), Ok(1));
    assert_eq!(u32_from_hex("DEADBEEF"), Ok(0xDEAD_BEEF));
    assert_eq!(u32_from_hex("deadbeef"), Ok(0xDEAD_BEEF));
    assert_eq!(u32_from_hex("DeAdBeEf"), Ok(0xDEAD_BEEF));
    assert_eq!(u32_from_hex("FFFFFFFF"), Ok(u32::MAX));
    assert_eq!(u32_from_hex("10FF0001"), Ok(0x10FF_0001));
}

#[test]
fn u32_from_hex_reads_short_and_padded_fields() {
    assert_eq!(u32_from_hex("0"), Ok(0));
    assert_eq!(u32_from_hex("7"), Ok(7));
    assert_eq!(u32_from_hex("1A"), Ok(26));
    assert_eq!(u32_from_hex("0000000000FF"), Ok(255));
    assert_eq!(u32_from_hex("000000000FFFFFFFF"), Ok(u32::MAX));
}

#[test]
fn u32_from_hex_rejects_what_is_not_a_word() {
    assert_eq!(u32_from_hex(""), Err(MALFORMED));
    assert_eq!(u32_from_hex("G"), Err(MALFORMED));
    assert_eq!(u32_from_hex("12G4"), Err(MALFORMED));
    assert_eq!(u32_from_hex("0x10"), Err(MALFORMED));
    assert_eq!(u32_from_hex("+1"), Err(MALFORMED));
    assert_eq!(u32_from_hex("-1"), Err(MALFORMED));
    assert_eq!(u32_from_hex(" 1"), Err(MALFORMED));
    assert_eq!(u32_from_hex("1 "), Err(MALFORMED));
    assert_eq!(u32_from_hex("１２"), Err(MALFORMED));
    assert_eq!(u32_from_hex("12é"), Err(MALFORMED));
    assert_eq!(u32_from_hex("Tataru Taru"), Err(MALFORMED));
}

#[test]
fn u32_from_hex_rejects_overflow() {
    assert_eq!(u32_from_hex("100000000"), Err(MALFORMED));
    assert_eq!(u32_from_hex("FFFFFFFFF"), Err(MALFORMED));
    assert_eq!(u32_from_hex("FFFFFFFFFFFFFFFFFFFFFFFF"), Err(MALFORMED));
    assert_eq!(u32_from_hex("10000000000000000"), Err(MALFORMED));
}

#[test]
fn u32_from_hex_agrees_with_std_on_plain_digits() {
    for s in ["0", "9", "a", "F", "7f", "80", "1234", "abcdef", "00ABCDEF", "7FFFFFFF", "80000000"] {
        assert_eq!(u32_from_hex(s).ok(), u32::from_str_radix(s, 16).ok(), "field {s}");
    }
}

#[test]
fn u16_from_hex_reads_and_bounds() {
    assert_eq!(u16_from_hex("0"), Ok(0));
    assert_eq!(u16_from_hex("FFFF"), Ok(65535));
    assert_eq!(u16_from_hex("ffff"), Ok(65535));
    assert_eq!(u16_from_hex("0001"), Ok(1));
    assert_eq!(u16_from_hex("00FFFF"), Ok(65535));
    assert_eq!(u16_from_hex("10000"), Err(MALFORMED));
    assert_eq!(u16_from_hex("FFFFFFFF"), Err(MALFORMED));
    assert_eq!(u16_from_hex(""), Err(MALFORMED));
    assert_eq!(u16_from_hex("12x4"), Err(MALFORMED));
}

#[test]
fn u32_round_trips_through_eight_digits() {
    for s in ["00000000", "00000001", "0001FFFF", "3F800000", "DEADBEEF", "FFFFFFFF", "0A0B0C0D"] {
        let v = u32_from_hex(s).unwrap();
        assert_eq!(format!("{v:08X}"), s);
    }
    for s in ["deadbeef", "DeadBeef", "0a0b0c0d", "ffffffff"] {
        let v = u32_from_hex(s).unwrap();
        assert_eq!(format!("{v:08X}"), s.to_uppercase());
        assert_eq!(format!("{v:08x}"), s.to_lowercase());
    }
}

#[test]
fn u32_round_trips_from_the_number_side() {
    let mut v: u32 = 1;
    for _ in 0..200 {
        assert_eq!(u32_from_hex(&format!("{v:08X}")), Ok(v));
        assert_eq!(u32_from_hex(&format!("{v:08x}")), Ok(v));
        assert_eq!(u32_from_hex(&format!("{v:X}")), Ok(v));
        v = v.wrapping_mul(1_664_525).wrapping_add(1_013_904_223);
    }
}

#[test]
fn f32_bits_are_the_word_itself() {
    assert_eq!(f32_from_hex_bits("3F800000"), Ok(F32Bits { bits: 0x3F80_0000 }));
    assert_eq!(f32_from_hex_bits("00000000"), Ok(F32Bits { bits: 0 }));
    assert_eq!(f32_from_hex_bits("BF800000"), Ok(F32Bits { bits: 0xBF80_0000 }));
    assert_eq!(f32_from_hex_bits("7FC00000"), Ok(F32Bits { bits: 0x7FC0_0000 }));
}

#[test]
fn f32_bits_reinterpret_and_do_not_convert() {
    let one = f32_from_hex_bits("3F800000").unwrap();
    assert_eq!(f32::from_bits(one.bits), 1.0);
    let zero = f32_from_hex_bits("00000000").unwrap();
    assert_eq!(f32::from_bits(zero.bits), 0.0);
    assert!(f32::from_bits(zero.bits).is_sign_positive());
    let minus_one = f32_from_hex_bits("BF800000").unwrap();
    assert_eq!(f32::from_bits(minus_one.bits), -1.0);
    let hundred = f32_from_hex_bits("42C80000").unwrap();
    assert_eq!(f32::from_bits(hundred.bits), 100.0);
    assert_ne!(f32::from_bits(one.bits), 1_065_353_216.0);
}

#[test]
fn f32_bits_keep_what_float_equality_loses() {
    let nan = f32_from_hex_bits("7FC00001").unwrap();
    assert!(f32::from_bits(nan.bits).is_nan());
    assert_eq!(nan, F32Bits { bits: 0x7FC0_0001 });
    let minus_zero = f32_from_hex_bits("80000000").unwrap();
    assert_ne!(minus_zero, f32_from_hex_bits("00000000").unwrap());
    assert!(f32::from_bits(minus_zero.bits).is_sign_negative());
}

#[test]
fn f32_bits_reject_what_is_not_a_word() {
    assert_eq!(f32_from_hex_bits("1.0"), Err(MALFORMED));
    assert_eq!(f32_from_hex_bits(""), Err(MALFORMED));
    assert_eq!(f32_from_hex_bits("13F800000"), Err(MALFORMED));
}

#[test]
fn u16_pair_is_high_then_low() {
    assert_eq!(u16_pair_from_hex("0001FFFF"), Ok((1, 65535)));
    assert_eq!(u16_pair_from_hex("FFFF0001"), Ok((65535, 1)));
    assert_eq!(u16_pair_from_hex("12345678"), Ok((0x1234, 0x5678)));
    assert_eq!(u16_pair_from_hex("00000000"), Ok((0, 0)));
    assert_eq!(u16_pair_from_hex("FFFFFFFF"), Ok((65535, 65535)));
    assert_eq!(u16_pair_from_hex("ABCD"), Ok((0, 0xABCD)));
    assert_eq!(u16_pair_from_hex("1ABCD"), Ok((1, 0xABCD)));
}

#[test]
fn u16_pair_rejects_what_is_not_a_word() {
    assert_eq!(u16_pair_from_hex(""), Err(MALFORMED));
    assert_eq!(u16_pair_from_hex("0001,FFFF"), Err(MALFORMED));
    assert_eq!(u16_pair_from_hex("10001FFFF"), Err(MALFORMED));
}

#[test]
fn u8_quad_is_most_significant_first() {
    assert_eq!(u8_quad_from_hex("01020304"), Ok((1, 2, 3, 4)));
    assert_eq!(u8_quad_from_hex("FF000000"), Ok((255, 0, 0, 0)));
    assert_eq!(u8_quad_from_hex("000000FF"), Ok((0, 0, 0, 255)));
    assert_eq!(u8_quad_from_hex("DEADBEEF"), Ok((0xDE, 0xAD, 0xBE, 0xEF)));
    assert_eq!(u8_quad_from_hex("304"), Ok((0, 0, 3, 4)));
}

#[test]
fn u8_quad_rejects_what_is_not_a_word() {
    assert_eq!(u8_quad_from_hex(""), Err(MALFORMED));
    assert_eq!(u8_quad_from_hex("0102030G"), Err(MALFORMED));
    assert_eq!(u8_quad_from_hex("0102030405"), Err(MALFORMED));
}

#[test]
fn splits_agree_with_big_endian_bytes() {
    let mut w: u32 = 0x0123_4567;
    for _ in 0..200 {
        let [b0, b1, b2, b3] = w.to_be_bytes();
        assert_eq!(split_bytes(w), (b0, b1, b2, b3));
        assert_eq!(
            split_halves(w),
            (u16::from_be_bytes([b0, b1]), u16::from_be_bytes([b2, b3]))
        );
        w = w.wrapping_mul(1_664_525).wrapping_add(1_013_904_223);
    }
    assert_eq!(split_bytes(0), (0, 0, 0, 0));
    assert_eq!(split_bytes(u32::MAX), (255, 255, 255, 255));
    assert_eq!(split_halves(0x8000_0001), (0x8000, 1));
}

#[test]
fn u32_to_hex_writes_eight_upper_case_digits() {
    assert_eq!(u32_to_hex(0), "00000000");
    assert_eq!(u32_to_hex(1), "00000001");
    assert_eq!(u32_to_hex(255), "000000FF");
    assert_eq!(u32_to_hex(0x0001_FFFF), "0001FFFF");
    assert_eq!(u32_to_hex(0xDEAD_BEEF), "DEADBEEF");
    assert_eq!(u32_to_hex(0x0123_4567), "01234567");
    assert_eq!(u32_to_hex(0x89AB_CDEF), "89ABCDEF");
    assert_eq!(u32_to_hex(u32::MAX), "FFFFFFFF");
}

#[test]
fn u32_to_hex_agrees_with_std() {
    let mut v: u32 = 7;
    for _ in 0..300 {
        assert_eq!(u32_to_hex(v), format!("{v:08X}"));
        v = v.wrapping_mul(1_664_525).wrapping_add(1_013_904_223);
    }
}

#[test]
fn u32_hex_round_trip_both_ways() {
    for s in ["00000000", "0001FFFF", "3F800000", "DEADBEEF", "FFFFFFFF"] {
        assert_eq!(u32_to_hex(u32_from_hex(s).unwrap()), s);
    }
    for s in ["deadbeef", "DeadBeef", "0a0b0c0d"] {
        assert_eq!(u32_to_hex(u32_from_hex(s).unwrap()), s.to_uppercase());
    }
    let mut v: u32 = 3;
    for _ in 0..300 {
        assert_eq!(u32_from_hex(&u32_to_hex(v)), Ok(v));
        v = v.wrapping_mul(1_664_525).wrapping_add(1_013_904_223);
    }
}
