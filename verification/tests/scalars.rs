use thrift::wire::{
    decode_bool, decode_byte, decode_double, decode_i16, decode_i32, decode_i64, encode_bool,
    encode_byte, encode_double, encode_i16, encode_i32, encode_i64,
};
use thrift::ProtocolExceptionType;

#[test]
fn bool_is_one_byte_zero_or_one() {
    assert_eq!(encode_bool(false), [0]);
    assert_eq!(encode_bool(true), [1]);
    assert_eq!(decode_bool(&[0]), Ok(false));
    assert_eq!(decode_bool(&[1]), Ok(true));
    assert_eq!(decode_bool(&[2]), Ok(true));
    assert_eq!(decode_bool(&[0xff]), Ok(true));
    assert_eq!(decode_bool(&[]), Err(ProtocolExceptionType::Underrun));
}

#[test]
fn byte_is_twos_complement() {
    assert_eq!(encode_byte(0), [0x00]);
    assert_eq!(encode_byte(0x27), [0x27]);
    assert_eq!(encode_byte(-0x5c), [0xa4]);
    assert_eq!(encode_byte(i8::MAX), [0x7f]);
    assert_eq!(encode_byte(i8::MIN), [0x80]);
    assert_eq!(encode_byte(-1), [0xff]);
    for v in i8::MIN..=i8::MAX {
        assert_eq!(decode_byte(&encode_byte(v)), Ok(v));
    }
    assert_eq!(decode_byte(&[]), Err(ProtocolExceptionType::Underrun));
}

#[test]
fn i16_is_big_endian() {
    assert_eq!(encode_i16(-0x0d08), [0xf2, 0xf8]);
    assert_eq!(encode_i16(-0x5ec0), [0xa1, 0x40]);
    assert_eq!(encode_i16(0x0102), [0x01, 0x02]);
    assert_eq!(encode_i16(i16::MIN), [0x80, 0x00]);
    assert_eq!(encode_i16(i16::MAX), [0x7f, 0xff]);
    for v in i16::MIN..=i16::MAX {
        assert_eq!(encode_i16(v), v.to_be_bytes());
        assert_eq!(decode_i16(&encode_i16(v)), Ok(v));
    }
    assert_eq!(decode_i16(&[0x01]), Err(ProtocolExceptionType::Underrun));
}

#[test]
fn i32_is_big_endian() {
    assert_eq!(encode_i32(0x27d03949), [0x27, 0xd0, 0x39, 0x49]);
    assert_eq!(encode_i32(-0x1a270175), [0xe5, 0xd8, 0xfe, 0x8b]);
    let values = [0, 1, -1, 0x7fffffff, -0x80000000, 0x100, -0x100, 0x12345678, -0x12345678];
    for v in values {
        assert_eq!(encode_i32(v), v.to_be_bytes());
        assert_eq!(decode_i32(&encode_i32(v)), Ok(v));
    }
}

#[test]
fn i64_is_big_endian() {
    assert_eq!(
        encode_i64(0x27d03949e5d8fe8b),
        [0x27, 0xd0, 0x39, 0x49, 0xe5, 0xd8, 0xfe, 0x8b]
    );
    assert_eq!(
        encode_i64(-0x58d17d152ed7f41e),
        [0xa7, 0x2e, 0x82, 0xea, 0xd1, 0x28, 0x0b, 0xe2]
    );
    let values = [0, 1, -1, i64::MAX, i64::MIN, 0x0102030405060708, -0x0102030405060708];
    for v in values {
        assert_eq!(encode_i64(v), v.to_be_bytes());
        assert_eq!(decode_i64(&encode_i64(v)), Ok(v));
    }
    assert_eq!(decode_i64(&[0; 7]), Err(ProtocolExceptionType::Underrun));
}

#[test]
fn double_is_its_bit_pattern_big_endian() {
    assert_eq!(
        encode_double(3247.342234f64.to_bits()),
        [0x40, 0xa9, 0x5e, 0xaf, 0x39, 0x4b, 0x7b, 0x29]
    );
    assert_eq!(
        encode_double((-0.78843886f64).to_bits()),
        [0xbf, 0xe9, 0x3a, 0xe4, 0x21, 0xd3, 0x0e, 0x85]
    );
    let values = [0.0, -0.0, 1.5, -2.25, 3247.342234, -0.78843886, f64::MAX, f64::MIN_POSITIVE];
    for v in values {
        let bits = decode_double(&encode_double(v.to_bits())).unwrap();
        assert_eq!(bits, v.to_bits());
        assert_eq!(f64::from_bits(bits), v);
        assert_eq!(encode_double(v.to_bits()), v.to_be_bytes());
    }
    assert_eq!(decode_double(&[0; 7]), Err(ProtocolExceptionType::Underrun));
}

#[test]
fn decoding_reads_the_front_and_ignores_what_follows() {
    assert_eq!(decode_byte(&[0xa4, 0x27]), Ok(-0x5c));
    assert_eq!(decode_i16(&[0xf2, 0xf8, 0xa1, 0x40]), Ok(-0x0d08));
    assert_eq!(decode_i32(&[0x27, 0xd0, 0x39, 0x49, 0xe5]), Ok(0x27d03949));
}

#[test]
fn i32_from_fewer_than_four_bytes_is_an_underrun() {
    assert_eq!(decode_i32(&[]), Err(ProtocolExceptionType::Underrun));
    assert_eq!(decode_i32(&[0x27]), Err(ProtocolExceptionType::Underrun));
    assert_eq!(decode_i32(&[0x27, 0xd0]), Err(ProtocolExceptionType::Underrun));
    assert_eq!(decode_i32(&[0x27, 0xd0, 0x39]), Err(ProtocolExceptionType::Underrun));
}
