use thrift::frame::{
    check_size, check_version, decode_message_kind, decode_text, encode_message_header,
    BINARY_PROTOCOL_VERSION_1, MAX_SIZE,
};
use thrift::{MessageType, ProtocolExceptionType};

#[test]
fn version_sentinel_and_largest_size() {
    assert_eq!(BINARY_PROTOCOL_VERSION_1, 0x8001);
    assert_eq!(MAX_SIZE, 0x7fff_ffff);
}

#[test]
fn message_header_is_version_shifted_or_kind() {
    assert_eq!(encode_message_header(MessageType::Call) as u32, 0x8001_0001);
    assert_eq!(encode_message_header(MessageType::Reply) as u32, 0x8001_0002);
    assert_eq!(encode_message_header(MessageType::Exception) as u32, 0x8001_0003);
    assert_eq!(encode_message_header(MessageType::Call), -0x7ffe_ffff);
}

#[test]
fn version_check_looks_at_the_upper_sixteen_bits_only() {
    assert_eq!(check_version(0x8001_0001u32 as i32), Ok(()));
    assert_eq!(check_version(0x8001_ffffu32 as i32), Ok(()));
    assert_eq!(check_version(0x8001_0000u32 as i32), Ok(()));
    assert_eq!(
        check_version(0x8002_0001u32 as i32),
        Err(ProtocolExceptionType::BadVersion(0x8002))
    );
    assert_eq!(check_version(0x0001_0001), Err(ProtocolExceptionType::BadVersion(0x0001)));
    assert_eq!(check_version(0x0000_8001), Err(ProtocolExceptionType::BadVersion(0)));
    assert_eq!(check_version(-1), Err(ProtocolExceptionType::BadVersion(0xffff)));
}

#[test]
fn message_kind_is_the_low_byte() {
    assert_eq!(decode_message_kind(0x8001_0001u32 as i32), Ok(MessageType::Call));
    assert_eq!(decode_message_kind(0x8001_0002u32 as i32), Ok(MessageType::Reply));
    assert_eq!(decode_message_kind(0x8001_0003u32 as i32), Ok(MessageType::Exception));
    assert_eq!(decode_message_kind(0x8001_ff01u32 as i32), Ok(MessageType::Call));
    assert_eq!(
        decode_message_kind(0x8001_0000u32 as i32),
        Err(ProtocolExceptionType::UnknownMessageKind(0))
    );
    assert_eq!(
        decode_message_kind(0x8001_0004u32 as i32),
        Err(ProtocolExceptionType::UnknownMessageKind(4))
    );
    assert_eq!(decode_message_kind(-1), Err(ProtocolExceptionType::UnknownMessageKind(0xff)));
}

#[test]
fn sizes_are_checked_against_zero_and_the_ceiling() {
    assert_eq!(check_size(0, 10), Ok(0));
    assert_eq!(check_size(10, 10), Ok(10));
    assert_eq!(check_size(11, 10), Err(ProtocolExceptionType::SizeLimit));
    assert_eq!(check_size(-1, 10), Err(ProtocolExceptionType::NegativeSize));
    assert_eq!(check_size(i32::MIN, 10), Err(ProtocolExceptionType::NegativeSize));
    assert_eq!(check_size(i32::MAX, MAX_SIZE), Ok(0x7fff_ffff));
    assert_eq!(check_size(1, 0), Err(ProtocolExceptionType::SizeLimit));
}

#[test]
fn text_must_be_valid_utf8() {
    assert_eq!(decode_text(vec![]), Ok(String::new()));
    assert_eq!(decode_text(vec![0x41, 0x73, 0x64, 0x66]), Ok(String::from("Asdf")));
    assert_eq!(decode_text(vec![0xc3, 0xa9]), Ok(String::from("\u{e9}")));
    assert_eq!(decode_text(vec![0xe2, 0x82, 0xac]), Ok(String::from("\u{20ac}")));
    assert_eq!(decode_text(vec![0xff]), Err(ProtocolExceptionType::InvalidText));
    assert_eq!(decode_text(vec![0xc3]), Err(ProtocolExceptionType::InvalidText));
    assert_eq!(decode_text(vec![0x41, 0x80]), Err(ProtocolExceptionType::InvalidText));
    assert_eq!(decode_text(vec![0xed, 0xa0, 0x80]), Err(ProtocolExceptionType::InvalidText));
    assert_eq!(decode_text(vec![0xc0, 0x80]), Err(ProtocolExceptionType::InvalidText));
}
