use thrift::{MessageType, ProtocolExceptionType, Type};

fn all_types() -> Vec<(Type, i8)> {
    vec![
        (Type::TStop, 0),
        (Type::TVoid, 1),
        (Type::TBool, 2),
        (Type::TByte, 3),
        (Type::TDouble, 4),
        (Type::TI16, 6),
        (Type::TI32, 8),
        (Type::TI64, 10),
        (Type::TString, 11),
        (Type::TStruct, 12),
        (Type::TMap, 13),
        (Type::TSet, 14),
        (Type::TList, 15),
    ]
}

#[test]
fn type_codes_are_the_fixed_numbers() {
    for (t, code) in all_types() {
        assert_eq!(t.to_i8(), code);
        assert_eq!(Type::from_i8(code), Ok(t));
    }
}

#[test]
fn every_byte_decodes_to_its_own_tag_or_to_none() {
    let known = all_types();
    for raw in i8::MIN..=i8::MAX {
        match Type::from_i8(raw) {
            Ok(t) => {
                assert_eq!(t.to_i8(), raw);
                assert!(known.iter().any(|entry| entry.1 == raw));
            }
            Err(e) => {
                assert_eq!(e, ProtocolExceptionType::UnknownType(raw));
                assert!(!known.iter().any(|entry| entry.1 == raw));
            }
        }
    }
}

#[test]
fn reserved_type_codes_are_errors() {
    assert_eq!(Type::from_i8(5), Err(ProtocolExceptionType::UnknownType(5)));
    assert_eq!(Type::from_i8(7), Err(ProtocolExceptionType::UnknownType(7)));
    assert_eq!(Type::from_i8(9), Err(ProtocolExceptionType::UnknownType(9)));
    assert_eq!(Type::from_i8(16), Err(ProtocolExceptionType::UnknownType(16)));
    assert_eq!(Type::from_i8(-1), Err(ProtocolExceptionType::UnknownType(-1)));
}

#[test]
fn message_kind_codes_are_the_fixed_numbers() {
    assert_eq!(MessageType::Call.to_i32(), 1);
    assert_eq!(MessageType::Reply.to_i32(), 2);
    assert_eq!(MessageType::Exception.to_i32(), 3);
    assert_eq!(MessageType::from_i32(1), Ok(MessageType::Call));
    assert_eq!(MessageType::from_i32(2), Ok(MessageType::Reply));
    assert_eq!(MessageType::from_i32(3), Ok(MessageType::Exception));
}

#[test]
fn other_message_kinds_are_errors() {
    assert_eq!(MessageType::from_i32(0), Err(ProtocolExceptionType::UnknownMessageKind(0)));
    assert_eq!(MessageType::from_i32(4), Err(ProtocolExceptionType::UnknownMessageKind(4)));
    assert_eq!(MessageType::from_i32(-1), Err(ProtocolExceptionType::UnknownMessageKind(-1)));
    assert_eq!(
        MessageType::from_i32(0x101),
        Err(ProtocolExceptionType::UnknownMessageKind(0x101))
    );
}
