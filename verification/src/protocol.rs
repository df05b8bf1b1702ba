//! Wire type tags, message kinds, and the errors a codec reports.

use vstd::prelude::*;

verus! {

/// Why an encode or decode operation failed.
#[derive(Clone, Copy, Debug, PartialEq, Eq, Structural)]
pub enum ProtocolExceptionType {
    /// A type-tag byte outside the closed set of tags; carries the byte.
    UnknownType(i8),
    /// A message-kind value other than call, reply or exception; carries the value.
    UnknownMessageKind(i32),
    /// A message header whose upper sixteen bits are not the version sentinel;
    /// carries those bits.
    BadVersion(u16),
    /// The transport could not supply the bytes asked for.
    Underrun,
    /// The bytes of a string are not valid UTF-8.
    InvalidText,
    /// A decoded length or element count is negative.
    NegativeSize,
    /// A length or element count is above the accepted ceiling.
    SizeLimit,
    /// The transport did not accept the bytes handed to it.
    WriteFailed,
}

/// The kind of value that follows a tag on the wire.
#[derive(Clone, Copy, Debug, PartialEq, Eq, Structural)]
pub enum Type {
    TStop,
    TVoid,
    TBool,
    TByte,
    TDouble,
    TI16,
    TI32,
    TI64,
    TString,
    TStruct,
    TMap,
    TSet,
    TList,
}

/// Whether a message is a call, a reply to one, or an exception.
#[derive(Clone, Copy, Debug, PartialEq, Eq, Structural)]
pub enum MessageType {
    Call,
    Reply,
    Exception,
}

impl Type {
    /// The number that stands for this tag on the wire.
    pub open spec fn code(self) -> i8 {
        match self {
            Type::TStop => 0,
            Type::TVoid => 1,
            Type::TBool => 2,
            Type::TByte => 3,
            Type::TDouble => 4,
            Type::TI16 => 6,
            Type::TI32 => 8,
            Type::TI64 => 10,
            Type::TString => 11,
            Type::TStruct => 12,
            Type::TMap => 13,
            Type::TSet => 14,
            Type::TList => 15,
        }
    }

    /// The tag that `raw` stands for, if any. The numbers 5, 7 and 9 are
    /// reserved and stand for none.
    pub open spec fn of_code(raw: i8) -> Option<Type> {
        if raw == 0 {
            Some(Type::TStop)
        } else if raw == 1 {
            Some(Type::TVoid)
        } else if raw == 2 {
            Some(Type::TBool)
        } else if raw == 3 {
            Some(Type::TByte)
        } else if raw == 4 {
            Some(Type::TDouble)
        } else if raw == 6 {
            Some(Type::TI16)
        } else if raw == 8 {
            Some(Type::TI32)
        } else if raw == 10 {
            Some(Type::TI64)
        } else if raw == 11 {
            Some(Type::TString)
        } else if raw == 12 {
            Some(Type::TStruct)
        } else if raw == 13 {
            Some(Type::TMap)
        } else if raw == 14 {
            Some(Type::TSet)
        } else if raw == 15 {
            Some(Type::TList)
        } else {
            None
        }
    }

    /// Encodes the tag as its wire number.
    #[verifier::when_used_as_spec(code)]
    pub fn to_i8(self) -> (raw: i8)
        ensures
            raw == self.code(),
    {
        match self {
            Type::TStop => 0,
            Type::TVoid => 1,
            Type::TBool => 2,
            Type::TByte => 3,
            Type::TDouble => 4,
            Type::TI16 => 6,
            Type::TI32 => 8,
            Type::TI64 => 10,
            Type::TString => 11,
            Type::TStruct => 12,
            Type::TMap => 13,
            Type::TSet => 14,
            Type::TList => 15,
        }
    }

    /// Decodes a wire number. A number outside the closed set is an error,
    /// never a default.
    pub fn from_i8(raw: i8) -> (r: Result<Type, ProtocolExceptionType>)
        ensures
            r == match Type::of_code(raw) {
                Some(t) => Ok::<Type, ProtocolExceptionType>(t),
                None => Err::<Type, ProtocolExceptionType>(ProtocolExceptionType::UnknownType(raw)),
            },
    {
        match raw {
            0 => Ok(Type::TStop),
            1 => Ok(Type::TVoid),
            2 => Ok(Type::TBool),
            3 => Ok(Type::TByte),
            4 => Ok(Type::TDouble),
            6 => Ok(Type::TI16),
            8 => Ok(Type::TI32),
            10 => Ok(Type::TI64),
            11 => Ok(Type::TString),
            12 => Ok(Type::TStruct),
            13 => Ok(Type::TMap),
            14 => Ok(Type::TSet),
            15 => Ok(Type::TList),
            _ => Err(ProtocolExceptionType::UnknownType(raw)),
        }
    }

    /// Decoding inverts encoding: every tag is read back from its own number.
    pub proof fn lemma_code_round_trip(t: Type)
        ensures
            Type::of_code(t.code()) == Some(t),
    {
    }

    /// A number that decodes to a tag is that tag's number, so two tags never
    /// share one and encoding a decoded tag gives the number back.
    pub proof fn lemma_of_code_exact(raw: i8)
        ensures
            Type::of_code(raw) matches Some(t) ==> t.code() == raw,
            Type::of_code(raw) is None <==> !(0 <= raw <= 15) || raw == 5 || raw == 7 || raw == 9,
    {
    }
}

impl MessageType {
    /// The number that stands for this kind in the low byte of a message header.
    pub open spec fn code(self) -> i32 {
        match self {
            MessageType::Call => 1,
            MessageType::Reply => 2,
            MessageType::Exception => 3,
        }
    }

    /// The kind that `raw` stands for, if any.
    pub open spec fn of_code(raw: i32) -> Option<MessageType> {
        if raw == 1 {
            Some(MessageType::Call)
        } else if raw == 2 {
            Some(MessageType::Reply)
        } else if raw == 3 {
            Some(MessageType::Exception)
        } else {
            None
        }
    }

    /// Encodes the kind as its wire number.
    #[verifier::when_used_as_spec(code)]
    pub fn to_i32(self) -> (raw: i32)
        ensures
            raw == self.code(),
    {
        match self {
            MessageType::Call => 1,
            MessageType::Reply => 2,
            MessageType::Exception => 3,
        }
    }

    /// Decodes a wire number. Any number but 1, 2 and 3 is an error.
    pub fn from_i32(raw: i32) -> (r: Result<MessageType, ProtocolExceptionType>)
        ensures
            r == match MessageType::of_code(raw) {
                Some(k) => Ok::<MessageType, ProtocolExceptionType>(k),
                None => Err::<MessageType, ProtocolExceptionType>(
                    ProtocolExceptionType::UnknownMessageKind(raw),
                ),
            },
    {
        match raw {
            1 => Ok(MessageType::Call),
            2 => Ok(MessageType::Reply),
            3 => Ok(MessageType::Exception),
            _ => Err(ProtocolExceptionType::UnknownMessageKind(raw)),
        }
    }

    /// Decoding inverts encoding: every kind is read back from its own number.
    pub proof fn lemma_code_round_trip(k: MessageType)
        ensures
            MessageType::of_code(k.code()) == Some(k),
    {
    }

    /// A number that decodes to a kind is that kind's number.
    pub proof fn lemma_of_code_exact(raw: i32)
        ensures
            MessageType::of_code(raw) matches Some(k) ==> k.code() == raw,
            MessageType::of_code(raw) is None <==> !(1 <= raw <= 3),
    {
    }
}

/// The operations that any wire encoding offers: begin and end markers for
/// messages, structs, fields and containers, and one write and one read for
/// each scalar.
///
/// Begin and end calls come in pairs and are not nested across two unfinished
/// structs; an encoding is not asked to detect misuse. What an operation puts
/// on the wire is the encoding's own business, so the contracts stand on the
/// implementations. After an error the stream is in an unspecified state and
/// no further operation should be issued on it.
pub trait Protocol {
    fn write_message_begin(
        &mut self,
        name: &str,
        message_type: MessageType,
        sequence_id: i32,
    ) -> Result<(), ProtocolExceptionType>;

    fn write_message_end(&mut self) -> Result<(), ProtocolExceptionType>;

    fn write_struct_begin(&mut self, name: &str) -> Result<(), ProtocolExceptionType>;

    fn write_struct_end(&mut self) -> Result<(), ProtocolExceptionType>;

    fn write_field_begin(&mut self, name: &str, field_type: Type, field_id: i16) -> Result<
        (),
        ProtocolExceptionType,
    >;

    fn write_field_end(&mut self) -> Result<(), ProtocolExceptionType>;

    /// Ends the fields of a struct. Called once for each struct, after its
    /// last field and before `write_struct_end`.
    fn write_field_stop(&mut self) -> Result<(), ProtocolExceptionType>;

    fn write_map_begin(&mut self, key_type: Type, value_type: Type, size: i32) -> Result<
        (),
        ProtocolExceptionType,
    >;

    fn write_map_end(&mut self) -> Result<(), ProtocolExceptionType>;

    fn write_list_begin(&mut self, elem_type: Type, size: i32) -> Result<
        (),
        ProtocolExceptionType,
    >;

    fn write_list_end(&mut self) -> Result<(), ProtocolExceptionType>;

    fn write_set_begin(&mut self, elem_type: Type, size: i32) -> Result<
        (),
        ProtocolExceptionType,
    >;

    fn write_set_end(&mut self) -> Result<(), ProtocolExceptionType>;

    fn write_bool(&mut self, value: bool) -> Result<(), ProtocolExceptionType>;

    fn write_byte(&mut self, value: i8) -> Result<(), ProtocolExceptionType>;

    fn write_i16(&mut self, value: i16) -> Result<(), ProtocolExceptionType>;

    fn write_i32(&mut self, value: i32) -> Result<(), ProtocolExceptionType>;

    fn write_i64(&mut self, value: i64) -> Result<(), ProtocolExceptionType>;

    /// Writes a double, given as its IEEE-754 binary64 bit pattern.
    fn write_double(&mut self, bits: u64) -> Result<(), ProtocolExceptionType>;

    fn write_string(&mut self, value: &str) -> Result<(), ProtocolExceptionType>;

    fn write_binary(&mut self, value: &[u8]) -> Result<(), ProtocolExceptionType>;

    /// Reads the name, kind and sequence id of a message.
    fn read_message_begin(&mut self) -> Result<(String, MessageType, i32), ProtocolExceptionType>;

    fn read_message_end(&mut self) -> Result<(), ProtocolExceptionType>;

    /// Reads the name of a struct, which is empty where the encoding does
    /// not carry it.
    fn read_struct_begin(&mut self) -> Result<String, ProtocolExceptionType>;

    fn read_struct_end(&mut self) -> Result<(), ProtocolExceptionType>;

    /// Reads the name, type and id of a field. The type `TStop` ends the
    /// fields of the struct.
    fn read_field_begin(&mut self) -> Result<(String, Type, i16), ProtocolExceptionType>;

    fn read_field_end(&mut self) -> Result<(), ProtocolExceptionType>;

    /// Reads the key type, value type and element count of a map.
    fn read_map_begin(&mut self) -> Result<(Type, Type, i32), ProtocolExceptionType>;

    fn read_map_end(&mut self) -> Result<(), ProtocolExceptionType>;

    /// Reads the element type and element count of a list.
    fn read_list_begin(&mut self) -> Result<(Type, i32), ProtocolExceptionType>;

    fn read_list_end(&mut self) -> Result<(), ProtocolExceptionType>;

    /// Reads the element type and element count of a set.
    fn read_set_begin(&mut self) -> Result<(Type, i32), ProtocolExceptionType>;

    fn read_set_end(&mut self) -> Result<(), ProtocolExceptionType>;

    fn read_bool(&mut self) -> Result<bool, ProtocolExceptionType>;

    fn read_byte(&mut self) -> Result<i8, ProtocolExceptionType>;

    fn read_i16(&mut self) -> Result<i16, ProtocolExceptionType>;

    fn read_i32(&mut self) -> Result<i32, ProtocolExceptionType>;

    fn read_i64(&mut self) -> Result<i64, ProtocolExceptionType>;

    /// Reads a double, given as its IEEE-754 binary64 bit pattern.
    fn read_double(&mut self) -> Result<u64, ProtocolExceptionType>;

    fn read_string(&mut self) -> Result<String, ProtocolExceptionType>;

    fn read_binary(&mut self) -> Result<Vec<u8>, ProtocolExceptionType>;
}

} // verus!
