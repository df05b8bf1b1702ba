//! The byte layout of what is built from scalars: type tags, length-prefixed
//! bytes and text, and the headers of messages, fields and containers.
//!
//! For each item there is a function that gives its bytes and one that says
//! what reading it from the front of a stream gives: the value and the number
//! of bytes taken, or the error. The executable codec is proved against these.

use crate::protocol::{MessageType, ProtocolExceptionType, Type};
use crate::wire::{
    byte_bytes, i16_bytes, i32_bytes, i32_value, lemma_byte_round_trip, lemma_i16_round_trip,
    lemma_i32_round_trip, parse_byte, parse_i16, parse_i32, signed_value, unsigned_image,
};
use vstd::prelude::*;
use vstd::utf8::{
    decode_utf8, encode_utf8, encode_utf8_decode_utf8, encode_utf8_valid_utf8, valid_utf8,
};

verus! {

/// The sentinel in the upper sixteen bits of every message header.
pub const BINARY_PROTOCOL_VERSION_1: u16 = 0x8001;

/// The longest byte string and the largest element count that the layout can
/// express: lengths and counts are signed 32-bit numbers.
pub const MAX_SIZE: usize = 0x7fff_ffff;

/// A type tag is one byte, the tag's number.
pub open spec fn type_bytes(t: Type) -> Seq<u8> {
    byte_bytes(t.code())
}

/// What reading a type tag gives. A byte outside the closed set of tags is
/// an error.
pub open spec fn parse_type(input: Seq<u8>) -> Result<(Type, nat), ProtocolExceptionType> {
    match parse_byte(input) {
        Err(e) => Err(e),
        Ok((raw, n)) => match Type::of_code(raw) {
            Some(t) => Ok((t, n)),
            None => Err(ProtocolExceptionType::UnknownType(raw)),
        },
    }
}

/// What checking a decoded length or count against the ceiling gives.
pub open spec fn checked_size(size: i32, limit: nat) -> Result<nat, ProtocolExceptionType> {
    if size < 0 {
        Err(ProtocolExceptionType::NegativeSize)
    } else if size > limit {
        Err(ProtocolExceptionType::SizeLimit)
    } else {
        Ok(size as nat)
    }
}

/// Raw bytes are a four-byte signed length and then the bytes themselves.
pub open spec fn binary_bytes(value: Seq<u8>) -> Seq<u8>
    recommends
        value.len() <= MAX_SIZE,
{
    i32_bytes(value.len() as i32) + value
}

/// What reading raw bytes gives, where lengths above `limit` are refused.
pub open spec fn parse_binary(input: Seq<u8>, limit: nat) -> Result<
    (Seq<u8>, nat),
    ProtocolExceptionType,
> {
    match parse_i32(input) {
        Err(e) => Err(e),
        Ok((size, n)) => match checked_size(size, limit) {
            Err(e) => Err(e),
            Ok(len) => if input.len() < n + len {
                Err(ProtocolExceptionType::Underrun)
            } else {
                Ok((input.subrange(n as int, (n + len) as int), n + len))
            },
        },
    }
}

/// Text is the raw bytes of its UTF-8 encoding; the length counts bytes.
pub open spec fn string_bytes(value: Seq<char>) -> Seq<u8>
    recommends
        encode_utf8(value).len() <= MAX_SIZE,
{
    binary_bytes(encode_utf8(value))
}

/// What reading text gives. Bytes that are not valid UTF-8 are an error.
pub open spec fn parse_string(input: Seq<u8>, limit: nat) -> Result<
    (Seq<char>, nat),
    ProtocolExceptionType,
> {
    match parse_binary(input, limit) {
        Err(e) => Err(e),
        Ok((bytes, n)) => if valid_utf8(bytes) {
            Ok((decode_utf8(bytes), n))
        } else {
            Err(ProtocolExceptionType::InvalidText)
        },
    }
}

/// The first number of a message: the version sentinel in the upper sixteen
/// bits and the kind in the low byte.
pub open spec fn message_header(kind: MessageType) -> i32 {
    signed_value(BINARY_PROTOCOL_VERSION_1 * 0x1_0000 + kind.code(), 0x1_0000_0000) as i32
}

/// The upper sixteen bits of a message header.
pub open spec fn header_version(header: i32) -> u16 {
    (unsigned_image(header as int, 0x1_0000_0000) / 0x1_0000) as u16
}

/// The low byte of a message header.
pub open spec fn header_kind(header: i32) -> i32 {
    (unsigned_image(header as int, 0x1_0000_0000) % 0x100) as i32
}

/// A message begins with its header, then its name as text, then its
/// sequence id.
pub open spec fn message_begin_bytes(name: Seq<char>, kind: MessageType, sequence_id: i32) -> Seq<
    u8,
>
    recommends
        encode_utf8(name).len() <= MAX_SIZE,
{
    i32_bytes(message_header(kind)) + string_bytes(name) + i32_bytes(sequence_id)
}

/// What reading the beginning of a message gives. The version is checked
/// before the name is read, and the kind after it.
pub open spec fn parse_message_begin(input: Seq<u8>, limit: nat) -> Result<
    ((Seq<char>, MessageType, i32), nat),
    ProtocolExceptionType,
> {
    match parse_i32(input) {
        Err(e) => Err(e),
        Ok((header, n0)) => if header_version(header) != BINARY_PROTOCOL_VERSION_1 {
            Err(ProtocolExceptionType::BadVersion(header_version(header)))
        } else {
            match parse_string(input.skip(n0 as int), limit) {
                Err(e) => Err(e),
                Ok((name, n1)) => match MessageType::of_code(header_kind(header)) {
                    None => Err(ProtocolExceptionType::UnknownMessageKind(header_kind(header))),
                    Some(kind) => match parse_i32(input.skip((n0 + n1) as int)) {
                        Err(e) => Err(e),
                        Ok((sequence_id, n2)) => Ok(((name, kind, sequence_id), n0 + n1 + n2)),
                    },
                },
            }
        },
    }
}

/// A field header is the tag of the field's type and then the field's id. The
/// field's name is never written.
pub open spec fn field_begin_bytes(field_type: Type, field_id: i16) -> Seq<u8> {
    type_bytes(field_type) + i16_bytes(field_id)
}

/// The end of a struct's fields is one stop tag, with no id after it.
pub open spec fn field_stop_bytes() -> Seq<u8> {
    type_bytes(Type::TStop)
}

/// What reading a field header gives. After a stop tag no id is read, and
/// the id is reported as 0.
pub open spec fn parse_field_begin(input: Seq<u8>) -> Result<
    ((Type, i16), nat),
    ProtocolExceptionType,
> {
    match parse_type(input) {
        Err(e) => Err(e),
        Ok((field_type, n0)) => if field_type == Type::TStop {
            Ok(((field_type, 0i16), n0))
        } else {
            match parse_i16(input.skip(n0 as int)) {
                Err(e) => Err(e),
                Ok((field_id, n1)) => Ok(((field_type, field_id), n0 + n1)),
            }
        },
    }
}

/// A map header is the tags of the key and value types and then the count.
pub open spec fn map_begin_bytes(key_type: Type, value_type: Type, size: i32) -> Seq<u8> {
    type_bytes(key_type) + type_bytes(value_type) + i32_bytes(size)
}

/// What reading a map header gives, where counts above `limit` are refused.
pub open spec fn parse_map_begin(input: Seq<u8>, limit: nat) -> Result<
    ((Type, Type, i32), nat),
    ProtocolExceptionType,
> {
    match parse_type(input) {
        Err(e) => Err(e),
        Ok((key_type, n0)) => match parse_type(input.skip(n0 as int)) {
            Err(e) => Err(e),
            Ok((value_type, n1)) => match parse_i32(input.skip((n0 + n1) as int)) {
                Err(e) => Err(e),
                Ok((size, n2)) => match checked_size(size, limit) {
                    Err(e) => Err(e),
                    Ok(_) => Ok(((key_type, value_type, size), n0 + n1 + n2)),
                },
            },
        },
    }
}

/// The header of a list or a set is the tag of the element type and then the
/// count.
pub open spec fn list_begin_bytes(elem_type: Type, size: i32) -> Seq<u8> {
    type_bytes(elem_type) + i32_bytes(size)
}

/// What reading the header of a list or a set gives, where counts above
/// `limit` are refused.
pub open spec fn parse_list_begin(input: Seq<u8>, limit: nat) -> Result<
    ((Type, i32), nat),
    ProtocolExceptionType,
> {
    match parse_type(input) {
        Err(e) => Err(e),
        Ok((elem_type, n0)) => match parse_i32(input.skip(n0 as int)) {
            Err(e) => Err(e),
            Ok((size, n1)) => match checked_size(size, limit) {
                Err(e) => Err(e),
                Ok(_) => Ok(((elem_type, size), n0 + n1)),
            },
        },
    }
}

/// Checks a decoded length or count: a negative one and one above `limit`
/// are refused, any other is handed back as a `usize`.
pub fn check_size(size: i32, limit: usize) -> (r: Result<usize, ProtocolExceptionType>)
    ensures
        match checked_size(size, limit as nat) {
            Ok(n) => r == Ok::<usize, ProtocolExceptionType>(n as usize) && n == size,
            Err(e) => r == Err::<usize, ProtocolExceptionType>(e),
        },
{
    if size < 0 {
        Err(ProtocolExceptionType::NegativeSize)
    } else if size as usize > limit {
        Err(ProtocolExceptionType::SizeLimit)
    } else {
        Ok(size as usize)
    }
}

/// Builds the header of a message of the given kind.
pub fn encode_message_header(kind: MessageType) -> (header: i32)
    ensures
        header == message_header(kind),
{
    let n: i64 = (BINARY_PROTOCOL_VERSION_1 as i64) * 0x1_0000 + kind.to_i32() as i64;
    (n - 0x1_0000_0000) as i32
}

/// Checks the upper sixteen bits of a message header against the version
/// sentinel, whatever the low bits hold.
pub fn check_version(header: i32) -> (r: Result<(), ProtocolExceptionType>)
    ensures
        r == if header_version(header) == BINARY_PROTOCOL_VERSION_1 {
            Ok::<(), ProtocolExceptionType>(())
        } else {
            Err::<(), ProtocolExceptionType>(
                ProtocolExceptionType::BadVersion(header_version(header)),
            )
        },
{
    let n: u32 = if header < 0 { (header as i64 + 0x1_0000_0000) as u32 } else { header as u32 };
    let version: u16 = (n / 0x1_0000) as u16;
    if version == BINARY_PROTOCOL_VERSION_1 {
        Ok(())
    } else {
        Err(ProtocolExceptionType::BadVersion(version))
    }
}

/// Decodes the message kind in the low byte of a message header.
pub fn decode_message_kind(header: i32) -> (r: Result<MessageType, ProtocolExceptionType>)
    ensures
        r == match MessageType::of_code(header_kind(header)) {
            Some(kind) => Ok::<MessageType, ProtocolExceptionType>(kind),
            None => Err::<MessageType, ProtocolExceptionType>(
                ProtocolExceptionType::UnknownMessageKind(header_kind(header)),
            ),
        },
{
    let n: u32 = if header < 0 { (header as i64 + 0x1_0000_0000) as u32 } else { header as u32 };
    MessageType::from_i32((n % 0x100) as i32)
}

/// `String::from_utf8` of the standard library, with its error dropped. It
/// is trusted to accept exactly the byte strings that are valid UTF-8 and to
/// give a string of those very bytes.
#[verifier::external_body]
fn string_from_utf8(bytes: Vec<u8>) -> (r: Option<String>)
    ensures
        r is Some <==> valid_utf8(bytes@),
        r matches Some(s) ==> encode_utf8(s@) == bytes@,
{
    String::from_utf8(bytes).ok()
}

/// Decodes the bytes of a string. Bytes that are not valid UTF-8 are an
/// error; nothing is replaced.
pub fn decode_text(bytes: Vec<u8>) -> (r: Result<String, ProtocolExceptionType>)
    ensures
        valid_utf8(bytes@) ==> (r matches Ok(s) && s@ == decode_utf8(bytes@)),
        !valid_utf8(bytes@) ==> r == Err::<String, ProtocolExceptionType>(
            ProtocolExceptionType::InvalidText,
        ),
{
    match string_from_utf8(bytes) {
        Some(s) => {
            proof {
                encode_utf8_decode_utf8(s@);
            }
            Ok(s)
        },
        None => Err(ProtocolExceptionType::InvalidText),
    }
}

/// A type tag that was written is read back, whatever follows it.
pub proof fn lemma_type_round_trip(t: Type, rest: Seq<u8>)
    ensures
        type_bytes(t).len() == 1,
        parse_type(type_bytes(t) + rest) == Ok::<(Type, nat), ProtocolExceptionType>((t, 1nat)),
{
    lemma_byte_round_trip(t.code(), rest);
    Type::lemma_code_round_trip(t);
}

/// A stream that begins with one of the reserved bytes 5, 7 and 9 gives
/// neither a type tag nor a field header: both reads fail, and the error
/// names the byte.
pub proof fn lemma_reserved_tag_rejected(input: Seq<u8>)
    requires
        input.len() >= 1,
        input[0] == 5 || input[0] == 7 || input[0] == 9,
    ensures
        parse_type(input) == Err::<(Type, nat), ProtocolExceptionType>(
            ProtocolExceptionType::UnknownType(input[0] as i8),
        ),
        parse_field_begin(input) == Err::<((Type, i16), nat), ProtocolExceptionType>(
            ProtocolExceptionType::UnknownType(input[0] as i8),
        ),
{
}

/// A stream gives a type tag exactly when it begins with the number of a tag.
pub proof fn lemma_parse_type_exact(input: Seq<u8>)
    ensures
        parse_type(input) is Ok <==> input.len() >= 1 && (input[0] <= 4 || input[0] == 6
            || input[0] == 8 || 10 <= input[0] <= 15),
        input.len() == 0 ==> parse_type(input) == Err::<(Type, nat), ProtocolExceptionType>(
            ProtocolExceptionType::Underrun,
        ),
{
}

/// Raw bytes that were written are read back, whatever follows them, where
/// their number is within what the layout and the reader accept.
pub proof fn lemma_binary_round_trip(value: Seq<u8>, rest: Seq<u8>, limit: nat)
    requires
        value.len() <= MAX_SIZE,
        value.len() <= limit,
    ensures
        binary_bytes(value).len() == 4 + value.len(),
        parse_binary(binary_bytes(value) + rest, limit) == Ok::<
            (Seq<u8>, nat),
            ProtocolExceptionType,
        >((value, 4 + value.len())),
{
    let size = value.len() as i32;
    let input = binary_bytes(value) + rest;
    lemma_i32_round_trip(size, value + rest);
    assert(input =~= i32_bytes(size) + (value + rest));
    assert(input.subrange(4, 4 + value.len() as int) =~= value);
}

/// Text that was written is read back, whatever follows it, where the
/// length of its encoding is within what the layout and the reader accept.
pub proof fn lemma_string_round_trip(value: Seq<char>, rest: Seq<u8>, limit: nat)
    requires
        encode_utf8(value).len() <= MAX_SIZE,
        encode_utf8(value).len() <= limit,
    ensures
        string_bytes(value).len() == 4 + encode_utf8(value).len(),
        parse_string(string_bytes(value) + rest, limit) == Ok::<
            (Seq<char>, nat),
            ProtocolExceptionType,
        >((value, 4 + encode_utf8(value).len())),
{
    lemma_binary_round_trip(encode_utf8(value), rest, limit);
    encode_utf8_valid_utf8(value);
    encode_utf8_decode_utf8(value);
}

/// The header of a message holds the version sentinel and the kind it was
/// built from.
pub proof fn lemma_message_header_parts(kind: MessageType)
    ensures
        header_version(message_header(kind)) == BINARY_PROTOCOL_VERSION_1,
        header_kind(message_header(kind)) == kind.code(),
{
}

/// The upper sixteen bits of a message header are its first two bytes on the
/// wire, and its low byte is the fourth.
pub proof fn lemma_header_bytes(input: Seq<u8>)
    requires
        input.len() >= 4,
    ensures
        header_version(i32_value(input)) == input[0] * 0x100 + input[1],
        header_kind(i32_value(input)) == input[3],
{
}

/// A message whose first two bytes are not the version sentinel is refused
/// as a bad version, whatever the kind byte and the rest of the stream hold.
pub proof fn lemma_bad_version_rejected(input: Seq<u8>, limit: nat)
    requires
        input.len() >= 4,
        input[0] * 0x100 + input[1] != BINARY_PROTOCOL_VERSION_1,
    ensures
        parse_message_begin(input, limit) == Err::<
            ((Seq<char>, MessageType, i32), nat),
            ProtocolExceptionType,
        >(ProtocolExceptionType::BadVersion((input[0] * 0x100 + input[1]) as u16)),
{
    lemma_header_bytes(input);
}

/// The beginning of a message that was written is read back, whatever
/// follows it, where the length of the name's encoding is within what the
/// layout and the reader accept.
pub proof fn lemma_message_begin_round_trip(
    name: Seq<char>,
    kind: MessageType,
    sequence_id: i32,
    rest: Seq<u8>,
    limit: nat,
)
    requires
        encode_utf8(name).len() <= MAX_SIZE,
        encode_utf8(name).len() <= limit,
    ensures
        parse_message_begin(message_begin_bytes(name, kind, sequence_id) + rest, limit) == Ok::<
            ((Seq<char>, MessageType, i32), nat),
            ProtocolExceptionType,
        >(((name, kind, sequence_id), 8 + string_bytes(name).len())),
{
    let input = message_begin_bytes(name, kind, sequence_id) + rest;
    let header = message_header(kind);
    let tail = i32_bytes(sequence_id) + rest;
    let n1 = string_bytes(name).len();
    lemma_message_header_parts(kind);
    MessageType::lemma_code_round_trip(kind);
    lemma_i32_round_trip(header, string_bytes(name) + tail);
    assert(input =~= i32_bytes(header) + (string_bytes(name) + tail));
    assert(input.skip(4) =~= string_bytes(name) + tail);
    lemma_string_round_trip(name, tail, limit);
    assert(input.skip(4 + n1 as int) =~= tail);
    lemma_i32_round_trip(sequence_id, rest);
}

/// A field header that was written is read back, whatever follows it, unless
/// its type is the stop tag.
pub proof fn lemma_field_begin_round_trip(field_type: Type, field_id: i16, rest: Seq<u8>)
    requires
        field_type != Type::TStop,
    ensures
        field_begin_bytes(field_type, field_id).len() == 3,
        parse_field_begin(field_begin_bytes(field_type, field_id) + rest) == Ok::<
            ((Type, i16), nat),
            ProtocolExceptionType,
        >(((field_type, field_id), 3nat)),
{
    let input = field_begin_bytes(field_type, field_id) + rest;
    lemma_type_round_trip(field_type, i16_bytes(field_id) + rest);
    assert(input =~= type_bytes(field_type) + (i16_bytes(field_id) + rest));
    assert(input.skip(1) =~= i16_bytes(field_id) + rest);
    lemma_i16_round_trip(field_id, rest);
}

/// The stop tag is read back as a field header of type stop and id 0, and
/// nothing after the tag is taken.
pub proof fn lemma_field_stop_round_trip(rest: Seq<u8>)
    ensures
        field_stop_bytes().len() == 1,
        parse_field_begin(field_stop_bytes() + rest) == Ok::<
            ((Type, i16), nat),
            ProtocolExceptionType,
        >(((Type::TStop, 0i16), 1nat)),
{
    lemma_type_round_trip(Type::TStop, rest);
}

/// A field as it stands on the wire: the type and id of its header, and the
/// bytes of its value.
pub ghost struct FieldBytes {
    pub field_type: Type,
    pub field_id: i16,
    pub value: Seq<u8>,
}

/// The bytes of a struct: each field's header and value, one field after the
/// other, and the stop tag after the last.
pub open spec fn struct_bytes(fields: Seq<FieldBytes>) -> Seq<u8>
    decreases fields.len(),
{
    if fields.len() == 0 {
        field_stop_bytes()
    } else {
        field_begin_bytes(fields[0].field_type, fields[0].field_id) + fields[0].value
            + struct_bytes(fields.drop_first())
    }
}

/// The headers of a struct's fields in order, and after them the header that
/// the stop tag reads as.
pub open spec fn struct_headers(fields: Seq<FieldBytes>) -> Seq<(Type, i16)> {
    Seq::new(fields.len(), |i: int| (fields[i].field_type, fields[i].field_id)).push(
        (Type::TStop, 0i16),
    )
}

/// What reading the field headers of a struct gives, where a reader passes
/// over `widths[i]` bytes of value after the header of field `i` and reads
/// one more header after the last: the headers in order and the number of
/// bytes taken, or the first error.
pub open spec fn parse_field_headers(input: Seq<u8>, widths: Seq<nat>) -> Result<
    (Seq<(Type, i16)>, nat),
    ProtocolExceptionType,
>
    decreases widths.len(),
{
    match parse_field_begin(input) {
        Err(e) => Err(e),
        Ok((header, n)) => if widths.len() == 0 {
            Ok((seq![header], n))
        } else if input.len() < n + widths[0] {
            Err(ProtocolExceptionType::Underrun)
        } else {
            match parse_field_headers(input.skip((n + widths[0]) as int), widths.drop_first()) {
                Err(e) => Err(e),
                Ok((headers, m)) => Ok((seq![header] + headers, n + widths[0] + m)),
            }
        },
    }
}

/// Writing the fields of a struct and then the stop tag, and reading the
/// field headers back, gives the header of every field in order and after
/// them one header of type stop with id 0, whatever follows the struct. No
/// field may itself have the stop type.
pub proof fn lemma_struct_fields_round_trip(fields: Seq<FieldBytes>, rest: Seq<u8>)
    requires
        forall|i: int| 0 <= i < fields.len() ==> (#[trigger] fields[i]).field_type != Type::TStop,
    ensures
        parse_field_headers(
            struct_bytes(fields) + rest,
            Seq::new(fields.len(), |i: int| fields[i].value.len()),
        ) == Ok::<(Seq<(Type, i16)>, nat), ProtocolExceptionType>(
            (struct_headers(fields), struct_bytes(fields).len()),
        ),
    decreases fields.len(),
{
    let input = struct_bytes(fields) + rest;
    let widths = Seq::new(fields.len(), |i: int| fields[i].value.len());
    if fields.len() == 0 {
        lemma_field_stop_round_trip(rest);
        assert(struct_headers(fields) =~= seq![(Type::TStop, 0i16)]);
    } else {
        let first = fields[0];
        let others = fields.drop_first();
        let other_widths = Seq::new(others.len(), |i: int| others[i].value.len());
        let tail = struct_bytes(others) + rest;
        lemma_struct_fields_round_trip(others, rest);
        lemma_field_begin_round_trip(first.field_type, first.field_id, first.value + tail);
        assert(input =~= field_begin_bytes(first.field_type, first.field_id) + (first.value
            + tail));
        assert(input.skip(3 + first.value.len() as int) =~= tail);
        assert(widths.drop_first() =~= other_widths);
        assert(seq![(first.field_type, first.field_id)] + struct_headers(others)
            =~= struct_headers(fields));
    }
}

/// A map header that was written is read back, whatever follows it, where
/// the count is neither negative nor above what the reader accepts.
pub proof fn lemma_map_begin_round_trip(
    key_type: Type,
    value_type: Type,
    size: i32,
    rest: Seq<u8>,
    limit: nat,
)
    requires
        0 <= size <= limit,
    ensures
        parse_map_begin(map_begin_bytes(key_type, value_type, size) + rest, limit) == Ok::<
            ((Type, Type, i32), nat),
            ProtocolExceptionType,
        >(((key_type, value_type, size), 6nat)),
{
    let input = map_begin_bytes(key_type, value_type, size) + rest;
    let after_key = type_bytes(value_type) + (i32_bytes(size) + rest);
    lemma_type_round_trip(key_type, after_key);
    assert(input =~= type_bytes(key_type) + after_key);
    assert(input.skip(1) =~= after_key);
    lemma_type_round_trip(value_type, i32_bytes(size) + rest);
    assert(input.skip(2) =~= i32_bytes(size) + rest);
    lemma_i32_round_trip(size, rest);
}

/// The header of a list or a set that was written is read back, whatever
/// follows it, where the count is neither negative nor above what the reader
/// accepts.
pub proof fn lemma_list_begin_round_trip(elem_type: Type, size: i32, rest: Seq<u8>, limit: nat)
    requires
        0 <= size <= limit,
    ensures
        parse_list_begin(list_begin_bytes(elem_type, size) + rest, limit) == Ok::<
            ((Type, i32), nat),
            ProtocolExceptionType,
        >(((elem_type, size), 5nat)),
{
    let input = list_begin_bytes(elem_type, size) + rest;
    lemma_type_round_trip(elem_type, i32_bytes(size) + rest);
    assert(input =~= type_bytes(elem_type) + (i32_bytes(size) + rest));
    assert(input.skip(1) =~= i32_bytes(size) + rest);
    lemma_i32_round_trip(size, rest);
}

/// A length or count on the wire that is negative, or above the ceiling, is
/// refused wherever it is read, whatever follows it.
pub proof fn lemma_bad_size_rejected(size: i32, rest: Seq<u8>, limit: nat)
    requires
        checked_size(size, limit) is Err,
    ensures
        parse_binary(i32_bytes(size) + rest, limit) == Err::<
            (Seq<u8>, nat),
            ProtocolExceptionType,
        >(checked_size(size, limit)->Err_0),
        parse_string(i32_bytes(size) + rest, limit) == Err::<
            (Seq<char>, nat),
            ProtocolExceptionType,
        >(checked_size(size, limit)->Err_0),
{
    lemma_i32_round_trip(size, rest);
}

/// What follows raw bytes does not change how they read: where a stream gives
/// them, or refuses them for another reason than want of bytes, every longer
/// stream does the same.
pub proof fn lemma_parse_binary_more(input: Seq<u8>, more: Seq<u8>, limit: nat)
    requires
        parse_binary(input, limit) != Err::<(Seq<u8>, nat), ProtocolExceptionType>(
            ProtocolExceptionType::Underrun,
        ),
    ensures
        parse_binary(input + more, limit) == parse_binary(input, limit),
{
    if parse_binary(input, limit) is Ok {
        let n = parse_binary(input, limit)->Ok_0.1 as int;
        assert((input + more).subrange(4, n) =~= input.subrange(4, n));
    }
}

/// What follows text does not change how it reads.
pub proof fn lemma_parse_string_more(input: Seq<u8>, more: Seq<u8>, limit: nat)
    requires
        parse_string(input, limit) != Err::<(Seq<char>, nat), ProtocolExceptionType>(
            ProtocolExceptionType::Underrun,
        ),
    ensures
        parse_string(input + more, limit) == parse_string(input, limit),
{
    lemma_parse_binary_more(input, more, limit);
}

} // verus!
