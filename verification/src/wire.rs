//! The byte layout of scalar values.
//!
//! Every multi-byte integer is big-endian and signed integers are in two's
//! complement. The layout is stated here as specification functions on
//! sequences of bytes; the executable encoders and decoders below are proved
//! against them, and so is the rest of the crate.

use crate::protocol::ProtocolExceptionType;
use vstd::prelude::*;

verus! {

/// The unsigned number that stands for `v` in two's complement, where
/// `modulus` is two to the power of the width in bits.
pub open spec fn unsigned_image(v: int, modulus: int) -> int {
    if v < 0 {
        v + modulus
    } else {
        v
    }
}

/// The signed number that the unsigned `n` stands for in two's complement.
pub open spec fn signed_value(n: int, modulus: int) -> int {
    if 2 * n >= modulus {
        n - modulus
    } else {
        n
    }
}

/// The two low-order bytes of `n`, most significant first.
pub open spec fn be2(n: int) -> Seq<u8> {
    seq![(n / 0x100 % 0x100) as u8, (n % 0x100) as u8]
}

/// The four low-order bytes of `n`, most significant first.
pub open spec fn be4(n: int) -> Seq<u8> {
    seq![
        (n / 0x100_0000 % 0x100) as u8,
        (n / 0x1_0000 % 0x100) as u8,
        (n / 0x100 % 0x100) as u8,
        (n % 0x100) as u8,
    ]
}

/// The eight low-order bytes of `n`, most significant first.
pub open spec fn be8(n: int) -> Seq<u8> {
    seq![
        (n / 0x100_0000_0000_0000 % 0x100) as u8,
        (n / 0x1_0000_0000_0000 % 0x100) as u8,
        (n / 0x100_0000_0000 % 0x100) as u8,
        (n / 0x1_0000_0000 % 0x100) as u8,
        (n / 0x100_0000 % 0x100) as u8,
        (n / 0x1_0000 % 0x100) as u8,
        (n / 0x100 % 0x100) as u8,
        (n % 0x100) as u8,
    ]
}

/// The number that the first two bytes of `b` spell, most significant first.
pub open spec fn from_be2(b: Seq<u8>) -> int {
    b[0] as int * 0x100 + b[1] as int
}

/// The number that the first four bytes of `b` spell, most significant first.
pub open spec fn from_be4(b: Seq<u8>) -> int {
    b[0] as int * 0x100_0000 + b[1] as int * 0x1_0000 + b[2] as int * 0x100 + b[3] as int
}

/// The number that the first eight bytes of `b` spell, most significant first.
pub open spec fn from_be8(b: Seq<u8>) -> int {
    b[0] as int * 0x100_0000_0000_0000 + b[1] as int * 0x1_0000_0000_0000 + b[2] as int
        * 0x100_0000_0000 + b[3] as int * 0x1_0000_0000 + b[4] as int * 0x100_0000 + b[5] as int
        * 0x1_0000 + b[6] as int * 0x100 + b[7] as int
}

/// A bool is one byte, 1 for true and 0 for false.
pub open spec fn bool_bytes(v: bool) -> Seq<u8> {
    seq![if v { 1u8 } else { 0u8 }]
}

/// On read, any nonzero first byte is true.
pub open spec fn bool_value(b: Seq<u8>) -> bool {
    b[0] != 0
}

/// A byte is one signed byte.
pub open spec fn byte_bytes(v: i8) -> Seq<u8> {
    seq![unsigned_image(v as int, 0x100) as u8]
}

/// The signed byte at the front of `b`.
pub open spec fn byte_value(b: Seq<u8>) -> i8 {
    signed_value(b[0] as int, 0x100) as i8
}

/// An i16 is two bytes, big-endian.
pub open spec fn i16_bytes(v: i16) -> Seq<u8> {
    be2(unsigned_image(v as int, 0x1_0000))
}

/// The i16 that the first two bytes of `b` hold.
pub open spec fn i16_value(b: Seq<u8>) -> i16 {
    signed_value(from_be2(b), 0x1_0000) as i16
}

/// An i32 is four bytes, big-endian.
pub open spec fn i32_bytes(v: i32) -> Seq<u8> {
    be4(unsigned_image(v as int, 0x1_0000_0000))
}

/// The i32 that the first four bytes of `b` hold.
pub open spec fn i32_value(b: Seq<u8>) -> i32 {
    signed_value(from_be4(b), 0x1_0000_0000) as i32
}

/// An i64 is eight bytes, big-endian.
pub open spec fn i64_bytes(v: i64) -> Seq<u8> {
    be8(unsigned_image(v as int, 0x1_0000_0000_0000_0000))
}

/// The i64 that the first eight bytes of `b` hold.
pub open spec fn i64_value(b: Seq<u8>) -> i64 {
    signed_value(from_be8(b), 0x1_0000_0000_0000_0000) as i64
}

/// A double is the eight bytes of its IEEE-754 binary64 bit pattern,
/// big-endian. The pattern is carried as a `u64`.
pub open spec fn double_bytes(bits: u64) -> Seq<u8> {
    be8(bits as int)
}

/// The binary64 bit pattern that the first eight bytes of `b` hold.
pub open spec fn double_value(b: Seq<u8>) -> u64 {
    from_be8(b) as u64
}

/// Encodes a bool as one byte, exactly 0 or 1.
pub fn encode_bool(v: bool) -> (out: [u8; 1])
    ensures
        out@ == bool_bytes(v),
{
    let b: u8 = if v { 1 } else { 0 };
    let out = [b];
    assert(out@ =~= bool_bytes(v));
    out
}

/// Encodes a signed byte.
pub fn encode_byte(v: i8) -> (out: [u8; 1])
    ensures
        out@ == byte_bytes(v),
{
    let b: u8 = if v < 0 { (v as i16 + 0x100) as u8 } else { v as u8 };
    let out = [b];
    assert(out@ =~= byte_bytes(v));
    out
}

/// Encodes an i16 as two big-endian bytes.
pub fn encode_i16(v: i16) -> (out: [u8; 2])
    ensures
        out@ == i16_bytes(v),
{
    let n: u16 = if v < 0 { (v as i32 + 0x1_0000) as u16 } else { v as u16 };
    let out = [(n / 0x100) as u8, (n % 0x100) as u8];
    assert(out@ =~= i16_bytes(v));
    out
}

/// Encodes an i32 as four big-endian bytes.
pub fn encode_i32(v: i32) -> (out: [u8; 4])
    ensures
        out@ == i32_bytes(v),
{
    let n: u32 = if v < 0 { (v as i64 + 0x1_0000_0000) as u32 } else { v as u32 };
    let out = [
        (n / 0x100_0000) as u8,
        (n / 0x1_0000 % 0x100) as u8,
        (n / 0x100 % 0x100) as u8,
        (n % 0x100) as u8,
    ];
    assert(out@ =~= i32_bytes(v));
    out
}

/// Encodes the bit pattern of a double as eight big-endian bytes.
pub fn encode_double(bits: u64) -> (out: [u8; 8])
    ensures
        out@ == double_bytes(bits),
{
    let n: u64 = bits;
    let out = [
        (n / 0x100_0000_0000_0000) as u8,
        (n / 0x1_0000_0000_0000 % 0x100) as u8,
        (n / 0x100_0000_0000 % 0x100) as u8,
        (n / 0x1_0000_0000 % 0x100) as u8,
        (n / 0x100_0000 % 0x100) as u8,
        (n / 0x1_0000 % 0x100) as u8,
        (n / 0x100 % 0x100) as u8,
        (n % 0x100) as u8,
    ];
    assert(out@ =~= double_bytes(bits));
    out
}

/// Encodes an i64 as eight big-endian bytes.
pub fn encode_i64(v: i64) -> (out: [u8; 8])
    ensures
        out@ == i64_bytes(v),
{
    let n: u64 = if v < 0 {
        (v as i128 + 0x1_0000_0000_0000_0000) as u64
    } else {
        v as u64
    };
    encode_double(n)
}

/// What reading a bool from the front of `input` gives: the value and the
/// number of bytes taken, or an underrun when no byte is left.
pub open spec fn parse_bool(input: Seq<u8>) -> Result<(bool, nat), ProtocolExceptionType> {
    if input.len() < 1 {
        Err(ProtocolExceptionType::Underrun)
    } else {
        Ok((bool_value(input), 1nat))
    }
}

/// What reading a signed byte from the front of `input` gives.
pub open spec fn parse_byte(input: Seq<u8>) -> Result<(i8, nat), ProtocolExceptionType> {
    if input.len() < 1 {
        Err(ProtocolExceptionType::Underrun)
    } else {
        Ok((byte_value(input), 1nat))
    }
}

/// What reading an i16 from the front of `input` gives.
pub open spec fn parse_i16(input: Seq<u8>) -> Result<(i16, nat), ProtocolExceptionType> {
    if input.len() < 2 {
        Err(ProtocolExceptionType::Underrun)
    } else {
        Ok((i16_value(input), 2nat))
    }
}

/// What reading an i32 from the front of `input` gives.
pub open spec fn parse_i32(input: Seq<u8>) -> Result<(i32, nat), ProtocolExceptionType> {
    if input.len() < 4 {
        Err(ProtocolExceptionType::Underrun)
    } else {
        Ok((i32_value(input), 4nat))
    }
}

/// What reading an i64 from the front of `input` gives.
pub open spec fn parse_i64(input: Seq<u8>) -> Result<(i64, nat), ProtocolExceptionType> {
    if input.len() < 8 {
        Err(ProtocolExceptionType::Underrun)
    } else {
        Ok((i64_value(input), 8nat))
    }
}

/// What reading the bit pattern of a double from the front of `input` gives.
pub open spec fn parse_double(input: Seq<u8>) -> Result<(u64, nat), ProtocolExceptionType> {
    if input.len() < 8 {
        Err(ProtocolExceptionType::Underrun)
    } else {
        Ok((double_value(input), 8nat))
    }
}

/// The value of a parse without the count of bytes taken.
pub open spec fn parsed_value<V>(p: Result<(V, nat), ProtocolExceptionType>) -> Result<
    V,
    ProtocolExceptionType,
> {
    match p {
        Ok((v, _)) => Ok(v),
        Err(e) => Err(e),
    }
}

/// Decodes a bool from the front of `input`. Zero is false, anything else true.
pub fn decode_bool(input: &[u8]) -> (r: Result<bool, ProtocolExceptionType>)
    ensures
        r == parsed_value(parse_bool(input@)),
{
    if input.len() < 1 {
        return Err(ProtocolExceptionType::Underrun);
    }
    Ok(input[0] != 0)
}

/// Decodes a signed byte from the front of `input`.
pub fn decode_byte(input: &[u8]) -> (r: Result<i8, ProtocolExceptionType>)
    ensures
        r == parsed_value(parse_byte(input@)),
{
    if input.len() < 1 {
        return Err(ProtocolExceptionType::Underrun);
    }
    let b: u8 = input[0];
    let v: i8 = if b >= 0x80 { (b as i16 - 0x100) as i8 } else { b as i8 };
    Ok(v)
}

/// Decodes a big-endian i16 from the front of `input`.
pub fn decode_i16(input: &[u8]) -> (r: Result<i16, ProtocolExceptionType>)
    ensures
        r == parsed_value(parse_i16(input@)),
{
    if input.len() < 2 {
        return Err(ProtocolExceptionType::Underrun);
    }
    let n: u16 = (input[0] as u16) * 0x100 + input[1] as u16;
    let v: i16 = if n >= 0x8000 { (n as i32 - 0x1_0000) as i16 } else { n as i16 };
    Ok(v)
}

/// Decodes a big-endian i32 from the front of `input`. Fewer than four bytes
/// are an underrun: nothing is padded and no partial value comes back.
pub fn decode_i32(input: &[u8]) -> (r: Result<i32, ProtocolExceptionType>)
    ensures
        r == parsed_value(parse_i32(input@)),
        input@.len() < 4 <==> r == Err::<i32, ProtocolExceptionType>(
            ProtocolExceptionType::Underrun,
        ),
{
    if input.len() < 4 {
        return Err(ProtocolExceptionType::Underrun);
    }
    let n: u32 = (input[0] as u32) * 0x100_0000 + (input[1] as u32) * 0x1_0000 + (input[2] as u32)
        * 0x100 + input[3] as u32;
    let v: i32 = if n >= 0x8000_0000 { (n as i64 - 0x1_0000_0000) as i32 } else { n as i32 };
    Ok(v)
}

/// Decodes the big-endian bit pattern of a double from the front of `input`.
pub fn decode_double(input: &[u8]) -> (r: Result<u64, ProtocolExceptionType>)
    ensures
        r == parsed_value(parse_double(input@)),
{
    if input.len() < 8 {
        return Err(ProtocolExceptionType::Underrun);
    }
    let n: u64 = (input[0] as u64) * 0x100_0000_0000_0000 + (input[1] as u64) * 0x1_0000_0000_0000
        + (input[2] as u64) * 0x100_0000_0000 + (input[3] as u64) * 0x1_0000_0000 + (
    input[4] as u64) * 0x100_0000 + (input[5] as u64) * 0x1_0000 + (input[6] as u64) * 0x100
        + input[7] as u64;
    Ok(n)
}

/// Decodes a big-endian i64 from the front of `input`.
pub fn decode_i64(input: &[u8]) -> (r: Result<i64, ProtocolExceptionType>)
    ensures
        r == parsed_value(parse_i64(input@)),
{
    match decode_double(input) {
        Err(e) => Err(e),
        Ok(n) => {
            let v: i64 = if n >= 0x8000_0000_0000_0000 {
                (n as i128 - 0x1_0000_0000_0000_0000) as i64
            } else {
                n as i64
            };
            Ok(v)
        },
    }
}

/// A bool that was written is read back, whatever follows it in the stream.
pub proof fn lemma_bool_round_trip(v: bool, rest: Seq<u8>)
    ensures
        bool_bytes(v).len() == 1,
        parse_bool(bool_bytes(v) + rest) == Ok::<(bool, nat), ProtocolExceptionType>((v, 1nat)),
{
}

/// A byte that was written is read back, whatever follows it in the stream.
pub proof fn lemma_byte_round_trip(v: i8, rest: Seq<u8>)
    ensures
        byte_bytes(v).len() == 1,
        parse_byte(byte_bytes(v) + rest) == Ok::<(i8, nat), ProtocolExceptionType>((v, 1nat)),
{
}

/// An i16 that was written is read back, whatever follows it in the stream.
pub proof fn lemma_i16_round_trip(v: i16, rest: Seq<u8>)
    ensures
        i16_bytes(v).len() == 2,
        parse_i16(i16_bytes(v) + rest) == Ok::<(i16, nat), ProtocolExceptionType>((v, 2nat)),
{
}

/// An i32 that was written is read back, whatever follows it in the stream.
pub proof fn lemma_i32_round_trip(v: i32, rest: Seq<u8>)
    ensures
        i32_bytes(v).len() == 4,
        parse_i32(i32_bytes(v) + rest) == Ok::<(i32, nat), ProtocolExceptionType>((v, 4nat)),
{
}

/// The eight base-256 digits of `n`, weighted by their places, add up to `n`.
proof fn lemma_digits_compose(n: u64)
    by (bit_vector)
    ensures
        (n / 0x100_0000_0000_0000 % 0x100) * 0x100_0000_0000_0000 + (n / 0x1_0000_0000_0000
            % 0x100) * 0x1_0000_0000_0000 + (n / 0x100_0000_0000 % 0x100) * 0x100_0000_0000 + (n
            / 0x1_0000_0000 % 0x100) * 0x1_0000_0000 + (n / 0x100_0000 % 0x100) * 0x100_0000 + (n
            / 0x1_0000 % 0x100) * 0x1_0000 + (n / 0x100 % 0x100) * 0x100 + n % 0x100 == n,
{
}

/// Eight bytes weighted by their places give a number whose base-256 digits
/// are those bytes.
proof fn lemma_digits_decompose(
    b0: u8,
    b1: u8,
    b2: u8,
    b3: u8,
    b4: u8,
    b5: u8,
    b6: u8,
    b7: u8,
    n: u64,
)
    by (bit_vector)
    requires
        n == b0 * 0x100_0000_0000_0000 + b1 * 0x1_0000_0000_0000 + b2 * 0x100_0000_0000 + b3
            * 0x1_0000_0000 + b4 * 0x100_0000 + b5 * 0x1_0000 + b6 * 0x100 + b7,
    ensures
        n / 0x100_0000_0000_0000 % 0x100 == b0,
        n / 0x1_0000_0000_0000 % 0x100 == b1,
        n / 0x100_0000_0000 % 0x100 == b2,
        n / 0x1_0000_0000 % 0x100 == b3,
        n / 0x100_0000 % 0x100 == b4,
        n / 0x1_0000 % 0x100 == b5,
        n / 0x100 % 0x100 == b6,
        n % 0x100 == b7,
{
}

/// The bit pattern of a double that was written is read back unchanged,
/// whatever follows it in the stream.
pub proof fn lemma_double_round_trip(bits: u64, rest: Seq<u8>)
    ensures
        double_bytes(bits).len() == 8,
        parse_double(double_bytes(bits) + rest) == Ok::<(u64, nat), ProtocolExceptionType>(
            (bits, 8nat),
        ),
{
    lemma_digits_compose(bits);
    let b = double_bytes(bits) + rest;
    assert(from_be8(b) == bits as int);
}

/// An i64 that was written is read back, whatever follows it in the stream.
pub proof fn lemma_i64_round_trip(v: i64, rest: Seq<u8>)
    ensures
        i64_bytes(v).len() == 8,
        parse_i64(i64_bytes(v) + rest) == Ok::<(i64, nat), ProtocolExceptionType>((v, 8nat)),
{
    let n = unsigned_image(v as int, 0x1_0000_0000_0000_0000) as u64;
    assert(i64_bytes(v) == double_bytes(n));
    lemma_double_round_trip(n, rest);
}

/// A byte has one encoding only: the byte that was read is the byte that
/// writing the value gives.
pub proof fn lemma_byte_bytes_unique(b: Seq<u8>)
    requires
        b.len() == 1,
    ensures
        byte_bytes(byte_value(b)) == b,
{
    assert(byte_bytes(byte_value(b)) =~= b);
}

/// An i16 has one encoding only.
pub proof fn lemma_i16_bytes_unique(b: Seq<u8>)
    requires
        b.len() == 2,
    ensures
        i16_bytes(i16_value(b)) == b,
{
    assert(i16_bytes(i16_value(b)) =~= b);
}

/// An i32 has one encoding only.
pub proof fn lemma_i32_bytes_unique(b: Seq<u8>)
    requires
        b.len() == 4,
    ensures
        i32_bytes(i32_value(b)) == b,
{
    let n = (b[0] as u64) * 0x100_0000 + (b[1] as u64) * 0x1_0000 + (b[2] as u64) * 0x100
        + b[3] as u64;
    lemma_digits_decompose(0, 0, 0, 0, b[0], b[1], b[2], b[3], n as u64);
    assert(from_be4(b) == n);
    assert(unsigned_image(i32_value(b) as int, 0x1_0000_0000) == n);
    assert(i32_bytes(i32_value(b)) =~= b);
}

/// The bit pattern of a double has one encoding only.
pub proof fn lemma_double_bytes_unique(b: Seq<u8>)
    requires
        b.len() == 8,
    ensures
        double_bytes(double_value(b)) == b,
{
    let n = double_value(b);
    assert(n == from_be8(b));
    lemma_digits_decompose(b[0], b[1], b[2], b[3], b[4], b[5], b[6], b[7], n);
    assert(double_bytes(n) =~= b);
}

/// An i64 has one encoding only.
pub proof fn lemma_i64_bytes_unique(b: Seq<u8>)
    requires
        b.len() == 8,
    ensures
        i64_bytes(i64_value(b)) == b,
{
    let n = double_value(b);
    let v = i64_value(b);
    assert(n == from_be8(b));
    assert(unsigned_image(v as int, 0x1_0000_0000_0000_0000) == n as int);
    assert(i64_bytes(v) == double_bytes(n));
    lemma_double_bytes_unique(b);
}

} // verus!
