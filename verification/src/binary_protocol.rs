//! The binary codec: the protocol operations in the fixed binary layout, over
//! a transport that the codec owns.

use crate::frame::{
    binary_bytes, check_size, check_version, decode_message_kind, decode_text,
    encode_message_header, field_begin_bytes, field_stop_bytes, lemma_parse_string_more,
    list_begin_bytes, map_begin_bytes, message_begin_bytes, message_header, parse_binary,
    parse_field_begin, parse_list_begin, parse_map_begin, parse_message_begin, parse_string,
    parse_type, string_bytes, type_bytes, MAX_SIZE,
};
use crate::protocol::{MessageType, Protocol, ProtocolExceptionType, Type};
use crate::transport::Transport;
use crate::wire::{
    bool_bytes, byte_bytes, decode_bool, decode_byte, decode_double, decode_i16, decode_i32,
    decode_i64, double_bytes, encode_bool, encode_byte, encode_double, encode_i16, encode_i32,
    encode_i64, i16_bytes, i32_bytes, i64_bytes, parse_bool, parse_byte, parse_double, parse_i16,
    parse_i32, parse_i64, parsed_value,
};
use vstd::prelude::*;
use vstd::utf8::encode_utf8;

verus! {

/// The binary codec over a transport of type `T`.
///
/// The codec buffers nothing and keeps no state between calls but the
/// transport and the ceiling on decoded sizes. For the sake of its contracts
/// it also records, as ghost state, the bytes that passed between it and the
/// transport.
pub struct BinaryProtocol<T: Transport> {
    transport: T,
    size_limit: usize,
    received: Ghost<Seq<u8>>,
    sent: Ghost<Seq<u8>>,
}

impl<T: Transport> BinaryProtocol<T> {
    /// The bytes that the transport has supplied to this codec, in order.
    pub closed spec fn received(&self) -> Seq<u8> {
        self.received@
    }

    /// The bytes that the transport has accepted from this codec, in order.
    pub closed spec fn sent(&self) -> Seq<u8> {
        self.sent@
    }

    /// The largest length or element count that a read accepts.
    pub closed spec fn limit(&self) -> nat {
        self.size_limit as nat
    }

    /// Whether the transport is reliable.
    pub closed spec fn reliable(&self) -> bool {
        self.transport.reliable()
    }

    /// The bytes that a reliable transport can still supply.
    pub closed spec fn incoming(&self) -> Seq<u8> {
        self.transport.incoming()
    }

    /// The bytes that a reliable transport has been given.
    pub closed spec fn outgoing(&self) -> Seq<u8> {
        self.transport.outgoing()
    }

    /// The bytes received between this state and the later state `after`.
    pub open spec fn got(self, after: Self) -> Seq<u8> {
        after.received().skip(self.received().len() as int)
    }

    /// The bytes sent between this state and the later state `after`.
    pub open spec fn put_out(self, after: Self) -> Seq<u8> {
        after.sent().skip(self.sent().len() as int)
    }

    /// What every operation keeps: the ceiling stays, the records of what was
    /// received and sent only grow, and a reliable transport stays reliable
    /// and holds what the records say.
    pub open spec fn steps_to(self, after: Self) -> bool {
        &&& after.limit() == self.limit()
        &&& after.reliable() == self.reliable()
        &&& after.received() == self.received() + self.got(after)
        &&& after.sent() == self.sent() + self.put_out(after)
        &&& self.reliable() ==> {
            &&& self.incoming() == self.got(after) + after.incoming()
            &&& after.incoming() == self.incoming().skip(self.got(after).len() as int)
            &&& after.outgoing() == self.outgoing() + self.put_out(after)
        }
    }

    /// What a write of `bytes` does. Nothing is read. On success exactly
    /// `bytes` were sent; on failure, which is the transport's, some of their
    /// front was. A reliable transport does not fail.
    pub open spec fn wrote(
        self,
        after: Self,
        r: Result<(), ProtocolExceptionType>,
        bytes: Seq<u8>,
    ) -> bool {
        &&& self.steps_to(after)
        &&& self.got(after) == Seq::<u8>::empty()
        &&& match r {
            Ok(()) => self.put_out(after) == bytes,
            Err(e) => {
                &&& e == ProtocolExceptionType::WriteFailed
                &&& self.put_out(after).is_prefix_of(bytes)
                &&& !self.reliable()
            },
        }
    }

    /// What a read does, where `parse` is what the layout says of a stream.
    /// Nothing is written. On success the bytes received are those of the
    /// value, no more. A failure is the one that the layout gives for the
    /// bytes received, or an underrun where the transport gave no more. Over
    /// a reliable transport the result is what the layout says of the
    /// incoming bytes, no less.
    pub open spec fn read_as<V>(
        self,
        after: Self,
        r: Result<V, ProtocolExceptionType>,
        parse: spec_fn(Seq<u8>) -> Result<(V, nat), ProtocolExceptionType>,
    ) -> bool {
        &&& self.steps_to(after)
        &&& self.put_out(after) == Seq::<u8>::empty()
        &&& match r {
            Ok(v) => parse(self.got(after)) == Ok::<(V, nat), ProtocolExceptionType>(
                (v, self.got(after).len()),
            ),
            Err(e) => {
                ||| e == ProtocolExceptionType::Underrun
                ||| parse(self.got(after)) == Err::<(V, nat), ProtocolExceptionType>(e)
            },
        }
        &&& self.reliable() ==> r == parsed_value(parse(self.incoming()))
    }

    /// A codec over `transport` that accepts every size the layout can express.
    pub fn new(transport: T) -> (p: BinaryProtocol<T>)
        ensures
            p.received() == Seq::<u8>::empty(),
            p.sent() == Seq::<u8>::empty(),
            p.limit() == MAX_SIZE,
            p.reliable() == transport.reliable(),
            p.incoming() == transport.incoming(),
            p.outgoing() == transport.outgoing(),
    {
        BinaryProtocol {
            transport,
            size_limit: MAX_SIZE,
            received: Ghost(Seq::empty()),
            sent: Ghost(Seq::empty()),
        }
    }

    /// A codec over `transport` that refuses decoded lengths and element
    /// counts above `size_limit`.
    pub fn with_size_limit(transport: T, size_limit: usize) -> (p: BinaryProtocol<T>)
        ensures
            p.received() == Seq::<u8>::empty(),
            p.sent() == Seq::<u8>::empty(),
            p.limit() == size_limit,
            p.reliable() == transport.reliable(),
            p.incoming() == transport.incoming(),
            p.outgoing() == transport.outgoing(),
    {
        BinaryProtocol {
            transport,
            size_limit,
            received: Ghost(Seq::empty()),
            sent: Ghost(Seq::empty()),
        }
    }

    /// Gives the transport back.
    pub fn into_transport(self) -> (transport: T)
        ensures
            transport.reliable() == self.reliable(),
            transport.incoming() == self.incoming(),
            transport.outgoing() == self.outgoing(),
    {
        self.transport
    }

    /// Hands `bytes` to the transport in one call.
    fn put(&mut self, bytes: &[u8]) -> (r: Result<(), ProtocolExceptionType>)
        ensures
            old(self).wrote(*final(self), r, bytes@),
    {
        match self.transport.write(bytes) {
            Ok(()) => {
                self.sent = Ghost(self.sent@ + bytes@);
                proof {
                    assert(old(self).put_out(*self) =~= bytes@);
                    assert(old(self).got(*self) =~= Seq::<u8>::empty());
                    assert(self.received() =~= old(self).received() + old(self).got(*self));
                    assert(old(self).incoming().skip(0) =~= old(self).incoming());
                }
                Ok(())
            },
            Err(_) => {
                proof {
                    assert(old(self).put_out(*self) =~= Seq::<u8>::empty());
                    assert(old(self).got(*self) =~= Seq::<u8>::empty());
                    assert(self.received() =~= old(self).received() + old(self).got(*self));
                    assert(self.sent() =~= old(self).sent() + old(self).put_out(*self));
                    assert(old(self).incoming().skip(0) =~= old(self).incoming());
                }
                Err(ProtocolExceptionType::WriteFailed)
            },
        }
    }

    /// Asks the transport for exactly `n` bytes in one call, and takes
    /// nothing else for an answer.
    fn take(&mut self, n: usize) -> (r: Result<Vec<u8>, ProtocolExceptionType>)
        ensures
            old(self).steps_to(*final(self)),
            old(self).put_out(*final(self)) == Seq::<u8>::empty(),
            match r {
                Ok(bytes) => bytes@.len() == n && old(self).got(*final(self)) == bytes@,
                Err(e) => {
                    &&& e == ProtocolExceptionType::Underrun
                    &&& old(self).got(*final(self)) == Seq::<u8>::empty()
                    &&& old(self).reliable() ==> n > old(self).incoming().len()
                },
            },
    {
        let r = match self.transport.read_exact(n) {
            Ok(bytes) => {
                if bytes.len() == n {
                    self.received = Ghost(self.received@ + bytes@);
                    Ok(bytes)
                } else {
                    Err(ProtocolExceptionType::Underrun)
                }
            },
            Err(_) => Err(ProtocolExceptionType::Underrun),
        };
        proof {
            assert(old(self).put_out(*self) =~= Seq::<u8>::empty());
            assert(self.sent() =~= old(self).sent() + old(self).put_out(*self));
            if r is Ok {
                let bytes = r->Ok_0@;
                assert(old(self).got(*self) =~= bytes);
                if old(self).reliable() {
                    assert(old(self).incoming() =~= bytes + self.incoming());
                }
            } else {
                assert(old(self).got(*self) =~= Seq::<u8>::empty());
                assert(self.received() =~= old(self).received() + old(self).got(*self));
                if old(self).reliable() {
                    assert(old(self).incoming() =~= old(self).got(*self) + self.incoming());
                    assert(old(self).incoming().skip(0) =~= old(self).incoming());
                }
            }
        }
        r
    }

    /// Two steps in a row are a step, and what passed in it is what passed
    /// in the first and then in the second.
    proof fn lemma_steps_then(self, mid: Self, after: Self)
        requires
            self.steps_to(mid),
            mid.steps_to(after),
        ensures
            self.steps_to(after),
            self.got(after) == self.got(mid) + mid.got(after),
            self.put_out(after) == self.put_out(mid) + mid.put_out(after),
    {
        assert(self.got(after) =~= self.got(mid) + mid.got(after));
        assert(self.put_out(after) =~= self.put_out(mid) + mid.put_out(after));
        assert(after.received() =~= self.received() + self.got(after));
        assert(after.sent() =~= self.sent() + self.put_out(after));
        if self.reliable() {
            assert(self.incoming() =~= self.got(after) + after.incoming());
            assert(after.incoming() =~= self.incoming().skip(self.got(after).len() as int));
            assert(after.outgoing() =~= self.outgoing() + self.put_out(after));
        }
    }

    /// A write of `first` that succeeded and then a write of `second` are a
    /// write of both.
    proof fn lemma_wrote_then(
        self,
        mid: Self,
        after: Self,
        r: Result<(), ProtocolExceptionType>,
        first: Seq<u8>,
        second: Seq<u8>,
    )
        requires
            self.wrote(mid, Ok(()), first),
            mid.wrote(after, r, second),
        ensures
            self.wrote(after, r, first + second),
    {
        self.lemma_steps_then(mid, after);
        assert(self.got(after) =~= Seq::<u8>::empty());
    }

    /// A write of `first` that failed is a failed write of `first` and more.
    proof fn lemma_wrote_less(
        self,
        after: Self,
        e: ProtocolExceptionType,
        first: Seq<u8>,
        second: Seq<u8>,
    )
        requires
            self.wrote(after, Err(e), first),
        ensures
            self.wrote(after, Err(e), first + second),
    {
    }

    /// Writes a type tag as one byte.
    pub fn write_type(&mut self, type_: Type) -> (r: Result<(), ProtocolExceptionType>)
        ensures
            old(self).wrote(*final(self), r, type_bytes(type_)),
    {
        self.put(encode_byte(type_.to_i8()).as_slice())
    }

    /// Reads a type tag. A byte outside the closed set of tags is an error.
    pub fn read_type(&mut self) -> (r: Result<Type, ProtocolExceptionType>)
        ensures
            old(self).read_as(*final(self), r, |input: Seq<u8>| parse_type(input)),
    {
        match self.take(1) {
            Err(e) => Err(e),
            Ok(bytes) => match decode_byte(bytes.as_slice()) {
                Err(e) => Err(e),
                Ok(raw) => Type::from_i8(raw),
            },
        }
    }
}

/// The result of a read of raw bytes, with the bytes as a sequence.
pub open spec fn bytes_view(r: Result<Vec<u8>, ProtocolExceptionType>) -> Result<
    Seq<u8>,
    ProtocolExceptionType,
> {
    match r {
        Ok(bytes) => Ok(bytes@),
        Err(e) => Err(e),
    }
}

/// The result of a read of text, with the text as a sequence of characters.
pub open spec fn text_view(r: Result<String, ProtocolExceptionType>) -> Result<
    Seq<char>,
    ProtocolExceptionType,
> {
    match r {
        Ok(text) => Ok(text@),
        Err(e) => Err(e),
    }
}

/// The result of a read of a message's beginning, with the name as a
/// sequence of characters.
pub open spec fn message_view(
    r: Result<(String, MessageType, i32), ProtocolExceptionType>,
) -> Result<(Seq<char>, MessageType, i32), ProtocolExceptionType> {
    match r {
        Ok((name, kind, sequence_id)) => Ok((name@, kind, sequence_id)),
        Err(e) => Err(e),
    }
}

/// The result of a read of a field header, without the name.
pub open spec fn field_view(r: Result<(String, Type, i16), ProtocolExceptionType>) -> Result<
    (Type, i16),
    ProtocolExceptionType,
> {
    match r {
        Ok((_, field_type, field_id)) => Ok((field_type, field_id)),
        Err(e) => Err(e),
    }
}

impl<T: Transport> Protocol for BinaryProtocol<T> {
    /// Writes the header, the name and the sequence id of a message. A name
    /// too long for the layout is refused before anything is written.
    fn write_message_begin(
        &mut self,
        name: &str,
        message_type: MessageType,
        sequence_id: i32,
    ) -> (r: Result<(), ProtocolExceptionType>)
        ensures
            encode_utf8(name@).len() > MAX_SIZE ==> r == Err::<(), ProtocolExceptionType>(
                ProtocolExceptionType::SizeLimit,
            ) && *final(self) == *old(self),
            encode_utf8(name@).len() <= MAX_SIZE ==> old(self).wrote(
                *final(self),
                r,
                message_begin_bytes(name@, message_type, sequence_id),
            ),
    {
        let name_bytes = name.as_bytes();
        if name_bytes.len() > MAX_SIZE {
            return Err(ProtocolExceptionType::SizeLimit);
        }
        let ghost head = i32_bytes(message_header(message_type));
        let ghost text = string_bytes(name@);
        let ghost tail = i32_bytes(sequence_id);
        let ghost before = *self;
        match self.write_i32(encode_message_header(message_type)) {
            Err(e) => {
                proof {
                    before.lemma_wrote_less(*self, e, head, text + tail);
                    assert(head + (text + tail) =~= head + text + tail);
                }
                Err(e)
            },
            Ok(()) => {
                let ghost named = *self;
                match self.write_binary(name_bytes) {
                    Err(e) => {
                        proof {
                            before.lemma_wrote_then(named, *self, Err(e), head, text);
                            before.lemma_wrote_less(*self, e, head + text, tail);
                        }
                        Err(e)
                    },
                    Ok(()) => {
                        let ghost numbered = *self;
                        let r = self.write_i32(sequence_id);
                        proof {
                            before.lemma_wrote_then(named, numbered, Ok(()), head, text);
                            before.lemma_wrote_then(numbered, *self, r, head + text, tail);
                        }
                        r
                    },
                }
            },
        }
    }

    /// The end of a message carries no bytes.
    fn write_message_end(&mut self) -> (r: Result<(), ProtocolExceptionType>)
        ensures
            r is Ok,
            *final(self) == *old(self),
    {
        Ok(())
    }

    /// The beginning of a struct carries no bytes: a struct is its fields and
    /// the stop tag after them.
    fn write_struct_begin(&mut self, _name: &str) -> (r: Result<(), ProtocolExceptionType>)
        ensures
            r is Ok,
            *final(self) == *old(self),
    {
        Ok(())
    }

    /// The end of a struct carries no bytes.
    fn write_struct_end(&mut self) -> (r: Result<(), ProtocolExceptionType>)
        ensures
            r is Ok,
            *final(self) == *old(self),
    {
        Ok(())
    }

    /// Writes the type tag and the id of a field. The name is not written.
    fn write_field_begin(&mut self, _name: &str, field_type: Type, field_id: i16) -> (r: Result<
        (),
        ProtocolExceptionType,
    >)
        ensures
            old(self).wrote(*final(self), r, field_begin_bytes(field_type, field_id)),
    {
        let ghost before = *self;
        match self.write_type(field_type) {
            Err(e) => {
                proof {
                    before.lemma_wrote_less(*self, e, type_bytes(field_type), i16_bytes(field_id));
                }
                Err(e)
            },
            Ok(()) => {
                let ghost mid = *self;
                let r = self.write_i16(field_id);
                proof {
                    before.lemma_wrote_then(
                        mid,
                        *self,
                        r,
                        type_bytes(field_type),
                        i16_bytes(field_id),
                    );
                }
                r
            },
        }
    }

    /// The end of a field carries no bytes.
    fn write_field_end(&mut self) -> (r: Result<(), ProtocolExceptionType>)
        ensures
            r is Ok,
            *final(self) == *old(self),
    {
        Ok(())
    }

    /// Writes the stop tag that ends the fields of a struct.
    fn write_field_stop(&mut self) -> (r: Result<(), ProtocolExceptionType>)
        ensures
            old(self).wrote(*final(self), r, field_stop_bytes()),
    {
        self.write_type(Type::TStop)
    }

    /// Writes the key type, the value type and the element count of a map.
    fn write_map_begin(&mut self, key_type: Type, value_type: Type, size: i32) -> (r: Result<
        (),
        ProtocolExceptionType,
    >)
        ensures
            old(self).wrote(*final(self), r, map_begin_bytes(key_type, value_type, size)),
    {
        let ghost key = type_bytes(key_type);
        let ghost value = type_bytes(value_type);
        let ghost count = i32_bytes(size);
        let ghost before = *self;
        match self.write_type(key_type) {
            Err(e) => {
                proof {
                    before.lemma_wrote_less(*self, e, key, value + count);
                    assert(key + (value + count) =~= key + value + count);
                }
                Err(e)
            },
            Ok(()) => {
                let ghost keyed = *self;
                match self.write_type(value_type) {
                    Err(e) => {
                        proof {
                            before.lemma_wrote_then(keyed, *self, Err(e), key, value);
                            before.lemma_wrote_less(*self, e, key + value, count);
                        }
                        Err(e)
                    },
                    Ok(()) => {
                        let ghost valued = *self;
                        let r = self.write_i32(size);
                        proof {
                            before.lemma_wrote_then(keyed, valued, Ok(()), key, value);
                            before.lemma_wrote_then(valued, *self, r, key + value, count);
                        }
                        r
                    },
                }
            },
        }
    }

    /// The end of a map carries no bytes.
    fn write_map_end(&mut self) -> (r: Result<(), ProtocolExceptionType>)
        ensures
            r is Ok,
            *final(self) == *old(self),
    {
        Ok(())
    }

    /// Writes the element type and the element count of a list.
    fn write_list_begin(&mut self, elem_type: Type, size: i32) -> (r: Result<
        (),
        ProtocolExceptionType,
    >)
        ensures
            old(self).wrote(*final(self), r, list_begin_bytes(elem_type, size)),
    {
        let ghost before = *self;
        match self.write_type(elem_type) {
            Err(e) => {
                proof {
                    before.lemma_wrote_less(*self, e, type_bytes(elem_type), i32_bytes(size));
                }
                Err(e)
            },
            Ok(()) => {
                let ghost mid = *self;
                let r = self.write_i32(size);
                proof {
                    before.lemma_wrote_then(mid, *self, r, type_bytes(elem_type), i32_bytes(size));
                }
                r
            },
        }
    }

    /// The end of a list carries no bytes.
    fn write_list_end(&mut self) -> (r: Result<(), ProtocolExceptionType>)
        ensures
            r is Ok,
            *final(self) == *old(self),
    {
        Ok(())
    }

    /// Writes the element type and the element count of a set, as for a list.
    fn write_set_begin(&mut self, elem_type: Type, size: i32) -> (r: Result<
        (),
        ProtocolExceptionType,
    >)
        ensures
            old(self).wrote(*final(self), r, list_begin_bytes(elem_type, size)),
    {
        self.write_list_begin(elem_type, size)
    }

    /// The end of a set carries no bytes.
    fn write_set_end(&mut self) -> (r: Result<(), ProtocolExceptionType>)
        ensures
            r is Ok,
            *final(self) == *old(self),
    {
        Ok(())
    }

    /// Writes a bool as one byte, 0 or 1.
    fn write_bool(&mut self, value: bool) -> (r: Result<(), ProtocolExceptionType>)
        ensures
            old(self).wrote(*final(self), r, bool_bytes(value)),
    {
        self.put(encode_bool(value).as_slice())
    }

    /// Writes a signed byte.
    fn write_byte(&mut self, value: i8) -> (r: Result<(), ProtocolExceptionType>)
        ensures
            old(self).wrote(*final(self), r, byte_bytes(value)),
    {
        self.put(encode_byte(value).as_slice())
    }

    /// Writes an i16 as two big-endian bytes.
    fn write_i16(&mut self, value: i16) -> (r: Result<(), ProtocolExceptionType>)
        ensures
            old(self).wrote(*final(self), r, i16_bytes(value)),
    {
        self.put(encode_i16(value).as_slice())
    }

    /// Writes an i32 as four big-endian bytes.
    fn write_i32(&mut self, value: i32) -> (r: Result<(), ProtocolExceptionType>)
        ensures
            old(self).wrote(*final(self), r, i32_bytes(value)),
    {
        self.put(encode_i32(value).as_slice())
    }

    /// Writes an i64 as eight big-endian bytes.
    fn write_i64(&mut self, value: i64) -> (r: Result<(), ProtocolExceptionType>)
        ensures
            old(self).wrote(*final(self), r, i64_bytes(value)),
    {
        self.put(encode_i64(value).as_slice())
    }

    /// Writes the bit pattern of a double as eight big-endian bytes.
    fn write_double(&mut self, bits: u64) -> (r: Result<(), ProtocolExceptionType>)
        ensures
            old(self).wrote(*final(self), r, double_bytes(bits)),
    {
        self.put(encode_double(bits).as_slice())
    }

    /// Writes text as the length of its UTF-8 encoding and then the encoding.
    /// Text too long for the layout is refused before anything is written.
    fn write_string(&mut self, value: &str) -> (r: Result<(), ProtocolExceptionType>)
        ensures
            encode_utf8(value@).len() > MAX_SIZE ==> r == Err::<(), ProtocolExceptionType>(
                ProtocolExceptionType::SizeLimit,
            ) && *final(self) == *old(self),
            encode_utf8(value@).len() <= MAX_SIZE ==> old(self).wrote(
                *final(self),
                r,
                string_bytes(value@),
            ),
    {
        self.write_binary(value.as_bytes())
    }

    /// Writes raw bytes as their length and then the bytes. More bytes than
    /// the layout can count are refused before anything is written.
    fn write_binary(&mut self, value: &[u8]) -> (r: Result<(), ProtocolExceptionType>)
        ensures
            value@.len() > MAX_SIZE ==> r == Err::<(), ProtocolExceptionType>(
                ProtocolExceptionType::SizeLimit,
            ) && *final(self) == *old(self),
            value@.len() <= MAX_SIZE ==> old(self).wrote(*final(self), r, binary_bytes(value@)),
    {
        if value.len() > MAX_SIZE {
            return Err(ProtocolExceptionType::SizeLimit);
        }
        let ghost before = *self;
        match self.write_i32(value.len() as i32) {
            Err(e) => {
                proof {
                    before.lemma_wrote_less(*self, e, i32_bytes(value@.len() as i32), value@);
                }
                Err(e)
            },
            Ok(()) => {
                let ghost mid = *self;
                let r = self.put(value);
                proof {
                    before.lemma_wrote_then(mid, *self, r, i32_bytes(value@.len() as i32), value@);
                }
                r
            },
        }
    }

    /// The end of a message carries no bytes.
    fn read_message_end(&mut self) -> (r: Result<(), ProtocolExceptionType>)
        ensures
            r is Ok,
            *final(self) == *old(self),
    {
        Ok(())
    }

    /// The beginning of a struct carries no bytes, and so no name.
    fn read_struct_begin(&mut self) -> (r: Result<String, ProtocolExceptionType>)
        ensures
            r matches Ok(name) && name@ == Seq::<char>::empty(),
            *final(self) == *old(self),
    {
        Ok(String::new())
    }

    /// The end of a struct carries no bytes.
    fn read_struct_end(&mut self) -> (r: Result<(), ProtocolExceptionType>)
        ensures
            r is Ok,
            *final(self) == *old(self),
    {
        Ok(())
    }

    /// The end of a field carries no bytes.
    fn read_field_end(&mut self) -> (r: Result<(), ProtocolExceptionType>)
        ensures
            r is Ok,
            *final(self) == *old(self),
    {
        Ok(())
    }

    /// The end of a map carries no bytes.
    fn read_map_end(&mut self) -> (r: Result<(), ProtocolExceptionType>)
        ensures
            r is Ok,
            *final(self) == *old(self),
    {
        Ok(())
    }

    /// The end of a list carries no bytes.
    fn read_list_end(&mut self) -> (r: Result<(), ProtocolExceptionType>)
        ensures
            r is Ok,
            *final(self) == *old(self),
    {
        Ok(())
    }

    /// The end of a set carries no bytes.
    fn read_set_end(&mut self) -> (r: Result<(), ProtocolExceptionType>)
        ensures
            r is Ok,
            *final(self) == *old(self),
    {
        Ok(())
    }

    /// Reads a bool: one byte, true unless it is 0.
    fn read_bool(&mut self) -> (r: Result<bool, ProtocolExceptionType>)
        ensures
            old(self).read_as(*final(self), r, |input: Seq<u8>| parse_bool(input)),
    {
        match self.take(1) {
            Err(e) => Err(e),
            Ok(bytes) => decode_bool(bytes.as_slice()),
        }
    }

    /// Reads a signed byte.
    fn read_byte(&mut self) -> (r: Result<i8, ProtocolExceptionType>)
        ensures
            old(self).read_as(*final(self), r, |input: Seq<u8>| parse_byte(input)),
    {
        match self.take(1) {
            Err(e) => Err(e),
            Ok(bytes) => decode_byte(bytes.as_slice()),
        }
    }

    /// Reads a big-endian i16.
    fn read_i16(&mut self) -> (r: Result<i16, ProtocolExceptionType>)
        ensures
            old(self).read_as(*final(self), r, |input: Seq<u8>| parse_i16(input)),
    {
        match self.take(2) {
            Err(e) => Err(e),
            Ok(bytes) => decode_i16(bytes.as_slice()),
        }
    }

    /// Reads a big-endian i32. Where fewer than four bytes can be had the read is an
    /// underrun: no partial value comes back.
    fn read_i32(&mut self) -> (r: Result<i32, ProtocolExceptionType>)
        ensures
            old(self).read_as(*final(self), r, |input: Seq<u8>| parse_i32(input)),
            old(self).reliable() && old(self).incoming().len() < 4 ==> r == Err::<
                i32,
                ProtocolExceptionType,
            >(ProtocolExceptionType::Underrun),
    {
        match self.take(4) {
            Err(e) => Err(e),
            Ok(bytes) => decode_i32(bytes.as_slice()),
        }
    }

    /// Reads a big-endian i64.
    fn read_i64(&mut self) -> (r: Result<i64, ProtocolExceptionType>)
        ensures
            old(self).read_as(*final(self), r, |input: Seq<u8>| parse_i64(input)),
    {
        match self.take(8) {
            Err(e) => Err(e),
            Ok(bytes) => decode_i64(bytes.as_slice()),
        }
    }

    /// Reads the bit pattern of a double.
    fn read_double(&mut self) -> (r: Result<u64, ProtocolExceptionType>)
        ensures
            old(self).read_as(*final(self), r, |input: Seq<u8>| parse_double(input)),
    {
        match self.take(8) {
            Err(e) => Err(e),
            Ok(bytes) => decode_double(bytes.as_slice()),
        }
    }

    /// Reads raw bytes: a length, which must be neither negative nor above
    /// the ceiling, and then that many bytes.
    fn read_binary(&mut self) -> (r: Result<Vec<u8>, ProtocolExceptionType>)
        ensures
            old(self).read_as(
                *final(self),
                bytes_view(r),
                |input: Seq<u8>| parse_binary(input, old(self).limit()),
            ),
    {
        let ghost before = *self;
        let size = self.read_i32()?;
        let ghost sized = *self;
        let len = check_size(size, self.size_limit)?;
        let r = self.take(len);
        proof {
            before.lemma_steps_then(sized, *self);
            if r is Ok {
                let bytes = r->Ok_0@;
                assert(before.got(*self).subrange(4, 4 + len as int) =~= bytes);
                if before.reliable() {
                    assert(before.incoming().subrange(4, 4 + len as int) =~= bytes);
                }
            }
        }
        r
    }

    /// Reads text: raw bytes that must be valid UTF-8.
    fn read_string(&mut self) -> (r: Result<String, ProtocolExceptionType>)
        ensures
            old(self).read_as(
                *final(self),
                text_view(r),
                |input: Seq<u8>| parse_string(input, old(self).limit()),
            ),
    {
        match self.read_binary() {
            Err(e) => Err(e),
            Ok(bytes) => decode_text(bytes),
        }
    }

    /// Reads a field header. The name is always empty. After the stop tag no
    /// id is read and the id is 0.
    fn read_field_begin(&mut self) -> (r: Result<(String, Type, i16), ProtocolExceptionType>)
        ensures
            old(self).read_as(
                *final(self),
                field_view(r),
                |input: Seq<u8>| parse_field_begin(input),
            ),
            r matches Ok((name, _, _)) ==> name@ == Seq::<char>::empty(),
    {
        let ghost before = *self;
        let field_type = self.read_type()?;
        let ghost typed = *self;
        let field_id = match field_type {
            Type::TStop => 0,
            _ => {
                let r = self.read_i16();
                proof {
                    before.lemma_steps_then(typed, *self);
                    assert(before.got(*self).skip(1) =~= typed.got(*self));
                    if before.reliable() {
                        assert(before.incoming().skip(1) =~= typed.incoming());
                    }
                }
                r?
            },
        };
        Ok((String::new(), field_type, field_id))
    }

    /// Reads the header of a list. A negative count and one above the ceiling
    /// are refused.
    fn read_list_begin(&mut self) -> (r: Result<(Type, i32), ProtocolExceptionType>)
        ensures
            old(self).read_as(
                *final(self),
                r,
                |input: Seq<u8>| parse_list_begin(input, old(self).limit()),
            ),
    {
        let ghost before = *self;
        let elem_type = self.read_type()?;
        let ghost typed = *self;
        let r = self.read_i32();
        proof {
            before.lemma_steps_then(typed, *self);
            assert(before.got(*self).skip(1) =~= typed.got(*self));
            if before.reliable() {
                assert(before.incoming().skip(1) =~= typed.incoming());
            }
        }
        let size = r?;
        check_size(size, self.size_limit)?;
        Ok((elem_type, size))
    }

    /// Reads the header of a set, as for a list.
    fn read_set_begin(&mut self) -> (r: Result<(Type, i32), ProtocolExceptionType>)
        ensures
            old(self).read_as(
                *final(self),
                r,
                |input: Seq<u8>| parse_list_begin(input, old(self).limit()),
            ),
    {
        self.read_list_begin()
    }

    /// Reads the header of a map. A negative count and one above the ceiling
    /// are refused.
    fn read_map_begin(&mut self) -> (r: Result<(Type, Type, i32), ProtocolExceptionType>)
        ensures
            old(self).read_as(
                *final(self),
                r,
                |input: Seq<u8>| parse_map_begin(input, old(self).limit()),
            ),
    {
        let ghost before = *self;
        let key_type = self.read_type()?;
        let ghost keyed = *self;
        let r = self.read_type();
        proof {
            before.lemma_steps_then(keyed, *self);
            assert(before.got(*self).skip(1) =~= keyed.got(*self));
            if before.reliable() {
                assert(before.incoming().skip(1) =~= keyed.incoming());
            }
        }
        let value_type = r?;
        let ghost valued = *self;
        let r = self.read_i32();
        proof {
            before.lemma_steps_then(valued, *self);
            assert(before.got(*self).skip(1) =~= keyed.got(valued) + valued.got(*self));
            assert(before.got(*self).skip(2) =~= valued.got(*self));
            if before.reliable() {
                assert(before.incoming().skip(2) =~= valued.incoming());
            }
        }
        let size = r?;
        check_size(size, self.size_limit)?;
        Ok((key_type, value_type, size))
    }

    /// Reads the beginning of a message: the header, whose version is
    /// checked at once, the name, and the sequence id.
    fn read_message_begin(&mut self) -> (r: Result<
        (String, MessageType, i32),
        ProtocolExceptionType,
    >)
        ensures
            old(self).read_as(
                *final(self),
                message_view(r),
                |input: Seq<u8>| parse_message_begin(input, old(self).limit()),
            ),
    {
        let ghost before = *self;
        let header = self.read_i32()?;
        check_version(header)?;
        let ghost headed = *self;
        let r = self.read_string();
        proof {
            before.lemma_steps_then(headed, *self);
            assert(before.got(*self).skip(4) =~= headed.got(*self));
            if before.reliable() {
                assert(before.incoming().skip(4) =~= headed.incoming());
            }
        }
        let name = r?;
        let message_type = decode_message_kind(header)?;
        let ghost named = *self;
        let r = self.read_i32();
        proof {
            let n1 = headed.got(named).len() as int;
            before.lemma_steps_then(named, *self);
            lemma_parse_string_more(headed.got(named), named.got(*self), before.limit());
            assert(before.got(*self).skip(4) =~= headed.got(named) + named.got(*self));
            assert(before.got(*self).skip(4 + n1) =~= named.got(*self));
            if before.reliable() {
                assert(before.incoming().skip(4 + n1) =~= named.incoming());
            }
        }
        let sequence_id = r?;
        Ok((name, message_type, sequence_id))
    }
}

} // verus!
