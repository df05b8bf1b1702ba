use thrift::{
    BinaryProtocol, MessageType, Protocol, ProtocolExceptionType, Transport, TransportError, Type,
};

/// A transport that works for a number of calls and fails from then on.
struct Flaky {
    calls_left: usize,
    input: Vec<u8>,
    output: Vec<u8>,
}

impl Flaky {
    fn new(calls_left: usize, input: Vec<u8>) -> Flaky {
        Flaky { calls_left, input, output: Vec::new() }
    }

    fn spend(&mut self) -> Result<(), TransportError> {
        if self.calls_left == 0 {
            return Err(TransportError::Failed);
        }
        self.calls_left -= 1;
        Ok(())
    }
}

impl Transport for Flaky {
    fn write(&mut self, buf: &[u8]) -> Result<(), TransportError> {
        self.spend()?;
        self.output.extend_from_slice(buf);
        Ok(())
    }

    fn read_exact(&mut self, n: usize) -> Result<Vec<u8>, TransportError> {
        self.spend()?;
        if n > self.input.len() {
            return Err(TransportError::EndOfStream);
        }
        let rest = self.input.split_off(n);
        Ok(std::mem::replace(&mut self.input, rest))
    }

    fn flush(&mut self) -> Result<(), TransportError> {
        self.spend()
    }
}

#[test]
fn a_failed_write_is_reported() {
    let mut p = BinaryProtocol::new(Flaky::new(0, vec![]));
    assert_eq!(p.write_bool(true), Err(ProtocolExceptionType::WriteFailed));
    assert_eq!(p.write_byte(1), Err(ProtocolExceptionType::WriteFailed));
    assert_eq!(p.write_i16(1), Err(ProtocolExceptionType::WriteFailed));
    assert_eq!(p.write_i32(1), Err(ProtocolExceptionType::WriteFailed));
    assert_eq!(p.write_i64(1), Err(ProtocolExceptionType::WriteFailed));
    assert_eq!(p.write_double(1), Err(ProtocolExceptionType::WriteFailed));
    assert_eq!(p.write_string("a"), Err(ProtocolExceptionType::WriteFailed));
    assert_eq!(p.write_binary(&[1]), Err(ProtocolExceptionType::WriteFailed));
    assert_eq!(p.write_field_stop(), Err(ProtocolExceptionType::WriteFailed));
    assert_eq!(p.write_type(Type::TI32), Err(ProtocolExceptionType::WriteFailed));
}

#[test]
fn a_write_that_fails_midway_is_reported() {
    for calls in 0..4 {
        let mut p = BinaryProtocol::new(Flaky::new(calls, vec![]));
        assert_eq!(
            p.write_message_begin("m", MessageType::Call, 1),
            Err(ProtocolExceptionType::WriteFailed)
        );
    }
    let mut p = BinaryProtocol::new(Flaky::new(4, vec![]));
    assert_eq!(p.write_message_begin("m", MessageType::Call, 1), Ok(()));
    assert_eq!(
        p.into_transport().output,
        vec![0x80, 0x01, 0, 1, 0, 0, 0, 1, b'm', 0, 0, 0, 1]
    );

    let mut p = BinaryProtocol::new(Flaky::new(1, vec![]));
    assert_eq!(p.write_field_begin("f", Type::TI32, 1), Err(ProtocolExceptionType::WriteFailed));
    let mut p = BinaryProtocol::new(Flaky::new(2, vec![]));
    assert_eq!(p.write_map_begin(Type::TI32, Type::TI32, 1), Err(ProtocolExceptionType::WriteFailed));
    let mut p = BinaryProtocol::new(Flaky::new(1, vec![]));
    assert_eq!(p.write_list_begin(Type::TI32, 1), Err(ProtocolExceptionType::WriteFailed));
}

#[test]
fn a_failed_read_is_an_underrun_even_with_bytes_at_hand() {
    let bytes: Vec<u8> = vec![0x80, 0x01, 0, 1, 0, 0, 0, 1, b'm', 0, 0, 0, 1];
    for calls in 0..4 {
        let mut p = BinaryProtocol::new(Flaky::new(calls, bytes.clone()));
        assert_eq!(p.read_message_begin(), Err(ProtocolExceptionType::Underrun));
    }
    let mut p = BinaryProtocol::new(Flaky::new(4, bytes));
    assert_eq!(p.read_message_begin(), Ok((String::from("m"), MessageType::Call, 1)));

    let mut p = BinaryProtocol::new(Flaky::new(0, vec![1, 2, 3, 4]));
    assert_eq!(p.read_i32(), Err(ProtocolExceptionType::Underrun));
    let mut p = BinaryProtocol::new(Flaky::new(1, vec![8, 0, 1]));
    assert_eq!(p.read_field_begin(), Err(ProtocolExceptionType::Underrun));
}

#[test]
fn every_logical_operation_is_a_small_fixed_number_of_transport_calls() {
    let mut p = BinaryProtocol::new(Flaky::new(1, vec![]));
    assert_eq!(p.write_i64(5), Ok(()));
    let mut p = BinaryProtocol::new(Flaky::new(2, vec![]));
    assert_eq!(p.write_string("hello"), Ok(()));
    let mut p = BinaryProtocol::new(Flaky::new(1, vec![0, 0, 0, 0, 0, 0, 0, 5]));
    assert_eq!(p.read_i64(), Ok(5));
    let mut p = BinaryProtocol::new(Flaky::new(2, vec![0, 0, 0, 2, b'h', b'i']));
    assert_eq!(p.read_string(), Ok(String::from("hi")));
}
