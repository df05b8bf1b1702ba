//! Binary wire encoding for Thrift-style remote procedure calls.
//!
//! The crate turns primitive values, container headers and message envelopes
//! into a deterministic byte stream and reads them back. The byte layout is
//! stated once, as specification functions in [`wire`] and [`frame`], and
//! every executable operation is proved against it.

pub mod binary_protocol;
pub mod frame;
pub mod protocol;
pub mod transport;
pub mod wire;

pub use binary_protocol::BinaryProtocol;
pub use protocol::{MessageType, Protocol, ProtocolExceptionType, Type};
pub use transport::{FakeTransport, Transport, TransportError};
