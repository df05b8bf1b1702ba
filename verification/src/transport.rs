//! The byte transport that a codec sits on, and an in-memory one.

use vstd::prelude::*;

verus! {

/// Why a transport operation failed.
#[derive(Clone, Copy, Debug, PartialEq, Eq, Structural)]
pub enum TransportError {
    /// The stream ended before the bytes asked for had come.
    EndOfStream,
    /// The transport failed for a reason of its own.
    Failed,
}

/// A synchronous byte stream in both directions.
///
/// Nothing is asked of a transport beyond the signatures of its three
/// operations: it may fail at any call, and a codec checks the length of what
/// it returns. A transport may say more of itself by declaring that it is
/// [`reliable`](Transport::reliable) and by stating which bytes it holds. It
/// is then bound to behave as a pair of byte sequences, and what is read from
/// it is known in advance.
pub trait Transport {
    /// Whether this transport never fails on its own account and behaves as
    /// `incoming` and `outgoing` say. A buffer in memory is reliable; a socket
    /// is not.
    open spec fn reliable(&self) -> bool {
        false
    }

    /// The bytes that can still be read, in order. It has a meaning for a
    /// reliable transport only.
    open spec fn incoming(&self) -> Seq<u8> {
        Seq::empty()
    }

    /// The bytes written so far, in order. It has a meaning for a reliable
    /// transport only.
    open spec fn outgoing(&self) -> Seq<u8> {
        Seq::empty()
    }

    /// Takes all of `buf`, or fails. A reliable transport appends `buf` to
    /// its outgoing bytes.
    fn write(&mut self, buf: &[u8]) -> (r: Result<(), TransportError>)
        ensures
            final(self).reliable() == old(self).reliable(),
            old(self).reliable() ==> {
                &&& r is Ok
                &&& final(self).outgoing() == old(self).outgoing() + buf@
                &&& final(self).incoming() == old(self).incoming()
            },
    ;

    /// Gives exactly `n` bytes, or fails; it never gives fewer. A reliable
    /// transport takes them from the front of its incoming bytes, and fails
    /// only where fewer than `n` are left, which it then leaves in place.
    fn read_exact(&mut self, n: usize) -> (r: Result<Vec<u8>, TransportError>)
        ensures
            final(self).reliable() == old(self).reliable(),
            old(self).reliable() ==> {
                &&& final(self).outgoing() == old(self).outgoing()
                &&& match r {
                    Ok(bytes) => {
                        &&& n <= old(self).incoming().len()
                        &&& bytes@ == old(self).incoming().take(n as int)
                        &&& final(self).incoming() == old(self).incoming().skip(n as int)
                    },
                    Err(_) => {
                        &&& n > old(self).incoming().len()
                        &&& final(self).incoming() == old(self).incoming()
                    },
                }
            },
    ;

    /// Pushes buffered output on its way, or fails. For a reliable transport
    /// nothing changes.
    fn flush(&mut self) -> (r: Result<(), TransportError>)
        ensures
            final(self).reliable() == old(self).reliable(),
            old(self).reliable() ==> {
                &&& r is Ok
                &&& final(self).incoming() == old(self).incoming()
                &&& final(self).outgoing() == old(self).outgoing()
            },
    ;
}

/// A transport in memory: it reads from a buffer given at construction and
/// collects what is written in another.
pub struct FakeTransport {
    input: Vec<u8>,
    output: Vec<u8>,
}

impl FakeTransport {
    /// A transport that will supply the bytes of `buf` and has nothing written.
    pub fn new(buf: Vec<u8>) -> (t: FakeTransport)
        ensures
            t.incoming() == buf@,
            t.outgoing() == Seq::<u8>::empty(),
    {
        FakeTransport { input: buf, output: Vec::new() }
    }

    /// The bytes written so far.
    pub fn written(&self) -> (out: &Vec<u8>)
        ensures
            out@ == self.outgoing(),
    {
        &self.output
    }

    /// The number of bytes not yet read.
    pub fn remaining(&self) -> (n: usize)
        ensures
            n == self.incoming().len(),
    {
        self.input.len()
    }
}

impl Transport for FakeTransport {
    closed spec fn incoming(&self) -> Seq<u8> {
        self.input@
    }

    closed spec fn outgoing(&self) -> Seq<u8> {
        self.output@
    }

    open spec fn reliable(&self) -> bool {
        true
    }

    fn write(&mut self, buf: &[u8]) -> (r: Result<(), TransportError>) {
        self.output.extend_from_slice(buf);
        assert(self.output@ =~= old(self).output@ + buf@);
        Ok(())
    }

    fn read_exact(&mut self, n: usize) -> (r: Result<Vec<u8>, TransportError>)
        ensures
            r matches Err(e) ==> e == TransportError::EndOfStream,
    {
        if n > self.input.len() {
            return Err(TransportError::EndOfStream);
        }
        let mut taken = self.input.split_off(n);
        core::mem::swap(&mut self.input, &mut taken);
        Ok(taken)
    }

    fn flush(&mut self) -> (r: Result<(), TransportError>) {
        Ok(())
    }
}

} // verus!
