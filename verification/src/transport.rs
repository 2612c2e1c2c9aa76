//! Byte-oriented transport abstraction implemented by users of the library.

use vstd::prelude::*;

verus! {

/// One call made on a transport, with what it returned.
pub enum TransportCall<E> {
    /// `write_all` with these bytes.
    Write { data: Seq<u8>, result: Result<(), E> },
    /// `read_exact` into a buffer of this length, with the bytes it filled
    /// the buffer with on success.
    Read { len: nat, result: Result<Seq<u8>, E> },
}

/// Abstraction over byte-oriented transport used by the reader protocol.
///
/// An implementation keeps, in specification only, the bytes it has written
/// to the reader, the bytes it has read from it, every call made on it with
/// its outcome, and a model of the far end that no call changes. An
/// implementation written outside Verus cannot define them; it keeps the
/// defaults, and nothing that the library proves about the bytes exchanged
/// or the calls made applies to it.
pub trait ReaderTransport {
    /// Transport-specific error.
    type Error;

    /// A model of the far end of the link, in specification only.
    type Peer;

    /// Every byte written to the reader so far, in order.
    open spec fn sent(&self) -> Seq<u8> {
        Seq::empty()
    }

    /// Every byte read from the reader so far, in order.
    open spec fn received(&self) -> Seq<u8> {
        Seq::empty()
    }

    /// Every call made on the transport so far, in order, with its outcome.
    open spec fn calls(&self) -> Seq<TransportCall<Self::Error>> {
        Seq::empty()
    }

    /// The far end this transport talks to; no call changes it.
    open spec fn peer(&self) -> Self::Peer {
        arbitrary()
    }

    /// Write all bytes to the transport.
    fn write_all(&mut self, data: &[u8]) -> (r: Result<(), Self::Error>)
        ensures
            r is Ok ==> final(self).sent() == old(self).sent() + data@,
            final(self).received() == old(self).received(),
            final(self).calls() == old(self).calls().push(
                TransportCall::Write { data: data@, result: r },
            ),
            final(self).peer() == old(self).peer(),
    ;

    /// Read exactly `buf.len()` bytes from the transport.
    ///
    /// Implementations should block/retry according to their timeout strategy
    /// until the exact byte count is produced or an error is returned.
    fn read_exact(&mut self, buf: &mut [u8]) -> (r: Result<(), Self::Error>)
        ensures
            final(buf)@.len() == old(buf)@.len(),
            final(self).sent() == old(self).sent(),
            r is Ok ==> final(self).received() == old(self).received() + final(buf)@,
            final(self).calls() == old(self).calls().push(
                TransportCall::Read {
                    len: old(buf)@.len(),
                    result: match r {
                        Ok(_) => Ok(final(buf)@),
                        Err(e) => Err(e),
                    },
                },
            ),
            final(self).peer() == old(self).peer(),
    ;
}

} // verus!
