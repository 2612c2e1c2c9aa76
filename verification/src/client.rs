//! Request/response client over a [`ReaderTransport`].

use vstd::prelude::*;

use crate::codes::StatusCode;
use crate::error::ProtocolError;
use crate::frame::{
    build_host_frame, host_packet, parse_reader_frame, reader_packet_error, ReaderFrame, MAX_DATA_LEN,
};
use crate::transport::{ReaderTransport, TransportCall};

verus! {

/// Errors produced by the protocol client.
#[derive(Debug)]
pub enum ClientError<TE> {
    /// Underlying transport error.
    Transport(TE),
    /// Packet or payload format error.
    Protocol(ProtocolError),
    /// Reader returned a non-success status code.
    ReaderStatus {
        /// Raw status code.
        status_raw: u16,
        /// Parsed status when known.
        status: Option<StatusCode>,
    },
    /// Response command code does not match request command code.
    UnexpectedResponseCommand {
        /// Sent command code.
        expected: u8,
        /// Received command code.
        actual: u8,
    },
}

/// A frame as the parser produces it: its status is the decoded raw status
/// and its data fits a one-byte length.
pub open spec fn frame_well_formed(f: ReaderFrame) -> bool {
    &&& f.status == StatusCode::decode(f.status_raw)
    &&& f.data@.len() <= MAX_DATA_LEN
}

/// What checking a response frame against the command that was sent gives:
/// the frame when it echoes the command with success status, else the
/// matching client error.
pub open spec fn response_check<TE>(
    expected: u8,
    f: ReaderFrame,
    r: Result<ReaderFrame, ClientError<TE>>,
) -> bool {
    if f.command != expected {
        (r matches Err(ClientError::UnexpectedResponseCommand { expected: x, actual: a }) && x
            == expected && a == f.command)
    } else if f.status_raw != 0x0000 {
        (r matches Err(ClientError::ReaderStatus { status_raw: s, status: st }) && s == f.status_raw
            && st == f.status)
    } else {
        r == Ok::<ReaderFrame, ClientError<TE>>(f)
    }
}

/// Check that a response echoes `expected` and reports success.
pub fn check_response<TE>(expected: u8, frame: ReaderFrame) -> (r: Result<
    ReaderFrame,
    ClientError<TE>,
>)
    ensures
        response_check(expected, frame, r),
{
    if frame.command != expected {
        return Err(
            ClientError::UnexpectedResponseCommand { expected: expected, actual: frame.command },
        );
    }
    if frame.status_raw != StatusCode::Success.as_u16() {
        return Err(ClientError::ReaderStatus { status_raw: frame.status_raw, status: frame.status });
    }
    Ok(frame)
}

/// `t1` is `t0` after reading exactly one more packet, which is well formed
/// and decodes to `f`.
pub open spec fn frame_read<T: ReaderTransport>(t0: T, t1: T, f: ReaderFrame) -> bool {
    exists|p: Seq<u8>|
        #[trigger] f.decodes(p) && t1.received() == t0.received() + p && reader_packet_error(p)
            is None
}

/// `t1` is `t0` after writing exactly `request` and then reading one
/// well-formed packet that decodes to `f`.
pub open spec fn answered<T: ReaderTransport>(t0: T, t1: T, request: Seq<u8>, f: ReaderFrame) -> bool {
    &&& t1.sent() == t0.sent() + request
    &&& frame_read(t0, t1, f)
}

/// `t1` is `t0` after reading, with nothing written, one more packet whose
/// total length matches its length byte and whose first failed check is
/// `e` (a wrong header or CRC).
pub open spec fn reply_rejected<T: ReaderTransport>(t0: T, t1: T, e: ProtocolError) -> bool {
    exists|p: Seq<u8>|
        #[trigger] reader_packet_error(p) == Some(e) && p.len() == 7 + p[1] && t1.received()
            == t0.received() + p
}

/// The calls made on the transport between `t0` and `t1`, when `t1`'s call
/// log extends `t0`'s.
pub open spec fn new_calls<T: ReaderTransport>(t0: T, t1: T) -> Seq<TransportCall<T::Error>> {
    t1.calls().subrange(t0.calls().len() as int, t1.calls().len() as int)
}

/// `t1` is `t0` after more calls on the same link: its call log extends
/// `t0`'s and the far end is the same.
pub open spec fn same_link<T: ReaderTransport>(t0: T, t1: T) -> bool {
    &&& t0.calls().len() <= t1.calls().len()
    &&& t1.calls() == t0.calls() + new_calls(t0, t1)
    &&& t1.peer() == t0.peer()
}

/// The calls `c` of reading one frame, from `t0` to `t1`: a read of the
/// five-byte prefix `h` and, when it succeeds, a read of the `h[1] + 2`
/// bytes of data and CRC that follow. A transport error is the error of the
/// read that failed; after two successful reads the result is no transport
/// error and the bytes received are the prefix and the rest.
pub open spec fn frame_reads<T: ReaderTransport, V>(
    t0: T,
    t1: T,
    c: Seq<TransportCall<T::Error>>,
    r: Result<V, ClientError<T::Error>>,
) -> bool {
    if c.len() == 0 {
        false
    } else {
        match c[0] {
            TransportCall::Read { len, result: Err(e) } => len == 5 && c.len() == 1 && r == Err::<
                V,
                ClientError<T::Error>,
            >(ClientError::Transport(e)),
            TransportCall::Read { len, result: Ok(h) } => len == 5 && c.len() == 2 && rest_read(
                t0,
                t1,
                h,
                c[1],
                r,
            ),
            TransportCall::Write { .. } => false,
        }
    }
}

/// The second read of a frame, after the prefix `h` was read.
pub open spec fn rest_read<T: ReaderTransport, V>(
    t0: T,
    t1: T,
    h: Seq<u8>,
    c: TransportCall<T::Error>,
    r: Result<V, ClientError<T::Error>>,
) -> bool {
    match c {
        TransportCall::Read { len, result: Err(e) } => len == h[1] + 2 && r == Err::<
            V,
            ClientError<T::Error>,
        >(ClientError::Transport(e)),
        TransportCall::Read { len, result: Ok(b) } => len == h[1] + 2 && !(r matches Err(
            ClientError::Transport(_),
        )) && t1.received() == t0.received() + h + b,
        TransportCall::Write { .. } => false,
    }
}

/// The calls of reading one frame, with nothing written, from `t0` to `t1`.
pub open spec fn read_calls<T: ReaderTransport, V>(
    t0: T,
    t1: T,
    r: Result<V, ClientError<T::Error>>,
) -> bool {
    &&& same_link(t0, t1)
    &&& frame_reads(t0, t1, new_calls(t0, t1), r)
}

/// The calls of one exchange of `request`, from `t0` to `t1`: one write of
/// exactly `request`; when it fails, nothing more, and its error is the
/// result; when it succeeds, the reads of one frame.
pub open spec fn exchange_calls<T: ReaderTransport, V>(
    t0: T,
    t1: T,
    request: Seq<u8>,
    r: Result<V, ClientError<T::Error>>,
) -> bool {
    let c = new_calls(t0, t1);
    &&& same_link(t0, t1)
    &&& c.len() >= 1
    &&& match c[0] {
        TransportCall::Write { data, result: Err(e) } => data == request && c.len() == 1 && r
            == Err::<V, ClientError<T::Error>>(ClientError::Transport(e)),
        TransportCall::Write { data, result: Ok(_) } => data == request && frame_reads(
            t0,
            t1,
            c.drop_first(),
            r,
        ),
        TransportCall::Read { .. } => false,
    }
}

/// What one command exchange gives when `request` (the packet of
/// `command`) fits a packet: the calls of the exchange, with a transport
/// error only from the call that failed; the reply frame when it echoes the
/// command with success status; the rejected reply's protocol error; the
/// status or the command of a well-formed reply that is not a success for
/// this command.
pub open spec fn exchange_outcome<T: ReaderTransport>(
    t0: T,
    t1: T,
    request: Seq<u8>,
    command: u8,
    r: Result<ReaderFrame, ClientError<T::Error>>,
) -> bool {
    &&& exchange_calls(t0, t1, request, r)
    &&& r matches Ok(f) ==> answered(t0, t1, request, f) && f.command == command && f.status_raw
        == 0 && frame_well_formed(f)
    &&& r matches Err(ClientError::Protocol(e)) ==> t1.sent() == t0.sent() + request
        && reply_rejected(t0, t1, e)
    &&& r matches Err(ClientError::ReaderStatus { status_raw, status }) ==> exists|f: ReaderFrame|
        #[trigger] answered(t0, t1, request, f) && f.command == command && f.status_raw
            == status_raw && status_raw != 0 && f.status == status
    &&& r matches Err(ClientError::UnexpectedResponseCommand { expected, actual }) ==> expected
        == command && exists|f: ReaderFrame|
        #[trigger] answered(t0, t1, request, f) && f.command == actual && actual != command
}

/// Protocol client over a `ReaderTransport`.
pub struct ReaderClient<T: ReaderTransport> {
    transport: T,
}

impl<T: ReaderTransport> ReaderClient<T> {
    /// The wrapped transport.
    pub closed spec fn inner(&self) -> T {
        self.transport
    }

    /// Create a low-level protocol client over a transport.
    pub fn new(transport: T) -> (r: Self)
        ensures
            r.inner() == transport,
    {
        ReaderClient { transport }
    }

    /// Consume this client and return the wrapped transport.
    pub fn into_inner(self) -> (r: T)
        ensures
            r == self.inner(),
    {
        self.transport
    }

    /// Return a mutable reference to the wrapped transport.
    pub fn transport_mut(&mut self) -> (r: &mut T)
        ensures
            *r == old(self).inner(),
            final(self).inner() == *final(r),
    {
        &mut self.transport
    }

    /// Write a pre-built host frame to the transport without reading a response.
    pub fn write_frame(&mut self, data: &[u8]) -> (r: Result<(), ClientError<T::Error>>)
        ensures
            r is Ok ==> final(self).inner().sent() == old(self).inner().sent() + data@,
            final(self).inner().received() == old(self).inner().received(),
            same_link(old(self).inner(), final(self).inner()),
            new_calls(old(self).inner(), final(self).inner()).len() == 1,
            match new_calls(old(self).inner(), final(self).inner())[0] {
                TransportCall::Write { data: d, result: Ok(_) } => d == data@ && r is Ok,
                TransportCall::Write { data: d, result: Err(e) } => d == data@ && r == Err::<
                    (),
                    ClientError<T::Error>,
                >(ClientError::Transport(e)),
                TransportCall::Read { .. } => false,
            },
            !(r matches Err(ClientError::Protocol(_))),
            !(r matches Err(ClientError::ReaderStatus { .. })),
            !(r matches Err(ClientError::UnexpectedResponseCommand { .. })),
    {
        let ghost t0 = self.transport;
        let w = self.transport.write_all(data);
        proof {
            assert(new_calls(t0, self.transport) =~= seq![
                TransportCall::Write { data: data@, result: w },
            ]);
            assert(self.transport.calls() =~= t0.calls() + new_calls(t0, self.transport));
        }
        match w {
            Ok(()) => Ok(()),
            Err(e) => Err(ClientError::Transport(e)),
        }
    }

    /// Read and parse one reader-to-host frame without sending a request
    /// first: the five-byte prefix, then the data length it declares plus
    /// the two CRC bytes.
    pub fn read_frame(&mut self) -> (r: Result<ReaderFrame, ClientError<T::Error>>)
        ensures
            final(self).inner().sent() == old(self).inner().sent(),
            r matches Ok(f) ==> frame_well_formed(f) && frame_read(
                old(self).inner(),
                final(self).inner(),
                f,
            ),
            r matches Err(ClientError::Protocol(e)) ==> reply_rejected(
                old(self).inner(),
                final(self).inner(),
                e,
            ),
            !(r matches Err(ClientError::ReaderStatus { .. })),
            !(r matches Err(ClientError::UnexpectedResponseCommand { .. })),
            read_calls(old(self).inner(), final(self).inner(), r),
    {
        let ghost t0 = self.transport;
        let mut prefix: Vec<u8> = vec![0u8; 5];
        match self.transport.read_exact(prefix.as_mut_slice()) {
            Ok(()) => {},
            Err(e) => {
                proof {
                    let t1 = self.transport;
                    assert(new_calls(t0, t1) =~= seq![t1.calls().last()]);
                    assert(t1.calls() =~= t0.calls() + new_calls(t0, t1));
                }
                return Err(ClientError::Transport(e));
            },
        }
        let ghost ta = self.transport;
        let data_len = prefix[1] as usize;
        let mut suffix: Vec<u8> = vec![0u8; data_len + 2];
        match self.transport.read_exact(suffix.as_mut_slice()) {
            Ok(()) => {},
            Err(e) => {
                proof {
                    let t1 = self.transport;
                    assert(new_calls(t0, t1) =~= seq![ta.calls().last(), t1.calls().last()]);
                    assert(t1.calls() =~= t0.calls() + new_calls(t0, t1));
                }
                return Err(ClientError::Transport(e));
            },
        }
        proof {
            let t1 = self.transport;
            assert(new_calls(t0, t1) =~= seq![ta.calls().last(), t1.calls().last()]);
            assert(t1.calls() =~= t0.calls() + new_calls(t0, t1));
        }
        let mut packet: Vec<u8> = Vec::with_capacity(5 + data_len + 2);
        crate::bytes::extend_bytes(&mut packet, prefix.as_slice());
        crate::bytes::extend_bytes(&mut packet, suffix.as_slice());
        assert(packet@.len() == 7 + packet@[1]);
        assert(self.transport.received() =~= t0.received() + packet@);
        match parse_reader_frame(packet.as_slice()) {
            Ok(f) => {
                assert(f.decodes(packet@));
                Ok(f)
            },
            Err(e) => {
                assert(reader_packet_error(packet@) == Some(e));
                Err(ClientError::Protocol(e))
            },
        }
    }

    /// Send one pre-built host frame and parse a single response frame.
    ///
    /// This method does not enforce command echo matching or success status;
    /// use [`ReaderClient::transact`] for command-oriented flow.
    pub fn transact_frame(&mut self, request: &[u8]) -> (r: Result<ReaderFrame, ClientError<T::Error>>)
        ensures
            r matches Ok(f) ==> frame_well_formed(f) && answered(
                old(self).inner(),
                final(self).inner(),
                request@,
                f,
            ),
            r matches Err(ClientError::Protocol(e)) ==> final(self).inner().sent() == old(
                self,
            ).inner().sent() + request@ && reply_rejected(old(self).inner(), final(self).inner(), e),
            !(r matches Err(ClientError::ReaderStatus { .. })),
            !(r matches Err(ClientError::UnexpectedResponseCommand { .. })),
            exchange_calls(old(self).inner(), final(self).inner(), request@, r),
    {
        let ghost t0 = self.transport;
        match self.transport.write_all(request) {
            Ok(()) => {},
            Err(e) => {
                proof {
                    let t1 = self.transport;
                    assert(new_calls(t0, t1) =~= seq![t1.calls().last()]);
                    assert(t1.calls() =~= t0.calls() + new_calls(t0, t1));
                }
                return Err(ClientError::Transport(e));
            },
        }
        let ghost ta = self.transport;
        let r = self.read_frame();
        proof {
            let t1 = self.transport;
            assert(new_calls(t0, t1) =~= seq![ta.calls().last()] + new_calls(ta, t1));
            assert(new_calls(t0, t1).drop_first() =~= new_calls(ta, t1));
            assert(t1.calls() =~= t0.calls() + new_calls(t0, t1));
        }
        r
    }

    /// Build and send one command payload, then parse one validated response:
    /// the response must echo `command` and report status `0x0000`.
    pub fn transact(&mut self, command: u8, data: &[u8]) -> (r: Result<
        ReaderFrame,
        ClientError<T::Error>,
    >)
        ensures
            data@.len() > MAX_DATA_LEN ==> (r matches Err(ClientError::Protocol(e)) && e
                == ProtocolError::DataTooLong(data@.len() as usize)) && final(self).inner() == old(
                self,
            ).inner(),
            data@.len() <= MAX_DATA_LEN ==> exchange_outcome(
                old(self).inner(),
                final(self).inner(),
                host_packet(command, data@),
                command,
                r,
            ),
            r matches Ok(f) ==> f.status == Some(StatusCode::Success),
    {
        let request = match build_host_frame(command, data) {
            Ok(p) => p,
            Err(e) => {
                return Err(ClientError::Protocol(e));
            },
        };
        let response = match self.transact_frame(request.as_slice()) {
            Ok(f) => f,
            Err(e) => {
                return Err(e);
            },
        };
        proof {
            crate::codes::lemma_status_code_round_trip(StatusCode::Success, 0);
        }
        let r = check_response(command, response);
        proof {
            let t0 = old(self).inner();
            let t1 = self.inner();
            let req = host_packet(command, data@);
            assert(answered(t0, t1, req, response));
        }
        r
    }
}

} // verus!
