//! An asynchronous inventory session: the reader pushes frames and the host
//! only reads until it stops the inventory.

use vstd::prelude::*;

use crate::async_proto::async_payload;
use crate::client::{new_calls, same_link, ClientError, ReaderClient};
use crate::codes::CommandCode;
use crate::command::AsyncSubcommandCode;
use crate::frame::host_packet;
use crate::host::{pushed_result, receive_pushed, AsyncInventoryMessage, SilionHost};
use crate::host_command::HostCommand;
use crate::transport::{ReaderTransport, TransportCall};

verus! {

/// The packet of the Stop AsyncInventory command.
pub open spec fn stop_packet() -> Seq<u8> {
    host_packet(
        CommandCode::AsynchronousInventory.code(),
        async_payload(AsyncSubcommandCode::Stop.value(), Seq::empty()),
    )
}

/// An active asynchronous inventory session driven by reads.
///
/// Created by [`SilionHost::into_async_session`]. The transport is moved into
/// this session for the duration of asynchronous inventory; no other command
/// is sent until the stop command has been written and its acknowledgement
/// received, after which [`into_host`][Self::into_host] recovers the host.
pub struct AsyncInventorySession<T: ReaderTransport> {
    client: ReaderClient<T>,
}

impl<T: ReaderTransport> AsyncInventorySession<T> {
    /// The transport under this session.
    pub closed spec fn transport(&self) -> T {
        self.client.inner()
    }

    /// Start a session over a client whose reader is already pushing frames.
    pub fn new(client: ReaderClient<T>) -> (r: Self)
        ensures
            r.transport() == client.inner(),
    {
        AsyncInventorySession { client }
    }

    /// Receive one pushed asynchronous inventory message from the reader.
    pub fn recv(&mut self) -> (r: Result<AsyncInventoryMessage, ClientError<T::Error>>)
        ensures
            pushed_result(old(self).transport(), final(self).transport(), r),
    {
        receive_pushed(&mut self.client)
    }

    /// Write the Stop AsyncInventory command (`0xAA49`) without waiting for
    /// its acknowledgement; frames pushed before it may still arrive.
    pub fn send_stop(&mut self) -> (r: Result<(), ClientError<T::Error>>)
        ensures
            r is Ok ==> final(self).transport().sent() == old(self).transport().sent()
                + stop_packet(),
            final(self).transport().received() == old(self).transport().received(),
            same_link(old(self).transport(), final(self).transport()),
            new_calls(old(self).transport(), final(self).transport()).len() == 1,
            match new_calls(old(self).transport(), final(self).transport())[0] {
                TransportCall::Write { data: d, result: Ok(_) } => d == stop_packet() && r is Ok,
                TransportCall::Write { data: d, result: Err(e) } => d == stop_packet() && r
                    == Err::<(), ClientError<T::Error>>(ClientError::Transport(e)),
                TransportCall::Read { .. } => false,
            },
    {
        let packet = match HostCommand::async_stop() {
            Ok(p) => p,
            Err(e) => {
                return Err(ClientError::Protocol(e));
            },
        };
        self.client.write_frame(packet.as_slice())
    }

    /// End the session and recover the host over the same transport.
    pub fn into_host(self) -> (r: SilionHost<T>)
        ensures
            r.transport() == self.transport(),
    {
        SilionHost::from_client(self.client)
    }
}

} // verus!
