//! High-level host API: typed queries and commands over a [`ReaderClient`],
//! and the decoding of pushed asynchronous inventory frames.

use vstd::prelude::*;

use crate::antenna::{
    antenna_config_data, antenna_response, parse_antenna_ports_response, AntennaPortsConfiguration,
    AntennaPortsResponse,
};
use crate::async_proto::{
    async_marker, async_marker_bytes, async_payload, async_payload_error,
    parse_async_payload_owned,
};
use crate::bytes::{be16, read_be16, starts_with};
use crate::client::{
    answered, exchange_calls, exchange_outcome, frame_read, read_calls, reply_rejected,
    ClientError, ReaderClient,
};
use crate::codes::{AntennaPortsOption, CommandCode, RegionCode, StatusCode};
use crate::command::{
    AsyncInventoryStartData, AsyncSubcommandCode, InventorySearchFlags, MetadataFlags,
};
use crate::error::ProtocolError;
use crate::frame::{host_packet, ReaderFrame, MAX_DATA_LEN};
use crate::host_command::HostCommand;
use crate::parsers::{
    available_regions_of, current_region_of, current_tag_protocol_of, frequency_table_of,
    parse_available_regions, parse_current_region, parse_current_tag_protocol,
    parse_current_temperature, parse_frequency_hopping_table, parse_pin_states,
    parse_protocol_configuration_value, parse_reader_configuration_value,
    parse_regulatory_hop_time, parse_run_phase, parse_serial_number_info, parse_version_info,
    pin_states_of, protocol_configuration_of, reader_configuration_of, regulatory_hop_time_of,
    run_phase_of, serial_number_info_of, temperature_of, version_info_of,
    ProtocolConfigurationValue, ReaderConfigurationValue, RegulatoryHopTime, RunPhase,
    SerialNumberInfo, VersionInfo,
};
use crate::session::AsyncInventorySession;
use crate::tag::{parse_tag_epc_and_meta_data, tag_block, TagEpcAndMetaData, TagView};
use crate::transport::ReaderTransport;

verus! {

/// One asynchronous inventory message pushed by the reader.
#[derive(Debug, Clone, PartialEq, Eq)]
pub enum AsyncInventoryMessage {
    /// Reader reply for Start AsyncInventory (`0xAA48`), no subcommand data.
    StartAck,
    /// Reader reply for Stop AsyncInventory (`0xAA49`), no subcommand data.
    StopAck,
    /// Unrequested tag information packet.
    ///
    /// Format: `MetadataFlags(2) | Tag EPC and Meta Data (N)`.
    TagInformation {
        /// Metadata flags echoed back from the start command.
        metadata_flags: MetadataFlags,
        /// Parsed tag EPC and metadata block.
        tag: TagEpcAndMetaData,
    },
    /// Unrequested heartbeat packet.
    ///
    /// Format: `"XTSJ"(4) | SearchFlags(2) | StateData(N)`.
    Heartbeat {
        /// Search flags from heartbeat payload.
        search_flags: InventorySearchFlags,
        /// State data bytes after search flags.
        state_data: Vec<u8>,
    },
    /// Unrecognized asynchronous subcommand payload wrapped by `Moduletech` marker.
    Subcommand {
        /// Parsed asynchronous inventory subcommand code.
        subcommand: u16,
        /// Subcommand-specific payload bytes.
        subcommand_data: Vec<u8>,
    },
}

/// The contents of an [`AsyncInventoryMessage`] as plain values.
pub enum AsyncMessageView {
    /// Start acknowledgement.
    StartAck,
    /// Stop acknowledgement.
    StopAck,
    /// Tag information with its raw metadata flags.
    TagInformation { metadata_flags: u16, tag: TagView },
    /// Heartbeat with its raw search flags and state bytes.
    Heartbeat { search_flags: u16, state_data: Seq<u8> },
    /// Any other wrapped subcommand.
    Subcommand { subcommand: u16, subcommand_data: Seq<u8> },
}

impl View for AsyncInventoryMessage {
    type V = AsyncMessageView;

    open spec fn view(&self) -> AsyncMessageView {
        match self {
            AsyncInventoryMessage::StartAck => AsyncMessageView::StartAck,
            AsyncInventoryMessage::StopAck => AsyncMessageView::StopAck,
            AsyncInventoryMessage::TagInformation { metadata_flags, tag } => {
                AsyncMessageView::TagInformation { metadata_flags: metadata_flags@, tag: tag@ }
            },
            AsyncInventoryMessage::Heartbeat { search_flags, state_data } => {
                AsyncMessageView::Heartbeat { search_flags: search_flags@, state_data: state_data@ }
            },
            AsyncInventoryMessage::Subcommand { subcommand, subcommand_data } => {
                AsyncMessageView::Subcommand {
                    subcommand: *subcommand,
                    subcommand_data: subcommand_data@,
                }
            },
        }
    }
}

/// The marker `XTSJ` that opens a heartbeat payload.
pub open spec fn heartbeat_marker() -> Seq<u8> {
    seq![0x58u8, 0x54u8, 0x53u8, 0x4Au8]
}

/// Whether `d` begins with `prefix`.
pub open spec fn begins_with(d: Seq<u8>, prefix: Seq<u8>) -> bool {
    d.len() >= prefix.len() && d.subrange(0, prefix.len() as int) == prefix
}

/// The message carried by the data field `d` of an `0xAA` frame with success
/// status: a `Moduletech` payload (start or stop acknowledgement, or another
/// subcommand), an `XTSJ` heartbeat, or else a tag-information block led by
/// its two metadata-flag bytes.
pub open spec fn async_message_of(d: Seq<u8>) -> Result<AsyncMessageView, ProtocolError> {
    if begins_with(d, async_marker()) {
        match async_payload_error(d) {
            Some(e) => Err(e),
            None => {
                let sub = be16(d[10], d[11]);
                if sub == AsyncSubcommandCode::Start.value() {
                    Ok(AsyncMessageView::StartAck)
                } else if sub == AsyncSubcommandCode::Stop.value() {
                    Ok(AsyncMessageView::StopAck)
                } else {
                    Ok(
                        AsyncMessageView::Subcommand {
                            subcommand: sub,
                            subcommand_data: d.subrange(12, d.len() - 2),
                        },
                    )
                }
            },
        }
    } else if begins_with(d, heartbeat_marker()) {
        if d.len() < 6 {
            Err(ProtocolError::InvalidResponse("heartbeat payload too short"))
        } else {
            Ok(
                AsyncMessageView::Heartbeat {
                    search_flags: be16(d[4], d[5]),
                    state_data: d.subrange(6, d.len() as int),
                },
            )
        }
    } else if d.len() < 2 {
        Err(ProtocolError::InvalidResponse("tag information payload too short"))
    } else {
        match tag_block(be16(d[0], d[1]), d.subrange(2, d.len() as int)) {
            Ok(t) => Ok(AsyncMessageView::TagInformation { metadata_flags: be16(d[0], d[1]), tag: t }),
            Err(e) => Err(e),
        }
    }
}

/// A tag-information message is its two metadata-flag bytes, high byte
/// first, then a tag block: when the first byte is neither `M` (`0x4D`,
/// which opens `Moduletech`) nor `X` (`0x58`, which opens `XTSJ`), the
/// message decodes to metadata flags `hi * 256 + lo` and the tag that the
/// block parses to under those flags, or the block's error.
pub proof fn lemma_tag_information_flags(hi: u8, lo: u8, block: Seq<u8>)
    requires
        hi != 0x4D,
        hi != 0x58,
    ensures
        ({
            let flags = (hi as int * 256 + lo as int) as u16;
            &&& flags as int == hi as int * 256 + lo as int
            &&& async_message_of(seq![hi, lo] + block) == match tag_block(flags, block) {
                Ok(t) => Ok::<AsyncMessageView, ProtocolError>(
                    AsyncMessageView::TagInformation { metadata_flags: flags, tag: t },
                ),
                Err(e) => Err(e),
            }
        }),
{
    let d = seq![hi, lo] + block;
    assert(d[0] == hi);
    assert(!begins_with(d, async_marker())) by {
        if d.len() >= 10 {
            assert(d.subrange(0, 10)[0] == d[0]);
            assert(async_marker()[0] == 0x4D);
        }
    }
    assert(!begins_with(d, heartbeat_marker())) by {
        if d.len() >= 4 {
            assert(d.subrange(0, 4)[0] == d[0]);
            assert(heartbeat_marker()[0] == 0x58);
        }
    }
    assert(d.subrange(2, d.len() as int) =~= block);
    assert(d[1] == lo);
}

/// A heartbeat message is `XTSJ`, the search flags high byte first, then
/// the state data: it decodes to search flags `hi * 256 + lo` and that
/// state data.
pub proof fn lemma_heartbeat_fields(hi: u8, lo: u8, state: Seq<u8>)
    ensures
        async_message_of(heartbeat_marker() + seq![hi, lo] + state) == Ok::<
            AsyncMessageView,
            ProtocolError,
        >(
            AsyncMessageView::Heartbeat {
                search_flags: (hi as int * 256 + lo as int) as u16,
                state_data: state,
            },
        ),
        (hi as int * 256 + lo as int) as u16 as int == hi as int * 256 + lo as int,
{
    let d = heartbeat_marker() + seq![hi, lo] + state;
    assert(!begins_with(d, async_marker())) by {
        if d.len() >= 10 {
            assert(d.subrange(0, 10)[0] == d[0]);
            assert(d[0] == 0x58);
        }
    }
    assert(d.subrange(0, 4) =~= heartbeat_marker());
    assert(d[4] == hi && d[5] == lo);
    assert(d.subrange(6, d.len() as int) =~= state);
}

/// The payload that the start and stop commands carry, pushed back by the
/// reader, decodes to the start or stop acknowledgement; any other
/// subcommand decodes to itself and its data.
pub proof fn lemma_async_acknowledgements(subcommand: u16, data: Seq<u8>)
    ensures
        async_message_of(async_payload(0xAA48, Seq::empty())) == Ok::<
            AsyncMessageView,
            ProtocolError,
        >(AsyncMessageView::StartAck),
        async_message_of(async_payload(0xAA49, Seq::empty())) == Ok::<
            AsyncMessageView,
            ProtocolError,
        >(AsyncMessageView::StopAck),
        subcommand != 0xAA48 && subcommand != 0xAA49 ==> async_message_of(
            async_payload(subcommand, data),
        ) == Ok::<AsyncMessageView, ProtocolError>(
            AsyncMessageView::Subcommand { subcommand, subcommand_data: data },
        ),
{
    crate::async_proto::lemma_async_payload_parses(0xAA48, Seq::empty());
    crate::async_proto::lemma_async_payload_parses(0xAA49, Seq::empty());
    crate::async_proto::lemma_async_payload_parses(subcommand, data);
    let p1 = async_payload(0xAA48, Seq::empty());
    let p2 = async_payload(0xAA49, Seq::empty());
    let p3 = async_payload(subcommand, data);
    assert(p1.subrange(0, 10) =~= async_marker());
    assert(p2.subrange(0, 10) =~= async_marker());
    assert(p3.subrange(0, 10) =~= async_marker());
}

/// Parse the data bytes of a validated `0xAA` asynchronous inventory frame
/// into a typed [`AsyncInventoryMessage`].
///
/// The caller is responsible for verifying that the frame's command byte is
/// `0xAA` and that the status is success before calling this function.
pub fn parse_async_frame_data(data: &[u8]) -> (r: Result<AsyncInventoryMessage, ProtocolError>)
    ensures
        match async_message_of(data@) {
            Ok(m) => (r matches Ok(x) && x@ == m),
            Err(e) => r == Err::<AsyncInventoryMessage, ProtocolError>(e),
        },
{
    let marker = async_marker_bytes();
    if starts_with(data, &marker) {
        let payload = match parse_async_payload_owned(data) {
            Ok(p) => p,
            Err(e) => {
                return Err(e);
            },
        };
        if payload.subcommand == AsyncSubcommandCode::Start.as_u16() {
            return Ok(AsyncInventoryMessage::StartAck);
        } else if payload.subcommand == AsyncSubcommandCode::Stop.as_u16() {
            return Ok(AsyncInventoryMessage::StopAck);
        } else {
            return Ok(
                AsyncInventoryMessage::Subcommand {
                    subcommand: payload.subcommand,
                    subcommand_data: payload.subcommand_data,
                },
            );
        }
    }
    let heartbeat: [u8; 4] = [0x58, 0x54, 0x53, 0x4A];
    assert(heartbeat@ =~= heartbeat_marker());
    if starts_with(data, &heartbeat) {
        if data.len() < 6 {
            return Err(ProtocolError::InvalidResponse("heartbeat payload too short"));
        }
        let search_flags = InventorySearchFlags::from_raw(read_be16(data[4], data[5]));
        return Ok(
            AsyncInventoryMessage::Heartbeat {
                search_flags,
                state_data: vstd::slice::slice_to_vec(&data[6..data.len()]),
            },
        );
    }
    if data.len() < 2 {
        return Err(ProtocolError::InvalidResponse("tag information payload too short"));
    }
    let metadata_flags = MetadataFlags::from_raw(read_be16(data[0], data[1]));
    match parse_tag_epc_and_meta_data(metadata_flags, &data[2..data.len()]) {
        Ok(tag) => Ok(AsyncInventoryMessage::TagInformation { metadata_flags, tag }),
        Err(e) => Err(e),
    }
}

/// The reader answered `command`, sent with `data`, with success status:
/// `t1` is `t0` after writing that command's packet and reading the packet
/// that decodes to `f`, which echoes the command with status `0x0000`.
pub open spec fn query_succeeded<T: ReaderTransport>(
    t0: T,
    t1: T,
    command: u8,
    data: Seq<u8>,
    f: ReaderFrame,
) -> bool {
    &&& answered(t0, t1, host_packet(command, data), f)
    &&& f.command == command
    &&& f.status_raw == 0
}

/// The errors an exchange of `request` for `command` reports about a
/// well-formed reply: its non-success status, or the other command it
/// answers.
pub open spec fn reply_errors<T: ReaderTransport, V>(
    t0: T,
    t1: T,
    request: Seq<u8>,
    command: u8,
    r: Result<V, ClientError<T::Error>>,
) -> bool {
    &&& r matches Err(ClientError::ReaderStatus { status_raw, status }) ==> exists|f: ReaderFrame|
        #[trigger] answered(t0, t1, request, f) && f.command == command && f.status_raw
            == status_raw && status_raw != 0 && f.status == status
    &&& r matches Err(ClientError::UnexpectedResponseCommand { expected, actual }) ==> expected
        == command && exists|f: ReaderFrame|
        #[trigger] answered(t0, t1, request, f) && f.command == actual && actual != command
}

/// What a typed query over the transport gives, where `parse` says what the
/// data field of the response decodes to: a value only when the reader
/// answered the command with success and its data parses to that value; a
/// protocol error when the reply packet was rejected or its data does not
/// parse; the reply's status or command when it is not a success for this
/// command.
pub open spec fn query_result<T: ReaderTransport, V>(
    t0: T,
    t1: T,
    command: u8,
    data: Seq<u8>,
    parse: spec_fn(Seq<u8>) -> Result<V, ProtocolError>,
    r: Result<V, ClientError<T::Error>>,
) -> bool {
    &&& r matches Ok(v) ==> exists|f: ReaderFrame|
        #[trigger] query_succeeded(t0, t1, command, data, f) && parse(f.data@) == Ok::<
            V,
            ProtocolError,
        >(v)
    &&& r matches Err(ClientError::Protocol(e)) ==> (t1.sent() == t0.sent() + host_packet(
        command,
        data,
    ) && reply_rejected(t0, t1, e)) || exists|f: ReaderFrame|
        #[trigger] query_succeeded(t0, t1, command, data, f) && parse(f.data@) == Err::<
            V,
            ProtocolError,
        >(e)
    &&& reply_errors(t0, t1, host_packet(command, data), command, r)
    &&& exchange_calls(t0, t1, host_packet(command, data), r)
}

/// [`query_result`] for a result whose parsed form is its view.
pub open spec fn query_result_view<T: ReaderTransport, V: View>(
    t0: T,
    t1: T,
    command: u8,
    data: Seq<u8>,
    parse: spec_fn(Seq<u8>) -> Result<V::V, ProtocolError>,
    r: Result<V, ClientError<T::Error>>,
) -> bool {
    &&& r matches Ok(v) ==> exists|f: ReaderFrame|
        #[trigger] query_succeeded(t0, t1, command, data, f) && parse(f.data@) == Ok::<
            V::V,
            ProtocolError,
        >(v@)
    &&& r matches Err(ClientError::Protocol(e)) ==> (t1.sent() == t0.sent() + host_packet(
        command,
        data,
    ) && reply_rejected(t0, t1, e)) || exists|f: ReaderFrame|
        #[trigger] query_succeeded(t0, t1, command, data, f) && parse(f.data@) == Err::<
            V::V,
            ProtocolError,
        >(e)
    &&& reply_errors(t0, t1, host_packet(command, data), command, r)
    &&& exchange_calls(t0, t1, host_packet(command, data), r)
}

/// The reader pushed an `0xAA` frame with success status: `t1` is `t0`
/// after reading, and writing nothing, the packet that decodes to `f`.
pub open spec fn pushed<T: ReaderTransport>(t0: T, t1: T, f: ReaderFrame) -> bool {
    &&& answered(t0, t1, Seq::empty(), f)
    &&& f.command == CommandCode::AsynchronousInventory.code()
    &&& f.status_raw == 0
}

/// What receiving one pushed asynchronous message gives: the message the
/// frame's data decodes to, or the error that stopped it.
pub open spec fn pushed_result<T: ReaderTransport>(
    t0: T,
    t1: T,
    r: Result<AsyncInventoryMessage, ClientError<T::Error>>,
) -> bool {
    &&& r matches Ok(m) ==> exists|f: ReaderFrame|
        #[trigger] pushed(t0, t1, f) && async_message_of(f.data@) == Ok::<
            AsyncMessageView,
            ProtocolError,
        >(m@)
    &&& r matches Err(ClientError::Protocol(e)) ==> (t1.sent() == t0.sent() && reply_rejected(
        t0,
        t1,
        e,
    )) || exists|f: ReaderFrame|
        #[trigger] pushed(t0, t1, f) && async_message_of(f.data@) == Err::<
            AsyncMessageView,
            ProtocolError,
        >(e)
    &&& reply_errors(t0, t1, Seq::empty(), CommandCode::AsynchronousInventory.code(), r)
    &&& read_calls(t0, t1, r)
}

/// High-level host API that returns typed values for common protocol operations.
pub struct SilionHost<T: ReaderTransport> {
    client: ReaderClient<T>,
}

impl<T: ReaderTransport> SilionHost<T> {
    /// The transport under this host.
    pub closed spec fn transport(&self) -> T {
        self.client.inner()
    }

    /// Create a high-level host API from a transport.
    pub fn new(transport: T) -> (r: Self)
        ensures
            r.transport() == transport,
    {
        SilionHost { client: ReaderClient::new(transport) }
    }

    /// Create a high-level host API from an existing low-level client.
    pub fn from_client(client: ReaderClient<T>) -> (r: Self)
        ensures
            r.transport() == client.inner(),
    {
        SilionHost { client }
    }

    /// Consume the host API and return the wrapped transport.
    pub fn into_inner(self) -> (r: T)
        ensures
            r == self.transport(),
    {
        self.client.into_inner()
    }

    /// Return a mutable reference to the wrapped transport.
    ///
    /// Use this to reconfigure transport parameters between operations.
    pub fn transport_mut(&mut self) -> (r: &mut T)
        ensures
            *r == old(self).transport(),
            final(self).transport() == *final(r),
    {
        self.client.transport_mut()
    }

    /// Consume the host API and return the wrapped low-level client.
    pub fn into_client(self) -> (r: ReaderClient<T>)
        ensures
            r.inner() == self.transport(),
    {
        self.client
    }

    /// Convert this host into an [`AsyncInventorySession`].
    ///
    /// The caller must have already sent the async inventory start command via
    /// [`enable_async_inventory`][Self::enable_async_inventory] before calling
    /// this. The transport moves into the session until it is stopped.
    pub fn into_async_session(self) -> (r: AsyncInventorySession<T>)
        ensures
            r.transport() == self.transport(),
    {
        AsyncInventorySession::new(self.client)
    }

    /// Run command `0x91` (Set Antenna Ports).
    ///
    /// The response frame is read but neither its command nor its status is
    /// checked.
    pub fn set_antenna_ports(&mut self, config: &AntennaPortsConfiguration) -> (r: Result<
        (),
        ClientError<T::Error>,
    >)
        ensures
            match antenna_config_data(config@) {
                Err(e) => r == Err::<(), ClientError<T::Error>>(ClientError::Protocol(e))
                    && final(self).transport() == old(self).transport(),
                Ok(d) => if d.len() > MAX_DATA_LEN {
                    r == Err::<(), ClientError<T::Error>>(
                        ClientError::Protocol(ProtocolError::DataTooLong(d.len() as usize)),
                    ) && final(self).transport() == old(self).transport()
                } else {
                    &&& r is Ok ==> exists|f: ReaderFrame|
                        #[trigger] answered(
                            old(self).transport(),
                            final(self).transport(),
                            host_packet(CommandCode::SetAntennaPorts.code(), d),
                            f,
                        )
                    &&& r matches Err(ClientError::Protocol(e)) ==> final(self).transport().sent()
                        == old(self).transport().sent() + host_packet(
                        CommandCode::SetAntennaPorts.code(),
                        d,
                    ) && reply_rejected(old(self).transport(), final(self).transport(), e)
                    &&& !(r matches Err(ClientError::ReaderStatus { .. }))
                    &&& !(r matches Err(ClientError::UnexpectedResponseCommand { .. }))
                    &&& exchange_calls(
                        old(self).transport(),
                        final(self).transport(),
                        host_packet(CommandCode::SetAntennaPorts.code(), d),
                        r,
                    )
                },
            },
    {
        let packet = match HostCommand::set_antenna_ports(config) {
            Ok(p) => p,
            Err(e) => {
                return Err(ClientError::Protocol(e));
            },
        };
        match self.client.transact_frame(packet.as_slice()) {
            Ok(f) => {
                assert(answered(old(self).transport(), self.transport(), packet@, f));
                Ok(())
            },
            Err(e) => Err(e),
        }
    }

    /// Send command `0xAA48` to enable asynchronous inventory.
    ///
    /// After success, the reader can start pushing asynchronous `0xAA` frames.
    pub fn enable_async_inventory(&mut self, start: &AsyncInventoryStartData) -> (r: Result<
        (),
        ClientError<T::Error>,
    >)
        ensures
            ({
                let payload = async_payload(AsyncSubcommandCode::Start.value(), start.spec_bytes());
                if payload.len() > MAX_DATA_LEN {
                    r == Err::<(), ClientError<T::Error>>(
                        ClientError::Protocol(ProtocolError::DataTooLong(payload.len() as usize)),
                    ) && final(self).transport() == old(self).transport()
                } else {
                    query_result(
                        old(self).transport(),
                        final(self).transport(),
                        CommandCode::AsynchronousInventory.code(),
                        payload,
                        |d: Seq<u8>| Ok::<(), ProtocolError>(()),
                        r,
                    )
                }
            }),
    {
        let packet = match HostCommand::async_start(start) {
            Ok(p) => p,
            Err(e) => {
                return Err(ClientError::Protocol(e));
            },
        };
        let ghost payload = async_payload(AsyncSubcommandCode::Start.value(), start.spec_bytes());
        self.exchange_checked(packet.as_slice(), CommandCode::AsynchronousInventory.as_u8(), Ghost(payload))
    }

    /// Send command `0xAA49` to disable asynchronous inventory.
    pub fn disable_async_inventory(&mut self) -> (r: Result<(), ClientError<T::Error>>)
        ensures
            query_result(
                old(self).transport(),
                final(self).transport(),
                CommandCode::AsynchronousInventory.code(),
                async_payload(AsyncSubcommandCode::Stop.value(), Seq::empty()),
                |d: Seq<u8>| Ok::<(), ProtocolError>(()),
                r,
            ),
    {
        let packet = match HostCommand::async_stop() {
            Ok(p) => p,
            Err(e) => {
                return Err(ClientError::Protocol(e));
            },
        };
        let ghost payload = async_payload(AsyncSubcommandCode::Stop.value(), Seq::empty());
        self.exchange_checked(packet.as_slice(), CommandCode::AsynchronousInventory.as_u8(), Ghost(payload))
    }

    /// Send a pre-built packet for `command`, then require the response to
    /// echo `command` with success status.
    pub(crate) fn transact_checked(
        &mut self,
        packet: &[u8],
        command: u8,
        Ghost(data): Ghost<Seq<u8>>,
    ) -> (r: Result<ReaderFrame, ClientError<T::Error>>)
        requires
            packet@ == host_packet(command, data),
        ensures
            r matches Ok(f) ==> query_succeeded(
                old(self).transport(),
                final(self).transport(),
                command,
                data,
                f,
            ) && f.data@.len() <= MAX_DATA_LEN,
            r matches Err(ClientError::Protocol(e)) ==> final(self).transport().sent() == old(
                self,
            ).transport().sent() + host_packet(command, data) && reply_rejected(
                old(self).transport(),
                final(self).transport(),
                e,
            ),
            reply_errors(old(self).transport(), final(self).transport(), host_packet(command, data), command, r),
            exchange_calls(old(self).transport(), final(self).transport(), host_packet(command, data), r),
    {
        let response = match self.client.transact_frame(packet) {
            Ok(f) => f,
            Err(e) => {
                return Err(e);
            },
        };
        let r = crate::client::check_response::<T::Error>(command, response);
        proof {
            assert(answered(old(self).transport(), self.transport(), host_packet(command, data), response));
        }
        r
    }

    /// Send a pre-built packet for `command`, then require the response to
    /// echo `command` with success status; its data is not looked at.
    fn exchange_checked(&mut self, packet: &[u8], command: u8, Ghost(data): Ghost<Seq<u8>>) -> (r: Result<
        (),
        ClientError<T::Error>,
    >)
        requires
            packet@ == host_packet(command, data),
        ensures
            query_result(
                old(self).transport(),
                final(self).transport(),
                command,
                data,
                |d: Seq<u8>| Ok::<(), ProtocolError>(()),
                r,
            ),
    {
        match self.transact_checked(packet, command, Ghost(data)) {
            Ok(f) => {
                assert(query_succeeded(old(self).transport(), self.transport(), command, data, f));
                Ok(())
            },
            Err(e) => Err(e),
        }
    }

    /// Receive one pushed asynchronous inventory message from the reader.
    ///
    /// This method does not send any command. It waits for the next frame and
    /// expects command `0xAA` with success status. The returned enum differentiates
    /// Start/Stop acknowledgements, tag-information packets, heartbeat packets,
    /// and unknown wrapped subcommands.
    pub fn recv_async_inventory_message(&mut self) -> (r: Result<
        AsyncInventoryMessage,
        ClientError<T::Error>,
    >)
        ensures
            pushed_result(old(self).transport(), final(self).transport(), r),
    {
        receive_pushed(&mut self.client)
    }

    /// Run command `0x03` (Get Version) and parse version fields.
    pub fn get_version(&mut self) -> (r: Result<VersionInfo, ClientError<T::Error>>)
        ensures
            query_result(
                old(self).transport(),
                final(self).transport(),
                CommandCode::GetVersion.code(),
                seq![],
                |d: Seq<u8>| version_info_of(d),
                r,
            ),
    {
        let request: [u8; 0] = [];
        proof {
            assert(request@ =~= seq![]);
        }
        let frame = match self.client.transact(CommandCode::GetVersion.as_u8(), &request) {
            Ok(f) => f,
            Err(e) => {
                return Err(e);
            },
        };
        proof {
            assert(query_succeeded(
                old(self).transport(),
                self.transport(),
                CommandCode::GetVersion.code(),
                seq![],
                frame,
            ));
        }
        match parse_version_info(frame.data.as_slice()) {
            Ok(v) => Ok(v),
            Err(e) => Err(ClientError::Protocol(e)),
        }
    }

    /// Run command `0x04` (Boot Firmware).
    pub fn boot_firmware(&mut self) -> (r: Result<(), ClientError<T::Error>>)
        ensures
            query_result(
                old(self).transport(),
                final(self).transport(),
                CommandCode::BootFirmware.code(),
                seq![],
                |d: Seq<u8>| Ok::<(), ProtocolError>(()),
                r,
            ),
    {
        let request: [u8; 0] = [];
        proof {
            assert(request@ =~= seq![]);
        }
        let frame = match self.client.transact(CommandCode::BootFirmware.as_u8(), &request) {
            Ok(f) => f,
            Err(e) => {
                return Err(e);
            },
        };
        proof {
            assert(query_succeeded(
                old(self).transport(),
                self.transport(),
                CommandCode::BootFirmware.code(),
                seq![],
                frame,
            ));
        }
        Ok(())
    }

    /// Run command `0x09` (Boot Bootloader).
    pub fn boot_bootloader(&mut self) -> (r: Result<(), ClientError<T::Error>>)
        ensures
            query_result(
                old(self).transport(),
                final(self).transport(),
                CommandCode::BootBootloader.code(),
                seq![],
                |d: Seq<u8>| Ok::<(), ProtocolError>(()),
                r,
            ),
    {
        let request: [u8; 0] = [];
        proof {
            assert(request@ =~= seq![]);
        }
        let frame = match self.client.transact(CommandCode::BootBootloader.as_u8(), &request) {
            Ok(f) => f,
            Err(e) => {
                return Err(e);
            },
        };
        proof {
            assert(query_succeeded(
                old(self).transport(),
                self.transport(),
                CommandCode::BootBootloader.code(),
                seq![],
                frame,
            ));
        }
        Ok(())
    }

    /// Run command `0x0C` (Get Run Phase) and parse phase enum.
    pub fn get_run_phase(&mut self) -> (r: Result<RunPhase, ClientError<T::Error>>)
        ensures
            query_result(
                old(self).transport(),
                final(self).transport(),
                CommandCode::GetRunPhase.code(),
                seq![],
                |d: Seq<u8>| run_phase_of(d),
                r,
            ),
    {
        let request: [u8; 0] = [];
        proof {
            assert(request@ =~= seq![]);
        }
        let frame = match self.client.transact(CommandCode::GetRunPhase.as_u8(), &request) {
            Ok(f) => f,
            Err(e) => {
                return Err(e);
            },
        };
        proof {
            assert(query_succeeded(
                old(self).transport(),
                self.transport(),
                CommandCode::GetRunPhase.code(),
                seq![],
                frame,
            ));
        }
        match parse_run_phase(frame.data.as_slice()) {
            Ok(v) => Ok(v),
            Err(e) => Err(ClientError::Protocol(e)),
        }
    }

    /// Run command `0x10` (Get Serial Number).
    pub fn get_serial_number(&mut self, option: u8, data_flags: u8) -> (r: Result<
        SerialNumberInfo,
        ClientError<T::Error>,
    >)
        ensures
            query_result(
                old(self).transport(),
                final(self).transport(),
                CommandCode::GetSerialNumber.code(),
                seq![option, data_flags],
                |d: Seq<u8>| serial_number_info_of(d),
                r,
            ),
    {
        let request: [u8; 2] = [option, data_flags];
        proof {
            assert(request@ =~= seq![option, data_flags]);
        }
        let frame = match self.client.transact(CommandCode::GetSerialNumber.as_u8(), &request) {
            Ok(f) => f,
            Err(e) => {
                return Err(e);
            },
        };
        proof {
            assert(query_succeeded(
                old(self).transport(),
                self.transport(),
                CommandCode::GetSerialNumber.code(),
                seq![option, data_flags],
                frame,
            ));
        }
        match parse_serial_number_info(frame.data.as_slice()) {
            Ok(v) => Ok(v),
            Err(e) => Err(ClientError::Protocol(e)),
        }
    }

    /// Run command `0x63` (Get Current Tag Protocol).
    pub fn get_current_tag_protocol(&mut self) -> (r: Result<u16, ClientError<T::Error>>)
        ensures
            query_result(
                old(self).transport(),
                final(self).transport(),
                CommandCode::GetCurrentTagProtocol.code(),
                seq![],
                |d: Seq<u8>| current_tag_protocol_of(d),
                r,
            ),
    {
        let request: [u8; 0] = [];
        proof {
            assert(request@ =~= seq![]);
        }
        let frame = match self.client.transact(CommandCode::GetCurrentTagProtocol.as_u8(), &request) {
            Ok(f) => f,
            Err(e) => {
                return Err(e);
            },
        };
        proof {
            assert(query_succeeded(
                old(self).transport(),
                self.transport(),
                CommandCode::GetCurrentTagProtocol.code(),
                seq![],
                frame,
            ));
        }
        match parse_current_tag_protocol(frame.data.as_slice()) {
            Ok(v) => Ok(v),
            Err(e) => Err(ClientError::Protocol(e)),
        }
    }

    /// Run command `0x97` (Set Current Region).
    ///
    /// Region code values are documented in the Set Current Region section.
    pub fn set_current_region(&mut self, region_code: RegionCode) -> (r: Result<
        (),
        ClientError<T::Error>,
    >)
        ensures
            query_result(
                old(self).transport(),
                final(self).transport(),
                CommandCode::SetCurrentRegion.code(),
                seq![region_code.code()],
                |d: Seq<u8>| Ok::<(), ProtocolError>(()),
                r,
            ),
    {
        let request: [u8; 1] = [region_code.as_u8()];
        proof {
            assert(request@ =~= seq![region_code.code()]);
        }
        let frame = match self.client.transact(CommandCode::SetCurrentRegion.as_u8(), &request) {
            Ok(f) => f,
            Err(e) => {
                return Err(e);
            },
        };
        proof {
            assert(query_succeeded(
                old(self).transport(),
                self.transport(),
                CommandCode::SetCurrentRegion.code(),
                seq![region_code.code()],
                frame,
            ));
        }
        Ok(())
    }

    /// Run command `0x67` (Get Current Region).
    pub fn get_current_region(&mut self) -> (r: Result<RegionCode, ClientError<T::Error>>)
        ensures
            query_result(
                old(self).transport(),
                final(self).transport(),
                CommandCode::GetCurrentRegion.code(),
                seq![],
                |d: Seq<u8>| current_region_of(d),
                r,
            ),
    {
        let request: [u8; 0] = [];
        proof {
            assert(request@ =~= seq![]);
        }
        let frame = match self.client.transact(CommandCode::GetCurrentRegion.as_u8(), &request) {
            Ok(f) => f,
            Err(e) => {
                return Err(e);
            },
        };
        proof {
            assert(query_succeeded(
                old(self).transport(),
                self.transport(),
                CommandCode::GetCurrentRegion.code(),
                seq![],
                frame,
            ));
        }
        match parse_current_region(frame.data.as_slice()) {
            Ok(v) => Ok(v),
            Err(e) => Err(ClientError::Protocol(e)),
        }
    }

    /// Run command `0x71` (Get Available Regions).
    pub fn get_available_regions(&mut self) -> (r: Result<Vec<RegionCode>, ClientError<T::Error>>)
        ensures
            query_result_view(
                old(self).transport(),
                final(self).transport(),
                CommandCode::GetAvailableRegions.code(),
                seq![],
                |d: Seq<u8>| available_regions_of(d),
                r,
            ),
    {
        let request: [u8; 0] = [];
        proof {
            assert(request@ =~= seq![]);
        }
        let frame = match self.client.transact(CommandCode::GetAvailableRegions.as_u8(), &request) {
            Ok(f) => f,
            Err(e) => {
                return Err(e);
            },
        };
        proof {
            assert(query_succeeded(
                old(self).transport(),
                self.transport(),
                CommandCode::GetAvailableRegions.code(),
                seq![],
                frame,
            ));
        }
        match parse_available_regions(frame.data.as_slice()) {
            Ok(v) => Ok(v),
            Err(e) => Err(ClientError::Protocol(e)),
        }
    }

    /// Run command `0x72` (Get Current Temperature).
    pub fn get_current_temperature(&mut self) -> (r: Result<u8, ClientError<T::Error>>)
        ensures
            query_result(
                old(self).transport(),
                final(self).transport(),
                CommandCode::GetCurrentTemperature.code(),
                seq![],
                |d: Seq<u8>| temperature_of(d),
                r,
            ),
    {
        let request: [u8; 0] = [];
        proof {
            assert(request@ =~= seq![]);
        }
        let frame = match self.client.transact(CommandCode::GetCurrentTemperature.as_u8(), &request) {
            Ok(f) => f,
            Err(e) => {
                return Err(e);
            },
        };
        proof {
            assert(query_succeeded(
                old(self).transport(),
                self.transport(),
                CommandCode::GetCurrentTemperature.code(),
                seq![],
                frame,
            ));
        }
        match parse_current_temperature(frame.data.as_slice()) {
            Ok(v) => Ok(v),
            Err(e) => Err(ClientError::Protocol(e)),
        }
    }

    /// Run command `0x66` (Get GPI) and return pin states.
    pub fn get_gpi(&mut self) -> (r: Result<Vec<u8>, ClientError<T::Error>>)
        ensures
            query_result_view(
                old(self).transport(),
                final(self).transport(),
                CommandCode::GetGpi.code(),
                seq![],
                |d: Seq<u8>| pin_states_of(d),
                r,
            ),
    {
        let request: [u8; 0] = [];
        proof {
            assert(request@ =~= seq![]);
        }
        let frame = match self.client.transact(CommandCode::GetGpi.as_u8(), &request) {
            Ok(f) => f,
            Err(e) => {
                return Err(e);
            },
        };
        proof {
            assert(query_succeeded(
                old(self).transport(),
                self.transport(),
                CommandCode::GetGpi.code(),
                seq![],
                frame,
            ));
        }
        match parse_pin_states(frame.data.as_slice()) {
            Ok(v) => Ok(v),
            Err(e) => Err(ClientError::Protocol(e)),
        }
    }

    /// Run command `0x96` with empty payload to read GPO states.
    pub fn get_gpo_states(&mut self) -> (r: Result<Vec<u8>, ClientError<T::Error>>)
        ensures
            query_result_view(
                old(self).transport(),
                final(self).transport(),
                CommandCode::SetGpo.code(),
                seq![],
                |d: Seq<u8>| pin_states_of(d),
                r,
            ),
    {
        let request: [u8; 0] = [];
        proof {
            assert(request@ =~= seq![]);
        }
        let frame = match self.client.transact(CommandCode::SetGpo.as_u8(), &request) {
            Ok(f) => f,
            Err(e) => {
                return Err(e);
            },
        };
        proof {
            assert(query_succeeded(
                old(self).transport(),
                self.transport(),
                CommandCode::SetGpo.code(),
                seq![],
                frame,
            ));
        }
        match parse_pin_states(frame.data.as_slice()) {
            Ok(v) => Ok(v),
            Err(e) => Err(ClientError::Protocol(e)),
        }
    }

    /// Run command `0x65` (Get Frequency Hopping table form).
    ///
    /// Returned values are kHz frequencies.
    pub fn get_frequency_hopping_table(&mut self) -> (r: Result<Vec<u32>, ClientError<T::Error>>)
        ensures
            query_result_view(
                old(self).transport(),
                final(self).transport(),
                CommandCode::GetFrequencyHopping.code(),
                seq![],
                |d: Seq<u8>| frequency_table_of(d),
                r,
            ),
    {
        let request: [u8; 0] = [];
        proof {
            assert(request@ =~= seq![]);
        }
        let frame = match self.client.transact(CommandCode::GetFrequencyHopping.as_u8(), &request) {
            Ok(f) => f,
            Err(e) => {
                return Err(e);
            },
        };
        proof {
            assert(query_succeeded(
                old(self).transport(),
                self.transport(),
                CommandCode::GetFrequencyHopping.code(),
                seq![],
                frame,
            ));
        }
        match parse_frequency_hopping_table(frame.data.as_slice()) {
            Ok(v) => Ok(v),
            Err(e) => Err(ClientError::Protocol(e)),
        }
    }

    /// Run command `0x65` with option `0x01` (Regulatory Hopping Time).
    pub fn get_regulatory_hop_time(&mut self) -> (r: Result<
        RegulatoryHopTime,
        ClientError<T::Error>,
    >)
        ensures
            query_result(
                old(self).transport(),
                final(self).transport(),
                CommandCode::GetFrequencyHopping.code(),
                seq![0x01u8],
                |d: Seq<u8>| regulatory_hop_time_of(d),
                r,
            ),
    {
        let request: [u8; 1] = [0x01u8];
        proof {
            assert(request@ =~= seq![0x01u8]);
        }
        let frame = match self.client.transact(CommandCode::GetFrequencyHopping.as_u8(), &request) {
            Ok(f) => f,
            Err(e) => {
                return Err(e);
            },
        };
        proof {
            assert(query_succeeded(
                old(self).transport(),
                self.transport(),
                CommandCode::GetFrequencyHopping.code(),
                seq![0x01u8],
                frame,
            ));
        }
        match parse_regulatory_hop_time(frame.data.as_slice()) {
            Ok(v) => Ok(v),
            Err(e) => Err(ClientError::Protocol(e)),
        }
    }

    /// Run command `0x61` (Get Antenna Ports) and decode by option.
    pub fn get_antenna_ports(&mut self, option: AntennaPortsOption) -> (r: Result<
        AntennaPortsResponse,
        ClientError<T::Error>,
    >)
        ensures
            query_result_view(
                old(self).transport(),
                final(self).transport(),
                CommandCode::GetAntennaPorts.code(),
                seq![option.code()],
                |d: Seq<u8>| antenna_response(option, d),
                r,
            ),
    {
        let request: [u8; 1] = [option.as_u8()];
        proof {
            assert(request@ =~= seq![option.code()]);
        }
        let frame = match self.client.transact(CommandCode::GetAntennaPorts.as_u8(), &request) {
            Ok(f) => f,
            Err(e) => {
                return Err(e);
            },
        };
        proof {
            assert(query_succeeded(
                old(self).transport(),
                self.transport(),
                CommandCode::GetAntennaPorts.code(),
                seq![option.code()],
                frame,
            ));
        }
        match parse_antenna_ports_response(option, frame.data.as_slice()) {
            Ok(v) => Ok(v),
            Err(e) => Err(ClientError::Protocol(e)),
        }
    }

    /// Run command `0x6A` (Get Reader Configuration).
    pub fn get_reader_configuration(&mut self, option: u8, key: u8) -> (r: Result<
        ReaderConfigurationValue,
        ClientError<T::Error>,
    >)
        ensures
            query_result(
                old(self).transport(),
                final(self).transport(),
                CommandCode::GetReaderConfiguration.code(),
                seq![option, key],
                |d: Seq<u8>| reader_configuration_of(d),
                r,
            ),
    {
        let request: [u8; 2] = [option, key];
        proof {
            assert(request@ =~= seq![option, key]);
        }
        let frame = match self.client.transact(CommandCode::GetReaderConfiguration.as_u8(), &request) {
            Ok(f) => f,
            Err(e) => {
                return Err(e);
            },
        };
        proof {
            assert(query_succeeded(
                old(self).transport(),
                self.transport(),
                CommandCode::GetReaderConfiguration.code(),
                seq![option, key],
                frame,
            ));
        }
        match parse_reader_configuration_value(frame.data.as_slice()) {
            Ok(v) => Ok(v),
            Err(e) => Err(ClientError::Protocol(e)),
        }
    }

    /// Run command `0x6B` (Get Protocol Configuration).
    pub fn get_protocol_configuration(&mut self, protocol_value: u8, parameter: u8) -> (r: Result<
        ProtocolConfigurationValue,
        ClientError<T::Error>,
    >)
        ensures
            query_result(
                old(self).transport(),
                final(self).transport(),
                CommandCode::GetProtocolConfiguration.code(),
                seq![protocol_value, parameter],
                |d: Seq<u8>| protocol_configuration_of(d),
                r,
            ),
    {
        let request: [u8; 2] = [protocol_value, parameter];
        proof {
            assert(request@ =~= seq![protocol_value, parameter]);
        }
        let frame = match self.client.transact(CommandCode::GetProtocolConfiguration.as_u8(), &request) {
            Ok(f) => f,
            Err(e) => {
                return Err(e);
            },
        };
        proof {
            assert(query_succeeded(
                old(self).transport(),
                self.transport(),
                CommandCode::GetProtocolConfiguration.code(),
                seq![protocol_value, parameter],
                frame,
            ));
        }
        match parse_protocol_configuration_value(frame.data.as_slice()) {
            Ok(v) => Ok(v),
            Err(e) => Err(ClientError::Protocol(e)),
        }
    }

}

/// Read one pushed frame, require command `0xAA` with success status, and
/// decode its data as an asynchronous inventory message.
pub(crate) fn receive_pushed<T: ReaderTransport>(client: &mut ReaderClient<T>) -> (r: Result<
    AsyncInventoryMessage,
    ClientError<T::Error>,
>)
    ensures
        pushed_result(old(client).inner(), final(client).inner(), r),
{
    let frame = match client.read_frame() {
        Ok(f) => f,
        Err(e) => {
            return Err(e);
        },
    };
    proof {
        assert(client.inner().sent() =~= old(client).inner().sent() + Seq::<u8>::empty());
        assert(answered(old(client).inner(), client.inner(), Seq::empty(), frame));
    }
    let frame = match crate::client::check_response::<T::Error>(
        CommandCode::AsynchronousInventory.as_u8(),
        frame,
    ) {
        Ok(f) => f,
        Err(e) => {
            return Err(e);
        },
    };
    assert(pushed(old(client).inner(), client.inner(), frame));
    match parse_async_frame_data(frame.data.as_slice()) {
        Ok(m) => Ok(m),
        Err(e) => Err(ClientError::Protocol(e)),
    }
}

} // verus!
