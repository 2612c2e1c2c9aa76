//! High-level reader API: the typed queries of [`SilionHost`], plus tag
//! operations that take a [`SelectOption`].

use vstd::prelude::*;

use crate::antenna::{antenna_config_data, antenna_response, AntennaPortsConfiguration, AntennaPortsResponse};
use crate::async_proto::async_payload;
use crate::bytes::{u16_be, u32_be};
use crate::client::{answered, exchange_calls, reply_rejected, ClientError, ReaderClient};
use crate::codes::{AntennaPortsOption, CommandCode, RegionCode, StatusCode};
use crate::command::{
    has_bit8, opt_flags_bytes, set_bit8, AsyncSubcommandCode, MemBank, MetadataFlags,
};
use crate::error::ProtocolError;
use crate::frame::{build_host_frame, host_packet, ReaderFrame, MAX_DATA_LEN};
use crate::host::{
    pushed_result, query_result, query_result_view, query_succeeded, reply_errors,
    AsyncInventoryMessage, SilionHost,
};
use crate::host_command::{read_tag_data_data, single_tag_inventory_data, HostCommand};
use crate::parsers::{
    available_regions_of, current_region_of, current_tag_protocol_of, frequency_table_of,
    pin_states_of, protocol_configuration_of, reader_configuration_of, regulatory_hop_time_of,
    run_phase_of, serial_number_info_of, temperature_of, version_info_of,
    ProtocolConfigurationValue, ReaderConfigurationValue, RegulatoryHopTime, RunPhase,
    SerialNumberInfo, VersionInfo,
};
use crate::select::{ReaderAsyncInventoryStartData, SelectOption};
use crate::session::AsyncInventorySession;
use crate::tag::{
    lemma_single_response_fits, parse_single_tag_inventory_response, parse_tag_epc_and_meta_data,
    single_response, tag_block, TagEpcAndMetaData, TagView,
};
use crate::transport::ReaderTransport;

verus! {

/// The option byte a single-tag request sends: the select option's byte,
/// with bit 4 (`0x10`) set exactly when metadata is requested.
pub open spec fn single_tag_option(select: SelectOption, flags: Option<MetadataFlags>) -> u8 {
    set_bit8(select.option_byte(), 0x10u8, flags is Some)
}

/// The data field of a Single Tag Inventory (`0x21`) request.
pub open spec fn single_tag_request(
    timeout_ms: u16,
    select: SelectOption,
    flags: Option<MetadataFlags>,
) -> Seq<u8> {
    u16_be(timeout_ms) + seq![single_tag_option(select, flags)] + opt_flags_bytes(flags)
        + select.content_bytes()
}

/// The tag a Single Tag Inventory response carries.
pub open spec fn single_tag_answer(option: u8, d: Seq<u8>) -> Result<TagView, ProtocolError> {
    match single_response(option, d) {
        Ok((_, t)) => Ok(t),
        Err(e) => Err(e),
    }
}

/// The data field of a Read Tag Data (`0x28`) request, without password.
pub open spec fn read_tag_request(
    timeout_ms: u16,
    select: SelectOption,
    flags: Option<MetadataFlags>,
    read_membank: MemBank,
    read_address_words: u32,
    word_count: u8,
) -> Seq<u8> {
    u16_be(timeout_ms) + seq![single_tag_option(select, flags)] + opt_flags_bytes(flags) + seq![
        read_membank.code(),
    ] + u32_be(read_address_words) + seq![word_count] + select.content_bytes()
}

/// What a Read Tag Data response carries. When its option byte has bit 4
/// set, the whole data field, option byte included, is read as a tag block
/// under the requested metadata flags (none when none were requested).
/// Otherwise the bytes after the option byte are the tag data, and every
/// other field is empty or zero.
pub open spec fn read_tag_answer(flags: Option<MetadataFlags>, d: Seq<u8>) -> Result<TagView, ProtocolError> {
    if d.len() == 0 {
        Err(ProtocolError::InvalidResponse("read tag data response missing option"))
    } else if has_bit8(d[0], 0x10u8) {
        tag_block(
            match flags {
                Some(f) => f@,
                None => 0u16,
            },
            d,
        )
    } else {
        Ok(
            TagView {
                read_count: None,
                rssi_dbm: None,
                antenna_id: None,
                frequency_khz: None,
                timestamp_ms: None,
                rfu: None,
                protocol_id: None,
                tag_data_bit_length: Some(((d.len() - 1) * 8) as u16),
                tag_data: Some(d.subrange(1, d.len() as int)),
                epc_bit_length: 0,
                pc_word: 0,
                epc_id: Seq::empty(),
                tag_crc: 0,
            },
        )
    }
}

/// High-level reader API that returns typed values for common protocol operations.
pub struct SilionReader<T: ReaderTransport> {
    host: SilionHost<T>,
}

impl<T: ReaderTransport> SilionReader<T> {
    /// The transport under this reader.
    pub closed spec fn transport(&self) -> T {
        self.host.transport()
    }

    /// Create a high-level reader API from a transport.
    pub fn new(transport: T) -> (r: Self)
        ensures
            r.transport() == transport,
    {
        SilionReader { host: SilionHost::new(transport) }
    }

    /// Create a high-level reader API from an existing low-level client.
    pub fn from_client(client: ReaderClient<T>) -> (r: Self)
        ensures
            r.transport() == client.inner(),
    {
        SilionReader { host: SilionHost::from_client(client) }
    }

    /// Consume the reader API and return the wrapped transport.
    pub fn into_inner(self) -> (r: T)
        ensures
            r == self.transport(),
    {
        self.host.into_inner()
    }

    /// Return a mutable reference to the wrapped transport.
    pub fn transport_mut(&mut self) -> (r: &mut T)
        ensures
            *r == old(self).transport(),
            final(self).transport() == *final(r),
    {
        self.host.transport_mut()
    }

    /// Consume the reader API and return the wrapped low-level client.
    pub fn into_client(self) -> (r: ReaderClient<T>)
        ensures
            r.inner() == self.transport(),
    {
        self.host.into_client()
    }

    /// Run a raw command transaction and return the validated response frame.
    ///
    /// This is useful for callers that need command coverage beyond the typed
    /// helper methods on `SilionReader`.
    pub fn transact_raw(&mut self, command: u8, data: &[u8]) -> (r: Result<
        ReaderFrame,
        ClientError<T::Error>,
    >)
        ensures
            data@.len() > MAX_DATA_LEN ==> r == Err::<ReaderFrame, ClientError<T::Error>>(
                ClientError::Protocol(ProtocolError::DataTooLong(data@.len() as usize)),
            ) && final(self).transport() == old(self).transport(),
            data@.len() <= MAX_DATA_LEN ==> exchange_calls(
                old(self).transport(),
                final(self).transport(),
                host_packet(command, data@),
                r,
            ),
            data@.len() <= MAX_DATA_LEN ==> (r matches Err(ClientError::Protocol(e))
                ==> final(self).transport().sent() == old(self).transport().sent() + host_packet(
                command,
                data@,
            ) && reply_rejected(old(self).transport(), final(self).transport(), e)),
            r matches Ok(f) ==> query_succeeded(
                old(self).transport(),
                final(self).transport(),
                command,
                data@,
                f,
            ) && f.status == Some(StatusCode::Success) && f.data@.len() <= MAX_DATA_LEN,
            reply_errors(
                old(self).transport(),
                final(self).transport(),
                host_packet(command, data@),
                command,
                r,
            ),
    {
        let packet = match build_host_frame(command, data) {
            Ok(p) => p,
            Err(e) => {
                return Err(ClientError::Protocol(e));
            },
        };
        proof {
            crate::codes::lemma_status_code_round_trip(StatusCode::Success, 0);
        }
        self.host.transact_checked(packet.as_slice(), command, Ghost(data@))
    }

    /// Convert this reader into an [`AsyncInventorySession`].
    pub fn into_async_session(self) -> (r: AsyncInventorySession<T>)
        ensures
            r.transport() == self.transport(),
    {
        self.host.into_async_session()
    }

    /// Run command `0x03` (Get Version) and parse version fields.
    pub fn get_version(&mut self) -> (r: Result<VersionInfo, ClientError<T::Error>>)
        ensures
            query_result(
                old(self).transport(),
                final(self).transport(),
                CommandCode::GetVersion.code(),
                seq![],
                |d: Seq<u8>| version_info_of(d),
                r,
            ),
    {
        self.host.get_version()
    }

    /// Run command `0x04` (Boot Firmware).
    pub fn boot_firmware(&mut self) -> (r: Result<(), ClientError<T::Error>>)
        ensures
            query_result(
                old(self).transport(),
                final(self).transport(),
                CommandCode::BootFirmware.code(),
                seq![],
                |d: Seq<u8>| Ok::<(), ProtocolError>(()),
                r,
            ),
    {
        self.host.boot_firmware()
    }

    /// Run command `0x09` (Boot Bootloader).
    pub fn boot_bootloader(&mut self) -> (r: Result<(), ClientError<T::Error>>)
        ensures
            query_result(
                old(self).transport(),
                final(self).transport(),
                CommandCode::BootBootloader.code(),
                seq![],
                |d: Seq<u8>| Ok::<(), ProtocolError>(()),
                r,
            ),
    {
        self.host.boot_bootloader()
    }

    /// Run command `0x0C` (Get Run Phase) and parse phase enum.
    pub fn get_run_phase(&mut self) -> (r: Result<RunPhase, ClientError<T::Error>>)
        ensures
            query_result(
                old(self).transport(),
                final(self).transport(),
                CommandCode::GetRunPhase.code(),
                seq![],
                |d: Seq<u8>| run_phase_of(d),
                r,
            ),
    {
        self.host.get_run_phase()
    }

    /// Run command `0x10` (Get Serial Number).
    pub fn get_serial_number(&mut self, option: u8, data_flags: u8) -> (r: Result<
        SerialNumberInfo,
        ClientError<T::Error>,
    >)
        ensures
            query_result(
                old(self).transport(),
                final(self).transport(),
                CommandCode::GetSerialNumber.code(),
                seq![option, data_flags],
                |d: Seq<u8>| serial_number_info_of(d),
                r,
            ),
    {
        self.host.get_serial_number(option, data_flags)
    }

    /// Run command `0x63` (Get Current Tag Protocol).
    pub fn get_current_tag_protocol(&mut self) -> (r: Result<u16, ClientError<T::Error>>)
        ensures
            query_result(
                old(self).transport(),
                final(self).transport(),
                CommandCode::GetCurrentTagProtocol.code(),
                seq![],
                |d: Seq<u8>| current_tag_protocol_of(d),
                r,
            ),
    {
        self.host.get_current_tag_protocol()
    }

    /// Run command `0x97` (Set Current Region).
    ///
    /// Region code values are documented in the Set Current Region section.
    pub fn set_current_region(&mut self, region_code: RegionCode) -> (r: Result<
        (),
        ClientError<T::Error>,
    >)
        ensures
            query_result(
                old(self).transport(),
                final(self).transport(),
                CommandCode::SetCurrentRegion.code(),
                seq![region_code.code()],
                |d: Seq<u8>| Ok::<(), ProtocolError>(()),
                r,
            ),
    {
        self.host.set_current_region(region_code)
    }

    /// Run command `0x67` (Get Current Region).
    pub fn get_current_region(&mut self) -> (r: Result<RegionCode, ClientError<T::Error>>)
        ensures
            query_result(
                old(self).transport(),
                final(self).transport(),
                CommandCode::GetCurrentRegion.code(),
                seq![],
                |d: Seq<u8>| current_region_of(d),
                r,
            ),
    {
        self.host.get_current_region()
    }

    /// Run command `0x71` (Get Available Regions).
    pub fn get_available_regions(&mut self) -> (r: Result<Vec<RegionCode>, ClientError<T::Error>>)
        ensures
            query_result_view(
                old(self).transport(),
                final(self).transport(),
                CommandCode::GetAvailableRegions.code(),
                seq![],
                |d: Seq<u8>| available_regions_of(d),
                r,
            ),
    {
        self.host.get_available_regions()
    }

    /// Run command `0x72` (Get Current Temperature).
    pub fn get_current_temperature(&mut self) -> (r: Result<u8, ClientError<T::Error>>)
        ensures
            query_result(
                old(self).transport(),
                final(self).transport(),
                CommandCode::GetCurrentTemperature.code(),
                seq![],
                |d: Seq<u8>| temperature_of(d),
                r,
            ),
    {
        self.host.get_current_temperature()
    }

    /// Run command `0x66` (Get GPI) and return pin states.
    pub fn get_gpi(&mut self) -> (r: Result<Vec<u8>, ClientError<T::Error>>)
        ensures
            query_result_view(
                old(self).transport(),
                final(self).transport(),
                CommandCode::GetGpi.code(),
                seq![],
                |d: Seq<u8>| pin_states_of(d),
                r,
            ),
    {
        self.host.get_gpi()
    }

    /// Run command `0x96` with empty payload to read GPO states.
    pub fn get_gpo_states(&mut self) -> (r: Result<Vec<u8>, ClientError<T::Error>>)
        ensures
            query_result_view(
                old(self).transport(),
                final(self).transport(),
                CommandCode::SetGpo.code(),
                seq![],
                |d: Seq<u8>| pin_states_of(d),
                r,
            ),
    {
        self.host.get_gpo_states()
    }

    /// Run command `0x65` (Get Frequency Hopping table form).
    ///
    /// Returned values are kHz frequencies.
    pub fn get_frequency_hopping_table(&mut self) -> (r: Result<Vec<u32>, ClientError<T::Error>>)
        ensures
            query_result_view(
                old(self).transport(),
                final(self).transport(),
                CommandCode::GetFrequencyHopping.code(),
                seq![],
                |d: Seq<u8>| frequency_table_of(d),
                r,
            ),
    {
        self.host.get_frequency_hopping_table()
    }

    /// Run command `0x65` with option `0x01` (Regulatory Hopping Time).
    pub fn get_regulatory_hop_time(&mut self) -> (r: Result<
        RegulatoryHopTime,
        ClientError<T::Error>,
    >)
        ensures
            query_result(
                old(self).transport(),
                final(self).transport(),
                CommandCode::GetFrequencyHopping.code(),
                seq![0x01u8],
                |d: Seq<u8>| regulatory_hop_time_of(d),
                r,
            ),
    {
        self.host.get_regulatory_hop_time()
    }

    /// Run command `0x61` (Get Antenna Ports) and decode by option.
    pub fn get_antenna_ports(&mut self, option: AntennaPortsOption) -> (r: Result<
        AntennaPortsResponse,
        ClientError<T::Error>,
    >)
        ensures
            query_result_view(
                old(self).transport(),
                final(self).transport(),
                CommandCode::GetAntennaPorts.code(),
                seq![option.code()],
                |d: Seq<u8>| antenna_response(option, d),
                r,
            ),
    {
        self.host.get_antenna_ports(option)
    }

    /// Run command `0x6A` (Get Reader Configuration).
    pub fn get_reader_configuration(&mut self, option: u8, key: u8) -> (r: Result<
        ReaderConfigurationValue,
        ClientError<T::Error>,
    >)
        ensures
            query_result(
                old(self).transport(),
                final(self).transport(),
                CommandCode::GetReaderConfiguration.code(),
                seq![option, key],
                |d: Seq<u8>| reader_configuration_of(d),
                r,
            ),
    {
        self.host.get_reader_configuration(option, key)
    }

    /// Run command `0x6B` (Get Protocol Configuration).
    pub fn get_protocol_configuration(&mut self, protocol_value: u8, parameter: u8) -> (r: Result<
        ProtocolConfigurationValue,
        ClientError<T::Error>,
    >)
        ensures
            query_result(
                old(self).transport(),
                final(self).transport(),
                CommandCode::GetProtocolConfiguration.code(),
                seq![protocol_value, parameter],
                |d: Seq<u8>| protocol_configuration_of(d),
                r,
            ),
    {
        self.host.get_protocol_configuration(protocol_value, parameter)
    }

    /// Run command `0x91` (Set Antenna Ports).
    ///
    /// The response frame is read but neither its command nor its status is
    /// checked.
    pub fn set_antenna_ports(&mut self, config: &AntennaPortsConfiguration) -> (r: Result<
        (),
        ClientError<T::Error>,
    >)
        ensures
            match antenna_config_data(config@) {
                Err(e) => r == Err::<(), ClientError<T::Error>>(ClientError::Protocol(e))
                    && final(self).transport() == old(self).transport(),
                Ok(d) => if d.len() > MAX_DATA_LEN {
                    r == Err::<(), ClientError<T::Error>>(
                        ClientError::Protocol(ProtocolError::DataTooLong(d.len() as usize)),
                    ) && final(self).transport() == old(self).transport()
                } else {
                    &&& r is Ok ==> exists|f: ReaderFrame|
                        #[trigger] answered(
                            old(self).transport(),
                            final(self).transport(),
                            host_packet(CommandCode::SetAntennaPorts.code(), d),
                            f,
                        )
                    &&& r matches Err(ClientError::Protocol(e)) ==> final(self).transport().sent()
                        == old(self).transport().sent() + host_packet(
                        CommandCode::SetAntennaPorts.code(),
                        d,
                    ) && reply_rejected(old(self).transport(), final(self).transport(), e)
                    &&& !(r matches Err(ClientError::ReaderStatus { .. }))
                    &&& !(r matches Err(ClientError::UnexpectedResponseCommand { .. }))
                    &&& exchange_calls(
                        old(self).transport(),
                        final(self).transport(),
                        host_packet(CommandCode::SetAntennaPorts.code(), d),
                        r,
                    )
                },
            },
    {
        let r = self.host.set_antenna_ports(config);
        proof {
            if let Ok(d) = antenna_config_data(config@) {
                if d.len() <= MAX_DATA_LEN && r is Ok {
                    let req = host_packet(CommandCode::SetAntennaPorts.code(), d);
                    let f = choose|f: ReaderFrame|
                        #[trigger] answered(old(self).host.transport(), self.host.transport(), req, f);
                    assert(answered(old(self).transport(), self.transport(), req, f));
                }
            }
        }
        r
    }

    /// Send command `0xAA48` to enable asynchronous inventory, with the
    /// select content and option byte that `start.select_option` stands for.
    pub fn enable_async_inventory(&mut self, start: &ReaderAsyncInventoryStartData) -> (r: Result<
        (),
        ClientError<T::Error>,
    >)
        ensures
            ({
                let payload = async_payload(AsyncSubcommandCode::Start.value(), start.spec_bytes());
                if payload.len() > MAX_DATA_LEN {
                    r == Err::<(), ClientError<T::Error>>(
                        ClientError::Protocol(ProtocolError::DataTooLong(payload.len() as usize)),
                    ) && final(self).transport() == old(self).transport()
                } else {
                    query_result(
                        old(self).transport(),
                        final(self).transport(),
                        CommandCode::AsynchronousInventory.code(),
                        payload,
                        |d: Seq<u8>| Ok::<(), ProtocolError>(()),
                        r,
                    )
                }
            }),
    {
        let command_data = start.to_command_data();
        self.host.enable_async_inventory(&command_data)
    }

    /// Send command `0xAA49` to disable asynchronous inventory.
    pub fn disable_async_inventory(&mut self) -> (r: Result<(), ClientError<T::Error>>)
        ensures
            query_result(
                old(self).transport(),
                final(self).transport(),
                CommandCode::AsynchronousInventory.code(),
                async_payload(AsyncSubcommandCode::Stop.value(), Seq::empty()),
                |d: Seq<u8>| Ok::<(), ProtocolError>(()),
                r,
            ),
    {
        self.host.disable_async_inventory()
    }

    /// Receive one pushed asynchronous inventory message from the reader.
    pub fn recv_async_inventory_message(&mut self) -> (r: Result<
        AsyncInventoryMessage,
        ClientError<T::Error>,
    >)
        ensures
            pushed_result(old(self).transport(), final(self).transport(), r),
    {
        self.host.recv_async_inventory_message()
    }

    /// Perform a single tag inventory read using command `0x21` (Single Tag Inventory).
    ///
    /// This command inventories one tag within the specified timeout and returns the
    /// parsed tag data with requested metadata. Option bit 4 (`0x10`) is set
    /// exactly when metadata flags are given.
    ///
    /// Returns the tag EPC and metadata, or an error if no tag is found or timeout occurs.
    pub fn single_tag_inventory(
        &mut self,
        timeout_ms: u16,
        select_option: SelectOption,
        metadata_flags: Option<MetadataFlags>,
    ) -> (r: Result<TagEpcAndMetaData, ClientError<T::Error>>)
        ensures
            ({
                let req = single_tag_request(timeout_ms, select_option, metadata_flags);
                if req.len() > MAX_DATA_LEN {
                    r == Err::<TagEpcAndMetaData, ClientError<T::Error>>(
                        ClientError::Protocol(ProtocolError::DataTooLong(req.len() as usize)),
                    ) && final(self).transport() == old(self).transport()
                } else {
                    query_result_view(
                        old(self).transport(),
                        final(self).transport(),
                        CommandCode::SingleTagInventory.code(),
                        req,
                        |d: Seq<u8>|
                            single_tag_answer(single_tag_option(select_option, metadata_flags), d),
                        r,
                    )
                }
            }),
    {
        let (option, select_content) = select_option.option_content();
        let option = option.with_single_tag_metadata(metadata_flags.is_some());
        let ghost content = select_content;
        let ghost req = single_tag_request(timeout_ms, select_option, metadata_flags);
        let packet = match HostCommand::single_tag_inventory(
            timeout_ms,
            option.raw(),
            metadata_flags,
            select_content,
        ) {
            Ok(p) => p,
            Err(e) => {
                assert(single_tag_inventory_data(timeout_ms, option@, metadata_flags, content)
                    =~= req);
                return Err(ClientError::Protocol(e));
            },
        };
        assert(single_tag_inventory_data(timeout_ms, option@, metadata_flags, content) =~= req);
        let frame = match self.host.transact_checked(
            packet.as_slice(),
            CommandCode::SingleTagInventory.as_u8(),
            Ghost(req),
        ) {
            Ok(f) => f,
            Err(e) => {
                return Err(e);
            },
        };
        proof {
            lemma_single_response_fits(option@, frame.data@);
            assert(query_succeeded(
                old(self).transport(),
                self.transport(),
                CommandCode::SingleTagInventory.code(),
                req,
                frame,
            ));
        }
        match parse_single_tag_inventory_response(option.raw(), frame.data.as_slice()) {
            Ok((_flags, tag)) => Ok(tag),
            Err(e) => Err(ClientError::Protocol(e)),
        }
    }

    /// Run command `0x28` (Read Tag Data) and parse the returned tag payload.
    ///
    /// This helper performs a single-tag read against the requested memory bank,
    /// optionally including metadata fields in the response.
    ///
    /// * `read_membank` - Memory bank to read from (Gen2 0x01=EPC, 0x02=TID, 0x03=User)
    /// * `read_address_words` - Start address in 16-bit words within `read_membank`
    /// * `word_count` - Number of 16-bit words to read (protocol range `1..=96`)
    ///
    /// A response with an empty data field is refused as an invalid response.
    pub fn read_tag_data(
        &mut self,
        timeout_ms: u16,
        select_option: SelectOption,
        metadata_flags: Option<MetadataFlags>,
        read_membank: MemBank,
        read_address_words: u32,
        word_count: u8,
    ) -> (r: Result<TagEpcAndMetaData, ClientError<T::Error>>)
        ensures
            ({
                let req = read_tag_request(
                    timeout_ms,
                    select_option,
                    metadata_flags,
                    read_membank,
                    read_address_words,
                    word_count,
                );
                if word_count == 0 || word_count > 96 {
                    r == Err::<TagEpcAndMetaData, ClientError<T::Error>>(
                        ClientError::Protocol(
                            ProtocolError::InvalidArgument("word_count must be in 1..=96"),
                        ),
                    ) && final(self).transport() == old(self).transport()
                } else if req.len() > MAX_DATA_LEN {
                    r == Err::<TagEpcAndMetaData, ClientError<T::Error>>(
                        ClientError::Protocol(ProtocolError::DataTooLong(req.len() as usize)),
                    ) && final(self).transport() == old(self).transport()
                } else {
                    query_result_view(
                        old(self).transport(),
                        final(self).transport(),
                        CommandCode::ReadTagData.code(),
                        req,
                        |d: Seq<u8>| read_tag_answer(metadata_flags, d),
                        r,
                    )
                }
            }),
    {
        let (option, select_content) = select_option.option_content();
        let option = option.with_single_tag_metadata(metadata_flags.is_some());
        let ghost content = select_content;
        let ghost req = read_tag_request(
            timeout_ms,
            select_option,
            metadata_flags,
            read_membank,
            read_address_words,
            word_count,
        );
        let ghost built = read_tag_data_data(
            timeout_ms,
            option@,
            metadata_flags,
            read_membank,
            read_address_words,
            word_count,
            None,
            content,
        );
        let packet = match HostCommand::read_tag_data(
            timeout_ms,
            option.raw(),
            metadata_flags,
            read_membank,
            read_address_words,
            word_count,
            None,
            select_content,
        ) {
            Ok(p) => p,
            Err(e) => {
                assert(built =~= req);
                return Err(ClientError::Protocol(e));
            },
        };
        assert(built =~= req);
        let frame = match self.host.transact_checked(
            packet.as_slice(),
            CommandCode::ReadTagData.as_u8(),
            Ghost(req),
        ) {
            Ok(f) => f,
            Err(e) => {
                return Err(e);
            },
        };
        proof {
            assert(query_succeeded(
                old(self).transport(),
                self.transport(),
                CommandCode::ReadTagData.code(),
                req,
                frame,
            ));
        }
        match decode_read_tag_data(metadata_flags, frame.data.as_slice()) {
            Ok(tag) => Ok(tag),
            Err(e) => Err(ClientError::Protocol(e)),
        }
    }
}

/// Decode the data field of a successful Read Tag Data response.
pub fn decode_read_tag_data(metadata_flags: Option<MetadataFlags>, data: &[u8]) -> (r: Result<
    TagEpcAndMetaData,
    ProtocolError,
>)
    requires
        data@.len() <= MAX_DATA_LEN,
    ensures
        match read_tag_answer(metadata_flags, data@) {
            Ok(t) => (r matches Ok(x) && x@ == t),
            Err(e) => r == Err::<TagEpcAndMetaData, ProtocolError>(e),
        },
{
    if data.len() == 0 {
        return Err(ProtocolError::InvalidResponse("read tag data response missing option"));
    }
    let returned_options = crate::command::InventoryOption::from_raw(data[0]);
    if returned_options.single_tag_metadata_enabled() {
        let flags = match metadata_flags {
            Some(f) => f,
            None => MetadataFlags::none(),
        };
        parse_tag_epc_and_meta_data(flags, data)
    } else {
        let frame_data = vstd::slice::slice_to_vec(&data[1..data.len()]);
        let bits: u16 = (frame_data.len() as u16) * 8;
        Ok(
            TagEpcAndMetaData {
                read_count: None,
                rssi_dbm: None,
                antenna_id: None,
                frequency_khz: None,
                timestamp_ms: None,
                rfu: None,
                protocol_id: None,
                tag_data_bit_length: Some(bits),
                tag_data: Some(frame_data),
                epc_bit_length: 0,
                pc_word: 0,
                epc_id: Vec::new(),
                tag_crc: 0,
            },
        )
    }
}

} // verus!
