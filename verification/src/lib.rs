//! Host-side implementation of the Silion reader communication protocol.
//!
//! At the API boundary there are two levels of representation:
//! - **Full wire packet**: includes leading header (`0xFF`) and trailing CRC.
//! - **Parsed frame fields**: command/status plus stripped `data` payload bytes.
//!
//! Builders such as [`build_host_frame`] and [`HostCommand`] return full wire
//! packets; parsers such as [`parse_reader_frame`] consume full wire packets
//! and return structured data. [`SilionHost`] and [`SilionReader`] run typed
//! command exchanges over any [`ReaderTransport`].
//!
//! Modules:
//! - [`bytes`], [`text`]: big-endian encodings, ASCII digits and strings.
//! - [`codes`], [`error`]: protocol code tables and the error type.
//! - [`frame`], [`async_proto`]: wire frames, CRC, asynchronous payloads.
//! - [`command`], [`antenna`], [`host_command`]: command data and packets.
//! - [`parsers`], [`tag`]: response parsers.
//! - [`transport`], [`client`], [`host`], [`reader`], [`select`],
//!   [`session`]: command exchanges over a transport.
//! - [`epc`], [`epc_uri`]: SGTIN-96 / GIAI-96 EPC values and EPC URIs.
//! - [`test_support`]: a scripted in-memory transport.

pub mod antenna;
pub mod async_proto;
pub mod bytes;
pub mod client;
pub mod codes;
pub mod command;
pub mod epc;
pub mod epc_uri;
pub mod error;
pub mod frame;
pub mod host;
pub mod host_command;
pub mod parsers;
pub mod reader;
pub mod select;
pub mod session;
pub mod tag;
pub mod test_support;
pub mod text;
pub mod transport;

pub use antenna::{
    parse_antenna_ports_response, AntennaPair, AntennaPortsConfiguration, AntennaPortsResponse,
    AntennaPortsView, AntennaPower, AntennaPowerSettling,
};
pub use async_proto::{
    parse_async_payload, parse_async_payload_owned, subcommand_crc, AsyncPayload, AsyncPayloadOwned,
};
pub use client::{ClientError, ReaderClient};
pub use codes::{AntennaPortsOption, CommandCode, RegionCode, StatusCode};
pub use command::{
    AsyncInventoryStartData, AsyncSubcommandCode, EmbeddedReadTagData, InventoryEmbeddedCommandContent,
    InventoryOption, InventorySearchFlags, MemBank, MetadataFlags, SelectContent,
};
pub use epc::{EpcSchema, EpcValue, Giai96, Sgtin96};
pub use error::ProtocolError;
pub use frame::{build_host_frame, build_reader_frame, parse_reader_frame, protocol_crc16, ReaderFrame};
pub use host::{
    parse_async_frame_data, AsyncInventoryMessage, AsyncMessageView,
    SilionHost,
};
pub use host_command::HostCommand;
pub use parsers::{
    parse_available_regions, parse_current_region, parse_current_tag_protocol,
    parse_current_temperature, parse_frequency_hopping_table, parse_pin_states,
    parse_protocol_configuration_value, parse_reader_configuration_value,
    parse_regulatory_hop_time, parse_run_phase, parse_serial_number_info, parse_version_info,
    ProtocolConfigurationValue, ReaderConfigurationValue, RegulatoryHopTime, RunPhase,
    SerialNumberInfo, VersionInfo,
};
pub use reader::{decode_read_tag_data, SilionReader};
pub use select::{ReaderAsyncInventoryStartData, SelectOption};
pub use session::AsyncInventorySession;
pub use tag::{
    parse_single_tag_inventory_payload, parse_single_tag_inventory_response,
    parse_tag_epc_and_meta_data, TagEpcAndMetaData, TagView,
};
pub use transport::ReaderTransport;
