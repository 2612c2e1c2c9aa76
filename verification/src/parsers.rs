//! Parsers for the data fields of fixed-layout reader responses.

use vstd::prelude::*;

use crate::bytes::{be16, be32, read_be16, read_be32};
use crate::codes::RegionCode;
use crate::error::ProtocolError;

verus! {

/// Version information returned by 0x03/0x04 responses.
#[derive(Debug, Clone, PartialEq, Eq)]
pub struct VersionInfo {
    /// Bootloader version.
    pub bootloader_version: [u8; 4],
    /// Hardware version.
    pub hardware_version: [u8; 4],
    /// Firmware date.
    pub firmware_date: [u8; 4],
    /// Firmware version.
    pub firmware_version: [u8; 4],
    /// Supported protocol bitfield.
    pub supported_protocol: [u8; 4],
}

/// What a Get Version data field decodes to.
pub open spec fn version_info_of(d: Seq<u8>) -> Result<VersionInfo, ProtocolError> {
    if d.len() != 20 {
        Err(ProtocolError::InvalidResponse("version data length must be 20"))
    } else {
        Ok(
            VersionInfo {
                bootloader_version: [d[0], d[1], d[2], d[3]],
                hardware_version: [d[4], d[5], d[6], d[7]],
                firmware_date: [d[8], d[9], d[10], d[11]],
                firmware_version: [d[12], d[13], d[14], d[15]],
                supported_protocol: [d[16], d[17], d[18], d[19]],
            },
        )
    }
}

/// Copy four bytes of `data` starting at `at` into an array.
fn take4(data: &[u8], at: usize) -> (r: [u8; 4])
    requires
        at + 4 <= data@.len(),
    ensures
        r == [data@[at as int], data@[at + 1], data@[at + 2], data@[at + 3]],
        r@ == data@.subrange(at as int, at + 4),
{
    let r = [data[at], data[at + 1], data[at + 2], data[at + 3]];
    assert(r@ =~= data@.subrange(at as int, at + 4));
    r
}

/// Parse the 20-byte data payload returned by commands `0x03`/`0x04`: five
/// four-byte fields in order.
pub fn parse_version_info(data: &[u8]) -> (r: Result<VersionInfo, ProtocolError>)
    ensures
        r == version_info_of(data@),
        data@.len() != 20 ==> r == Err::<VersionInfo, ProtocolError>(
            ProtocolError::InvalidResponse("version data length must be 20"),
        ),
        data@.len() == 20 ==> (r matches Ok(v) && {
            &&& v.bootloader_version@ == data@.subrange(0, 4)
            &&& v.hardware_version@ == data@.subrange(4, 8)
            &&& v.firmware_date@ == data@.subrange(8, 12)
            &&& v.firmware_version@ == data@.subrange(12, 16)
            &&& v.supported_protocol@ == data@.subrange(16, 20)
        }),
{
    if data.len() != 20 {
        return Err(ProtocolError::InvalidResponse("version data length must be 20"));
    }
    Ok(
        VersionInfo {
            bootloader_version: take4(data, 0),
            hardware_version: take4(data, 4),
            firmware_date: take4(data, 8),
            firmware_version: take4(data, 12),
            supported_protocol: take4(data, 16),
        },
    )
}

/// Program phase returned by Get Run Phase (0x0C).
#[derive(Debug, Clone, Copy, PartialEq, Eq, Structural)]
pub enum RunPhase {
    /// Bootloader firmware layer (0x11).
    Bootloader,
    /// Application firmware layer (0x12).
    AppFirmware,
}

/// What a Get Run Phase data field decodes to.
pub open spec fn run_phase_of(d: Seq<u8>) -> Result<RunPhase, ProtocolError> {
    if d.len() != 1 {
        Err(ProtocolError::InvalidResponse("run phase data length must be 1"))
    } else if d[0] == 0x11 {
        Ok(RunPhase::Bootloader)
    } else if d[0] == 0x12 {
        Ok(RunPhase::AppFirmware)
    } else {
        Err(ProtocolError::InvalidResponse("unknown run phase value"))
    }
}


/// Parse command `0x0C` (Get Run Phase) response payload.
pub fn parse_run_phase(data: &[u8]) -> (r: Result<RunPhase, ProtocolError>)
    ensures
        r == run_phase_of(data@),

{
    if data.len() != 1 {
        return Err(ProtocolError::InvalidResponse("run phase data length must be 1"));
    }
    match data[0] {
        0x11 => Ok(RunPhase::Bootloader),
        0x12 => Ok(RunPhase::AppFirmware),
        _ => Err(ProtocolError::InvalidResponse("unknown run phase value")),
    }
}

/// Serial number information returned by Get Serial Number (0x10).
#[derive(Debug, Clone, PartialEq, Eq)]
pub struct SerialNumberInfo {
    /// Year bytes as returned by reader.
    pub year: [u8; 4],
    /// Batch serial number bytes as returned by reader.
    pub serial_number: [u8; 8],
}

/// What a Get Serial Number data field decodes to.
pub open spec fn serial_number_info_of(d: Seq<u8>) -> Result<SerialNumberInfo, ProtocolError> {
    if d.len() != 12 {
        Err(ProtocolError::InvalidResponse("serial number data length must be 12"))
    } else {
        Ok(
            SerialNumberInfo {
                year: [d[0], d[1], d[2], d[3]],
                serial_number: [d[4], d[5], d[6], d[7], d[8], d[9], d[10], d[11]],
            },
        )
    }
}

/// Parse command `0x10` (Get Serial Number) response payload: four year
/// bytes and eight serial bytes.
pub fn parse_serial_number_info(data: &[u8]) -> (r: Result<SerialNumberInfo, ProtocolError>)
    ensures
        r == serial_number_info_of(data@),
        data@.len() != 12 ==> r == Err::<SerialNumberInfo, ProtocolError>(
            ProtocolError::InvalidResponse("serial number data length must be 12"),
        ),
        data@.len() == 12 ==> (r matches Ok(v) && v.year@ == data@.subrange(0, 4)
            && v.serial_number@ == data@.subrange(4, 12)),
{
    if data.len() != 12 {
        return Err(ProtocolError::InvalidResponse("serial number data length must be 12"));
    }
    let serial_number = [
        data[4],
        data[5],
        data[6],
        data[7],
        data[8],
        data[9],
        data[10],
        data[11],
    ];
    assert(serial_number@ =~= data@.subrange(4, 12));
    Ok(SerialNumberInfo { year: take4(data, 0), serial_number })
}

/// What a Get Current Tag Protocol data field decodes to.
pub open spec fn current_tag_protocol_of(d: Seq<u8>) -> Result<u16, ProtocolError> {
    if d.len() != 2 {
        Err(ProtocolError::InvalidResponse("current tag protocol data length must be 2"))
    } else {
        Ok(be16(d[0], d[1]))
    }
}


/// Parse command `0x63` (Get Current Tag Protocol) response payload.
pub fn parse_current_tag_protocol(data: &[u8]) -> (r: Result<u16, ProtocolError>)
    ensures
        r == current_tag_protocol_of(data@),

{
    if data.len() != 2 {
        return Err(ProtocolError::InvalidResponse("current tag protocol data length must be 2"));
    }
    Ok(read_be16(data[0], data[1]))
}

/// What a Get Current Region data field decodes to.
pub open spec fn current_region_of(d: Seq<u8>) -> Result<RegionCode, ProtocolError> {
    if d.len() != 1 {
        Err(ProtocolError::InvalidResponse("current region data length must be 1"))
    } else {
        match RegionCode::decode(d[0]) {
            Some(c) => Ok(c),
            None => Err(ProtocolError::InvalidResponse("unknown current region code")),
        }
    }
}


/// Parse command `0x67` (Get Current Region) response payload.
pub fn parse_current_region(data: &[u8]) -> (r: Result<RegionCode, ProtocolError>)
    ensures
        r == current_region_of(data@),

{
    if data.len() != 1 {
        return Err(ProtocolError::InvalidResponse("current region data length must be 1"));
    }
    match RegionCode::from_u8(data[0]) {
        Some(c) => Ok(c),
        None => Err(ProtocolError::InvalidResponse("unknown current region code")),
    }
}

/// What a Get Available Regions data field decodes to: one known region per
/// byte.
pub open spec fn available_regions_of(d: Seq<u8>) -> Result<Seq<RegionCode>, ProtocolError> {
    if d.len() == 0 {
        Err(ProtocolError::InvalidResponse("available regions data cannot be empty"))
    } else if exists|i: int| 0 <= i < d.len() && RegionCode::decode(d[i]) is None {
        Err(ProtocolError::InvalidResponse("unknown available region code"))
    } else {
        Ok(Seq::new(d.len(), |i: int| RegionCode::decode(d[i])->Some_0))
    }
}


/// Parse command `0x71` (Get Available Regions) response payload: one region
/// code per byte, all of them known.
pub fn parse_available_regions(data: &[u8]) -> (r: Result<Vec<RegionCode>, ProtocolError>)
    ensures
        match available_regions_of(data@) {
            Ok(v) => (r matches Ok(x) && x@ == v),
            Err(e) => r == Err::<Vec<RegionCode>, ProtocolError>(e),
        },

{
    if data.len() == 0 {
        return Err(ProtocolError::InvalidResponse("available regions data cannot be empty"));
    }
    let mut out: Vec<RegionCode> = Vec::with_capacity(data.len());
    let mut i: usize = 0;
    while i < data.len()
        invariant
            0 <= i <= data@.len(),
            out@.len() == i,
            forall|j: int| 0 <= j < i ==> RegionCode::decode(data@[j]) == Some(#[trigger] out@[j]),
        decreases data@.len() - i,
    {
        match RegionCode::from_u8(data[i]) {
            Some(c) => out.push(c),
            None => {
                return Err(ProtocolError::InvalidResponse("unknown available region code"));
            },
        }
        i = i + 1;
    }
    assert forall|j: int| 0 <= j < data@.len() implies RegionCode::decode(data@[j]) is Some by {
        assert(RegionCode::decode(data@[j]) == Some(out@[j]));
    }
    assert(out@ =~= Seq::new(data@.len(), |j: int| RegionCode::decode(data@[j])->Some_0));
    Ok(out)
}

/// What a Get Current Temperature data field decodes to.
pub open spec fn temperature_of(d: Seq<u8>) -> Result<u8, ProtocolError> {
    if d.len() != 1 {
        Err(ProtocolError::InvalidResponse("temperature data length must be 1"))
    } else {
        Ok(d[0])
    }
}


/// Parse command `0x72` (Get Current Temperature) response payload.
pub fn parse_current_temperature(data: &[u8]) -> (r: Result<u8, ProtocolError>)
    ensures
        r == temperature_of(data@),

{
    if data.len() != 1 {
        return Err(ProtocolError::InvalidResponse("temperature data length must be 1"));
    }
    Ok(data[0])
}

/// What a GPI/GPO status data field decodes to.
pub open spec fn pin_states_of(d: Seq<u8>) -> Result<Seq<u8>, ProtocolError> {
    if d.len() == 0 {
        Err(ProtocolError::InvalidResponse("pin state data cannot be empty"))
    } else {
        Ok(d)
    }
}


/// Parse pin state payload from command `0x66` (GPI) or `0x96` status response.
pub fn parse_pin_states(data: &[u8]) -> (r: Result<Vec<u8>, ProtocolError>)
    ensures
        match pin_states_of(data@) {
            Ok(v) => (r matches Ok(x) && x@ == v),
            Err(e) => r == Err::<Vec<u8>, ProtocolError>(e),
        },

{
    if data.len() == 0 {
        return Err(ProtocolError::InvalidResponse("pin state data cannot be empty"));
    }
    Ok(vstd::slice::slice_to_vec(data))
}

/// The `i`-th big-endian 32-bit word of `d`.
pub open spec fn word_at(d: Seq<u8>, i: int) -> u32 {
    be32(d[4 * i], d[4 * i + 1], d[4 * i + 2], d[4 * i + 3])
}

/// What a hop-table data field decodes to: big-endian 32-bit frequencies.
pub open spec fn frequency_table_of(d: Seq<u8>) -> Result<Seq<u32>, ProtocolError> {
    if d.len() == 0 || d.len() % 4 != 0 {
        Err(ProtocolError::InvalidResponse("frequency table length must be a non-empty multiple of 4"))
    } else {
        Ok(Seq::new(d.len() / 4, |i: int| word_at(d, i)))
    }
}


/// Parse command `0x65` response payload in hop-table format: big-endian
/// 32-bit frequencies in kHz.
pub fn parse_frequency_hopping_table(data: &[u8]) -> (r: Result<Vec<u32>, ProtocolError>)
    ensures
        match frequency_table_of(data@) {
            Ok(v) => (r matches Ok(x) && x@ == v),
            Err(e) => r == Err::<Vec<u32>, ProtocolError>(e),
        },

{
    if data.len() == 0 || (data.len() % 4 != 0) {
        return Err(
            ProtocolError::InvalidResponse(
                "frequency table length must be a non-empty multiple of 4",
            ),
        );
    }
    let n = data.len() / 4;
    let mut out: Vec<u32> = Vec::with_capacity(n);
    let mut i: usize = 0;
    while i < n
        invariant
            0 <= i <= n,
            n == data@.len() / 4,
            data@.len() % 4 == 0,
            data@.len() <= usize::MAX,
            out@.len() == i,
            forall|j: int| 0 <= j < i ==> out@[j] == word_at(data@, j),
        decreases n - i,
    {
        assert(4 * i + 3 < data@.len());
        let k = 4 * i;
        out.push(read_be32(data[k], data[k + 1], data[k + 2], data[k + 3]));
        i = i + 1;
    }
    assert(out@ =~= Seq::new(data@.len() / 4, |j: int| word_at(data@, j)));
    Ok(out)
}

/// Regulatory hopping time response from Get Frequency Hopping with option 0x01.
#[derive(Debug, Clone, Copy, PartialEq, Eq, Structural)]
pub struct RegulatoryHopTime {
    /// Option value, expected to be 0x01.
    pub option: u8,
    /// Hop time in milliseconds.
    pub hop_time_ms: u32,
}

/// What a regulatory hopping-time data field decodes to.
pub open spec fn regulatory_hop_time_of(d: Seq<u8>) -> Result<RegulatoryHopTime, ProtocolError> {
    if d.len() != 5 {
        Err(ProtocolError::InvalidResponse("regulatory hop time data length must be 5"))
    } else {
        Ok(RegulatoryHopTime { option: d[0], hop_time_ms: be32(d[1], d[2], d[3], d[4]) })
    }
}


/// Parse command `0x65` regulatory hopping-time payload (`option=0x01`).
pub fn parse_regulatory_hop_time(data: &[u8]) -> (r: Result<RegulatoryHopTime, ProtocolError>)
    ensures
        r == regulatory_hop_time_of(data@),

{
    if data.len() != 5 {
        return Err(ProtocolError::InvalidResponse("regulatory hop time data length must be 5"));
    }
    Ok(
        RegulatoryHopTime {
            option: data[0],
            hop_time_ms: read_be32(data[1], data[2], data[3], data[4]),
        },
    )
}

/// Reader configuration triplet returned by Get Reader Configuration (0x6A).
#[derive(Debug, Clone, Copy, PartialEq, Eq, Structural)]
pub struct ReaderConfigurationValue {
    /// Option field.
    pub option: u8,
    /// Configuration key.
    pub key: u8,
    /// Configuration value.
    pub value: u8,
}

/// What a Get Reader Configuration data field decodes to.
pub open spec fn reader_configuration_of(d: Seq<u8>) -> Result<ReaderConfigurationValue, ProtocolError> {
    if d.len() != 3 {
        Err(ProtocolError::InvalidResponse("reader configuration data length must be 3"))
    } else {
        Ok(ReaderConfigurationValue { option: d[0], key: d[1], value: d[2] })
    }
}


/// A Get Reader Configuration reply is `Option | Key | Value`: it decodes
/// exactly when it has three bytes, and the decoded option, key and value,
/// in that order, are those three bytes.
pub proof fn lemma_reader_configuration_fields(d: Seq<u8>)
    ensures
        reader_configuration_of(d) is Ok <==> d.len() == 3,
        reader_configuration_of(d) matches Ok(v) ==> seq![v.option, v.key, v.value] =~= d,
{
}

/// The three bytes that Set Reader Configuration (`0x9A`) sends for an
/// option, a key and a value decode, as a Get Reader Configuration reply,
/// back to that option, key and value.
pub proof fn lemma_reader_configuration_round_trip(option: u8, key: u8, value: u8)
    ensures
        reader_configuration_of(seq![option, key, value]) == Ok::<
            ReaderConfigurationValue,
            ProtocolError,
        >(ReaderConfigurationValue { option, key, value }),
{
}

/// Parse command `0x6A` (Get Reader Configuration) response payload.
pub fn parse_reader_configuration_value(data: &[u8]) -> (r: Result<
    ReaderConfigurationValue,
    ProtocolError,
>)
    ensures
        r == reader_configuration_of(data@),

{
    if data.len() != 3 {
        return Err(ProtocolError::InvalidResponse("reader configuration data length must be 3"));
    }
    Ok(ReaderConfigurationValue { option: data[0], key: data[1], value: data[2] })
}

/// Protocol configuration triplet/quad returned by Get Protocol Configuration (0x6B).
#[derive(Debug, Clone, Copy, PartialEq, Eq, Structural)]
pub struct ProtocolConfigurationValue {
    /// Protocol value.
    pub protocol_value: u8,
    /// Parameter value.
    pub parameter: u8,
    /// Optional option byte.
    pub option: Option<u8>,
    /// Optional value byte.
    pub value: Option<u8>,
}

/// What a Get Protocol Configuration data field decodes to.
pub open spec fn protocol_configuration_of(d: Seq<u8>) -> Result<ProtocolConfigurationValue, ProtocolError> {
    if d.len() == 2 {
        Ok(ProtocolConfigurationValue { protocol_value: d[0], parameter: d[1], option: None, value: None })
    } else if d.len() == 3 {
        Ok(ProtocolConfigurationValue { protocol_value: d[0], parameter: d[1], option: None, value: Some(d[2]) })
    } else if d.len() == 4 {
        Ok(ProtocolConfigurationValue { protocol_value: d[0], parameter: d[1], option: Some(d[2]), value: Some(d[3]) })
    } else {
        Err(ProtocolError::InvalidResponse("protocol configuration data length must be 2, 3, or 4"))
    }
}


/// Parse command `0x6B` (Get Protocol Configuration) response payload.
///
/// Different parameters return either protocol+parameter, protocol+parameter
/// +value, or protocol+parameter+option+value.
pub fn parse_protocol_configuration_value(data: &[u8]) -> (r: Result<
    ProtocolConfigurationValue,
    ProtocolError,
>)
    ensures
        r == protocol_configuration_of(data@),

{
    match data.len() {
        2 => Ok(
            ProtocolConfigurationValue {
                protocol_value: data[0],
                parameter: data[1],
                option: None,
                value: None,
            },
        ),
        3 => Ok(
            ProtocolConfigurationValue {
                protocol_value: data[0],
                parameter: data[1],
                option: None,
                value: Some(data[2]),
            },
        ),
        4 => Ok(
            ProtocolConfigurationValue {
                protocol_value: data[0],
                parameter: data[1],
                option: Some(data[2]),
                value: Some(data[3]),
            },
        ),
        _ => Err(
            ProtocolError::InvalidResponse("protocol configuration data length must be 2, 3, or 4"),
        ),
    }
}

/// Field positions of the fixed-layout replies: a Get Current Tag Protocol
/// reply is one big-endian 16-bit value; a regulatory hop-time reply is the
/// option byte and a big-endian 32-bit time; a temperature reply is its one
/// byte; a Get Current Region reply is the code of the region.
pub proof fn lemma_reply_field_positions(d: Seq<u8>)
    ensures
        current_tag_protocol_of(d) is Ok <==> d.len() == 2,
        current_tag_protocol_of(d) matches Ok(v) ==> v as int == d[0] as int * 256 + d[1] as int,
        regulatory_hop_time_of(d) is Ok <==> d.len() == 5,
        regulatory_hop_time_of(d) matches Ok(h) ==> h.option == d[0] && h.hop_time_ms as int
            == d[1] as int * 0x1000000 + d[2] as int * 0x10000 + d[3] as int * 0x100 + d[4] as int,
        temperature_of(d) matches Ok(t) ==> d.len() == 1 && t == d[0],
        current_region_of(d) matches Ok(c) ==> d.len() == 1 && c.code() == d[0],
        run_phase_of(d) == Ok::<RunPhase, ProtocolError>(RunPhase::Bootloader) <==> d =~= seq![0x11u8],
        run_phase_of(d) == Ok::<RunPhase, ProtocolError>(RunPhase::AppFirmware) <==> d =~= seq![0x12u8],
{
    if current_region_of(d) is Ok {
        assert(exists|x: RegionCode| x.code() == d[0]);
    }
}

/// A hop table is a non-empty run of big-endian 32-bit frequencies: one per
/// four bytes, the `i`-th read from bytes `4i` to `4i + 3`, high byte first.
pub proof fn lemma_frequency_table_words(d: Seq<u8>)
    ensures
        frequency_table_of(d) is Ok <==> d.len() > 0 && d.len() % 4 == 0,
        frequency_table_of(d) matches Ok(s) ==> s.len() * 4 == d.len() && forall|i: int|
            0 <= i < s.len() ==> #[trigger] s[i] as int == d[4 * i] as int * 0x1000000 + d[4 * i
                + 1] as int * 0x10000 + d[4 * i + 2] as int * 0x100 + d[4 * i + 3] as int,
{
}

/// Every region of an Available Regions reply is the region whose code is
/// the byte at its position.
pub proof fn lemma_available_regions_codes(d: Seq<u8>)
    ensures
        available_regions_of(d) matches Ok(s) ==> s.len() == d.len() && d.len() > 0 && forall|
            i: int,
        | 0 <= i < s.len() ==> (#[trigger] s[i]).code() == d[i],
{
    if available_regions_of(d) is Ok {
        let s = available_regions_of(d)->Ok_0;
        assert forall|i: int| 0 <= i < s.len() implies (#[trigger] s[i]).code() == d[i] by {
            assert(RegionCode::decode(d[i]) is Some);
            assert(exists|x: RegionCode| x.code() == d[i]);
        }
    }
}

/// The bytes that Set Protocol Configuration (`0x9B`) sends for a protocol,
/// a parameter and an optional option and value (an option only together
/// with a value) decode, as a Get Protocol Configuration reply, back to
/// them.
pub proof fn lemma_protocol_configuration_round_trip(
    protocol_value: u8,
    parameter: u8,
    option: Option<u8>,
    value: Option<u8>,
)
    requires
        option is Some ==> value is Some,
    ensures
        protocol_configuration_of(
            seq![protocol_value, parameter] + crate::host_command::opt_byte(option)
                + crate::host_command::opt_byte(value),
        ) == Ok::<ProtocolConfigurationValue, ProtocolError>(
            ProtocolConfigurationValue { protocol_value, parameter, option, value },
        ),
{
    let d = seq![protocol_value, parameter] + crate::host_command::opt_byte(option)
        + crate::host_command::opt_byte(value);
    match (option, value) {
        (Some(o), Some(v)) => {
            assert(d =~= seq![protocol_value, parameter, o, v]);
        },
        (None, Some(v)) => {
            assert(d =~= seq![protocol_value, parameter, v]);
        },
        _ => {
            assert(d =~= seq![protocol_value, parameter]);
        },
    }
}

} // verus!
