//! Parsing of `Tag EPC and Meta Data` blocks (Get Tag Buffer `0x29`,
//! asynchronous inventory uploads) and of Single Tag Inventory (`0x21`)
//! responses.
//!
//! The metadata flags select which optional fields are present; they always
//! come in the order read count, RSSI, antenna id, frequency, timestamp, RFU,
//! protocol id, tag data.

use vstd::prelude::*;

use crate::bytes::{be16, be32, be_int16, be_int32, read_be16, read_be32};
use crate::command::{has_bit, MetadataFlags};
use crate::error::ProtocolError;

verus! {

/// One parsed `Tag EPC and Meta Data` block.
#[derive(Debug, Clone, PartialEq, Eq)]
pub struct TagEpcAndMetaData {
    /// Number of times this tag was archived (bit 0).
    pub read_count: Option<u8>,
    /// RSSI in dBm (signed byte, bit 1).
    pub rssi_dbm: Option<i8>,
    /// Antenna logic ID (bit 2).
    pub antenna_id: Option<u8>,
    /// Frequency in kHz (bit 3).
    pub frequency_khz: Option<u32>,
    /// Time from inventory start to first archive, in milliseconds (bit 4).
    pub timestamp_ms: Option<u32>,
    /// Reserved RFU field (bit 5).
    pub rfu: Option<u16>,
    /// Tag protocol ID (`0x05` means Gen2, bit 6).
    pub protocol_id: Option<u8>,
    /// Embedded command tag data bit length (bit 7).
    pub tag_data_bit_length: Option<u16>,
    /// Embedded command tag data bytes (bit 7).
    pub tag_data: Option<Vec<u8>>,
    /// EPC length in bits including PC and tag CRC.
    pub epc_bit_length: u16,
    /// PC word from EPC bank.
    pub pc_word: u16,
    /// EPC ID bytes.
    pub epc_id: Vec<u8>,
    /// Tag CRC from EPC bank.
    pub tag_crc: u16,
}

/// Abstract content of a tag block.
pub struct TagView {
    /// Read count.
    pub read_count: Option<u8>,
    /// RSSI in dBm.
    pub rssi_dbm: Option<i8>,
    /// Antenna logic ID.
    pub antenna_id: Option<u8>,
    /// Frequency in kHz.
    pub frequency_khz: Option<u32>,
    /// Timestamp in milliseconds.
    pub timestamp_ms: Option<u32>,
    /// Reserved RFU field.
    pub rfu: Option<u16>,
    /// Tag protocol ID.
    pub protocol_id: Option<u8>,
    /// Tag data bit length.
    pub tag_data_bit_length: Option<u16>,
    /// Tag data bytes.
    pub tag_data: Option<Seq<u8>>,
    /// EPC length in bits.
    pub epc_bit_length: u16,
    /// PC word.
    pub pc_word: u16,
    /// EPC ID bytes.
    pub epc_id: Seq<u8>,
    /// Tag CRC.
    pub tag_crc: u16,
}

/// The bytes of an optional byte vector.
pub open spec fn opt_bytes_view(v: Option<Vec<u8>>) -> Option<Seq<u8>> {
    match v {
        Some(b) => Some(b@),
        None => None,
    }
}

impl View for TagEpcAndMetaData {
    type V = TagView;

    open spec fn view(&self) -> TagView {
        TagView {
            read_count: self.read_count,
            rssi_dbm: self.rssi_dbm,
            antenna_id: self.antenna_id,
            frequency_khz: self.frequency_khz,
            timestamp_ms: self.timestamp_ms,
            rfu: self.rfu,
            protocol_id: self.protocol_id,
            tag_data_bit_length: self.tag_data_bit_length,
            tag_data: opt_bytes_view(self.tag_data),
            epc_bit_length: self.epc_bit_length,
            pc_word: self.pc_word,
            epc_id: self.epc_id@,
            tag_crc: self.tag_crc,
        }
    }
}

/// The optional metadata fields that precede the EPC in a tag block.
pub struct MetaView {
    /// Read count.
    pub read_count: Option<u8>,
    /// RSSI in dBm.
    pub rssi_dbm: Option<i8>,
    /// Antenna logic ID.
    pub antenna_id: Option<u8>,
    /// Frequency in kHz.
    pub frequency_khz: Option<u32>,
    /// Timestamp in milliseconds.
    pub timestamp_ms: Option<u32>,
    /// Reserved RFU field.
    pub rfu: Option<u16>,
    /// Tag protocol ID.
    pub protocol_id: Option<u8>,
    /// Tag data bit length.
    pub tag_data_bit_length: Option<u16>,
    /// Tag data bytes.
    pub tag_data: Option<Seq<u8>>,
}

/// Read one byte at `i`.
pub open spec fn take_u8(d: Seq<u8>, i: int, what: &'static str) -> Result<(u8, int), ProtocolError> {
    if i + 1 > d.len() {
        Err(ProtocolError::InvalidResponse(what))
    } else {
        Ok((d[i], i + 1))
    }
}

/// Read a big-endian 16-bit value at `i`.
pub open spec fn take_u16(d: Seq<u8>, i: int, what: &'static str) -> Result<(u16, int), ProtocolError> {
    if i + 2 > d.len() {
        Err(ProtocolError::InvalidResponse(what))
    } else {
        Ok((be16(d[i], d[i + 1]), i + 2))
    }
}

/// Read a big-endian 24-bit value at `i`.
pub open spec fn take_u24(d: Seq<u8>, i: int, what: &'static str) -> Result<(u32, int), ProtocolError> {
    if i + 3 > d.len() {
        Err(ProtocolError::InvalidResponse(what))
    } else {
        Ok((be32(0, d[i], d[i + 1], d[i + 2]), i + 3))
    }
}

/// Read a big-endian 32-bit value at `i`.
pub open spec fn take_u32(d: Seq<u8>, i: int, what: &'static str) -> Result<(u32, int), ProtocolError> {
    if i + 4 > d.len() {
        Err(ProtocolError::InvalidResponse(what))
    } else {
        Ok((be32(d[i], d[i + 1], d[i + 2], d[i + 3]), i + 4))
    }
}


/// Error text for a missing rc field.
pub open spec fn spec_msg_rc(single: bool) -> &'static str {
    if single {
        "single tag metadata missing read count"
    } else {
        "tag metadata missing read count"
    }
}

fn msg_rc(single: bool) -> (r: &'static str)
    ensures
        r == spec_msg_rc(single),
{
    if single {
        "single tag metadata missing read count"
    } else {
        "tag metadata missing read count"
    }
}


/// Error text for a missing rssi field.
pub open spec fn spec_msg_rssi(single: bool) -> &'static str {
    if single {
        "single tag metadata missing RSSI"
    } else {
        "tag metadata missing RSSI"
    }
}

fn msg_rssi(single: bool) -> (r: &'static str)
    ensures
        r == spec_msg_rssi(single),
{
    if single {
        "single tag metadata missing RSSI"
    } else {
        "tag metadata missing RSSI"
    }
}


/// Error text for a missing ant field.
pub open spec fn spec_msg_ant(single: bool) -> &'static str {
    if single {
        "single tag metadata missing antenna id"
    } else {
        "tag metadata missing antenna id"
    }
}

fn msg_ant(single: bool) -> (r: &'static str)
    ensures
        r == spec_msg_ant(single),
{
    if single {
        "single tag metadata missing antenna id"
    } else {
        "tag metadata missing antenna id"
    }
}


/// Error text for a missing freq field.
pub open spec fn spec_msg_freq(single: bool) -> &'static str {
    if single {
        "single tag metadata missing frequency"
    } else {
        "tag metadata missing frequency"
    }
}

fn msg_freq(single: bool) -> (r: &'static str)
    ensures
        r == spec_msg_freq(single),
{
    if single {
        "single tag metadata missing frequency"
    } else {
        "tag metadata missing frequency"
    }
}


/// Error text for a missing ts field.
pub open spec fn spec_msg_ts(single: bool) -> &'static str {
    if single {
        "single tag metadata missing timestamp"
    } else {
        "tag metadata missing timestamp"
    }
}

fn msg_ts(single: bool) -> (r: &'static str)
    ensures
        r == spec_msg_ts(single),
{
    if single {
        "single tag metadata missing timestamp"
    } else {
        "tag metadata missing timestamp"
    }
}


/// Error text for a missing rfu field.
pub open spec fn spec_msg_rfu(single: bool) -> &'static str {
    if single {
        "single tag metadata missing RFU"
    } else {
        "tag metadata missing RFU"
    }
}

fn msg_rfu(single: bool) -> (r: &'static str)
    ensures
        r == spec_msg_rfu(single),
{
    if single {
        "single tag metadata missing RFU"
    } else {
        "tag metadata missing RFU"
    }
}


/// Error text for a missing proto field.
pub open spec fn spec_msg_proto(single: bool) -> &'static str {
    if single {
        "single tag metadata missing protocol id"
    } else {
        "tag metadata missing protocol id"
    }
}

fn msg_proto(single: bool) -> (r: &'static str)
    ensures
        r == spec_msg_proto(single),
{
    if single {
        "single tag metadata missing protocol id"
    } else {
        "tag metadata missing protocol id"
    }
}


/// Error text for a missing dlen field.
pub open spec fn spec_msg_dlen(single: bool) -> &'static str {
    if single {
        "single tag metadata missing tag data length"
    } else {
        "tag metadata missing tag data length"
    }
}

fn msg_dlen(single: bool) -> (r: &'static str)
    ensures
        r == spec_msg_dlen(single),
{
    if single {
        "single tag metadata missing tag data length"
    } else {
        "tag metadata missing tag data length"
    }
}


/// Error text for a missing align field.
pub open spec fn spec_msg_align(single: bool) -> &'static str {
    if single {
        "single tag data length must be byte-aligned"
    } else {
        "tag data length must be byte-aligned"
    }
}

fn msg_align(single: bool) -> (r: &'static str)
    ensures
        r == spec_msg_align(single),
{
    if single {
        "single tag data length must be byte-aligned"
    } else {
        "tag data length must be byte-aligned"
    }
}


/// Error text for a missing bytes field.
pub open spec fn spec_msg_bytes(single: bool) -> &'static str {
    if single {
        "single tag metadata missing tag data bytes"
    } else {
        "tag metadata missing tag data bytes"
    }
}

fn msg_bytes(single: bool) -> (r: &'static str)
    ensures
        r == spec_msg_bytes(single),
{
    if single {
        "single tag metadata missing tag data bytes"
    } else {
        "tag metadata missing tag data bytes"
    }
}


/// Read an optional byte.
pub open spec fn opt_u8(present: bool, d: Seq<u8>, i: int, what: &'static str) -> Result<(Option<u8>, int), ProtocolError> {
    if !present {
        Ok((None, i))
    } else {
        match take_u8(d, i, what) {
            Ok((v, j)) => Ok((Some(v), j)),
            Err(e) => Err(e),
        }
    }
}

/// Read an optional 16-bit value.
pub open spec fn opt_u16(present: bool, d: Seq<u8>, i: int, what: &'static str) -> Result<(Option<u16>, int), ProtocolError> {
    if !present {
        Ok((None, i))
    } else {
        match take_u16(d, i, what) {
            Ok((v, j)) => Ok((Some(v), j)),
            Err(e) => Err(e),
        }
    }
}

/// Read an optional 24-bit value.
pub open spec fn opt_u24(present: bool, d: Seq<u8>, i: int, what: &'static str) -> Result<(Option<u32>, int), ProtocolError> {
    if !present {
        Ok((None, i))
    } else {
        match take_u24(d, i, what) {
            Ok((v, j)) => Ok((Some(v), j)),
            Err(e) => Err(e),
        }
    }
}

/// Read an optional 32-bit value.
pub open spec fn opt_u32(present: bool, d: Seq<u8>, i: int, what: &'static str) -> Result<(Option<u32>, int), ProtocolError> {
    if !present {
        Ok((None, i))
    } else {
        match take_u32(d, i, what) {
            Ok((v, j)) => Ok((Some(v), j)),
            Err(e) => Err(e),
        }
    }
}

/// Read the optional tag data: a bit length that must be a multiple of 8,
/// then that many bits of data.
pub open spec fn opt_tag_data(present: bool, d: Seq<u8>, i: int, single: bool) -> Result<(Option<u16>, Option<Seq<u8>>, int), ProtocolError> {
    if !present {
        Ok((None, None, i))
    } else {
        match take_u16(d, i, spec_msg_dlen(single)) {
            Err(e) => Err(e),
            Ok((bits, j)) => if bits % 8 != 0 {
                Err(ProtocolError::InvalidResponse(spec_msg_align(single)))
            } else if j + bits / 8 > d.len() {
                Err(ProtocolError::InvalidResponse(spec_msg_bytes(single)))
            } else {
                Ok((Some(bits), Some(d.subrange(j, j + bits / 8)), j + bits / 8))
            },
        }
    }
}

/// Metadata with no field read yet.
pub open spec fn meta_empty() -> MetaView {
    MetaView {
        read_count: None,
        rssi_dbm: None,
        antenna_id: None,
        frequency_khz: None,
        timestamp_ms: None,
        rfu: None,
        protocol_id: None,
        tag_data_bit_length: None,
        tag_data: None,
    }
}

/// Reading state: the fields read so far and the index after them.
pub type MetaState = Result<(MetaView, int), ProtocolError>;

/// Read the read_count field when its flag is set.
#[verifier::opaque]
pub open spec fn step_read_count(s: MetaState, flags: u16, d: Seq<u8>, single: bool) -> MetaState {
    match s {
        Err(e) => Err(e),
        Ok((m, i)) => match opt_u8(has_bit(flags, 0x0001), d, i, spec_msg_rc(single)) {
            Err(e) => Err(e),
            Ok((v, j)) => Ok((MetaView { read_count: v, ..m }, j)),
        },
    }
}

/// Read the rssi field when its flag is set.
#[verifier::opaque]
pub open spec fn step_rssi(s: MetaState, flags: u16, d: Seq<u8>, single: bool) -> MetaState {
    match s {
        Err(e) => Err(e),
        Ok((m, i)) => match opt_u8(has_bit(flags, 0x0002), d, i, spec_msg_rssi(single)) {
            Err(e) => Err(e),
            Ok((v, j)) => Ok((MetaView { rssi_dbm: match v { Some(b) => Some(b as i8), None => None }, ..m }, j)),
        },
    }
}

/// Read the antenna_id field when its flag is set.
#[verifier::opaque]
pub open spec fn step_antenna_id(s: MetaState, flags: u16, d: Seq<u8>, single: bool) -> MetaState {
    match s {
        Err(e) => Err(e),
        Ok((m, i)) => match opt_u8(has_bit(flags, 0x0004), d, i, spec_msg_ant(single)) {
            Err(e) => Err(e),
            Ok((v, j)) => Ok((MetaView { antenna_id: v, ..m }, j)),
        },
    }
}

/// Read the frequency field when its flag is set.
#[verifier::opaque]
pub open spec fn step_frequency(s: MetaState, flags: u16, d: Seq<u8>, single: bool) -> MetaState {
    match s {
        Err(e) => Err(e),
        Ok((m, i)) => match opt_u24(has_bit(flags, 0x0008), d, i, spec_msg_freq(single)) {
            Err(e) => Err(e),
            Ok((v, j)) => Ok((MetaView { frequency_khz: v, ..m }, j)),
        },
    }
}

/// Read the timestamp field when its flag is set.
#[verifier::opaque]
pub open spec fn step_timestamp(s: MetaState, flags: u16, d: Seq<u8>, single: bool) -> MetaState {
    match s {
        Err(e) => Err(e),
        Ok((m, i)) => match opt_u32(has_bit(flags, 0x0010), d, i, spec_msg_ts(single)) {
            Err(e) => Err(e),
            Ok((v, j)) => Ok((MetaView { timestamp_ms: v, ..m }, j)),
        },
    }
}

/// Read the rfu field when its flag is set.
#[verifier::opaque]
pub open spec fn step_rfu(s: MetaState, flags: u16, d: Seq<u8>, single: bool) -> MetaState {
    match s {
        Err(e) => Err(e),
        Ok((m, i)) => match opt_u16(has_bit(flags, 0x0020), d, i, spec_msg_rfu(single)) {
            Err(e) => Err(e),
            Ok((v, j)) => Ok((MetaView { rfu: v, ..m }, j)),
        },
    }
}

/// Read the protocol_id field when its flag is set.
#[verifier::opaque]
pub open spec fn step_protocol_id(s: MetaState, flags: u16, d: Seq<u8>, single: bool) -> MetaState {
    match s {
        Err(e) => Err(e),
        Ok((m, i)) => match opt_u8(has_bit(flags, 0x0040), d, i, spec_msg_proto(single)) {
            Err(e) => Err(e),
            Ok((v, j)) => Ok((MetaView { protocol_id: v, ..m }, j)),
        },
    }
}

/// Read the tag data field when its flag is set.
#[verifier::opaque]
pub open spec fn step_tag_data(s: MetaState, flags: u16, d: Seq<u8>, single: bool) -> MetaState {
    match s {
        Err(e) => Err(e),
        Ok((m, i)) => match opt_tag_data(has_bit(flags, 0x0080), d, i, single) {
            Err(e) => Err(e),
            Ok((bits, data, j)) => Ok((MetaView { tag_data_bit_length: bits, tag_data: data, ..m }, j)),
        },
    }
}

/// The optional metadata fields selected by `flags`, read in order from the
/// start of `d`, and the index after them.
#[verifier::opaque]
pub open spec fn metadata_fields(flags: u16, d: Seq<u8>, single: bool) -> MetaState {
    let s0: MetaState = Ok((meta_empty(), 0));
    let s1 = step_read_count(s0, flags, d, single);
    let s2 = step_rssi(s1, flags, d, single);
    let s3 = step_antenna_id(s2, flags, d, single);
    let s4 = step_frequency(s3, flags, d, single);
    let s5 = step_timestamp(s4, flags, d, single);
    let s6 = step_rfu(s5, flags, d, single);
    let s7 = step_protocol_id(s6, flags, d, single);
    step_tag_data(s7, flags, d, single)
}

/// A full tag block: metadata fields, then `EPC length in bytes(1) | PC(2) |
/// EPC ID(length - 4) | Tag CRC(2)`, with nothing after it.
pub open spec fn tag_block(flags: u16, d: Seq<u8>) -> Result<TagView, ProtocolError> {
    match metadata_fields(flags, d, false) {
        Err(e) => Err(e),
        Ok((m, i)) => if i + 1 > d.len() {
            Err(ProtocolError::InvalidResponse("tag metadata missing EPC length"))
        } else if d[i] < 4 {
            Err(ProtocolError::InvalidResponse("EPC length must include PC and tag CRC"))
        } else if i + 3 > d.len() {
            Err(ProtocolError::InvalidResponse("tag metadata missing PC word"))
        } else if i + 3 + (d[i] - 4) > d.len() {
            Err(ProtocolError::InvalidResponse("tag metadata missing EPC ID"))
        } else if i + 3 + (d[i] - 4) + 2 > d.len() {
            Err(ProtocolError::InvalidResponse("tag metadata missing tag CRC"))
        } else if i + 3 + (d[i] - 4) + 2 != d.len() {
            Err(ProtocolError::InvalidResponse("trailing bytes after tag metadata block"))
        } else {
            let k = i + 3 + (d[i] - 4);
            Ok(
                TagView {
                    read_count: m.read_count,
                    rssi_dbm: m.rssi_dbm,
                    antenna_id: m.antenna_id,
                    frequency_khz: m.frequency_khz,
                    timestamp_ms: m.timestamp_ms,
                    rfu: m.rfu,
                    protocol_id: m.protocol_id,
                    tag_data_bit_length: m.tag_data_bit_length,
                    tag_data: m.tag_data,
                    epc_bit_length: (d[i] * 8) as u16,
                    pc_word: be16(d[i + 1], d[i + 2]),
                    epc_id: d.subrange(i + 3, k),
                    tag_crc: be16(d[k], d[k + 1]),
                },
            )
        },
    }
}

/// In a tag block that parses, each optional metadata field is present
/// exactly when its flag is set, the tag data holds as many bytes as its bit
/// length gives, and the EPC ID holds the EPC length less the PC word and
/// the tag CRC.
pub proof fn lemma_tag_block_fields(flags: u16, d: Seq<u8>)
    requires
        tag_block(flags, d) is Ok,
    ensures
        ({
            let t = tag_block(flags, d)->Ok_0;
            &&& (t.read_count is Some <==> has_bit(flags, 0x0001))
            &&& (t.rssi_dbm is Some <==> has_bit(flags, 0x0002))
            &&& (t.antenna_id is Some <==> has_bit(flags, 0x0004))
            &&& (t.frequency_khz is Some <==> has_bit(flags, 0x0008))
            &&& (t.timestamp_ms is Some <==> has_bit(flags, 0x0010))
            &&& (t.rfu is Some <==> has_bit(flags, 0x0020))
            &&& (t.protocol_id is Some <==> has_bit(flags, 0x0040))
            &&& (t.tag_data_bit_length is Some <==> has_bit(flags, 0x0080))
            &&& (t.tag_data is Some <==> has_bit(flags, 0x0080))
            &&& (t.tag_data matches Some(x) ==> x.len() * 8 == t.tag_data_bit_length->Some_0)
            &&& t.epc_id.len() * 8 + 32 == t.epc_bit_length
        }),
{
    reveal(metadata_fields);
    reveal(step_read_count);
    reveal(step_rssi);
    reveal(step_antenna_id);
    reveal(step_frequency);
    reveal(step_timestamp);
    reveal(step_rfu);
    reveal(step_protocol_id);
    reveal(step_tag_data);
}

/// The width that a metadata field of `w` bytes takes in a block read
/// under `flags`: `w` when its flag `mask` is set, else nothing.
pub open spec fn field_width(flags: u16, mask: u16, w: int) -> int {
    if has_bit(flags, mask) {
        w
    } else {
        0
    }
}

/// Where each field of a parsed tag block sits: the metadata fields follow
/// one another in the order read count (1 byte), RSSI (1, two's
/// complement), antenna (1), frequency (3), timestamp (4), RFU (2),
/// protocol (1) and tag data (a 2-byte bit length, then the data), each only
/// when its flag is set and every number high byte first; then the EPC
/// length in bytes `n`, the PC word, the EPC ID and the tag CRC, which
/// ends the block.
#[verifier::rlimit(50)]
pub proof fn lemma_tag_block_positions(flags: u16, d: Seq<u8>)
    requires
        tag_block(flags, d) is Ok,
    ensures
        ({
            let t = tag_block(flags, d)->Ok_0;
            let o1 = field_width(flags, 0x0001, 1);
            let o2 = o1 + field_width(flags, 0x0002, 1);
            let o3 = o2 + field_width(flags, 0x0004, 1);
            let o4 = o3 + field_width(flags, 0x0008, 3);
            let o5 = o4 + field_width(flags, 0x0010, 4);
            let o6 = o5 + field_width(flags, 0x0020, 2);
            let o7 = o6 + field_width(flags, 0x0040, 1);
            let e = if has_bit(flags, 0x0080) {
                o7 + 2 + be_int16(d, o7) / 8
            } else {
                o7
            };
            &&& t.read_count matches Some(v) ==> v == d[0]
            &&& t.rssi_dbm matches Some(v) ==> v as int == (if d[o1] < 128 {
                d[o1] as int
            } else {
                d[o1] as int - 256
            })
            &&& t.antenna_id matches Some(v) ==> v == d[o2]
            &&& t.frequency_khz matches Some(v) ==> v as int == d[o3] as int * 0x10000 + d[o3
                + 1] as int * 0x100 + d[o3 + 2] as int
            &&& t.timestamp_ms matches Some(v) ==> v as int == be_int32(d, o4)
            &&& t.rfu matches Some(v) ==> v as int == be_int16(d, o5)
            &&& t.protocol_id matches Some(v) ==> v == d[o6]
            &&& t.tag_data_bit_length matches Some(b) ==> b as int == be_int16(d, o7)
                && t.tag_data == Some(d.subrange(o7 + 2, o7 + 2 + b / 8))
            &&& 0 <= e < d.len()
            &&& t.epc_bit_length as int == d[e] as int * 8
            &&& t.pc_word as int == be_int16(d, e + 1)
            &&& t.epc_id == d.subrange(e + 3, d.len() - 2)
            &&& t.tag_crc as int == be_int16(d, d.len() - 2)
            &&& d.len() == e + 1 + d[e] as int
        }),
{
    reveal(metadata_fields);
    reveal(step_read_count);
    reveal(step_rssi);
    reveal(step_antenna_id);
    reveal(step_frequency);
    reveal(step_timestamp);
    reveal(step_rfu);
    reveal(step_protocol_id);
    reveal(step_tag_data);
    let t = tag_block(flags, d)->Ok_0;
    if let Some(v) = t.rssi_dbm {
        let o1 = field_width(flags, 0x0001, 1);
        let b: u8 = d[o1];
        assert(v == b as i8);
        assert(v as int == (if b < 128 { b as int } else { b as int - 256 })) by (bit_vector)
            requires
                v == b as i8,
        ;
    }
}

/// Module-level helper to read a single byte with bounds checking.
fn read_u8_from_data(idx: &mut usize, data: &[u8], what: &'static str) -> (r: Result<u8, ProtocolError>)
    requires
        *old(idx) <= data@.len(),
    ensures
        match take_u8(data@, *old(idx) as int, what) {
            Ok((v, j)) => r == Ok::<u8, ProtocolError>(v) && *final(idx) == j,
            Err(e) => r == Err::<u8, ProtocolError>(e),
        },
        *final(idx) <= data@.len(),
{
    if data.len() - *idx < 1 {
        return Err(ProtocolError::InvalidResponse(what));
    }
    let out = data[*idx];
    *idx = *idx + 1;
    Ok(out)
}

/// Module-level helper to read a 16-bit big-endian value with bounds checking.
fn read_u16_from_data(idx: &mut usize, data: &[u8], what: &'static str) -> (r: Result<u16, ProtocolError>)
    requires
        *old(idx) <= data@.len(),
    ensures
        match take_u16(data@, *old(idx) as int, what) {
            Ok((v, j)) => r == Ok::<u16, ProtocolError>(v) && *final(idx) == j,
            Err(e) => r == Err::<u16, ProtocolError>(e),
        },
        *final(idx) <= data@.len(),
{
    if data.len() - *idx < 2 {
        return Err(ProtocolError::InvalidResponse(what));
    }
    let out = read_be16(data[*idx], data[*idx + 1]);
    *idx = *idx + 2;
    Ok(out)
}

/// Module-level helper to read a 24-bit big-endian value with bounds checking.
fn read_u24_from_data(idx: &mut usize, data: &[u8], what: &'static str) -> (r: Result<u32, ProtocolError>)
    requires
        *old(idx) <= data@.len(),
    ensures
        match take_u24(data@, *old(idx) as int, what) {
            Ok((v, j)) => r == Ok::<u32, ProtocolError>(v) && *final(idx) == j,
            Err(e) => r == Err::<u32, ProtocolError>(e),
        },
        *final(idx) <= data@.len(),
{
    if data.len() - *idx < 3 {
        return Err(ProtocolError::InvalidResponse(what));
    }
    let out = read_be32(0, data[*idx], data[*idx + 1], data[*idx + 2]);
    *idx = *idx + 3;
    Ok(out)
}

/// Module-level helper to read a 32-bit big-endian value with bounds checking.
fn read_u32_from_data(idx: &mut usize, data: &[u8], what: &'static str) -> (r: Result<u32, ProtocolError>)
    requires
        *old(idx) <= data@.len(),
    ensures
        match take_u32(data@, *old(idx) as int, what) {
            Ok((v, j)) => r == Ok::<u32, ProtocolError>(v) && *final(idx) == j,
            Err(e) => r == Err::<u32, ProtocolError>(e),
        },
        *final(idx) <= data@.len(),
{
    if data.len() - *idx < 4 {
        return Err(ProtocolError::InvalidResponse(what));
    }
    let out = read_be32(data[*idx], data[*idx + 1], data[*idx + 2], data[*idx + 3]);
    *idx = *idx + 4;
    Ok(out)
}

/// The optional metadata fields read from the start of a tag block.
struct MetadataFields {
    read_count: Option<u8>,
    rssi_dbm: Option<i8>,
    antenna_id: Option<u8>,
    frequency_khz: Option<u32>,
    timestamp_ms: Option<u32>,
    rfu: Option<u16>,
    protocol_id: Option<u8>,
    tag_data_bit_length: Option<u16>,
    tag_data: Option<Vec<u8>>,
}

impl View for MetadataFields {
    type V = MetaView;

    closed spec fn view(&self) -> MetaView {
        MetaView {
            read_count: self.read_count,
            rssi_dbm: self.rssi_dbm,
            antenna_id: self.antenna_id,
            frequency_khz: self.frequency_khz,
            timestamp_ms: self.timestamp_ms,
            rfu: self.rfu,
            protocol_id: self.protocol_id,
            tag_data_bit_length: self.tag_data_bit_length,
            tag_data: opt_bytes_view(self.tag_data),
        }
    }
}


/// A Single Tag Inventory payload after `Option(1) | MetadataFlags(2)`:
/// metadata fields, then `EPC ID(N >= 1) | Tag CRC(2)` filling the rest.
pub open spec fn single_payload(flags: u16, d: Seq<u8>) -> Result<TagView, ProtocolError> {
    match metadata_fields(flags, d, true) {
        Err(e) => Err(e),
        Ok((m, i)) => if d.len() < i + 2 {
            Err(ProtocolError::InvalidResponse("single tag payload missing tag CRC"))
        } else if d.len() - i - 2 == 0 {
            Err(ProtocolError::InvalidResponse("single tag payload missing EPC ID"))
        } else {
            let k = d.len() - i - 2;
            Ok(
                TagView {
                    read_count: m.read_count,
                    rssi_dbm: m.rssi_dbm,
                    antenna_id: m.antenna_id,
                    frequency_khz: m.frequency_khz,
                    timestamp_ms: m.timestamp_ms,
                    rfu: m.rfu,
                    protocol_id: m.protocol_id,
                    tag_data_bit_length: m.tag_data_bit_length,
                    tag_data: m.tag_data,
                    epc_bit_length: ((k as u16) * 8) as u16,
                    pc_word: 0,
                    epc_id: d.subrange(i, i + k),
                    tag_crc: be16(d[i + k], d[i + k + 1]),
                },
            )
        },
    }
}

/// The EPC bit length of a single-tag payload (`8 * EPC bytes`, computed on
/// 16 bits) would overflow.
pub open spec fn single_payload_overflows(flags: u16, d: Seq<u8>) -> bool {
    match metadata_fields(flags, d, true) {
        Err(_) => false,
        Ok((m, i)) => d.len() >= i + 3 && ((d.len() - i - 2) as u16) as int * 8 > 0xFFFF,
    }
}

/// An EPC-only Single Tag Inventory payload: `EPC ID(N >= 1) | Tag CRC(2)`.
pub open spec fn epc_only_payload(d: Seq<u8>) -> Result<TagView, ProtocolError> {
    if d.len() < 3 {
        Err(ProtocolError::InvalidResponse("single tag EPC-only payload too short"))
    } else {
        let k = d.len() - 2;
        Ok(
            TagView {
                read_count: None,
                rssi_dbm: None,
                antenna_id: None,
                frequency_khz: None,
                timestamp_ms: None,
                rfu: None,
                protocol_id: None,
                tag_data_bit_length: None,
                tag_data: None,
                epc_bit_length: ((k as u16) * 8) as u16,
                pc_word: 0,
                epc_id: d.subrange(0, k),
                tag_crc: be16(d[k], d[k + 1]),
            },
        )
    }
}

/// The EPC bit length of an EPC-only payload would overflow.
pub open spec fn epc_only_overflows(d: Seq<u8>) -> bool {
    d.len() >= 3 && ((d.len() - 2) as u16) as int * 8 > 0xFFFF
}

/// A full Single Tag Inventory response: the echoed option byte, then either
/// metadata flags and a metadata payload (option bit 4 set) or an EPC-only
/// payload.
pub open spec fn single_response(request_option: u8, d: Seq<u8>) -> Result<(u16, TagView), ProtocolError> {
    if d.len() == 0 {
        Err(ProtocolError::InvalidResponse("single tag inventory response missing option"))
    } else if d[0] != request_option {
        Err(ProtocolError::InvalidResponse("single tag inventory response option does not match request"))
    } else if d[0] & 0x10u8 != 0 {
        if d.len() < 3 {
            Err(ProtocolError::InvalidResponse("single tag inventory response missing metadata flags"))
        } else {
            match single_payload(be16(d[1], d[2]), d.subrange(3, d.len() as int)) {
                Ok(t) => Ok((be16(d[1], d[2]), t)),
                Err(e) => Err(e),
            }
        }
    } else {
        match epc_only_payload(d.subrange(1, d.len() as int)) {
            Ok(t) => Ok((0u16, t)),
            Err(e) => Err(e),
        }
    }
}

/// Parsing a Single Tag Inventory response would overflow the EPC bit length.
pub open spec fn single_response_overflows(request_option: u8, d: Seq<u8>) -> bool {
    &&& d.len() > 0
    &&& d[0] == request_option
    &&& if d[0] & 0x10u8 != 0 {
        d.len() >= 3 && single_payload_overflows(be16(d[1], d[2]), d.subrange(3, d.len() as int))
    } else {
        epc_only_overflows(d.subrange(1, d.len() as int))
    }
}

/// Where the fields of a parsed Single Tag Inventory response sit: the
/// echoed option byte first; with option bit 4 (`0x10`) set, the metadata
/// flags high byte first in bytes 1 and 2; the tag CRC high byte first in
/// the last two bytes, right after a non-empty EPC ID whose bit length is
/// eight times its byte count; no PC word. A response data field holds at
/// most 255 bytes.
pub proof fn lemma_single_response_positions(request_option: u8, d: Seq<u8>)
    requires
        single_response(request_option, d) is Ok,
        d.len() <= 255,
    ensures
        ({
            let (flags, t) = single_response(request_option, d)->Ok_0;
            &&& d[0] == request_option
            &&& d[0] & 0x10u8 != 0 ==> flags as int == be_int16(d, 1)
            &&& d[0] & 0x10u8 == 0 ==> flags == 0 && t.epc_id == d.subrange(1, d.len() - 2)
            &&& d.len() >= 3
            &&& t.tag_crc as int == be_int16(d, d.len() - 2)
            &&& 1 <= t.epc_id.len() <= d.len() - 3
            &&& t.epc_id == d.subrange(d.len() - 2 - t.epc_id.len(), d.len() - 2)
            &&& t.epc_bit_length as int == 8 * t.epc_id.len()
            &&& t.pc_word == 0
        }),
{
    if d[0] & 0x10u8 != 0 {
        let p = d.subrange(3, d.len() as int);
        lemma_metadata_index_nonneg(be16(d[1], d[2]), p, true);
        let i = metadata_fields(be16(d[1], d[2]), p, true)->Ok_0.1;
        let k = p.len() - i - 2;
        assert(p.subrange(i, i + k) =~= d.subrange(d.len() - 2 - k, d.len() - 2));
        assert(p[i + k] == d[d.len() - 2]);
        assert(p[i + k + 1] == d[d.len() - 1]);
        assert(((k as u16) * 8) as u16 as int == 8 * k);
    } else {
        let p = d.subrange(1, d.len() as int);
        let k = p.len() - 2;
        assert(p.subrange(0, k) =~= d.subrange(1, d.len() - 2));
        assert(p[k] == d[d.len() - 2]);
        assert(p[k + 1] == d[d.len() - 1]);
        assert(((k as u16) * 8) as u16 as int == 8 * k);
    }
}

/// Read an optional byte at `idx` when `present`.
fn read_opt_u8(present: bool, idx: &mut usize, data: &[u8], what: &'static str) -> (r: Result<
    Option<u8>,
    ProtocolError,
>)
    requires
        *old(idx) <= data@.len(),
    ensures
        match opt_u8(present, data@, *old(idx) as int, what) {
            Ok((v, j)) => r == Ok::<Option<u8>, ProtocolError>(v) && *final(idx) == j,
            Err(e) => r == Err::<Option<u8>, ProtocolError>(e),
        },
        *final(idx) <= data@.len(),
{
    if present {
        match read_u8_from_data(idx, data, what) {
            Ok(v) => Ok(Some(v)),
            Err(e) => Err(e),
        }
    } else {
        Ok(None)
    }
}

/// Read an optional 16-bit value at `idx` when `present`.
fn read_opt_u16(present: bool, idx: &mut usize, data: &[u8], what: &'static str) -> (r: Result<
    Option<u16>,
    ProtocolError,
>)
    requires
        *old(idx) <= data@.len(),
    ensures
        match opt_u16(present, data@, *old(idx) as int, what) {
            Ok((v, j)) => r == Ok::<Option<u16>, ProtocolError>(v) && *final(idx) == j,
            Err(e) => r == Err::<Option<u16>, ProtocolError>(e),
        },
        *final(idx) <= data@.len(),
{
    if present {
        match read_u16_from_data(idx, data, what) {
            Ok(v) => Ok(Some(v)),
            Err(e) => Err(e),
        }
    } else {
        Ok(None)
    }
}

/// Read an optional 24-bit value at `idx` when `present`.
fn read_opt_u24(present: bool, idx: &mut usize, data: &[u8], what: &'static str) -> (r: Result<
    Option<u32>,
    ProtocolError,
>)
    requires
        *old(idx) <= data@.len(),
    ensures
        match opt_u24(present, data@, *old(idx) as int, what) {
            Ok((v, j)) => r == Ok::<Option<u32>, ProtocolError>(v) && *final(idx) == j,
            Err(e) => r == Err::<Option<u32>, ProtocolError>(e),
        },
        *final(idx) <= data@.len(),
{
    if present {
        match read_u24_from_data(idx, data, what) {
            Ok(v) => Ok(Some(v)),
            Err(e) => Err(e),
        }
    } else {
        Ok(None)
    }
}

/// Read an optional 32-bit value at `idx` when `present`.
fn read_opt_u32(present: bool, idx: &mut usize, data: &[u8], what: &'static str) -> (r: Result<
    Option<u32>,
    ProtocolError,
>)
    requires
        *old(idx) <= data@.len(),
    ensures
        match opt_u32(present, data@, *old(idx) as int, what) {
            Ok((v, j)) => r == Ok::<Option<u32>, ProtocolError>(v) && *final(idx) == j,
            Err(e) => r == Err::<Option<u32>, ProtocolError>(e),
        },
        *final(idx) <= data@.len(),
{
    if present {
        match read_u32_from_data(idx, data, what) {
            Ok(v) => Ok(Some(v)),
            Err(e) => Err(e),
        }
    } else {
        Ok(None)
    }
}

/// Read the optional tag data (bit length, then bytes) at `idx` when `present`.
fn read_opt_tag_data(present: bool, idx: &mut usize, data: &[u8], single: bool) -> (r: Result<
    (Option<u16>, Option<Vec<u8>>),
    ProtocolError,
>)
    requires
        *old(idx) <= data@.len(),
    ensures
        match opt_tag_data(present, data@, *old(idx) as int, single) {
            Ok((bits, bytes, j)) => (r matches Ok((b, t)) && b == bits && opt_bytes_view(t) == bytes
                && *final(idx) == j),
            Err(e) => r == Err::<(Option<u16>, Option<Vec<u8>>), ProtocolError>(e),
        },
        *final(idx) <= data@.len(),
{
    if !present {
        return Ok((None, None));
    }
    let bits = match read_u16_from_data(idx, data, msg_dlen(single)) {
        Ok(v) => v,
        Err(e) => {
            return Err(e);
        },
    };
    if bits % 8 != 0 {
        return Err(ProtocolError::InvalidResponse(msg_align(single)));
    }
    let bytes = (bits / 8) as usize;
    if data.len() - *idx < bytes {
        return Err(ProtocolError::InvalidResponse(msg_bytes(single)));
    }
    let payload = vstd::slice::slice_to_vec(&data[*idx..*idx + bytes]);
    *idx = *idx + bytes;
    Ok((Some(bits), Some(payload)))
}

/// A failed read stays failed through every later step.
proof fn lemma_steps_keep_error(e: ProtocolError, flags: u16, d: Seq<u8>, single: bool)
    ensures
        step_read_count(Err(e), flags, d, single) == Err::<(MetaView, int), ProtocolError>(e),
        step_rssi(Err(e), flags, d, single) == Err::<(MetaView, int), ProtocolError>(e),
        step_antenna_id(Err(e), flags, d, single) == Err::<(MetaView, int), ProtocolError>(e),
        step_frequency(Err(e), flags, d, single) == Err::<(MetaView, int), ProtocolError>(e),
        step_timestamp(Err(e), flags, d, single) == Err::<(MetaView, int), ProtocolError>(e),
        step_rfu(Err(e), flags, d, single) == Err::<(MetaView, int), ProtocolError>(e),
        step_protocol_id(Err(e), flags, d, single) == Err::<(MetaView, int), ProtocolError>(e),
        step_tag_data(Err(e), flags, d, single) == Err::<(MetaView, int), ProtocolError>(e),
{
    reveal(step_read_count);
    reveal(step_rssi);
    reveal(step_antenna_id);
    reveal(step_frequency);
    reveal(step_timestamp);
    reveal(step_rfu);
    reveal(step_protocol_id);
    reveal(step_tag_data);
}

/// A reading state whose index, when it has one, is not negative.
pub open spec fn index_nonneg(s: MetaState) -> bool {
    s matches Ok((_, i)) ==> i >= 0
}

/// No metadata step moves the index below zero.
proof fn lemma_steps_keep_index(s: MetaState, flags: u16, d: Seq<u8>, single: bool)
    requires
        index_nonneg(s),
    ensures
        index_nonneg(step_read_count(s, flags, d, single)),
        index_nonneg(step_rssi(s, flags, d, single)),
        index_nonneg(step_antenna_id(s, flags, d, single)),
        index_nonneg(step_frequency(s, flags, d, single)),
        index_nonneg(step_timestamp(s, flags, d, single)),
        index_nonneg(step_rfu(s, flags, d, single)),
        index_nonneg(step_protocol_id(s, flags, d, single)),
        index_nonneg(step_tag_data(s, flags, d, single)),
{
    reveal(step_read_count);
    reveal(step_rssi);
    reveal(step_antenna_id);
    reveal(step_frequency);
    reveal(step_timestamp);
    reveal(step_rfu);
    reveal(step_protocol_id);
    reveal(step_tag_data);
}

/// The index after the metadata fields is not negative.
pub proof fn lemma_metadata_index_nonneg(flags: u16, d: Seq<u8>, single: bool)
    ensures
        index_nonneg(metadata_fields(flags, d, single)),
{
    reveal(metadata_fields);
    let s0: MetaState = Ok((meta_empty(), 0));
    lemma_steps_keep_index(s0, flags, d, single);
    let s1 = step_read_count(s0, flags, d, single);
    lemma_steps_keep_index(s1, flags, d, single);
    let s2 = step_rssi(s1, flags, d, single);
    lemma_steps_keep_index(s2, flags, d, single);
    let s3 = step_antenna_id(s2, flags, d, single);
    lemma_steps_keep_index(s3, flags, d, single);
    let s4 = step_frequency(s3, flags, d, single);
    lemma_steps_keep_index(s4, flags, d, single);
    let s5 = step_timestamp(s4, flags, d, single);
    lemma_steps_keep_index(s5, flags, d, single);
    let s6 = step_rfu(s5, flags, d, single);
    lemma_steps_keep_index(s6, flags, d, single);
    let s7 = step_protocol_id(s6, flags, d, single);
    lemma_steps_keep_index(s7, flags, d, single);
}

/// A Single Tag Inventory response that fits one frame (at most 255 data
/// bytes) never overflows the 16-bit EPC bit length.
pub proof fn lemma_single_response_fits(request_option: u8, d: Seq<u8>)
    requires
        d.len() <= 255,
    ensures
        !single_response_overflows(request_option, d),
{
    if d.len() >= 3 {
        lemma_metadata_index_nonneg(be16(d[1], d[2]), d.subrange(3, d.len() as int), true);
    }
}

/// Read the metadata fields selected by `flags` from the start of `data`.
#[verifier::spinoff_prover]
#[verifier::rlimit(40)]
fn read_metadata_fields(flags: MetadataFlags, data: &[u8], single: bool) -> (r: Result<
    (MetadataFields, usize),
    ProtocolError,
>)
    ensures
        match metadata_fields(flags@, data@, single) {
            Ok((m, i)) => (r matches Ok((f, j)) && f@ == m && j == i),
            Err(e) => r == Err::<(MetadataFields, usize), ProtocolError>(e),
        },
        r matches Ok((f, j)) ==> j <= data@.len(),
{
    let ghost d = data@;
    let ghost fl = flags@;
    proof {
        reveal(metadata_fields);
    }
    let ghost mut st: MetaState = Ok((meta_empty(), 0));
    let ghost mut m = meta_empty();
    let mut idx: usize = 0;
    let read_count = match read_opt_u8(flags.read_count(), &mut idx, data, msg_rc(single)) {
        Ok(v) => v,
        Err(e) => {
            proof {
                reveal(step_read_count);
                lemma_steps_keep_error(e, fl, d, single);
            }
            return Err(e);
        },
    };
    proof {
        reveal(step_read_count);
        st = step_read_count(st, fl, d, single);
        m = MetaView { read_count, ..m };
        assert(st == Ok::<(MetaView, int), ProtocolError>((m, idx as int)));
    }
    let rssi = match read_opt_u8(flags.rssi(), &mut idx, data, msg_rssi(single)) {
        Ok(v) => v,
        Err(e) => {
            proof {
                reveal(step_rssi);
                lemma_steps_keep_error(e, fl, d, single);
            }
            return Err(e);
        },
    };
    let rssi_dbm: Option<i8> = match rssi {
        Some(b) => Some(b as i8),
        None => None,
    };
    proof {
        reveal(step_rssi);
        st = step_rssi(st, fl, d, single);
        m = MetaView { rssi_dbm, ..m };
        assert(st == Ok::<(MetaView, int), ProtocolError>((m, idx as int)));
    }
    let antenna_id = match read_opt_u8(flags.antenna_id(), &mut idx, data, msg_ant(single)) {
        Ok(v) => v,
        Err(e) => {
            proof {
                reveal(step_antenna_id);
                lemma_steps_keep_error(e, fl, d, single);
            }
            return Err(e);
        },
    };
    proof {
        reveal(step_antenna_id);
        st = step_antenna_id(st, fl, d, single);
        m = MetaView { antenna_id, ..m };
        assert(st == Ok::<(MetaView, int), ProtocolError>((m, idx as int)));
    }
    let frequency_khz = match read_opt_u24(flags.frequency(), &mut idx, data, msg_freq(single)) {
        Ok(v) => v,
        Err(e) => {
            proof {
                reveal(step_frequency);
                lemma_steps_keep_error(e, fl, d, single);
            }
            return Err(e);
        },
    };
    proof {
        reveal(step_frequency);
        st = step_frequency(st, fl, d, single);
        m = MetaView { frequency_khz, ..m };
        assert(st == Ok::<(MetaView, int), ProtocolError>((m, idx as int)));
    }
    let timestamp_ms = match read_opt_u32(flags.timestamp(), &mut idx, data, msg_ts(single)) {
        Ok(v) => v,
        Err(e) => {
            proof {
                reveal(step_timestamp);
                lemma_steps_keep_error(e, fl, d, single);
            }
            return Err(e);
        },
    };
    proof {
        reveal(step_timestamp);
        st = step_timestamp(st, fl, d, single);
        m = MetaView { timestamp_ms, ..m };
        assert(st == Ok::<(MetaView, int), ProtocolError>((m, idx as int)));
    }
    let rfu = match read_opt_u16(flags.rfu(), &mut idx, data, msg_rfu(single)) {
        Ok(v) => v,
        Err(e) => {
            proof {
                reveal(step_rfu);
                lemma_steps_keep_error(e, fl, d, single);
            }
            return Err(e);
        },
    };
    proof {
        reveal(step_rfu);
        st = step_rfu(st, fl, d, single);
        m = MetaView { rfu, ..m };
        assert(st == Ok::<(MetaView, int), ProtocolError>((m, idx as int)));
    }
    let protocol_id = match read_opt_u8(flags.protocol_id(), &mut idx, data, msg_proto(single)) {
        Ok(v) => v,
        Err(e) => {
            proof {
                reveal(step_protocol_id);
                lemma_steps_keep_error(e, fl, d, single);
            }
            return Err(e);
        },
    };
    proof {
        reveal(step_protocol_id);
        st = step_protocol_id(st, fl, d, single);
        m = MetaView { protocol_id, ..m };
        assert(st == Ok::<(MetaView, int), ProtocolError>((m, idx as int)));
    }
    let (tag_data_bit_length, tag_data) = match read_opt_tag_data(flags.data_length(), &mut idx, data, single) {
        Ok(v) => v,
        Err(e) => {
            proof {
                reveal(step_tag_data);
            }
            return Err(e);
        },
    };
    proof {
        reveal(step_tag_data);
        st = step_tag_data(st, fl, d, single);
        m = MetaView { tag_data_bit_length, tag_data: opt_bytes_view(tag_data), ..m };
        assert(st == Ok::<(MetaView, int), ProtocolError>((m, idx as int)));
    }
    let fields = MetadataFields {
        read_count,
        rssi_dbm,
        antenna_id,
        frequency_khz,
        timestamp_ms,
        rfu,
        protocol_id,
        tag_data_bit_length,
        tag_data,
    };
    assert(m == fields@);
    Ok((fields, idx))
}

/// Parse one `Tag EPC and Meta Data` block.
///
/// The field presence and order are controlled by [`MetadataFlags`]; after
/// them come the EPC length in bytes (including PC and tag CRC), the PC
/// word, the EPC ID and the tag CRC, with no trailing bytes.
pub fn parse_tag_epc_and_meta_data(metadata_flags: MetadataFlags, data: &[u8]) -> (r: Result<
    TagEpcAndMetaData,
    ProtocolError,
>)
    ensures
        match tag_block(metadata_flags@, data@) {
            Ok(t) => (r matches Ok(x) && x@ == t),
            Err(e) => r == Err::<TagEpcAndMetaData, ProtocolError>(e),
        },
{
    let (fields, start) = match read_metadata_fields(metadata_flags, data, false) {
        Ok(v) => v,
        Err(e) => {
            return Err(e);
        },
    };
    let mut idx = start;
    let epc_total_bytes = match read_u8_from_data(&mut idx, data, "tag metadata missing EPC length") {
        Ok(v) => v as usize,
        Err(e) => {
            return Err(e);
        },
    };
    let epc_bit_length = (epc_total_bytes as u16) * 8;
    if epc_total_bytes < 4 {
        return Err(ProtocolError::InvalidResponse("EPC length must include PC and tag CRC"));
    }
    let pc_word = match read_u16_from_data(&mut idx, data, "tag metadata missing PC word") {
        Ok(v) => v,
        Err(e) => {
            return Err(e);
        },
    };
    let epc_id_len = epc_total_bytes - 4;
    if data.len() - idx < epc_id_len {
        return Err(ProtocolError::InvalidResponse("tag metadata missing EPC ID"));
    }
    let epc_id = vstd::slice::slice_to_vec(&data[idx..idx + epc_id_len]);
    idx = idx + epc_id_len;
    let tag_crc = match read_u16_from_data(&mut idx, data, "tag metadata missing tag CRC") {
        Ok(v) => v,
        Err(e) => {
            return Err(e);
        },
    };
    if idx != data.len() {
        return Err(ProtocolError::InvalidResponse("trailing bytes after tag metadata block"));
    }
    Ok(
        TagEpcAndMetaData {
            read_count: fields.read_count,
            rssi_dbm: fields.rssi_dbm,
            antenna_id: fields.antenna_id,
            frequency_khz: fields.frequency_khz,
            timestamp_ms: fields.timestamp_ms,
            rfu: fields.rfu,
            protocol_id: fields.protocol_id,
            tag_data_bit_length: fields.tag_data_bit_length,
            tag_data: fields.tag_data,
            epc_bit_length,
            pc_word,
            epc_id,
            tag_crc,
        },
    )
}

/// Parse the payload portion of command `0x21` (Single Tag Inventory) after
/// `Option(1) + MetadataFlags(2)`: the metadata fields, then a variable-length
/// EPC ID and the tag CRC as the final two bytes.
pub fn parse_single_tag_inventory_payload(metadata_flags: MetadataFlags, data: &[u8]) -> (r: Result<
    TagEpcAndMetaData,
    ProtocolError,
>)
    requires
        !single_payload_overflows(metadata_flags@, data@),
    ensures
        match single_payload(metadata_flags@, data@) {
            Ok(t) => (r matches Ok(x) && x@ == t),
            Err(e) => r == Err::<TagEpcAndMetaData, ProtocolError>(e),
        },
{
    let (fields, start) = match read_metadata_fields(metadata_flags, data, true) {
        Ok(v) => v,
        Err(e) => {
            return Err(e);
        },
    };
    let mut idx = start;
    if data.len() - idx < 2 {
        return Err(ProtocolError::InvalidResponse("single tag payload missing tag CRC"));
    }
    let epc_id_len = data.len() - idx - 2;
    if epc_id_len == 0 {
        return Err(ProtocolError::InvalidResponse("single tag payload missing EPC ID"));
    }
    let epc_id = vstd::slice::slice_to_vec(&data[idx..idx + epc_id_len]);
    idx = idx + epc_id_len;
    let tag_crc = match read_u16_from_data(&mut idx, data, "single tag payload missing tag CRC") {
        Ok(v) => v,
        Err(e) => {
            return Err(e);
        },
    };
    if idx != data.len() {
        return Err(ProtocolError::InvalidResponse("trailing bytes after single tag payload"));
    }
    let epc_bit_length = (epc_id.len() as u16) * 8;
    Ok(
        TagEpcAndMetaData {
            read_count: fields.read_count,
            rssi_dbm: fields.rssi_dbm,
            antenna_id: fields.antenna_id,
            frequency_khz: fields.frequency_khz,
            timestamp_ms: fields.timestamp_ms,
            rfu: fields.rfu,
            protocol_id: fields.protocol_id,
            tag_data_bit_length: fields.tag_data_bit_length,
            tag_data: fields.tag_data,
            epc_bit_length,
            pc_word: 0,
            epc_id,
            tag_crc,
        },
    )
}

/// Parse an EPC-only Single Tag Inventory payload: `EPC ID(N) | Tag CRC(2)`.
fn parse_single_tag_inventory_epc_only_payload(data: &[u8]) -> (r: Result<
    TagEpcAndMetaData,
    ProtocolError,
>)
    requires
        !epc_only_overflows(data@),
    ensures
        match epc_only_payload(data@) {
            Ok(t) => (r matches Ok(x) && x@ == t),
            Err(e) => r == Err::<TagEpcAndMetaData, ProtocolError>(e),
        },
{
    if data.len() < 3 {
        return Err(ProtocolError::InvalidResponse("single tag EPC-only payload too short"));
    }
    let epc_id_len = data.len() - 2;
    let epc_id = vstd::slice::slice_to_vec(&data[0..epc_id_len]);
    let tag_crc = read_be16(data[epc_id_len], data[epc_id_len + 1]);
    let epc_bit_length = (epc_id.len() as u16) * 8;
    Ok(
        TagEpcAndMetaData {
            read_count: None,
            rssi_dbm: None,
            antenna_id: None,
            frequency_khz: None,
            timestamp_ms: None,
            rfu: None,
            protocol_id: None,
            tag_data_bit_length: None,
            tag_data: None,
            epc_bit_length,
            pc_word: 0,
            epc_id,
            tag_crc,
        },
    )
}

/// Parse full command `0x21` (Single Tag Inventory) response payload.
///
/// Format is determined by bit 4 of the echoed option byte:
/// - bit4=0: `Option(1) | EPC ID(N) | Tag CRC(2)`
/// - bit4=1: `Option(1) | MetadataFlags(2) | <single-tag metadata payload>`
///
/// Returns the echoed metadata flags (none in the EPC-only form) together
/// with the parsed tag data.
pub fn parse_single_tag_inventory_response(request_option_raw: u8, data: &[u8]) -> (r: Result<
    (MetadataFlags, TagEpcAndMetaData),
    ProtocolError,
>)
    requires
        !single_response_overflows(request_option_raw, data@),
    ensures
        match single_response(request_option_raw, data@) {
            Ok((f, t)) => (r matches Ok((x, y)) && x@ == f && y@ == t),
            Err(e) => r == Err::<(MetadataFlags, TagEpcAndMetaData), ProtocolError>(e),
        },
{
    if data.len() == 0 {
        return Err(ProtocolError::InvalidResponse("single tag inventory response missing option"));
    }
    let response_option = data[0];
    if response_option != request_option_raw {
        return Err(
            ProtocolError::InvalidResponse(
                "single tag inventory response option does not match request",
            ),
        );
    }
    if (response_option & 0x10) != 0 {
        if data.len() < 3 {
            return Err(
                ProtocolError::InvalidResponse(
                    "single tag inventory response missing metadata flags",
                ),
            );
        }
        let metadata_flags = MetadataFlags::from_raw(read_be16(data[1], data[2]));
        let tag = match parse_single_tag_inventory_payload(metadata_flags, &data[3..data.len()]) {
            Ok(t) => t,
            Err(e) => {
                return Err(e);
            },
        };
        Ok((metadata_flags, tag))
    } else {
        let metadata_flags = MetadataFlags::none();
        let tag = match parse_single_tag_inventory_epc_only_payload(&data[1..data.len()]) {
            Ok(t) => t,
            Err(e) => {
                return Err(e);
            },
        };
        Ok((metadata_flags, tag))
    }
}

} // verus!
