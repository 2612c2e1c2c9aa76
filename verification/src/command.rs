//! Option bytes, flag words and typed payload pieces used by the command
//! builders.

use vstd::prelude::*;

use crate::bytes::{push_u16_be, push_u32_be, extend_bytes, u16_be, u32_be};
use crate::codes::CommandCode;
use crate::error::ProtocolError;

verus! {

/// Whether any bit of `mask` is set in `v`.
pub open spec fn has_bit(v: u16, mask: u16) -> bool {
    v & mask != 0
}

/// `v` with the bits of `mask` set (`en`) or cleared (`!en`).
pub open spec fn set_bit(v: u16, mask: u16, en: bool) -> u16 {
    if en {
        v | mask
    } else {
        v & !mask
    }
}

/// Setting or clearing a mask and then reading it gives back the requested
/// state; bits outside the mask keep their state.
pub proof fn lemma_set_bit_get(v: u16, mask: u16, other: u16, en: bool)
    requires
        mask != 0,
        mask & other == 0,
    ensures
        has_bit(set_bit(v, mask, en), mask) == en,
        has_bit(set_bit(v, mask, en), other) == has_bit(v, other),
{
    if en {
        assert(((v | mask) & mask != 0) == true) by (bit_vector)
            requires
                mask != 0,
        ;
        assert(((v | mask) & other != 0) == (v & other != 0)) by (bit_vector)
            requires
                mask & other == 0,
        ;
    } else {
        assert(((v & !mask) & mask != 0) == false) by (bit_vector);
        assert(((v & !mask) & other != 0) == (v & other != 0)) by (bit_vector)
            requires
                mask & other == 0,
        ;
    }
}

/// Whether any bit of `mask` is set in the byte `v`.
pub open spec fn has_bit8(v: u8, mask: u8) -> bool {
    v & mask != 0
}

/// The byte `v` with the bits of `mask` set (`en`) or cleared (`!en`).
pub open spec fn set_bit8(v: u8, mask: u8, en: bool) -> u8 {
    if en {
        v | mask
    } else {
        v & !mask
    }
}

/// Option byte used by inventory commands (for example `0x22` and async
/// start `0xAA48`).
///
/// Lower bits include select-option flags documented under Tag Inventory
/// commands. Higher bits are command-specific non-select option flags.
#[derive(Debug, Clone, Copy, PartialEq, Eq, Structural)]
pub struct InventoryOption(u8);

impl View for InventoryOption {
    type V = u8;

    /// The raw protocol byte.
    closed spec fn view(&self) -> u8 {
        self.0
    }
}

impl InventoryOption {
    /// Create a default option byte with all bits cleared.
    pub fn default() -> (r: Self)
        ensures
            r@ == 0,
    {
        InventoryOption(0)
    }

    /// Create from the raw protocol byte.
    pub fn from_raw(raw: u8) -> (r: Self)
        ensures
            r@ == raw,
    {
        InventoryOption(raw)
    }

    /// Return the raw protocol byte.
    pub fn raw(self) -> (r: u8)
        ensures
            r == self@,
    {
        self.0
    }

    /// Return select-option bits (mask `0x2F`) as documented.
    pub fn select_option_bits(self) -> (r: u8)
        ensures
            r == self@ & 0x2Fu8,
    {
        self.0 & 0x2F
    }

    /// Whether single-tag metadata mode is requested (bit 4, `0x10`).
    pub fn single_tag_metadata_enabled(self) -> (r: bool)
        ensures
            r == has_bit8(self@, 0x10u8),
    {
        (self.0 & 0x10) != 0
    }

    /// Set or clear single-tag metadata mode (bit 4, `0x10`).
    pub fn with_single_tag_metadata(self, enabled: bool) -> (r: Self)
        ensures
            r@ == set_bit8(self@, 0x10u8, enabled),
    {
        if enabled {
            InventoryOption(self.0 | 0x10)
        } else {
            InventoryOption(self.0 & !0x10u8)
        }
    }
}

/// Search flags used by inventory commands (for example `0x22` and `0xAA48`).
///
/// For asynchronous inventory, protocol docs define extra semantics:
/// - bits 8..=11: rest ratio steps (0..=15)
/// - bit 15: heartbeat enable
/// - bit 14: auto-stop enable
#[derive(Debug, Clone, Copy, PartialEq, Eq, Structural)]
pub struct InventorySearchFlags(u16);

impl View for InventorySearchFlags {
    type V = u16;

    /// The raw protocol value.
    closed spec fn view(&self) -> u16 {
        self.0
    }
}

/// The rest-ratio steps stored in bits 8..=11 of a search-flags word.
pub open spec fn rest_ratio_steps(v: u16) -> u8 {
    ((v >> 8u16) & 0x0Fu16) as u8
}

/// The search-flags word `v` with bits 8..=11 replaced by `steps`.
pub open spec fn with_rest_ratio_steps(v: u16, steps: u8) -> u16 {
    (v & !0x0F00u16) | ((steps as u16) << 8u16)
}

impl InventorySearchFlags {
    /// Create a default search flags value with all bits cleared.
    pub fn new() -> (r: Self)
        ensures
            r@ == 0,
    {
        InventorySearchFlags(0)
    }

    /// Create from the raw protocol value.
    pub fn from_raw(raw: u16) -> (r: Self)
        ensures
            r@ == raw,
    {
        InventorySearchFlags(raw)
    }

    /// Return the raw protocol value.
    pub fn raw(self) -> (r: u16)
        ensures
            r == self@,
    {
        self.0
    }

    /// Extract asynchronous rest-ratio steps from bits 8..=11.
    pub fn async_rest_ratio_steps(self) -> (r: u8)
        ensures
            r == rest_ratio_steps(self@),
            r <= 15,
    {
        let v = self.0;
        assert(((v >> 8u16) & 0x0Fu16) <= 15) by (bit_vector);
        ((v >> 8u16) & 0x0F) as u8
    }

    /// Return whether asynchronous heartbeat is enabled (bit 15).
    pub fn async_heartbeat_enabled(self) -> (r: bool)
        ensures
            r == has_bit(self@, 0x8000),
    {
        (self.0 & 0x8000) != 0
    }

    /// Return whether asynchronous auto-stop is enabled (bit 14).
    pub fn async_auto_stop_enabled(self) -> (r: bool)
        ensures
            r == has_bit(self@, 0x4000),
    {
        (self.0 & 0x4000) != 0
    }

    /// Return whether inventory embedded command mode is enabled (bit 2).
    pub fn embedded_command_enabled(self) -> (r: bool)
        ensures
            r == has_bit(self@, 0x0004),
    {
        (self.0 & 0x0004) != 0
    }

    /// Set asynchronous rest-ratio steps (0..=15) in bits 8..=11.
    pub fn with_async_rest_ratio_steps(self, steps: u8) -> (r: Result<Self, ProtocolError>)
        ensures
            steps > 15 ==> r == Err::<Self, ProtocolError>(
                ProtocolError::InvalidArgument("async rest ratio steps must be in 0..=15"),
            ),
            steps <= 15 ==> (r matches Ok(f) && f@ == with_rest_ratio_steps(self@, steps)),
    {
        if steps > 15 {
            return Err(ProtocolError::InvalidArgument("async rest ratio steps must be in 0..=15"));
        }
        let raw = (self.0 & !(0x0F00u16)) | ((steps as u16) << 8u16);
        Ok(InventorySearchFlags(raw))
    }

    /// Set or clear asynchronous heartbeat enable (bit 15).
    pub fn with_async_heartbeat(self, enabled: bool) -> (r: Self)
        ensures
            r@ == set_bit(self@, 0x8000, enabled),
    {
        if enabled {
            InventorySearchFlags(self.0 | 0x8000)
        } else {
            InventorySearchFlags(self.0 & !0x8000u16)
        }
    }

    /// Set or clear asynchronous auto-stop enable (bit 14).
    pub fn with_async_auto_stop(self, enabled: bool) -> (r: Self)
        ensures
            r@ == set_bit(self@, 0x4000, enabled),
    {
        if enabled {
            InventorySearchFlags(self.0 | 0x4000)
        } else {
            InventorySearchFlags(self.0 & !0x4000u16)
        }
    }

    /// Set or clear inventory embedded command mode (bit 2).
    pub fn with_embedded_command(self, enabled: bool) -> (r: Self)
        ensures
            r@ == set_bit(self@, 0x0004, enabled),
    {
        if enabled {
            InventorySearchFlags(self.0 | 0x0004)
        } else {
            InventorySearchFlags(self.0 & !0x0004u16)
        }
    }
}

/// Storing rest-ratio steps (0..=15) and reading them back gives the steps;
/// the heartbeat, auto-stop and embedded-command bits are left as they were.
pub proof fn lemma_rest_ratio_steps_round_trip(v: u16, steps: u8)
    requires
        steps <= 15,
    ensures
        rest_ratio_steps(with_rest_ratio_steps(v, steps)) == steps,
        has_bit(with_rest_ratio_steps(v, steps), 0x8000) == has_bit(v, 0x8000),
        has_bit(with_rest_ratio_steps(v, steps), 0x4000) == has_bit(v, 0x4000),
        has_bit(with_rest_ratio_steps(v, steps), 0x0004) == has_bit(v, 0x0004),
{
    let w = (v & !0x0F00u16) | ((steps as u16) << 8u16);
    assert(((w >> 8u16) & 0x0Fu16) == steps as u16 && (w & 0x8000u16 != 0) == (v & 0x8000u16 != 0)
        && (w & 0x4000u16 != 0) == (v & 0x4000u16 != 0) && (w & 0x0004u16 != 0) == (v & 0x0004u16
        != 0)) by (bit_vector)
        requires
            steps <= 15,
            w == (v & !0x0F00u16) | ((steps as u16) << 8u16),
    ;
}

/// Setting or clearing the heartbeat, auto-stop or embedded-command flag is
/// seen by its reader and leaves the other two flags and the rest-ratio
/// steps unchanged.
pub proof fn lemma_search_flag_set_get(v: u16, en: bool)
    ensures
        has_bit(set_bit(v, 0x8000, en), 0x8000) == en,
        has_bit(set_bit(v, 0x8000, en), 0x4000) == has_bit(v, 0x4000),
        has_bit(set_bit(v, 0x8000, en), 0x0004) == has_bit(v, 0x0004),
        rest_ratio_steps(set_bit(v, 0x8000, en)) == rest_ratio_steps(v),
        has_bit(set_bit(v, 0x4000, en), 0x4000) == en,
        has_bit(set_bit(v, 0x4000, en), 0x8000) == has_bit(v, 0x8000),
        has_bit(set_bit(v, 0x4000, en), 0x0004) == has_bit(v, 0x0004),
        rest_ratio_steps(set_bit(v, 0x4000, en)) == rest_ratio_steps(v),
        has_bit(set_bit(v, 0x0004, en), 0x0004) == en,
        has_bit(set_bit(v, 0x0004, en), 0x8000) == has_bit(v, 0x8000),
        has_bit(set_bit(v, 0x0004, en), 0x4000) == has_bit(v, 0x4000),
        rest_ratio_steps(set_bit(v, 0x0004, en)) == rest_ratio_steps(v),
{
    assert(0x8000u16 & 0x4000u16 == 0 && 0x8000u16 & 0x0004u16 == 0 && 0x4000u16 & 0x8000u16 == 0
        && 0x4000u16 & 0x0004u16 == 0 && 0x0004u16 & 0x8000u16 == 0 && 0x0004u16 & 0x4000u16 == 0)
        by (bit_vector);
    lemma_set_bit_get(v, 0x8000, 0x4000, en);
    lemma_set_bit_get(v, 0x8000, 0x0004, en);
    lemma_set_bit_get(v, 0x4000, 0x8000, en);
    lemma_set_bit_get(v, 0x4000, 0x0004, en);
    lemma_set_bit_get(v, 0x0004, 0x8000, en);
    lemma_set_bit_get(v, 0x0004, 0x4000, en);
    assert((((v | 0x8000u16) >> 8u16) & 0x0Fu16) == ((v >> 8u16) & 0x0Fu16)
        && (((v & !0x8000u16) >> 8u16) & 0x0Fu16) == ((v >> 8u16) & 0x0Fu16)
        && (((v | 0x4000u16) >> 8u16) & 0x0Fu16) == ((v >> 8u16) & 0x0Fu16)
        && (((v & !0x4000u16) >> 8u16) & 0x0Fu16) == ((v >> 8u16) & 0x0Fu16)
        && (((v | 0x0004u16) >> 8u16) & 0x0Fu16) == ((v >> 8u16) & 0x0Fu16)
        && (((v & !0x0004u16) >> 8u16) & 0x0Fu16) == ((v >> 8u16) & 0x0Fu16)) by (bit_vector);
}

/// Metadata flags that control which per-tag metadata fields the reader
/// includes in inventory responses.
///
/// Each enabled bit requests one additional metadata field in the response.
/// When all bits are zero the reader returns only the EPC and tag CRC.
///
/// | Bit | Value  | Field         | Size    |
/// |-----|--------|---------------|---------|
/// |  0  | 0x0001 | Read Count    | 1 byte  |
/// |  1  | 0x0002 | RSSI          | 1 byte  |
/// |  2  | 0x0004 | Antenna ID    | 1 byte  |
/// |  3  | 0x0008 | Frequency     | 3 bytes |
/// |  4  | 0x0010 | Timestamp     | 4 bytes |
/// |  5  | 0x0020 | RFU           | 2 bytes |
/// |  6  | 0x0040 | Protocol ID   | 1 byte  |
/// |  7  | 0x0080 | Data Length   | 2 bytes |
#[derive(Debug, Clone, Copy, PartialEq, Eq, Structural)]
pub struct MetadataFlags(u16);

impl View for MetadataFlags {
    type V = u16;

    /// The raw protocol value.
    closed spec fn view(&self) -> u16 {
        self.0
    }
}

impl MetadataFlags {
    /// No metadata: only EPC and tag CRC are returned.
    pub fn none() -> (r: Self)
        ensures
            r@ == 0x0000,
    {
        MetadataFlags(0x0000)
    }

    /// All defined metadata bits set (`0x00FF`).
    pub fn all() -> (r: Self)
        ensures
            r@ == 0x00FF,
    {
        MetadataFlags(0x00FF)
    }

    /// Create from the raw protocol value.
    pub fn from_raw(raw: u16) -> (r: Self)
        ensures
            r@ == raw,
    {
        MetadataFlags(raw)
    }

    /// Return the raw protocol value.
    pub fn raw(self) -> (r: u16)
        ensures
            r == self@,
    {
        self.0
    }

    /// Whether the Read Count field is requested (bit 0).
    pub fn read_count(self) -> (r: bool)
        ensures
            r == has_bit(self@, 0x0001),
    {
        (self.0 & 0x0001) != 0
    }

    /// Whether the RSSI field is requested (bit 1).
    pub fn rssi(self) -> (r: bool)
        ensures
            r == has_bit(self@, 0x0002),
    {
        (self.0 & 0x0002) != 0
    }

    /// Whether the Antenna ID field is requested (bit 2).
    pub fn antenna_id(self) -> (r: bool)
        ensures
            r == has_bit(self@, 0x0004),
    {
        (self.0 & 0x0004) != 0
    }

    /// Whether the Frequency field is requested (bit 3).
    pub fn frequency(self) -> (r: bool)
        ensures
            r == has_bit(self@, 0x0008),
    {
        (self.0 & 0x0008) != 0
    }

    /// Whether the Timestamp field is requested (bit 4).
    pub fn timestamp(self) -> (r: bool)
        ensures
            r == has_bit(self@, 0x0010),
    {
        (self.0 & 0x0010) != 0
    }

    /// Whether the RFU reserved field is requested (bit 5).
    pub fn rfu(self) -> (r: bool)
        ensures
            r == has_bit(self@, 0x0020),
    {
        (self.0 & 0x0020) != 0
    }

    /// Whether the Protocol ID field is requested (bit 6).
    pub fn protocol_id(self) -> (r: bool)
        ensures
            r == has_bit(self@, 0x0040),
    {
        (self.0 & 0x0040) != 0
    }

    /// Whether the Data Length field is requested (bit 7).
    pub fn data_length(self) -> (r: bool)
        ensures
            r == has_bit(self@, 0x0080),
    {
        (self.0 & 0x0080) != 0
    }

    /// Set or clear the Read Count bit (bit 0).
    pub fn with_read_count(self, en: bool) -> (r: Self)
        ensures
            r@ == set_bit(self@, 0x0001, en),
    {
        MetadataFlags(if en { self.0 | 0x0001 } else { self.0 & !0x0001u16 })
    }

    /// Set or clear the RSSI bit (bit 1).
    pub fn with_rssi(self, en: bool) -> (r: Self)
        ensures
            r@ == set_bit(self@, 0x0002, en),
    {
        MetadataFlags(if en { self.0 | 0x0002 } else { self.0 & !0x0002u16 })
    }

    /// Set or clear the Antenna ID bit (bit 2).
    pub fn with_antenna_id(self, en: bool) -> (r: Self)
        ensures
            r@ == set_bit(self@, 0x0004, en),
    {
        MetadataFlags(if en { self.0 | 0x0004 } else { self.0 & !0x0004u16 })
    }

    /// Set or clear the Frequency bit (bit 3).
    pub fn with_frequency(self, en: bool) -> (r: Self)
        ensures
            r@ == set_bit(self@, 0x0008, en),
    {
        MetadataFlags(if en { self.0 | 0x0008 } else { self.0 & !0x0008u16 })
    }

    /// Set or clear the Timestamp bit (bit 4).
    pub fn with_timestamp(self, en: bool) -> (r: Self)
        ensures
            r@ == set_bit(self@, 0x0010, en),
    {
        MetadataFlags(if en { self.0 | 0x0010 } else { self.0 & !0x0010u16 })
    }

    /// Set or clear the RFU reserved bit (bit 5).
    pub fn with_rfu(self, en: bool) -> (r: Self)
        ensures
            r@ == set_bit(self@, 0x0020, en),
    {
        MetadataFlags(if en { self.0 | 0x0020 } else { self.0 & !0x0020u16 })
    }

    /// Set or clear the Protocol ID bit (bit 6).
    pub fn with_protocol_id(self, en: bool) -> (r: Self)
        ensures
            r@ == set_bit(self@, 0x0040, en),
    {
        MetadataFlags(if en { self.0 | 0x0040 } else { self.0 & !0x0040u16 })
    }

    /// Set or clear the Data Length bit (bit 7).
    pub fn with_data_length(self, en: bool) -> (r: Self)
        ensures
            r@ == set_bit(self@, 0x0080, en),
    {
        MetadataFlags(if en { self.0 | 0x0080 } else { self.0 & !0x0080u16 })
    }

}

/// The eight metadata field masks, bit 0 to bit 7.
pub open spec fn metadata_mask(k: int) -> u16 {
    if 0 <= k < 8 {
        (1u16 << (k as u16))
    } else {
        0
    }
}

/// Setting or clearing one metadata field is seen by that field's reader and
/// leaves every other field as it was.
pub proof fn lemma_metadata_flag_set_get(v: u16, k: int, j: int, en: bool)
    requires
        0 <= k < 8,
        0 <= j < 8,
        k != j,
    ensures
        has_bit(set_bit(v, metadata_mask(k), en), metadata_mask(k)) == en,
        has_bit(set_bit(v, metadata_mask(k), en), metadata_mask(j)) == has_bit(v, metadata_mask(j)),
{
    let kk = k as u16;
    let jj = j as u16;
    assert((1u16 << kk) != 0 && (1u16 << kk) & (1u16 << jj) == 0) by (bit_vector)
        requires
            kk < 8,
            jj < 8,
            kk != jj,
    ;
    lemma_set_bit_get(v, 1u16 << kk, 1u16 << jj, en);
}

/// Tag memory bank selector used by read/write access commands.
#[derive(Debug, Clone, Copy, PartialEq, Eq, Structural)]
pub enum MemBank {
    /// Gen2 Reserved bank (`0x00`).
    Reserved,
    /// Gen2 EPC bank (`0x01`).
    Epc,
    /// Gen2 TID bank (`0x02`).
    Tid,
    /// Gen2 User bank (`0x03`).
    User,
}

impl MemBank {
    /// The protocol byte of each bank.
    pub open spec fn code(self) -> u8 {
        match self {
            MemBank::Reserved => 0x00,
            MemBank::Epc => 0x01,
            MemBank::Tid => 0x02,
            MemBank::User => 0x03,
        }
    }

    /// Return the raw protocol value.
    pub fn as_u8(self) -> (r: u8)
        ensures
            r == self.code(),
    {
        match self {
            MemBank::Reserved => 0x00,
            MemBank::Epc => 0x01,
            MemBank::Tid => 0x02,
            MemBank::User => 0x03,
        }
    }

    /// Parse a raw protocol value into a typed memory bank.
    pub fn from_u8(raw: u8) -> (r: Result<Self, ProtocolError>)
        ensures
            raw > 3 ==> r == Err::<MemBank, ProtocolError>(
                ProtocolError::InvalidArgument("membank must be one of 0x00..=0x03"),
            ),
            raw <= 3 ==> (r matches Ok(b) && b.code() == raw),
    {
        match raw {
            0x00 => Ok(MemBank::Reserved),
            0x01 => Ok(MemBank::Epc),
            0x02 => Ok(MemBank::Tid),
            0x03 => Ok(MemBank::User),
            _ => Err(ProtocolError::InvalidArgument("membank must be one of 0x00..=0x03")),
        }
    }
}

/// Distinct memory banks have distinct codes, so `from_u8` of a bank's code
/// gives that bank back.
pub proof fn lemma_mem_bank_injective(a: MemBank, b: MemBank)
    ensures
        a.code() == b.code() ==> a == b,
        a.code() <= 3,
{
}

/// Select/singulation payload used by inventory and tag access commands.
#[derive(Debug, Clone, PartialEq, Eq)]
pub struct SelectContent {
    /// Address (bits).
    pub address_bits: u32,
    /// Number of selected bits.
    pub bit_len: u8,
    /// Select data bytes.
    pub data: Vec<u8>,
}

impl SelectContent {
    /// Wire layout: `Address(4) | BitLength(1) | Data(N)`.
    pub open spec fn spec_bytes(&self) -> Seq<u8> {
        u32_be(self.address_bits) + seq![self.bit_len] + self.data@
    }

    /// Append the wire layout of this select content to `out`.
    pub(crate) fn encode(&self, out: &mut Vec<u8>)
        ensures
            final(out)@ == old(out)@ + self.spec_bytes(),
    {
        push_u32_be(out, self.address_bits);
        out.push(self.bit_len);
        extend_bytes(out, self.data.as_slice());
        assert(final(out)@ =~= old(out)@ + self.spec_bytes());
    }
}

/// Typed fields for embedded command `0x28` (Read Tag Data).
#[derive(Debug, Clone, Copy, PartialEq, Eq)]
pub struct EmbeddedReadTagData {
    /// Target memory bank.
    pub read_membank: MemBank,
    /// Start address in words.
    pub read_address_words: u32,
    /// Number of words to read.
    pub word_count: u8,
}

impl EmbeddedReadTagData {
    /// Wire layout: `Count(1)=1 | Length(1)=9 | Opcode(1)=0x28 | Timeout(2)=0 |
    /// Option(1)=0 | MemBank(1) | Address(4) | WordCount(1)`.
    pub open spec fn spec_bytes(&self) -> Seq<u8> {
        seq![0x01u8, 9u8, 0x28u8] + u16_be(0) + seq![0x00u8, self.read_membank.code()] + u32_be(
            self.read_address_words,
        ) + seq![self.word_count]
    }

    /// Length of the embedded data field: timeout, option, bank, address and
    /// word count.
    fn data_field_len(&self) -> (r: usize)
        ensures
            r == 9,
    {
        9
    }

    /// Append the embedded command frame to `out`.
    fn encode(&self, out: &mut Vec<u8>)
        ensures
            final(out)@ == old(out)@ + self.spec_bytes(),
    {
        out.push(0x01);
        out.push(self.data_field_len() as u8);
        out.push(CommandCode::ReadTagData.as_u8());
        // Vendor docs state timeout/option are ignored for embedded reads.
        push_u16_be(out, 0x0000);
        out.push(0x00);
        out.push(self.read_membank.as_u8());
        push_u32_be(out, self.read_address_words);
        out.push(self.word_count);
        assert(final(out)@ =~= old(out)@ + self.spec_bytes());
    }
}

/// Typed inventory embedded command content.
///
/// The protocol currently documents embedded command opcode `0x28`
/// (Read Tag Data) for inventory commands.
#[derive(Debug, Clone, Copy, PartialEq, Eq)]
pub enum InventoryEmbeddedCommandContent {
    /// Embedded command `0x28` (Read Tag Data).
    ReadTagData(EmbeddedReadTagData),
}

impl InventoryEmbeddedCommandContent {
    /// The wire layout of the embedded command.
    pub open spec fn spec_bytes(&self) -> Seq<u8> {
        match self {
            InventoryEmbeddedCommandContent::ReadTagData(cmd) => cmd.spec_bytes(),
        }
    }

    /// Number of bytes the embedded command occupies on the wire.
    fn encoded_len(&self) -> (r: usize)
        ensures
            r == self.spec_bytes().len(),
    {
        match self {
            InventoryEmbeddedCommandContent::ReadTagData(cmd) => 3 + cmd.data_field_len(),
        }
    }

    /// Append the embedded command to `out`.
    fn encode(&self, out: &mut Vec<u8>)
        ensures
            final(out)@ == old(out)@ + self.spec_bytes(),
    {
        match self {
            InventoryEmbeddedCommandContent::ReadTagData(cmd) => cmd.encode(out),
        }
    }
}

/// Asynchronous inventory subcommand IDs.
#[derive(Debug, Clone, Copy, PartialEq, Eq, Structural)]
pub enum AsyncSubcommandCode {
    /// Start async inventory (`0xAA48`).
    Start,
    /// Stop async inventory (`0xAA49`).
    Stop,
}

impl AsyncSubcommandCode {
    /// The protocol value of each subcommand.
    pub open spec fn value(self) -> u16 {
        match self {
            AsyncSubcommandCode::Start => 0xAA48,
            AsyncSubcommandCode::Stop => 0xAA49,
        }
    }

    /// Return the raw 16-bit subcommand value.
    pub fn as_u16(self) -> (r: u16)
        ensures
            r == self.value(),
    {
        match self {
            AsyncSubcommandCode::Start => 0xAA48,
            AsyncSubcommandCode::Stop => 0xAA49,
        }
    }
}

/// The four bytes of an optional password, or nothing.
pub open spec fn opt_u32_bytes(v: Option<u32>) -> Seq<u8> {
    match v {
        Some(x) => u32_be(x),
        None => Seq::empty(),
    }
}

/// The two bytes of optional metadata flags, or nothing.
pub open spec fn opt_flags_bytes(v: Option<MetadataFlags>) -> Seq<u8> {
    match v {
        Some(f) => u16_be(f@),
        None => Seq::empty(),
    }
}

/// The bytes of an optional select content, or nothing.
pub open spec fn opt_select_bytes(v: Option<SelectContent>) -> Seq<u8> {
    match v {
        Some(s) => s.spec_bytes(),
        None => Seq::empty(),
    }
}

/// The bytes of an optional embedded command, or nothing.
pub open spec fn opt_embedded_bytes(v: Option<InventoryEmbeddedCommandContent>) -> Seq<u8> {
    match v {
        Some(e) => e.spec_bytes(),
        None => Seq::empty(),
    }
}

/// Append an optional password.
pub(crate) fn push_opt_u32(out: &mut Vec<u8>, v: Option<u32>)
    ensures
        final(out)@ == old(out)@ + opt_u32_bytes(v),
{
    if let Some(x) = v {
        push_u32_be(out, x);
    } else {
        assert(old(out)@ + opt_u32_bytes(v) =~= old(out)@);
    }
}

/// Append optional metadata flags.
pub(crate) fn push_opt_flags(out: &mut Vec<u8>, v: Option<MetadataFlags>)
    ensures
        final(out)@ == old(out)@ + opt_flags_bytes(v),
{
    if let Some(f) = v {
        push_u16_be(out, f.raw());
    } else {
        assert(old(out)@ + opt_flags_bytes(v) =~= old(out)@);
    }
}

/// Append an optional select content.
pub(crate) fn push_opt_select(out: &mut Vec<u8>, v: &Option<SelectContent>)
    ensures
        final(out)@ == old(out)@ + opt_select_bytes(*v),
{
    if let Some(s) = v {
        s.encode(out);
    } else {
        assert(old(out)@ + opt_select_bytes(*v) =~= old(out)@);
    }
}

/// Append an optional embedded command.
pub(crate) fn push_opt_embedded(out: &mut Vec<u8>, v: &Option<InventoryEmbeddedCommandContent>)
    ensures
        final(out)@ == old(out)@ + opt_embedded_bytes(*v),
{
    if let Some(e) = v {
        e.encode(out);
    } else {
        assert(old(out)@ + opt_embedded_bytes(*v) =~= old(out)@);
    }
}

/// Typed subcommand data for Start AsyncInventory (`0xAA48`).
#[derive(Debug, Clone, PartialEq, Eq)]
pub struct AsyncInventoryStartData {
    /// Metadata flags controlling which per-tag fields the reader returns.
    pub metadata_flags: MetadataFlags,
    /// Option byte, same meaning as command `0x22` select option bits.
    pub option: InventoryOption,
    /// Search flags (2 bytes), same meaning as command `0x22`.
    pub search_flags: InventorySearchFlags,
    /// Optional access password (4 bytes) when required by option.
    pub access_password: Option<u32>,
    /// Optional select content when select operation is enabled.
    pub select_content: Option<SelectContent>,
    /// Optional typed embedded command content.
    pub embedded_command_content: Option<InventoryEmbeddedCommandContent>,
}

impl AsyncInventoryStartData {
    /// Wire layout: `MetadataFlags(2) | Option(1) | SearchFlags(2) |
    /// [AccessPassword(4)] | [SelectContent] | [EmbeddedCommandContent]`.
    pub open spec fn spec_bytes(&self) -> Seq<u8> {
        u16_be(self.metadata_flags@) + seq![self.option@] + u16_be(self.search_flags@)
            + opt_u32_bytes(self.access_password) + opt_select_bytes(self.select_content)
            + opt_embedded_bytes(self.embedded_command_content)
    }

    /// Encode the start subcommand data.
    pub(crate) fn encode(&self) -> (r: Vec<u8>)
        ensures
            r@ == self.spec_bytes(),
    {
        let mut data: Vec<u8> = Vec::new();
        push_u16_be(&mut data, self.metadata_flags.raw());
        data.push(self.option.raw());
        push_u16_be(&mut data, self.search_flags.raw());
        push_opt_u32(&mut data, self.access_password);
        push_opt_select(&mut data, &self.select_content);
        push_opt_embedded(&mut data, &self.embedded_command_content);
        assert(data@ =~= self.spec_bytes());
        data
    }
}


impl From<u8> for InventoryOption {
    fn from(value: u8) -> (r: InventoryOption)
        ensures
            r@ == value,
    {
        InventoryOption::from_raw(value)
    }
}

impl vstd::std_specs::convert::FromSpecImpl<u8> for InventoryOption {
    open spec fn obeys_from_spec() -> bool {
        true
    }

    closed spec fn from_spec(v: u8) -> InventoryOption {
        InventoryOption(v)
    }
}

impl From<InventoryOption> for u8 {
    fn from(value: InventoryOption) -> (r: u8) {
        value.raw()
    }
}

impl vstd::std_specs::convert::FromSpecImpl<InventoryOption> for u8 {
    open spec fn obeys_from_spec() -> bool {
        true
    }

    open spec fn from_spec(v: InventoryOption) -> u8 {
        v@
    }
}

impl From<u16> for InventorySearchFlags {
    fn from(value: u16) -> (r: InventorySearchFlags)
        ensures
            r@ == value,
    {
        InventorySearchFlags::from_raw(value)
    }
}

impl vstd::std_specs::convert::FromSpecImpl<u16> for InventorySearchFlags {
    open spec fn obeys_from_spec() -> bool {
        true
    }

    closed spec fn from_spec(v: u16) -> InventorySearchFlags {
        InventorySearchFlags(v)
    }
}

impl From<InventorySearchFlags> for u16 {
    fn from(value: InventorySearchFlags) -> (r: u16) {
        value.raw()
    }
}

impl vstd::std_specs::convert::FromSpecImpl<InventorySearchFlags> for u16 {
    open spec fn obeys_from_spec() -> bool {
        true
    }

    open spec fn from_spec(v: InventorySearchFlags) -> u16 {
        v@
    }
}

impl Default for InventorySearchFlags {
    fn default() -> (r: Self)
        ensures
            r@ == 0,
    {
        InventorySearchFlags::new()
    }
}

impl From<u16> for MetadataFlags {
    fn from(value: u16) -> (r: MetadataFlags)
        ensures
            r@ == value,
    {
        MetadataFlags::from_raw(value)
    }
}

impl vstd::std_specs::convert::FromSpecImpl<u16> for MetadataFlags {
    open spec fn obeys_from_spec() -> bool {
        true
    }

    closed spec fn from_spec(v: u16) -> MetadataFlags {
        MetadataFlags(v)
    }
}

impl From<MetadataFlags> for u16 {
    fn from(value: MetadataFlags) -> (r: u16) {
        value.raw()
    }
}

impl vstd::std_specs::convert::FromSpecImpl<MetadataFlags> for u16 {
    open spec fn obeys_from_spec() -> bool {
        true
    }

    open spec fn from_spec(v: MetadataFlags) -> u16 {
        v@
    }
}

impl From<MemBank> for u8 {
    fn from(value: MemBank) -> (r: u8) {
        value.as_u8()
    }
}

impl vstd::std_specs::convert::FromSpecImpl<MemBank> for u8 {
    open spec fn obeys_from_spec() -> bool {
        true
    }

    open spec fn from_spec(v: MemBank) -> u8 {
        v.code()
    }
}

/// The select content on the wire: the bit address high byte first (bytes
/// 0 to 3), the bit length (byte 4), then the select data.
pub proof fn lemma_select_content_layout(c: SelectContent)
    ensures
        c.spec_bytes().len() == 5 + c.data@.len(),
        crate::bytes::be_int32(c.spec_bytes(), 0) == c.address_bits as int,
        c.spec_bytes()[4] == c.bit_len,
        c.spec_bytes().subrange(5, c.spec_bytes().len() as int) == c.data@,
{
    let d = c.spec_bytes();
    crate::bytes::lemma_u32_be_at(Seq::empty(), c.address_bits, seq![c.bit_len] + c.data@);
    assert(d =~= Seq::<u8>::empty() + u32_be(c.address_bits) + (seq![c.bit_len] + c.data@));
    assert(d.subrange(5, d.len() as int) =~= c.data@);
}

/// The embedded Read Tag Data command on the wire: count 1, length 9,
/// opcode `0x28`, a zero timeout and option, then the memory bank code
/// (byte 6), the word address high byte first (bytes 7 to 10) and the word
/// count (byte 11).
pub proof fn lemma_embedded_read_layout(e: EmbeddedReadTagData)
    ensures
        e.spec_bytes().len() == 12,
        e.spec_bytes()[0] == 1 && e.spec_bytes()[1] == 9 && e.spec_bytes()[2] == 0x28,
        e.spec_bytes()[3] == 0 && e.spec_bytes()[4] == 0 && e.spec_bytes()[5] == 0,
        e.spec_bytes()[6] == e.read_membank.code(),
        crate::bytes::be_int32(e.spec_bytes(), 7) == e.read_address_words as int,
        e.spec_bytes()[11] == e.word_count,
{
    let a = seq![0x01u8, 9u8, 0x28u8] + u16_be(0) + seq![0x00u8, e.read_membank.code()];
    crate::bytes::lemma_u32_be_at(a, e.read_address_words, seq![e.word_count]);
    assert(e.spec_bytes() =~= a + u32_be(e.read_address_words) + seq![e.word_count]);
}

/// The asynchronous inventory start data on the wire: the metadata flags
/// high byte first (bytes 0 and 1), the option (byte 2), the search flags
/// high byte first (bytes 3 and 4), then the access password high byte
/// first (bytes 5 to 8) when given.
pub proof fn lemma_async_start_layout(s: AsyncInventoryStartData)
    ensures
        s.spec_bytes().len() >= 5,
        crate::bytes::be_int16(s.spec_bytes(), 0) == s.metadata_flags@ as int,
        s.spec_bytes()[2] == s.option@,
        crate::bytes::be_int16(s.spec_bytes(), 3) == s.search_flags@ as int,
        s.access_password matches Some(p) ==> s.spec_bytes().len() >= 9 && crate::bytes::be_int32(
            s.spec_bytes(),
            5,
        ) == p as int,
{
    let d = s.spec_bytes();
    let tail = opt_u32_bytes(s.access_password) + opt_select_bytes(s.select_content)
        + opt_embedded_bytes(s.embedded_command_content);
    crate::bytes::lemma_u16_be_at(Seq::empty(), s.metadata_flags@, seq![s.option@] + u16_be(
        s.search_flags@,
    ) + tail);
    assert(d =~= Seq::<u8>::empty() + u16_be(s.metadata_flags@) + (seq![s.option@] + u16_be(
        s.search_flags@,
    ) + tail));
    crate::bytes::lemma_u16_be_at(u16_be(s.metadata_flags@) + seq![s.option@], s.search_flags@, tail);
    assert(d =~= u16_be(s.metadata_flags@) + seq![s.option@] + u16_be(s.search_flags@) + tail);
    if let Some(p) = s.access_password {
        let before = u16_be(s.metadata_flags@) + seq![s.option@] + u16_be(s.search_flags@);
        let after = opt_select_bytes(s.select_content) + opt_embedded_bytes(
            s.embedded_command_content,
        );
        assert(d =~= before + u32_be(p) + after);
        crate::bytes::lemma_u32_be_at(before, p, after);
    }
}

} // verus!
