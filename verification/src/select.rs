//! Tag singulation options and the start configuration of asynchronous
//! inventory built on them.

use vstd::prelude::*;

use crate::bytes::{u16_be, u32_be};
use crate::command::{
    opt_embedded_bytes, opt_select_bytes, opt_u32_bytes, AsyncInventoryStartData,
    InventoryEmbeddedCommandContent, InventoryOption, InventorySearchFlags, MetadataFlags,
    SelectContent,
};

verus! {

/// Option bit that inverts the select result.
pub const SELECT_INVERT: u8 = 0x08;

/// Tag singulation/select options used by inventory and access helpers.
///
/// The mode sits in the three low bits of the option byte: `0` disabled,
/// `1` EPC, `2` TID, `3` User memory, `4` EPC bank, `5` password only; bit
/// `0x08` inverts the select result.
#[derive(Debug, Clone, PartialEq, Eq)]
pub enum SelectOption {
    /// Disable select/singulation and operate on the first matching tag.
    Disabled,
    /// Select against EPC data.
    Epc {
        /// Number of select bits.
        select_length_bits: u8,
        /// Raw select bytes.
        select_data: Vec<u8>,
        /// Invert select result (match non-equal tags).
        invert: bool,
    },
    /// Select against TID memory bank.
    Tid {
        /// Bit address within the bank.
        select_address: u32,
        /// Number of select bits.
        select_length_bits: u8,
        /// Raw select bytes.
        select_data: Vec<u8>,
        /// Invert select result (match non-equal tags).
        invert: bool,
    },
    /// Select against User memory bank.
    UserMemory {
        /// Bit address within the bank.
        select_address: u32,
        /// Number of select bits.
        select_length_bits: u8,
        /// Raw select bytes.
        select_data: Vec<u8>,
        /// Invert select result (match non-equal tags).
        invert: bool,
    },
    /// Select against EPC memory bank (Gen2 bank 0x01).
    EpcBank {
        /// Bit address within the bank.
        select_address: u32,
        /// Number of select bits.
        select_length_bits: u8,
        /// Raw select bytes.
        select_data: Vec<u8>,
        /// Invert select result (match non-equal tags).
        invert: bool,
    },
    /// Send only access password without select content.
    PasswordOnly,
}

/// The option byte of select mode `mode`, with the invert bit when asked.
pub open spec fn select_byte(mode: u8, invert: bool) -> u8 {
    if invert {
        mode | SELECT_INVERT
    } else {
        mode
    }
}

/// The select content layout: `Address(4) | BitLength(1) | Data(N)`.
pub open spec fn select_layout(address: u32, bit_len: u8, data: Seq<u8>) -> Seq<u8> {
    u32_be(address) + seq![bit_len] + data
}

impl SelectOption {
    /// The option byte this select option sets.
    pub open spec fn option_byte(&self) -> u8 {
        match self {
            SelectOption::Disabled => 0,
            SelectOption::Epc { invert, .. } => select_byte(1, *invert),
            SelectOption::Tid { invert, .. } => select_byte(2, *invert),
            SelectOption::UserMemory { invert, .. } => select_byte(3, *invert),
            SelectOption::EpcBank { invert, .. } => select_byte(4, *invert),
            SelectOption::PasswordOnly => 5,
        }
    }

    /// Whether this option carries select content.
    pub open spec fn has_content(&self) -> bool {
        !(self is Disabled) && !(self is PasswordOnly)
    }

    /// The select content bytes this option sends, empty when it sends none;
    /// EPC data is matched from bit address 0.
    pub open spec fn content_bytes(&self) -> Seq<u8> {
        match self {
            SelectOption::Epc { select_length_bits, select_data, .. } => select_layout(
                0,
                *select_length_bits,
                select_data@,
            ),
            SelectOption::Tid { select_address, select_length_bits, select_data, .. } =>
                select_layout(*select_address, *select_length_bits, select_data@),
            SelectOption::UserMemory { select_address, select_length_bits, select_data, .. } =>
                select_layout(*select_address, *select_length_bits, select_data@),
            SelectOption::EpcBank { select_address, select_length_bits, select_data, .. } =>
                select_layout(*select_address, *select_length_bits, select_data@),
            _ => Seq::empty(),
        }
    }

    /// The option byte and the select content that this option stands for.
    pub fn option_content(&self) -> (r: (InventoryOption, Option<SelectContent>))
        ensures
            r.0@ == self.option_byte(),
            r.1 is Some <==> self.has_content(),
            opt_select_bytes(r.1) == self.content_bytes(),
    {
        match self {
            SelectOption::Disabled => (InventoryOption::default(), None),
            SelectOption::Epc { select_length_bits, select_data, invert } => (
                InventoryOption::from_raw(option_with_invert(1, *invert)),
                Some(
                    SelectContent {
                        address_bits: 0,
                        bit_len: *select_length_bits,
                        data: vstd::slice::slice_to_vec(select_data.as_slice()),
                    },
                ),
            ),
            SelectOption::Tid { select_address, select_length_bits, select_data, invert } => (
                InventoryOption::from_raw(option_with_invert(2, *invert)),
                Some(
                    SelectContent {
                        address_bits: *select_address,
                        bit_len: *select_length_bits,
                        data: vstd::slice::slice_to_vec(select_data.as_slice()),
                    },
                ),
            ),
            SelectOption::UserMemory { select_address, select_length_bits, select_data, invert } => (
                InventoryOption::from_raw(option_with_invert(3, *invert)),
                Some(
                    SelectContent {
                        address_bits: *select_address,
                        bit_len: *select_length_bits,
                        data: vstd::slice::slice_to_vec(select_data.as_slice()),
                    },
                ),
            ),
            SelectOption::EpcBank { select_address, select_length_bits, select_data, invert } => (
                InventoryOption::from_raw(option_with_invert(4, *invert)),
                Some(
                    SelectContent {
                        address_bits: *select_address,
                        bit_len: *select_length_bits,
                        data: vstd::slice::slice_to_vec(select_data.as_slice()),
                    },
                ),
            ),
            SelectOption::PasswordOnly => (InventoryOption::from_raw(5), None),
        }
    }
}

/// The option byte of select mode `mode`, with the invert bit when asked.
fn option_with_invert(mode: u8, invert: bool) -> (r: u8)
    ensures
        r == select_byte(mode, invert),
{
    if invert {
        mode | SELECT_INVERT
    } else {
        mode
    }
}

/// Start configuration for asynchronous inventory.
///
/// This wrapper uses [`SelectOption`] so callers do not need to manually map
/// to low-level `InventoryOption + SelectContent` fields.
#[derive(Debug, Clone, PartialEq, Eq)]
pub struct ReaderAsyncInventoryStartData {
    /// Metadata flags controlling which per-tag fields the reader returns.
    pub metadata_flags: MetadataFlags,
    /// Tag singulation/select configuration.
    pub select_option: SelectOption,
    /// Search flags (2 bytes), same meaning as command `0x22`.
    pub search_flags: InventorySearchFlags,
    /// Optional access password (4 bytes) when required by option.
    pub access_password: Option<u32>,
    /// Optional typed embedded command content.
    pub embedded_command_content: Option<InventoryEmbeddedCommandContent>,
}

impl ReaderAsyncInventoryStartData {
    /// Start subcommand data: `MetadataFlags(2) | Option(1) | SearchFlags(2) |
    /// [AccessPassword(4)] | [SelectContent] | [EmbeddedCommandContent]`.
    pub open spec fn spec_bytes(&self) -> Seq<u8> {
        u16_be(self.metadata_flags@) + seq![self.select_option.option_byte()] + u16_be(
            self.search_flags@,
        ) + opt_u32_bytes(self.access_password) + self.select_option.content_bytes()
            + opt_embedded_bytes(self.embedded_command_content)
    }

    /// The low-level start data this configuration stands for.
    pub fn to_command_data(&self) -> (r: AsyncInventoryStartData)
        ensures
            r.spec_bytes() == self.spec_bytes(),
            r.metadata_flags == self.metadata_flags,
            r.search_flags == self.search_flags,
            r.access_password == self.access_password,
            r.embedded_command_content == self.embedded_command_content,
    {
        let (option, select_content) = self.select_option.option_content();
        AsyncInventoryStartData {
            metadata_flags: self.metadata_flags,
            option,
            search_flags: self.search_flags,
            access_password: self.access_password,
            select_content,
            embedded_command_content: self.embedded_command_content,
        }
    }
}

/// The option byte of a select mode below 8 keeps the mode in its three low
/// bits and carries bit `0x08` exactly when inverted.
proof fn lemma_select_byte_bits(mode: u8, invert: bool)
    requires
        mode < 8,
    ensures
        select_byte(mode, invert) & 0x07u8 == mode,
        (select_byte(mode, invert) & 0x08u8 != 0) == invert,
{
    assert((mode | 0x08u8) & 0x07u8 == mode && (mode | 0x08u8) & 0x08u8 != 0 && mode & 0x08u8 == 0
        && mode & 0x07u8 == mode) by (bit_vector)
        requires
            mode < 8,
    ;
}

/// The select option on the wire: the option byte's three low bits name the
/// mode (`0` disabled, `1` EPC, `2` TID, `3` User, `4` EPC bank, `5` password
/// only) and bit `0x08` is set exactly for an inverted select; a select
/// option with content sends its bit address high byte first (zero for EPC),
/// then its bit length, then its data.
pub proof fn lemma_select_option_layout(s: SelectOption)
    ensures
        s.option_byte() & 0x07u8 == match s {
            SelectOption::Disabled => 0u8,
            SelectOption::Epc { .. } => 1u8,
            SelectOption::Tid { .. } => 2u8,
            SelectOption::UserMemory { .. } => 3u8,
            SelectOption::EpcBank { .. } => 4u8,
            SelectOption::PasswordOnly => 5u8,
        },
        (s.option_byte() & 0x08u8 != 0) == match s {
            SelectOption::Epc { invert, .. } => invert,
            SelectOption::Tid { invert, .. } => invert,
            SelectOption::UserMemory { invert, .. } => invert,
            SelectOption::EpcBank { invert, .. } => invert,
            _ => false,
        },
        s.has_content() ==> ({
            let c = s.content_bytes();
            let (address, bits, data) = match s {
                SelectOption::Epc { select_length_bits, select_data, .. } => (
                    0u32,
                    select_length_bits,
                    select_data@,
                ),
                SelectOption::Tid { select_address, select_length_bits, select_data, .. } => (
                    select_address,
                    select_length_bits,
                    select_data@,
                ),
                SelectOption::UserMemory { select_address, select_length_bits, select_data, .. } => (
                    select_address,
                    select_length_bits,
                    select_data@,
                ),
                SelectOption::EpcBank { select_address, select_length_bits, select_data, .. } => (
                    select_address,
                    select_length_bits,
                    select_data@,
                ),
                _ => (0u32, 0u8, Seq::empty()),
            };
            &&& c.len() == 5 + data.len()
            &&& crate::bytes::be_int32(c, 0) == address as int
            &&& c[4] == bits
            &&& c.subrange(5, c.len() as int) == data
        }),
        !s.has_content() ==> s.content_bytes().len() == 0,
{
    assert(0u8 & 0x07u8 == 0u8 && 0u8 & 0x08u8 == 0 && 5u8 & 0x07u8 == 5u8 && 5u8 & 0x08u8 == 0)
        by (bit_vector);
    match s {
        SelectOption::Epc { select_length_bits, select_data, invert } => {
            lemma_select_byte_bits(1, invert);
            crate::bytes::lemma_u32_be_at(Seq::empty(), 0u32, seq![select_length_bits] + select_data@);
            let c = s.content_bytes();
            assert(c =~= Seq::<u8>::empty() + u32_be(0u32) + (seq![select_length_bits] + select_data@));
            assert(c.subrange(5, c.len() as int) =~= select_data@);
        },
        SelectOption::Tid { select_address, select_length_bits, select_data, invert } => {
            lemma_select_byte_bits(2, invert);
            crate::bytes::lemma_u32_be_at(Seq::empty(), select_address, seq![select_length_bits] + select_data@);
            let c = s.content_bytes();
            assert(c =~= Seq::<u8>::empty() + u32_be(select_address) + (seq![select_length_bits] + select_data@));
            assert(c.subrange(5, c.len() as int) =~= select_data@);
        },
        SelectOption::UserMemory { select_address, select_length_bits, select_data, invert } => {
            lemma_select_byte_bits(3, invert);
            crate::bytes::lemma_u32_be_at(Seq::empty(), select_address, seq![select_length_bits] + select_data@);
            let c = s.content_bytes();
            assert(c =~= Seq::<u8>::empty() + u32_be(select_address) + (seq![select_length_bits] + select_data@));
            assert(c.subrange(5, c.len() as int) =~= select_data@);
        },
        SelectOption::EpcBank { select_address, select_length_bits, select_data, invert } => {
            lemma_select_byte_bits(4, invert);
            crate::bytes::lemma_u32_be_at(Seq::empty(), select_address, seq![select_length_bits] + select_data@);
            let c = s.content_bytes();
            assert(c =~= Seq::<u8>::empty() + u32_be(select_address) + (seq![select_length_bits] + select_data@));
            assert(c.subrange(5, c.len() as int) =~= select_data@);
        },
        _ => {},
    }
}

} // verus!
