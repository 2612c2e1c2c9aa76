//! Builders for every host-to-reader command packet.
//!
//! Each builder assembles the command's data field and wraps it with
//! [`build_host_frame`]; its contract names the data field exactly.

use vstd::prelude::*;

use crate::antenna::{antenna_config_data, AntennaPortsConfiguration};
use crate::async_proto::{async_marker, async_marker_bytes, async_payload, subcommand_crc, ASYNC_TERMINATOR};
use crate::bytes::{
    be_int16, be_int32, extend_bytes, lemma_u16_be_at, lemma_u32_be_at, push_u16_be, push_u32_be,
    u16_be, u32_be,
};
use crate::codes::{AntennaPortsOption, CommandCode, RegionCode};
use crate::command::{
    opt_embedded_bytes, opt_flags_bytes, opt_select_bytes, opt_u32_bytes, push_opt_embedded,
    push_opt_flags, push_opt_select, push_opt_u32, AsyncInventoryStartData, AsyncSubcommandCode,
    InventoryEmbeddedCommandContent, InventoryOption, InventorySearchFlags, MemBank, MetadataFlags,
    SelectContent,
};
use crate::error::ProtocolError;
use crate::frame::{build_host_frame, host_frame_result};

verus! {

/// The single byte of an optional value, or nothing.
pub open spec fn opt_byte(v: Option<u8>) -> Seq<u8> {
    match v {
        Some(b) => seq![b],
        None => Seq::empty(),
    }
}

/// The bytes of an optional raw byte field, or nothing.
pub open spec fn opt_slice_bytes(v: Option<&[u8]>) -> Seq<u8> {
    match v {
        Some(b) => b@,
        None => Seq::empty(),
    }
}

/// Data field of Single Tag Inventory (`0x21`).
pub open spec fn single_tag_inventory_data(
    timeout_ms: u16,
    option: u8,
    metadata_flags: Option<MetadataFlags>,
    select: Option<SelectContent>,
) -> Seq<u8> {
    u16_be(timeout_ms) + seq![option] + opt_flags_bytes(metadata_flags) + opt_select_bytes(select)
}

/// Data field of Synchronous Inventory (`0x22`) up to the embedded command.
pub open spec fn synchronous_inventory_head(
    option: u8,
    search_flags: u16,
    timeout_ms: u16,
    access_password: Option<u32>,
    select: Option<SelectContent>,
) -> Seq<u8> {
    seq![option] + u16_be(search_flags) + u16_be(timeout_ms) + opt_u32_bytes(access_password)
        + opt_select_bytes(select)
}

/// The Synchronous Inventory data field opens with the option byte, then
/// the search flags high byte first (bytes 1 and 2), then the timeout high
/// byte first (bytes 3 and 4), then the access password high byte first
/// (bytes 5 to 8) when one is given.
pub proof fn lemma_synchronous_inventory_layout(
    option: u8,
    search_flags: u16,
    timeout_ms: u16,
    access_password: Option<u32>,
    select: Option<SelectContent>,
)
    ensures
        ({
            let h = synchronous_inventory_head(option, search_flags, timeout_ms, access_password, select);
            &&& h.len() >= 5
            &&& h[0] == option
            &&& h[1] as int * 256 + h[2] as int == search_flags as int
            &&& h[3] as int * 256 + h[4] as int == timeout_ms as int
            &&& access_password matches Some(pw) ==> h.len() >= 9 && h[5] as int * 0x1000000
                + h[6] as int * 0x10000 + h[7] as int * 0x100 + h[8] as int == pw as int
        }),
{
    let h = synchronous_inventory_head(option, search_flags, timeout_ms, access_password, select);
    crate::bytes::lemma_u16_be_round_trip(search_flags);
    crate::bytes::lemma_u16_be_round_trip(timeout_ms);
    if let Some(pw) = access_password {
        crate::bytes::lemma_u32_be_round_trip(pw);
        assert(h[5] == u32_be(pw)[0] && h[6] == u32_be(pw)[1] && h[7] == u32_be(pw)[2] && h[8]
            == u32_be(pw)[3]);
    }
}

/// Data field of Read Tag Data (`0x28`).
pub open spec fn read_tag_data_data(
    timeout_ms: u16,
    option: u8,
    metadata_flags: Option<MetadataFlags>,
    read_membank: MemBank,
    read_address_words: u32,
    word_count: u8,
    access_password: Option<u32>,
    select: Option<SelectContent>,
) -> Seq<u8> {
    u16_be(timeout_ms) + seq![option] + opt_flags_bytes(metadata_flags) + seq![read_membank.code()]
        + u32_be(read_address_words) + seq![word_count] + opt_u32_bytes(access_password)
        + opt_select_bytes(select)
}

/// Data field of Write Tag EPC (`0x23`).
pub open spec fn write_tag_epc_data(
    timeout_ms: u16,
    option: u8,
    rfu: Option<u8>,
    access_password: Option<u32>,
    select: Option<SelectContent>,
    epc: Seq<u8>,
) -> Seq<u8> {
    u16_be(timeout_ms) + seq![option] + opt_byte(rfu) + opt_u32_bytes(access_password)
        + opt_select_bytes(select) + epc
}

/// Data field of Write Tag Data (`0x24`).
pub open spec fn write_tag_data_data(
    timeout_ms: u16,
    option: u8,
    write_address_words: u32,
    write_membank: MemBank,
    access_password: Option<u32>,
    select: Option<SelectContent>,
    write_data: Seq<u8>,
) -> Seq<u8> {
    u16_be(timeout_ms) + seq![option] + u32_be(write_address_words) + seq![write_membank.code()]
        + opt_u32_bytes(access_password) + opt_select_bytes(select) + write_data
}

/// Data field of Lock Tag (`0x25`).
pub open spec fn lock_tag_data(
    timeout_ms: u16,
    option: u8,
    access_password: u32,
    mask_bits: u16,
    action_bits: u16,
    select: Option<SelectContent>,
) -> Seq<u8> {
    u16_be(timeout_ms) + seq![option] + u32_be(access_password) + u16_be(mask_bits) + u16_be(
        action_bits,
    ) + opt_select_bytes(select)
}

/// Data field of Kill Tag (`0x26`).
pub open spec fn kill_tag_data(
    timeout_ms: u16,
    option: u8,
    kill_password: u32,
    rfu: u8,
    select: Option<SelectContent>,
) -> Seq<u8> {
    u16_be(timeout_ms) + seq![option] + u32_be(kill_password) + seq![rfu] + opt_select_bytes(select)
}

/// The Single Tag Inventory data field: the timeout high byte first (bytes
/// 0 and 1), the option byte (byte 2), then the metadata flags high byte
/// first (bytes 3 and 4) when given.
pub proof fn lemma_single_tag_inventory_layout(
    timeout_ms: u16,
    option: u8,
    metadata_flags: Option<MetadataFlags>,
    select: Option<SelectContent>,
)
    ensures
        ({
            let d = single_tag_inventory_data(timeout_ms, option, metadata_flags, select);
            &&& d.len() >= 3
            &&& be_int16(d, 0) == timeout_ms as int
            &&& d[2] == option
            &&& metadata_flags matches Some(m) ==> d.len() >= 5 && be_int16(d, 3) == m@ as int
        }),
{
    let tail = opt_flags_bytes(metadata_flags) + opt_select_bytes(select);
    let d = single_tag_inventory_data(timeout_ms, option, metadata_flags, select);
    assert(d =~= Seq::<u8>::empty() + u16_be(timeout_ms) + (seq![option] + tail));
    lemma_u16_be_at(Seq::empty(), timeout_ms, seq![option] + tail);
    if let Some(m) = metadata_flags {
        assert(d =~= u16_be(timeout_ms) + seq![option] + u16_be(m@) + opt_select_bytes(select));
        lemma_u16_be_at(u16_be(timeout_ms) + seq![option], m@, opt_select_bytes(select));
    }
}

/// The Read Tag Data data field: the timeout (bytes 0 and 1), the option
/// (byte 2), the metadata flags (bytes 3 and 4) when given, then from byte
/// `k` (3, or 5 with flags) the memory bank code, the word address (four
/// bytes), the word count, and the access password (four bytes) when given;
/// every number high byte first.
pub proof fn lemma_read_tag_data_layout(
    timeout_ms: u16,
    option: u8,
    metadata_flags: Option<MetadataFlags>,
    read_membank: MemBank,
    read_address_words: u32,
    word_count: u8,
    access_password: Option<u32>,
    select: Option<SelectContent>,
)
    ensures
        ({
            let d = read_tag_data_data(
                timeout_ms,
                option,
                metadata_flags,
                read_membank,
                read_address_words,
                word_count,
                access_password,
                select,
            );
            let k: int = if metadata_flags is Some { 5 } else { 3 };
            &&& d.len() >= k + 6
            &&& be_int16(d, 0) == timeout_ms as int
            &&& d[2] == option
            &&& metadata_flags matches Some(m) ==> be_int16(d, 3) == m@ as int
            &&& d[k] == read_membank.code()
            &&& be_int32(d, k + 1) == read_address_words as int
            &&& d[k + 5] == word_count
            &&& access_password matches Some(p) ==> d.len() >= k + 10 && be_int32(d, k + 6)
                == p as int
        }),
{
    let d = read_tag_data_data(
        timeout_ms,
        option,
        metadata_flags,
        read_membank,
        read_address_words,
        word_count,
        access_password,
        select,
    );
    let head = u16_be(timeout_ms) + seq![option] + opt_flags_bytes(metadata_flags) + seq![
        read_membank.code(),
    ];
    let rest = seq![word_count] + opt_u32_bytes(access_password) + opt_select_bytes(select);
    assert(d =~= head + u32_be(read_address_words) + rest);
    lemma_u32_be_at(head, read_address_words, rest);
    lemma_u16_be_at(Seq::empty(), timeout_ms, seq![option] + opt_flags_bytes(metadata_flags) + seq![
        read_membank.code(),
    ] + u32_be(read_address_words) + rest);
    assert(d =~= Seq::<u8>::empty() + u16_be(timeout_ms) + (seq![option] + opt_flags_bytes(
        metadata_flags,
    ) + seq![read_membank.code()] + u32_be(read_address_words) + rest));
    if let Some(m) = metadata_flags {
        let after = seq![read_membank.code()] + u32_be(read_address_words) + rest;
        assert(d =~= u16_be(timeout_ms) + seq![option] + u16_be(m@) + after);
        lemma_u16_be_at(u16_be(timeout_ms) + seq![option], m@, after);
    }
    if let Some(p) = access_password {
        let before = head + u32_be(read_address_words) + seq![word_count];
        assert(d =~= before + u32_be(p) + opt_select_bytes(select));
        lemma_u32_be_at(before, p, opt_select_bytes(select));
    }
}

/// The Lock Tag data field: the timeout (bytes 0 and 1), the option (byte
/// 2), the access password (bytes 3 to 6), the mask bits (bytes 7 and 8)
/// and the action bits (bytes 9 and 10), every number high byte first.
pub proof fn lemma_lock_tag_layout(
    timeout_ms: u16,
    option: u8,
    access_password: u32,
    mask_bits: u16,
    action_bits: u16,
    select: Option<SelectContent>,
)
    ensures
        ({
            let d = lock_tag_data(timeout_ms, option, access_password, mask_bits, action_bits, select);
            &&& d.len() >= 11
            &&& be_int16(d, 0) == timeout_ms as int
            &&& d[2] == option
            &&& be_int32(d, 3) == access_password as int
            &&& be_int16(d, 7) == mask_bits as int
            &&& be_int16(d, 9) == action_bits as int
        }),
{
    let d = lock_tag_data(timeout_ms, option, access_password, mask_bits, action_bits, select);
    let s = opt_select_bytes(select);
    let a0 = u16_be(timeout_ms) + seq![option];
    lemma_u16_be_at(Seq::empty(), timeout_ms, seq![option] + u32_be(access_password) + u16_be(
        mask_bits,
    ) + u16_be(action_bits) + s);
    assert(d =~= Seq::<u8>::empty() + u16_be(timeout_ms) + (seq![option] + u32_be(access_password)
        + u16_be(mask_bits) + u16_be(action_bits) + s));
    lemma_u32_be_at(a0, access_password, u16_be(mask_bits) + u16_be(action_bits) + s);
    assert(d =~= a0 + u32_be(access_password) + (u16_be(mask_bits) + u16_be(action_bits) + s));
    lemma_u16_be_at(a0 + u32_be(access_password), mask_bits, u16_be(action_bits) + s);
    assert(d =~= a0 + u32_be(access_password) + u16_be(mask_bits) + (u16_be(action_bits) + s));
    lemma_u16_be_at(a0 + u32_be(access_password) + u16_be(mask_bits), action_bits, s);
}

/// The Kill Tag data field: the timeout (bytes 0 and 1), the option (byte
/// 2), the kill password high byte first (bytes 3 to 6) and the RFU byte
/// (byte 7).
pub proof fn lemma_kill_tag_layout(
    timeout_ms: u16,
    option: u8,
    kill_password: u32,
    rfu: u8,
    select: Option<SelectContent>,
)
    ensures
        ({
            let d = kill_tag_data(timeout_ms, option, kill_password, rfu, select);
            &&& d.len() >= 8
            &&& be_int16(d, 0) == timeout_ms as int
            &&& d[2] == option
            &&& be_int32(d, 3) == kill_password as int
            &&& d[7] == rfu
        }),
{
    let d = kill_tag_data(timeout_ms, option, kill_password, rfu, select);
    let s = opt_select_bytes(select);
    lemma_u16_be_at(Seq::empty(), timeout_ms, seq![option] + u32_be(kill_password) + seq![rfu] + s);
    assert(d =~= Seq::<u8>::empty() + u16_be(timeout_ms) + (seq![option] + u32_be(kill_password)
        + seq![rfu] + s));
    lemma_u32_be_at(u16_be(timeout_ms) + seq![option], kill_password, seq![rfu] + s);
    assert(d =~= u16_be(timeout_ms) + seq![option] + u32_be(kill_password) + (seq![rfu] + s));
}

/// The Write Tag Data data field: the timeout (bytes 0 and 1), the option
/// (byte 2), the word address (bytes 3 to 6), the memory bank code (byte
/// 7), the access password (bytes 8 to 11) when given, every number high
/// byte first, and the data to write last.
pub proof fn lemma_write_tag_data_layout(
    timeout_ms: u16,
    option: u8,
    write_address_words: u32,
    write_membank: MemBank,
    access_password: Option<u32>,
    select: Option<SelectContent>,
    write_data: Seq<u8>,
)
    ensures
        ({
            let d = write_tag_data_data(
                timeout_ms,
                option,
                write_address_words,
                write_membank,
                access_password,
                select,
                write_data,
            );
            &&& d.len() >= 8 + write_data.len()
            &&& be_int16(d, 0) == timeout_ms as int
            &&& d[2] == option
            &&& be_int32(d, 3) == write_address_words as int
            &&& d[7] == write_membank.code()
            &&& access_password matches Some(p) ==> be_int32(d, 8) == p as int
            &&& d.subrange(d.len() - write_data.len(), d.len() as int) == write_data
        }),
{
    let d = write_tag_data_data(
        timeout_ms,
        option,
        write_address_words,
        write_membank,
        access_password,
        select,
        write_data,
    );
    let rest = seq![write_membank.code()] + opt_u32_bytes(access_password) + opt_select_bytes(
        select,
    ) + write_data;
    lemma_u16_be_at(Seq::empty(), timeout_ms, seq![option] + u32_be(write_address_words) + rest);
    assert(d =~= Seq::<u8>::empty() + u16_be(timeout_ms) + (seq![option] + u32_be(
        write_address_words,
    ) + rest));
    lemma_u32_be_at(u16_be(timeout_ms) + seq![option], write_address_words, rest);
    assert(d =~= u16_be(timeout_ms) + seq![option] + u32_be(write_address_words) + rest);
    if let Some(p) = access_password {
        let before = u16_be(timeout_ms) + seq![option] + u32_be(write_address_words) + seq![
            write_membank.code(),
        ];
        assert(d =~= before + u32_be(p) + (opt_select_bytes(select) + write_data));
        lemma_u32_be_at(before, p, opt_select_bytes(select) + write_data);
    }
    assert(d.subrange(d.len() - write_data.len(), d.len() as int) =~= write_data);
}

/// The Write Tag EPC data field: the timeout high byte first (bytes 0 and
/// 1), the option (byte 2), the RFU byte (byte 3) when given, and the EPC
/// last.
pub proof fn lemma_write_tag_epc_layout(
    timeout_ms: u16,
    option: u8,
    rfu: Option<u8>,
    access_password: Option<u32>,
    select: Option<SelectContent>,
    epc: Seq<u8>,
)
    ensures
        ({
            let d = write_tag_epc_data(timeout_ms, option, rfu, access_password, select, epc);
            &&& d.len() >= 3 + epc.len()
            &&& be_int16(d, 0) == timeout_ms as int
            &&& d[2] == option
            &&& rfu matches Some(x) ==> d[3] == x
            &&& d.subrange(d.len() - epc.len(), d.len() as int) == epc
        }),
{
    let d = write_tag_epc_data(timeout_ms, option, rfu, access_password, select, epc);
    let rest = seq![option] + opt_byte(rfu) + opt_u32_bytes(access_password) + opt_select_bytes(
        select,
    ) + epc;
    lemma_u16_be_at(Seq::empty(), timeout_ms, rest);
    assert(d =~= Seq::<u8>::empty() + u16_be(timeout_ms) + rest);
    assert(d.subrange(d.len() - epc.len(), d.len() as int) =~= epc);
}

/// Command builders for all protocol command groups.
pub struct HostCommand;

impl HostCommand {
    /// Build a raw command packet from command code and data field bytes.
    pub fn raw(command: u8, data: &[u8]) -> (r: Result<Vec<u8>, ProtocolError>)
        ensures
            host_frame_result(r, command, data@),
    {
        build_host_frame(command, data)
    }

    /// Build command `0x01` (Write Flash): `FinFlag | Address(4) | Words | Data`.
    ///
    /// `write_data` must be a non-empty multiple of 4 bytes, at most 128.
    pub fn write_flash(finflag: u8, write_addr: u32, write_data: &[u8]) -> (r: Result<
        Vec<u8>,
        ProtocolError,
    >)
        ensures
            (write_data@.len() == 0 || write_data@.len() % 4 != 0) ==> r == Err::<
                Vec<u8>,
                ProtocolError,
            >(
                ProtocolError::InvalidArgument(
                    "write_data must be non-empty and a multiple of 4 bytes",
                ),
            ),
            (write_data@.len() > 0 && write_data@.len() % 4 == 0 && write_data@.len() > 128) ==> r
                == Err::<Vec<u8>, ProtocolError>(
                ProtocolError::InvalidArgument("write_data cannot exceed 128 bytes"),
            ),
            (write_data@.len() > 0 && write_data@.len() % 4 == 0 && write_data@.len() <= 128) ==> (r
                is Ok && host_frame_result(
                r,
                CommandCode::WriteFlash.code(),
                seq![finflag] + u32_be(write_addr) + seq![(write_data@.len() / 4) as u8]
                    + write_data@,
            )),
    {
        if write_data.len() == 0 || (write_data.len() % 4 != 0) {
            return Err(
                ProtocolError::InvalidArgument(
                    "write_data must be non-empty and a multiple of 4 bytes",
                ),
            );
        }
        if write_data.len() > 128 {
            return Err(ProtocolError::InvalidArgument("write_data cannot exceed 128 bytes"));
        }
        let words = (write_data.len() / 4) as u8;
        let mut data: Vec<u8> = Vec::with_capacity(1 + 4 + 1 + write_data.len());
        data.push(finflag);
        push_u32_be(&mut data, write_addr);
        data.push(words);
        extend_bytes(&mut data, write_data);
        assert(data@ =~= seq![finflag] + u32_be(write_addr) + seq![(write_data@.len() / 4) as u8]
            + write_data@);
        build_host_frame(CommandCode::WriteFlash.as_u8(), data.as_slice())
    }

    /// Build command `0x02` (Read Flash): `Address(4) | Words`, at most 32 words.
    pub fn read_flash(read_addr: u32, read_len_words: u8) -> (r: Result<Vec<u8>, ProtocolError>)
        ensures
            read_len_words > 32 ==> r == Err::<Vec<u8>, ProtocolError>(
                ProtocolError::InvalidArgument("read_len_words must be <= 32"),
            ),
            read_len_words <= 32 ==> (r is Ok && host_frame_result(
                r,
                CommandCode::ReadFlash.code(),
                u32_be(read_addr) + seq![read_len_words],
            )),
    {
        if read_len_words > 32 {
            return Err(ProtocolError::InvalidArgument("read_len_words must be <= 32"));
        }
        let mut data: Vec<u8> = Vec::with_capacity(5);
        push_u32_be(&mut data, read_addr);
        data.push(read_len_words);
        assert(data@ =~= u32_be(read_addr) + seq![read_len_words]);
        build_host_frame(CommandCode::ReadFlash.as_u8(), data.as_slice())
    }

    /// Build command `0x03` (Get Version).
    pub fn get_version() -> (r: Result<Vec<u8>, ProtocolError>)
        ensures
            r is Ok && host_frame_result(r, CommandCode::GetVersion.code(), Seq::empty()),
    {
        build_host_frame(CommandCode::GetVersion.as_u8(), &[])
    }

    /// Build command `0x04` (Boot Firmware).
    pub fn boot_firmware() -> (r: Result<Vec<u8>, ProtocolError>)
        ensures
            r is Ok && host_frame_result(r, CommandCode::BootFirmware.code(), Seq::empty()),
    {
        build_host_frame(CommandCode::BootFirmware.as_u8(), &[])
    }

    /// Build command `0x06` (Set Baud Rate): the rate as a 32-bit big-endian value.
    pub fn set_baud_rate(baud_rate: u32) -> (r: Result<Vec<u8>, ProtocolError>)
        ensures
            r is Ok && host_frame_result(r, CommandCode::SetBaudRate.code(), u32_be(baud_rate)),
    {
        let mut data: Vec<u8> = Vec::with_capacity(4);
        push_u32_be(&mut data, baud_rate);
        build_host_frame(CommandCode::SetBaudRate.as_u8(), data.as_slice())
    }

    /// Build command `0x08` (Verify Firmware): address, length in words and CRC.
    pub fn verify_firmware(check_addr: u32, check_data_len_words: u32, check_crc: u32) -> (r: Result<
        Vec<u8>,
        ProtocolError,
    >)
        ensures
            r is Ok && host_frame_result(
                r,
                CommandCode::VerifyFirmware.code(),
                u32_be(check_addr) + u32_be(check_data_len_words) + u32_be(check_crc),
            ),
    {
        let mut data: Vec<u8> = Vec::with_capacity(12);
        push_u32_be(&mut data, check_addr);
        push_u32_be(&mut data, check_data_len_words);
        push_u32_be(&mut data, check_crc);
        build_host_frame(CommandCode::VerifyFirmware.as_u8(), data.as_slice())
    }

    /// Build command `0x09` (Boot Bootloader).
    pub fn boot_bootloader() -> (r: Result<Vec<u8>, ProtocolError>)
        ensures
            r is Ok && host_frame_result(r, CommandCode::BootBootloader.code(), Seq::empty()),
    {
        build_host_frame(CommandCode::BootBootloader.as_u8(), &[])
    }

    /// Build command `0x0C` (Get Run Phase).
    pub fn get_run_phase() -> (r: Result<Vec<u8>, ProtocolError>)
        ensures
            r is Ok && host_frame_result(r, CommandCode::GetRunPhase.code(), Seq::empty()),
    {
        build_host_frame(CommandCode::GetRunPhase.as_u8(), &[])
    }

    /// Build command `0x10` (Get Serial Number).
    pub fn get_serial_number(option: u8, data_flags: u8) -> (r: Result<Vec<u8>, ProtocolError>)
        ensures
            r is Ok && host_frame_result(
                r,
                CommandCode::GetSerialNumber.code(),
                seq![option, data_flags],
            ),
    {
        build_host_frame(CommandCode::GetSerialNumber.as_u8(), &[option, data_flags])
    }

    /// Build command `0x21` (Single Tag Inventory):
    /// `Timeout(2) | Option | [MetadataFlags(2)] | [SelectContent]`.
    pub fn single_tag_inventory(
        timeout_ms: u16,
        option: u8,
        metadata_flags: Option<MetadataFlags>,
        select: Option<SelectContent>,
    ) -> (r: Result<Vec<u8>, ProtocolError>)
        ensures
            host_frame_result(
                r,
                CommandCode::SingleTagInventory.code(),
                single_tag_inventory_data(timeout_ms, option, metadata_flags, select),
            ),
    {
        let mut data: Vec<u8> = Vec::new();
        push_u16_be(&mut data, timeout_ms);
        data.push(option);
        push_opt_flags(&mut data, metadata_flags);
        push_opt_select(&mut data, &select);
        assert(data@ =~= single_tag_inventory_data(timeout_ms, option, metadata_flags, select));
        build_host_frame(CommandCode::SingleTagInventory.as_u8(), data.as_slice())
    }

    /// Build command `0x22` (Synchronous Inventory) from raw option and flags
    /// and raw embedded command bytes.
    pub fn synchronous_inventory(
        option: u8,
        search_flags: u16,
        timeout_ms: u16,
        access_password: Option<u32>,
        select: Option<SelectContent>,
        embedded_command: Option<&[u8]>,
    ) -> (r: Result<Vec<u8>, ProtocolError>)
        ensures
            host_frame_result(
                r,
                CommandCode::SynchronousInventory.code(),
                synchronous_inventory_head(option, search_flags, timeout_ms, access_password, select)
                    + opt_slice_bytes(embedded_command),
            ),
    {
        Self::synchronous_inventory_raw_embedded(
            InventoryOption::from_raw(option),
            InventorySearchFlags::from_raw(search_flags),
            timeout_ms,
            access_password,
            select,
            embedded_command,
        )
    }

    /// Build command `0x22` (Synchronous Inventory) using typed option/flags
    /// and typed embedded command content.
    pub fn synchronous_inventory_typed(
        option: InventoryOption,
        search_flags: InventorySearchFlags,
        timeout_ms: u16,
        access_password: Option<u32>,
        select: Option<SelectContent>,
        embedded_command: Option<InventoryEmbeddedCommandContent>,
    ) -> (r: Result<Vec<u8>, ProtocolError>)
        ensures
            host_frame_result(
                r,
                CommandCode::SynchronousInventory.code(),
                synchronous_inventory_head(option@, search_flags@, timeout_ms, access_password, select)
                    + opt_embedded_bytes(embedded_command),
            ),
    {
        let mut data: Vec<u8> = Vec::new();
        data.push(option.raw());
        push_u16_be(&mut data, search_flags.raw());
        push_u16_be(&mut data, timeout_ms);
        push_opt_u32(&mut data, access_password);
        push_opt_select(&mut data, &select);
        push_opt_embedded(&mut data, &embedded_command);
        assert(data@ =~= synchronous_inventory_head(
            option@,
            search_flags@,
            timeout_ms,
            access_password,
            select,
        ) + opt_embedded_bytes(embedded_command));
        build_host_frame(CommandCode::SynchronousInventory.as_u8(), data.as_slice())
    }

    /// Build command `0x22` (Synchronous Inventory) with raw embedded bytes.
    pub fn synchronous_inventory_raw_embedded(
        option: InventoryOption,
        search_flags: InventorySearchFlags,
        timeout_ms: u16,
        access_password: Option<u32>,
        select: Option<SelectContent>,
        embedded_command: Option<&[u8]>,
    ) -> (r: Result<Vec<u8>, ProtocolError>)
        ensures
            host_frame_result(
                r,
                CommandCode::SynchronousInventory.code(),
                synchronous_inventory_head(option@, search_flags@, timeout_ms, access_password, select)
                    + opt_slice_bytes(embedded_command),
            ),
    {
        let mut data: Vec<u8> = Vec::new();
        data.push(option.raw());
        push_u16_be(&mut data, search_flags.raw());
        push_u16_be(&mut data, timeout_ms);
        push_opt_u32(&mut data, access_password);
        push_opt_select(&mut data, &select);
        if let Some(embedded) = embedded_command {
            extend_bytes(&mut data, embedded);
        }
        assert(data@ =~= synchronous_inventory_head(
            option@,
            search_flags@,
            timeout_ms,
            access_password,
            select,
        ) + opt_slice_bytes(embedded_command));
        build_host_frame(CommandCode::SynchronousInventory.as_u8(), data.as_slice())
    }

    /// Build command `0x29` (Get Tag Buffer): `MetadataFlags(2) | Option`.
    pub fn get_tag_buffer(metadata_flags: MetadataFlags, option: u8) -> (r: Result<
        Vec<u8>,
        ProtocolError,
    >)
        ensures
            r is Ok && host_frame_result(
                r,
                CommandCode::GetTagBuffer.code(),
                u16_be(metadata_flags@) + seq![option],
            ),
    {
        let mut data: Vec<u8> = Vec::with_capacity(3);
        push_u16_be(&mut data, metadata_flags.raw());
        data.push(option);
        assert(data@ =~= u16_be(metadata_flags@) + seq![option]);
        build_host_frame(CommandCode::GetTagBuffer.as_u8(), data.as_slice())
    }

    /// Build command `0x23` (Write Tag EPC):
    /// `Timeout(2) | Option | [RFU] | [Password(4)] | [SelectContent] | EPC`.
    pub fn write_tag_epc(
        timeout_ms: u16,
        option: u8,
        rfu: Option<u8>,
        access_password: Option<u32>,
        select: Option<SelectContent>,
        epc: &[u8],
    ) -> (r: Result<Vec<u8>, ProtocolError>)
        ensures
            epc@.len() == 0 ==> r == Err::<Vec<u8>, ProtocolError>(
                ProtocolError::InvalidArgument("epc cannot be empty"),
            ),
            epc@.len() > 0 ==> host_frame_result(
                r,
                CommandCode::WriteTagEpc.code(),
                write_tag_epc_data(timeout_ms, option, rfu, access_password, select, epc@),
            ),
    {
        if epc.len() == 0 {
            return Err(ProtocolError::InvalidArgument("epc cannot be empty"));
        }
        let mut data: Vec<u8> = Vec::new();
        push_u16_be(&mut data, timeout_ms);
        data.push(option);
        if let Some(v) = rfu {
            data.push(v);
        }
        push_opt_u32(&mut data, access_password);
        push_opt_select(&mut data, &select);
        extend_bytes(&mut data, epc);
        assert(data@ =~= u16_be(timeout_ms) + seq![option] + opt_byte(rfu) + opt_u32_bytes(
            access_password,
        ) + opt_select_bytes(select) + epc@);
        build_host_frame(CommandCode::WriteTagEpc.as_u8(), data.as_slice())
    }

    /// Build command `0x24` (Write Tag Data):
    /// `Timeout(2) | Option | Address(4) | MemBank | [Password(4)] |
    /// [SelectContent] | Data`; data is a non-empty even number of bytes, at
    /// most 64.
    pub fn write_tag_data(
        timeout_ms: u16,
        option: u8,
        write_address_words: u32,
        write_membank: MemBank,
        access_password: Option<u32>,
        select: Option<SelectContent>,
        write_data: &[u8],
    ) -> (r: Result<Vec<u8>, ProtocolError>)
        ensures
            (write_data@.len() == 0 || write_data@.len() % 2 != 0) ==> r == Err::<
                Vec<u8>,
                ProtocolError,
            >(
                ProtocolError::InvalidArgument(
                    "write_data must be non-empty and multiple of 2 bytes",
                ),
            ),
            (write_data@.len() > 0 && write_data@.len() % 2 == 0 && write_data@.len() > 64) ==> r
                == Err::<Vec<u8>, ProtocolError>(
                ProtocolError::InvalidArgument("write_data must be <= 64 bytes"),
            ),
            (write_data@.len() > 0 && write_data@.len() % 2 == 0 && write_data@.len() <= 64)
                ==> host_frame_result(
                r,
                CommandCode::WriteTagData.code(),
                write_tag_data_data(
                    timeout_ms,
                    option,
                    write_address_words,
                    write_membank,
                    access_password,
                    select,
                    write_data@,
                ),
            ),
    {
        if write_data.len() == 0 || (write_data.len() % 2 != 0) {
            return Err(
                ProtocolError::InvalidArgument(
                    "write_data must be non-empty and multiple of 2 bytes",
                ),
            );
        }
        if write_data.len() > 64 {
            return Err(ProtocolError::InvalidArgument("write_data must be <= 64 bytes"));
        }
        let mut data: Vec<u8> = Vec::new();
        push_u16_be(&mut data, timeout_ms);
        data.push(option);
        push_u32_be(&mut data, write_address_words);
        data.push(write_membank.as_u8());
        push_opt_u32(&mut data, access_password);
        push_opt_select(&mut data, &select);
        extend_bytes(&mut data, write_data);
        assert(data@ =~= u16_be(timeout_ms) + seq![option] + u32_be(write_address_words) + seq![
            write_membank.code(),
        ] + opt_u32_bytes(access_password) + opt_select_bytes(select) + write_data@);
        build_host_frame(CommandCode::WriteTagData.as_u8(), data.as_slice())
    }

    /// Build command `0x25` (Lock Tag):
    /// `Timeout(2) | Option | Password(4) | Mask(2) | Action(2) | [SelectContent]`.
    pub fn lock_tag(
        timeout_ms: u16,
        option: u8,
        access_password: u32,
        mask_bits: u16,
        action_bits: u16,
        select: Option<SelectContent>,
    ) -> (r: Result<Vec<u8>, ProtocolError>)
        ensures
            host_frame_result(
                r,
                CommandCode::LockTag.code(),
                lock_tag_data(timeout_ms, option, access_password, mask_bits, action_bits, select),
            ),
    {
        let mut data: Vec<u8> = Vec::new();
        push_u16_be(&mut data, timeout_ms);
        data.push(option);
        push_u32_be(&mut data, access_password);
        push_u16_be(&mut data, mask_bits);
        push_u16_be(&mut data, action_bits);
        push_opt_select(&mut data, &select);
        assert(data@ =~= u16_be(timeout_ms) + seq![option] + u32_be(access_password) + u16_be(
            mask_bits,
        ) + u16_be(action_bits) + opt_select_bytes(select));
        build_host_frame(CommandCode::LockTag.as_u8(), data.as_slice())
    }

    /// Build command `0x26` (Kill Tag):
    /// `Timeout(2) | Option | KillPassword(4) | RFU | [SelectContent]`.
    pub fn kill_tag(
        timeout_ms: u16,
        option: u8,
        kill_password: u32,
        rfu: u8,
        select: Option<SelectContent>,
    ) -> (r: Result<Vec<u8>, ProtocolError>)
        ensures
            host_frame_result(
                r,
                CommandCode::KillTag.code(),
                kill_tag_data(timeout_ms, option, kill_password, rfu, select),
            ),
    {
        let mut data: Vec<u8> = Vec::new();
        push_u16_be(&mut data, timeout_ms);
        data.push(option);
        push_u32_be(&mut data, kill_password);
        data.push(rfu);
        push_opt_select(&mut data, &select);
        assert(data@ =~= u16_be(timeout_ms) + seq![option] + u32_be(kill_password) + seq![rfu]
            + opt_select_bytes(select));
        build_host_frame(CommandCode::KillTag.as_u8(), data.as_slice())
    }

    /// Build command `0x28` (Read Tag Data):
    /// `Timeout(2) | Option | [MetadataFlags(2)] | MemBank | Address(4) |
    /// WordCount | [Password(4)] | [SelectContent]`, with 1..=96 words.
    pub fn read_tag_data(
        timeout_ms: u16,
        option: u8,
        metadata_flags: Option<MetadataFlags>,
        read_membank: MemBank,
        read_address_words: u32,
        word_count: u8,
        access_password: Option<u32>,
        select: Option<SelectContent>,
    ) -> (r: Result<Vec<u8>, ProtocolError>)
        ensures
            (word_count == 0 || word_count > 96) ==> r == Err::<Vec<u8>, ProtocolError>(
                ProtocolError::InvalidArgument("word_count must be in 1..=96"),
            ),
            (1 <= word_count <= 96) ==> host_frame_result(
                r,
                CommandCode::ReadTagData.code(),
                read_tag_data_data(
                    timeout_ms,
                    option,
                    metadata_flags,
                    read_membank,
                    read_address_words,
                    word_count,
                    access_password,
                    select,
                ),
            ),
    {
        if word_count == 0 || word_count > 96 {
            return Err(ProtocolError::InvalidArgument("word_count must be in 1..=96"));
        }
        let mut data: Vec<u8> = Vec::new();
        push_u16_be(&mut data, timeout_ms);
        data.push(option);
        push_opt_flags(&mut data, metadata_flags);
        data.push(read_membank.as_u8());
        push_u32_be(&mut data, read_address_words);
        data.push(word_count);
        push_opt_u32(&mut data, access_password);
        push_opt_select(&mut data, &select);
        assert(data@ =~= read_tag_data_data(
            timeout_ms,
            option,
            metadata_flags,
            read_membank,
            read_address_words,
            word_count,
            access_password,
            select,
        ));
        build_host_frame(CommandCode::ReadTagData.as_u8(), data.as_slice())
    }

    /// Build command `0x91` (Set Antenna Ports) with the option-specific
    /// layout of the configuration.
    pub fn set_antenna_ports(config: &AntennaPortsConfiguration) -> (r: Result<Vec<u8>, ProtocolError>)
        ensures
            match antenna_config_data(config@) {
                Ok(d) => host_frame_result(r, CommandCode::SetAntennaPorts.code(), d),
                Err(e) => r == Err::<Vec<u8>, ProtocolError>(e),
            },
    {
        let data = match config.encode() {
            Ok(d) => d,
            Err(e) => {
                return Err(e);
            },
        };
        build_host_frame(CommandCode::SetAntennaPorts.as_u8(), data.as_slice())
    }

    /// Build command `0x93` (Set Current Tag Protocol).
    pub fn set_current_tag_protocol(protocol: u16) -> (r: Result<Vec<u8>, ProtocolError>)
        ensures
            r is Ok && host_frame_result(
                r,
                CommandCode::SetCurrentTagProtocol.code(),
                u16_be(protocol),
            ),
    {
        let mut data: Vec<u8> = Vec::with_capacity(2);
        push_u16_be(&mut data, protocol);
        build_host_frame(CommandCode::SetCurrentTagProtocol.as_u8(), data.as_slice())
    }

    /// Build command `0x95` (Set Frequency Hopping) with a raw data field.
    pub fn set_frequency_hopping(data_field: &[u8]) -> (r: Result<Vec<u8>, ProtocolError>)
        ensures
            host_frame_result(r, CommandCode::SetFrequencyHopping.code(), data_field@),
    {
        build_host_frame(CommandCode::SetFrequencyHopping.as_u8(), data_field)
    }

    /// Build command `0x96` (Set GPO / Get GPO status); empty data requests
    /// the current GPO status.
    pub fn set_gpo(data_field: &[u8]) -> (r: Result<Vec<u8>, ProtocolError>)
        ensures
            host_frame_result(r, CommandCode::SetGpo.code(), data_field@),
    {
        build_host_frame(CommandCode::SetGpo.as_u8(), data_field)
    }

    /// Build command `0x97` (Set Current Region).
    pub fn set_current_region(region_code: RegionCode) -> (r: Result<Vec<u8>, ProtocolError>)
        ensures
            r is Ok && host_frame_result(
                r,
                CommandCode::SetCurrentRegion.code(),
                seq![region_code.code()],
            ),
    {
        let data = [region_code.as_u8()];
        assert(data@ =~= seq![region_code.code()]);
        build_host_frame(CommandCode::SetCurrentRegion.as_u8(), &data)
    }

    /// Build command `0x9A` (Set Reader Configuration): `Option | Key | Value`.
    pub fn set_reader_configuration(option: u8, key: u8, value: u8) -> (r: Result<
        Vec<u8>,
        ProtocolError,
    >)
        ensures
            r is Ok && host_frame_result(
                r,
                CommandCode::SetReaderConfiguration.code(),
                seq![option, key, value],
            ),
    {
        build_host_frame(CommandCode::SetReaderConfiguration.as_u8(), &[option, key, value])
    }

    /// Build command `0x9B` (Set Protocol Configuration):
    /// `Protocol | Parameter | [Option] | [Value]`.
    pub fn set_protocol_configuration(
        protocol_value: u8,
        parameter: u8,
        option: Option<u8>,
        value: Option<u8>,
    ) -> (r: Result<Vec<u8>, ProtocolError>)
        ensures
            r is Ok && host_frame_result(
                r,
                CommandCode::SetProtocolConfiguration.code(),
                seq![protocol_value, parameter] + opt_byte(option) + opt_byte(value),
            ),
    {
        let mut data: Vec<u8> = Vec::new();
        data.push(protocol_value);
        data.push(parameter);
        if let Some(opt) = option {
            data.push(opt);
        }
        if let Some(v) = value {
            data.push(v);
        }
        assert(data@ =~= seq![protocol_value, parameter] + opt_byte(option) + opt_byte(value));
        build_host_frame(CommandCode::SetProtocolConfiguration.as_u8(), data.as_slice())
    }

    /// Build command `0x61` (Get Antenna Ports) for one antenna view.
    pub fn get_antenna_ports(option: AntennaPortsOption) -> (r: Result<Vec<u8>, ProtocolError>)
        ensures
            r is Ok && host_frame_result(r, CommandCode::GetAntennaPorts.code(), seq![option.code()]),
    {
        let data = [option.as_u8()];
        assert(data@ =~= seq![option.code()]);
        build_host_frame(CommandCode::GetAntennaPorts.as_u8(), &data)
    }

    /// Build command `0x63` (Get Current Tag Protocol).
    pub fn get_current_tag_protocol() -> (r: Result<Vec<u8>, ProtocolError>)
        ensures
            r is Ok && host_frame_result(r, CommandCode::GetCurrentTagProtocol.code(), Seq::empty()),
    {
        build_host_frame(CommandCode::GetCurrentTagProtocol.as_u8(), &[])
    }

    /// Build command `0x65` (Get Frequency Hopping): `None` requests the hop
    /// table, `Some(0x01)` the regulatory hopping time.
    pub fn get_frequency_hopping(option: Option<u8>) -> (r: Result<Vec<u8>, ProtocolError>)
        ensures
            r is Ok && host_frame_result(
                r,
                CommandCode::GetFrequencyHopping.code(),
                opt_byte(option),
            ),
    {
        match option {
            Some(v) => {
                let data = [v];
                assert(data@ =~= opt_byte(option));
                build_host_frame(CommandCode::GetFrequencyHopping.as_u8(), &data)
            },
            None => {
                let data: [u8; 0] = [];
                assert(data@ =~= opt_byte(option));
                build_host_frame(CommandCode::GetFrequencyHopping.as_u8(), &data)
            },
        }
    }

    /// Build command `0x66` (Get GPI).
    pub fn get_gpi() -> (r: Result<Vec<u8>, ProtocolError>)
        ensures
            r is Ok && host_frame_result(r, CommandCode::GetGpi.code(), Seq::empty()),
    {
        build_host_frame(CommandCode::GetGpi.as_u8(), &[])
    }

    /// Build command `0x67` (Get Current Region).
    pub fn get_current_region() -> (r: Result<Vec<u8>, ProtocolError>)
        ensures
            r is Ok && host_frame_result(r, CommandCode::GetCurrentRegion.code(), Seq::empty()),
    {
        build_host_frame(CommandCode::GetCurrentRegion.as_u8(), &[])
    }

    /// Build command `0x71` (Get Available Regions).
    pub fn get_available_regions() -> (r: Result<Vec<u8>, ProtocolError>)
        ensures
            r is Ok && host_frame_result(r, CommandCode::GetAvailableRegions.code(), Seq::empty()),
    {
        build_host_frame(CommandCode::GetAvailableRegions.as_u8(), &[])
    }

    /// Build command `0x6A` (Get Reader Configuration): `Option | Key`.
    pub fn get_reader_configuration(option: u8, key: u8) -> (r: Result<Vec<u8>, ProtocolError>)
        ensures
            r is Ok && host_frame_result(
                r,
                CommandCode::GetReaderConfiguration.code(),
                seq![option, key],
            ),
    {
        build_host_frame(CommandCode::GetReaderConfiguration.as_u8(), &[option, key])
    }

    /// Build command `0x6B` (Get Protocol Configuration): `Protocol | Parameter`.
    pub fn get_protocol_configuration(protocol_value: u8, parameter: u8) -> (r: Result<
        Vec<u8>,
        ProtocolError,
    >)
        ensures
            r is Ok && host_frame_result(
                r,
                CommandCode::GetProtocolConfiguration.code(),
                seq![protocol_value, parameter],
            ),
    {
        build_host_frame(CommandCode::GetProtocolConfiguration.as_u8(), &[protocol_value, parameter])
    }

    /// Build command `0x72` (Get Current Temperature).
    pub fn get_current_temperature() -> (r: Result<Vec<u8>, ProtocolError>)
        ensures
            r is Ok && host_frame_result(r, CommandCode::GetCurrentTemperature.code(), Seq::empty()),
    {
        build_host_frame(CommandCode::GetCurrentTemperature.as_u8(), &[])
    }

    /// Build command `0xAA` Start Async Inventory subcommand (`0xAA48`) with
    /// the encoded start data.
    pub fn async_start(start: &AsyncInventoryStartData) -> (r: Result<Vec<u8>, ProtocolError>)
        ensures
            host_frame_result(
                r,
                CommandCode::AsynchronousInventory.code(),
                async_payload(AsyncSubcommandCode::Start.value(), start.spec_bytes()),
            ),
    {
        let subcommand_data = start.encode();
        Self::async_inventory(AsyncSubcommandCode::Start, subcommand_data.as_slice())
    }

    /// Build command `0xAA` Stop Async Inventory subcommand (`0xAA49`).
    pub fn async_stop() -> (r: Result<Vec<u8>, ProtocolError>)
        ensures
            r is Ok && host_frame_result(
                r,
                CommandCode::AsynchronousInventory.code(),
                async_payload(AsyncSubcommandCode::Stop.value(), Seq::empty()),
            ),
    {
        Self::async_inventory(AsyncSubcommandCode::Stop, &[])
    }

    /// Build a generic `0xAA` asynchronous inventory command packet: the
    /// marker `Moduletech`, the subcommand, its data, the sub-CRC and the
    /// terminator `0xBB`, wrapped in a host frame.
    pub fn async_inventory(subcommand: AsyncSubcommandCode, subcommand_data: &[u8]) -> (r: Result<
        Vec<u8>,
        ProtocolError,
    >)
        ensures
            host_frame_result(
                r,
                CommandCode::AsynchronousInventory.code(),
                async_payload(subcommand.value(), subcommand_data@),
            ),
    {
        let marker = async_marker_bytes();
        let mut data: Vec<u8> = Vec::new();
        extend_bytes(&mut data, &marker);
        let code = subcommand.as_u16();
        push_u16_be(&mut data, code);
        extend_bytes(&mut data, subcommand_data);
        let sub_crc = subcommand_crc(code, subcommand_data);
        data.push(sub_crc);
        data.push(ASYNC_TERMINATOR);
        assert(data@ =~= async_payload(subcommand.value(), subcommand_data@));
        build_host_frame(CommandCode::AsynchronousInventory.as_u8(), data.as_slice())
    }
}

} // verus!
