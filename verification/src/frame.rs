//! Wire-frame encoding and decoding.
//!
//! Host-to-reader packets: `0xFF | DataLen | Command | Data(N) | CRC16(2)`.
//! Reader-to-host packets: `0xFF | DataLen | Command | Status(2) | Data(N) | CRC16(2)`.

use vstd::prelude::*;

use crate::bytes::{be16, extend_bytes, push_u16_be, read_be16, u16_be};
use crate::codes::StatusCode;
use crate::error::ProtocolError;

verus! {

/// Leading byte of every packet.
pub const HEADER: u8 = 0xFF;

/// Largest data field a packet can carry (its length is one byte).
pub const MAX_DATA_LEN: usize = 255;

/// One CRC step: shift in one message bit, then reduce by the polynomial
/// `0x1021` when the bit shifted out was set.
pub open spec fn crc_bit_step(crc: u16, bit: bool) -> u16 {
    let shifted: u16 = (crc << 1u16) | (if bit { 1u16 } else { 0u16 });
    if crc & 0x8000u16 != 0 {
        shifted ^ 0x1021u16
    } else {
        shifted
    }
}

/// The CRC after shifting in the `n` most significant bits of `byte`,
/// most significant bit first.
pub open spec fn crc_byte_bits(crc: u16, byte: u8, n: nat) -> u16
    decreases n,
{
    if n == 0 {
        crc
    } else {
        crc_bit_step(
            crc_byte_bits(crc, byte, (n - 1) as nat),
            byte & (0x80u8 >> ((n - 1) as u8)) != 0,
        )
    }
}

/// The CRC after shifting in all eight bits of `byte`.
pub open spec fn crc_byte(crc: u16, byte: u8) -> u16 {
    crc_byte_bits(crc, byte, 8)
}

/// The CRC after shifting in every byte of `s`, in order, starting from `crc`.
pub open spec fn crc_over(crc: u16, s: Seq<u8>) -> u16
    decreases s.len(),
{
    if s.len() == 0 {
        crc
    } else {
        crc_byte(crc_over(crc, s.drop_last()), s.last())
    }
}

/// The protocol CRC of a frame without its CRC bytes: every byte after the
/// header, starting from `0xFFFF`.
pub open spec fn spec_protocol_crc16(s: Seq<u8>) -> u16 {
    if s.len() == 0 {
        0xFFFFu16
    } else {
        crc_over(0xFFFFu16, s.drop_first())
    }
}

/// The host-to-reader packet for `command` and `data` (without length check).
pub open spec fn host_packet(command: u8, data: Seq<u8>) -> Seq<u8> {
    let body = seq![HEADER, data.len() as u8, command] + data;
    body + u16_be(spec_protocol_crc16(body))
}

/// The reader-to-host packet for `command`, `status` and `data`.
pub open spec fn reader_packet(command: u8, status: u16, data: Seq<u8>) -> Seq<u8> {
    let body = seq![HEADER, data.len() as u8, command] + u16_be(status) + data;
    body + u16_be(spec_protocol_crc16(body))
}

/// What building a host frame for `command` and `data` gives: the packet, or
/// `DataTooLong` when the data does not fit the one-byte length field.
pub open spec fn host_frame_result(
    r: Result<Vec<u8>, ProtocolError>,
    command: u8,
    data: Seq<u8>,
) -> bool {
    match r {
        Ok(p) => data.len() <= MAX_DATA_LEN && p@ == host_packet(command, data),
        Err(e) => data.len() > MAX_DATA_LEN && e == ProtocolError::DataTooLong(data.len() as usize),
    }
}

/// The CRC stored in the last two bytes of a packet.
pub open spec fn packet_crc(p: Seq<u8>) -> u16 {
    be16(p[p.len() - 2], p[p.len() - 1])
}

/// The first failed check of a reader packet, in the order the parser makes
/// them, or `None` when the packet is well formed.
pub open spec fn reader_packet_error(p: Seq<u8>) -> Option<ProtocolError> {
    if p.len() < 7 {
        Some(ProtocolError::PacketTooShort)
    } else if p[0] != HEADER {
        Some(ProtocolError::InvalidHeader(p[0]))
    } else if p.len() != 7 + p[1] {
        Some(ProtocolError::LengthMismatch { declared: p[1] as usize, actual: (p.len() - 7) as usize })
    } else if packet_crc(p) != spec_protocol_crc16(p.subrange(0, p.len() - 2)) {
        Some(
            ProtocolError::InvalidCrc {
                expected: spec_protocol_crc16(p.subrange(0, p.len() - 2)),
                actual: packet_crc(p),
            },
        )
    } else {
        None
    }
}

/// Decoded reader response frame.
#[derive(Debug, Clone, PartialEq, Eq)]
pub struct ReaderFrame {
    /// Command code echoed by reader.
    pub command: u8,
    /// Raw 16-bit status code.
    pub status_raw: u16,
    /// Parsed status code when known.
    pub status: Option<StatusCode>,
    /// Data field following status code.
    pub data: Vec<u8>,
}

impl ReaderFrame {
    /// This frame holds the fields of the well-formed reader packet `p`.
    pub open spec fn decodes(&self, p: Seq<u8>) -> bool {
        &&& self.command == p[2]
        &&& self.status_raw == be16(p[3], p[4])
        &&& self.status == StatusCode::decode(self.status_raw)
        &&& self.data@ == p.subrange(5, p.len() - 2)
    }
}

/// Compute protocol CRC-16 for a frame without trailing CRC bytes.
///
/// The byte at index 0 (the header) is not part of the checksum.
pub fn protocol_crc16(data: &[u8]) -> (r: u16)
    ensures
        r == spec_protocol_crc16(data@),
{
    let mut crc: u16 = 0xFFFF;
    if data.len() == 0 {
        return crc;
    }
    let mut i: usize = 1;
    while i < data.len()
        invariant
            1 <= i <= data@.len(),
            crc == crc_over(0xFFFFu16, data@.subrange(1, i as int)),
        decreases data@.len() - i,
    {
        let byte = data[i];
        let ghost start = crc;
        let mut mask: u8 = 0x80;
        let mut k: u8 = 0;
        assert(0x80u8 == 0x80u8 >> 0u8) by (bit_vector);
        while k < 8
            invariant
                k <= 8,
                byte == data@[i as int],
                mask == 0x80u8 >> k,
                crc == crc_byte_bits(start, byte, k as nat),
            decreases 8 - k,
        {
            let xor_flag = (crc & 0x8000) != 0;
            let bit: u16 = if (byte & mask) != 0 { 1 } else { 0 };
            let shifted: u16 = (crc << 1u16) | bit;
            crc = if xor_flag { shifted ^ 0x1021 } else { shifted };
            assert(mask >> 1u8 == 0x80u8 >> ((k + 1) as u8)) by (bit_vector)
                requires
                    mask == 0x80u8 >> k,
                    k < 8,
            ;
            mask = mask >> 1u8;
            k = k + 1;
        }
        proof {
            let s = data@.subrange(1, i + 1);
            assert(s.drop_last() == data@.subrange(1, i as int));
            assert(s.last() == byte);
        }
        i = i + 1;
    }
    assert(data@.drop_first() == data@.subrange(1, data@.len() as int));
    crc
}

/// Parse one reader-to-host protocol frame.
///
/// Checks, in order: minimum packet size, header byte, total length against
/// the declared data length, and the CRC. On success the frame holds the
/// command, the status and the data field.
pub fn parse_reader_frame(packet: &[u8]) -> (r: Result<ReaderFrame, ProtocolError>)
    ensures
        r is Ok <==> reader_packet_error(packet@) is None,
        r matches Err(e) ==> reader_packet_error(packet@) == Some(e),
        r matches Ok(f) ==> f.decodes(packet@) && f.data@.len() <= MAX_DATA_LEN,
{
    if packet.len() < 7 {
        return Err(ProtocolError::PacketTooShort);
    }
    if packet[0] != HEADER {
        return Err(ProtocolError::InvalidHeader(packet[0]));
    }
    let declared_len = packet[1] as usize;
    let expected_total = 1 + 1 + 1 + 2 + declared_len + 2;
    if packet.len() != expected_total {
        return Err(
            ProtocolError::LengthMismatch { declared: declared_len, actual: packet.len() - 7 },
        );
    }
    let n = packet.len();
    let crc_actual = read_be16(packet[n - 2], packet[n - 1]);
    let crc_expected = protocol_crc16(&packet[0..n - 2]);
    if crc_actual != crc_expected {
        return Err(ProtocolError::InvalidCrc { expected: crc_expected, actual: crc_actual });
    }
    let command = packet[2];
    let status_raw = read_be16(packet[3], packet[4]);
    let data_start: usize = 5;
    let data_end = data_start + declared_len;
    let data = vstd::slice::slice_to_vec(&packet[data_start..data_end]);
    Ok(ReaderFrame { command, status_raw, status: StatusCode::from_u16(status_raw), data })
}

/// Build one host-to-reader protocol frame: header, data length, command,
/// data and the CRC of everything before it.
pub fn build_host_frame(command: u8, data: &[u8]) -> (r: Result<Vec<u8>, ProtocolError>)
    ensures
        host_frame_result(r, command, data@),
{
    if data.len() > MAX_DATA_LEN {
        return Err(ProtocolError::DataTooLong(data.len()));
    }
    let mut out: Vec<u8> = Vec::with_capacity(1 + 1 + 1 + data.len() + 2);
    out.push(HEADER);
    out.push(data.len() as u8);
    out.push(command);
    extend_bytes(&mut out, data);
    let ghost body = out@;
    assert(body =~= seq![HEADER, data@.len() as u8, command] + data@);
    let crc = protocol_crc16(out.as_slice());
    push_u16_be(&mut out, crc);
    assert(out@ =~= host_packet(command, data@));
    Ok(out)
}

/// The bytes of a reader-to-host frame whose length byte holds the data
/// length modulo 256; for at most 255 data bytes this is the reader packet.
pub open spec fn reader_frame_bytes(command: u8, status: u16, data: Seq<u8>) -> Seq<u8> {
    let body = seq![HEADER, (data.len() % 256) as u8, command] + u16_be(status) + data;
    body + u16_be(spec_protocol_crc16(body))
}

/// Build one reader-to-host frame (header, length, command, status, data,
/// CRC), as a reader sends it. The length byte holds the data length modulo
/// 256, so a longer data field gives a frame whose length byte disagrees
/// with it.
pub fn build_reader_frame(command: u8, status: u16, data: &[u8]) -> (r: Vec<u8>)
    ensures
        r@ == reader_frame_bytes(command, status, data@),
        data@.len() <= MAX_DATA_LEN ==> r@ == reader_packet(command, status, data@),
        r@.len() == data@.len() + 7,
{
    let mut out: Vec<u8> = Vec::new();
    out.push(HEADER);
    out.push((data.len() % 256) as u8);
    out.push(command);
    push_u16_be(&mut out, status);
    extend_bytes(&mut out, data);
    let ghost body = out@;
    assert(body =~= seq![HEADER, (data@.len() % 256) as u8, command] + u16_be(status) + data@);
    let crc = protocol_crc16(out.as_slice());
    push_u16_be(&mut out, crc);
    assert(out@ =~= reader_frame_bytes(command, status, data@));
    if data.len() <= MAX_DATA_LEN {
        assert(body =~= seq![HEADER, data@.len() as u8, command] + u16_be(status) + data@);
        assert(out@ =~= reader_packet(command, status, data@));
    }
    out
}

/// A reader packet built from a command, a status and at most 255 data bytes
/// parses without error back to that command, status and data.
pub proof fn lemma_reader_packet_parses(command: u8, status: u16, data: Seq<u8>)
    requires
        data.len() <= MAX_DATA_LEN,
    ensures
        reader_packet_error(reader_packet(command, status, data)) is None,
        ({
            let p = reader_packet(command, status, data);
            &&& p[2] == command
            &&& be16(p[3], p[4]) == status
            &&& p.subrange(5, p.len() - 2) == data
        }),
{
    let body = seq![HEADER, data.len() as u8, command] + u16_be(status) + data;
    let p = reader_packet(command, status, data);
    assert(p.subrange(0, p.len() - 2) =~= body);
    assert(p.subrange(5, p.len() - 2) =~= data);
    crate::bytes::lemma_u16_be_round_trip(status);
    crate::bytes::lemma_u16_be_round_trip(spec_protocol_crc16(body));
}

/// Every reader packet that parses without error is the packet built from the
/// command, status and data it decodes to.
pub proof fn lemma_reader_packet_unique(p: Seq<u8>)
    requires
        reader_packet_error(p) is None,
    ensures
        p == reader_packet(p[2], be16(p[3], p[4]), p.subrange(5, p.len() - 2)),
{
    let data = p.subrange(5, p.len() - 2);
    let body = seq![HEADER, data.len() as u8, p[2]] + u16_be(be16(p[3], p[4])) + data;
    crate::bytes::lemma_be16_round_trip(p[3], p[4]);
    crate::bytes::lemma_be16_round_trip(p[p.len() - 2], p[p.len() - 1]);
    assert(body =~= p.subrange(0, p.len() - 2));
    assert(p =~= reader_packet(p[2], be16(p[3], p[4]), data));
}

/// A host packet is the header `0xFF`, the data length, the command, the
/// data, and last the protocol CRC, high byte first, of everything before
/// it; the CRC leaves the header byte out.
pub proof fn lemma_host_packet_layout(command: u8, data: Seq<u8>)
    requires
        data.len() <= MAX_DATA_LEN,
    ensures
        ({
            let p = host_packet(command, data);
            &&& p.len() == data.len() + 5
            &&& p[0] == HEADER
            &&& p[1] as int == data.len()
            &&& p[2] == command
            &&& p.subrange(3, p.len() - 2) == data
            &&& crate::bytes::be_int16(p, p.len() - 2) == spec_protocol_crc16(
                p.subrange(0, p.len() - 2),
            ) as int
            &&& forall|h: u8|
                #![trigger seq![h] + p.subrange(1, p.len() - 2)]
                spec_protocol_crc16(seq![h] + p.subrange(1, p.len() - 2)) == spec_protocol_crc16(
                    p.subrange(0, p.len() - 2),
                )
        }),
{
    let body = seq![HEADER, data.len() as u8, command] + data;
    let p = host_packet(command, data);
    assert(p.subrange(0, p.len() - 2) =~= body);
    assert(p.subrange(3, p.len() - 2) =~= data);
    crate::bytes::lemma_u16_be_at(body, spec_protocol_crc16(body), Seq::empty());
    assert(p =~= body + u16_be(spec_protocol_crc16(body)) + Seq::<u8>::empty());
    assert forall|h: u8|
        #![trigger seq![h] + p.subrange(1, p.len() - 2)]
        spec_protocol_crc16(seq![h] + p.subrange(1, p.len() - 2)) == spec_protocol_crc16(
            p.subrange(0, p.len() - 2),
        ) by {
        assert((seq![h] + p.subrange(1, p.len() - 2)).drop_first() =~= body.drop_first());
    }
}

} // verus!
