//! Framing of asynchronous inventory (`0xAA`) payloads:
//! `"Moduletech"(10) | Subcommand(2) | SubcommandData(N) | SubCRC(1) | 0xBB`.

use vstd::prelude::*;

use crate::bytes::{be16, read_be16, u16_be};
use crate::error::ProtocolError;

verus! {

/// The fixed marker `Moduletech` that opens every asynchronous payload.
pub open spec fn async_marker() -> Seq<u8> {
    seq![0x4Du8, 0x6Fu8, 0x64u8, 0x75u8, 0x6Cu8, 0x65u8, 0x74u8, 0x65u8, 0x63u8, 0x68u8]
}

/// The byte that closes every asynchronous payload.
pub const ASYNC_TERMINATOR: u8 = 0xBB;

/// The marker bytes `Moduletech`.
pub fn async_marker_bytes() -> (r: [u8; 10])
    ensures
        r@ == async_marker(),
{
    let r: [u8; 10] = [0x4D, 0x6F, 0x64, 0x75, 0x6C, 0x65, 0x74, 0x65, 0x63, 0x68];
    assert(r@ =~= async_marker());
    r
}

/// The sum of all bytes of `s`.
pub open spec fn byte_sum(s: Seq<u8>) -> nat
    decreases s.len(),
{
    if s.len() == 0 {
        0
    } else {
        byte_sum(s.drop_last()) + s.last() as nat
    }
}

/// The sub-CRC: the low eight bits of the sum of both subcommand bytes and
/// every subcommand data byte.
pub open spec fn spec_subcommand_crc(subcommand: u16, data: Seq<u8>) -> u8 {
    ((subcommand / 256 + subcommand % 256 + byte_sum(data)) % 256) as u8
}

/// The payload that carries `subcommand` and `data` in an `0xAA` frame.
pub open spec fn async_payload(subcommand: u16, data: Seq<u8>) -> Seq<u8> {
    async_marker() + u16_be(subcommand) + data + seq![
        spec_subcommand_crc(subcommand, data),
        ASYNC_TERMINATOR,
    ]
}

/// The first failed check of an asynchronous payload, in the order the
/// parser makes them, or `None` when the payload is well formed.
pub open spec fn async_payload_error(d: Seq<u8>) -> Option<ProtocolError> {
    if d.len() < 14 {
        Some(ProtocolError::InvalidResponse("async payload too short for marker+code+subcrc+terminator"))
    } else if d.subrange(0, 10) != async_marker() {
        Some(ProtocolError::InvalidResponse("invalid async marker"))
    } else if d[d.len() - 1] != ASYNC_TERMINATOR {
        Some(ProtocolError::InvalidResponse("invalid async terminator"))
    } else if d[d.len() - 2] != spec_subcommand_crc(be16(d[10], d[11]), d.subrange(12, d.len() - 2)) {
        Some(ProtocolError::InvalidResponse("invalid async sub-CRC"))
    } else {
        None
    }
}

/// Parsed asynchronous inventory payload.
#[derive(Debug, Clone, PartialEq, Eq)]
pub struct AsyncPayload<'a> {
    /// Subcommand code.
    pub subcommand: u16,
    /// Subcommand data body.
    pub subcommand_data: &'a [u8],
}

/// Parsed asynchronous inventory payload with owned data.
#[derive(Debug, Clone, PartialEq, Eq)]
pub struct AsyncPayloadOwned {
    /// Subcommand code.
    pub subcommand: u16,
    /// Subcommand data body.
    pub subcommand_data: Vec<u8>,
}

/// Compute asynchronous subcommand checksum (`SubCRC`): the lower 8 bits of
/// the sum of the subcommand high byte, its low byte and each data byte.
pub fn subcommand_crc(subcommand: u16, subcommand_data: &[u8]) -> (r: u8)
    ensures
        r == spec_subcommand_crc(subcommand, subcommand_data@),
{
    let hi = (subcommand / 256) as u8;
    let lo = (subcommand % 256) as u8;
    let mut sum: u8 = hi.wrapping_add(lo);
    let mut i: usize = 0;
    while i < subcommand_data.len()
        invariant
            0 <= i <= subcommand_data@.len(),
            sum == ((subcommand / 256 + subcommand % 256 + byte_sum(
                subcommand_data@.subrange(0, i as int),
            )) % 256) as u8,
        decreases subcommand_data@.len() - i,
    {
        let ghost prev = subcommand_data@.subrange(0, i as int);
        assert(subcommand_data@.subrange(0, i + 1).drop_last() == prev);
        sum = sum.wrapping_add(subcommand_data[i]);
        i = i + 1;
    }
    assert(subcommand_data@.subrange(0, subcommand_data@.len() as int) == subcommand_data@);
    sum
}

/// Whether the first ten bytes of `data` are the marker `Moduletech`.
fn starts_with_marker(data: &[u8]) -> (r: bool)
    requires
        data@.len() >= 10,
    ensures
        r == (data@.subrange(0, 10) == async_marker()),
{
    let marker = async_marker_bytes();
    let mut i: usize = 0;
    while i < 10
        invariant
            0 <= i <= 10,
            data@.len() >= 10,
            marker@ == async_marker(),
            forall|j: int| 0 <= j < i ==> data@[j] == marker@[j],
        decreases 10 - i,
    {
        if data[i] != marker[i] {
            assert(data@.subrange(0, 10)[i as int] != async_marker()[i as int]);
            return false;
        }
        i = i + 1;
    }
    assert(data@.subrange(0, 10) =~= async_marker());
    true
}

/// Parse `0xAA` asynchronous inventory payload data.
///
/// Validates the marker `Moduletech`, the trailing terminator `0xBB` and the
/// sub-CRC, and returns the subcommand and the subcommand data bytes.
pub fn parse_async_payload(data: &[u8]) -> (r: Result<AsyncPayload<'_>, ProtocolError>)
    ensures
        r is Ok <==> async_payload_error(data@) is None,
        r matches Err(e) ==> async_payload_error(data@) == Some(e),
        r matches Ok(p) ==> p.subcommand == be16(data@[10], data@[11]) && p.subcommand_data@
            == data@.subrange(12, data@.len() - 2),
{
    if data.len() < 14 {
        return Err(
            ProtocolError::InvalidResponse(
                "async payload too short for marker+code+subcrc+terminator",
            ),
        );
    }
    if !starts_with_marker(data) {
        return Err(ProtocolError::InvalidResponse("invalid async marker"));
    }
    let n = data.len();
    let subcommand = read_be16(data[10], data[11]);
    let terminator = data[n - 1];
    if terminator != ASYNC_TERMINATOR {
        return Err(ProtocolError::InvalidResponse("invalid async terminator"));
    }
    let sub_crc_actual = data[n - 2];
    let subcommand_data = &data[12..n - 2];
    let sub_crc_expected = subcommand_crc(subcommand, subcommand_data);
    if sub_crc_actual != sub_crc_expected {
        return Err(ProtocolError::InvalidResponse("invalid async sub-CRC"));
    }
    Ok(AsyncPayload { subcommand, subcommand_data })
}

/// Parse `0xAA` asynchronous inventory payload data and return owned bytes.
pub fn parse_async_payload_owned(data: &[u8]) -> (r: Result<AsyncPayloadOwned, ProtocolError>)
    ensures
        r is Ok <==> async_payload_error(data@) is None,
        r matches Err(e) ==> async_payload_error(data@) == Some(e),
        r matches Ok(p) ==> p.subcommand == be16(data@[10], data@[11]) && p.subcommand_data@
            == data@.subrange(12, data@.len() - 2),
{
    let parsed = parse_async_payload(data)?;
    Ok(
        AsyncPayloadOwned {
            subcommand: parsed.subcommand,
            subcommand_data: vstd::slice::slice_to_vec(parsed.subcommand_data),
        },
    )
}

/// An asynchronous payload built from a subcommand and its data parses back
/// to that subcommand and data.
pub proof fn lemma_async_payload_parses(subcommand: u16, data: Seq<u8>)
    ensures
        async_payload_error(async_payload(subcommand, data)) is None,
        ({
            let d = async_payload(subcommand, data);
            &&& be16(d[10], d[11]) == subcommand
            &&& d.subrange(12, d.len() - 2) == data
        }),
{
    let d = async_payload(subcommand, data);
    crate::bytes::lemma_u16_be_round_trip(subcommand);
    assert(d.subrange(0, 10) =~= async_marker());
    assert(d.subrange(12, d.len() - 2) =~= data);
}

/// Every payload that parses without error is the payload built from the
/// subcommand and data it decodes to.
pub proof fn lemma_async_payload_unique(d: Seq<u8>)
    requires
        async_payload_error(d) is None,
    ensures
        d == async_payload(be16(d[10], d[11]), d.subrange(12, d.len() - 2)),
{
    crate::bytes::lemma_be16_round_trip(d[10], d[11]);
    let sub = be16(d[10], d[11]);
    let data = d.subrange(12, d.len() - 2);
    let e = async_payload(sub, data);
    assert(u16_be(sub)[0] == d[10] && u16_be(sub)[1] == d[11]);
    assert(d.subrange(0, 10) == async_marker());
    let m = async_marker() + u16_be(sub);
    assert(m =~= d.subrange(0, 12));
    let m2 = m + data;
    assert(m2 =~= d.subrange(0, d.len() - 2));
    assert(e =~= m2 + seq![spec_subcommand_crc(sub, data), ASYNC_TERMINATOR]);
    assert forall|i: int| 0 <= i < d.len() implies d[i] == e[i] by {
        if i < d.len() - 2 {
            assert(m2[i] == d[i]);
        }
    }
    assert(d =~= e);
}

/// An asynchronous payload on the wire: the ten marker bytes `Moduletech`,
/// the subcommand high byte first (bytes 10 and 11), the data, the sub-CRC
/// (the low eight bits of the sum of both subcommand bytes and every data
/// byte), and the terminator `0xBB` last.
pub proof fn lemma_async_payload_layout(subcommand: u16, data: Seq<u8>)
    ensures
        ({
            let p = async_payload(subcommand, data);
            &&& p.len() == data.len() + 14
            &&& p.subrange(0, 10) == seq![0x4Du8, 0x6Fu8, 0x64u8, 0x75u8, 0x6Cu8, 0x65u8, 0x74u8, 0x65u8, 0x63u8, 0x68u8]
            &&& crate::bytes::be_int16(p, 10) == subcommand as int
            &&& p.subrange(12, p.len() - 2) == data
            &&& p[p.len() - 2] as int == (p[10] as int + p[11] as int + byte_sum(data)) % 256
            &&& p[p.len() - 1] == 0xBB
        }),
{
    let p = async_payload(subcommand, data);
    crate::bytes::lemma_u16_be_at(async_marker(), subcommand, data + seq![
        spec_subcommand_crc(subcommand, data),
        ASYNC_TERMINATOR,
    ]);
    assert(p =~= async_marker() + u16_be(subcommand) + (data + seq![
        spec_subcommand_crc(subcommand, data),
        ASYNC_TERMINATOR,
    ]));
    assert(p.subrange(0, 10) =~= async_marker());
    assert(p.subrange(12, p.len() - 2) =~= data);
    assert(p[10] == u16_be(subcommand)[0] && p[11] == u16_be(subcommand)[1]);
}

} // verus!
