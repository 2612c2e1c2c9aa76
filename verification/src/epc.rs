//! EPC helper types for common GS1 schemes.
//!
//! Supported schemes:
//! - [`Sgtin96`] (header `0x30`)
//! - [`Giai96`] (header `0x34`)
//!
//! Both are 96-bit (12-byte) values: an 8-bit header, a 3-bit filter, a
//! 3-bit partition and then the identity fields, whose bit widths the
//! partition selects.
//!
//! SGTIN-96 partitions (company bits/digits, item bits/digits):
//! `0`: 40/12, 4/1; `1`: 37/11, 7/2; `2`: 34/10, 10/3; `3`: 30/9, 14/4;
//! `4`: 27/8, 17/5; `5`: 24/7, 20/6; `6`: 20/6, 24/7; then a 38-bit serial.
//!
//! GIAI-96 partitions (company bits/digits, asset bits):
//! `0`: 40/12, 42; `1`: 37/11, 45; `2`: 34/10, 48; `3`: 30/9, 52;
//! `4`: 27/8, 55; `5`: 24/7, 58; `6`: 20/6, 62.

use vstd::arithmetic::div_mod::{lemma_div_denominator, lemma_fundamental_div_mod_converse, lemma_mod_breakdown};
use vstd::arithmetic::power2::{lemma2_to64, lemma_pow2_adds, lemma_pow2_pos, lemma_pow2_strictly_increases, pow2};
use vstd::prelude::*;

use crate::error::ProtocolError;
use crate::tag::TagEpcAndMetaData;
use crate::text::pow10;

verus! {

/// The `n` big-endian bytes of `v` (its value modulo `2^(8n)`).
pub open spec fn be_bytes(v: nat, n: nat) -> Seq<u8> {
    Seq::new(n, |i: int| ((v / pow2((8 * (n - 1 - i)) as nat)) % 256) as u8)
}

/// The unsigned big-endian value of a byte sequence.
pub open spec fn be_value(s: Seq<u8>) -> nat
    decreases s.len(),
{
    if s.len() == 0 {
        0
    } else {
        be_value(s.drop_last()) * 256 + s.last() as nat
    }
}

/// High-level EPC value wrapper used by reader APIs and application logic.
///
/// This type stores raw EPC bytes (its constructors refuse empty ones) and
/// provides convenience
/// helpers for formatting, URI construction, and scheme-specific
/// encoding/decoding.
#[derive(Debug, Clone, PartialEq, Eq, Hash)]
pub struct EpcValue {
    bytes: Vec<u8>,
}

impl View for EpcValue {
    type V = Seq<u8>;

    /// The raw EPC bytes.
    closed spec fn view(&self) -> Seq<u8> {
        self.bytes@
    }
}

/// Trait implemented by typed EPC schema structs that can be encoded to bytes.
///
/// Implemented by [`Sgtin96`] and [`Giai96`].
pub trait EpcSchema: Sized {
    /// The EPC bytes this value encodes to, or the validation error.
    spec fn encoding(&self) -> Result<Seq<u8>, ProtocolError>;

    /// Encode this schema value into an [`EpcValue`].
    fn encode(self) -> (r: Result<EpcValue, ProtocolError>)
        ensures
            match self.encoding() {
                Ok(b) => (r matches Ok(v) && v@ == b),
                Err(e) => r == Err::<EpcValue, ProtocolError>(e),
            },
    ;
}

/// Decoded field values for an SGTIN-96 EPC.
#[derive(Debug, Clone, Copy, PartialEq, Eq, Structural)]
pub struct Sgtin96 {
    /// Filter value (3 bits, range `0..=7`).
    ///
    /// In EPC Tag URI this is the first component after the scheme. Use it
    /// as a stable, documented application-level grouping hint.
    pub filter: u8,
    /// Partition value (3 bits, range `0..=6`).
    ///
    /// Selects how many bits/digits belong to `company_prefix` vs
    /// `item_reference`.
    pub partition: u8,
    /// Company prefix value; its width depends on `partition`.
    pub company_prefix: u64,
    /// Item reference value (includes indicator digit); its width depends on
    /// `partition`.
    pub item_reference: u64,
    /// Serial number value (38 bits).
    pub serial: u64,
}

/// Decoded field values for a GIAI-96 EPC.
#[derive(Debug, Clone, Copy, PartialEq, Eq, Structural)]
pub struct Giai96 {
    /// Filter value (3 bits, range `0..=7`).
    pub filter: u8,
    /// Partition value (3 bits, range `0..=6`).
    ///
    /// Selects how many bits/digits belong to `company_prefix` vs
    /// `individual_asset_reference`.
    pub partition: u8,
    /// Company prefix value; its width depends on `partition`.
    pub company_prefix: u64,
    /// Individual asset reference value (numeric for GIAI-96); its width
    /// depends on `partition`.
    pub individual_asset_reference: u64,
}

/// SGTIN-96 partition table: company bits, company digits, item bits, item
/// digits.
pub open spec fn sgtin_layout(partition: u8) -> Option<(nat, nat, nat, nat)> {
    if partition == 0 {
        Some((40, 12, 4, 1))
    } else if partition == 1 {
        Some((37, 11, 7, 2))
    } else if partition == 2 {
        Some((34, 10, 10, 3))
    } else if partition == 3 {
        Some((30, 9, 14, 4))
    } else if partition == 4 {
        Some((27, 8, 17, 5))
    } else if partition == 5 {
        Some((24, 7, 20, 6))
    } else if partition == 6 {
        Some((20, 6, 24, 7))
    } else {
        None
    }
}

/// GIAI-96 partition table: company bits, company digits, asset bits.
pub open spec fn giai_layout(partition: u8) -> Option<(nat, nat, nat)> {
    if partition == 0 {
        Some((40, 12, 42))
    } else if partition == 1 {
        Some((37, 11, 45))
    } else if partition == 2 {
        Some((34, 10, 48))
    } else if partition == 3 {
        Some((30, 9, 52))
    } else if partition == 4 {
        Some((27, 8, 55))
    } else if partition == 5 {
        Some((24, 7, 58))
    } else if partition == 6 {
        Some((20, 6, 62))
    } else {
        None
    }
}

/// Header, filter and partition as one 14-bit value.
pub open spec fn epc_top(header: nat, filter: nat, partition: nat) -> nat {
    (header * 8 + filter) * 8 + partition
}

/// The 96-bit SGTIN value: header `0x30`, filter, partition, then company
/// prefix and item reference in 44 bits, then the 38-bit serial.
pub open spec fn sgtin_value(f: Sgtin96, item_bits: nat) -> nat {
    (epc_top(0x30, f.filter as nat, f.partition as nat) * pow2(44) + (f.company_prefix as nat * pow2(
        item_bits,
    ) + f.item_reference as nat)) * pow2(38) + f.serial as nat
}

/// The 96-bit GIAI value: header `0x34`, filter, partition, then company
/// prefix and asset reference in 82 bits.
pub open spec fn giai_value(f: Giai96, asset_bits: nat) -> nat {
    epc_top(0x34, f.filter as nat, f.partition as nat) * pow2(82) + (f.company_prefix as nat * pow2(
        asset_bits,
    ) + f.individual_asset_reference as nat)
}

/// What encoding SGTIN-96 fields gives: the first failed check, or the
/// twelve bytes.
pub open spec fn sgtin_encoding(f: Sgtin96) -> Result<Seq<u8>, ProtocolError> {
    match sgtin_layout(f.partition) {
        None => Err(ProtocolError::InvalidArgument("sgtin-96 partition must be in 0..=6")),
        Some((cb, cd, ib, id)) => if f.filter > 7 {
            Err(ProtocolError::InvalidArgument("sgtin-96 filter must be in 0..=7"))
        } else if f.serial >= pow2(38) {
            Err(ProtocolError::InvalidArgument("sgtin-96 serial must fit in 38 bits"))
        } else if f.company_prefix > pow10(cd) - 1 {
            Err(ProtocolError::InvalidArgument("sgtin-96 company prefix exceeds partition digit capacity"))
        } else if f.item_reference > pow10(id) - 1 {
            Err(ProtocolError::InvalidArgument("sgtin-96 item reference exceeds partition digit capacity"))
        } else if f.company_prefix > pow2(cb) - 1 {
            Err(ProtocolError::InvalidArgument("sgtin-96 company prefix exceeds partition bit capacity"))
        } else if f.item_reference > pow2(ib) - 1 {
            Err(ProtocolError::InvalidArgument("sgtin-96 item reference exceeds partition bit capacity"))
        } else {
            Ok(be_bytes(sgtin_value(f, ib), 12))
        },
    }
}

/// What encoding GIAI-96 fields gives: the first failed check, or the
/// twelve bytes.
pub open spec fn giai_encoding(f: Giai96) -> Result<Seq<u8>, ProtocolError> {
    match giai_layout(f.partition) {
        None => Err(ProtocolError::InvalidArgument("giai-96 partition must be in 0..=6")),
        Some((cb, cd, ab)) => if f.filter > 7 {
            Err(ProtocolError::InvalidArgument("giai-96 filter must be in 0..=7"))
        } else if f.company_prefix > pow10(cd) - 1 {
            Err(ProtocolError::InvalidArgument("giai-96 company prefix exceeds partition digit capacity"))
        } else if f.company_prefix > pow2(cb) - 1 {
            Err(ProtocolError::InvalidArgument("giai-96 company prefix exceeds partition bit capacity"))
        } else if f.individual_asset_reference > pow2(ab) - 1 {
            Err(
                ProtocolError::InvalidArgument(
                    "giai-96 individual asset reference exceeds partition bit capacity",
                ),
            )
        } else {
            Ok(be_bytes(giai_value(f, ab), 12))
        },
    }
}

/// What decoding twelve bytes as SGTIN-96 gives: the fields, or the first
/// failed check (length, header `0x30`, partition).
pub open spec fn sgtin_decoding(b: Seq<u8>) -> Result<Sgtin96, ProtocolError> {
    if b.len() != 12 {
        Err(ProtocolError::InvalidArgument("sgtin-96 requires exactly 12 EPC bytes"))
    } else {
        let v = be_value(b);
        let rest = v / pow2(38);
        let top = rest / pow2(44);
        if ((top / 8) / 8) % 256 != 0x30 {
            Err(ProtocolError::InvalidArgument("epc header is not sgtin-96 (expected 0x30)"))
        } else {
            match sgtin_layout((top % 8) as u8) {
                None => Err(ProtocolError::InvalidArgument("sgtin-96 partition must be in 0..=6")),
                Some((cb, _, ib, _)) => Ok(
                    Sgtin96 {
                        filter: ((top / 8) % 8) as u8,
                        partition: (top % 8) as u8,
                        company_prefix: ((rest / pow2(ib)) % pow2(cb)) as u64,
                        item_reference: (rest % pow2(ib)) as u64,
                        serial: (v % pow2(38)) as u64,
                    },
                ),
            }
        }
    }
}

/// What decoding twelve bytes as GIAI-96 gives: the fields, or the first
/// failed check (length, header `0x34`, partition).
pub open spec fn giai_decoding(b: Seq<u8>) -> Result<Giai96, ProtocolError> {
    if b.len() != 12 {
        Err(ProtocolError::InvalidArgument("giai-96 requires exactly 12 EPC bytes"))
    } else {
        let v = be_value(b);
        let top = v / pow2(82);
        if ((top / 8) / 8) % 256 != 0x34 {
            Err(ProtocolError::InvalidArgument("epc header is not giai-96 (expected 0x34)"))
        } else {
            match giai_layout((top % 8) as u8) {
                None => Err(ProtocolError::InvalidArgument("giai-96 partition must be in 0..=6")),
                Some((cb, _, ab)) => Ok(
                    Giai96 {
                        filter: ((top / 8) % 8) as u8,
                        partition: (top % 8) as u8,
                        company_prefix: ((v / pow2(ab)) % pow2(cb)) as u64,
                        individual_asset_reference: (v % pow2(ab)) as u64,
                    },
                ),
            }
        }
    }
}

/// `2^k` as an executable value.
fn pow2_u128(k: u32) -> (r: u128)
    requires
        k <= 96,
    ensures
        r == pow2(k as nat),
        r > 0,
{
    proof {
        lemma_pow2_96();
    }
    let mut r: u128 = 1;
    let mut i: u32 = 0;
    proof {
        lemma2_to64();
    }
    while i < k
        invariant
            i <= k <= 96,
            r == pow2(i as nat),
            pow2(96) == 0x1_0000_0000_0000_0000_0000_0000,
        decreases k - i,
    {
        proof {
            lemma_pow2_adds(i as nat, 1);
            lemma2_to64();
            if i + 1 < 96 {
                lemma_pow2_strictly_increases((i + 1) as nat, 96);
            }
        }
        r = r * 2;
        i = i + 1;
    }
    proof {
        lemma_pow2_pos(k as nat);
    }
    r
}

/// `2^96` as a number.
proof fn lemma_pow2_96()
    ensures
        pow2(96) == 0x1_0000_0000_0000_0000_0000_0000,
        pow2(38) == 0x40_0000_0000,
        pow2(44) == 0x1000_0000_0000,
        pow2(82) == 0x4_0000_0000_0000_0000_0000,
        pow2(8) == 256,
{
    lemma2_to64();
    lemma_pow2_adds(64, 32);
    lemma_pow2_adds(32, 6);
    lemma_pow2_adds(32, 12);
    lemma_pow2_adds(64, 18);
    lemma_pow2_adds(16, 2);
    lemma_pow2_adds(64, 18);
}

/// `10^digits - 1`, the largest value with that many decimal digits.
fn max_value_for_digits(digits: u8) -> (r: u64)
    requires
        digits <= 12,
    ensures
        r == pow10(digits as nat) - 1,
{
    let mut acc: u64 = 1;
    let mut i: u8 = 0;
    while i < digits
        invariant
            i <= digits <= 12,
            acc == pow10(i as nat),
            acc <= 1_000_000_000_000,
        decreases digits - i,
    {
        proof {
            lemma_pow10_le_12((i + 1) as nat);
        }
        acc = acc * 10;
        i = i + 1;
    }
    proof {
        lemma_pow10_le_12(digits as nat);
    }
    acc - 1
}

/// Powers of ten up to `10^12` are positive and at most `10^12`.
proof fn lemma_pow10_le_12(n: nat)
    requires
        n <= 12,
    ensures
        0 < pow10(n) <= 1_000_000_000_000,
    decreases 12 - n,
{
    if n < 12 {
        lemma_pow10_le_12(n + 1);
    } else {
        reveal_with_fuel(pow10, 13);
    }
}


impl Sgtin96 {
    /// Partition table lookup: `(company_bits, company_digits, item_bits,
    /// item_digits)`.
    pub(crate) fn partition_info(partition: u8) -> (r: Result<(u8, u8, u8, u8), ProtocolError>)
        ensures
            match sgtin_layout(partition) {
                Some((cb, cd, ib, id)) => (r matches Ok((a, b, c, d)) && a == cb && b == cd && c
                    == ib && d == id),
                None => r == Err::<(u8, u8, u8, u8), ProtocolError>(
                    ProtocolError::InvalidArgument("sgtin-96 partition must be in 0..=6"),
                ),
            },
    {
        match partition {
            0 => Ok((40, 12, 4, 1)),
            1 => Ok((37, 11, 7, 2)),
            2 => Ok((34, 10, 10, 3)),
            3 => Ok((30, 9, 14, 4)),
            4 => Ok((27, 8, 17, 5)),
            5 => Ok((24, 7, 20, 6)),
            6 => Ok((20, 6, 24, 7)),
            _ => Err(ProtocolError::InvalidArgument("sgtin-96 partition must be in 0..=6")),
        }
    }
}

impl Giai96 {
    /// Partition table lookup: `(company_bits, company_digits, asset_bits)`.
    pub(crate) fn partition_info(partition: u8) -> (r: Result<(u8, u8, u8), ProtocolError>)
        ensures
            match giai_layout(partition) {
                Some((cb, cd, ab)) => (r matches Ok((a, b, c)) && a == cb && b == cd && c == ab),
                None => r == Err::<(u8, u8, u8), ProtocolError>(
                    ProtocolError::InvalidArgument("giai-96 partition must be in 0..=6"),
                ),
            },
    {
        match partition {
            0 => Ok((40, 12, 42)),
            1 => Ok((37, 11, 45)),
            2 => Ok((34, 10, 48)),
            3 => Ok((30, 9, 52)),
            4 => Ok((27, 8, 55)),
            5 => Ok((24, 7, 58)),
            6 => Ok((20, 6, 62)),
            _ => Err(ProtocolError::InvalidArgument("giai-96 partition must be in 0..=6")),
        }
    }
}

/// The `n` big-endian bytes of `v`.
fn be_bytes_vec(v: u128, n: usize) -> (r: Vec<u8>)
    requires
        n <= 12,
    ensures
        r@ == be_bytes(v as nat, n as nat),
{
    let mut out: Vec<u8> = Vec::new();
    let mut i: usize = 0;
    while i < n
        invariant
            i <= n <= 12,
            out@ == be_bytes(v as nat, n as nat).subrange(0, i as int),
        decreases n - i,
    {
        let shift: u32 = (8 * (n - 1 - i)) as u32;
        let d = pow2_u128(shift);
        out.push(((v / d) % 256) as u8);
        i = i + 1;
    }
    out
}

/// The big-endian value of twelve bytes.
fn be_value_12(bytes: &[u8]) -> (r: u128)
    requires
        bytes@.len() == 12,
    ensures
        r == be_value(bytes@),
{
    let mut v: u128 = 0;
    let mut i: usize = 0;
    proof {
        lemma_pow2_96();
        lemma2_to64();
        assert(bytes@.subrange(0, 0) =~= Seq::<u8>::empty());
    }
    while i < 12
        invariant
            i <= 12,
            bytes@.len() == 12,
            v == be_value(bytes@.subrange(0, i as int)),
            v < pow2((8 * i) as nat),
            pow2(96) == 0x1_0000_0000_0000_0000_0000_0000,
            pow2(8) == 256,
        decreases 12 - i,
    {
        proof {
            assert(bytes@.subrange(0, i + 1).drop_last() =~= bytes@.subrange(0, i as int));
            lemma_pow2_adds((8 * i) as nat, 8);
            if i < 11 {
                lemma_pow2_strictly_increases((8 * i + 8) as nat, 96);
            }
            let p = pow2((8 * i) as nat);
            let b = bytes@[i as int];
            assert(v * 256 + b < p * 256) by (nonlinear_arith)
                requires
                    v < p,
                    b < 256,
            ;
        }
        v = v * 256 + bytes[i] as u128;
        i = i + 1;
    }
    assert(bytes@.subrange(0, 12) =~= bytes@);
    v
}

impl EpcValue {
    /// Create an EPC value from a typed schema struct.
    ///
    /// This is the single generic constructor for supported schema types,
    /// such as [`Sgtin96`] and [`Giai96`].
    pub fn from_schema<S: EpcSchema>(schema: S) -> (r: Result<Self, ProtocolError>)
        ensures
            match schema.encoding() {
                Ok(b) => (r matches Ok(v) && v@ == b),
                Err(e) => r == Err::<EpcValue, ProtocolError>(e),
            },
    {
        schema.encode()
    }

    /// Create an EPC value from raw bytes, refusing empty ones.
    pub fn new(bytes: Vec<u8>) -> (r: Result<Self, ProtocolError>)
        ensures
            bytes@.len() == 0 ==> r == Err::<EpcValue, ProtocolError>(
                ProtocolError::InvalidArgument("epc bytes cannot be empty"),
            ),
            bytes@.len() > 0 ==> (r matches Ok(v) && v@ == bytes@),
    {
        if bytes.len() == 0 {
            return Err(ProtocolError::InvalidArgument("epc bytes cannot be empty"));
        }
        Ok(EpcValue { bytes })
    }

    /// Create an EPC value from a byte slice.
    pub fn from_slice(bytes: &[u8]) -> (r: Result<Self, ProtocolError>)
        ensures
            bytes@.len() == 0 ==> r == Err::<EpcValue, ProtocolError>(
                ProtocolError::InvalidArgument("epc bytes cannot be empty"),
            ),
            bytes@.len() > 0 ==> (r matches Ok(v) && v@ == bytes@),
    {
        Self::new(vstd::slice::slice_to_vec(bytes))
    }

    /// Create an EPC value from the EPC ID of parsed tag data.
    pub fn from_tag(tag: &TagEpcAndMetaData) -> (r: Result<Self, ProtocolError>)
        ensures
            tag.epc_id@.len() == 0 ==> r == Err::<EpcValue, ProtocolError>(
                ProtocolError::InvalidArgument("epc bytes cannot be empty"),
            ),
            tag.epc_id@.len() > 0 ==> (r matches Ok(v) && v@ == tag.epc_id@),
    {
        Self::from_slice(tag.epc_id.as_slice())
    }

    /// Borrow raw EPC bytes.
    pub fn as_bytes(&self) -> (r: &[u8])
        ensures
            r@ == self@,
    {
        self.bytes.as_slice()
    }

    /// Consume and return raw EPC bytes.
    pub fn into_bytes(self) -> (r: Vec<u8>)
        ensures
            r@ == self@,
    {
        self.bytes
    }

    /// Encode SGTIN-96 fields, checking filter, partition, serial width and
    /// the digit and bit capacity of company prefix and item reference.
    fn encode_sgtin96(fields: Sgtin96) -> (r: Result<Self, ProtocolError>)
        ensures
            match sgtin_encoding(fields) {
                Ok(b) => (r matches Ok(v) && v@ == b),
                Err(e) => r == Err::<EpcValue, ProtocolError>(e),
            },
    {
        let (company_bits, company_digits, item_bits, item_digits) = match Sgtin96::partition_info(
            fields.partition,
        ) {
            Ok(t) => t,
            Err(e) => {
                return Err(e);
            },
        };
        if fields.filter > 0b111 {
            return Err(ProtocolError::InvalidArgument("sgtin-96 filter must be in 0..=7"));
        }
        let p38 = pow2_u128(38);
        if fields.serial as u128 >= p38 {
            return Err(ProtocolError::InvalidArgument("sgtin-96 serial must fit in 38 bits"));
        }
        let max_company_digits = max_value_for_digits(company_digits);
        let max_item_digits = max_value_for_digits(item_digits);
        if fields.company_prefix > max_company_digits {
            return Err(
                ProtocolError::InvalidArgument(
                    "sgtin-96 company prefix exceeds partition digit capacity",
                ),
            );
        }
        if fields.item_reference > max_item_digits {
            return Err(
                ProtocolError::InvalidArgument("sgtin-96 item reference exceeds partition digit capacity"),
            );
        }
        let company_scale = pow2_u128(company_bits as u32);
        let item_scale = pow2_u128(item_bits as u32);
        if fields.company_prefix as u128 > company_scale - 1 {
            return Err(
                ProtocolError::InvalidArgument("sgtin-96 company prefix exceeds partition bit capacity"),
            );
        }
        if fields.item_reference as u128 > item_scale - 1 {
            return Err(
                ProtocolError::InvalidArgument("sgtin-96 item reference exceeds partition bit capacity"),
            );
        }
        let p44 = pow2_u128(44);
        proof {
            lemma_pow2_96();
            lemma_pow2_adds(company_bits as nat, item_bits as nat);
            lemma_sgtin_value_bound(fields, company_bits as nat, item_bits as nat);
        }
        let top: u128 = (0x30 * 8 + fields.filter as u128) * 8 + fields.partition as u128;
        let low: u128 = fields.company_prefix as u128 * item_scale + fields.item_reference as u128;
        let value: u128 = (top * p44 + low) * p38 + fields.serial as u128;
        let out = be_bytes_vec(value, 12);
        Self::new(out)
    }

    /// Encode GIAI-96 fields, checking filter, partition and the digit and
    /// bit capacity of company prefix and asset reference.
    fn encode_giai96(fields: Giai96) -> (r: Result<Self, ProtocolError>)
        ensures
            match giai_encoding(fields) {
                Ok(b) => (r matches Ok(v) && v@ == b),
                Err(e) => r == Err::<EpcValue, ProtocolError>(e),
            },
    {
        let (company_bits, company_digits, asset_bits) = match Giai96::partition_info(
            fields.partition,
        ) {
            Ok(t) => t,
            Err(e) => {
                return Err(e);
            },
        };
        if fields.filter > 0b111 {
            return Err(ProtocolError::InvalidArgument("giai-96 filter must be in 0..=7"));
        }
        let max_company_digits = max_value_for_digits(company_digits);
        if fields.company_prefix > max_company_digits {
            return Err(
                ProtocolError::InvalidArgument("giai-96 company prefix exceeds partition digit capacity"),
            );
        }
        let company_scale = pow2_u128(company_bits as u32);
        if fields.company_prefix as u128 > company_scale - 1 {
            return Err(
                ProtocolError::InvalidArgument("giai-96 company prefix exceeds partition bit capacity"),
            );
        }
        let asset_scale = pow2_u128(asset_bits as u32);
        if fields.individual_asset_reference as u128 > asset_scale - 1 {
            return Err(
                ProtocolError::InvalidArgument(
                    "giai-96 individual asset reference exceeds partition bit capacity",
                ),
            );
        }
        let p82 = pow2_u128(82);
        proof {
            lemma_pow2_96();
            lemma_pow2_adds(company_bits as nat, asset_bits as nat);
            lemma_giai_value_bound(fields, company_bits as nat, asset_bits as nat);
        }
        let top: u128 = (0x34 * 8 + fields.filter as u128) * 8 + fields.partition as u128;
        let value: u128 = top * p82 + (fields.company_prefix as u128 * asset_scale
            + fields.individual_asset_reference as u128);
        let out = be_bytes_vec(value, 12);
        Self::new(out)
    }

    /// Decode this EPC value as SGTIN-96 fields.
    ///
    /// Returns an error when EPC length is not 12 bytes, the header is not
    /// `0x30` or the partition is not in `0..=6`.
    pub fn decode_sgtin96(&self) -> (r: Result<Sgtin96, ProtocolError>)
        ensures
            r == sgtin_decoding(self@),
    {
        if self.bytes.len() != 12 {
            return Err(ProtocolError::InvalidArgument("sgtin-96 requires exactly 12 EPC bytes"));
        }
        let v = be_value_12(self.bytes.as_slice());
        let p38 = pow2_u128(38);
        let p44 = pow2_u128(44);
        let rest = v / p38;
        let top = rest / p44;
        let header = ((top / 8) / 8) % 256;
        if header != 0x30 {
            return Err(ProtocolError::InvalidArgument("epc header is not sgtin-96 (expected 0x30)"));
        }
        let filter = ((top / 8) % 8) as u8;
        let partition = (top % 8) as u8;
        let (company_bits, _company_digits, item_bits, _item_digits) =
            match Sgtin96::partition_info(partition) {
            Ok(t) => t,
            Err(e) => {
                return Err(e);
            },
        };
        let company_scale = pow2_u128(company_bits as u32);
        let item_scale = pow2_u128(item_bits as u32);
        Ok(
            Sgtin96 {
                filter,
                partition,
                company_prefix: ((rest / item_scale) % company_scale) as u64,
                item_reference: (rest % item_scale) as u64,
                serial: (v % p38) as u64,
            },
        )
    }

    /// Decode this EPC value as GIAI-96 fields.
    ///
    /// Returns an error when EPC length is not 12 bytes, the header is not
    /// `0x34` or the partition is not in `0..=6`.
    pub fn decode_giai96(&self) -> (r: Result<Giai96, ProtocolError>)
        ensures
            r == giai_decoding(self@),
    {
        if self.bytes.len() != 12 {
            return Err(ProtocolError::InvalidArgument("giai-96 requires exactly 12 EPC bytes"));
        }
        let v = be_value_12(self.bytes.as_slice());
        let p82 = pow2_u128(82);
        let top = v / p82;
        let header = ((top / 8) / 8) % 256;
        if header != 0x34 {
            return Err(ProtocolError::InvalidArgument("epc header is not giai-96 (expected 0x34)"));
        }
        let filter = ((top / 8) % 8) as u8;
        let partition = (top % 8) as u8;
        let (company_bits, _company_digits, asset_bits) = match Giai96::partition_info(partition) {
            Ok(t) => t,
            Err(e) => {
                return Err(e);
            },
        };
        let company_scale = pow2_u128(company_bits as u32);
        let asset_scale = pow2_u128(asset_bits as u32);
        Ok(
            Giai96 {
                filter,
                partition,
                company_prefix: ((v / asset_scale) % company_scale) as u64,
                individual_asset_reference: (v % asset_scale) as u64,
            },
        )
    }
}

impl EpcSchema for Sgtin96 {
    open spec fn encoding(&self) -> Result<Seq<u8>, ProtocolError> {
        sgtin_encoding(*self)
    }

    /// Encode an SGTIN-96 payload to raw EPC bytes.
    ///
    /// Validation performed:
    /// - `filter` must be `0..=7`
    /// - `partition` must be `0..=6`
    /// - `serial` must fit in 38 bits
    /// - `company_prefix` and `item_reference` must fit both the partition
    ///   digit constraints and bit constraints
    fn encode(self) -> (r: Result<EpcValue, ProtocolError>) {
        EpcValue::encode_sgtin96(self)
    }
}

impl EpcSchema for Giai96 {
    open spec fn encoding(&self) -> Result<Seq<u8>, ProtocolError> {
        giai_encoding(*self)
    }

    /// Encode a GIAI-96 payload to raw EPC bytes.
    ///
    /// Validation performed:
    /// - `filter` must be `0..=7`
    /// - `partition` must be `0..=6`
    /// - `company_prefix` must fit partition digit/bit constraints
    /// - `individual_asset_reference` must fit partition bit constraints
    fn encode(self) -> (r: Result<EpcValue, ProtocolError>) {
        EpcValue::encode_giai96(self)
    }
}

/// The SGTIN value of fields within their bit widths stays below `2^94`.
proof fn lemma_sgtin_value_bound(f: Sgtin96, cb: nat, ib: nat)
    requires
        f.filter <= 7,
        f.partition <= 7,
        f.serial < pow2(38),
        f.company_prefix <= pow2(cb) - 1,
        f.item_reference <= pow2(ib) - 1,
        pow2(cb) * pow2(ib) == pow2(44),
        pow2(38) == 0x40_0000_0000,
        pow2(44) == 0x1000_0000_0000,
    ensures
        f.company_prefix * pow2(ib) + f.item_reference < pow2(44),
        sgtin_value(f, ib) < 0x4000_0000_0000_0000_0000_0000,
{
    let c = f.company_prefix as int;
    let i = f.item_reference as int;
    let pc = pow2(cb) as int;
    let pi = pow2(ib) as int;
    assert(c * pi + i < pc * pi) by (nonlinear_arith)
        requires
            0 <= c <= pc - 1,
            0 <= i <= pi - 1,
    ;
    let top = epc_top(0x30, f.filter as nat, f.partition as nat) as int;
    assert(top < 4096);
    let low = c * pi + i;
    assert((top * 0x1000_0000_0000 + low) * 0x40_0000_0000 + f.serial < 0x4000_0000_0000_0000_0000_0000)
        by (nonlinear_arith)
        requires
            0 <= top < 4096,
            0 <= low < 0x1000_0000_0000,
            0 <= f.serial < 0x40_0000_0000,
    ;
}

/// The GIAI value of fields within their bit widths stays below `2^94`.
proof fn lemma_giai_value_bound(f: Giai96, cb: nat, ab: nat)
    requires
        f.filter <= 7,
        f.partition <= 7,
        f.company_prefix <= pow2(cb) - 1,
        f.individual_asset_reference <= pow2(ab) - 1,
        pow2(cb) * pow2(ab) == pow2(82),
        pow2(82) == 0x4_0000_0000_0000_0000_0000,
    ensures
        f.company_prefix * pow2(ab) + f.individual_asset_reference < pow2(82),
        giai_value(f, ab) < 0x4000_0000_0000_0000_0000_0000,
{
    let c = f.company_prefix as int;
    let a = f.individual_asset_reference as int;
    let pc = pow2(cb) as int;
    let pa = pow2(ab) as int;
    assert(c * pa + a < pc * pa) by (nonlinear_arith)
        requires
            0 <= c <= pc - 1,
            0 <= a <= pa - 1,
    ;
    let top = epc_top(0x34, f.filter as nat, f.partition as nat) as int;
    assert(top < 4096);
    let low = c * pa + a;
    assert(top * 0x4_0000_0000_0000_0000_0000 + low < 0x4000_0000_0000_0000_0000_0000)
        by (nonlinear_arith)
        requires
            0 <= top < 4096,
            0 <= low < 0x4_0000_0000_0000_0000_0000,
    ;
}

/// Reading back the `n` big-endian bytes of `v` gives `v` modulo `2^(8n)`.
pub proof fn lemma_be_bytes_round_trip(v: nat, n: nat)
    ensures
        be_value(be_bytes(v, n)) == v % pow2(8 * n),
    decreases n,
{
    lemma2_to64();
    if n == 0 {
        assert(be_bytes(v, 0) =~= Seq::<u8>::empty());
    } else {
        let b = be_bytes(v, n);
        let m = (n - 1) as nat;
        lemma_be_bytes_round_trip(v / 256, m);
        assert forall|i: int| 0 <= i < m implies b.drop_last()[i] == be_bytes(v / 256, m)[i] by {
            let k = (8 * (m - 1 - i)) as nat;
            lemma_pow2_adds(8, k);
            lemma_pow2_pos(k);
            lemma_div_denominator(v as int, 256, pow2(k) as int);
            assert((8 * (n - 1 - i)) as nat == 8 + k);
        }
        assert(b.drop_last() =~= be_bytes(v / 256, m));
        assert(b.last() == ((v / pow2((8 * (n - 1 - (n - 1))) as nat)) % 256) as u8);
        assert((8 * (n - 1 - (n - 1))) as nat == 0);
        assert(v / 1 == v);
        assert(b.last() == (v % 256) as u8);
        lemma_pow2_pos(8 * m);
        lemma_mod_breakdown(v as int, 256, pow2(8 * m) as int);
        lemma_pow2_adds(8, 8 * m);
        assert(8 + 8 * m == 8 * n);
    }
}

/// Encoding valid SGTIN-96 fields and decoding the bytes gives the fields
/// back.
pub proof fn lemma_sgtin96_round_trip(f: Sgtin96)
    requires
        sgtin_encoding(f) is Ok,
    ensures
        sgtin_decoding(sgtin_encoding(f)->Ok_0) == Ok::<Sgtin96, ProtocolError>(f),
{
    let (cb, cd, ib, id) = sgtin_layout(f.partition)->Some_0;
    lemma_pow2_96();
    lemma_pow2_adds(cb, ib);
    lemma_sgtin_value_bound(f, cb, ib);
    let v = sgtin_value(f, ib);
    lemma_be_bytes_round_trip(v, 12);
    lemma_pow2_pos(ib);
    lemma_pow2_pos(cb);
    let p38 = pow2(38) as int;
    let p44 = pow2(44) as int;
    let pi = pow2(ib) as int;
    let pc = pow2(cb) as int;
    let top = epc_top(0x30, f.filter as nat, f.partition as nat) as int;
    let c = f.company_prefix as int;
    let i = f.item_reference as int;
    let low = c * pi + i;
    let rest = top * p44 + low;
    assert(v == rest * p38 + f.serial);
    assert(v < pow2(96));
    assert(v % pow2(96) == v) by {
        vstd::arithmetic::div_mod::lemma_small_mod(v, pow2(96));
    }
    lemma_fundamental_div_mod_converse(v as int, p38, rest, f.serial as int);
    lemma_fundamental_div_mod_converse(rest, p44, top, low);
    lemma_fundamental_div_mod_converse(top, 8, 0x30 * 8 + f.filter, f.partition as int);
    lemma_fundamental_div_mod_converse(0x30 * 8 + f.filter, 8, 0x30, f.filter as int);
    assert(rest == (top * pc + c) * pi + i) by (nonlinear_arith)
        requires
            rest == top * p44 + (c * pi + i),
            p44 == pc * pi,
    ;
    lemma_fundamental_div_mod_converse(rest, pi, top * pc + c, i);
    lemma_fundamental_div_mod_converse(top * pc + c, pc, top, c);
}

/// Encoding valid GIAI-96 fields and decoding the bytes gives the fields
/// back.
pub proof fn lemma_giai96_round_trip(f: Giai96)
    requires
        giai_encoding(f) is Ok,
    ensures
        giai_decoding(giai_encoding(f)->Ok_0) == Ok::<Giai96, ProtocolError>(f),
{
    let (cb, cd, ab) = giai_layout(f.partition)->Some_0;
    lemma_pow2_96();
    lemma_pow2_adds(cb, ab);
    lemma_giai_value_bound(f, cb, ab);
    let v = giai_value(f, ab);
    lemma_be_bytes_round_trip(v, 12);
    lemma_pow2_pos(ab);
    lemma_pow2_pos(cb);
    let p82 = pow2(82) as int;
    let pa = pow2(ab) as int;
    let pc = pow2(cb) as int;
    let top = epc_top(0x34, f.filter as nat, f.partition as nat) as int;
    let c = f.company_prefix as int;
    let a = f.individual_asset_reference as int;
    let low = c * pa + a;
    assert(v == top * p82 + low);
    assert(v % pow2(96) == v) by {
        vstd::arithmetic::div_mod::lemma_small_mod(v, pow2(96));
    }
    lemma_fundamental_div_mod_converse(v as int, p82, top, low);
    lemma_fundamental_div_mod_converse(top, 8, 0x34 * 8 + f.filter, f.partition as int);
    lemma_fundamental_div_mod_converse(0x34 * 8 + f.filter, 8, 0x34, f.filter as int);
    assert(v == (top * pc + c) * pa + a) by (nonlinear_arith)
        requires
            v == top * p82 + (c * pa + a),
            p82 == pc * pa,
    ;
    lemma_fundamental_div_mod_converse(v as int, pa, top * pc + c, a);
    lemma_fundamental_div_mod_converse(top * pc + c, pc, top, c);
}

/// The first byte of a value whose 14 top bits (of 96) are `top` is the
/// header held in `top`.
proof fn lemma_header_byte(v: nat, top: int, header: int, rest: int)
    requires
        v / pow2(82) == top,
        top == header * 64 + rest,
        0 <= rest < 64,
        0 <= header < 256,
    ensures
        be_bytes(v, 12)[0] == header,
{
    lemma2_to64();
    lemma_pow2_adds(82, 6);
    lemma_pow2_pos(82);
    lemma_div_denominator(v as int, pow2(82) as int, 64);
    lemma_fundamental_div_mod_converse(top, 64, header, rest);
    assert((8 * (12 - 1 - 0)) as nat == 88);
}

/// An encoded GIAI-96 value starts with header byte `0x34`, and the SGTIN-96
/// decoder refuses it for its header.
pub proof fn lemma_giai96_is_not_sgtin96(f: Giai96)
    requires
        giai_encoding(f) is Ok,
    ensures
        giai_encoding(f)->Ok_0[0] == 0x34,
        sgtin_decoding(giai_encoding(f)->Ok_0) == Err::<Sgtin96, ProtocolError>(
            ProtocolError::InvalidArgument("epc header is not sgtin-96 (expected 0x30)"),
        ),
{
    let (cb, cd, ab) = giai_layout(f.partition)->Some_0;
    lemma_pow2_96();
    lemma_pow2_adds(cb, ab);
    lemma_giai_value_bound(f, cb, ab);
    let v = giai_value(f, ab);
    lemma_be_bytes_round_trip(v, 12);
    assert(v % pow2(96) == v) by {
        vstd::arithmetic::div_mod::lemma_small_mod(v, pow2(96));
    }
    let p82 = pow2(82) as int;
    let top = epc_top(0x34, f.filter as nat, f.partition as nat) as int;
    let low = f.company_prefix * pow2(ab) + f.individual_asset_reference;
    lemma_fundamental_div_mod_converse(v as int, p82, top, low);
    lemma_header_byte(v, top, 0x34, f.filter * 8 + f.partition);
    lemma_pow2_adds(38, 44);
    lemma_pow2_pos(38);
    lemma_pow2_pos(44);
    lemma_div_denominator(v as int, pow2(38) as int, pow2(44) as int);
    lemma_fundamental_div_mod_converse(top, 8, 0x34 * 8 + f.filter, f.partition as int);
    lemma_fundamental_div_mod_converse(0x34 * 8 + f.filter, 8, 0x34, f.filter as int);
}

/// An encoded SGTIN-96 value starts with header byte `0x30`, and the GIAI-96
/// decoder refuses it for its header.
pub proof fn lemma_sgtin96_is_not_giai96(f: Sgtin96)
    requires
        sgtin_encoding(f) is Ok,
    ensures
        sgtin_encoding(f)->Ok_0[0] == 0x30,
        giai_decoding(sgtin_encoding(f)->Ok_0) == Err::<Giai96, ProtocolError>(
            ProtocolError::InvalidArgument("epc header is not giai-96 (expected 0x34)"),
        ),
{
    let (cb, cd, ib, id) = sgtin_layout(f.partition)->Some_0;
    lemma_pow2_96();
    lemma_pow2_adds(cb, ib);
    lemma_sgtin_value_bound(f, cb, ib);
    let v = sgtin_value(f, ib);
    lemma_be_bytes_round_trip(v, 12);
    assert(v % pow2(96) == v) by {
        vstd::arithmetic::div_mod::lemma_small_mod(v, pow2(96));
    }
    let p38 = pow2(38) as int;
    let p44 = pow2(44) as int;
    let top = epc_top(0x30, f.filter as nat, f.partition as nat) as int;
    let low = f.company_prefix * pow2(ib) + f.item_reference;
    let rest = top * p44 + low;
    lemma_fundamental_div_mod_converse(v as int, p38, rest, f.serial as int);
    lemma_fundamental_div_mod_converse(rest, p44, top, low);
    lemma_pow2_adds(38, 44);
    lemma_pow2_pos(38);
    lemma_pow2_pos(44);
    lemma_div_denominator(v as int, p38, p44);
    lemma_header_byte(v, top, 0x30, f.filter * 8 + f.partition);
    lemma_fundamental_div_mod_converse(top, 8, 0x30 * 8 + f.filter, f.partition as int);
    lemma_fundamental_div_mod_converse(0x30 * 8 + f.filter, 8, 0x30, f.filter as int);
}

/// Powers of ten up to `10^12`.
proof fn lemma_pow10_table()
    ensures
        pow10(1) == 10,
        pow10(2) == 100,
        pow10(3) == 1000,
        pow10(4) == 10000,
        pow10(5) == 100000,
        pow10(6) == 1000000,
        pow10(7) == 10000000,
        pow10(8) == 100000000,
        pow10(9) == 1000000000,
        pow10(10) == 10000000000,
        pow10(11) == 100000000000,
        pow10(12) == 1000000000000,
{
    reveal_with_fuel(pow10, 2);
    assert(pow10(0) == 1);
    assert(pow10(1) == 10);
    assert(pow10(2) == 100);
    assert(pow10(3) == 1000);
    assert(pow10(4) == 10000);
    assert(pow10(5) == 100000);
    assert(pow10(6) == 1000000);
    assert(pow10(7) == 10000000);
    assert(pow10(8) == 100000000);
    assert(pow10(9) == 1000000000);
    assert(pow10(10) == 10000000000);
    assert(pow10(11) == 100000000000);
    assert(pow10(12) == 1000000000000);
}

/// Powers of two from `2^3` to `2^40` that the partition tables use.
proof fn lemma_pow2_table()
    ensures
        pow2(3) == 8,
        pow2(4) == 16,
        pow2(6) == 64,
        pow2(7) == 128,
        pow2(9) == 512,
        pow2(10) == 1024,
        pow2(13) == 8192,
        pow2(14) == 16384,
        pow2(16) == 65536,
        pow2(17) == 131072,
        pow2(19) == 524288,
        pow2(20) == 1048576,
        pow2(23) == 8388608,
        pow2(24) == 16777216,
        pow2(26) == 67108864,
        pow2(27) == 134217728,
        pow2(29) == 536870912,
        pow2(30) == 1073741824,
        pow2(33) == 8589934592,
        pow2(34) == 17179869184,
        pow2(36) == 68719476736,
        pow2(37) == 137438953472,
        pow2(39) == 549755813888,
        pow2(40) == 1099511627776,
{
    lemma2_to64();
    vstd::arithmetic::power2::lemma2_to64_rest();
}

/// The SGTIN-96 partition table is the GS1 one: partitions `0..=6` exist;
/// partition `p` gives the company prefix `12 - p` decimal digits and the
/// item reference `p + 1`, each in the fewest bits that hold that many
/// digits, and the two share 44 bits.
pub proof fn lemma_sgtin_partition_table(p: u8)
    ensures
        sgtin_layout(p) is Some <==> p <= 6,
        sgtin_layout(p) matches Some((cb, cd, ib, id)) ==> (cd == 12 - p && id == p + 1 && cb
            + ib == 44 && 1 <= cb && pow2((cb - 1) as nat) < pow10(cd) && pow10(cd) <= pow2(cb)
            && 1 <= ib && pow2((ib - 1) as nat) < pow10(id) && pow10(id) <= pow2(ib)),
{
    lemma_pow10_table();
    lemma_pow2_table();
}

/// The GIAI-96 partition table is the GS1 one: partitions `0..=6` exist;
/// partition `p` gives the company prefix `12 - p` decimal digits in the
/// fewest bits that hold them, and the asset reference the rest of 82 bits.
pub proof fn lemma_giai_partition_table(p: u8)
    ensures
        giai_layout(p) is Some <==> p <= 6,
        giai_layout(p) matches Some((cb, cd, ab)) ==> (cd == 12 - p && cb + ab == 82 && 1 <= cb
            && pow2((cb - 1) as nat) < pow10(cd) && pow10(cd) <= pow2(cb)),
{
    lemma_pow10_table();
    lemma_pow2_table();
}

/// SGTIN-96 fields within the digit capacity of their partition encode: a
/// company prefix of at most `12 - p` digits, an item reference of at most
/// `p + 1` digits, a filter below 8 and a serial below `2^38`.
pub proof fn lemma_sgtin_digits_encode(f: Sgtin96)
    requires
        f.partition <= 6,
        f.filter <= 7,
        f.serial < pow2(38),
        f.company_prefix < pow10((12 - f.partition) as nat),
        f.item_reference < pow10((f.partition + 1) as nat),
    ensures
        sgtin_encoding(f) is Ok,
{
    lemma_sgtin_partition_table(f.partition);
}

/// A GIAI-96 company prefix of at most `12 - p` digits passes the checks of
/// partition `p`: with a filter below 8, the only encoding error left is an
/// asset reference too wide for its bits.
pub proof fn lemma_giai_digits_encode(f: Giai96)
    requires
        f.partition <= 6,
        f.filter <= 7,
        f.company_prefix < pow10((12 - f.partition) as nat),
    ensures
        giai_encoding(f) is Ok || giai_encoding(f) == Err::<Seq<u8>, ProtocolError>(
            ProtocolError::InvalidArgument(
                "giai-96 individual asset reference exceeds partition bit capacity",
            ),
        ),
{
    lemma_giai_partition_table(f.partition);
}

/// Where an SGTIN-96 encoding puts each field, reading the twelve bytes as
/// one big-endian 96-bit number `v`: the serial in the low 38 bits, then
/// the item reference in the partition's item bits, then the company prefix
/// in its company bits; the top 14 bits hold header `0x30`, the filter and
/// the partition.
pub proof fn lemma_sgtin96_bit_layout(f: Sgtin96)
    requires
        sgtin_encoding(f) is Ok,
    ensures
        ({
            let b = sgtin_encoding(f)->Ok_0;
            let v = be_value(b);
            let (cb, _, ib, _) = sgtin_layout(f.partition)->Some_0;
            &&& b.len() == 12
            &&& v % pow2(38) == f.serial
            &&& (v / pow2(38)) % pow2(ib) == f.item_reference
            &&& (v / pow2(38) / pow2(ib)) % pow2(cb) == f.company_prefix
            &&& v / pow2(82) == (0x30 * 8 + f.filter) * 8 + f.partition
        }),
{
    let (cb, cd, ib, id) = sgtin_layout(f.partition)->Some_0;
    lemma_sgtin96_round_trip(f);
    lemma_pow2_96();
    lemma_pow2_adds(cb, ib);
    lemma_sgtin_value_bound(f, cb, ib);
    let v = sgtin_value(f, ib);
    lemma_be_bytes_round_trip(v, 12);
    assert(v % pow2(96) == v) by {
        vstd::arithmetic::div_mod::lemma_small_mod(v, pow2(96));
    }
    let p38 = pow2(38) as int;
    let p44 = pow2(44) as int;
    let top = epc_top(0x30, f.filter as nat, f.partition as nat) as int;
    let low = f.company_prefix * pow2(ib) + f.item_reference;
    let rest = top * p44 + low;
    lemma_fundamental_div_mod_converse(v as int, p38, rest, f.serial as int);
    lemma_fundamental_div_mod_converse(rest, p44, top, low);
    lemma_pow2_adds(38, 44);
    lemma_pow2_pos(38);
    lemma_pow2_pos(44);
    lemma_div_denominator(v as int, p38, p44);
    lemma_pow2_pos(ib);
    lemma_pow2_pos(cb);
    let pi = pow2(ib) as int;
    let pc = pow2(cb) as int;
    let c = f.company_prefix as int;
    let i = f.item_reference as int;
    assert(rest == (top * pc + c) * pi + i) by (nonlinear_arith)
        requires
            rest == top * p44 + (c * pi + i),
            p44 == pc * pi,
    ;
    lemma_fundamental_div_mod_converse(rest, pi, top * pc + c, i);
    lemma_fundamental_div_mod_converse(top * pc + c, pc, top, c);
}

/// Where a GIAI-96 encoding puts each field, reading the twelve bytes as
/// one big-endian 96-bit number `v`: the asset reference in the partition's
/// asset bits, then the company prefix in its company bits; the top 14 bits
/// hold header `0x34`, the filter and the partition.
pub proof fn lemma_giai96_bit_layout(f: Giai96)
    requires
        giai_encoding(f) is Ok,
    ensures
        ({
            let b = giai_encoding(f)->Ok_0;
            let v = be_value(b);
            let (cb, _, ab) = giai_layout(f.partition)->Some_0;
            &&& b.len() == 12
            &&& v % pow2(ab) == f.individual_asset_reference
            &&& (v / pow2(ab)) % pow2(cb) == f.company_prefix
            &&& v / pow2(82) == (0x34 * 8 + f.filter) * 8 + f.partition
        }),
{
    lemma_giai96_round_trip(f);
    let (cb, cd, ab) = giai_layout(f.partition)->Some_0;
    lemma_pow2_96();
    lemma_pow2_adds(cb, ab);
    lemma_giai_value_bound(f, cb, ab);
    let v = giai_value(f, ab);
    lemma_be_bytes_round_trip(v, 12);
    assert(v % pow2(96) == v) by {
        vstd::arithmetic::div_mod::lemma_small_mod(v, pow2(96));
    }
    let top = epc_top(0x34, f.filter as nat, f.partition as nat) as int;
    let low = f.company_prefix * pow2(ab) + f.individual_asset_reference;
    lemma_fundamental_div_mod_converse(v as int, pow2(82) as int, top, low);
    lemma_pow2_pos(ab);
    lemma_pow2_pos(cb);
    let pa = pow2(ab) as int;
    let pc = pow2(cb) as int;
    let p82 = pow2(82) as int;
    let c = f.company_prefix as int;
    let a = f.individual_asset_reference as int;
    assert(v == (top * pc + c) * pa + a) by (nonlinear_arith)
        requires
            v == top * p82 + (c * pa + a),
            p82 == pc * pa,
    ;
    lemma_fundamental_div_mod_converse(v as int, pa, top * pc + c, a);
    lemma_fundamental_div_mod_converse(top * pc + c, pc, top, c);
}

} // verus!
