//! EPC URIs: Tag URIs (`urn:epc:tag:...`, with the filter value) and Pure
//! Identity URIs (`urn:epc:id:...`, without it), for the typed schemes and
//! for custom schemes with percent-encoded values.
//!
//! Every string here is specified by its UTF-8 bytes.

use vstd::prelude::*;
use vstd::string::StringSliceAdditionalSpecFns;
use vstd::utf8::{encode_utf8, valid_utf8};

use crate::bytes::extend_bytes;
use crate::epc::{
    giai_layout, lemma_giai_partition_table, lemma_sgtin_partition_table, sgtin_layout, EpcValue,
    Giai96, Sgtin96,
};
use crate::error::ProtocolError;
use crate::text::{
    all_ascii, ascii_to_string, decimal, digits_value, hex_upper, lemma_ascii_concat,
    lemma_ascii_literal, lemma_decimal_ascii, lemma_decimal_value, lemma_hex_upper_ascii,
    lemma_zero_padded_ascii, lemma_zero_padded_value, pow10, push_decimal, push_hex_upper,
    push_zero_padded, zero_padded,
};

verus! {

/// The byte `.`.
pub const DOT: u8 = 0x2E;

/// The byte `:`.
pub const COLON: u8 = 0x3A;

/// The SGTIN-96 Tag URI of `f`: scheme `sgtin-96`, then filter, zero-padded
/// company prefix, zero-padded item reference and serial, separated by dots;
/// or the partition error.
pub open spec fn sgtin_tag_uri(f: Sgtin96) -> Result<Seq<u8>, ProtocolError> {
    match sgtin_layout(f.partition) {
        None => Err(ProtocolError::InvalidArgument("sgtin-96 partition must be in 0..=6")),
        Some((_, cd, _, id)) => Ok(
            "urn:epc:tag:sgtin-96:".spec_bytes() + decimal(f.filter as nat) + seq![DOT]
                + zero_padded(f.company_prefix as nat, cd) + seq![DOT] + zero_padded(
                f.item_reference as nat,
                id,
            ) + seq![DOT] + decimal(f.serial as nat),
        ),
    }
}

/// The SGTIN Pure Identity URI of `f`: the Tag URI's fields without the
/// filter.
pub open spec fn sgtin_pure_uri(f: Sgtin96) -> Result<Seq<u8>, ProtocolError> {
    match sgtin_layout(f.partition) {
        None => Err(ProtocolError::InvalidArgument("sgtin-96 partition must be in 0..=6")),
        Some((_, cd, _, id)) => Ok(
            "urn:epc:id:sgtin:".spec_bytes() + zero_padded(f.company_prefix as nat, cd) + seq![DOT]
                + zero_padded(f.item_reference as nat, id) + seq![DOT] + decimal(f.serial as nat),
        ),
    }
}

/// The GIAI-96 Tag URI of `f`: scheme `giai-96`, then filter, zero-padded
/// company prefix and asset reference, separated by dots; or the partition
/// error.
pub open spec fn giai_tag_uri(f: Giai96) -> Result<Seq<u8>, ProtocolError> {
    match giai_layout(f.partition) {
        None => Err(ProtocolError::InvalidArgument("giai-96 partition must be in 0..=6")),
        Some((_, cd, _)) => Ok(
            "urn:epc:tag:giai-96:".spec_bytes() + decimal(f.filter as nat) + seq![DOT]
                + zero_padded(f.company_prefix as nat, cd) + seq![DOT] + decimal(
                f.individual_asset_reference as nat,
            ),
        ),
    }
}

/// The GIAI Pure Identity URI of `f`: the Tag URI's fields without the
/// filter.
pub open spec fn giai_pure_uri(f: Giai96) -> Result<Seq<u8>, ProtocolError> {
    match giai_layout(f.partition) {
        None => Err(ProtocolError::InvalidArgument("giai-96 partition must be in 0..=6")),
        Some((_, cd, _)) => Ok(
            "urn:epc:id:giai:".spec_bytes() + zero_padded(f.company_prefix as nat, cd) + seq![DOT]
                + decimal(f.individual_asset_reference as nat),
        ),
    }
}

/// The UTF-8 bytes of a string result, when it is one.
pub open spec fn utf8_result(r: Result<String, ProtocolError>, expected: Result<Seq<u8>, ProtocolError>) -> bool {
    match expected {
        Ok(b) => (r matches Ok(s) && encode_utf8(s@) == b),
        Err(e) => r == Err::<String, ProtocolError>(e),
    }
}


/// An ASCII letter or digit.
pub open spec fn is_alnum(b: u8) -> bool {
    (0x30 <= b <= 0x39) || (0x41 <= b <= 0x5A) || (0x61 <= b <= 0x7A)
}

/// A byte that stands for itself in a URI component: a letter, a digit, or
/// one of `-`, `.`, `_`, `~`.
pub open spec fn is_unreserved(b: u8) -> bool {
    is_alnum(b) || b == 0x2D || b == 0x2E || b == 0x5F || b == 0x7E
}

/// Percent-encoding of the bytes of a URI component: unreserved bytes as
/// they are, every other byte as `%` and two uppercase hexadecimal digits.
pub open spec fn pct_encode(b: Seq<u8>) -> Seq<u8>
    decreases b.len(),
{
    if b.len() == 0 {
        Seq::empty()
    } else {
        pct_encode(b.drop_last()) + if is_unreserved(b.last()) {
            seq![b.last()]
        } else {
            seq![0x25u8, crate::text::hex_digit(b.last() as nat / 16), crate::text::hex_digit(b.last() as nat % 16)]
        }
    }
}

/// The parts joined with `.` between each two.
pub open spec fn join_dots(parts: Seq<Seq<u8>>) -> Seq<u8>
    decreases parts.len(),
{
    if parts.len() == 0 {
        Seq::empty()
    } else if parts.len() == 1 {
        parts[0]
    } else {
        join_dots(parts.drop_last()) + seq![DOT] + parts.last()
    }
}

/// The value of a hexadecimal digit, either case.
pub open spec fn hex_value(b: u8) -> Option<u8> {
    if 0x30 <= b <= 0x39 {
        Some((b - 0x30) as u8)
    } else if 0x61 <= b <= 0x66 {
        Some((b - 0x61 + 10) as u8)
    } else if 0x41 <= b <= 0x46 {
        Some((b - 0x41 + 10) as u8)
    } else {
        None
    }
}

/// Percent-decoding of `b` from index `i`: each `%` must be followed by two
/// hexadecimal digits, which stand for one byte.
pub open spec fn pct_decode_from(b: Seq<u8>, i: int) -> Option<Seq<u8>>
    decreases b.len() - i,
{
    if i >= b.len() || i < 0 {
        Some(Seq::empty())
    } else if b[i] == 0x25 {
        if i + 2 >= b.len() {
            None
        } else {
            match (hex_value(b[i + 1]), hex_value(b[i + 2])) {
                (Some(hi), Some(lo)) => match pct_decode_from(b, i + 3) {
                    Some(rest) => Some(seq![(hi * 16 + lo) as u8] + rest),
                    None => None,
                },
                _ => None,
            }
        }
    } else {
        match pct_decode_from(b, i + 1) {
            Some(rest) => Some(seq![b[i]] + rest),
            None => None,
        }
    }
}

/// The text bytes of a percent-encoded URI component: its decoding, which
/// must be valid UTF-8.
pub open spec fn component_text(b: Seq<u8>) -> Result<Seq<u8>, ProtocolError> {
    match pct_decode_from(b, 0) {
        None => Err(ProtocolError::InvalidArgument("invalid percent encoding in EPC URI component")),
        Some(d) => if valid_utf8(d) {
            Ok(d)
        } else {
            Err(ProtocolError::InvalidArgument("EPC URI component is not UTF-8"))
        },
    }
}

/// A letter, a digit or `-`.
pub open spec fn is_scheme_byte(b: u8) -> bool {
    is_alnum(b) || b == 0x2D
}

/// Why the UTF-8 bytes `b` are no tag scheme, or `None` when they are one:
/// a non-empty run of letters, digits and `-`.
pub open spec fn scheme_error(b: Seq<u8>) -> Option<ProtocolError> {
    if b.len() == 0 {
        Some(ProtocolError::InvalidArgument("tag_scheme cannot be empty"))
    } else if exists|i: int| 0 <= i < b.len() && !is_scheme_byte(#[trigger] b[i]) {
        Some(ProtocolError::InvalidArgument("tag_scheme must contain only [A-Za-z0-9-]"))
    } else {
        None
    }
}

/// The custom Tag URI of a scheme and values: `urn:epc:tag:`, the scheme,
/// `:`, then the percent-encoded values joined by `.`; or the first failed
/// check (scheme, no values, an empty value).
pub open spec fn custom_tag_uri(scheme: Seq<u8>, values: Seq<Seq<u8>>) -> Result<Seq<u8>, ProtocolError> {
    match scheme_error(scheme) {
        Some(e) => Err(e),
        None => if values.len() == 0 {
            Err(ProtocolError::InvalidArgument("custom EPC Tag URI must include at least one value"))
        } else if exists|i: int| 0 <= i < values.len() && (#[trigger] values[i]).len() == 0 {
            Err(ProtocolError::InvalidArgument("custom EPC Tag URI values cannot be empty"))
        } else {
            Ok(
                "urn:epc:tag:".spec_bytes() + scheme + seq![COLON] + join_dots(
                    values.map_values(|v: Seq<u8>| pct_encode(v)),
                ),
            )
        },
    }
}

/// The UTF-8 bytes of each string.
pub open spec fn str_bytes(v: Seq<&str>) -> Seq<Seq<u8>> {
    v.map_values(|s: &str| s.spec_bytes())
}

/// The UTF-8 bytes of each owned string.
pub open spec fn string_bytes(v: Seq<String>) -> Seq<Seq<u8>> {
    v.map_values(|s: String| encode_utf8(s@))
}

/// The bytes of each byte vector.
pub open spec fn vec_bytes(v: Seq<Vec<u8>>) -> Seq<Seq<u8>> {
    v.map_values(|b: Vec<u8>| b@)
}

/// The first index at or after `start` where `x` occurs in `b`.
pub open spec fn first_index_from(b: Seq<u8>, start: int, x: u8) -> Option<int>
    decreases b.len() - start,
{
    if start < 0 || start >= b.len() {
        None
    } else if b[start] == x {
        Some(start)
    } else {
        first_index_from(b, start + 1, x)
    }
}

/// A found index lies between `start` and the end, holds `x`, and nothing
/// before it from `start` on does.
pub proof fn lemma_first_index_bounds(b: Seq<u8>, start: int, x: u8)
    ensures
        first_index_from(b, start, x) matches Some(k) ==> start <= k < b.len() && b[k] == x
            && forall|j: int| start <= j < k ==> b[j] != x,
        first_index_from(b, start, x) is None ==> forall|j: int|
            0 <= start <= j < b.len() ==> b[j] != x,
    decreases b.len() - start,
{
    if 0 <= start < b.len() && b[start] != x {
        lemma_first_index_bounds(b, start + 1, x);
    }
}

/// The last index before `end` where `x` occurs in `b`.
pub open spec fn last_index_before(b: Seq<u8>, end: int, x: u8) -> Option<int>
    decreases end,
{
    if end <= 0 || end > b.len() {
        None
    } else if b[end - 1] == x {
        Some(end - 1)
    } else {
        last_index_before(b, end - 1, x)
    }
}

/// The decoded components of `b` from `start` on, split at every `.`: each
/// must be non-empty and decode to UTF-8 text; the first one that does not
/// gives the error.
pub open spec fn components_from(b: Seq<u8>, start: int) -> Result<Seq<Seq<u8>>, ProtocolError>
    decreases b.len() - start,
{
    if start < 0 || start > b.len() {
        Ok(Seq::empty())
    } else {
        let end = match first_index_from(b, start, DOT) {
            Some(k) => k,
            None => b.len() as int,
        };
        let c = b.subrange(start, end);
        if c.len() == 0 {
            Err(ProtocolError::InvalidArgument("EPC Tag URI values cannot contain empty components"))
        } else {
            match component_text(c) {
                Err(e) => Err(e),
                Ok(d) => if end == b.len() {
                    Ok(seq![d])
                } else {
                    proof {
                        lemma_first_index_bounds(b, start, DOT);
                    }
                    match components_from(b, end + 1) {
                        Ok(ds) => Ok(seq![d] + ds),
                        Err(e) => Err(e),
                    }
                },
            }
        }
    }
}

/// What parsing a custom Tag URI gives: the scheme bytes and the decoded
/// value bytes, or the first failed check (prefix `urn:epc:tag:`, a `:`
/// after the scheme, the scheme, a non-empty value section, each value).
pub open spec fn parsed_tag_uri(b: Seq<u8>) -> Result<(Seq<u8>, Seq<Seq<u8>>), ProtocolError> {
    let prefix = "urn:epc:tag:".spec_bytes();
    if !(b.len() >= prefix.len() && b.subrange(0, prefix.len() as int) == prefix) {
        Err(ProtocolError::InvalidArgument("EPC Tag URI must start with 'urn:epc:tag:'"))
    } else {
        let body = b.subrange(prefix.len() as int, b.len() as int);
        match first_index_from(body, 0, COLON) {
            None => Err(ProtocolError::InvalidArgument("EPC Tag URI is missing value section")),
            Some(k) => {
                let scheme = body.subrange(0, k);
                let value_part = body.subrange(k + 1, body.len() as int);
                match scheme_error(scheme) {
                    Some(e) => Err(e),
                    None => if value_part.len() == 0 {
                        Err(ProtocolError::InvalidArgument("EPC Tag URI values cannot be empty"))
                    } else {
                        match components_from(value_part, 0) {
                            Ok(vs) => Ok((scheme, vs)),
                            Err(e) => Err(e),
                        }
                    },
                }
            },
        }
    }
}

/// All bytes are ASCII digits.
pub open spec fn all_digits(b: Seq<u8>) -> bool {
    forall|i: int| 0 <= i < b.len() ==> 0x30 <= #[trigger] b[i] <= 0x39
}

/// The identity scheme of a tag scheme: the part before its last `-` when
/// that part is not empty and only digits follow (`sgtin-96` gives
/// `sgtin`), else the whole scheme.
pub open spec fn identity_scheme(s: Seq<u8>) -> Seq<u8> {
    match last_index_before(s, s.len() as int, 0x2D) {
        Some(k) => if k > 0 && all_digits(s.subrange(k + 1, s.len() as int)) {
            s.subrange(0, k)
        } else {
            s
        },
        None => s,
    }
}

/// The Pure Identity URI of a Tag URI: `urn:epc:id:`, the identity scheme,
/// `:`, then the decoded values after the first (the filter) joined by `.`.
pub open spec fn pure_identity_of_tag_uri(b: Seq<u8>) -> Result<Seq<u8>, ProtocolError> {
    match parsed_tag_uri(b) {
        Err(e) => Err(e),
        Ok((scheme, values)) => if values.len() < 2 {
            Err(ProtocolError::InvalidArgument("EPC Tag URI must include filter and identity values"))
        } else {
            Ok(
                "urn:epc:id:".spec_bytes() + identity_scheme(scheme) + seq![COLON] + join_dots(
                    values.drop_first(),
                ),
            )
        },
    }
}

impl Sgtin96 {
    /// Build an EPC Tag URI (`urn:epc:tag:sgtin-96`) for this decoded SGTIN-96 value.
    pub fn to_tag_uri(self) -> (r: Result<String, ProtocolError>)
        ensures
            utf8_result(r, sgtin_tag_uri(self)),
    {
        let (_, company_digits, _, item_digits) = match Sgtin96::partition_info(self.partition) {
            Ok(t) => t,
            Err(e) => {
                return Err(e);
            },
        };
        let mut out: Vec<u8> = Vec::new();
        let prefix = "urn:epc:tag:sgtin-96:";
        proof {
            reveal_strlit("urn:epc:tag:sgtin-96:");
            lemma_ascii_literal(prefix);
        }
        extend_bytes(&mut out, prefix.as_bytes());
        push_decimal(&mut out, self.filter as u64);
        out.push(DOT);
        push_zero_padded(&mut out, self.company_prefix, company_digits as usize);
        out.push(DOT);
        push_zero_padded(&mut out, self.item_reference, item_digits as usize);
        out.push(DOT);
        push_decimal(&mut out, self.serial);
        proof {
            broadcast use lemma_ascii_concat;

            lemma_decimal_ascii(self.filter as nat);
            lemma_decimal_ascii(self.serial as nat);
            lemma_zero_padded_ascii(self.company_prefix as nat, company_digits as nat);
            lemma_zero_padded_ascii(self.item_reference as nat, item_digits as nat);
            assert(all_ascii(seq![DOT]));
        }
        assert(out@ =~= sgtin_tag_uri(self)->Ok_0);
        Ok(ascii_to_string(out))
    }

    /// Build an EPC Pure Identity URI (`urn:epc:id:sgtin`) for this SGTIN-96 value.
    pub fn to_pure_identity_uri(self) -> (r: Result<String, ProtocolError>)
        ensures
            utf8_result(r, sgtin_pure_uri(self)),
    {
        let (_, company_digits, _, item_digits) = match Sgtin96::partition_info(self.partition) {
            Ok(t) => t,
            Err(e) => {
                return Err(e);
            },
        };
        let mut out: Vec<u8> = Vec::new();
        let prefix = "urn:epc:id:sgtin:";
        proof {
            reveal_strlit("urn:epc:id:sgtin:");
            lemma_ascii_literal(prefix);
        }
        extend_bytes(&mut out, prefix.as_bytes());
        push_zero_padded(&mut out, self.company_prefix, company_digits as usize);
        out.push(DOT);
        push_zero_padded(&mut out, self.item_reference, item_digits as usize);
        out.push(DOT);
        push_decimal(&mut out, self.serial);
        proof {
            broadcast use lemma_ascii_concat;

            lemma_decimal_ascii(self.serial as nat);
            lemma_zero_padded_ascii(self.company_prefix as nat, company_digits as nat);
            lemma_zero_padded_ascii(self.item_reference as nat, item_digits as nat);
            assert(all_ascii(seq![DOT]));
        }
        assert(out@ =~= sgtin_pure_uri(self)->Ok_0);
        Ok(ascii_to_string(out))
    }
}

impl Giai96 {
    /// Build an EPC Tag URI (`urn:epc:tag:giai-96`) for this decoded GIAI-96 value.
    pub fn to_tag_uri(self) -> (r: Result<String, ProtocolError>)
        ensures
            utf8_result(r, giai_tag_uri(self)),
    {
        let (_, company_digits, _) = match Giai96::partition_info(self.partition) {
            Ok(t) => t,
            Err(e) => {
                return Err(e);
            },
        };
        let mut out: Vec<u8> = Vec::new();
        let prefix = "urn:epc:tag:giai-96:";
        proof {
            reveal_strlit("urn:epc:tag:giai-96:");
            lemma_ascii_literal(prefix);
        }
        extend_bytes(&mut out, prefix.as_bytes());
        push_decimal(&mut out, self.filter as u64);
        out.push(DOT);
        push_zero_padded(&mut out, self.company_prefix, company_digits as usize);
        out.push(DOT);
        push_decimal(&mut out, self.individual_asset_reference);
        proof {
            broadcast use lemma_ascii_concat;

            lemma_decimal_ascii(self.filter as nat);
            lemma_decimal_ascii(self.individual_asset_reference as nat);
            lemma_zero_padded_ascii(self.company_prefix as nat, company_digits as nat);
            assert(all_ascii(seq![DOT]));
        }
        assert(out@ =~= giai_tag_uri(self)->Ok_0);
        Ok(ascii_to_string(out))
    }

    /// Build an EPC Pure Identity URI (`urn:epc:id:giai`) for this GIAI-96 value.
    pub fn to_pure_identity_uri(self) -> (r: Result<String, ProtocolError>)
        ensures
            utf8_result(r, giai_pure_uri(self)),
    {
        let (_, company_digits, _) = match Giai96::partition_info(self.partition) {
            Ok(t) => t,
            Err(e) => {
                return Err(e);
            },
        };
        let mut out: Vec<u8> = Vec::new();
        let prefix = "urn:epc:id:giai:";
        proof {
            reveal_strlit("urn:epc:id:giai:");
            lemma_ascii_literal(prefix);
        }
        extend_bytes(&mut out, prefix.as_bytes());
        push_zero_padded(&mut out, self.company_prefix, company_digits as usize);
        out.push(DOT);
        push_decimal(&mut out, self.individual_asset_reference);
        proof {
            broadcast use lemma_ascii_concat;

            lemma_decimal_ascii(self.individual_asset_reference as nat);
            lemma_zero_padded_ascii(self.company_prefix as nat, company_digits as nat);
            assert(all_ascii(seq![DOT]));
        }
        assert(out@ =~= giai_pure_uri(self)->Ok_0);
        Ok(ascii_to_string(out))
    }
}

impl EpcValue {
    /// Render EPC bytes as uppercase hexadecimal.
    pub fn to_hex(&self) -> (r: String)
        ensures
            encode_utf8(r@) == hex_upper(self@),
    {
        let mut out: Vec<u8> = Vec::new();
        push_hex_upper(&mut out, self.as_bytes());
        proof {
            lemma_hex_upper_ascii(self@);
            assert(out@ =~= hex_upper(self@));
        }
        ascii_to_string(out)
    }
}


/// Whether `b` stands for itself in a URI component.
fn is_unreserved_uri_byte(b: u8) -> (r: bool)
    ensures
        r == is_unreserved(b),
{
    (0x30 <= b && b <= 0x39) || (0x41 <= b && b <= 0x5A) || (0x61 <= b && b <= 0x7A) || b == 0x2D
        || b == 0x2E || b == 0x5F || b == 0x7E
}

/// Append the percent-encoding of `component`.
fn percent_encode_component(out: &mut Vec<u8>, component: &[u8])
    ensures
        final(out)@ == old(out)@ + pct_encode(component@),
{
    let mut i: usize = 0;
    assert(component@.subrange(0, 0) =~= Seq::<u8>::empty());
    while i < component.len()
        invariant
            i <= component@.len(),
            out@ == old(out)@ + pct_encode(component@.subrange(0, i as int)),
        decreases component@.len() - i,
    {
        let b = component[i];
        if is_unreserved_uri_byte(b) {
            out.push(b);
        } else {
            out.push(0x25);
            out.push(crate::text::hex_digit_byte(b / 16));
            out.push(crate::text::hex_digit_byte(b % 16));
        }
        assert(component@.subrange(0, i + 1).drop_last() =~= component@.subrange(0, i as int));
        assert(out@ =~= old(out)@ + pct_encode(component@.subrange(0, i + 1)));
        i = i + 1;
    }
    assert(component@.subrange(0, component@.len() as int) =~= component@);
}

/// The value of a hexadecimal digit, either case.
fn hex_nibble(byte: u8) -> (r: Option<u8>)
    ensures
        r == hex_value(byte),
{
    if 0x30 <= byte && byte <= 0x39 {
        Some(byte - 0x30)
    } else if 0x61 <= byte && byte <= 0x66 {
        Some(byte - 0x61 + 10)
    } else if 0x41 <= byte && byte <= 0x46 {
        Some(byte - 0x41 + 10)
    } else {
        None
    }
}

/// Decode one percent-encoded URI component into text.
fn percent_decode_component(component: &[u8]) -> (r: Result<String, ProtocolError>)
    ensures
        utf8_result(r, component_text(component@)),
{
    let ghost c = component@;
    let mut out: Vec<u8> = Vec::new();
    let mut i: usize = 0;
    while i < component.len()
        invariant
            i <= c.len(),
            c == component@,
            match pct_decode_from(c, i as int) {
                Some(rest) => pct_decode_from(c, 0) == Some(out@ + rest),
                None => pct_decode_from(c, 0) is None,
            },
        decreases c.len() - i,
    {
        if component[i] == 0x25 {
            if component.len() - i <= 2 {
                return Err(
                    ProtocolError::InvalidArgument("invalid percent encoding in EPC URI component"),
                );
            }
            let hi = match hex_nibble(component[i + 1]) {
                Some(v) => v,
                None => {
                    return Err(
                        ProtocolError::InvalidArgument(
                            "invalid percent encoding in EPC URI component",
                        ),
                    );
                },
            };
            let lo = match hex_nibble(component[i + 2]) {
                Some(v) => v,
                None => {
                    return Err(
                        ProtocolError::InvalidArgument(
                            "invalid percent encoding in EPC URI component",
                        ),
                    );
                },
            };
            let ghost before = out@;
            out.push(hi * 16 + lo);
            proof {
                match pct_decode_from(c, i + 3) {
                    Some(rest) => {
                        assert(before + (seq![(hi * 16 + lo) as u8] + rest) =~= out@ + rest);
                    },
                    None => {},
                }
            }
            i = i + 3;
        } else {
            let ghost before = out@;
            out.push(component[i]);
            proof {
                match pct_decode_from(c, i + 1) {
                    Some(rest) => {
                        assert(before + (seq![c[i as int]] + rest) =~= out@ + rest);
                    },
                    None => {},
                }
            }
            i = i + 1;
        }
    }
    assert(out@ + Seq::<u8>::empty() =~= out@);
    let ghost decoded = out@;
    match crate::text::string_from_utf8(out) {
        Some(s) => {
            proof {
                vstd::utf8::decode_utf8_encode_utf8(decoded);
            }
            Ok(s)
        },
        None => Err(ProtocolError::InvalidArgument("EPC URI component is not UTF-8")),
    }
}

/// Check that `scheme` is a non-empty run of letters, digits and `-`.
fn validate_tag_scheme(scheme: &[u8]) -> (r: Result<(), ProtocolError>)
    ensures
        match scheme_error(scheme@) {
            Some(e) => r == Err::<(), ProtocolError>(e),
            None => r is Ok,
        },
{
    if scheme.len() == 0 {
        return Err(ProtocolError::InvalidArgument("tag_scheme cannot be empty"));
    }
    let mut i: usize = 0;
    while i < scheme.len()
        invariant
            i <= scheme@.len(),
            forall|j: int| 0 <= j < i ==> is_scheme_byte(#[trigger] scheme@[j]),
        decreases scheme@.len() - i,
    {
        let b = scheme[i];
        if !((0x30 <= b && b <= 0x39) || (0x41 <= b && b <= 0x5A) || (0x61 <= b && b <= 0x7A)
            || b == 0x2D) {
            return Err(ProtocolError::InvalidArgument("tag_scheme must contain only [A-Za-z0-9-]"));
        }
        i = i + 1;
    }
    Ok(())
}

/// A valid scheme is ASCII.
proof fn lemma_scheme_ascii(scheme: Seq<u8>)
    requires
        scheme_error(scheme) is None,
    ensures
        all_ascii(scheme),
{
    assert forall|i: int| 0 <= i < scheme.len() implies #[trigger] scheme[i] < 128 by {
        assert(is_scheme_byte(scheme[i]));
    }
}

/// Percent-encoded bytes are ASCII.
proof fn lemma_pct_encode_ascii(b: Seq<u8>)
    ensures
        all_ascii(pct_encode(b)),
    decreases b.len(),
{
    broadcast use crate::text::lemma_ascii_concat;

    if b.len() > 0 {
        lemma_pct_encode_ascii(b.drop_last());
        let x = b.last();
        if !is_unreserved(x) {
            assert(all_ascii(seq![0x25u8, crate::text::hex_digit(x as nat / 16), crate::text::hex_digit(x as nat % 16)]));
        } else {
            assert(all_ascii(seq![x]));
        }
    }
}

/// ASCII parts joined by dots are ASCII.
proof fn lemma_join_dots_ascii(parts: Seq<Seq<u8>>)
    requires
        forall|i: int| 0 <= i < parts.len() ==> all_ascii(#[trigger] parts[i]),
    ensures
        all_ascii(join_dots(parts)),
    decreases parts.len(),
{
    broadcast use crate::text::lemma_ascii_concat;

    if parts.len() > 1 {
        lemma_join_dots_ascii(parts.drop_last());
        assert(all_ascii(seq![DOT]));
        assert(all_ascii(parts[parts.len() - 1]));
    }
}

/// Valid UTF-8 parts joined by dots are valid UTF-8.
proof fn lemma_join_dots_utf8(parts: Seq<Seq<u8>>)
    requires
        forall|i: int| 0 <= i < parts.len() ==> valid_utf8(#[trigger] parts[i]),
    ensures
        valid_utf8(join_dots(parts)),
    decreases parts.len(),
{
    broadcast use vstd::utf8::valid_utf8_concat;

    if parts.len() == 0 {
        assert(valid_utf8(Seq::<u8>::empty()));
    } else if parts.len() == 1 {
        assert(valid_utf8(parts[0]));
    } else {
        lemma_join_dots_utf8(parts.drop_last());
        crate::text::lemma_ascii_valid_utf8(seq![DOT]);
        assert(valid_utf8(join_dots(parts.drop_last()) + seq![DOT]));
        assert(valid_utf8(parts[parts.len() - 1]));
        assert(valid_utf8(join_dots(parts.drop_last()) + seq![DOT] + parts.last()));
    }
}

/// Every decoded component is valid UTF-8.
proof fn lemma_components_utf8(b: Seq<u8>, start: int)
    ensures
        components_from(b, start) matches Ok(ds) ==> forall|i: int|
            0 <= i < ds.len() ==> valid_utf8(#[trigger] ds[i]),
    decreases b.len() - start,
{
    if 0 <= start <= b.len() {
        lemma_first_index_bounds(b, start, DOT);
        if let Some(k) = first_index_from(b, start, DOT) {
            lemma_components_utf8(b, k + 1);
            if let Ok(ds) = components_from(b, start) {
                let c = b.subrange(start, k);
                let d = component_text(c)->Ok_0;
                let rest = components_from(b, k + 1)->Ok_0;
                assert(ds == seq![d] + rest);
                assert forall|i: int| 0 <= i < ds.len() implies valid_utf8(#[trigger] ds[i]) by {
                    if i > 0 {
                        assert(ds[i] == rest[i - 1]);
                    }
                }
            }
        }
    }
}

/// The first index at or after `start` where `x` occurs in `b`.
fn find_byte_from(b: &[u8], start: usize, x: u8) -> (r: Option<usize>)
    requires
        start <= b@.len(),
    ensures
        r matches Some(k) ==> first_index_from(b@, start as int, x) == Some(k as int),
        r is None ==> first_index_from(b@, start as int, x) is None,
{
    let mut i = start;
    while i < b.len()
        invariant
            start <= i <= b@.len(),
            first_index_from(b@, start as int, x) == first_index_from(b@, i as int, x),
        decreases b@.len() - i,
    {
        if b[i] == x {
            return Some(i);
        }
        i = i + 1;
    }
    None
}

/// Decode the components of `b` from `start` on, appending their text.
fn decode_components(b: &[u8], start: usize, out: &mut Vec<String>) -> (r: Result<(), ProtocolError>)
    requires
        start <= b@.len(),
    ensures
        match components_from(b@, start as int) {
            Ok(ds) => r is Ok && string_bytes(final(out)@) == string_bytes(old(out)@) + ds,
            Err(e) => r == Err::<(), ProtocolError>(e),
        },
    decreases b@.len() - start,
{
    proof {
        lemma_first_index_bounds(b@, start as int, DOT);
    }
    let end = match find_byte_from(b, start, DOT) {
        Some(k) => k,
        None => b.len(),
    };
    let c = &b[start..end];
    assert(c@ == b@.subrange(start as int, end as int));
    if c.len() == 0 {
        return Err(
            ProtocolError::InvalidArgument("EPC Tag URI values cannot contain empty components"),
        );
    }
    let text = match percent_decode_component(c) {
        Ok(t) => t,
        Err(e) => {
            return Err(e);
        },
    };
    let ghost before = out@;
    out.push(text);
    assert(string_bytes(out@) =~= string_bytes(before) + seq![encode_utf8(text@)]);
    if end == b.len() {
        return Ok(());
    }
    let r = decode_components(b, end + 1, out);
    proof {
        if let Ok(ds) = components_from(b@, end + 1) {
            assert(string_bytes(before) + seq![encode_utf8(text@)] + ds =~= string_bytes(before) + (
            seq![encode_utf8(text@)] + ds));
        }
    }
    r
}

/// A found last index lies before `end`.
proof fn lemma_last_index_bounds(b: Seq<u8>, end: int, x: u8)
    ensures
        last_index_before(b, end, x) matches Some(k) ==> 0 <= k < end <= b.len(),
    decreases end,
{
    if 0 < end <= b.len() && b[end - 1] != x {
        lemma_last_index_bounds(b, end - 1, x);
    }
}

/// The identity scheme of an ASCII scheme is ASCII.
proof fn lemma_identity_scheme_ascii(s: Seq<u8>)
    requires
        all_ascii(s),
    ensures
        all_ascii(identity_scheme(s)),
{
    lemma_last_index_bounds(s, s.len() as int, 0x2D);
    if let Some(m) = last_index_before(s, s.len() as int, 0x2D) {
        if m > 0 && all_digits(s.subrange(m + 1, s.len() as int)) {
            let t = s.subrange(0, m);
            assert forall|j: int| 0 <= j < t.len() implies #[trigger] t[j] < 128 by {
                assert(t[j] == s[j]);
            }
        }
    }
}

/// The identity scheme of a tag scheme.
fn to_identity_scheme(scheme: &[u8]) -> (r: &[u8])
    ensures
        r@ == identity_scheme(scheme@),
{
    let mut i = scheme.len();
    while i > 0
        invariant
            i <= scheme@.len(),
            last_index_before(scheme@, scheme@.len() as int, 0x2D) == last_index_before(
                scheme@,
                i as int,
                0x2D,
            ),
        decreases i,
    {
        if scheme[i - 1] == 0x2D {
            let k = i - 1;
            if k > 0 {
                let mut j = k + 1;
                let mut digits = true;
                while j < scheme.len()
                    invariant
                        k + 1 <= j <= scheme@.len(),
                        digits == forall|m: int| k + 1 <= m < j ==> 0x30 <= #[trigger] scheme@[m] <= 0x39,
                    decreases scheme@.len() - j,
                {
                    if !(0x30 <= scheme[j] && scheme[j] <= 0x39) {
                        digits = false;
                    }
                    j = j + 1;
                }
                let suffix = Ghost(scheme@.subrange(k + 1, scheme@.len() as int));
                assert(digits == all_digits(suffix@)) by {
                    assert forall|m: int| 0 <= m < suffix@.len() implies suffix@[m] == scheme@[k + 1 + m] by {}
                    if digits {
                        assert forall|m: int| 0 <= m < suffix@.len() implies 0x30 <= #[trigger] suffix@[m] <= 0x39 by {
                            assert(suffix@[m] == scheme@[k + 1 + m]);
                        }
                    } else {
                        let m = choose|m: int| k + 1 <= m < scheme@.len() && !(0x30 <= #[trigger] scheme@[m] <= 0x39);
                        assert(suffix@[m - k - 1] == scheme@[m]);
                    }
                }
                if digits {
                    return &scheme[0..k];
                }
            }
            return scheme;
        }
        i = i - 1;
    }
    scheme
}

impl EpcValue {
    /// Build a custom EPC Tag URI from byte values.
    fn tag_uri_from_bytes(tag_scheme: &[u8], values: &Vec<Vec<u8>>) -> (r: Result<String, ProtocolError>)
        ensures
            utf8_result(r, custom_tag_uri(tag_scheme@, vec_bytes(values@))),
    {
        match validate_tag_scheme(tag_scheme) {
            Ok(()) => {},
            Err(e) => {
                return Err(e);
            },
        }
        let ghost vals = vec_bytes(values@);
        if values.len() == 0 {
            return Err(
                ProtocolError::InvalidArgument("custom EPC Tag URI must include at least one value"),
            );
        }
        let mut k: usize = 0;
        while k < values.len()
            invariant
                k <= values@.len(),
                values@.len() > 0,
                scheme_error(tag_scheme@) is None,
                vals == vec_bytes(values@),
                forall|j: int| 0 <= j < k ==> (#[trigger] vals[j]).len() > 0,
            decreases values@.len() - k,
        {
            if values[k].len() == 0 {
                assert(vals[k as int].len() == 0);
                return Err(
                    ProtocolError::InvalidArgument("custom EPC Tag URI values cannot be empty"),
                );
            }
            k = k + 1;
        }
        let mut out: Vec<u8> = Vec::new();
        let prefix = "urn:epc:tag:";
        proof {
            reveal_strlit("urn:epc:tag:");
            lemma_ascii_literal(prefix);
        }
        extend_bytes(&mut out, prefix.as_bytes());
        extend_bytes(&mut out, tag_scheme);
        out.push(COLON);
        let ghost base = out@;
        let ghost encoded = vals.map_values(|v: Seq<u8>| pct_encode(v));
        let mut i: usize = 0;
        while i < values.len()
            invariant
                i <= values@.len(),
                vals == vec_bytes(values@),
                encoded == vals.map_values(|v: Seq<u8>| pct_encode(v)),
                i > 0 ==> out@ == base + join_dots(encoded.subrange(0, i as int)),
                i == 0 ==> out@ == base,
            decreases values@.len() - i,
        {
            if i > 0 {
                out.push(DOT);
            }
            percent_encode_component(&mut out, values[i].as_slice());
            proof {
                let s = encoded.subrange(0, i + 1);
                assert(s.drop_last() =~= encoded.subrange(0, i as int));
                assert(s.last() == pct_encode(values@[i as int]@));
                if i == 0 {
                    assert(join_dots(s) == s[0]);
                }
            }
            i = i + 1;
        }
        assert(encoded.subrange(0, values@.len() as int) =~= encoded);
        proof {
            broadcast use crate::text::lemma_ascii_concat;

            lemma_scheme_ascii(tag_scheme@);
            assert forall|j: int| 0 <= j < encoded.len() implies all_ascii(#[trigger] encoded[j]) by {
                lemma_pct_encode_ascii(vals[j]);
            }
            lemma_join_dots_ascii(encoded);
            assert(all_ascii(seq![COLON]));
            assert(out@ =~= custom_tag_uri(tag_scheme@, vals)->Ok_0);
        }
        Ok(ascii_to_string(out))
    }

    /// Build a custom EPC Tag URI.
    ///
    /// Result format: `urn:epc:tag:{tag_scheme}:{value1}.{value2}...`, each
    /// value percent-encoded.
    pub fn tag_uri_custom(tag_scheme: &str, values: &[&str]) -> (r: Result<String, ProtocolError>)
        ensures
            utf8_result(r, custom_tag_uri(tag_scheme.spec_bytes(), str_bytes(values@))),
    {
        let mut owned: Vec<Vec<u8>> = Vec::new();
        let mut i: usize = 0;
        while i < values.len()
            invariant
                i <= values@.len(),
                vec_bytes(owned@) == str_bytes(values@.subrange(0, i as int)),
                owned@.len() == i,
            decreases values@.len() - i,
        {
            let text: &str = values[i];
            let bytes = text.as_bytes();
            assert(bytes@ == values@[i as int].spec_bytes());
            let ghost before = owned@;
            owned.push(vstd::slice::slice_to_vec(bytes));
            proof {
                let t = values@.subrange(0, i + 1);
                let u = values@.subrange(0, i as int);
                assert forall|j: int| 0 <= j < i + 1 implies vec_bytes(owned@)[j] == str_bytes(
                    t,
                )[j] by {
                    if j < i {
                        assert(owned@[j] == before[j]);
                        assert(vec_bytes(before)[j] == str_bytes(u)[j]);
                        assert(t[j] == u[j]);
                    }
                }
                assert(vec_bytes(owned@) =~= str_bytes(t));
            }
            i = i + 1;
        }
        assert(values@.subrange(0, values@.len() as int) =~= values@);
        Self::tag_uri_from_bytes(tag_scheme.as_bytes(), &owned)
    }

    /// Decode a custom EPC Tag URI into `(tag_scheme, values)`.
    ///
    /// Input format: `urn:epc:tag:{tag_scheme}:{value1}.{value2}...`; each
    /// value is percent-decoded.
    pub fn parse_tag_uri_custom(uri: &str) -> (r: Result<(String, Vec<String>), ProtocolError>)
        ensures
            match parsed_tag_uri(uri.spec_bytes()) {
                Ok((scheme, values)) => (r matches Ok((s, vs)) && encode_utf8(s@) == scheme
                    && string_bytes(vs@) == values),
                Err(e) => r == Err::<(String, Vec<String>), ProtocolError>(e),
            },
    {
        let b = uri.as_bytes();
        let prefix = "urn:epc:tag:";
        proof {
            reveal_strlit("urn:epc:tag:");
            lemma_ascii_literal(prefix);
        }
        let p = prefix.as_bytes();
        if !crate::bytes::starts_with(b, p) {
            return Err(ProtocolError::InvalidArgument("EPC Tag URI must start with 'urn:epc:tag:'"));
        }
        let body = &b[p.len()..b.len()];
        let colon = match find_byte_from(body, 0, COLON) {
            Some(k) => k,
            None => {
                return Err(ProtocolError::InvalidArgument("EPC Tag URI is missing value section"));
            },
        };
        proof {
            lemma_first_index_bounds(body@, 0, COLON);
        }
        let scheme = &body[0..colon];
        match validate_tag_scheme(scheme) {
            Ok(()) => {},
            Err(e) => {
                return Err(e);
            },
        }
        let value_part = &body[colon + 1..body.len()];
        if value_part.len() == 0 {
            return Err(ProtocolError::InvalidArgument("EPC Tag URI values cannot be empty"));
        }
        let mut values: Vec<String> = Vec::new();
        match decode_components(value_part, 0, &mut values) {
            Ok(()) => {},
            Err(e) => {
                return Err(e);
            },
        }
        proof {
            lemma_scheme_ascii(scheme@);
            assert(string_bytes(Seq::<String>::empty()) =~= Seq::<Seq<u8>>::empty());
        }
        let scheme_text = ascii_to_string(vstd::slice::slice_to_vec(scheme));
        Ok((scheme_text, values))
    }

    /// Convert an EPC Tag URI (`urn:epc:tag`) into a Pure Identity URI (`urn:epc:id`).
    ///
    /// This follows GS1 URI conventions where tag URIs include a filter value
    /// as the first value component and pure identity URIs omit that filter.
    pub fn tag_uri_to_pure_identity_uri(tag_uri: &str) -> (r: Result<String, ProtocolError>)
        ensures
            utf8_result(r, pure_identity_of_tag_uri(tag_uri.spec_bytes())),
    {
        let (tag_scheme, values) = match Self::parse_tag_uri_custom(tag_uri) {
            Ok(t) => t,
            Err(e) => {
                return Err(e);
            },
        };
        let ghost parsed = parsed_tag_uri(tag_uri.spec_bytes());
        let ghost vals = parsed->Ok_0.1;
        if values.len() < 2 {
            return Err(
                ProtocolError::InvalidArgument("EPC Tag URI must include filter and identity values"),
            );
        }
        let scheme_bytes = tag_scheme.as_str().as_bytes();
        let identity = to_identity_scheme(scheme_bytes);
        let mut out: Vec<u8> = Vec::new();
        let prefix = "urn:epc:id:";
        proof {
            reveal_strlit("urn:epc:id:");
            lemma_ascii_literal(prefix);
        }
        extend_bytes(&mut out, prefix.as_bytes());
        extend_bytes(&mut out, identity);
        out.push(COLON);
        let ghost base = out@;
        let ghost rest = vals.drop_first();
        let mut i: usize = 1;
        while i < values.len()
            invariant
                1 <= i <= values@.len(),
                string_bytes(values@) == vals,
                rest == vals.drop_first(),
                i > 1 ==> out@ == base + join_dots(rest.subrange(0, i - 1)),
                i == 1 ==> out@ == base,
            decreases values@.len() - i,
        {
            if i > 1 {
                out.push(DOT);
            }
            extend_bytes(&mut out, values[i].as_str().as_bytes());
            proof {
                let s = rest.subrange(0, i as int);
                assert(s.drop_last() =~= rest.subrange(0, i - 1));
                assert(s.last() == vals[i as int]);
                if i == 1 {
                    assert(join_dots(s) == s[0]);
                }
            }
            i = i + 1;
        }
        assert(rest.subrange(0, values@.len() - 1) =~= rest);
        proof {
            broadcast use crate::text::lemma_ascii_concat;
            broadcast use vstd::utf8::valid_utf8_concat;

            let scheme = parsed->Ok_0.0;
            let b = tag_uri.spec_bytes();
            let pb = "urn:epc:tag:".spec_bytes();
            let body = b.subrange(pb.len() as int, b.len() as int);
            lemma_first_index_bounds(body, 0, COLON);
            let k = first_index_from(body, 0, COLON)->Some_0;
            let vp = body.subrange(k + 1, body.len() as int);
            assert(components_from(vp, 0) == Ok::<Seq<Seq<u8>>, ProtocolError>(vals));
            lemma_components_utf8(vp, 0);
            assert forall|j: int| 0 <= j < rest.len() implies valid_utf8(#[trigger] rest[j]) by {
                assert(rest[j] == vals[j + 1]);
            }
            lemma_join_dots_utf8(rest);
            lemma_scheme_ascii(scheme);
            lemma_identity_scheme_ascii(scheme);
            assert(all_ascii(seq![COLON]));
            let head = prefix.spec_bytes() + identity@ + seq![COLON];
            assert(all_ascii(head));
            crate::text::lemma_ascii_valid_utf8(head);
            assert(out@ =~= head + join_dots(rest));
            assert(valid_utf8(out@));
        }
        Ok(crate::text::utf8_to_string(out))
    }

    /// Build a custom EPC Tag URI and append this EPC value, in uppercase
    /// hexadecimal, as the last URI component.
    ///
    /// Example result: `urn:epc:tag:raw:myCompany.01.300011223344`.
    pub fn tag_uri_with_epc(&self, tag_scheme: &str, values: &[&str]) -> (r: Result<
        String,
        ProtocolError,
    >)
        ensures
            utf8_result(
                r,
                custom_tag_uri(tag_scheme.spec_bytes(), str_bytes(values@).push(hex_upper(self@))),
            ),
    {
        let mut owned: Vec<Vec<u8>> = Vec::new();
        let mut i: usize = 0;
        while i < values.len()
            invariant
                i <= values@.len(),
                vec_bytes(owned@) == str_bytes(values@.subrange(0, i as int)),
                owned@.len() == i,
            decreases values@.len() - i,
        {
            let text: &str = values[i];
            let bytes = text.as_bytes();
            assert(bytes@ == values@[i as int].spec_bytes());
            let ghost before = owned@;
            owned.push(vstd::slice::slice_to_vec(bytes));
            proof {
                let t = values@.subrange(0, i + 1);
                let u = values@.subrange(0, i as int);
                assert forall|j: int| 0 <= j < i + 1 implies vec_bytes(owned@)[j] == str_bytes(
                    t,
                )[j] by {
                    if j < i {
                        assert(owned@[j] == before[j]);
                        assert(vec_bytes(before)[j] == str_bytes(u)[j]);
                        assert(t[j] == u[j]);
                    }
                }
                assert(vec_bytes(owned@) =~= str_bytes(t));
            }
            i = i + 1;
        }
        assert(values@.subrange(0, values@.len() as int) =~= values@);
        let mut hex: Vec<u8> = Vec::new();
        push_hex_upper(&mut hex, self.as_bytes());
        let ghost before = owned@;
        owned.push(hex);
        assert(vec_bytes(owned@) =~= str_bytes(values@).push(hex_upper(self@)));
        Self::tag_uri_from_bytes(tag_scheme.as_bytes(), &owned)
    }
}


/// The percent-encoding of one byte.
pub open spec fn pct_encode_byte(x: u8) -> Seq<u8> {
    if is_unreserved(x) {
        seq![x]
    } else {
        seq![0x25u8, crate::text::hex_digit(x as nat / 16), crate::text::hex_digit(x as nat % 16)]
    }
}

/// Percent-encoding works byte by byte from the front too.
proof fn lemma_pct_encode_cons(x: u8, w: Seq<u8>)
    ensures
        pct_encode(seq![x] + w) == pct_encode_byte(x) + pct_encode(w),
    decreases w.len(),
{
    if w.len() == 0 {
        assert(seq![x] + w =~= seq![x]);
        assert((seq![x]).drop_last() =~= Seq::<u8>::empty());
        assert(pct_encode(Seq::<u8>::empty()) =~= Seq::<u8>::empty());
        assert((seq![x]).last() == x);
        assert(pct_encode(seq![x]) =~= Seq::<u8>::empty() + pct_encode_byte(x));
        assert(pct_encode(seq![x]) =~= pct_encode_byte(x));
        assert(pct_encode_byte(x) + pct_encode(w) =~= pct_encode_byte(x));
    } else {
        let v = seq![x] + w;
        assert(v.drop_last() =~= seq![x] + w.drop_last());
        assert(v.last() == w.last());
        lemma_pct_encode_cons(x, w.drop_last());
        assert(pct_encode(v) =~= pct_encode_byte(x) + pct_encode(w));
    }
}

/// Decoding from inside a concatenation is decoding the second part.
proof fn lemma_pct_decode_shift(a: Seq<u8>, b: Seq<u8>, j: int)
    requires
        0 <= j,
    ensures
        pct_decode_from(a + b, a.len() + j) == pct_decode_from(b, j),
    decreases b.len() - j,
{
    let s = a + b;
    let i = a.len() + j;
    if j < b.len() {
        assert(s[i] == b[j]);
        if b[j] == 0x25 {
            if j + 2 < b.len() {
                assert(s[i + 1] == b[j + 1]);
                assert(s[i + 2] == b[j + 2]);
                lemma_pct_decode_shift(a, b, j + 3);
            }
        } else {
            lemma_pct_decode_shift(a, b, j + 1);
        }
    }
}

/// A hexadecimal digit reads back as its value.
proof fn lemma_hex_digit_value(d: nat)
    requires
        d < 16,
    ensures
        hex_value(crate::text::hex_digit(d)) == Some(d as u8),
{
}

/// Percent-decoding the percent-encoding of any bytes gives them back.
pub proof fn lemma_pct_round_trip(v: Seq<u8>)
    ensures
        pct_decode_from(pct_encode(v), 0) == Some(v),
    decreases v.len(),
{
    if v.len() == 0 {
        assert(pct_encode(v) =~= Seq::<u8>::empty());
    } else {
        let x = v[0];
        let w = v.drop_first();
        assert(v =~= seq![x] + w);
        lemma_pct_encode_cons(x, w);
        lemma_pct_round_trip(w);
        let e = pct_encode_byte(x);
        let s = e + pct_encode(w);
        lemma_pct_decode_shift(e, pct_encode(w), 0);
        if is_unreserved(x) {
            assert(s[0] == x);
            assert(pct_decode_from(s, 0) == Some(seq![x] + w));
        } else {
            lemma_hex_digit_value(x as nat / 16);
            lemma_hex_digit_value(x as nat % 16);
            assert(s[0] == 0x25u8);
            assert(s[1] == crate::text::hex_digit(x as nat / 16));
            assert(s[2] == crate::text::hex_digit(x as nat % 16));
            assert(((x as nat / 16) * 16 + x as nat % 16) as u8 == x);
            assert(pct_decode_from(s, 0) == Some(seq![x] + w));
        }
    }
}

/// No byte is `.`.
pub open spec fn dot_free(b: Seq<u8>) -> bool {
    forall|i: int| 0 <= i < b.len() ==> #[trigger] b[i] != DOT
}

/// Percent-encoding keeps bytes dot-free and non-empty.
proof fn lemma_pct_encode_dot_free(v: Seq<u8>)
    requires
        dot_free(v),
    ensures
        dot_free(pct_encode(v)),
        v.len() > 0 ==> pct_encode(v).len() > 0,
    decreases v.len(),
{
    if v.len() > 0 {
        let w = v.drop_last();
        assert(dot_free(w)) by {
            assert forall|i: int| 0 <= i < w.len() implies #[trigger] w[i] != DOT by {
                assert(w[i] == v[i]);
            }
        }
        lemma_pct_encode_dot_free(w);
        let x = v.last();
        assert(x == v[v.len() - 1]);
        let e = if is_unreserved(x) {
            seq![x]
        } else {
            seq![0x25u8, crate::text::hex_digit(x as nat / 16), crate::text::hex_digit(x as nat % 16)]
        };
        assert(dot_free(e));
        let t = pct_encode(w) + e;
        assert(pct_encode(v) == t);
        assert forall|i: int| 0 <= i < t.len() implies #[trigger] t[i] != DOT by {
            if i < pct_encode(w).len() {
                assert(t[i] == pct_encode(w)[i]);
            } else {
                assert(t[i] == e[i - pct_encode(w).len()]);
            }
        }
    }
}

/// Joining works part by part from the front too.
proof fn lemma_join_dots_cons(p: Seq<u8>, rest: Seq<Seq<u8>>)
    requires
        rest.len() > 0,
    ensures
        join_dots(seq![p] + rest) == p + seq![DOT] + join_dots(rest),
    decreases rest.len(),
{
    let parts = seq![p] + rest;
    if rest.len() == 1 {
        assert(parts.drop_last() =~= seq![p]);
        assert(parts.last() == rest[0]);
        assert(join_dots(rest) == rest[0]);
        assert(join_dots(seq![p]) == p);
        assert(join_dots(parts) == join_dots(parts.drop_last()) + seq![DOT] + parts.last());
    } else {
        assert(parts.drop_last() =~= seq![p] + rest.drop_last());
        lemma_join_dots_cons(p, rest.drop_last());
        assert(parts.last() == rest.last());
        assert(join_dots(parts) =~= p + seq![DOT] + join_dots(rest));
    }
}

/// Searching from inside a concatenation is searching the second part.
proof fn lemma_first_index_shift(a: Seq<u8>, b: Seq<u8>, j: int, x: u8)
    requires
        0 <= j,
    ensures
        first_index_from(a + b, a.len() + j, x) == match first_index_from(b, j, x) {
            Some(k) => Some(a.len() + k),
            None => None::<int>,
        },
    decreases b.len() - j,
{
    if j < b.len() {
        assert((a + b)[a.len() + j] == b[j]);
        if b[j] != x {
            lemma_first_index_shift(a, b, j + 1, x);
        }
    }
}

/// In a part free of `x` followed by `x`, the first `x` is right after the
/// part.
proof fn lemma_first_index_after(p: Seq<u8>, rest: Seq<u8>, x: u8, j: int)
    requires
        forall|i: int| 0 <= i < p.len() ==> #[trigger] p[i] != x,
        0 <= j <= p.len(),
    ensures
        first_index_from(p + seq![x] + rest, j, x) == Some(p.len() as int),
    decreases p.len() - j,
{
    let s = p + seq![x] + rest;
    if j < p.len() {
        assert(s[j] == p[j]);
        lemma_first_index_after(p, rest, x, j + 1);
    } else {
        assert(s[j] == x);
    }
}

/// Splitting from inside a concatenation is splitting the second part.
proof fn lemma_components_shift(a: Seq<u8>, b: Seq<u8>, j: int)
    requires
        0 <= j,
    ensures
        components_from(a + b, a.len() + j) == components_from(b, j),
    decreases b.len() - j,
{
    let s = a + b;
    let i = a.len() + j;
    if j <= b.len() {
        lemma_first_index_shift(a, b, j, DOT);
        lemma_first_index_bounds(b, j, DOT);
        let end_b = match first_index_from(b, j, DOT) {
            Some(k) => k,
            None => b.len() as int,
        };
        assert(s.subrange(i, a.len() + end_b) =~= b.subrange(j, end_b));
        if end_b < b.len() {
            lemma_components_shift(a, b, end_b + 1);
        }
    }
}

/// The decoded components of joined encodings of values are the values,
/// when each is non-empty, dot-free and valid UTF-8.
proof fn lemma_components_of_join(values: Seq<Seq<u8>>)
    requires
        values.len() > 0,
        forall|i: int| 0 <= i < values.len() ==> (#[trigger] values[i]).len() > 0 && dot_free(values[i])
            && valid_utf8(values[i]),
    ensures
        components_from(join_dots(values.map_values(|v: Seq<u8>| pct_encode(v))), 0) == Ok::<
            Seq<Seq<u8>>,
            ProtocolError,
        >(values),
    decreases values.len(),
{
    let enc = values.map_values(|v: Seq<u8>| pct_encode(v));
    let v0 = values[0];
    let p = pct_encode(v0);
    lemma_pct_encode_dot_free(v0);
    lemma_pct_round_trip(v0);
    assert(component_text(p) == Ok::<Seq<u8>, ProtocolError>(v0));
    if values.len() == 1 {
        assert(join_dots(enc) == p);
        lemma_first_index_bounds(p, 0, DOT);
        assert(first_index_from(p, 0, DOT) is None);
        assert(p.subrange(0, p.len() as int) =~= p);
        assert(components_from(p, 0) == Ok::<Seq<Seq<u8>>, ProtocolError>(seq![v0]));
        assert(seq![v0] =~= values);
    } else {
        let rest = values.drop_first();
        let erest = rest.map_values(|v: Seq<u8>| pct_encode(v));
        assert(enc =~= seq![p] + erest);
        lemma_join_dots_cons(p, erest);
        let j = join_dots(erest);
        let s = p + seq![DOT] + j;
        assert(join_dots(enc) == s);
        lemma_first_index_after(p, j, DOT, 0);
        assert(s.subrange(0, p.len() as int) =~= p);
        lemma_components_of_join(rest);
        lemma_components_shift(p + seq![DOT], j, 0);
        assert(p + seq![DOT] + j == s);
        assert(components_from(s, p.len() + 1int) == components_from(j, 0));
        assert(components_from(s, 0) == Ok::<Seq<Seq<u8>>, ProtocolError>(seq![v0] + rest));
        assert(seq![v0] + rest =~= values);
    }
}

/// Parsing the custom Tag URI built from a scheme and values gives back the
/// scheme and the values, when no value is empty or holds a `.` byte (a dot
/// is not escaped, so it would split the value) and each is valid UTF-8.
pub proof fn lemma_custom_tag_uri_round_trip(scheme: Seq<u8>, values: Seq<Seq<u8>>)
    requires
        scheme_error(scheme) is None,
        values.len() > 0,
        forall|i: int| 0 <= i < values.len() ==> (#[trigger] values[i]).len() > 0 && dot_free(values[i])
            && valid_utf8(values[i]),
    ensures
        custom_tag_uri(scheme, values) is Ok,
        parsed_tag_uri(custom_tag_uri(scheme, values)->Ok_0) == Ok::<
            (Seq<u8>, Seq<Seq<u8>>),
            ProtocolError,
        >((scheme, values)),
{
    reveal_strlit("urn:epc:tag:");
    let prefix = "urn:epc:tag:".spec_bytes();
    lemma_ascii_literal("urn:epc:tag:");
    assert(!(exists|i: int| 0 <= i < values.len() && (#[trigger] values[i]).len() == 0));
    let enc = values.map_values(|v: Seq<u8>| pct_encode(v));
    let j = join_dots(enc);
    let b = prefix + scheme + seq![COLON] + j;
    assert(custom_tag_uri(scheme, values) == Ok::<Seq<u8>, ProtocolError>(b));
    assert(b.subrange(0, prefix.len() as int) =~= prefix);
    let body = b.subrange(prefix.len() as int, b.len() as int);
    assert(body =~= scheme + seq![COLON] + j);
    assert forall|i: int| 0 <= i < scheme.len() implies #[trigger] scheme[i] != COLON by {
        assert(is_scheme_byte(scheme[i]));
    }
    lemma_first_index_after(scheme, j, COLON, 0);
    assert(body.subrange(0, scheme.len() as int) =~= scheme);
    assert(body.subrange(scheme.len() + 1int, body.len() as int) =~= j);
    lemma_components_of_join(values);
    lemma_pct_encode_dot_free(values[0]);
    if values.len() > 1 {
        lemma_join_dots_cons(enc[0], enc.drop_first());
        assert(enc =~= seq![enc[0]] + enc.drop_first());
    } else {
        assert(j == enc[0]);
    }
    assert(j.len() > 0);
}


/// Every byte is an ASCII digit and there is at least one.
pub open spec fn digit_text(b: Seq<u8>) -> bool {
    b.len() > 0 && forall|i: int| 0 <= i < b.len() ==> 0x30 <= #[trigger] b[i] <= 0x39
}

/// Decimal digits, zero-padded or not, are digit text.
proof fn lemma_decimal_digits(n: nat, width: nat)
    ensures
        digit_text(decimal(n)),
        digit_text(zero_padded(n, width)),
    decreases n,
{
    if n >= 10 {
        lemma_decimal_digits(n / 10, 0);
        let d = decimal(n / 10);
        let t = decimal(n);
        assert(t == d.push(crate::text::digit_byte(n % 10)));
        assert forall|i: int| 0 <= i < t.len() implies 0x30 <= #[trigger] t[i] <= 0x39 by {
            if i < d.len() {
                assert(t[i] == d[i]);
            }
        }
    }
    let d = decimal(n);
    let z = zero_padded(n, width);
    if d.len() < width {
        let pad = Seq::new((width - d.len()) as nat, |i: int| 48u8);
        assert(z == pad + d);
        assert forall|i: int| 0 <= i < z.len() implies 0x30 <= #[trigger] z[i] <= 0x39 by {
            if i < pad.len() {
                assert(z[i] == pad[i]);
            } else {
                assert(z[i] == d[i - pad.len()]);
            }
        }
    }
}

/// Percent-encoding leaves digit text as it is.
proof fn lemma_pct_encode_digits(v: Seq<u8>)
    requires
        forall|i: int| 0 <= i < v.len() ==> 0x30 <= #[trigger] v[i] <= 0x39,
    ensures
        pct_encode(v) == v,
    decreases v.len(),
{
    if v.len() > 0 {
        let w = v.drop_last();
        assert forall|i: int| 0 <= i < w.len() implies 0x30 <= #[trigger] w[i] <= 0x39 by {
            assert(w[i] == v[i]);
        }
        lemma_pct_encode_digits(w);
        assert(v.last() == v[v.len() - 1]);
        assert(pct_encode(v) =~= v);
    } else {
        assert(pct_encode(v) =~= v);
    }
}

/// Digit text is non-empty, dot-free, valid UTF-8 and its own encoding.
proof fn lemma_digit_text_value(v: Seq<u8>)
    requires
        digit_text(v),
    ensures
        v.len() > 0,
        dot_free(v),
        valid_utf8(v),
        pct_encode(v) == v,
{
    lemma_pct_encode_digits(v);
    assert forall|i: int| 0 <= i < v.len() implies #[trigger] v[i] < 128 by {}
    crate::text::lemma_ascii_valid_utf8(v);
}

/// The Tag URI of numeric values under a scheme, as a custom Tag URI.
proof fn lemma_numeric_tag_uri(scheme: Seq<u8>, values: Seq<Seq<u8>>)
    requires
        scheme_error(scheme) is None,
        values.len() > 0,
        forall|i: int| 0 <= i < values.len() ==> digit_text(#[trigger] values[i]),
    ensures
        custom_tag_uri(scheme, values) == Ok::<Seq<u8>, ProtocolError>(
            "urn:epc:tag:".spec_bytes() + scheme + seq![COLON] + join_dots(values),
        ),
        parsed_tag_uri("urn:epc:tag:".spec_bytes() + scheme + seq![COLON] + join_dots(values))
            == Ok::<(Seq<u8>, Seq<Seq<u8>>), ProtocolError>((scheme, values)),
{
    assert forall|i: int| 0 <= i < values.len() implies (#[trigger] values[i]).len() > 0 && dot_free(
        values[i],
    ) && valid_utf8(values[i]) by {
        lemma_digit_text_value(values[i]);
    }
    let enc = values.map_values(|v: Seq<u8>| pct_encode(v));
    assert forall|i: int| 0 <= i < values.len() implies enc[i] == values[i] by {
        lemma_digit_text_value(values[i]);
    }
    assert(enc =~= values);
    assert(!(exists|i: int| 0 <= i < values.len() && (#[trigger] values[i]).len() == 0));
    lemma_custom_tag_uri_round_trip(scheme, values);
}

/// The identity scheme of `sgtin-96` is `sgtin`, that of `giai-96` is
/// `giai`.
proof fn lemma_identity_schemes()
    ensures
        identity_scheme("sgtin-96".spec_bytes()) == "sgtin".spec_bytes(),
        identity_scheme("giai-96".spec_bytes()) == "giai".spec_bytes(),
        scheme_error("sgtin-96".spec_bytes()) is None,
        scheme_error("giai-96".spec_bytes()) is None,
{
    reveal_strlit("sgtin-96");
    reveal_strlit("sgtin");
    reveal_strlit("giai-96");
    reveal_strlit("giai");
    lemma_ascii_literal("sgtin-96");
    lemma_ascii_literal("sgtin");
    lemma_ascii_literal("giai-96");
    lemma_ascii_literal("giai");
    let a = "sgtin-96".spec_bytes();
    let b = "giai-96".spec_bytes();
    reveal_with_fuel(last_index_before, 4);
    assert(last_index_before(a, 8, 0x2D) == Some(5int));
    assert(last_index_before(b, 7, 0x2D) == Some(4int));
    assert(all_digits(a.subrange(6, 8)));
    assert(all_digits(b.subrange(5, 7)));
    assert(a.subrange(0, 5) =~= "sgtin".spec_bytes());
    assert(b.subrange(0, 4) =~= "giai".spec_bytes());
    assert forall|i: int| 0 <= i < a.len() implies is_scheme_byte(#[trigger] a[i]) by {}
    assert forall|i: int| 0 <= i < b.len() implies is_scheme_byte(#[trigger] b[i]) by {}
}

/// The scheme prefixes split into the generic prefix, the scheme and `:`.
proof fn lemma_scheme_literals()
    ensures
        "urn:epc:tag:sgtin-96:".spec_bytes() == "urn:epc:tag:".spec_bytes() + "sgtin-96".spec_bytes()
            + seq![COLON],
        "urn:epc:id:sgtin:".spec_bytes() == "urn:epc:id:".spec_bytes() + "sgtin".spec_bytes()
            + seq![COLON],
        "urn:epc:tag:giai-96:".spec_bytes() == "urn:epc:tag:".spec_bytes() + "giai-96".spec_bytes()
            + seq![COLON],
        "urn:epc:id:giai:".spec_bytes() == "urn:epc:id:".spec_bytes() + "giai".spec_bytes()
            + seq![COLON],
{
    reveal_strlit("urn:epc:tag:sgtin-96:");
    reveal_strlit("urn:epc:tag:giai-96:");
    reveal_strlit("urn:epc:tag:");
    reveal_strlit("urn:epc:id:sgtin:");
    reveal_strlit("urn:epc:id:giai:");
    reveal_strlit("urn:epc:id:");
    reveal_strlit("sgtin-96");
    reveal_strlit("sgtin");
    reveal_strlit("giai-96");
    reveal_strlit("giai");
    lemma_ascii_literal("urn:epc:tag:sgtin-96:");
    lemma_ascii_literal("urn:epc:tag:giai-96:");
    lemma_ascii_literal("urn:epc:tag:");
    lemma_ascii_literal("urn:epc:id:sgtin:");
    lemma_ascii_literal("urn:epc:id:giai:");
    lemma_ascii_literal("urn:epc:id:");
    lemma_ascii_literal("sgtin-96");
    lemma_ascii_literal("sgtin");
    lemma_ascii_literal("giai-96");
    lemma_ascii_literal("giai");
    assert("urn:epc:tag:sgtin-96:".spec_bytes() =~= "urn:epc:tag:".spec_bytes()
        + "sgtin-96".spec_bytes() + seq![COLON]);
    assert("urn:epc:id:sgtin:".spec_bytes() =~= "urn:epc:id:".spec_bytes() + "sgtin".spec_bytes()
        + seq![COLON]);
    assert("urn:epc:tag:giai-96:".spec_bytes() =~= "urn:epc:tag:".spec_bytes()
        + "giai-96".spec_bytes() + seq![COLON]);
    assert("urn:epc:id:giai:".spec_bytes() =~= "urn:epc:id:".spec_bytes() + "giai".spec_bytes()
        + seq![COLON]);
}

/// Three parts joined by dots.
proof fn lemma_join_three(a: Seq<u8>, b: Seq<u8>, c: Seq<u8>)
    ensures
        join_dots(seq![a, b, c]) == a + seq![DOT] + b + seq![DOT] + c,
{
    lemma_join_dots_cons(b, seq![c]);
    assert(seq![b] + seq![c] =~= seq![b, c]);
    assert(join_dots(seq![c]) == c);
    lemma_join_dots_cons(a, seq![b, c]);
    assert(seq![a] + seq![b, c] =~= seq![a, b, c]);
    assert(join_dots(seq![a, b, c]) =~= a + seq![DOT] + b + seq![DOT] + c);
}

/// The Pure Identity URI of a Tag URI with numeric values.
proof fn lemma_numeric_pure_identity(tag_scheme: Seq<u8>, values: Seq<Seq<u8>>)
    requires
        scheme_error(tag_scheme) is None,
        values.len() >= 2,
        forall|i: int| 0 <= i < values.len() ==> digit_text(#[trigger] values[i]),
    ensures
        pure_identity_of_tag_uri(
            "urn:epc:tag:".spec_bytes() + tag_scheme + seq![COLON] + join_dots(values),
        ) == Ok::<Seq<u8>, ProtocolError>(
            "urn:epc:id:".spec_bytes() + identity_scheme(tag_scheme) + seq![COLON] + join_dots(
                values.drop_first(),
            ),
        ),
{
    lemma_numeric_tag_uri(tag_scheme, values);
}

/// Converting the Tag URI of SGTIN-96 fields to a Pure Identity URI gives
/// their Pure Identity URI: the same fields without the filter.
#[verifier::spinoff_prover]
#[verifier::rlimit(40)]
pub proof fn lemma_sgtin96_tag_uri_to_pure_identity(f: Sgtin96)
    requires
        sgtin_layout(f.partition) is Some,
    ensures
        pure_identity_of_tag_uri(sgtin_tag_uri(f)->Ok_0) == sgtin_pure_uri(f),
{
    let (_, cd, _, id) = sgtin_layout(f.partition)->Some_0;
    let d0 = decimal(f.filter as nat);
    let d1 = zero_padded(f.company_prefix as nat, cd);
    let d2 = zero_padded(f.item_reference as nat, id);
    let d3 = decimal(f.serial as nat);
    let values = seq![d0, d1, d2, d3];
    lemma_decimal_digits(f.filter as nat, 0);
    lemma_decimal_digits(f.company_prefix as nat, cd);
    lemma_decimal_digits(f.item_reference as nat, id);
    lemma_decimal_digits(f.serial as nat, 0);
    lemma_identity_schemes();
    lemma_scheme_literals();
    lemma_join_three(d1, d2, d3);
    lemma_join_dots_cons(d0, seq![d1, d2, d3]);
    assert(seq![d0] + seq![d1, d2, d3] =~= values);
    assert(values.drop_first() =~= seq![d1, d2, d3]);
    lemma_numeric_pure_identity("sgtin-96".spec_bytes(), values);
    let lit = "urn:epc:tag:".spec_bytes() + "sgtin-96".spec_bytes() + seq![COLON];
    let rest = d1 + seq![DOT] + d2 + seq![DOT] + d3;
    let tag = lit + join_dots(values);
    assert(join_dots(values) == d0 + seq![DOT] + rest);
    assert(sgtin_tag_uri(f)->Ok_0 =~= lit + (d0 + seq![DOT] + rest));
    assert(lit + (d0 + seq![DOT] + rest) =~= tag);
    let id_lit = "urn:epc:id:".spec_bytes() + "sgtin".spec_bytes() + seq![COLON];
    assert(pure_identity_of_tag_uri(tag)->Ok_0 == id_lit + rest);
    assert(sgtin_pure_uri(f)->Ok_0 =~= id_lit + rest);
}

/// Converting the Tag URI of GIAI-96 fields to a Pure Identity URI gives
/// their Pure Identity URI: the same fields without the filter.
#[verifier::spinoff_prover]
pub proof fn lemma_giai96_tag_uri_to_pure_identity(f: Giai96)
    requires
        giai_layout(f.partition) is Some,
    ensures
        pure_identity_of_tag_uri(giai_tag_uri(f)->Ok_0) == giai_pure_uri(f),
{
    let (_, cd, _) = giai_layout(f.partition)->Some_0;
    let d0 = decimal(f.filter as nat);
    let d1 = zero_padded(f.company_prefix as nat, cd);
    let d2 = decimal(f.individual_asset_reference as nat);
    let values = seq![d0, d1, d2];
    lemma_decimal_digits(f.filter as nat, 0);
    lemma_decimal_digits(f.company_prefix as nat, cd);
    lemma_decimal_digits(f.individual_asset_reference as nat, 0);
    lemma_identity_schemes();
    lemma_scheme_literals();
    lemma_join_three(d0, d1, d2);
    lemma_join_dots_cons(d1, seq![d2]);
    assert(seq![d1] + seq![d2] =~= seq![d1, d2]);
    assert(join_dots(seq![d2]) == d2);
    assert(values.drop_first() =~= seq![d1, d2]);
    lemma_numeric_pure_identity("giai-96".spec_bytes(), values);
    let tag = "urn:epc:tag:".spec_bytes() + "giai-96".spec_bytes() + seq![COLON] + join_dots(values);
    assert(giai_tag_uri(f)->Ok_0 =~= tag);
    assert(pure_identity_of_tag_uri(tag)->Ok_0 =~= giai_pure_uri(f)->Ok_0);
}

/// `s` writes the number `v`: ASCII decimal digits that read as `v`.
pub open spec fn numeral(s: Seq<u8>, v: nat) -> bool {
    digit_text(s) && digits_value(s) == v
}

/// The SGTIN-96 Tag URI writes each field in decimal after the scheme,
/// separated by dots: the filter, the company prefix in exactly `12 - p`
/// digits, the item reference in exactly `p + 1` digits (both zero-padded
/// for partition `p`) and the serial.
pub proof fn lemma_sgtin96_tag_uri_fields(f: Sgtin96)
    requires
        f.partition <= 6,
        f.company_prefix < pow10((12 - f.partition) as nat),
        f.item_reference < pow10((f.partition + 1) as nat),
    ensures
        sgtin_tag_uri(f) is Ok,
        exists|a: Seq<u8>, b: Seq<u8>, c: Seq<u8>, d: Seq<u8>|
            #![trigger numeral(a, f.filter as nat), numeral(b, f.company_prefix as nat), numeral(c, f.item_reference as nat), numeral(d, f.serial as nat)]
            sgtin_tag_uri(f)->Ok_0 == "urn:epc:tag:sgtin-96:".spec_bytes() + a + seq![DOT] + b
                + seq![DOT] + c + seq![DOT] + d && numeral(a, f.filter as nat) && numeral(
                b,
                f.company_prefix as nat,
            ) && b.len() == 12 - f.partition && numeral(c, f.item_reference as nat) && c.len()
                == f.partition + 1 && numeral(d, f.serial as nat),
{
    lemma_sgtin_partition_table(f.partition);
    let (_, cd, _, id) = sgtin_layout(f.partition)->Some_0;
    let a = decimal(f.filter as nat);
    let b = zero_padded(f.company_prefix as nat, cd);
    let c = zero_padded(f.item_reference as nat, id);
    let d = decimal(f.serial as nat);
    lemma_decimal_value(f.filter as nat);
    lemma_decimal_value(f.serial as nat);
    lemma_zero_padded_value(f.company_prefix as nat, cd);
    lemma_zero_padded_value(f.item_reference as nat, id);
    lemma_decimal_digits(f.filter as nat, 0);
    lemma_decimal_digits(f.company_prefix as nat, cd);
    lemma_decimal_digits(f.item_reference as nat, id);
    lemma_decimal_digits(f.serial as nat, 0);
    assert(numeral(a, f.filter as nat) && numeral(b, f.company_prefix as nat) && numeral(
        c,
        f.item_reference as nat,
    ) && numeral(d, f.serial as nat));
}

/// The SGTIN Pure Identity URI writes the company prefix in exactly
/// `12 - p` digits, the item reference in exactly `p + 1` digits and the
/// serial, separated by dots after the scheme, with no filter.
pub proof fn lemma_sgtin96_pure_uri_fields(f: Sgtin96)
    requires
        f.partition <= 6,
        f.company_prefix < pow10((12 - f.partition) as nat),
        f.item_reference < pow10((f.partition + 1) as nat),
    ensures
        sgtin_pure_uri(f) is Ok,
        exists|b: Seq<u8>, c: Seq<u8>, d: Seq<u8>|
            #![trigger numeral(b, f.company_prefix as nat), numeral(c, f.item_reference as nat), numeral(d, f.serial as nat)]
            sgtin_pure_uri(f)->Ok_0 == "urn:epc:id:sgtin:".spec_bytes() + b + seq![DOT] + c
                + seq![DOT] + d && numeral(b, f.company_prefix as nat) && b.len() == 12
                - f.partition && numeral(c, f.item_reference as nat) && c.len() == f.partition + 1
                && numeral(d, f.serial as nat),
{
    lemma_sgtin_partition_table(f.partition);
    let (_, cd, _, id) = sgtin_layout(f.partition)->Some_0;
    let b = zero_padded(f.company_prefix as nat, cd);
    let c = zero_padded(f.item_reference as nat, id);
    let d = decimal(f.serial as nat);
    lemma_decimal_value(f.serial as nat);
    lemma_zero_padded_value(f.company_prefix as nat, cd);
    lemma_zero_padded_value(f.item_reference as nat, id);
    lemma_decimal_digits(f.company_prefix as nat, cd);
    lemma_decimal_digits(f.item_reference as nat, id);
    lemma_decimal_digits(f.serial as nat, 0);
    assert(numeral(b, f.company_prefix as nat) && numeral(c, f.item_reference as nat) && numeral(
        d,
        f.serial as nat,
    ));
}

/// The GIAI-96 Tag URI writes the filter, the company prefix in exactly
/// `12 - p` digits and the asset reference in decimal, separated by dots
/// after the scheme; the Pure Identity URI writes the same without the
/// filter.
pub proof fn lemma_giai96_uri_fields(f: Giai96)
    requires
        f.partition <= 6,
        f.company_prefix < pow10((12 - f.partition) as nat),
    ensures
        giai_tag_uri(f) is Ok,
        giai_pure_uri(f) is Ok,
        exists|a: Seq<u8>, b: Seq<u8>, c: Seq<u8>|
            #![trigger numeral(a, f.filter as nat), numeral(b, f.company_prefix as nat), numeral(c, f.individual_asset_reference as nat)]
            giai_tag_uri(f)->Ok_0 == "urn:epc:tag:giai-96:".spec_bytes() + a + seq![DOT] + b
                + seq![DOT] + c && giai_pure_uri(f)->Ok_0 == "urn:epc:id:giai:".spec_bytes() + b
                + seq![DOT] + c && numeral(a, f.filter as nat) && numeral(
                b,
                f.company_prefix as nat,
            ) && b.len() == 12 - f.partition && numeral(c, f.individual_asset_reference as nat),
{
    lemma_giai_partition_table(f.partition);
    let (_, cd, _) = giai_layout(f.partition)->Some_0;
    let a = decimal(f.filter as nat);
    let b = zero_padded(f.company_prefix as nat, cd);
    let c = decimal(f.individual_asset_reference as nat);
    lemma_decimal_value(f.filter as nat);
    lemma_decimal_value(f.individual_asset_reference as nat);
    lemma_zero_padded_value(f.company_prefix as nat, cd);
    lemma_decimal_digits(f.filter as nat, 0);
    lemma_decimal_digits(f.company_prefix as nat, cd);
    lemma_decimal_digits(f.individual_asset_reference as nat, 0);
    assert(numeral(a, f.filter as nat) && numeral(b, f.company_prefix as nat) && numeral(
        c,
        f.individual_asset_reference as nat,
    ));
}

} // verus!
