use vstd::prelude::*;
use vstd::string::StringSliceAdditionalSpecFns;
use vstd::utf8::{encode_utf8, valid_utf8};

use crate::bytes::{extend_bytes, u16_be};
use crate::text::{
    all_ascii, decimal, hex_upper, lemma_ascii_literal, lemma_ascii_valid_utf8, lemma_decimal_ascii,
    lemma_hex_upper_ascii, push_decimal, push_hex_upper, utf8_to_string,
};

verus! {

/// Errors returned by this crate.
#[derive(Debug, Clone, PartialEq, Eq)]
pub enum ProtocolError {
    /// Packet is too short to be valid.
    PacketTooShort,
    /// Packet does not start with 0xFF.
    InvalidHeader(u8),
    /// Data length field does not match packet size.
    LengthMismatch {
        /// Length declared in packet.
        declared: usize,
        /// Actual observed payload length.
        actual: usize,
    },
    /// The CRC in packet does not match computed CRC.
    InvalidCrc {
        /// CRC computed from packet bytes.
        expected: u16,
        /// CRC read from packet bytes.
        actual: u16,
    },
    /// Host command data exceeded 255 bytes.
    DataTooLong(usize),
    /// A command-specific argument is invalid.
    InvalidArgument(&'static str),
    /// Reader response had an unexpected format.
    InvalidResponse(&'static str),
}


/// The text of an error: what it is, with its values (hexadecimal for a
/// header byte and CRCs, decimal for lengths).
pub open spec fn error_text(e: ProtocolError) -> Seq<u8> {
    match e {
        ProtocolError::PacketTooShort => "packet too short".spec_bytes(),
        ProtocolError::InvalidHeader(h) => "invalid header 0x".spec_bytes() + hex_upper(seq![h]),
        ProtocolError::LengthMismatch { declared, actual } => "length mismatch: declared=".spec_bytes()
            + decimal(declared as nat) + ", actual=".spec_bytes() + decimal(actual as nat),
        ProtocolError::InvalidCrc { expected, actual } => "invalid CRC: expected=0x".spec_bytes()
            + hex_upper(u16_be(expected)) + ", actual=0x".spec_bytes() + hex_upper(u16_be(actual)),
        ProtocolError::DataTooLong(n) => "data length ".spec_bytes() + decimal(n as nat)
            + " exceeds 255 bytes".spec_bytes(),
        ProtocolError::InvalidArgument(msg) => "invalid argument: ".spec_bytes() + msg.spec_bytes(),
        ProtocolError::InvalidResponse(msg) => "invalid response: ".spec_bytes() + msg.spec_bytes(),
    }
}

/// Append an ASCII literal.
fn push_literal(out: &mut Vec<u8>, s: &str)
    requires
        vstd::utf8::is_ascii_chars(s@),
    ensures
        final(out)@ == old(out)@ + s.spec_bytes(),
        all_ascii(s.spec_bytes()),
{
    proof {
        lemma_ascii_literal(s);
    }
    extend_bytes(out, s.as_bytes());
}

impl ProtocolError {
    /// The text of this error, as its `Display` would write it.
    pub fn to_string(&self) -> (r: String)
        ensures
            encode_utf8(r@) == error_text(*self),
    {
        broadcast use crate::text::lemma_ascii_concat;
        broadcast use vstd::utf8::valid_utf8_concat;

        let mut out: Vec<u8> = Vec::new();
        match self {
            ProtocolError::PacketTooShort => {
                proof {
                    reveal_strlit("packet too short");
                }
                push_literal(&mut out, "packet too short");
            },
            ProtocolError::InvalidHeader(h) => {
                proof {
                    reveal_strlit("invalid header 0x");
                    lemma_hex_upper_ascii(seq![*h]);
                }
                push_literal(&mut out, "invalid header 0x");
                let one: [u8; 1] = [*h];
                assert(one@ =~= seq![*h]);
                push_hex_upper(&mut out, &one);
            },
            ProtocolError::LengthMismatch { declared, actual } => {
                proof {
                    reveal_strlit("length mismatch: declared=");
                    reveal_strlit(", actual=");
                    lemma_decimal_ascii(*declared as nat);
                    lemma_decimal_ascii(*actual as nat);
                }
                push_literal(&mut out, "length mismatch: declared=");
                push_decimal(&mut out, *declared as u64);
                push_literal(&mut out, ", actual=");
                push_decimal(&mut out, *actual as u64);
            },
            ProtocolError::InvalidCrc { expected, actual } => {
                proof {
                    reveal_strlit("invalid CRC: expected=0x");
                    reveal_strlit(", actual=0x");
                    lemma_hex_upper_ascii(u16_be(*expected));
                    lemma_hex_upper_ascii(u16_be(*actual));
                }
                push_literal(&mut out, "invalid CRC: expected=0x");
                let e: [u8; 2] = [(*expected / 256) as u8, (*expected % 256) as u8];
                assert(e@ =~= u16_be(*expected));
                push_hex_upper(&mut out, &e);
                push_literal(&mut out, ", actual=0x");
                let a: [u8; 2] = [(*actual / 256) as u8, (*actual % 256) as u8];
                assert(a@ =~= u16_be(*actual));
                push_hex_upper(&mut out, &a);
            },
            ProtocolError::DataTooLong(n) => {
                proof {
                    reveal_strlit("data length ");
                    reveal_strlit(" exceeds 255 bytes");
                    lemma_decimal_ascii(*n as nat);
                }
                push_literal(&mut out, "data length ");
                push_decimal(&mut out, *n as u64);
                push_literal(&mut out, " exceeds 255 bytes");
            },
            ProtocolError::InvalidArgument(msg) => {
                proof {
                    reveal_strlit("invalid argument: ");
                    vstd::utf8::encode_utf8_valid_utf8(msg@);
                }
                push_literal(&mut out, "invalid argument: ");
                extend_bytes(&mut out, msg.as_bytes());
            },
            ProtocolError::InvalidResponse(msg) => {
                proof {
                    reveal_strlit("invalid response: ");
                    vstd::utf8::encode_utf8_valid_utf8(msg@);
                }
                push_literal(&mut out, "invalid response: ");
                extend_bytes(&mut out, msg.as_bytes());
            },
        }
        proof {
            assert(out@ =~= error_text(*self));
            match self {
                ProtocolError::InvalidArgument(msg) => {
                    let head = "invalid argument: ".spec_bytes();
                    lemma_ascii_valid_utf8(head);
                    assert(valid_utf8(head + msg.spec_bytes()));
                },
                ProtocolError::InvalidResponse(msg) => {
                    let head = "invalid response: ".spec_bytes();
                    lemma_ascii_valid_utf8(head);
                    assert(valid_utf8(head + msg.spec_bytes()));
                },
                _ => {
                    lemma_ascii_valid_utf8(out@);
                },
            }
        }
        utf8_to_string(out)
    }
}

} // verus!
