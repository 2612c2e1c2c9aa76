//! ASCII text building: decimal and hexadecimal digits, and strings made
//! from UTF-8 bytes.

use vstd::prelude::*;
use vstd::string::StringSliceAdditionalSpecFns;
use vstd::utf8::{
    decode_utf8, encode_utf8, encode_utf8_decode_utf8, encode_utf8_valid_utf8,
    is_ascii_chars, is_ascii_chars_encode_utf8, valid_utf8,
};

verus! {

/// Every byte is ASCII.
pub open spec fn all_ascii(b: Seq<u8>) -> bool {
    forall|i: int| 0 <= i < b.len() ==> #[trigger] b[i] < 128
}

/// The ASCII digit of a value below ten.
pub open spec fn digit_byte(d: nat) -> u8 {
    (48 + d) as u8
}

/// The decimal digits of `n`, most significant first, without leading
/// zeros (`0` has the single digit `0`).
pub open spec fn decimal(n: nat) -> Seq<u8>
    decreases n,
{
    if n < 10 {
        seq![digit_byte(n)]
    } else {
        decimal(n / 10).push(digit_byte(n % 10))
    }
}

/// The decimal digits of `n`, led by zeros up to `width` digits.
pub open spec fn zero_padded(n: nat, width: nat) -> Seq<u8> {
    if decimal(n).len() >= width {
        decimal(n)
    } else {
        Seq::new((width - decimal(n).len()) as nat, |i: int| 48u8) + decimal(n)
    }
}

/// The uppercase hexadecimal digit of a value below sixteen.
pub open spec fn hex_digit(d: nat) -> u8 {
    if d < 10 {
        (48 + d) as u8
    } else {
        (55 + d) as u8
    }
}

/// Two uppercase hexadecimal digits per byte.
pub open spec fn hex_upper(b: Seq<u8>) -> Seq<u8>
    decreases b.len(),
{
    if b.len() == 0 {
        Seq::empty()
    } else {
        hex_upper(b.drop_last()) + seq![hex_digit(b.last() as nat / 16), hex_digit(b.last() as nat % 16)]
    }
}

/// The UTF-8 bytes of a string literal, when the literal is ASCII.
pub proof fn lemma_ascii_literal(s: &str)
    requires
        is_ascii_chars(s@),
    ensures
        all_ascii(s.spec_bytes()),
        s.spec_bytes() == Seq::new(s@.len(), |i: int| s@[i] as u8),
{
    is_ascii_chars_encode_utf8(s@);
}

/// ASCII bytes are valid UTF-8, and the string they decode to encodes back
/// to them.
pub proof fn lemma_ascii_valid_utf8(b: Seq<u8>)
    requires
        all_ascii(b),
    ensures
        valid_utf8(b),
        encode_utf8(decode_utf8(b)) == b,
{
    let c = Seq::new(b.len(), |i: int| b[i] as char);
    assert(is_ascii_chars(c));
    is_ascii_chars_encode_utf8(c);
    assert(encode_utf8(c) =~= b);
    encode_utf8_valid_utf8(c);
    encode_utf8_decode_utf8(c);
}

/// `String::from_utf8` of std: the string whose UTF-8 encoding is `bytes`,
/// exactly when `bytes` is valid UTF-8.
#[verifier::external_body]
pub(crate) fn string_from_utf8(bytes: Vec<u8>) -> (r: Option<String>)
    ensures
        r is Some <==> valid_utf8(bytes@),
        r matches Some(s) ==> s@ == decode_utf8(bytes@),
{
    String::from_utf8(bytes).ok()
}

/// The string whose UTF-8 encoding is the given valid bytes.
pub(crate) fn utf8_to_string(bytes: Vec<u8>) -> (r: String)
    requires
        valid_utf8(bytes@),
    ensures
        encode_utf8(r@) == bytes@,
{
    let ghost b = bytes@;
    match string_from_utf8(bytes) {
        Some(s) => {
            proof {
                vstd::utf8::decode_utf8_encode_utf8(b);
            }
            s
        },
        None => {
            assert(false);
            String::new()
        },
    }
}

/// The string whose UTF-8 encoding is the given ASCII bytes.
pub(crate) fn ascii_to_string(bytes: Vec<u8>) -> (r: String)
    requires
        all_ascii(bytes@),
    ensures
        encode_utf8(r@) == bytes@,
{
    proof {
        lemma_ascii_valid_utf8(bytes@);
    }
    utf8_to_string(bytes)
}

/// Append the decimal digits of `n`.
pub(crate) fn push_decimal(out: &mut Vec<u8>, n: u64)
    ensures
        final(out)@ == old(out)@ + decimal(n as nat),
    decreases n,
{
    if n >= 10 {
        push_decimal(out, n / 10);
    }
    out.push(48 + (n % 10) as u8);
    assert(final(out)@ =~= old(out)@ + decimal(n as nat));
}

/// The number of decimal digits of `n`.
pub(crate) fn decimal_len(n: u64) -> (r: usize)
    ensures
        r == decimal(n as nat).len(),
        r <= 20,
    decreases n,
{
    if n < 10 {
        1
    } else {
        proof {
            lemma_decimal_len_bound(n as nat);
        }
        1 + decimal_len(n / 10)
    }
}

/// A value below `10^k` (for `k >= 1`) has at most `k` decimal digits.
proof fn lemma_decimal_len_le(n: nat, k: nat)
    requires
        1 <= k,
        n < pow10(k),
    ensures
        decimal(n).len() <= k,
    decreases n,
{
    if n >= 10 {
        if k == 1 {
            reveal_with_fuel(pow10, 2);
            assert(false);
        } else {
            let p = pow10((k - 1) as nat);
            assert(pow10(k) == 10 * p);
            assert(n / 10 < p);
            lemma_decimal_len_le(n / 10, (k - 1) as nat);
        }
    }
}

/// A value below `2^64` has at most twenty decimal digits.
proof fn lemma_decimal_len_bound(n: nat)
    requires
        n < 0x1_0000_0000_0000_0000,
    ensures
        decimal(n).len() <= 20,
{
    reveal_with_fuel(pow10, 21);
    lemma_decimal_len_le(n, 20);
}

/// `10` to the power `n`.
pub open spec fn pow10(n: nat) -> nat
    decreases n,
{
    if n == 0 {
        1
    } else {
        10 * pow10((n - 1) as nat)
    }
}

/// Append the decimal digits of `n`, led by zeros up to `width` digits.
pub(crate) fn push_zero_padded(out: &mut Vec<u8>, n: u64, width: usize)
    ensures
        final(out)@ == old(out)@ + zero_padded(n as nat, width as nat),
{
    let len = decimal_len(n);
    if len < width {
        let mut k: usize = 0;
        while k < width - len
            invariant
                k <= width - len,
                out@ == old(out)@ + Seq::new(k as nat, |i: int| 48u8),
            decreases width - len - k,
        {
            out.push(48);
            k = k + 1;
            assert(out@ =~= old(out)@ + Seq::new(k as nat, |i: int| 48u8));
        }
        push_decimal(out, n);
        assert(out@ =~= old(out)@ + zero_padded(n as nat, width as nat));
    } else {
        push_decimal(out, n);
    }
}

/// The uppercase hexadecimal digit of a value below sixteen.
pub(crate) fn hex_digit_byte(d: u8) -> (r: u8)
    requires
        d < 16,
    ensures
        r == hex_digit(d as nat),
        r < 128,
{
    if d < 10 {
        48 + d
    } else {
        55 + d
    }
}

/// Append two uppercase hexadecimal digits per byte of `bytes`.
pub(crate) fn push_hex_upper(out: &mut Vec<u8>, bytes: &[u8])
    ensures
        final(out)@ == old(out)@ + hex_upper(bytes@),
{
    let mut i: usize = 0;
    assert(bytes@.subrange(0, 0) =~= Seq::<u8>::empty());
    while i < bytes.len()
        invariant
            i <= bytes@.len(),
            out@ == old(out)@ + hex_upper(bytes@.subrange(0, i as int)),
        decreases bytes@.len() - i,
    {
        let b = bytes[i];
        out.push(hex_digit_byte(b / 16));
        out.push(hex_digit_byte(b % 16));
        assert(bytes@.subrange(0, i + 1).drop_last() =~= bytes@.subrange(0, i as int));
        assert(out@ =~= old(out)@ + hex_upper(bytes@.subrange(0, i + 1)));
        i = i + 1;
    }
    assert(bytes@.subrange(0, bytes@.len() as int) =~= bytes@);
}

/// The number that a sequence of ASCII decimal digits reads as, most
/// significant digit first.
pub open spec fn digits_value(s: Seq<u8>) -> nat
    decreases s.len(),
{
    if s.len() == 0 {
        0
    } else {
        digits_value(s.drop_last()) * 10 + (s.last() - 48) as nat
    }
}

/// The decimal digits of `n` read back as `n`.
pub proof fn lemma_decimal_value(n: nat)
    ensures
        digits_value(decimal(n)) == n,
        decimal(n).len() >= 1,
    decreases n,
{
    if n >= 10 {
        lemma_decimal_value(n / 10);
        assert(decimal(n).drop_last() =~= decimal(n / 10));
        assert(decimal(n).last() == digit_byte(n % 10));
        assert((digit_byte(n % 10) - 48) as nat == n % 10);
        assert(n == (n / 10) * 10 + n % 10);
        let t = decimal(n);
        assert(t.len() > 0);
        assert(digits_value(t) == digits_value(t.drop_last()) * 10 + (t.last() - 48) as nat);
    } else {
        let t = decimal(n);
        assert(t.drop_last() =~= Seq::<u8>::empty());
        assert(t.last() == digit_byte(n));
        assert((digit_byte(n) - 48) as nat == n);
        assert(digits_value(t) == digits_value(t.drop_last()) * 10 + (t.last() - 48) as nat);
        assert(digits_value(Seq::<u8>::empty()) == 0);
    }
}

/// Leading zeros do not change the value read.
proof fn lemma_leading_zeros_value(k: nat, s: Seq<u8>)
    ensures
        digits_value(Seq::new(k, |i: int| 48u8) + s) == digits_value(s),
    decreases k + s.len(),
{
    let z = Seq::new(k, |i: int| 48u8);
    if s.len() == 0 {
        assert(z + s =~= z);
        if k > 0 {
            let z1 = Seq::new((k - 1) as nat, |i: int| 48u8);
            assert(z.drop_last() =~= z1);
            lemma_leading_zeros_value((k - 1) as nat, s);
            assert(z1 + s =~= z1);
        }
    } else {
        assert((z + s).drop_last() =~= z + s.drop_last());
        lemma_leading_zeros_value(k, s.drop_last());
    }
}

/// A value below `10^width` (width at least one), zero-padded to `width`
/// digits, is exactly `width` digits long and reads back as the value.
pub proof fn lemma_zero_padded_value(n: nat, width: nat)
    requires
        1 <= width,
        n < pow10(width),
    ensures
        zero_padded(n, width).len() == width,
        digits_value(zero_padded(n, width)) == n,
{
    lemma_decimal_value(n);
    lemma_decimal_len_le(n, width);
    if decimal(n).len() < width {
        lemma_leading_zeros_value((width - decimal(n).len()) as nat, decimal(n));
    }
}

/// The value of an uppercase hexadecimal digit (`0`-`9`, `A`-`F`), or `-1`
/// for any other byte.
pub open spec fn hex_value(c: u8) -> int {
    if 48 <= c <= 57 {
        c - 48
    } else if 65 <= c <= 70 {
        c - 55
    } else {
        -1
    }
}

/// Uppercase hexadecimal text has two digits per byte, the high nibble
/// first: digits `2i` and `2i + 1` read back as byte `i`.
pub proof fn lemma_hex_upper_digits(b: Seq<u8>)
    ensures
        hex_upper(b).len() == 2 * b.len(),
        forall|i: int|
            0 <= i < b.len() ==> 0 <= hex_value(#[trigger] hex_upper(b)[2 * i]) && 0 <= hex_value(
                hex_upper(b)[2 * i + 1],
            ) && hex_value(hex_upper(b)[2 * i]) * 16 + hex_value(hex_upper(b)[2 * i + 1]) == b[i],
    decreases b.len(),
{
    if b.len() > 0 {
        let p = b.drop_last();
        lemma_hex_upper_digits(p);
        let h = hex_upper(b);
        let hp = hex_upper(p);
        let x = b.last();
        assert(h == hp + seq![hex_digit(x as nat / 16), hex_digit(x as nat % 16)]);
        assert(hex_value(hex_digit(x as nat / 16)) == x as nat / 16);
        assert(hex_value(hex_digit(x as nat % 16)) == x as nat % 16);
        assert forall|i: int| 0 <= i < b.len() implies 0 <= hex_value(
            #[trigger] hex_upper(b)[2 * i],
        ) && 0 <= hex_value(hex_upper(b)[2 * i + 1]) && hex_value(hex_upper(b)[2 * i]) * 16
            + hex_value(hex_upper(b)[2 * i + 1]) == b[i] by {
            if i < p.len() {
                assert(h[2 * i] == hp[2 * i]);
                assert(h[2 * i + 1] == hp[2 * i + 1]);
                assert(b[i] == p[i]);
                assert(0 <= hex_value(hp[2 * i]));
            } else {
                assert(i == p.len());
                assert(h[2 * i] == hex_digit(x as nat / 16));
                assert(h[2 * i + 1] == hex_digit(x as nat % 16));
                assert(b[i] == x);
                assert(x as nat / 16 * 16 + x as nat % 16 == x);
            }
        }
    }
}

/// Decimal digits are ASCII.
pub proof fn lemma_decimal_ascii(n: nat)
    ensures
        all_ascii(decimal(n)),
    decreases n,
{
    if n >= 10 {
        lemma_decimal_ascii(n / 10);
    }
}

/// Zero-padded decimal digits are ASCII.
pub proof fn lemma_zero_padded_ascii(n: nat, width: nat)
    ensures
        all_ascii(zero_padded(n, width)),
{
    lemma_decimal_ascii(n);
}

/// Hexadecimal digits are ASCII.
pub proof fn lemma_hex_upper_ascii(b: Seq<u8>)
    ensures
        all_ascii(hex_upper(b)),
    decreases b.len(),
{
    if b.len() > 0 {
        lemma_hex_upper_ascii(b.drop_last());
    }
}

/// Appending ASCII bytes to ASCII bytes gives ASCII bytes.
pub broadcast proof fn lemma_ascii_concat(a: Seq<u8>, b: Seq<u8>)
    requires
        all_ascii(a),
        all_ascii(b),
    ensures
        #[trigger] all_ascii(a + b),
{
    assert forall|i: int| 0 <= i < (a + b).len() implies #[trigger] (a + b)[i] < 128 by {
        if i < a.len() {
            assert((a + b)[i] == a[i]);
        } else {
            assert((a + b)[i] == b[i - a.len()]);
        }
    }
}

} // verus!
