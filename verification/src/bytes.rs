//! Big-endian byte encodings and byte-buffer helpers shared by the frame
//! builders and the response parsers.

use vstd::prelude::*;

verus! {

/// The big-endian 16-bit value of two bytes.
pub open spec fn be16(hi: u8, lo: u8) -> u16 {
    (hi as int * 256 + lo as int) as u16
}

/// The big-endian 32-bit value of four bytes.
pub open spec fn be32(b0: u8, b1: u8, b2: u8, b3: u8) -> u32 {
    (b0 as int * 0x1000000 + b1 as int * 0x10000 + b2 as int * 0x100 + b3 as int) as u32
}

/// The number that bytes `i` and `i + 1` of `d` hold, high byte first.
pub open spec fn be_int16(d: Seq<u8>, i: int) -> int {
    d[i] as int * 256 + d[i + 1] as int
}

/// The number that bytes `i` to `i + 3` of `d` hold, high byte first.
pub open spec fn be_int32(d: Seq<u8>, i: int) -> int {
    d[i] as int * 0x1000000 + d[i + 1] as int * 0x10000 + d[i + 2] as int * 0x100 + d[i + 3] as int
}

/// The two big-endian bytes of a 16-bit value.
pub open spec fn u16_be(v: u16) -> Seq<u8> {
    seq![(v / 256) as u8, (v % 256) as u8]
}

/// The four big-endian bytes of a 32-bit value.
pub open spec fn u32_be(v: u32) -> Seq<u8> {
    seq![
        (v / 0x1000000) as u8,
        ((v / 0x10000) % 256) as u8,
        ((v / 0x100) % 256) as u8,
        (v % 256) as u8,
    ]
}

/// Encoding a 16-bit value and reading it back gives the value.
pub proof fn lemma_u16_be_round_trip(v: u16)
    ensures
        u16_be(v).len() == 2,
        be16(u16_be(v)[0], u16_be(v)[1]) == v,
{
}

/// Reading two bytes as a 16-bit value and encoding it gives the bytes back.
pub proof fn lemma_be16_round_trip(hi: u8, lo: u8)
    ensures
        u16_be(be16(hi, lo)) == seq![hi, lo],
{
    assert(u16_be(be16(hi, lo)) =~= seq![hi, lo]);
}

/// Encoding a 32-bit value and reading it back gives the value.
pub proof fn lemma_u32_be_round_trip(v: u32)
    ensures
        u32_be(v).len() == 4,
        be32(u32_be(v)[0], u32_be(v)[1], u32_be(v)[2], u32_be(v)[3]) == v,
{
}

/// Reading four bytes as a 32-bit value and encoding it gives the bytes back.
pub proof fn lemma_be32_round_trip(b0: u8, b1: u8, b2: u8, b3: u8)
    ensures
        u32_be(be32(b0, b1, b2, b3)) == seq![b0, b1, b2, b3],
{
    let v = be32(b0, b1, b2, b3);
    assert(v as int == b0 as int * 0x1000000 + b1 as int * 0x10000 + b2 as int * 0x100
        + b3 as int);
    assert(v / 0x1000000 == b0 && (v / 0x10000) % 256 == b1 && (v / 0x100) % 256 == b2 && v % 256
        == b3) by (nonlinear_arith)
        requires
            v as int == b0 as int * 0x1000000 + b1 as int * 0x10000 + b2 as int * 0x100
                + b3 as int,
    {}
    assert(u32_be(v) =~= seq![b0, b1, b2, b3]);
}

/// Read a big-endian 16-bit value from two bytes.
pub fn read_be16(hi: u8, lo: u8) -> (r: u16)
    ensures
        r == be16(hi, lo),
{
    (hi as u16) * 256 + (lo as u16)
}

/// Read a big-endian 32-bit value from four bytes.
pub fn read_be32(b0: u8, b1: u8, b2: u8, b3: u8) -> (r: u32)
    ensures
        r == be32(b0, b1, b2, b3),
{
    (b0 as u32) * 0x1000000 + (b1 as u32) * 0x10000 + (b2 as u32) * 0x100 + (b3 as u32)
}

/// Append the bytes of `src` to `out`.
pub fn extend_bytes(out: &mut Vec<u8>, src: &[u8])
    ensures
        final(out)@ == old(out)@ + src@,
{
    let mut i: usize = 0;
    while i < src.len()
        invariant
            0 <= i <= src@.len(),
            out@ == old(out)@ + src@.subrange(0, i as int),
        decreases src@.len() - i,
    {
        out.push(src[i]);
        i = i + 1;
        assert(src@.subrange(0, i as int) == src@.subrange(0, i - 1) + seq![src@[i - 1]]);
    }
    assert(src@.subrange(0, src@.len() as int) == src@);
}

/// Append the two big-endian bytes of `v` to `buf`.
pub fn push_u16_be(buf: &mut Vec<u8>, v: u16)
    ensures
        final(buf)@ == old(buf)@ + u16_be(v),
{
    buf.push((v / 256) as u8);
    buf.push((v % 256) as u8);
    assert(final(buf)@ =~= old(buf)@ + u16_be(v));
}

/// Append the four big-endian bytes of `v` to `buf`.
pub fn push_u32_be(buf: &mut Vec<u8>, v: u32)
    ensures
        final(buf)@ == old(buf)@ + u32_be(v),
{
    buf.push((v / 0x1000000) as u8);
    buf.push(((v / 0x10000) % 256) as u8);
    buf.push(((v / 0x100) % 256) as u8);
    buf.push((v % 256) as u8);
    assert(final(buf)@ =~= old(buf)@ + u32_be(v));
}


/// Whether `data` begins with the bytes of `prefix`.
pub fn starts_with(data: &[u8], prefix: &[u8]) -> (r: bool)
    ensures
        r == (data@.len() >= prefix@.len() && data@.subrange(0, prefix@.len() as int) == prefix@),
{
    if data.len() < prefix.len() {
        return false;
    }
    let mut i: usize = 0;
    while i < prefix.len()
        invariant
            0 <= i <= prefix@.len() <= data@.len(),
            data@.subrange(0, i as int) == prefix@.subrange(0, i as int),
        decreases prefix@.len() - i,
    {
        if data[i] != prefix[i] {
            assert(data@.subrange(0, prefix@.len() as int)[i as int] != prefix@[i as int]);
            return false;
        }
        assert(data@.subrange(0, i + 1) =~= prefix@.subrange(0, i + 1));
        i = i + 1;
    }
    assert(prefix@.subrange(0, prefix@.len() as int) =~= prefix@);
    true
}

/// Two big-endian bytes placed after `a` read back as their value.
pub proof fn lemma_u16_be_at(a: Seq<u8>, v: u16, b: Seq<u8>)
    ensures
        (a + u16_be(v) + b).len() == a.len() + 2 + b.len(),
        be_int16(a + u16_be(v) + b, a.len() as int) == v as int,
{
    let d = a + u16_be(v) + b;
    assert(d[a.len() as int] == u16_be(v)[0]);
    assert(d[a.len() as int + 1] == u16_be(v)[1]);
}

/// Four big-endian bytes placed after `a` read back as their value.
pub proof fn lemma_u32_be_at(a: Seq<u8>, v: u32, b: Seq<u8>)
    ensures
        (a + u32_be(v) + b).len() == a.len() + 4 + b.len(),
        be_int32(a + u32_be(v) + b, a.len() as int) == v as int,
{
    let d = a + u32_be(v) + b;
    assert(d[a.len() as int] == u32_be(v)[0]);
    assert(d[a.len() as int + 1] == u32_be(v)[1]);
    assert(d[a.len() as int + 2] == u32_be(v)[2]);
    assert(d[a.len() as int + 3] == u32_be(v)[3]);
    lemma_u32_be_round_trip(v);
}

} // verus!
