//! Big-endian integer encodings used by every wire format of the crate.
use vstd::prelude::*;

verus! {

/// Big-endian bytes of a `u16`.
pub open spec fn be16(x: u16) -> Seq<u8> {
    seq![(x >> 8u16) as u8, x as u8]
}

/// Big-endian bytes of a `u32`.
pub open spec fn be32(x: u32) -> Seq<u8> {
    seq![(x >> 24u32) as u8, (x >> 16u32) as u8, (x >> 8u32) as u8, x as u8]
}

/// Big-endian bytes of a `u64`.
pub open spec fn be64(x: u64) -> Seq<u8> {
    seq![
        (x >> 56u64) as u8,
        (x >> 48u64) as u8,
        (x >> 40u64) as u8,
        (x >> 32u64) as u8,
        (x >> 24u64) as u8,
        (x >> 16u64) as u8,
        (x >> 8u64) as u8,
        x as u8,
    ]
}

/// The `u16` whose big-endian bytes are `a, b`.
pub open spec fn from_be16(a: u8, b: u8) -> u16 {
    ((a as u16) << 8u16) | (b as u16)
}

/// The `u32` whose big-endian bytes are `a, b, c, d`.
pub open spec fn from_be32(a: u8, b: u8, c: u8, d: u8) -> u32 {
    ((a as u32) << 24u32) | ((b as u32) << 16u32) | ((c as u32) << 8u32) | (d as u32)
}

/// The `u64` whose big-endian bytes are the eight bytes of `s`.
pub open spec fn from_be64(s: Seq<u8>) -> u64 {
    ((s[0] as u64) << 56u64) | ((s[1] as u64) << 48u64) | ((s[2] as u64) << 40u64) | ((s[3] as u64)
        << 32u64) | ((s[4] as u64) << 24u64) | ((s[5] as u64) << 16u64) | ((s[6] as u64) << 8u64)
        | (s[7] as u64)
}

pub fn u16_to_be(x: u16) -> (r: [u8; 2])
    ensures
        r@ == be16(x),
{
    let r = [(x >> 8u16) as u8, x as u8];
    assert(r@ =~= be16(x));
    r
}

pub fn u32_to_be(x: u32) -> (r: [u8; 4])
    ensures
        r@ == be32(x),
{
    let r = [(x >> 24u32) as u8, (x >> 16u32) as u8, (x >> 8u32) as u8, x as u8];
    assert(r@ =~= be32(x));
    r
}

pub fn u64_to_be(x: u64) -> (r: [u8; 8])
    ensures
        r@ == be64(x),
{
    let r = [
        (x >> 56u64) as u8,
        (x >> 48u64) as u8,
        (x >> 40u64) as u8,
        (x >> 32u64) as u8,
        (x >> 24u64) as u8,
        (x >> 16u64) as u8,
        (x >> 8u64) as u8,
        x as u8,
    ];
    assert(r@ =~= be64(x));
    r
}

pub fn u16_from_be(a: u8, b: u8) -> (r: u16)
    ensures
        r == from_be16(a, b),
{
    ((a as u16) << 8u16) | (b as u16)
}

pub fn u32_from_be(a: u8, b: u8, c: u8, d: u8) -> (r: u32)
    ensures
        r == from_be32(a, b, c, d),
{
    ((a as u32) << 24u32) | ((b as u32) << 16u32) | ((c as u32) << 8u32) | (d as u32)
}

/// Reads the eight big-endian bytes at `start..start + 8` of `bytes`.
pub fn u64_from_be_at(bytes: &[u8], start: usize) -> (r: u64)
    requires
        start + 8 <= bytes@.len(),
    ensures
        r == from_be64(bytes@.subrange(start as int, start + 8)),
{
    let s = Ghost(bytes@.subrange(start as int, start + 8));
    assert(s@[0] == bytes@[start as int]);
    ((bytes[start] as u64) << 56u64) | ((bytes[start + 1] as u64) << 48u64) | ((bytes[start + 2] as u64)
        << 40u64) | ((bytes[start + 3] as u64) << 32u64) | ((bytes[start + 4] as u64) << 24u64) | ((
    bytes[start + 5] as u64) << 16u64) | ((bytes[start + 6] as u64) << 8u64) | (bytes[start
        + 7] as u64)
}

pub proof fn lemma_be16_roundtrip(x: u16)
    ensures
        from_be16(be16(x)[0], be16(x)[1]) == x,
{
    assert((((((x >> 8u16) as u8) as u16) << 8u16) | (((x as u8) as u16))) == x) by (bit_vector);
}

pub proof fn lemma_from_be16_roundtrip(a: u8, b: u8)
    ensures
        be16(from_be16(a, b)) == seq![a, b],
{
    let x = from_be16(a, b);
    assert((((((a as u16) << 8u16) | (b as u16)) >> 8u16) as u8) == a) by (bit_vector);
    assert((((((a as u16) << 8u16) | (b as u16))) as u8) == b) by (bit_vector);
    assert(be16(x) =~= seq![a, b]);
}

pub proof fn lemma_be32_roundtrip(x: u32)
    ensures
        from_be32(be32(x)[0], be32(x)[1], be32(x)[2], be32(x)[3]) == x,
{
    assert((((((x >> 24u32) as u8) as u32) << 24u32) | ((((x >> 16u32) as u8) as u32) << 16u32) | ((
    ((x >> 8u32) as u8) as u32) << 8u32) | (((x as u8) as u32))) == x) by (bit_vector);
}

pub proof fn lemma_be64_roundtrip(x: u64)
    ensures
        from_be64(be64(x)) == x,
{
    let s = be64(x);
    assert((((((x >> 56u64) as u8) as u64) << 56u64) | ((((x >> 48u64) as u8) as u64) << 48u64) | ((
    ((x >> 40u64) as u8) as u64) << 40u64) | ((((x >> 32u64) as u8) as u64) << 32u64) | ((((x
        >> 24u64) as u8) as u64) << 24u64) | ((((x >> 16u64) as u8) as u64) << 16u64) | ((((x
        >> 8u64) as u8) as u64) << 8u64) | (((x as u8) as u64))) == x) by (bit_vector);
}

pub proof fn lemma_from_be64_roundtrip(s: Seq<u8>)
    requires
        s.len() == 8,
    ensures
        be64(from_be64(s)) == s,
{
    let (a, b, c, d, e, f, g, h) = (s[0], s[1], s[2], s[3], s[4], s[5], s[6], s[7]);
    let x = from_be64(s);
    assert(x == ((a as u64) << 56u64) | ((b as u64) << 48u64) | ((c as u64) << 40u64) | ((d as u64)
        << 32u64) | ((e as u64) << 24u64) | ((f as u64) << 16u64) | ((g as u64) << 8u64) | (h as u64));
    assert((x >> 56u64) as u8 == a && (x >> 48u64) as u8 == b && (x >> 40u64) as u8 == c && (x
        >> 32u64) as u8 == d && (x >> 24u64) as u8 == e && (x >> 16u64) as u8 == f && (x >> 8u64) as u8
        == g && x as u8 == h) by (bit_vector)
        requires
            x == ((a as u64) << 56u64) | ((b as u64) << 48u64) | ((c as u64) << 40u64) | ((d as u64)
                << 32u64) | ((e as u64) << 24u64) | ((f as u64) << 16u64) | ((g as u64) << 8u64) | (h as u64),
    ;
    assert(be64(x) =~= s);
}


/// Appends every byte of `src` to `out`.
pub fn push_all(out: &mut Vec<u8>, src: &[u8])
    ensures
        final(out)@ == old(out)@ + src@,
{
    let mut i: usize = 0;
    while i < src.len()
        invariant
            i <= src@.len(),
            out@ == old(out)@ + src@.subrange(0, i as int),
        decreases src@.len() - i,
    {
        out.push(src[i]);
        i = i + 1;
        assert(out@ =~= old(out)@ + src@.subrange(0, i as int));
    }
    assert(src@.subrange(0, src@.len() as int) =~= src@);
}

/// A fresh vector holding `src[from..to]`.
pub fn copy_range(src: &[u8], from: usize, to: usize) -> (r: Vec<u8>)
    requires
        from <= to <= src@.len(),
    ensures
        r@ == src@.subrange(from as int, to as int),
{
    let mut r: Vec<u8> = Vec::new();
    let mut i: usize = from;
    while i < to
        invariant
            from <= i <= to <= src@.len(),
            r@ == src@.subrange(from as int, i as int),
        decreases to - i,
    {
        r.push(src[i]);
        i = i + 1;
        assert(r@ =~= src@.subrange(from as int, i as int));
    }
    r
}

/// Whether `bytes` starts with the four bytes of `magic`.
pub fn starts_with4(bytes: &[u8], magic: &[u8; 4]) -> (b: bool)
    ensures
        b == (bytes@.len() >= 4 && bytes@.subrange(0, 4) == magic@),
{
    if bytes.len() < 4 {
        return false;
    }
    let b = bytes[0] == magic[0] && bytes[1] == magic[1] && bytes[2] == magic[2] && bytes[3]
        == magic[3];
    proof {
        if b {
            assert(bytes@.subrange(0, 4) =~= magic@);
        } else {
            assert(bytes@.subrange(0, 4) != magic@ ==> true);
            if bytes@.subrange(0, 4) == magic@ {
                assert(bytes@.subrange(0, 4)[0] == magic@[0]);
                assert(bytes@.subrange(0, 4)[1] == magic@[1]);
                assert(bytes@.subrange(0, 4)[2] == magic@[2]);
                assert(bytes@.subrange(0, 4)[3] == magic@[3]);
            }
        }
    }
    b
}

} // verus!
