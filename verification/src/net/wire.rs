use vstd::prelude::*;

verus! {

/// Big-endian encoding of a 16-bit value.
pub open spec fn be16(x: u16) -> Seq<u8> {
    seq![(x / 256) as u8, (x % 256) as u8]
}

/// Big-endian encoding of a 32-bit value.
pub open spec fn be32(x: u32) -> Seq<u8> {
    seq![(x / 0x1000000) as u8, ((x / 0x10000) % 256) as u8, ((x / 256) % 256) as u8, (x % 256) as u8]
}

/// The 16-bit value of two big-endian bytes.
pub open spec fn from_be16(a: u8, b: u8) -> u16 {
    (a as nat * 256 + b as nat) as u16
}

/// The 32-bit value of four big-endian bytes.
pub open spec fn from_be32(a: u8, b: u8, c: u8, d: u8) -> u32 {
    (a as nat * 0x1000000 + b as nat * 0x10000 + c as nat * 256 + d as nat) as u32
}

/// Decoding an encoded 16-bit value gives it back.
pub proof fn lemma_be16_roundtrip(x: u16)
    ensures
        from_be16(be16(x)[0], be16(x)[1]) == x,
{
}

/// Decoding an encoded 32-bit value gives it back.
pub proof fn lemma_be32_roundtrip(x: u32)
    ensures
        from_be32(be32(x)[0], be32(x)[1], be32(x)[2], be32(x)[3]) == x,
{
    assert((x / 0x1000000) * 0x1000000 + ((x / 0x10000) % 256) * 0x10000 + ((x / 256) % 256) * 256 + x
        % 256 == x) by (bit_vector);
}

/// The two big-endian bytes of `x`.
pub fn u16_to_be(x: u16) -> (r: [u8; 2])
    ensures
        r@ == be16(x),
{
    let hi = (x >> 8) as u8;
    let lo = (x & 0xFF) as u8;
    assert(hi == x / 256 && lo == x % 256) by (bit_vector)
        requires
            hi == (x >> 8) as u8,
            lo == (x & 0xFF) as u8,
    ;
    let r = [hi, lo];
    assert(r@ =~= be16(x));
    r
}

/// The four big-endian bytes of `x`.
pub fn u32_to_be(x: u32) -> (r: [u8; 4])
    ensures
        r@ == be32(x),
{
    let b0 = (x >> 24) as u8;
    let b1 = ((x >> 16) & 0xFF) as u8;
    let b2 = ((x >> 8) & 0xFF) as u8;
    let b3 = (x & 0xFF) as u8;
    assert(b0 == x / 0x1000000 && b1 == (x / 0x10000) % 256 && b2 == (x / 256) % 256 && b3 == x % 256)
        by (bit_vector)
        requires
            b0 == (x >> 24) as u8,
            b1 == ((x >> 16) & 0xFF) as u8,
            b2 == ((x >> 8) & 0xFF) as u8,
            b3 == (x & 0xFF) as u8,
    ;
    let r = [b0, b1, b2, b3];
    assert(r@ =~= be32(x));
    r
}

/// The value of two big-endian bytes.
pub fn be_to_u16(a: u8, b: u8) -> (r: u16)
    ensures
        r == from_be16(a, b),
        r as nat == a as nat * 256 + b as nat,
{
    let r = ((a as u16) << 8) | (b as u16);
    assert(r == a as u16 * 256 + b as u16) by (bit_vector)
        requires
            r == ((a as u16) << 8) | (b as u16),
    ;
    r
}

/// The value of four big-endian bytes.
pub fn be_to_u32(a: u8, b: u8, c: u8, d: u8) -> (r: u32)
    ensures
        r == from_be32(a, b, c, d),
        r as nat == a as nat * 0x1000000 + b as nat * 0x10000 + c as nat * 256 + d as nat,
{
    let r = ((a as u32) << 24) | ((b as u32) << 16) | ((c as u32) << 8) | (d as u32);
    assert(r == a as u32 * 0x1000000 + b as u32 * 0x10000 + c as u32 * 256 + d as u32) by (bit_vector)
        requires
            r == ((a as u32) << 24) | ((b as u32) << 16) | ((c as u32) << 8) | (d as u32),
    ;
    r
}

/// Appends the bytes of `src` to `dst`.
pub fn push_all(dst: &mut Vec<u8>, src: &[u8])
    ensures
        final(dst)@ == old(dst)@ + src@,
{
    let ghost before = dst@;
    let mut i: usize = 0;
    while i < src.len()
        invariant
            i <= src@.len(),
            dst@ == before + src@.subrange(0, i as int),
        decreases src@.len() - i,
    {
        dst.push(src[i]);
        i = i + 1;
        assert(dst@ =~= before + src@.subrange(0, i as int));
    }
    assert(src@.subrange(0, src@.len() as int) =~= src@);
}

/// A copy of `data[start..end]`.
pub fn copy_range(data: &[u8], start: usize, end: usize) -> (r: Vec<u8>)
    requires
        start <= end <= data@.len(),
    ensures
        r@ == data@.subrange(start as int, end as int),
{
    let mut v: Vec<u8> = Vec::with_capacity(end - start);
    let mut i: usize = start;
    while i < end
        invariant
            start <= i <= end,
            end <= data@.len(),
            v@ == data@.subrange(start as int, i as int),
        decreases end - i,
    {
        v.push(data[i]);
        i = i + 1;
        assert(v@ =~= data@.subrange(start as int, i as int));
    }
    v
}

} // verus!
