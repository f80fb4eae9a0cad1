use vstd::prelude::*;

verus! {

/// Sum of the big-endian 16-bit words of `s`; an odd last byte is the high
/// byte of a word whose low byte is zero.
pub open spec fn word_sum(s: Seq<u8>) -> nat
    decreases s.len(),
{
    if s.len() == 0 {
        0
    } else if s.len() == 1 {
        (s[0] as nat) * 256
    } else {
        (s[0] as nat) * 256 + (s[1] as nat) + word_sum(s.subrange(2, s.len() as int))
    }
}

/// End-around-carry folding of a sum into 16 bits.
pub open spec fn fold16(sum: nat) -> nat
    decreases sum,
{
    if sum < 65536 {
        sum
    } else {
        proof {
            assert(sum % 65536 + sum / 65536 < sum) by (nonlinear_arith)
                requires sum >= 65536;
        }
        fold16(sum % 65536 + sum / 65536)
    }
}

/// The Internet checksum (one's complement of the folded word sum) of a
/// sequence of 16-bit words whose sum is `sum`.
pub open spec fn ones_complement(sum: nat) -> u16 {
    (65535 - fold16(sum)) as u16
}

/// The Internet checksum of `s`.
pub open spec fn internet_checksum_spec(s: Seq<u8>) -> u16 {
    ones_complement(word_sum(s))
}

/// A folded sum is at most 0xFFFF.
pub proof fn lemma_fold16_bound(sum: nat)
    ensures
        fold16(sum) < 65536,
    decreases sum,
{
    if sum >= 65536 {
        assert(sum % 65536 + sum / 65536 < sum) by (nonlinear_arith)
            requires sum >= 65536;
        lemma_fold16_bound(sum % 65536 + sum / 65536);
    }
}

/// The word sum of `s` grows at most by 32768 per byte.
pub proof fn lemma_word_sum_bound(s: Seq<u8>)
    ensures
        word_sum(s) <= 32768 * (s.len() + 1),
    decreases s.len(),
{
    if s.len() >= 2 {
        lemma_word_sum_bound(s.subrange(2, s.len() as int));
    }
}

/// Folds a 32-bit running sum into 16 bits and complements it.
pub fn fold_and_complement(sum: u32) -> (r: u16)
    ensures
        r == ones_complement(sum as nat),
{
    let mut s = sum;
    while (s >> 16) != 0
        invariant
            fold16(s as nat) == fold16(sum as nat),
        decreases s,
    {
        let lo = s & 0xFFFF;
        let hi = s >> 16;
        assert(lo == s % 65536 && hi == s / 65536 && s >= 65536) by (bit_vector)
            requires
                lo == s & 0xFFFF,
                hi == s >> 16,
                hi != 0,
        ;
        s = lo + hi;
    }
    assert(s < 65536) by (bit_vector)
        requires
            (s >> 16) == 0,
    ;
    let r = !s;
    let out = r as u16;
    assert(out == 65535 - s) by (bit_vector)
        requires
            r == !s,
            out == r as u16,
            s < 65536,
    ;
    out
}

/// Adds the big-endian 16-bit words of `data` to `start`.
pub fn add_words(start: u32, data: &[u8]) -> (r: u32)
    requires
        start + word_sum(data@) <= u32::MAX,
    ensures
        r == start + word_sum(data@),
{
    let mut sum = start;
    let mut i: usize = 0;
    assert(data@.subrange(0, data@.len() as int) =~= data@);
    while i < data.len()
        invariant
            i <= data.len(),
            i % 2 == 0 || i == data.len(),
            sum + word_sum(data@.subrange(i as int, data@.len() as int)) == start + word_sum(data@),
            start + word_sum(data@) <= u32::MAX,
        decreases data.len() - i,
    {
        let ghost rest = data@.subrange(i as int, data@.len() as int);
        if i + 1 < data.len() {
            assert(rest.subrange(2, rest.len() as int) =~= data@.subrange(i + 2, data@.len() as int));
            let w = ((data[i] as u32) << 8) | (data[i + 1] as u32);
            let a = data[i];
            let b = data[i + 1];
            assert(w == (a as u32) * 256 + (b as u32)) by (bit_vector)
                requires
                    w == ((a as u32) << 8) | (b as u32),
            ;
            sum = sum + w;
            i = i + 2;
        } else {
            let a = data[i];
            let w = (a as u32) << 8;
            assert(w == (a as u32) * 256) by (bit_vector)
                requires
                    w == (a as u32) << 8,
            ;
            assert(data@.subrange(data@.len() as int, data@.len() as int) =~= Seq::<u8>::empty());
            sum = sum + w;
            i = i + 1;
        }
    }
    assert(data@.subrange(i as int, data@.len() as int) =~= Seq::<u8>::empty());
    sum
}

/// The Internet checksum (RFC 1071) of `data`.
pub fn internet_checksum(data: &[u8]) -> (r: u16)
    requires
        word_sum(data@) <= u32::MAX,
    ensures
        r == internet_checksum_spec(data@),
{
    let sum = add_words(0, data);
    fold_and_complement(sum)
}

} // verus!
