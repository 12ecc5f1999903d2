//! Binary primitives: big-endian integer encoding and decoding, the MPI
//! writer, and the one-byte-length subpacket writer.

use vstd::prelude::*;

verus! {

/// The two big-endian bytes of a 16-bit integer.
pub open spec fn spec_be16(n: u16) -> Seq<u8> {
    seq![(n / 256) as u8, (n % 256) as u8]
}

/// The four big-endian bytes of a 32-bit integer.
pub open spec fn spec_be32(n: u32) -> Seq<u8> {
    seq![
        (n / 0x1000000) as u8,
        ((n / 0x10000) % 256) as u8,
        ((n / 256) % 256) as u8,
        (n % 256) as u8,
    ]
}

/// The 16-bit integer held by two big-endian bytes.
pub open spec fn spec_be16_val(s: Seq<u8>) -> u16
    recommends
        s.len() == 2,
{
    (s[0] * 256 + s[1]) as u16
}

/// The 32-bit integer held by four big-endian bytes.
pub open spec fn spec_be32_val(s: Seq<u8>) -> u32
    recommends
        s.len() == 4,
{
    (s[0] * 0x1000000 + s[1] * 0x10000 + s[2] * 256 + s[3]) as u32
}

/// Decoding inverts encoding for 16-bit integers.
pub proof fn lemma_be16_round_trip(n: u16)
    ensures
        spec_be16_val(spec_be16(n)) == n,
{
}

/// Encoding inverts decoding: two bytes are recovered from their 16-bit value.
pub proof fn lemma_be16_val_round_trip(s: Seq<u8>)
    requires
        s.len() == 2,
    ensures
        spec_be16(spec_be16_val(s)) =~= s,
{
}

/// Append the two big-endian bytes of `n`.
pub fn push_be16(out: &mut Vec<u8>, n: u16)
    ensures
        final(out)@ == old(out)@ + spec_be16(n),
{
    out.push((n / 256) as u8);
    out.push((n % 256) as u8);
    assert(out@ =~= old(out)@ + spec_be16(n));
}

/// Append the four big-endian bytes of `n`.
pub fn push_be32(out: &mut Vec<u8>, n: u32)
    ensures
        final(out)@ == old(out)@ + spec_be32(n),
{
    out.push((n / 0x1000000) as u8);
    out.push(((n / 0x10000) % 256) as u8);
    out.push(((n / 256) % 256) as u8);
    out.push((n % 256) as u8);
    assert(out@ =~= old(out)@ + spec_be32(n));
}

/// Read the 16-bit big-endian integer at offset `i`.
pub fn read_be16(s: &[u8], i: usize) -> (r: u16)
    requires
        i + 2 <= s@.len(),
    ensures
        r == spec_be16_val(s@.subrange(i as int, i + 2)),
{
    let r = (s[i] as u16) * 256 + (s[i + 1] as u16);
    proof {
        let t = s@.subrange(i as int, i + 2);
        assert(t[0] == s@[i as int] && t[1] == s@[i + 1]);
    }
    r
}

/// Read the 32-bit big-endian integer at offset `i`.
pub fn read_be32(s: &[u8], i: usize) -> (r: u32)
    requires
        i + 4 <= s@.len(),
    ensures
        r == spec_be32_val(s@.subrange(i as int, i + 4)),
{
    let r = (s[i] as u32) * 0x1000000 + (s[i + 1] as u32) * 0x10000 + (s[i + 2] as u32) * 256
        + (s[i + 3] as u32);
    proof {
        let t = s@.subrange(i as int, i + 4);
        assert(t[0] == s@[i as int] && t[1] == s@[i + 1]);
        assert(t[2] == s@[i + 2] && t[3] == s@[i + 3]);
    }
    r
}

/// Append every byte of `s`.
pub fn push_bytes(out: &mut Vec<u8>, s: &[u8])
    ensures
        final(out)@ == old(out)@ + s@,
{
    let mut i: usize = 0;
    while i < s.len()
        invariant
            i <= s@.len(),
            out@ == old(out)@ + s@.subrange(0, i as int),
        decreases s@.len() - i,
    {
        out.push(s[i]);
        i = i + 1;
        assert(out@ =~= old(out)@ + s@.subrange(0, i as int));
    }
    assert(s@.subrange(0, s@.len() as int) =~= s@);
}

/// The number of significant bits in a byte: the position of its
/// most-significant set bit, counted from one.
pub open spec fn u8_bitlen(b: u8) -> nat {
    if b >= 128 {
        8
    } else if b >= 64 {
        7
    } else if b >= 32 {
        6
    } else if b >= 16 {
        5
    } else if b >= 8 {
        4
    } else if b >= 4 {
        3
    } else if b >= 2 {
        2
    } else if b >= 1 {
        1
    } else {
        0
    }
}

/// The bit length of a big-endian scalar: leading zero bytes contribute
/// nothing, and the first nonzero byte fixes the most-significant bit.
pub open spec fn spec_mpi_bitlen(s: Seq<u8>) -> nat
    decreases s.len(),
{
    if s.len() == 0 {
        0
    } else if s[0] == 0 {
        spec_mpi_bitlen(s.skip(1))
    } else {
        (s.len() - 1) as nat * 8 + u8_bitlen(s[0])
    }
}

/// The bit length never exceeds eight bits per byte.
pub proof fn lemma_mpi_bitlen_bound(s: Seq<u8>)
    ensures
        spec_mpi_bitlen(s) <= s.len() * 8,
    decreases s.len(),
{
    if s.len() > 0 && s[0] == 0 {
        lemma_mpi_bitlen_bound(s.skip(1));
    }
}

/// An MPI: the 2-byte big-endian bit length, then the raw scalar bytes.
///
/// All scalar bytes are written, leading zeroes included, so that the
/// encoded width is fixed by the scalar's width alone.
pub open spec fn spec_mpi(s: Seq<u8>) -> Seq<u8> {
    spec_be16(spec_mpi_bitlen(s) as u16) + s
}

/// The number of significant bits in a byte.
fn byte_bitlen(b: u8) -> (r: u8)
    ensures
        r == u8_bitlen(b),
{
    if b >= 128 {
        8
    } else if b >= 64 {
        7
    } else if b >= 32 {
        6
    } else if b >= 16 {
        5
    } else if b >= 8 {
        4
    } else if b >= 4 {
        3
    } else if b >= 2 {
        2
    } else if b >= 1 {
        1
    } else {
        0
    }
}

/// A prefix of zero bytes leaves the bit length unchanged.
proof fn lemma_mpi_bitlen_skip_zeroes(s: Seq<u8>, k: int)
    requires
        0 <= k <= s.len(),
        forall|j: int| 0 <= j < k ==> s[j] == 0,
    ensures
        spec_mpi_bitlen(s) == spec_mpi_bitlen(s.skip(k)),
    decreases k,
{
    if k > 0 {
        assert(s[0] == 0);
        assert(forall|j: int| 0 <= j < k - 1 ==> s.skip(1)[j] == s[j + 1] && s[j + 1] == 0);
        assert(s.skip(1).skip(k - 1) =~= s.skip(k));
        lemma_mpi_bitlen_skip_zeroes(s.skip(1), k - 1);
    } else {
        assert(s.skip(0) =~= s);
    }
}

/// Append the MPI encoding of a scalar of at most 32 bytes.
pub fn push_mpi(out: &mut Vec<u8>, s: &[u8])
    requires
        s@.len() <= 32,
    ensures
        final(out)@ == old(out)@ + spec_mpi(s@),
{
    let mut k: usize = 0;
    while k < s.len() && s[k] == 0
        invariant
            k <= s@.len(),
            forall|j: int| 0 <= j < k ==> s@[j] == 0,
        decreases s@.len() - k,
    {
        k = k + 1;
    }
    proof {
        lemma_mpi_bitlen_skip_zeroes(s@, k as int);
        lemma_mpi_bitlen_bound(s@);
    }
    let bits: u16 = if k == s.len() {
        0
    } else {
        proof {
            assert(s@.skip(k as int)[0] == s@[k as int]);
            lemma_mpi_bitlen_bound(s@.skip(k as int));
        }
        ((s.len() - k - 1) as u16) * 8 + byte_bitlen(s[k]) as u16
    };
    push_be16(out, bits);
    push_bytes(out, s);
    assert(out@ =~= old(out)@ + spec_mpi(s@));
}

/// A subpacket: a one-byte length covering tag and data, the tag byte,
/// then the data. Only single-byte lengths exist in this subset.
pub open spec fn spec_subpacket(tag: u8, data: Seq<u8>) -> Seq<u8>
    recommends
        data.len() <= 190,
{
    seq![(data.len() + 1) as u8, tag] + data
}

/// Append one subpacket with a single-byte length.
pub fn push_subpacket(out: &mut Vec<u8>, tag: u8, data: &[u8])
    requires
        data@.len() <= 190,
    ensures
        final(out)@ == old(out)@ + spec_subpacket(tag, data@),
{
    out.push((data.len() + 1) as u8);
    out.push(tag);
    push_bytes(out, data);
    assert(out@ =~= old(out)@ + spec_subpacket(tag, data@));
}

} // verus!
