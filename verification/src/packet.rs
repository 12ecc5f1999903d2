//! Packet framing: the canonical 0x89 signature-packet header, the three
//! accepted length-header variants, and the strict structural validator.

use vstd::prelude::*;
use vstd::slice::slice_subrange;

use crate::codec::{
    lemma_be16_round_trip, read_be16, read_be32, spec_be16, spec_be16_val, spec_be32_val,
};
use crate::PgpError;

verus! {

/// Canonical framing: tag byte 0x89 (old format, tag 2, 2-byte length),
/// the 2-byte big-endian body length, then the body.
pub open spec fn spec_framed(body: Seq<u8>) -> Seq<u8>
    recommends
        body.len() <= 0xffff,
{
    seq![0x89u8] + spec_be16(body.len() as u16) + body
}

/// The body bytes of the first signature packet in `d`, or the error the
/// framing decoder reports: a 1-byte (0x88), 2-byte (0x89) or 4-byte
/// (0x8a) length header, with 4-byte lengths rejected above the 2-byte
/// range, and trailing bytes after the declared body ignored.
pub open spec fn spec_find_packet(d: Seq<u8>) -> Result<Seq<u8>, PgpError> {
    if d.len() == 0 {
        Err(PgpError::UnsupportedPacketLength)
    } else if d[0] == 0x88 {
        if d.len() < 2 {
            Err(PgpError::InvalidPacketHeader)
        } else if d.len() < 2 + d[1] {
            Err(PgpError::InvalidPacketHeader)
        } else {
            Ok(d.subrange(2, 2 + d[1]))
        }
    } else if d[0] == 0x89 {
        if d.len() < 3 {
            Err(PgpError::InvalidPacketHeader)
        } else {
            let l = spec_be16_val(d.subrange(1, 3)) as int;
            if d.len() < 3 + l {
                Err(PgpError::InvalidPacketHeader)
            } else {
                Ok(d.subrange(3, 3 + l))
            }
        }
    } else if d[0] == 0x8a {
        if d.len() < 5 {
            Err(PgpError::InvalidPacketHeader)
        } else {
            let l = spec_be32_val(d.subrange(1, 5)) as int;
            if l > 0xffff {
                Err(PgpError::UnsupportedPacketLength)
            } else if d.len() < 5 + l {
                Err(PgpError::InvalidPacketHeader)
            } else {
                Ok(d.subrange(5, 5 + l))
            }
        }
    } else {
        Err(PgpError::UnsupportedPacketLength)
    }
}

/// The hashed-subpacket-area length declared at offset 4 of a packet body.
pub open spec fn spec_hashed_len(p: Seq<u8>) -> int
    recommends
        p.len() >= 6,
{
    spec_be16_val(p.subrange(4, 6)) as int
}

/// The fixed-position checks on a packet body: version 4, algorithm 22
/// (EdDSA), hash 8 (SHA-256), and length arithmetic that adds up: the
/// body holds exactly the hashed and unhashed areas plus 78 bytes of
/// fixed overhead.
pub open spec fn spec_well_structured(p: Seq<u8>) -> bool {
    &&& p.len() >= 6
    &&& p[0] == 4
    &&& p[2] == 22
    &&& p[3] == 8
    &&& p.len() >= spec_hashed_len(p) + 8
    &&& p.len() == spec_be16_val(
        p.subrange(spec_hashed_len(p) + 6, spec_hashed_len(p) + 8),
    ) + spec_hashed_len(p) + 78
}

/// The first hashed subpacket must be the 21-byte fingerprint subpacket:
/// length 22, tag 33, version 4.
pub open spec fn spec_has_fingerprint_first(p: Seq<u8>) -> bool {
    &&& spec_hashed_len(p) >= 23
    &&& p[6] == 22
    &&& p[7] == 33
    &&& p[8] == 4
}

/// A well-formed signature-packet buffer: canonically framed, structurally
/// valid, and carrying the mandatory fingerprint subpacket first.
pub open spec fn spec_wf_packet(d: Seq<u8>) -> bool {
    &&& d.len() >= 3
    &&& d[0] == 0x89
    &&& d.len() == 3 + spec_be16_val(d.subrange(1, 3))
    &&& spec_well_structured(d.skip(3))
    &&& spec_has_fingerprint_first(d.skip(3))
}

/// What parsing yields on the given input: the canonically re-framed
/// packet, or the first error in framing, structure or subpacket order.
pub open spec fn spec_from_bytes(d: Seq<u8>) -> Result<Seq<u8>, PgpError> {
    match spec_find_packet(d) {
        Err(e) => Err(e),
        Ok(body) => if !spec_well_structured(body) {
            Err(PgpError::UnsupportedSignaturePacket)
        } else if !spec_has_fingerprint_first(body) {
            Err(PgpError::MissingFingerprintSubpacket)
        } else {
            Ok(spec_framed(body))
        },
    }
}

/// Framing a body yields a buffer that parses back to that body.
pub proof fn lemma_framed_round_trip(body: Seq<u8>)
    requires
        body.len() <= 0xffff,
    ensures
        spec_framed(body).len() == 3 + body.len(),
        spec_framed(body).skip(3) =~= body,
        spec_framed(body).subrange(1, 3) =~= spec_be16(body.len() as u16),
        spec_be16_val(spec_framed(body).subrange(1, 3)) == body.len(),
        spec_find_packet(spec_framed(body)) == Ok::<Seq<u8>, PgpError>(body),
{
    let f = spec_framed(body);
    lemma_be16_round_trip(body.len() as u16);
    assert(f[0] == 0x89);
    assert(f.subrange(3, 3 + body.len() as int) =~= body);
}

/// Header-length idempotence: a body framed under the 1-byte length
/// header parses exactly as the same body under the canonical 2-byte
/// form, so both inputs yield one and the same packet.
pub proof fn lemma_header_idempotence(body: Seq<u8>)
    requires
        body.len() <= 255,
    ensures
        spec_find_packet(seq![0x88u8, body.len() as u8] + body) == Ok::<Seq<u8>, PgpError>(body),
        spec_from_bytes(seq![0x88u8, body.len() as u8] + body) == spec_from_bytes(
            spec_framed(body),
        ),
{
    let one = seq![0x88u8, body.len() as u8] + body;
    assert(one[0] == 0x88);
    assert(one[1] == body.len() as u8);
    assert(one.subrange(2, 2 + one[1]) =~= body);
    lemma_framed_round_trip(body);
}

/// Decode the packet framing and re-emit the canonical 2-byte-length form.
///
/// Whatever the length-header variant of the input, the result owns a
/// fresh buffer in 0x89 form holding exactly the declared body.
pub fn find_signature_packet(data: &[u8]) -> (r: Result<Vec<u8>, PgpError>)
    ensures
        match spec_find_packet(data@) {
            Ok(body) => r matches Ok(v) && v@ == spec_framed(body),
            Err(e) => r matches Err(f) && f == e,
        },
{
    if data.len() == 0 {
        return Err(PgpError::UnsupportedPacketLength);
    }
    let first = data[0];
    let (init, len): (usize, usize) = if first == 0x88 {
        if data.len() < 2 {
            return Err(PgpError::InvalidPacketHeader);
        }
        (2, data[1] as usize)
    } else if first == 0x89 {
        if data.len() < 3 {
            return Err(PgpError::InvalidPacketHeader);
        }
        (3, read_be16(data, 1) as usize)
    } else if first == 0x8a {
        if data.len() < 5 {
            return Err(PgpError::InvalidPacketHeader);
        }
        let l = read_be32(data, 1);
        if l > 0xffff {
            return Err(PgpError::UnsupportedPacketLength);
        }
        (5, l as usize)
    } else {
        return Err(PgpError::UnsupportedPacketLength);
    };
    if data.len() < init + len {
        return Err(PgpError::InvalidPacketHeader);
    }
    let body = slice_subrange(data, init, init + len);
    let mut vec: Vec<u8> = Vec::new();
    vec.push(0x89);
    crate::codec::push_be16(&mut vec, len as u16);
    crate::codec::push_bytes(&mut vec, body);
    proof {
        assert(spec_find_packet(data@) == Ok::<Seq<u8>, PgpError>(body@));
        assert(vec@ =~= spec_framed(body@));
    }
    Ok(vec)
}

/// Check the fixed-position fields and the length arithmetic of a packet
/// body, as the strict validator demands.
pub(crate) fn has_correct_structure(packet: &[u8]) -> (r: Result<(), PgpError>)
    ensures
        r is Ok <==> spec_well_structured(packet@),
        r matches Err(e) ==> e == PgpError::UnsupportedSignaturePacket,
{
    if packet.len() < 6 {
        return Err(PgpError::UnsupportedSignaturePacket);
    }
    if !(packet[0] == 4 && packet[2] == 22 && packet[3] == 8) {
        return Err(PgpError::UnsupportedSignaturePacket);
    }
    let hashed_len = read_be16(packet, 4) as usize;
    if packet.len() < hashed_len + 8 {
        return Err(PgpError::UnsupportedSignaturePacket);
    }
    let unhashed_len = read_be16(packet, hashed_len + 6) as usize;
    if packet.len() != unhashed_len + hashed_len + 78 {
        return Err(PgpError::UnsupportedSignaturePacket);
    }
    Ok(())
}

/// Check that the hashed-subpacket area opens with the mandatory
/// fingerprint subpacket.
pub(crate) fn has_correct_hashed_subpackets(packet: &[u8]) -> (r: Result<(), PgpError>)
    requires
        spec_well_structured(packet@),
    ensures
        r is Ok <==> spec_has_fingerprint_first(packet@),
        r matches Err(e) ==> e == PgpError::MissingFingerprintSubpacket,
{
    let hashed_len = read_be16(packet, 4) as usize;
    if hashed_len < 23 {
        return Err(PgpError::MissingFingerprintSubpacket);
    }
    if !(packet[6] == 22 && packet[7] == 33 && packet[8] == 4) {
        return Err(PgpError::MissingFingerprintSubpacket);
    }
    Ok(())
}

} // verus!
