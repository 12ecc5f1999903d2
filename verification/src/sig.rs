//! The OpenPGP ed25519 signature packet: construction, parsing, accessors
//! and verification.

use vstd::prelude::*;
use vstd::array::array_as_slice;
use vstd::slice::slice_subrange;

use crate::codec::{
    push_be16, push_be32, push_bytes, push_mpi, push_subpacket, read_be16, spec_be16,
    spec_be32, spec_mpi, spec_subpacket,
};
use crate::crypto::{
    dalek_signature_from_bytes, ed25519_pub_of, ed25519_sign, ed25519_sign_of, ed25519_verify,
    ed25519_verify_of, sha256, sha256_of,
};
use crate::packet::{
    find_signature_packet, has_correct_hashed_subpackets, has_correct_structure,
    lemma_framed_round_trip, spec_find_packet, spec_framed, spec_from_bytes,
    spec_has_fingerprint_first, spec_hashed_len, spec_well_structured, spec_wf_packet,
};
use crate::Fingerprint;
use crate::PgpError;

verus! {

/// The valid types of OpenPGP signatures.
#[derive(Copy, Clone, PartialEq, Eq, Structural, Hash, Debug)]
pub enum SigType {
    BinaryDocument,
    TextDocument,
    Standalone,
    GenericCertification,
    PersonaCertification,
    CasualCertification,
    PositiveCertification,
    SubkeyBinding,
    PrimaryKeyBinding,
    DirectlyOnKey,
    KeyRevocation,
    SubkeyRevocation,
    CertificationRevocation,
    Timestamp,
    ThirdPartyConfirmation,
}

/// The single-byte OpenPGP code of a signature type.
pub open spec fn spec_sig_type_code(t: SigType) -> u8 {
    match t {
        SigType::BinaryDocument => 0x00,
        SigType::TextDocument => 0x01,
        SigType::Standalone => 0x02,
        SigType::GenericCertification => 0x10,
        SigType::PersonaCertification => 0x11,
        SigType::CasualCertification => 0x12,
        SigType::PositiveCertification => 0x13,
        SigType::SubkeyBinding => 0x18,
        SigType::PrimaryKeyBinding => 0x19,
        SigType::DirectlyOnKey => 0x1F,
        SigType::KeyRevocation => 0x20,
        SigType::SubkeyRevocation => 0x28,
        SigType::CertificationRevocation => 0x30,
        SigType::Timestamp => 0x40,
        SigType::ThirdPartyConfirmation => 0x50,
    }
}

/// The signature type a single-byte code stands for, if any: the inverse
/// of the closed code mapping.
pub open spec fn spec_sig_type_of_code(c: u8) -> Option<SigType> {
    if c == 0x00 {
        Some(SigType::BinaryDocument)
    } else if c == 0x01 {
        Some(SigType::TextDocument)
    } else if c == 0x02 {
        Some(SigType::Standalone)
    } else if c == 0x10 {
        Some(SigType::GenericCertification)
    } else if c == 0x11 {
        Some(SigType::PersonaCertification)
    } else if c == 0x12 {
        Some(SigType::CasualCertification)
    } else if c == 0x13 {
        Some(SigType::PositiveCertification)
    } else if c == 0x18 {
        Some(SigType::SubkeyBinding)
    } else if c == 0x19 {
        Some(SigType::PrimaryKeyBinding)
    } else if c == 0x1F {
        Some(SigType::DirectlyOnKey)
    } else if c == 0x20 {
        Some(SigType::KeyRevocation)
    } else if c == 0x28 {
        Some(SigType::SubkeyRevocation)
    } else if c == 0x30 {
        Some(SigType::CertificationRevocation)
    } else if c == 0x40 {
        Some(SigType::Timestamp)
    } else if c == 0x50 {
        Some(SigType::ThirdPartyConfirmation)
    } else {
        None
    }
}

/// The code mapping is a bijection onto the recognized codes.
pub proof fn lemma_sig_type_code_bijective(t: SigType)
    ensures
        spec_sig_type_of_code(spec_sig_type_code(t)) == Some(t),
{
}

impl SigType {
    /// The single-byte OpenPGP code of this signature type.
    pub fn code(self) -> (r: u8)
        ensures
            r == spec_sig_type_code(self),
    {
        match self {
            SigType::BinaryDocument => 0x00,
            SigType::TextDocument => 0x01,
            SigType::Standalone => 0x02,
            SigType::GenericCertification => 0x10,
            SigType::PersonaCertification => 0x11,
            SigType::CasualCertification => 0x12,
            SigType::PositiveCertification => 0x13,
            SigType::SubkeyBinding => 0x18,
            SigType::PrimaryKeyBinding => 0x19,
            SigType::DirectlyOnKey => 0x1F,
            SigType::KeyRevocation => 0x20,
            SigType::SubkeyRevocation => 0x28,
            SigType::CertificationRevocation => 0x30,
            SigType::Timestamp => 0x40,
            SigType::ThirdPartyConfirmation => 0x50,
        }
    }

    /// The signature type a code stands for, or `None` for a code outside
    /// the closed set.
    pub fn from_code(c: u8) -> (r: Option<SigType>)
        ensures
            r == spec_sig_type_of_code(c),
    {
        if c == 0x00 {
            Some(SigType::BinaryDocument)
        } else if c == 0x01 {
            Some(SigType::TextDocument)
        } else if c == 0x02 {
            Some(SigType::Standalone)
        } else if c == 0x10 {
            Some(SigType::GenericCertification)
        } else if c == 0x11 {
            Some(SigType::PersonaCertification)
        } else if c == 0x12 {
            Some(SigType::CasualCertification)
        } else if c == 0x13 {
            Some(SigType::PositiveCertification)
        } else if c == 0x18 {
            Some(SigType::SubkeyBinding)
        } else if c == 0x19 {
            Some(SigType::PrimaryKeyBinding)
        } else if c == 0x1F {
            Some(SigType::DirectlyOnKey)
        } else if c == 0x20 {
            Some(SigType::KeyRevocation)
        } else if c == 0x28 {
            Some(SigType::SubkeyRevocation)
        } else if c == 0x30 {
            Some(SigType::CertificationRevocation)
        } else if c == 0x40 {
            Some(SigType::Timestamp)
        } else if c == 0x50 {
            Some(SigType::ThirdPartyConfirmation)
        } else {
            None
        }
    }
}

/// A subpacket to be hashed into the signed data.
#[derive(Copy, Clone, PartialEq, Eq, Hash, PartialOrd, Ord, Debug)]
pub struct SubPacket<'a> {
    /// The tag for this subpacket.
    pub tag: u8,
    /// The data in this subpacket.
    pub data: &'a [u8],
}

/// The (tag, data) pairs a slice of subpackets stands for.
pub open spec fn spec_subs_model<'a>(s: Seq<SubPacket<'a>>) -> Seq<(u8, Seq<u8>)> {
    s.map_values(|sp: SubPacket<'a>| (sp.tag, sp.data@))
}

/// Every subpacket fits the single-byte length form.
pub open spec fn spec_subs_wf(subs: Seq<(u8, Seq<u8>)>) -> bool {
    forall|i: int| 0 <= i < subs.len() ==> (#[trigger] subs[i]).1.len() <= 190
}

/// The concatenated encodings of a sequence of subpackets.
pub open spec fn spec_subpackets_encode(subs: Seq<(u8, Seq<u8>)>) -> Seq<u8>
    decreases subs.len(),
{
    if subs.len() == 0 {
        Seq::empty()
    } else {
        spec_subpackets_encode(subs.drop_last()) + spec_subpacket(
            subs.last().0,
            subs.last().1,
        )
    }
}

/// The hashed-subpacket area: the mandatory fingerprint subpacket
/// (length 22, tag 33, version 4, 20 fingerprint bytes), the creation-time
/// subpacket (length 5, tag 2, 4 timestamp bytes), then the caller's
/// subpackets in order.
pub open spec fn spec_hashed_area(fp: Seq<u8>, time: u32, subs: Seq<(u8, Seq<u8>)>) -> Seq<u8> {
    seq![22u8, 33u8, 4u8] + fp + seq![5u8, 2u8] + spec_be32(time) + spec_subpackets_encode(subs)
}

/// The hashed section of a signature packet: version 4, the signature
/// class, algorithm 22, hash 8, then the length-prefixed hashed area.
/// These bytes enter the hash preimage and are what `hashed_section`
/// returns.
pub open spec fn spec_hashed_section(
    st: SigType,
    fp: Seq<u8>,
    time: u32,
    subs: Seq<(u8, Seq<u8>)>,
) -> Seq<u8> {
    let area = spec_hashed_area(fp, time, subs);
    seq![4u8, spec_sig_type_code(st), 22u8, 8u8] + spec_be16(area.len() as u16) + area
}

/// The RFC 4880 v4 trailer pinned to the end of the hash preimage: the
/// version marker 0x04 0xFF and the 32-bit length of the hashed section.
pub open spec fn spec_trailer(n: nat) -> Seq<u8> {
    seq![0x04u8, 0xffu8] + spec_be32(n as u32)
}

/// The canonical hash preimage: the signed data, the hashed section, then
/// the trailer over the hashed section's length. Signing and verifying
/// must construct this byte-identically.
pub open spec fn spec_preimage(data: Seq<u8>, hashed_section: Seq<u8>) -> Seq<u8> {
    data + hashed_section + spec_trailer(hashed_section.len())
}

/// The unhashed-subpacket area with its length prefix: one issuer-key-id
/// subpacket (tag 16) holding the last 8 fingerprint bytes.
pub open spec fn spec_unhashed(fp: Seq<u8>) -> Seq<u8> {
    spec_be16(10) + seq![9u8, 16u8] + fp.skip(12)
}

/// A complete signature-packet body: hashed section, unhashed area, the
/// 2-byte hash preview, and the two MPI-encoded signature halves.
pub open spec fn spec_body(
    st: SigType,
    fp: Seq<u8>,
    time: u32,
    subs: Seq<(u8, Seq<u8>)>,
    hash: Seq<u8>,
    sig: Seq<u8>,
) -> Seq<u8> {
    spec_hashed_section(st, fp, time, subs) + spec_unhashed(fp) + hash.take(2) + spec_mpi(
        sig.take(32),
    ) + spec_mpi(sig.skip(32))
}

/// A complete framed signature packet as construction emits it.
pub open spec fn spec_signature_packet(
    st: SigType,
    fp: Seq<u8>,
    time: u32,
    subs: Seq<(u8, Seq<u8>)>,
    hash: Seq<u8>,
    sig: Seq<u8>,
) -> Seq<u8> {
    spec_framed(spec_body(st, fp, time, subs, hash, sig))
}

/// The hashed section held by a framed packet: from the version byte
/// through the end of the hashed-subpacket area.
pub open spec fn spec_hashed_section_of(d: Seq<u8>) -> Seq<u8> {
    d.subrange(3, spec_hashed_len(d.skip(3)) + 9)
}

/// The 64 raw signature bytes held by the trailing 68-byte MPI region of
/// a framed packet: each half is sliced past its 2-byte bit-length header.
pub open spec fn spec_signature_of(d: Seq<u8>) -> Seq<u8> {
    d.subrange(d.len() - 66, d.len() - 34) + d.subrange(d.len() - 32, d.len() as int)
}

/// The 20 fingerprint bytes held by the mandatory first hashed subpacket
/// of a framed packet: they follow the subpacket's length, tag and
/// version bytes at offsets 9 through 11.
pub open spec fn spec_fingerprint_of(d: Seq<u8>) -> Seq<u8> {
    d.subrange(12, 32)
}

/// An OpenPGP formatted ed25519 signature.
#[derive(Debug)]
pub struct PgpSig {
    data: Vec<u8>,
}

impl View for PgpSig {
    type V = Seq<u8>;

    closed spec fn view(&self) -> Seq<u8> {
        self.data@
    }
}

impl PgpSig {
    /// Every `PgpSig` owns a canonically framed, structurally valid
    /// signature packet whose first hashed subpacket is the fingerprint.
    #[verifier::type_invariant]
    closed spec fn type_inv(self) -> bool {
        spec_wf_packet(self.data@)
    }

    /// Parse an OpenPGP signature from binary data.
    ///
    /// This must be an ed25519 signature using SHA-256 for hashing, and it
    /// must be in the subset of OpenPGP supported by this library. The
    /// result owns a freshly allocated canonical buffer whatever the
    /// input's length-header variant.
    pub fn from_bytes(bytes: &[u8]) -> (r: Result<PgpSig, PgpError>)
        ensures
            match spec_from_bytes(bytes@) {
                Ok(s) => r matches Ok(p) && p@ == s && spec_wf_packet(p@),
                Err(e) => r matches Err(f) && f == e,
            },
    {
        let data = match find_signature_packet(bytes) {
            Ok(v) => v,
            Err(e) => {
                return Err(e);
            },
        };
        let body = slice_subrange(data.as_slice(), 3, data.len());
        proof {
            let spec_body_bytes = spec_find_packet(bytes@)->Ok_0;
            lemma_framed_round_trip(spec_body_bytes);
            assert(body@ =~= spec_body_bytes);
        }
        match has_correct_structure(body) {
            Ok(()) => (),
            Err(e) => {
                return Err(e);
            },
        }
        match has_correct_hashed_subpackets(body) {
            Ok(()) => (),
            Err(e) => {
                return Err(e);
            },
        }
        proof {
            assert(data@.skip(3) =~= body@);
        }
        Ok(PgpSig { data })
    }

    /// Get the binary representation of this signature.
    pub fn as_bytes(&self) -> (r: &[u8])
        ensures
            r@ == self@,
    {
        self.data.as_slice()
    }

    /// Get the portion of this signature hashed into the signed data.
    pub fn hashed_section(&self) -> (r: &[u8])
        ensures
            r@ == spec_hashed_section_of(self@),
            r@.len() >= 6,
    {
        proof {
            use_type_invariant(self);
        }
        let s = self.data.as_slice();
        let subpackets_len = read_be16(s, 7) as usize;
        proof {
            assert(s@.subrange(7, 9) =~= s@.skip(3).subrange(4, 6));
        }
        slice_subrange(s, 3, subpackets_len + 9)
    }

    /// Get the actual ed25519 signature contained.
    pub fn signature(&self) -> (r: [u8; 64])
        ensures
            r@ == spec_signature_of(self@),
    {
        proof {
            use_type_invariant(self);
        }
        let s = self.data.as_slice();
        let init = self.data.len() - 68;
        let mut sig = [0u8; 64];
        let mut i: usize = 0;
        while i < 32
            invariant
                i <= 32,
                init == s@.len() - 68,
                s@.len() >= 104,
                s@.len() <= usize::MAX,
                sig@.len() == 64,
                forall|j: int| 0 <= j < i ==> sig@[j] == s@[init + 2 + j],
            decreases 32 - i,
        {
            sig[i] = s[init + 2 + i];
            i = i + 1;
        }
        let mut i: usize = 32;
        while i < 64
            invariant
                32 <= i <= 64,
                init == s@.len() - 68,
                s@.len() >= 104,
                s@.len() <= usize::MAX,
                sig@.len() == 64,
                forall|j: int| 0 <= j < 32 ==> sig@[j] == s@[init + 2 + j],
                forall|j: int| 32 <= j < i ==> sig@[j] == s@[init + 4 + j],
            decreases 64 - i,
        {
            sig[i] = s[init + 4 + i];
            i = i + 1;
        }
        proof {
            assert(sig@ =~= spec_signature_of(self@));
        }
        sig
    }

    /// Get the fingerprint of the public key which made this signature.
    pub fn fingerprint(&self) -> (r: Fingerprint)
        ensures
            r@ == spec_fingerprint_of(self@),
    {
        proof {
            use_type_invariant(self);
        }
        let s = self.data.as_slice();
        let mut fp = [0u8; 20];
        let mut i: usize = 0;
        while i < 20
            invariant
                i <= 20,
                s@.len() >= 104,
                fp@.len() == 20,
                forall|j: int| 0 <= j < i ==> fp@[j] == s@[12 + j],
            decreases 20 - i,
        {
            fp[i] = s[12 + i];
            i = i + 1;
        }
        proof {
            assert(fp@ =~= spec_fingerprint_of(self@));
        }
        fp
    }

    /// Get the type of this signature, or report an unrecognized
    /// signature-class code.
    pub fn sig_type(&self) -> (r: Result<SigType, PgpError>)
        ensures
            match spec_sig_type_of_code(self@[4]) {
                Some(t) => r == Ok::<SigType, PgpError>(t),
                None => r == Err::<SigType, PgpError>(PgpError::UnrecognizedSigType),
            },
    {
        proof {
            use_type_invariant(self);
        }
        let s = self.data.as_slice();
        match SigType::from_code(s[4]) {
            Some(t) => Ok(t),
            None => Err(PgpError::UnrecognizedSigType),
        }
    }
}

/// The shape of a freshly constructed packet: it is well formed, and
/// every accessor recovers the value that construction embedded.
pub proof fn lemma_constructed_packet(
    st: SigType,
    fp: Seq<u8>,
    time: u32,
    subs: Seq<(u8, Seq<u8>)>,
    hash: Seq<u8>,
    sig: Seq<u8>,
)
    requires
        fp.len() == 20,
        hash.len() >= 2,
        sig.len() == 64,
        spec_hashed_area(fp, time, subs).len() <= 65447,
    ensures
        ({
            let p = spec_signature_packet(st, fp, time, subs, hash, sig);
            let area = spec_hashed_area(fp, time, subs);
            &&& p.len() == area.len() + 91
            &&& spec_wf_packet(p)
            &&& spec_hashed_len(p.skip(3)) == area.len()
            &&& spec_hashed_section_of(p) == spec_hashed_section(st, fp, time, subs)
            &&& p[4] == spec_sig_type_code(st)
            &&& spec_fingerprint_of(p) == fp
            &&& spec_signature_of(p) == sig
        }),
{
    let area = spec_hashed_area(fp, time, subs);
    let al = area.len() as int;
    let hs = spec_hashed_section(st, fp, time, subs);
    let body = spec_body(st, fp, time, subs, hash, sig);
    let p = spec_signature_packet(st, fp, time, subs, hash, sig);
    assert(area.len() >= 29);
    assert(hs.len() == area.len() + 6);
    assert(spec_mpi(sig.take(32)).len() == 34);
    assert(spec_mpi(sig.skip(32)).len() == 34);
    assert(body.len() == area.len() + 88);
    assert(p.len() == body.len() + 3);
    crate::codec::lemma_be16_round_trip(body.len() as u16);
    crate::codec::lemma_be16_round_trip(area.len() as u16);
    crate::codec::lemma_be16_round_trip(10);
    assert(p[0] == 0x89);
    assert(p.subrange(1, 3) =~= spec_be16(body.len() as u16));
    assert(p.skip(3) =~= body);
    // The fixed header fields of the body.
    assert(body[0] == 4 && body[1] == spec_sig_type_code(st) && body[2] == 22 && body[3] == 8);
    assert(body.subrange(4, 6) =~= spec_be16(area.len() as u16));
    assert(spec_hashed_len(body) == area.len());
    // The unhashed-area length field sits right after the hashed area.
    assert(body.subrange(al + 6, al + 8) =~= spec_be16(10));
    assert(spec_well_structured(body));
    // The hashed area opens with the fingerprint subpacket.
    assert(area[0] == 22 && area[1] == 33 && area[2] == 4);
    assert(body[6] == area[0] && body[7] == area[1] && body[8] == area[2]);
    assert(spec_has_fingerprint_first(body));
    assert(spec_wf_packet(p));
    assert(spec_hashed_section_of(p) =~= hs);
    assert(forall|j: int| 0 <= j < 20 ==> #[trigger] area[3 + j] == fp[j]);
    assert(forall|j: int| 0 <= j < 20 ==> #[trigger] body[9 + j] == area[3 + j]);
    assert(spec_fingerprint_of(p) =~= fp);
    // The trailing 68 bytes are the two MPI halves.
    let tail = spec_mpi(sig.take(32)) + spec_mpi(sig.skip(32));
    assert(forall|j: int| 0 <= j < 68 ==> #[trigger] p[p.len() - 68 + j] == tail[j]);
    assert(forall|j: int| 0 <= j < 32 ==> #[trigger] tail[2 + j] == sig.take(32)[j]);
    assert(forall|j: int| 0 <= j < 32 ==> #[trigger] tail[36 + j] == sig.skip(32)[j]);
    assert(spec_signature_of(p) =~= sig);
}

impl PgpSig {
    /// Construct a new PGP signature.
    ///
    /// This will construct a valid OpenPGP signature using the ed25519
    /// signing algorithm & SHA-256 hashing algorithm. It will contain
    /// these hashed subpackets:
    ///  - A version 4 key fingerprint
    ///  - A timestamp
    ///  - Whatever subpackets you pass as arguments
    ///
    /// It will contain the key id as an unhashed subpacket.
    ///
    /// The signing function receives the 32-byte hash of the canonical
    /// preimage and must return the raw 64-byte signature.
    pub fn new<F: Fn(&[u8]) -> [u8; 64]>(
        data: &[u8],
        fingerprint: Fingerprint,
        sig_type: SigType,
        unix_time: u32,
        subpackets: &[SubPacket<'_>],
        sign: F,
    ) -> (r: PgpSig)
        requires
            spec_subs_wf(spec_subs_model(subpackets@)),
            spec_hashed_area(fingerprint@, unix_time, spec_subs_model(subpackets@)).len()
                <= 65447,
            data@.len() + 70000 <= usize::MAX,
            forall|h: &[u8]| h@.len() == 32 ==> call_requires(sign, (h,)),
        ensures
            exists|h: &[u8], s: [u8; 64]|
                {
                    &&& h@ == sha256_of(
                        spec_preimage(
                            data@,
                            spec_hashed_section(
                                sig_type,
                                fingerprint@,
                                unix_time,
                                spec_subs_model(subpackets@),
                            ),
                        ),
                    )
                    &&& h@.len() == 32
                    &&& #[trigger] call_ensures(sign, (h,), s)
                    &&& r@ == spec_signature_packet(
                        sig_type,
                        fingerprint@,
                        unix_time,
                        spec_subs_model(subpackets@),
                        h@,
                        s@,
                    )
                },
    {
        let ghost subs_m = spec_subs_model(subpackets@);
        // The hashed-subpacket area: fingerprint, timestamp, then the
        // caller's subpackets in order.
        let mut area: Vec<u8> = Vec::new();
        area.push(22);
        area.push(33);
        area.push(4);
        push_bytes(&mut area, array_as_slice(&fingerprint));
        area.push(5);
        area.push(2);
        push_be32(&mut area, unix_time);
        proof {
            assert(subs_m.take(0) =~= Seq::<(u8, Seq<u8>)>::empty());
            assert(area@ =~= spec_hashed_area(fingerprint@, unix_time, subs_m.take(0)));
        }
        let mut i: usize = 0;
        while i < subpackets.len()
            invariant
                i <= subpackets@.len(),
                subs_m == spec_subs_model(subpackets@),
                spec_subs_wf(subs_m),
                spec_hashed_area(fingerprint@, unix_time, subs_m).len() <= 65447,
                area@ == spec_hashed_area(fingerprint@, unix_time, subs_m.take(i as int)),
            decreases subpackets@.len() - i,
        {
            let sp = subpackets[i];
            assert(subs_m[i as int] == (sp.tag, sp.data@));
            push_subpacket(&mut area, sp.tag, sp.data);
            proof {
                let prev = subs_m.take(i as int);
                let next = subs_m.take(i + 1);
                assert(next.drop_last() =~= prev);
                assert(next.last() == subs_m[i as int]);
                assert(spec_subpackets_encode(next) == spec_subpackets_encode(prev)
                    + spec_subpacket(sp.tag, sp.data@));
                assert(area@ =~= spec_hashed_area(fingerprint@, unix_time, next));
            }
            i = i + 1;
        }
        proof {
            assert(subs_m.take(subpackets@.len() as int) =~= subs_m);
            lemma_hashed_area_prefix_len(fingerprint@, unix_time, subs_m, subs_m.len() as int);
        }
        // The hashed section: fixed header fields and the hashed area.
        let mut hs: Vec<u8> = Vec::new();
        hs.push(4);
        hs.push(sig_type.code());
        hs.push(22);
        hs.push(8);
        push_be16(&mut hs, area.len() as u16);
        push_bytes(&mut hs, area.as_slice());
        proof {
            assert(hs@ =~= spec_hashed_section(sig_type, fingerprint@, unix_time, subs_m));
        }
        // The canonical hash preimage.
        let mut pre: Vec<u8> = Vec::new();
        push_bytes(&mut pre, data);
        push_bytes(&mut pre, hs.as_slice());
        pre.push(0x04);
        pre.push(0xff);
        push_be32(&mut pre, hs.len() as u32);
        proof {
            assert(pre@ =~= spec_preimage(data@, hs@));
        }
        let hash = sha256(pre.as_slice());
        let hash_slice = array_as_slice(&hash);
        let s64 = sign(hash_slice);
        // The rest of the body: unhashed area, hash preview, MPI halves.
        let mut body = hs;
        push_be16(&mut body, 10);
        body.push(9);
        body.push(16);
        push_bytes(&mut body, slice_subrange(array_as_slice(&fingerprint), 12, 20));
        body.push(hash[0]);
        body.push(hash[1]);
        let s_slice = array_as_slice(&s64);
        push_mpi(&mut body, slice_subrange(s_slice, 0, 32));
        push_mpi(&mut body, slice_subrange(s_slice, 32, 64));
        proof {
            assert(fingerprint@.subrange(12, 20) =~= fingerprint@.skip(12));
            assert(hash@.take(2) =~= seq![hash@[0], hash@[1]]);
            assert(s64@.subrange(0, 32) =~= s64@.take(32));
            assert(s64@.subrange(32, 64) =~= s64@.skip(32));
            assert(body@ =~= spec_body(sig_type, fingerprint@, unix_time, subs_m, hash@, s64@));
        }
        // The canonical framing.
        let mut out: Vec<u8> = Vec::new();
        out.push(0x89);
        push_be16(&mut out, body.len() as u16);
        push_bytes(&mut out, body.as_slice());
        proof {
            assert(out@ =~= spec_signature_packet(
                sig_type,
                fingerprint@,
                unix_time,
                subs_m,
                hash@,
                s64@,
            ));
            lemma_constructed_packet(sig_type, fingerprint@, unix_time, subs_m, hash@, s64@);
            assert(call_ensures(sign, (hash_slice,), s64));
        }
        PgpSig { data: out }
    }
}

/// The SHA-256 digest of the canonical preimage over `data` and a hashed
/// section: the preimage reproduces construction bit-exactly.
fn preimage_digest(data: &[u8], hs: &[u8]) -> (r: [u8; 32])
    requires
        data@.len() + hs@.len() + 7 <= usize::MAX,
        hs@.len() <= 0xffffffff,
    ensures
        r@ == sha256_of(spec_preimage(data@, hs@)),
{
    let mut pre: Vec<u8> = Vec::new();
    push_bytes(&mut pre, data);
    push_bytes(&mut pre, hs);
    pre.push(0x04);
    pre.push(0xff);
    push_be32(&mut pre, hs.len() as u32);
    proof {
        assert(pre@ =~= spec_preimage(data@, hs@));
    }
    sha256(pre.as_slice())
}

impl PgpSig {
    /// Verify data against this signature.
    ///
    /// The comparison callback receives the 32-byte digest of the
    /// canonical preimage over `data` and this packet's hashed section,
    /// together with the packet's raw 64-byte signature, and decides the
    /// outcome.
    pub fn verify<F: FnOnce(&[u8], [u8; 64]) -> bool>(&self, data: &[u8], verify: F) -> (r: bool)
        requires
            data@.len() + 70000 <= usize::MAX,
            forall|h: &[u8], s: [u8; 64]| h@.len() == 32 ==> call_requires(verify, (h, s)),
        ensures
            exists|h: &[u8], s: [u8; 64]|
                {
                    &&& h@ == sha256_of(spec_preimage(data@, spec_hashed_section_of(self@)))
                    &&& s@ == spec_signature_of(self@)
                    &&& #[trigger] call_ensures(verify, (h, s), r)
                },
    {
        proof {
            use_type_invariant(self);
        }
        let hs = self.hashed_section();
        let hash = preimage_digest(data, hs);
        let sig = self.signature();
        let hash_slice = array_as_slice(&hash);
        let r = verify(hash_slice, sig);
        proof {
            assert(call_ensures(verify, (hash_slice, sig), r));
        }
        r
    }

    /// Verify this signature against 32 ed25519 public-key bytes.
    pub fn verify_dalek(&self, key: &[u8; 32], data: &[u8]) -> (r: bool)
        requires
            data@.len() + 70000 <= usize::MAX,
        ensures
            r == ed25519_verify_of(
                key@,
                sha256_of(spec_preimage(data@, spec_hashed_section_of(self@))),
                spec_signature_of(self@),
            ),
    {
        proof {
            use_type_invariant(self);
        }
        let hs = self.hashed_section();
        let hash = preimage_digest(data, hs);
        let sig = self.signature();
        ed25519_verify(key, array_as_slice(&hash), &sig)
    }

    /// Construct a signature over `data` from 32 ed25519 secret-key bytes,
    /// with no caller-supplied subpackets.
    pub fn from_dalek(
        key: &[u8; 32],
        data: &[u8],
        fingerprint: Fingerprint,
        sig_type: SigType,
        timestamp: u32,
    ) -> (r: PgpSig)
        requires
            data@.len() + 70000 <= usize::MAX,
        ensures
            ({
                let hs = spec_hashed_section(
                    sig_type,
                    fingerprint@,
                    timestamp,
                    Seq::<(u8, Seq<u8>)>::empty(),
                );
                let h = sha256_of(spec_preimage(data@, hs));
                &&& r@ == spec_signature_packet(
                    sig_type,
                    fingerprint@,
                    timestamp,
                    Seq::<(u8, Seq<u8>)>::empty(),
                    h,
                    ed25519_sign_of(key@, h),
                )
                &&& h.len() == 32
                &&& ed25519_sign_of(key@, h).len() == 64
                &&& ed25519_verify_of(ed25519_pub_of(key@), h, ed25519_sign_of(key@, h))
            }),
    {
        let subs: Vec<SubPacket<'_>> = Vec::new();
        proof {
            assert(spec_subs_model(subs@) =~= Seq::<(u8, Seq<u8>)>::empty());
            assert(spec_hashed_area(
                fingerprint@,
                timestamp,
                Seq::<(u8, Seq<u8>)>::empty(),
            ).len() == 29);
        }
        let sign = |h: &[u8]| -> (s: [u8; 64])
            ensures
                s@ == ed25519_sign_of(key@, h@),
                ed25519_verify_of(ed25519_pub_of(key@), h@, s@),
            { ed25519_sign(key, h) };
        PgpSig::new(data, fingerprint, sig_type, timestamp, subs.as_slice(), sign)
    }

    /// Convert this signature's raw 64 bytes to an ed25519-dalek
    /// signature value.
    pub fn to_dalek(&self) -> ed25519_dalek::Signature {
        let sig = self.signature();
        dalek_signature_from_bytes(&sig)
    }
}

/// Round trip: a constructed packet parses back unchanged, and the
/// fingerprint, signature-class code, raw signature and hashed section it
/// then yields are the ones construction embedded.
pub proof fn lemma_round_trip(
    st: SigType,
    fp: Seq<u8>,
    time: u32,
    subs: Seq<(u8, Seq<u8>)>,
    hash: Seq<u8>,
    sig: Seq<u8>,
)
    requires
        fp.len() == 20,
        hash.len() >= 2,
        sig.len() == 64,
        spec_hashed_area(fp, time, subs).len() <= 65447,
    ensures
        ({
            let p = spec_signature_packet(st, fp, time, subs, hash, sig);
            &&& spec_from_bytes(p) == Ok::<Seq<u8>, PgpError>(p)
            &&& spec_fingerprint_of(p) == fp
            &&& spec_sig_type_of_code(p[4]) == Some(st)
            &&& spec_signature_of(p) == sig
            &&& spec_hashed_section_of(p) == spec_hashed_section(st, fp, time, subs)
        }),
{
    lemma_constructed_packet(st, fp, time, subs, hash, sig);
    lemma_wf_from_bytes_identity(spec_signature_packet(st, fp, time, subs, hash, sig));
    lemma_sig_type_code_bijective(st);
}

/// Verification correctness: on a packet built over `data` under an
/// ed25519 key, the digest and signature that verification extracts are
/// exactly the ones construction signed, so verification under the key's
/// public bytes and the matching data succeeds. The two facts required
/// of the signing primitive are the ones its wrapper establishes at every
/// signing call.
pub proof fn lemma_verification_correct(
    key: Seq<u8>,
    data: Seq<u8>,
    fp: Seq<u8>,
    st: SigType,
    time: u32,
)
    requires
        fp.len() == 20,
        sha256_of(
            spec_preimage(data, spec_hashed_section(st, fp, time, Seq::<(u8, Seq<u8>)>::empty())),
        ).len() == 32,
        ed25519_sign_of(
            key,
            sha256_of(
                spec_preimage(
                    data,
                    spec_hashed_section(st, fp, time, Seq::<(u8, Seq<u8>)>::empty()),
                ),
            ),
        ).len() == 64,
        ed25519_verify_of(
            ed25519_pub_of(key),
            sha256_of(
                spec_preimage(
                    data,
                    spec_hashed_section(st, fp, time, Seq::<(u8, Seq<u8>)>::empty()),
                ),
            ),
            ed25519_sign_of(
                key,
                sha256_of(
                    spec_preimage(
                        data,
                        spec_hashed_section(st, fp, time, Seq::<(u8, Seq<u8>)>::empty()),
                    ),
                ),
            ),
        ),
    ensures
        ({
            let hs = spec_hashed_section(st, fp, time, Seq::<(u8, Seq<u8>)>::empty());
            let h = sha256_of(spec_preimage(data, hs));
            let p = spec_signature_packet(
                st,
                fp,
                time,
                Seq::<(u8, Seq<u8>)>::empty(),
                h,
                ed25519_sign_of(key, h),
            );
            &&& spec_hashed_section_of(p) == hs
            &&& spec_signature_of(p) == ed25519_sign_of(key, h)
            &&& ed25519_verify_of(
                ed25519_pub_of(key),
                sha256_of(spec_preimage(data, spec_hashed_section_of(p))),
                spec_signature_of(p),
            )
        }),
{
    let hs = spec_hashed_section(st, fp, time, Seq::<(u8, Seq<u8>)>::empty());
    let h = sha256_of(spec_preimage(data, hs));
    assert(spec_hashed_area(fp, time, Seq::<(u8, Seq<u8>)>::empty()).len() == 29);
    lemma_constructed_packet(
        st,
        fp,
        time,
        Seq::<(u8, Seq<u8>)>::empty(),
        h,
        ed25519_sign_of(key, h),
    );
}

/// A hashed area never shrinks as subpackets are appended.
proof fn lemma_hashed_area_prefix_len(fp: Seq<u8>, time: u32, subs: Seq<(u8, Seq<u8>)>, n: int)
    requires
        0 <= n <= subs.len(),
    ensures
        spec_hashed_area(fp, time, subs.take(n)).len() <= spec_hashed_area(fp, time, subs).len(),
    decreases subs.len() - n,
{
    if n < subs.len() {
        let next = subs.take(n + 1);
        assert(next.drop_last() =~= subs.take(n));
        lemma_hashed_area_prefix_len(fp, time, subs, n + 1);
    } else {
        assert(subs.take(n) =~= subs);
    }
}

/// A well-formed packet buffer parses back to itself: the canonical
/// framing is a fixed point of `from_bytes`.
pub proof fn lemma_wf_from_bytes_identity(d: Seq<u8>)
    requires
        spec_wf_packet(d),
    ensures
        spec_from_bytes(d) == Ok::<Seq<u8>, PgpError>(d),
{
    let body = d.skip(3);
    crate::codec::lemma_be16_val_round_trip(d.subrange(1, 3));
    assert(spec_find_packet(d) == Ok::<Seq<u8>, PgpError>(d.subrange(3, 3 + body.len() as int)));
    assert(d.subrange(3, 3 + body.len() as int) =~= body);
    assert(spec_framed(body) =~= d);
}

} // verus!
