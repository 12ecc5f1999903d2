//! The ASCII-armored text form: base64 of the packet bytes between the
//! PGP signature begin and end marker lines.

use vstd::prelude::*;
use vstd::slice::slice_subrange;
use vstd::utf8::encode_utf8;

use crate::codec::push_bytes;
use crate::packet::{spec_from_bytes, spec_wf_packet};
use crate::sig::PgpSig;
use crate::PgpError;

verus! {

/// The base64 text, as ASCII bytes, of a byte sequence: standard
/// alphabet with padding.
pub uninterp spec fn b64_of(bytes: Seq<u8>) -> Seq<u8>;

/// Relies on base64::encode: the standard-alphabet padded encoding, a
/// function of the input bytes alone, made of ASCII bytes.
#[verifier::external_body]
fn b64_encode(data: &[u8]) -> (r: Vec<u8>)
    ensures
        r@ == b64_of(data@),
        forall|i: int| 0 <= i < r@.len() ==> r@[i] < 128,
{
    base64::encode(data).into_bytes()
}

/// Decoding succeeded on everything in the encoder's image: whenever the
/// input is the base64 text of some bytes, the result holds those bytes.
pub open spec fn spec_b64_decodes(data: Seq<u8>, r: Option<Vec<u8>>) -> bool {
    forall|x: Seq<u8>| data == b64_of(x) ==> (r matches Some(v) && v@ == x)
}

/// Relies on base64::decode: the inverse of base64::encode, so a text in
/// the encoder's image decodes to its unique preimage.
#[verifier::external_body]
fn b64_decode(data: &[u8]) -> (r: Option<Vec<u8>>)
    ensures
        spec_b64_decodes(data@, r),
{
    base64::decode(data).ok()
}

/// Relies on String::from_utf8: bytes below 0x80 are valid UTF-8, and
/// the string they decode to encodes back to the same bytes.
#[verifier::external_body]
fn ascii_string(v: Vec<u8>) -> (r: String)
    requires
        forall|i: int| 0 <= i < v@.len() ==> v@[i] < 128,
    ensures
        encode_utf8(r@) == v@,
{
    String::from_utf8(v).unwrap_or_default()
}

/// The begin marker line, with its newline, as ASCII bytes.
pub open spec fn spec_armor_header_line() -> Seq<u8> {
    seq![
        45u8, 45u8, 45u8, 45u8, 45u8, 66u8, 69u8, 71u8, 73u8, 78u8, 32u8, 80u8, 71u8, 80u8,
        32u8, 83u8, 73u8, 71u8, 78u8, 65u8, 84u8, 85u8, 82u8, 69u8, 45u8, 45u8, 45u8, 45u8,
        45u8, 10u8,
    ]
}

/// The end marker line, with its newline, as ASCII bytes.
pub open spec fn spec_armor_footer_line() -> Seq<u8> {
    seq![
        45u8, 45u8, 45u8, 45u8, 45u8, 69u8, 78u8, 68u8, 32u8, 80u8, 71u8, 80u8, 32u8, 83u8,
        73u8, 71u8, 78u8, 65u8, 84u8, 85u8, 82u8, 69u8, 45u8, 45u8, 45u8, 45u8, 45u8, 10u8,
    ]
}

/// The armored text of a packet, as ASCII bytes: the begin marker line,
/// the base64 of the packet on a line of its own, and the end marker
/// line.
pub open spec fn spec_armor(packet: Seq<u8>) -> Seq<u8> {
    spec_armor_header_line() + b64_of(packet) + seq![10u8] + spec_armor_footer_line()
}

/// The base64 region of a byte text in the armored shape, or `None` when
/// the text is not delimited as the armorer emits it.
pub open spec fn spec_armor_payload(b: Seq<u8>) -> Option<Seq<u8>> {
    if b.len() >= 59 && b.subrange(0, 30) == spec_armor_header_line() && b.subrange(
        b.len() - 28,
        b.len() as int,
    ) == spec_armor_footer_line() && b[b.len() - 29] == 10 {
        Some(b.subrange(30, b.len() - 29))
    } else {
        None
    }
}

/// Armoring frames exactly: the payload of an armored text is the base64
/// of the packet it was built from.
pub proof fn lemma_armor_frames(packet: Seq<u8>)
    ensures
        spec_armor_payload(spec_armor(packet)) == Some(b64_of(packet)),
{
    let a = spec_armor(packet);
    let l = b64_of(packet).len() as int;
    assert(a.len() == l + 59);
    assert(a.subrange(0, 30) =~= spec_armor_header_line());
    assert(a.subrange(a.len() - 28, a.len() as int) =~= spec_armor_footer_line());
    assert(a[a.len() - 29] == 10);
    assert(a.subrange(30, a.len() - 29) =~= b64_of(packet));
}

/// Armor round trip: the armored text of a well-formed packet frames its
/// base64 exactly, and the packet itself parses back unchanged, so
/// parsing the armored text reconstructs a byte-identical packet.
pub proof fn lemma_armor_round_trip(packet: Seq<u8>)
    requires
        spec_wf_packet(packet),
    ensures
        spec_armor_payload(spec_armor(packet)) == Some(b64_of(packet)),
        spec_from_bytes(packet) == Ok::<Seq<u8>, PgpError>(packet),
{
    lemma_armor_frames(packet);
    crate::sig::lemma_wf_from_bytes_identity(packet);
}

/// Append the begin marker line.
fn push_armor_header(out: &mut Vec<u8>)
    ensures
        final(out)@ == old(out)@ + spec_armor_header_line(),
{
    let mut i: usize = 0;
    while i < 5
        invariant
            i <= 5,
            out@ == old(out)@ + Seq::new(i as nat, |j: int| 45u8),
        decreases 5 - i,
    {
        out.push(45);
        i = i + 1;
        assert(out@ =~= old(out)@ + Seq::new(i as nat, |j: int| 45u8));
    }
    out.push(66);
    out.push(69);
    out.push(71);
    out.push(73);
    out.push(78);
    out.push(32);
    out.push(80);
    out.push(71);
    out.push(80);
    out.push(32);
    push_armor_sig_word(out);
    let mut i: usize = 0;
    let ghost mid = out@;
    while i < 5
        invariant
            i <= 5,
            out@ == mid + Seq::new(i as nat, |j: int| 45u8),
        decreases 5 - i,
    {
        out.push(45);
        i = i + 1;
        assert(out@ =~= mid + Seq::new(i as nat, |j: int| 45u8));
    }
    out.push(10);
    assert(out@ =~= old(out)@ + spec_armor_header_line());
}

/// Append the end marker line.
fn push_armor_footer(out: &mut Vec<u8>)
    ensures
        final(out)@ == old(out)@ + spec_armor_footer_line(),
{
    let mut i: usize = 0;
    while i < 5
        invariant
            i <= 5,
            out@ == old(out)@ + Seq::new(i as nat, |j: int| 45u8),
        decreases 5 - i,
    {
        out.push(45);
        i = i + 1;
        assert(out@ =~= old(out)@ + Seq::new(i as nat, |j: int| 45u8));
    }
    out.push(69);
    out.push(78);
    out.push(68);
    out.push(32);
    out.push(80);
    out.push(71);
    out.push(80);
    out.push(32);
    push_armor_sig_word(out);
    let mut i: usize = 0;
    let ghost mid = out@;
    while i < 5
        invariant
            i <= 5,
            out@ == mid + Seq::new(i as nat, |j: int| 45u8),
        decreases 5 - i,
    {
        out.push(45);
        i = i + 1;
        assert(out@ =~= mid + Seq::new(i as nat, |j: int| 45u8));
    }
    out.push(10);
    assert(out@ =~= old(out)@ + spec_armor_footer_line());
}

/// Append the word SIGNATURE.
fn push_armor_sig_word(out: &mut Vec<u8>)
    ensures
        final(out)@ == old(out)@ + seq![83u8, 73u8, 71u8, 78u8, 65u8, 84u8, 85u8, 82u8, 69u8],
{
    out.push(83);
    out.push(73);
    out.push(71);
    out.push(78);
    out.push(65);
    out.push(84);
    out.push(85);
    out.push(82);
    out.push(69);
    assert(out@ =~= old(out)@ + seq![83u8, 73u8, 71u8, 78u8, 65u8, 84u8, 85u8, 82u8, 69u8]);
}

/// Whether the bytes of `pat` stand in `s` at offset `off`.
fn slice_eq_at(s: &[u8], off: usize, pat: &[u8]) -> (r: bool)
    requires
        off + pat@.len() <= s@.len(),
    ensures
        r <==> s@.subrange(off as int, off + pat@.len()) == pat@,
{
    let n = s.len();
    let mut i: usize = 0;
    while i < pat.len()
        invariant
            i <= pat@.len(),
            n == s@.len(),
            off + pat@.len() <= s@.len(),
            forall|j: int| 0 <= j < i ==> s@[off + j] == pat@[j],
        decreases pat@.len() - i,
    {
        if s[off + i] != pat[i] {
            proof {
                assert(s@.subrange(off as int, off + pat@.len())[i as int] != pat@[i as int]);
            }
            return false;
        }
        i = i + 1;
    }
    proof {
        assert(s@.subrange(off as int, off + pat@.len()) =~= pat@);
    }
    true
}

impl PgpSig {
    /// The ASCII-armored text form of this signature: base64 of the
    /// packet bytes between the begin and end marker lines.
    pub fn to_ascii_armor(&self) -> (r: String)
        ensures
            encode_utf8(r@) == spec_armor(self@),
    {
        let mut out: Vec<u8> = Vec::new();
        push_armor_header(&mut out);
        let b64 = b64_encode(self.as_bytes());
        push_bytes(&mut out, b64.as_slice());
        out.push(10);
        push_armor_footer(&mut out);
        proof {
            assert(out@ =~= spec_armor(self@));
        }
        ascii_string(out)
    }

    /// Parse an OpenPGP signature from ASCII armored data.
    ///
    /// The text must be delimited and encoded exactly as
    /// `to_ascii_armor` emits it; the packet it holds is then parsed as
    /// `from_bytes` does, with the same error taxonomy.
    pub fn from_ascii_armor(string: &str) -> (r: Result<PgpSig, PgpError>)
        ensures
            spec_armor_payload(encode_utf8(string@)) is None ==> r == Err::<PgpSig, PgpError>(
                PgpError::InvalidAsciiArmor,
            ),
            forall|x: Seq<u8>|
                (spec_armor_payload(encode_utf8(string@)) matches Some(pl) && pl == #[trigger] b64_of(
                    x,
                )) ==> match spec_from_bytes(x) {
                    Ok(s) => r matches Ok(p) && p@ == s,
                    Err(e) => r matches Err(f) && f == e,
                },
            r matches Ok(p) ==> spec_wf_packet(p@),
    {
        let bytes = string.as_bytes();
        let ghost b = encode_utf8(string@);
        if bytes.len() < 59 {
            return Err(PgpError::InvalidAsciiArmor);
        }
        let mut header: Vec<u8> = Vec::new();
        push_armor_header(&mut header);
        let mut footer: Vec<u8> = Vec::new();
        push_armor_footer(&mut footer);
        if !slice_eq_at(bytes, 0, header.as_slice()) {
            return Err(PgpError::InvalidAsciiArmor);
        }
        if !slice_eq_at(bytes, bytes.len() - 28, footer.as_slice()) {
            return Err(PgpError::InvalidAsciiArmor);
        }
        if bytes[bytes.len() - 29] != 10 {
            return Err(PgpError::InvalidAsciiArmor);
        }
        let payload = slice_subrange(bytes, 30, bytes.len() - 29);
        proof {
            assert(spec_armor_payload(b) == Some(payload@));
        }
        match b64_decode(payload) {
            Some(v) => {
                let r = PgpSig::from_bytes(v.as_slice());
                proof {
                    assert(forall|x: Seq<u8>| payload@ == b64_of(x) ==> v@ == x);
                }
                r
            },
            None => Err(PgpError::InvalidAsciiArmor),
        }
    }
}

impl core::str::FromStr for PgpSig {
    type Err = PgpError;

    fn from_str(s: &str) -> Result<PgpSig, PgpError> {
        PgpSig::from_ascii_armor(s)
    }
}

} // verus!
