use ed25519_dalek::SigningKey;
use sha2::Digest;
use pbp::{PgpError, PgpSig, SigType, SubPacket};

const DATA: &[u8] = b"How will I ever get out of this labyrinth?";

fn fixed_sig() -> [u8; 64] {
    let mut s = [0u8; 64];
    let mut i = 0;
    while i < 64 {
        s[i] = i as u8;
        i += 1;
    }
    s[0] = 0x10;
    s
}

#[test]
fn round_trip_preserves_fields() {
    let fp: [u8; 20] = [0xAB; 20];
    let note = b"notation";
    let subs = [SubPacket { tag: 20, data: note }];
    let sig = PgpSig::new(
        b"hello world",
        fp,
        SigType::TextDocument,
        1_234_567_890,
        &subs,
        |_h: &[u8]| fixed_sig(),
    );
    let parsed = PgpSig::from_bytes(sig.as_bytes()).expect("constructed packet must parse");
    assert_eq!(parsed.as_bytes(), sig.as_bytes());
    assert_eq!(parsed.fingerprint(), fp);
    assert_eq!(parsed.sig_type(), Ok(SigType::TextDocument));
    assert_eq!(parsed.signature(), fixed_sig());
    assert_eq!(parsed.hashed_section(), sig.hashed_section());
}

#[test]
fn mpi_bit_length_is_exact() {
    let fp: [u8; 20] = [0x01; 20];
    let sig = PgpSig::new(DATA, fp, SigType::BinaryDocument, 0, &[], |_h: &[u8]| fixed_sig());
    let bytes = sig.as_bytes();
    let tail = &bytes[bytes.len() - 68..];
    // The R half starts with 0x10: 31 full bytes plus 5 significant bits.
    assert_eq!(&tail[0..2], &[0x00, 0xFD]);
    assert_eq!(&tail[2..34], &fixed_sig()[0..32]);
    // The S half starts with 0x20: 31 full bytes plus 6 significant bits.
    assert_eq!(&tail[34..36], &[0x00, 0xFE]);
    assert_eq!(&tail[36..68], &fixed_sig()[32..64]);
}

#[test]
fn hash_preview_matches_sha256_of_preimage() {
    let fp: [u8; 20] = [0x55; 20];
    let sig = PgpSig::new(DATA, fp, SigType::BinaryDocument, 7, &[], |_h: &[u8]| fixed_sig());
    let hs = sig.hashed_section();
    let mut preimage = Vec::new();
    preimage.extend_from_slice(DATA);
    preimage.extend_from_slice(hs);
    preimage.push(0x04);
    preimage.push(0xFF);
    preimage.extend_from_slice(&(hs.len() as u32).to_be_bytes());
    let digest = sha2::Sha256::digest(&preimage);
    let bytes = sig.as_bytes();
    let preview = &bytes[bytes.len() - 70..bytes.len() - 68];
    assert_eq!(preview, &digest[0..2]);
}

#[test]
fn signer_receives_the_digest() {
    let fp: [u8; 20] = [0x44; 20];
    let seen: std::cell::RefCell<Option<Vec<u8>>> = std::cell::RefCell::new(None);
    let sig = PgpSig::new(DATA, fp, SigType::BinaryDocument, 7, &[], |h: &[u8]| {
        *seen.borrow_mut() = Some(h.to_vec());
        fixed_sig()
    });
    let hs = sig.hashed_section().to_vec();
    let mut preimage = Vec::new();
    preimage.extend_from_slice(DATA);
    preimage.extend_from_slice(&hs);
    preimage.push(0x04);
    preimage.push(0xFF);
    preimage.extend_from_slice(&(hs.len() as u32).to_be_bytes());
    let digest = sha2::Sha256::digest(&preimage);
    assert_eq!(seen.into_inner().unwrap(), digest.as_slice());
}

#[test]
fn verification_correct() {
    let seed: [u8; 32] = [42; 32];
    let fp: [u8; 20] = [0xCD; 20];
    let sig = PgpSig::from_dalek(&seed, DATA, fp, SigType::BinaryDocument, 0);
    let vk = SigningKey::from_bytes(&seed).verifying_key().to_bytes();
    assert!(sig.verify_dalek(&vk, DATA));

    // A single mutated data byte must fail.
    let mut mutated = DATA.to_vec();
    mutated[0] ^= 0x01;
    assert!(!sig.verify_dalek(&vk, &mutated));

    // A mismatched public key must fail.
    let other = SigningKey::from_bytes(&[43; 32]).verifying_key().to_bytes();
    assert!(!sig.verify_dalek(&other, DATA));
}

#[test]
fn verify_callback_decides() {
    let seed: [u8; 32] = [9; 32];
    let fp: [u8; 20] = [0x01; 20];
    let sig = PgpSig::from_dalek(&seed, DATA, fp, SigType::BinaryDocument, 0);
    let vk = SigningKey::from_bytes(&seed).verifying_key();
    let ok = sig.verify(DATA, |digest: &[u8], raw: [u8; 64]| {
        let ds = ed25519_dalek::Signature::from_bytes(&raw);
        vk.verify_strict(digest, &ds).is_ok()
    });
    assert!(ok);
    let refused = sig.verify(DATA, |_digest: &[u8], _raw: [u8; 64]| false);
    assert!(!refused);
}

#[test]
fn to_dalek_matches_signature_bytes() {
    let seed: [u8; 32] = [5; 32];
    let fp: [u8; 20] = [0x11; 20];
    let sig = PgpSig::from_dalek(&seed, DATA, fp, SigType::BinaryDocument, 0);
    assert_eq!(sig.to_dalek().to_bytes(), sig.signature());
}

#[test]
fn header_length_idempotence() {
    let seed: [u8; 32] = [3; 32];
    let fp: [u8; 20] = [0x77; 20];
    let sig = PgpSig::from_dalek(&seed, DATA, fp, SigType::BinaryDocument, 0);
    let canonical = sig.as_bytes();
    let body = &canonical[3..];
    assert!(body.len() <= 255);

    let mut one_byte_form = vec![0x88, body.len() as u8];
    one_byte_form.extend_from_slice(body);

    let a = PgpSig::from_bytes(&one_byte_form).expect("one-byte header must parse");
    let b = PgpSig::from_bytes(canonical).expect("canonical header must parse");
    assert_eq!(a.as_bytes(), b.as_bytes());
    assert_eq!(a.as_bytes(), canonical);
    assert_eq!(a.hashed_section(), b.hashed_section());
}

#[test]
fn four_byte_header_is_reframed() {
    let seed: [u8; 32] = [3; 32];
    let fp: [u8; 20] = [0x77; 20];
    let sig = PgpSig::from_dalek(&seed, DATA, fp, SigType::BinaryDocument, 0);
    let canonical = sig.as_bytes();
    let body = &canonical[3..];

    let mut four_byte_form = vec![0x8A];
    four_byte_form.extend_from_slice(&(body.len() as u32).to_be_bytes());
    four_byte_form.extend_from_slice(body);

    let a = PgpSig::from_bytes(&four_byte_form).expect("four-byte header must parse");
    assert_eq!(a.as_bytes(), canonical);
}

#[test]
fn concrete_scenario() {
    let seed: [u8; 32] = [7; 32];
    let fp: [u8; 20] = [0x33; 20];
    let sig = PgpSig::from_dalek(&seed, DATA, fp, SigType::BinaryDocument, 0);
    // Version, class, algorithm and hash octets, the 2-byte area length,
    // the 23-byte fingerprint subpacket and the 6-byte timestamp
    // subpacket: 4 + 2 + 23 + 6 bytes.
    assert_eq!(sig.hashed_section().len(), 35);
    let vk = SigningKey::from_bytes(&seed).verifying_key().to_bytes();
    assert!(sig.verify_dalek(&vk, DATA));
    let other = SigningKey::from_bytes(&[8; 32]).verifying_key().to_bytes();
    assert!(!sig.verify_dalek(&other, DATA));
    assert!(!sig.verify_dalek(&vk, b"some other data"));
}

#[test]
fn sig_type_codes_round_trip() {
    let all = [
        (SigType::BinaryDocument, 0x00),
        (SigType::TextDocument, 0x01),
        (SigType::Standalone, 0x02),
        (SigType::GenericCertification, 0x10),
        (SigType::PersonaCertification, 0x11),
        (SigType::CasualCertification, 0x12),
        (SigType::PositiveCertification, 0x13),
        (SigType::SubkeyBinding, 0x18),
        (SigType::PrimaryKeyBinding, 0x19),
        (SigType::DirectlyOnKey, 0x1F),
        (SigType::KeyRevocation, 0x20),
        (SigType::SubkeyRevocation, 0x28),
        (SigType::CertificationRevocation, 0x30),
        (SigType::Timestamp, 0x40),
        (SigType::ThirdPartyConfirmation, 0x50),
    ];
    for (t, c) in all {
        assert_eq!(t.code(), c);
        assert_eq!(SigType::from_code(c), Some(t));
    }
    assert_eq!(SigType::from_code(0x7F), None);
}

#[test]
fn unrecognized_sig_type_is_reported() {
    let seed: [u8; 32] = [6; 32];
    let fp: [u8; 20] = [0x22; 20];
    let sig = PgpSig::from_dalek(&seed, DATA, fp, SigType::BinaryDocument, 0);
    let mut bytes = sig.as_bytes().to_vec();
    bytes[4] = 0x7F;
    let parsed = PgpSig::from_bytes(&bytes).expect("the class octet is not validated");
    assert_eq!(parsed.sig_type(), Err(PgpError::UnrecognizedSigType));
}
