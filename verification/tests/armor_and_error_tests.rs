use std::str::FromStr;

use pbp::{PgpError, PgpSig, SigType};

const DATA: &[u8] = b"How will I ever get out of this labyrinth?";

fn sample_sig() -> PgpSig {
    let seed: [u8; 32] = [7; 32];
    let fp: [u8; 20] = [0x33; 20];
    PgpSig::from_dalek(&seed, DATA, fp, SigType::BinaryDocument, 0)
}

#[test]
fn armor_round_trip() {
    let sig = sample_sig();
    let text = sig.to_ascii_armor();
    let back = PgpSig::from_str(&text).expect("armored text must parse");
    assert_eq!(back.as_bytes(), sig.as_bytes());
}

#[test]
fn armor_text_is_base64_between_markers() {
    let sig = sample_sig();
    let expected = format!(
        "-----BEGIN PGP SIGNATURE-----\n{}\n-----END PGP SIGNATURE-----\n",
        base64::encode(sig.as_bytes()),
    );
    assert_eq!(sig.to_ascii_armor(), expected);
}

#[test]
fn armored_invalid_packet_keeps_error_taxonomy() {
    let text = format!(
        "-----BEGIN PGP SIGNATURE-----\n{}\n-----END PGP SIGNATURE-----\n",
        base64::encode([0x90u8]),
    );
    assert_eq!(
        PgpSig::from_ascii_armor(&text).err(),
        Some(PgpError::UnsupportedPacketLength)
    );
}

#[test]
fn unarmored_text_is_rejected() {
    assert_eq!(
        PgpSig::from_ascii_armor("clearly not armored").err(),
        Some(PgpError::InvalidAsciiArmor)
    );
    let missing_footer = format!(
        "-----BEGIN PGP SIGNATURE-----\n{}\n",
        base64::encode(sample_sig().as_bytes()),
    );
    assert_eq!(
        PgpSig::from_ascii_armor(&missing_footer).err(),
        Some(PgpError::InvalidAsciiArmor)
    );
}

#[test]
fn bad_base64_is_rejected() {
    let text = "-----BEGIN PGP SIGNATURE-----\n@@@@\n-----END PGP SIGNATURE-----\n";
    assert_eq!(
        PgpSig::from_ascii_armor(text).err(),
        Some(PgpError::InvalidAsciiArmor)
    );
}

#[test]
fn unknown_first_byte_is_rejected() {
    assert_eq!(
        PgpSig::from_bytes(&[0x90, 0x00]).err(),
        Some(PgpError::UnsupportedPacketLength)
    );
    assert_eq!(PgpSig::from_bytes(&[]).err(), Some(PgpError::UnsupportedPacketLength));
}

#[test]
fn truncated_headers_are_rejected() {
    assert_eq!(PgpSig::from_bytes(&[0x88]).err(), Some(PgpError::InvalidPacketHeader));
    assert_eq!(
        PgpSig::from_bytes(&[0x89, 0x00]).err(),
        Some(PgpError::InvalidPacketHeader)
    );
    assert_eq!(
        PgpSig::from_bytes(&[0x8A, 0x00, 0x00]).err(),
        Some(PgpError::InvalidPacketHeader)
    );
    // The declared body length exceeds the available bytes.
    assert_eq!(
        PgpSig::from_bytes(&[0x88, 0x05, 0x01, 0x02]).err(),
        Some(PgpError::InvalidPacketHeader)
    );
}

#[test]
fn oversized_four_byte_length_is_rejected() {
    assert_eq!(
        PgpSig::from_bytes(&[0x8A, 0x00, 0x01, 0x00, 0x00]).err(),
        Some(PgpError::UnsupportedPacketLength)
    );
}

#[test]
fn wrong_length_arithmetic_is_rejected() {
    // A body whose declared unhashed length does not add up:
    // length 80, hashed length 0, unhashed length 5, but 5 + 0 + 78 != 80.
    let mut body = vec![4u8, 0, 22, 8, 0, 0, 0, 5];
    body.resize(80, 0);
    let mut packet = vec![0x89, 0, 80];
    packet.extend_from_slice(&body);
    assert_eq!(
        PgpSig::from_bytes(&packet).err(),
        Some(PgpError::UnsupportedSignaturePacket)
    );
}

#[test]
fn wrong_algorithm_ids_are_rejected() {
    let sig = sample_sig();
    for idx in [3usize, 5, 6] {
        let mut bytes = sig.as_bytes().to_vec();
        bytes[idx] ^= 0xFF;
        assert_eq!(
            PgpSig::from_bytes(&bytes).err(),
            Some(PgpError::UnsupportedSignaturePacket),
            "octet {idx} must be pinned",
        );
    }
}

#[test]
fn missing_fingerprint_subpacket_is_rejected() {
    // Structurally sound: hashed length 23, unhashed length 0, body
    // length 23 + 0 + 78 = 101, but the first hashed subpacket is not
    // the fingerprint subpacket.
    let mut body = vec![4u8, 0, 22, 8, 0, 23];
    body.resize(101, 0);
    let mut packet = vec![0x89, 0, 101];
    packet.extend_from_slice(&body);
    assert_eq!(
        PgpSig::from_bytes(&packet).err(),
        Some(PgpError::MissingFingerprintSubpacket)
    );

    // A hashed area too short to hold it is reported the same way.
    let mut short = vec![4u8, 0, 22, 8, 0, 10];
    short.resize(88, 0);
    let mut packet = vec![0x89, 0, 88];
    packet.extend_from_slice(&short);
    assert_eq!(
        PgpSig::from_bytes(&packet).err(),
        Some(PgpError::MissingFingerprintSubpacket)
    );
}

#[test]
fn trailing_bytes_are_dropped_by_reframing() {
    let sig = sample_sig();
    let mut padded = sig.as_bytes().to_vec();
    padded.extend_from_slice(b"trailing junk");
    let parsed = PgpSig::from_bytes(&padded).expect("the declared body still parses");
    assert_eq!(parsed.as_bytes(), sig.as_bytes());
}
