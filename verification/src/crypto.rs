//! The cryptographic collaborators: SHA-256 hashing and ed25519 signing
//! and verification, reached through trusted wrappers whose results are
//! named but never restated.

use ed25519_dalek::Signer;
use vstd::prelude::*;

verus! {

/// The SHA-256 digest of a byte sequence.
pub uninterp spec fn sha256_of(bytes: Seq<u8>) -> Seq<u8>;

/// The public key derived from 32 bytes of ed25519 secret-key material.
pub uninterp spec fn ed25519_pub_of(key: Seq<u8>) -> Seq<u8>;

/// The ed25519 signature over a message under a secret key; RFC 8032
/// signing is deterministic, so the result is a function of the two.
pub uninterp spec fn ed25519_sign_of(key: Seq<u8>, msg: Seq<u8>) -> Seq<u8>;

/// Whether an ed25519 signature verifies over a message under the given
/// public-key bytes; false when the bytes decode to no valid key.
pub uninterp spec fn ed25519_verify_of(key: Seq<u8>, msg: Seq<u8>, sig: Seq<u8>) -> bool;

/// Relies on sha2::Sha256::digest: the 32-byte SHA-256 digest, a function
/// of the input bytes alone.
#[verifier::external_body]
pub(crate) fn sha256(bytes: &[u8]) -> (r: [u8; 32])
    ensures
        r@ == sha256_of(bytes@),
{
    <sha2::Sha256 as sha2::Digest>::digest(bytes).into()
}

/// Relies on ed25519_dalek::SigningKey: from_bytes accepts any 32 bytes,
/// sign is the deterministic RFC 8032 signature, and a signature so
/// produced passes verify_strict under the key's own verifying key.
#[verifier::external_body]
pub(crate) fn ed25519_sign(key: &[u8; 32], msg: &[u8]) -> (r: [u8; 64])
    ensures
        r@ == ed25519_sign_of(key@, msg@),
        ed25519_verify_of(ed25519_pub_of(key@), msg@, r@),
{
    let sk = ed25519_dalek::SigningKey::from_bytes(key);
    sk.sign(msg).to_bytes()
}

/// Relies on ed25519_dalek::VerifyingKey: from_bytes decodes the key, and
/// verify_strict decides the signature; both are functions of their byte
/// inputs alone.
#[verifier::external_body]
pub(crate) fn ed25519_verify(key: &[u8; 32], msg: &[u8], sig: &[u8; 64]) -> (r: bool)
    ensures
        r == ed25519_verify_of(key@, msg@, sig@),
{
    match ed25519_dalek::VerifyingKey::from_bytes(key) {
        Ok(vk) => vk.verify_strict(msg, &ed25519_dalek::Signature::from_bytes(sig)).is_ok(),
        Err(_) => false,
    }
}

#[verifier::external_type_specification]
#[verifier::external_body]
pub struct ExDalekSignature(ed25519_dalek::Signature);

/// Relies on ed25519_dalek::Signature::from_bytes, which accepts any 64
/// bytes.
#[verifier::external_body]
pub(crate) fn dalek_signature_from_bytes(sig: &[u8; 64]) -> ed25519_dalek::Signature {
    ed25519_dalek::Signature::from_bytes(sig)
}

} // verus!
