//! A strict subset of the OpenPGP signature packet format (RFC 4880),
//! specialized to EdDSA signatures over SHA-256 preimages.
//!
//! The crate builds binary signature packets around arbitrary signed data
//! using an externally supplied signing function, and parses and verifies
//! previously constructed packets, accepting only the exact structural
//! shape the encoder produces.

use vstd::prelude::*;

pub mod armor;
pub mod codec;
pub mod crypto;
pub mod packet;
pub mod sig;

pub use sig::PgpSig;
pub use sig::SigType;
pub use sig::SubPacket;

verus! {

/// A 20-byte public-key fingerprint, produced outside this crate.
pub type Fingerprint = [u8; 20];

/// The errors a parsing entry point can report.
#[derive(Copy, Clone, PartialEq, Eq, Structural, Debug)]
pub enum PgpError {
    /// A declared packet length exceeds the available bytes, or the header
    /// itself is truncated.
    InvalidPacketHeader,
    /// An unrecognized length-header variant, or a 4-byte length exceeding
    /// the 2-byte canonical form.
    UnsupportedPacketLength,
    /// A version, algorithm or hash id mismatch, or length arithmetic that
    /// does not add up to the declared body length.
    UnsupportedSignaturePacket,
    /// The hashed-subpacket area is too short, or its first entry is not
    /// the mandatory fingerprint subpacket in the expected shape.
    MissingFingerprintSubpacket,
    /// The text form is not delimited and encoded as this crate emits it.
    InvalidAsciiArmor,
    /// The signature-class octet holds a code outside the closed set of
    /// recognized signature types.
    UnrecognizedSigType,
}

} // verus!
