//! Typed errors of the library, one enum per component.

use vstd::prelude::*;

verus! {

/// Failures of descriptor parsing.
#[derive(Debug, Clone, PartialEq, Eq)]
pub enum DescriptorError {
    /// No descriptor in the listing matched the requested script type.
    DescriptorNotFound,
    /// The extracted key material did not parse as an extended private key.
    MalformedKey,
}

/// Failures of key derivation and of the comparison against node-reported
/// values.
#[derive(Debug, Clone, PartialEq, Eq)]
pub enum DerivationError {
    /// The path string is not a structurally valid derivation path.
    InvalidPath,
    /// The derived key disagrees with what the node reported; both sides are
    /// carried for diagnostics. The expected address is absent when no
    /// address could be computed from the derived public key.
    DerivationMismatch {
        expected_pubkey: String,
        observed_pubkey: String,
        expected_address: Option<String>,
        observed_address: String,
    },
}

/// Failures of signature assembly.
#[derive(Debug, Clone, PartialEq, Eq)]
pub enum SignatureError {
    /// A component is not a valid hexadecimal string.
    InvalidHex,
    /// A component decodes to the wrong number of bytes.
    InvalidComponentLength,
    /// The curve library rejected the assembled compact signature.
    InvalidSignature,
}

/// The two fields a signing outcome payload must carry.
#[derive(Debug, Clone, Copy, PartialEq, Eq)]
pub enum SigField {
    /// `big_r.affine_point`.
    BigR,
    /// `s.scalar`.
    SScalar,
}

/// Failures of outcome extraction.
#[derive(Debug, Clone, Copy, PartialEq, Eq)]
pub enum ExtractError {
    /// The outcome did not complete with a success value.
    NotSuccess,
    /// The success payload is not valid JSON.
    InvalidPayload,
    /// The named field is absent from the payload, or is not a string.
    MissingField(SigField),
    /// No receipt of the outcome yielded both components.
    NoSignaturesFound,
}

} // verus!
