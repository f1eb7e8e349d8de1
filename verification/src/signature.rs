//! Reassembly of a 64-byte compact ECDSA signature from the two hex-encoded
//! components found in a signer's execution outcomes.

use vstd::prelude::*;
use crate::errors::SignatureError;
use crate::hexutil::hex_to_bytes;
use crate::hexutil::hex_decode;

verus! {

/// Whether the secp256k1 library accepts the given bytes as a compact ECDSA
/// signature (64 bytes, r and s both below the curve order).
pub uninterp spec fn compact_sig_valid(bytes: Seq<u8>) -> bool;

/// Relies on `bitcoin::secp256k1::ecdsa::Signature::from_compact`: whether it
/// accepts the bytes is a function of the bytes alone (it rejects any length
/// other than 64, and r or s at or above the curve order).
#[verifier::external_body]
fn compact_sig_accepted(bytes: &Vec<u8>) -> (r: bool)
    ensures
        r == compact_sig_valid(bytes@),
{
    bitcoin::secp256k1::ecdsa::Signature::from_compact(bytes.as_slice()).is_ok()
}

/// A compact ECDSA signature: the 32-byte r scalar followed by the 32-byte s
/// scalar, accepted by the curve library.
#[derive(Debug, PartialEq, Eq)]
pub struct CompactSignature {
    bytes: Vec<u8>,
}

impl View for CompactSignature {
    type V = Seq<u8>;

    closed spec fn view(&self) -> Seq<u8> {
        self.bytes@
    }
}

impl CompactSignature {
    /// The 64 raw bytes of the signature.
    pub fn bytes(&self) -> (r: &Vec<u8>)
        ensures
            r@ == self@,
    {
        &self.bytes
    }
}

/// The compact form assembled from a decoded 33-byte point encoding and a
/// decoded 32-byte scalar: the point's x-coordinate (parity byte stripped)
/// followed by the scalar.
pub open spec fn compact_form(big_r: Seq<u8>, s: Seq<u8>) -> Seq<u8> {
    big_r.skip(1) + s
}

/// Reconstructs a compact ECDSA signature from the hex-encoded components
/// `big_r` (a 33-byte compressed point) and `s` (a 32-byte scalar). The
/// leading parity byte of `big_r` is discarded, so the result is only the
/// (r, s) pair, not a recoverable signature.
pub fn create_signature(big_r_hex: &str, s_hex: &str) -> (r: Result<
    CompactSignature,
    SignatureError,
>)
    ensures
        match (hex_to_bytes(big_r_hex@), hex_to_bytes(s_hex@)) {
            (Some(br), Some(sb)) => {
                if br.len() == 33 && sb.len() == 32 {
                    if compact_sig_valid(compact_form(br, sb)) {
                        r matches Ok(sig) && sig@ == compact_form(br, sb) && sig@.len() == 64
                    } else {
                        r == Err::<CompactSignature, _>(SignatureError::InvalidSignature)
                    }
                } else {
                    r == Err::<CompactSignature, _>(SignatureError::InvalidComponentLength)
                }
            },
            _ => r == Err::<CompactSignature, _>(SignatureError::InvalidHex),
        },
{
    let big_r_bytes = match hex_decode(big_r_hex) {
        Some(v) => v,
        None => {
            return Err(SignatureError::InvalidHex);
        },
    };
    let s_bytes = match hex_decode(s_hex) {
        Some(v) => v,
        None => {
            return Err(SignatureError::InvalidHex);
        },
    };
    if big_r_bytes.len() != 33 || s_bytes.len() != 32 {
        return Err(SignatureError::InvalidComponentLength);
    }
    let mut buf: Vec<u8> = Vec::new();
    let mut i: usize = 1;
    while i < 33
        invariant
            big_r_bytes@.len() == 33,
            1 <= i <= 33,
            buf@ == big_r_bytes@.subrange(1, i as int),
        decreases 33 - i,
    {
        buf.push(big_r_bytes[i]);
        proof {
            assert(buf@ =~= big_r_bytes@.subrange(1, i + 1));
        }
        i += 1;
    }
    let mut j: usize = 0;
    while j < 32
        invariant
            big_r_bytes@.len() == 33,
            s_bytes@.len() == 32,
            j <= 32,
            buf@ == big_r_bytes@.subrange(1, 33) + s_bytes@.subrange(0, j as int),
        decreases 32 - j,
    {
        buf.push(s_bytes[j]);
        proof {
            assert(buf@ =~= big_r_bytes@.subrange(1, 33) + s_bytes@.subrange(0, j + 1));
        }
        j += 1;
    }
    proof {
        assert(big_r_bytes@.subrange(1, 33) =~= big_r_bytes@.skip(1));
        assert(s_bytes@.subrange(0, 32) =~= s_bytes@);
        assert(buf@ =~= compact_form(big_r_bytes@, s_bytes@));
    }
    if compact_sig_accepted(&buf) {
        Ok(CompactSignature { bytes: buf })
    } else {
        Err(SignatureError::InvalidSignature)
    }
}

} // verus!
