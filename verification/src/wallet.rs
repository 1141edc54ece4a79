//! Signature verification against a Base64-encoded sender identity. Key-pair
//! generation and signing are external capabilities consumed by callers; only
//! verification, whose inputs are plain strings, belongs to the core.

use vstd::prelude::*;

use crate::crypto::{base64_decode, base64_decode_of, ed25519_verify, ed25519_verifies};

verus! {

/// Whether `sig` (Base64) is a valid Ed25519 signature over `msg` by the
/// public key encoded (Base64) in `addr`. A string that fails to decode
/// makes the check false rather than an error.
pub open spec fn spec_verify_signature(addr: Seq<char>, msg: Seq<char>, sig: Seq<char>) -> bool {
    match base64_decode_of(addr) {
        Some(pk) => match base64_decode_of(sig) {
            Some(s) => ed25519_verifies(pk, msg, s),
            None => false,
        },
        None => false,
    }
}

/// Decodes the sender address and the signature from Base64 and verifies the
/// Ed25519 signature over the message's bytes.
pub fn verify_signature(sender_address: &str, message: &str, signature: &str) -> (r: bool)
    ensures
        r == spec_verify_signature(sender_address@, message@, signature@),
{
    let public_key_bytes = match base64_decode(sender_address) {
        Some(bytes) => bytes,
        None => {
            return false;
        },
    };

    let signature_bytes = match base64_decode(signature) {
        Some(bytes) => bytes,
        None => {
            return false;
        },
    };

    ed25519_verify(public_key_bytes.as_slice(), message, signature_bytes.as_slice())
}

} // verus!
