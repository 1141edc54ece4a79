//! Trusted boundary to the cryptographic primitives the core consumes: the
//! 256-bit digest used for Merkle commitments and block hashes, the digests
//! and encodings of the display-address scheme, and signature verification.
//!
//! Each digest or encoding is a pure function of its input alone, so its
//! result is named by an uninterpreted spec function; the verified logic is
//! specified over those names.

use vstd::prelude::*;

use base64::Engine;
use sha2::Digest;

verus! {

/// The 64 lowercase hex characters of the SHA-256 digest of a string's
/// UTF-8 bytes.
pub uninterp spec fn sha256_hex_of(s: Seq<char>) -> Seq<char>;

/// The 32-byte SHA-256 digest of a byte sequence.
pub uninterp spec fn sha256_of(b: Seq<u8>) -> Seq<u8>;

/// The 20-byte RIPEMD-160 digest of a byte sequence.
pub uninterp spec fn ripemd160_of(b: Seq<u8>) -> Seq<u8>;

/// The Base58 rendering (Bitcoin alphabet) of a byte sequence.
pub uninterp spec fn base58_of(b: Seq<u8>) -> Seq<char>;

/// What standard-alphabet, padded Base64 decoding yields for a string:
/// the decoded bytes, or nothing when the string is not valid Base64.
pub uninterp spec fn base64_decode_of(s: Seq<char>) -> Option<Seq<u8>>;

/// Whether `sig` is a valid Ed25519 signature by the key `pk` over the
/// UTF-8 bytes of `msg`.
pub uninterp spec fn ed25519_verifies(pk: Seq<u8>, msg: Seq<char>, sig: Seq<u8>) -> bool;

/// Relies on sha2's `Sha256` over the string's UTF-8 bytes, formatted in
/// lowercase hex: the digest is 32 bytes, so the rendering is 64 characters,
/// and it depends on the characters of `s` alone.
#[verifier::external_body]
pub(crate) fn sha256_hex(s: &str) -> (r: String)
    ensures
        r@ == sha256_hex_of(s@),
        r@.len() == 64,
{
    let mut hasher = sha2::Sha256::new();
    hasher.update(s.as_bytes());
    format!("{:x}", hasher.finalize())
}

/// Relies on sha2's `Sha256`: a 32-byte digest that depends on the input
/// bytes alone.
#[verifier::external_body]
pub(crate) fn sha256_bytes(b: &[u8]) -> (r: Vec<u8>)
    ensures
        r@ == sha256_of(b@),
        r@.len() == 32,
{
    sha2::Sha256::digest(b).to_vec()
}

/// Relies on ripemd's `Ripemd160`: a 20-byte digest that depends on the
/// input bytes alone.
#[verifier::external_body]
pub(crate) fn ripemd160_bytes(b: &[u8]) -> (r: Vec<u8>)
    ensures
        r@ == ripemd160_of(b@),
        r@.len() == 20,
{
    ripemd::Ripemd160::digest(b).to_vec()
}

/// Relies on bs58's `encode` with its default (Bitcoin) alphabet: the
/// rendering depends on the input bytes alone.
#[verifier::external_body]
pub(crate) fn base58_encode(b: &[u8]) -> (r: String)
    ensures
        r@ == base58_of(b@),
{
    bs58::encode(b).into_string()
}

/// Relies on base64's standard engine `decode`: deterministic in the input,
/// and an error exactly when the input is not valid padded Base64.
#[verifier::external_body]
pub(crate) fn base64_decode(s: &str) -> (r: Option<Vec<u8>>)
    ensures
        r is Some <==> base64_decode_of(s@) is Some,
        r matches Some(v) ==> base64_decode_of(s@) == Some(v@),
{
    match base64::engine::general_purpose::STANDARD.decode(s) {
        Ok(v) => Some(v),
        Err(_) => None,
    }
}

/// Relies on ring's `UnparsedPublicKey::verify` with the `ED25519`
/// algorithm: acceptance depends only on the key, message and signature
/// bytes.
#[verifier::external_body]
pub(crate) fn ed25519_verify(pk: &[u8], msg: &str, sig: &[u8]) -> (r: bool)
    ensures
        r == ed25519_verifies(pk@, msg@, sig@),
{
    ring::signature::UnparsedPublicKey::new(&ring::signature::ED25519, pk)
        .verify(msg.as_bytes(), sig)
        .is_ok()
}

} // verus!
