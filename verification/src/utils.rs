//! Display helpers: the decimal kred amount formatter and the Base58Check
//! style display address derived from a public key.

use vstd::prelude::*;

use crate::crypto::{
    base58_encode, base58_of, ripemd160_bytes, ripemd160_of, sha256_bytes, sha256_of,
};
use crate::text::{
    lemma_dec_len_bound, pow10, push_chars, push_dec_chars, spec_dec_u64, spec_zeros, string_push,
    u64_to_dec,
};

verus! {

/// Zero-pads a digit string on the left to eight characters.
pub open spec fn spec_pad8(s: Seq<char>) -> Seq<char> {
    if s.len() >= 8 {
        s
    } else {
        spec_zeros((8 - s.len()) as nat) + s
    }
}

/// Drops trailing zero digits (possibly all of them).
pub open spec fn spec_trim_trailing_zeros(s: Seq<char>) -> Seq<char>
    decreases s.len(),
{
    if s.len() > 0 && s.last() == '0' {
        spec_trim_trailing_zeros(s.drop_last())
    } else {
        s
    }
}

/// The display form of an amount of koin: the whole kred in decimal, a dot,
/// then the eight-digit zero-padded fraction with trailing zeros trimmed.
pub open spec fn spec_format_kred(koin: u64) -> Seq<char> {
    spec_dec_u64((koin / 100_000_000) as nat) + seq!['.'] + spec_trim_trailing_zeros(
        spec_pad8(spec_dec_u64((koin % 100_000_000) as nat)),
    )
}

/// Formats an amount of koin as a decimal kred string.
pub fn format_kred(koin: u64) -> (r: String)
    ensures
        r@ == spec_format_kred(koin),
{
    let whole = koin / 100_000_000;
    let fraction = koin % 100_000_000;

    let mut digits: Vec<char> = Vec::new();
    push_dec_chars(&mut digits, fraction);
    proof {
        reveal_with_fuel(pow10, 9);
        lemma_dec_len_bound(fraction as nat, 8);
    }

    let mut padded: Vec<char> = Vec::new();
    let dlen = digits.len();
    let mut p: usize = 0;
    while p < 8 - dlen
        invariant
            dlen <= 8,
            p <= 8 - dlen,
            padded@.len() == p,
            forall|k: int| 0 <= k < p ==> padded@[k] == '0',
        decreases 8 - dlen - p,
    {
        padded.push('0');
        p = p + 1;
    }
    padded.append(&mut digits);
    proof {
        assert(padded@ =~= spec_pad8(spec_dec_u64(fraction as nat)));
    }

    let ghost padded0 = padded@;
    while padded.len() > 0 && padded[padded.len() - 1] == '0'
        invariant
            spec_trim_trailing_zeros(padded@) == spec_trim_trailing_zeros(padded0),
        decreases padded@.len(),
    {
        padded.pop();
    }
    proof {
        assert(padded@ == spec_trim_trailing_zeros(padded0));
    }

    let mut r = u64_to_dec(whole);
    string_push(&mut r, '.');
    push_chars(&mut r, &padded);
    proof {
        assert(r@ =~= spec_format_kred(koin));
    }
    r
}

/// The Base58Check-style payload for a public key: a zero version byte, the
/// RIPEMD-160 digest of the key's SHA-256 digest, and the first four bytes of
/// the double SHA-256 checksum of the versioned digest.
pub open spec fn spec_btc_payload(pk: Seq<u8>) -> Seq<u8> {
    let versioned = seq![0u8] + ripemd160_of(sha256_of(pk));
    versioned + sha256_of(sha256_of(versioned)).take(4)
}

/// Derives the display address of a public key: the Base58 rendering of the
/// checksummed, versioned hash of the key, behind a fixed prefix.
pub fn btc_style_address(pubkey: &[u8]) -> (r: String)
    ensures
        r@ == "KRDx"@ + base58_of(spec_btc_payload(pubkey@)),
{
    let sha = sha256_bytes(pubkey);
    let mut ripemd_hash = ripemd160_bytes(sha.as_slice());

    let mut payload: Vec<u8> = Vec::new();
    payload.push(0x00u8);
    payload.append(&mut ripemd_hash);
    proof {
        assert(payload@ =~= seq![0u8] + ripemd160_of(sha256_of(pubkey@)));
    }
    let ghost versioned = payload@;

    let inner = sha256_bytes(payload.as_slice());
    let checksum = sha256_bytes(inner.as_slice());
    proof {
        assert(versioned + checksum@.take(0) =~= versioned);
    }
    let mut k: usize = 0;
    while k < 4
        invariant
            checksum@ == sha256_of(sha256_of(versioned)),
            checksum@.len() == 32,
            k <= 4,
            payload@ == versioned + checksum@.take(k as int),
        decreases 4 - k,
    {
        payload.push(checksum[k]);
        proof {
            assert(payload@ =~= versioned + checksum@.take(k as int + 1));
        }
        k = k + 1;
    }
    proof {
        assert(payload@ == spec_btc_payload(pubkey@));
    }

    let base58 = base58_encode(payload.as_slice());
    let mut r = "KRDx".to_owned();
    r.append(base58.as_str());
    r
}

} // verus!
