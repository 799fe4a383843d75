//! The hash function and the signature scheme, as provided by `blake3` and
//! `ed25519-dalek`.

use vstd::prelude::*;

use crate::data_struct::{PubKey, Signature};
use crate::hash::Hash256;

verus! {

/// The BLAKE3 digest of a byte string.
pub uninterp spec fn blake3_digest(input: Seq<u8>) -> Seq<u8>;

/// Whether Ed25519 strict verification accepts `sig` on `msg` under the
/// encoded verifying key `key`.
pub uninterp spec fn ed25519_strict_accepts(key: Seq<u8>, msg: Seq<u8>, sig: Seq<u8>) -> bool;

/// The encoded verifying key that belongs to a 32-byte secret seed.
pub uninterp spec fn ed25519_public_of(seed: Seq<u8>) -> Seq<u8>;

/// The deterministic Ed25519 signature of `msg` under a 32-byte secret seed.
pub uninterp spec fn ed25519_signature_of(seed: Seq<u8>, msg: Seq<u8>) -> Seq<u8>;

/// Relies on `blake3::hash`: the 32-byte BLAKE3 digest of the input.
#[verifier::external_body]
pub(crate) fn blake3_hash(input: &[u8]) -> (r: Hash256)
    ensures
        r.bytes@ == blake3_digest(input@),
{
    Hash256 { bytes: *blake3::hash(input).as_bytes() }
}

/// Relies on `ed25519_dalek::VerifyingKey::verify_strict`, with the key read
/// by `VerifyingKey::from_bytes` (a key that does not decode accepts nothing)
/// and the signature by `Signature::from_bytes`.
#[verifier::external_body]
pub(crate) fn ed25519_verify_strict(key: &[u8; 32], msg: &[u8], sig: &[u8; 64]) -> (r: bool)
    ensures
        r == ed25519_strict_accepts(key@, msg@, sig@),
{
    match ed25519_dalek::VerifyingKey::from_bytes(key) {
        Ok(k) => k.verify_strict(msg, &ed25519_dalek::Signature::from_bytes(sig)).is_ok(),
        Err(_) => false,
    }
}

/// Relies on `ed25519_dalek::SigningKey::verifying_key`, for the key made by
/// `SigningKey::from_bytes` from the seed.
#[verifier::external_body]
pub(crate) fn ed25519_public_key(seed: &[u8; 32]) -> (r: PubKey)
    ensures
        r.bytes@ == ed25519_public_of(seed@),
{
    PubKey { bytes: ed25519_dalek::SigningKey::from_bytes(seed).verifying_key().to_bytes() }
}

/// Relies on `ed25519_dalek::Signer::sign` for `SigningKey` (deterministic
/// RFC 8032 signing), for the key made by `SigningKey::from_bytes`.
#[verifier::external_body]
pub(crate) fn ed25519_sign(seed: &[u8; 32], msg: &[u8]) -> (r: Signature)
    ensures
        r.bytes@ == ed25519_signature_of(seed@, msg@),
{
    let key = ed25519_dalek::SigningKey::from_bytes(seed);
    Signature { bytes: ed25519_dalek::Signer::sign(&key, msg).to_bytes() }
}

} // verus!
