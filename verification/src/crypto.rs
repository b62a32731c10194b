//! Digests (BLAKE3, rendered as `blake3:` followed by lowercase hex) and
//! Ed25519 signatures over raw key and signature bytes.
use vstd::prelude::*;
use vstd::string::*;
use crate::text::{hex_lower, hex_string};
use ed25519_dalek::{Signer, Verifier};

verus! {

/// The BLAKE3 hash (32 bytes) of `input`.
pub uninterp spec fn blake3_hash_of(input: Seq<u8>) -> Seq<u8>;

/// Calls `blake3::hash` and hands back the hash's 32 bytes. The contract
/// names that result, a function of the input bytes alone; nothing else
/// about BLAKE3 is stated.
#[verifier::external_body]
fn blake3_hash(input: &[u8]) -> (out: [u8; 32])
    ensures
        out@ == blake3_hash_of(input@),
{
    *blake3::hash(input).as_bytes()
}

/// The content address of `bytes`: `blake3:` followed by the lowercase hex of its BLAKE3 hash.
pub open spec fn spec_digest(bytes: Seq<u8>) -> Seq<char> {
    "blake3:"@ + hex_lower(blake3_hash_of(bytes))
}

/// Content address of `bytes`, as `blake3:<64 lowercase hex digits>`.
pub fn digest(bytes: &[u8]) -> (d: String)
    ensures
        d@ == spec_digest(bytes@),
{
    let hash = blake3_hash(bytes);
    let hex = hex_string(&hash);
    let mut d = String::from_str("blake3:");
    d.append(hex.as_str());
    d
}

/// The Ed25519 public key (32 bytes) of a secret key.
pub uninterp spec fn ed25519_public_of(secret: Seq<u8>) -> Seq<u8>;

/// The Ed25519 signature (64 bytes) of `message` under a secret key.
pub uninterp spec fn ed25519_signature_of(secret: Seq<u8>, message: Seq<u8>) -> Seq<u8>;

/// Whether Ed25519 verification of `signature` over `message` succeeds under `public`.
pub uninterp spec fn ed25519_accepts(public: Seq<u8>, message: Seq<u8>, signature: Seq<u8>) -> bool;

/// Calls `ed25519_dalek::SigningKey::from_bytes` and `verifying_key`, and
/// hands back the public key's bytes: a function of the secret alone.
#[verifier::external_body]
pub(crate) fn ed25519_public_key(secret: &[u8; 32]) -> (public: [u8; 32])
    ensures
        public@ == ed25519_public_of(secret@),
{
    ed25519_dalek::SigningKey::from_bytes(secret).verifying_key().to_bytes()
}

/// Calls `Signer::sign` of `ed25519_dalek::SigningKey` (deterministic
/// Ed25519, RFC 8032) and hands back the signature's bytes. Besides naming
/// the result, the contract states the scheme's correctness: the signature
/// verifies over the same message under the signer's public key.
#[verifier::external_body]
pub(crate) fn ed25519_sign(secret: &[u8; 32], message: &[u8]) -> (signature: [u8; 64])
    ensures
        signature@ == ed25519_signature_of(secret@, message@),
        ed25519_accepts(ed25519_public_of(secret@), message@, signature@),
{
    ed25519_dalek::SigningKey::from_bytes(secret).sign(message).to_bytes()
}

/// Calls `ed25519_dalek::VerifyingKey::from_bytes` and `Verifier::verify`;
/// bytes that are not a valid public key are not accepted. The result is
/// named, a function of the three arguments alone.
#[verifier::external_body]
pub(crate) fn ed25519_verify(public: &[u8; 32], message: &[u8], signature: &[u8; 64]) -> (ok: bool)
    ensures
        ok == ed25519_accepts(public@, message@, signature@),
{
    match ed25519_dalek::VerifyingKey::from_bytes(public) {
        Ok(key) => key.verify(message, &ed25519_dalek::Signature::from_bytes(signature)).is_ok(),
        Err(_) => false,
    }
}

} // verus!
