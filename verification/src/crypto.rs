//! Ed25519 keys and signatures, checked by `ed25519-dalek`, and random
//! bytes from a ChaCha20 generator that the operating system seeds.

use vstd::prelude::*;

verus! {

/// Whether 32 bytes decode to a point of the curve: whether
/// `VerifyingKey::from_bytes` accepts them.
pub uninterp spec fn ed25519_point(bytes: Seq<u8>) -> bool;

/// Whether `signature` is accepted for `message` under the key with the
/// bytes `key`: whether `Verifier::verify` of the key returns `Ok`.
pub uninterp spec fn ed25519_accepts(key: Seq<u8>, message: Seq<u8>, signature: Seq<u8>) -> bool;

/// The first 32 bytes that a ChaCha20 generator gives when it is seeded
/// with the 32 bytes `seed`.
pub uninterp spec fn chacha20_first_32(seed: Seq<u8>) -> Seq<u8>;

/// Calls `VerifyingKey::from_bytes` and tells whether it gave a key.
///
/// Trusted: the answer is a function of the 32 bytes alone.
#[verifier::external_body]
pub(crate) fn decodes_to_point(bytes: &[u8; 32]) -> (decodes: bool)
    ensures
        decodes == ed25519_point(bytes@),
{
    ed25519_dalek::VerifyingKey::from_bytes(bytes).is_ok()
}

/// Calls `Verifier::verify` on the key that `key` decodes to, with the
/// signature that `Signature::from_bytes` makes of `signature`.
///
/// Trusted: the answer is a function of the key's bytes, the message and
/// the signature's bytes alone.
#[verifier::external_body]
pub(crate) fn signature_verifies(key: &[u8; 32], message: &[u8], signature: &[u8; 64]) -> (accepted:
    bool)
    requires
        ed25519_point(key@),
    ensures
        accepted == ed25519_accepts(key@, message@, signature@),
{
    match ed25519_dalek::VerifyingKey::from_bytes(key) {
        Ok(point) => ed25519_dalek::Verifier::verify(
            &point,
            message,
            &ed25519_dalek::Signature::from_bytes(signature),
        ).is_ok(),
        Err(_) => false,
    }
}

/// Calls `TryRngCore::try_fill_bytes` of `OsRng` on a buffer of 32 bytes:
/// a seed from the operating system's entropy, or `None` where the system
/// gives none. Nothing is claimed of the seed.
#[verifier::external_body]
pub(crate) fn os_seed() -> (seed: Option<[u8; 32]>) {
    let mut seed = [0u8; 32];
    match rand_core::TryRngCore::try_fill_bytes(&mut rand_core::OsRng, &mut seed) {
        Ok(()) => Some(seed),
        Err(_) => None,
    }
}

/// Calls `ChaCha20Rng::from_seed` and then `RngCore::fill_bytes` on a
/// buffer of 32 bytes.
///
/// Trusted: the bytes are a function of the seed alone, the start of the
/// ChaCha20 stream that the seed keys.
#[verifier::external_body]
pub(crate) fn expand_seed(seed: &[u8; 32]) -> (bytes: [u8; 32])
    ensures
        bytes@ == chacha20_first_32(seed@),
{
    let mut generator = <rand_chacha::ChaCha20Rng as rand_core::SeedableRng>::from_seed(*seed);
    let mut buffer = [0u8; 32];
    rand_core::RngCore::fill_bytes(&mut generator, &mut buffer);
    buffer
}

} // verus!
