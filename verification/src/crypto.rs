//! The calls that leave this library: hashing, Ed25519 key handling, the
//! operating system's random source and clock, and base64. Each function
//! here is believed, not proved; its comment says what is believed.

use crate::layout::MAX_RECORD_LEN;
use vstd::prelude::*;

verus! {

/// The first 64 bytes of BLAKE3's extendable output for the input `data`.
pub uninterp spec fn blake3_xof(data: Seq<u8>) -> Seq<u8>;

/// Whether 32 bytes decode to a point of the Ed25519 curve, as
/// `ed25519_dalek::VerifyingKey::from_bytes` decides it.
pub uninterp spec fn ed25519_point_valid(bytes: Seq<u8>) -> bool;

/// The encoded public key that belongs to a 32-byte Ed25519 secret key.
pub uninterp spec fn ed25519_public_key(secret: Seq<u8>) -> Seq<u8>;

/// The standard base64 text, with padding, of `data`.
pub uninterp spec fn base64_standard(data: Seq<u8>) -> Seq<char>;

/// Hashes `data` with a fresh `blake3::Hasher` and reads 64 bytes from
/// `finalize_xof`. Believed: the output depends on the input bytes alone.
#[verifier::external_body]
pub(crate) fn xof64(data: &[u8]) -> (out: [u8; 64])
    ensures
        out@ == blake3_xof(data@),
{
    let mut out: [u8; 64] = [0u8; 64];
    let mut hasher = blake3::Hasher::new();
    hasher.update(data);
    hasher.finalize_xof().fill(&mut out);
    out
}

/// Asks `ed25519_dalek::VerifyingKey::from_bytes` whether `bytes` decode to
/// a curve point. Believed: the answer depends on the bytes alone.
#[verifier::external_body]
pub(crate) fn point_is_valid(bytes: &[u8; 32]) -> (ok: bool)
    ensures
        ok == ed25519_point_valid(bytes@),
{
    ed25519_dalek::VerifyingKey::from_bytes(bytes).is_ok()
}

/// Derives the public key of `secret` with `ed25519_dalek::SigningKey::from_bytes`
/// and `verifying_key`. Believed: the key depends on the secret alone, and it
/// decodes again, because it is the compression of a curve point and
/// `VerifyingKey::from_bytes` fails only where decompression does.
#[verifier::external_body]
pub(crate) fn derive_public_key(secret: &[u8; 32]) -> (out: [u8; 32])
    ensures
        out@ == ed25519_public_key(secret@),
        ed25519_point_valid(out@),
{
    ed25519_dalek::SigningKey::from_bytes(secret).verifying_key().to_bytes()
}

/// Fills `N` bytes from `rand::rngs::OsRng`. Nothing is promised of them:
/// the operating system chooses.
#[verifier::external_body]
pub(crate) fn random_bytes<const N: usize>() -> (out: [u8; N]) {
    let mut out: [u8; N] = [0u8; N];
    rand::RngCore::fill_bytes(&mut rand::rngs::OsRng, &mut out);
    out
}

/// Reads the system clock with `std::time::SystemTime::now` and gives the
/// milliseconds since the Unix epoch, or `None` if the clock is set before
/// it. Nothing is promised of the number.
#[verifier::external_body]
pub(crate) fn unix_time_millis() -> (millis: Option<u128>) {
    match std::time::SystemTime::now().duration_since(std::time::UNIX_EPOCH) {
        Ok(elapsed) => Some(elapsed.as_millis()),
        Err(_) => None,
    }
}

/// Encodes `data` with `base64::prelude::BASE64_STANDARD`. Believed: the
/// text depends on the bytes alone. The bound keeps the encoded length
/// within what the encoder can compute.
#[verifier::external_body]
pub(crate) fn base64_encode(data: &[u8]) -> (text: String)
    requires
        data@.len() <= MAX_RECORD_LEN,
    ensures
        text@ == base64_standard(data@),
{
    base64::Engine::encode(&base64::prelude::BASE64_STANDARD, data)
}

} // verus!
