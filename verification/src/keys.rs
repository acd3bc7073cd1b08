//! Ed25519 key material: the secret key of a signer and the public keys that
//! a record names.

use crate::crypto::{
    derive_public_key, ed25519_point_valid, ed25519_public_key, point_is_valid, random_bytes,
};
use crate::error::Error;
use vstd::prelude::*;

verus! {

/// Length in bytes of either key.
pub const KEY_LEN: usize = 32;

/// A public key: 32 bytes that decode to a point of the curve.
#[derive(Clone, Copy, Debug, Hash)]
pub struct PublicKey {
    bytes: [u8; 32],
}

impl View for PublicKey {
    type V = Seq<u8>;

    closed spec fn view(&self) -> Seq<u8> {
        self.bytes@
    }
}

impl PublicKey {
    /// The bytes are a key.
    pub open spec fn wf(self) -> bool {
        self@.len() == 32 && ed25519_point_valid(self@)
    }

    #[verifier::type_invariant]
    spec fn decodes(self) -> bool {
        ed25519_point_valid(self.bytes@)
    }

    /// A key is 32 bytes long.
    pub proof fn lemma_len(self)
        ensures
            self@.len() == 32,
    {
    }

    /// What reading a key from `bytes` gives: the key with these bytes, if
    /// they decode to a curve point, and an error if they do not.
    pub open spec fn read_from(bytes: Seq<u8>, r: Result<PublicKey, Error>) -> bool {
        if ed25519_point_valid(bytes) {
            r is Ok && r->Ok_0@ == bytes && r->Ok_0.wf()
        } else {
            r == Err::<PublicKey, Error>(Error::InvalidPublicKey)
        }
    }

    /// Accepts `bytes` as a public key if they decode to a curve point.
    pub fn from_bytes(bytes: &[u8; 32]) -> (r: Result<PublicKey, Error>)
        ensures
            Self::read_from(bytes@, r),
    {
        if point_is_valid(bytes) {
            Ok(PublicKey { bytes: *bytes })
        } else {
            Err(Error::InvalidPublicKey)
        }
    }

    /// The 32 bytes of the key.
    pub fn as_bytes(&self) -> (bytes: &[u8; 32])
        ensures
            bytes@ == self@,
            self.wf(),
    {
        proof {
            use_type_invariant(self);
        }
        &self.bytes
    }

    /// A copy of the 32 bytes of the key.
    pub fn to_bytes(&self) -> (bytes: [u8; 32])
        ensures
            bytes@ == self@,
            self.wf(),
    {
        proof {
            use_type_invariant(self);
        }
        self.bytes
    }
}

/// A secret key: any 32 bytes.
pub struct SecretKey {
    bytes: [u8; 32],
}

impl Clone for SecretKey {
    fn clone(&self) -> (copy: SecretKey)
        ensures
            copy@ == self@,
    {
        SecretKey { bytes: self.bytes }
    }
}

impl View for SecretKey {
    type V = Seq<u8>;

    closed spec fn view(&self) -> Seq<u8> {
        self.bytes@
    }
}

impl SecretKey {
    /// The secret key that these bytes are.
    pub fn from_bytes(bytes: &[u8; 32]) -> (key: SecretKey)
        ensures
            key@ == bytes@,
    {
        SecretKey { bytes: *bytes }
    }

    /// A new secret key, drawn from the operating system's random source.
    pub fn generate() -> (key: SecretKey)
        ensures
            key@.len() == 32,
    {
        SecretKey { bytes: random_bytes::<32>() }
    }

    /// The 32 bytes of the key.
    pub fn as_bytes(&self) -> (bytes: &[u8; 32])
        ensures
            bytes@ == self@,
    {
        &self.bytes
    }

    /// The public key that belongs to this secret key.
    pub fn public(&self) -> (key: PublicKey)
        ensures
            key@ == ed25519_public_key(self@),
            key.wf(),
    {
        PublicKey { bytes: derive_public_key(&self.bytes) }
    }
}

} // verus!
