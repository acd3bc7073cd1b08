//! The slot that a record occupies: a nonce, a kind and the author's key.

use crate::bytes::{array_from, copy_into, le_array, le_bytes, le_value, read_le};
use crate::crypto::{blake3_xof, ed25519_point_valid, point_is_valid, random_bytes, xof64};
use crate::error::Error;
use crate::keys::PublicKey;
use crate::kind::Kind;
use vstd::prelude::*;

verus! {

/// Length in bytes of an address.
pub const ADDRESS_LEN: usize = 48;

/// Length in bytes of the nonce at the front of an address.
pub const NONCE_LEN: usize = 14;

/// The bytes of the address made of these three parts.
pub open spec fn address_bytes(nonce: Seq<u8>, kind: u16, author: Seq<u8>) -> Seq<u8> {
    nonce + le_bytes(kind as nat, 2) + author
}

/// The nonce that a deterministic key gives: the front of its hash.
pub open spec fn deterministic_nonce(key: Seq<u8>) -> Seq<u8> {
    blake3_xof(key).subrange(0, NONCE_LEN as int)
}

/// 48 bytes: a 14-byte nonce, a kind, and the author's public key.
///
/// A record written later at the same address supersedes the earlier one.
/// The address says nothing of tags or payload.
#[derive(Clone, Copy, Debug, PartialEq, Eq, PartialOrd, Ord, Hash)]
pub struct Address {
    bytes: [u8; 48],
}

impl View for Address {
    type V = Seq<u8>;

    closed spec fn view(&self) -> Seq<u8> {
        self.bytes@
    }
}

impl Address {
    /// The nonce of the address.
    pub open spec fn spec_nonce(self) -> Seq<u8> {
        self@.subrange(0, 14)
    }

    /// The raw value of the kind of the address.
    pub open spec fn spec_kind(self) -> nat {
        le_value(self@.subrange(14, 16))
    }

    /// The bytes of the author's key.
    pub open spec fn spec_author(self) -> Seq<u8> {
        self@.subrange(16, 48)
    }

    /// An address is 48 bytes long.
    pub proof fn lemma_len(self)
        ensures
            self@.len() == 48,
    {
    }

    /// The address made of these three parts.
    pub fn from_parts(nonce: &[u8; 14], kind: Kind, author: &PublicKey) -> (address: Address)
        ensures
            address@ == address_bytes(nonce@, kind.0, author@),
            address@.len() == 48,
    {
        let mut bytes: [u8; 48] = [0u8; 48];
        let kind_bytes: [u8; 2] = le_array::<2>(kind.0 as u64);
        let ghost start = bytes@;
        copy_into(&mut bytes, 0, nonce.as_slice());
        copy_into(&mut bytes, 14, kind_bytes.as_slice());
        copy_into(&mut bytes, 16, author.as_bytes().as_slice());
        proof {
            crate::bytes::lemma_le_bytes_len(kind.0 as nat, 2);
            assert(bytes@ =~= address_bytes(nonce@, kind.0, author@));
        }
        Address { bytes }
    }

    /// An address with a nonce drawn from the operating system's random
    /// source: a slot of its own, which nothing is meant to replace.
    pub fn new_random(author: PublicKey, kind: Kind) -> (address: Address)
        ensures
            address@.len() == 48,
            address@.subrange(14, 48) == le_bytes(kind.0 as nat, 2) + author@,
    {
        let nonce: [u8; 14] = random_bytes::<14>();
        let address = Self::from_parts(&nonce, kind, &author);
        proof {
            crate::bytes::lemma_le_bytes_len(kind.0 as nat, 2);
            assert(address@.subrange(14, 48) =~= le_bytes(kind.0 as nat, 2) + author@);
        }
        address
    }

    /// The address whose nonce is derived from `key`. The same author, kind
    /// and key give the same address every time.
    pub fn new_deterministic(author: PublicKey, kind: Kind, key: &[u8]) -> (address: Address)
        ensures
            address@ == address_bytes(deterministic_nonce(key@), kind.0, author@),
            address@.len() == 48,
    {
        let digest: [u8; 64] = xof64(key);
        let nonce: [u8; 14] = array_from::<14>(digest.as_slice(), 0);
        Self::from_parts(&nonce, kind, &author)
    }

    /// Takes 48 bytes as an address without looking at them.
    pub fn from_bytes_no_verify(bytes: &[u8; 48]) -> (address: Address)
        ensures
            address@ == bytes@,
    {
        Address { bytes: *bytes }
    }

    /// Takes 48 bytes as an address if the author's key in them is a key.
    pub fn from_bytes(bytes: &[u8; 48]) -> (r: Result<Address, Error>)
        ensures
            ed25519_point_valid(bytes@.subrange(16, 48)) ==> r is Ok && r->Ok_0@ == bytes@,
            !ed25519_point_valid(bytes@.subrange(16, 48)) ==> r == Err::<Address, Error>(
                Error::InvalidPublicKey,
            ),
    {
        let author: [u8; 32] = array_from::<32>(bytes.as_slice(), 16);
        if point_is_valid(&author) {
            Ok(Address { bytes: *bytes })
        } else {
            Err(Error::InvalidPublicKey)
        }
    }

    /// The 48 bytes of the address.
    pub fn as_bytes(&self) -> (bytes: &[u8; 48])
        ensures
            bytes@ == self@,
    {
        &self.bytes
    }

    /// The nonce.
    pub fn nonce(&self) -> (nonce: [u8; 14])
        ensures
            nonce@ == self.spec_nonce(),
    {
        array_from::<14>(self.bytes.as_slice(), 0)
    }

    /// The kind.
    pub fn kind(&self) -> (kind: Kind)
        ensures
            kind.0 == self.spec_kind(),
    {
        let value: u64 = read_le(self.bytes.as_slice(), 14, 2);
        proof {
            crate::bytes::lemma_pow256_values();
        }
        Kind(value as u16)
    }

    /// The author's public key, if the bytes that stand for it are a key.
    pub fn author_public_key(&self) -> (r: Result<PublicKey, Error>)
        ensures
            PublicKey::read_from(self.spec_author(), r),
    {
        let author: [u8; 32] = array_from::<32>(self.bytes.as_slice(), 16);
        PublicKey::from_bytes(&author)
    }
}

/// The parts that an address was made of can be read back from it.
pub proof fn lemma_address_parts(nonce: Seq<u8>, kind: u16, author: Seq<u8>)
    requires
        nonce.len() == 14,
        author.len() == 32,
    ensures
        address_bytes(nonce, kind, author).len() == 48,
        address_bytes(nonce, kind, author).subrange(0, 14) == nonce,
        le_value(address_bytes(nonce, kind, author).subrange(14, 16)) == kind,
        address_bytes(nonce, kind, author).subrange(16, 48) == author,
{
    let a = address_bytes(nonce, kind, author);
    crate::bytes::lemma_le_bytes_len(kind as nat, 2);
    crate::bytes::lemma_pow256_values();
    crate::bytes::lemma_le_round_trip(kind as nat, 2);
    assert(a.subrange(0, 14) =~= nonce);
    assert(a.subrange(14, 16) =~= le_bytes(kind as nat, 2));
    assert(a.subrange(16, 48) =~= author);
}

} // verus!
