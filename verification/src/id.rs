//! The identifier of a record: when it was made, and what it holds.

use crate::bytes::{
    array_from, be_bytes, be_value, bytes_lt, copy_into, lemma_be_bytes_len, lemma_be_round_trip,
    lemma_pow256_values, lex_lt, read_be, zeros,
};
use crate::error::Error;
use crate::timestamp::{Timestamp, MAX_MILLIS};
use vstd::prelude::*;

verus! {

/// Length in bytes of an identifier.
pub const ID_LEN: usize = 48;

/// Length in bytes of the part of the hash that an identifier holds.
pub const HASH_PREFIX_LEN: usize = 40;

/// The part of a digest that a record stores: its first 40 bytes.
#[verifier::opaque]
pub open spec fn truncated(digest: Seq<u8>) -> Seq<u8> {
    Seq::new(40, |i: int| digest[i])
}

/// The stored part is 40 bytes long, and is the front of a digest that has
/// at least so many.
pub proof fn lemma_truncated(digest: Seq<u8>)
    ensures
        truncated(digest).len() == 40,
        digest.len() >= 40 ==> truncated(digest) == digest.subrange(0, 40),
{
    reveal(truncated);
    if digest.len() >= 40 {
        assert(truncated(digest) =~= digest.subrange(0, 40));
    }
}

/// The bytes of the identifier of a record made at `millis` whose content
/// hashes to `hash`.
pub open spec fn id_bytes(millis: nat, hash: Seq<u8>) -> Seq<u8> {
    be_bytes(millis, 6) + zeros(2) + truncated(hash)
}

/// 48 bytes: the timestamp, most significant byte first, two zero bytes, and
/// the first 40 bytes of the hash of the record's content.
///
/// Identifiers compare byte by byte, so they sort by time first.
#[derive(Clone, Copy, Debug, PartialEq, Eq, PartialOrd, Ord, Hash)]
pub struct Id {
    bytes: [u8; 48],
}

impl View for Id {
    type V = Seq<u8>;

    closed spec fn view(&self) -> Seq<u8> {
        self.bytes@
    }
}

impl Id {
    /// The identifier made of a timestamp and the front of a hash.
    pub fn from_parts(timestamp: Timestamp, hash: &[u8; 64]) -> (id: Id)
        ensures
            id@ == id_bytes(timestamp.millis(), hash@),
            id@.len() == 48,
    {
        let mut bytes: [u8; 48] = [0u8; 48];
        let time: [u8; 6] = timestamp.to_be_bytes();
        let front: [u8; 40] = array_from::<40>(hash.as_slice(), 0);
        copy_into(&mut bytes, 0, time.as_slice());
        copy_into(&mut bytes, 8, front.as_slice());
        proof {
            lemma_be_bytes_len(timestamp.millis(), 6);
            lemma_truncated(hash@);
            assert(bytes@ =~= id_bytes(timestamp.millis(), hash@));
        }
        Id { bytes }
    }

    /// Takes 48 bytes as an identifier without looking at them.
    pub fn from_bytes_no_verify(bytes: &[u8; 48]) -> (id: Id)
        ensures
            id@ == bytes@,
    {
        Id { bytes: *bytes }
    }

    /// The 48 bytes of the identifier.
    pub fn as_bytes(&self) -> (bytes: &[u8; 48])
        ensures
            bytes@ == self@,
    {
        &self.bytes
    }

    /// The time at the front of the identifier, if it is within range.
    pub fn timestamp(&self) -> (r: Result<Timestamp, Error>)
        ensures
            Timestamp::spec_from_millis(be_value(self@.subrange(0, 6)), r),
    {
        let value: u64 = read_be(self.bytes.as_slice(), 0, 6);
        Timestamp::from_millis(value)
    }

    /// The first 40 bytes of the hash of the record's content.
    pub fn hash_prefix(&self) -> (prefix: [u8; 40])
        ensures
            prefix@ == self@.subrange(8, 48),
    {
        array_from::<40>(self.bytes.as_slice(), 8)
    }

    /// Whether this identifier sorts before `other`.
    pub fn sorts_before(&self, other: &Id) -> (before: bool)
        ensures
            before == lex_lt(self@, other@),
    {
        bytes_lt(self.bytes.as_slice(), other.bytes.as_slice())
    }
}

/// The time can be read back from the front of an identifier.
pub proof fn lemma_id_time(millis: nat, hash: Seq<u8>)
    requires
        millis <= MAX_MILLIS,
    ensures
        be_value(id_bytes(millis, hash).subrange(0, 6)) == millis,
{
    lemma_pow256_values();
    lemma_be_bytes_len(millis, 6);
    lemma_be_round_trip(millis, 6);
    lemma_truncated(hash);
    assert(id_bytes(millis, hash).subrange(0, 6) =~= be_bytes(millis, 6));
}

} // verus!
