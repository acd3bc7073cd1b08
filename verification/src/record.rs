//! The record codec: the byte layout of a record, how one is written, and
//! what is checked before one is believed.
//!
//! A record is signed with Ed25519ph over the 64-byte BLAKE3 output of its
//! hashable region, under the context [`SIGNING_CONTEXT`]. The signature
//! scheme itself is not part of this library. Writing a record therefore
//! yields the digest to be signed, and the signature is put in with
//! [`Record::write_signature`]; verifying one takes the outcome of the
//! signature check as an argument.

use crate::address::{address_bytes, deterministic_nonce, Address};
use crate::bytes::{
    append, append_zeros, array_from, copy_into, le_array, le_bytes, le_value, lemma_agree_within,
    lemma_pow256_values, lemma_three_parts, read_le, same_bytes, splice, zeros,
};
use crate::crypto::{blake3_xof, ed25519_point_valid, point_is_valid, xof64};
use crate::error::Error;
use crate::id::{id_bytes, lemma_truncated, truncated, Id, HASH_PREFIX_LEN};
use crate::keys::PublicKey;
use crate::kind::Kind;
use crate::layout::{
    field, pad8, padded_len, ADDRESS_END, ADDRESS_START, APPFLAGS_END, APPFLAGS_START,
    AUTHOR_KEY_END, AUTHOR_KEY_START, FLAGS_END, FLAGS_START, HASHABLE_START, HASH_END, HASH_START,
    HEADER_LEN, ID_END, ID_START, KIND_END, KIND_START, LEN_P_END, LEN_P_START, LEN_T_END,
    LEN_T_START, MAX_RECORD_LEN, MAX_TAGS_LEN, NONCE_END, NONCE_START, SIGNING_KEY_END,
    SIGNING_KEY_START, SIG_END, SIG_START, TIMESTAMP_END, TIMESTAMP_START, ZERO_END, ZERO_START,
};
use crate::record_flags::{uses_reserved, RecordFlags};
use crate::timestamp::{Timestamp, MAX_MILLIS};
use vstd::prelude::*;

verus! {

/// The context that separates these signatures from all others: `Mosaic`.
pub const SIGNING_CONTEXT: [u8; 6] = [77, 111, 115, 97, 105, 99];

/// The tag length that a header declares.
pub open spec fn tags_len_of(b: Seq<u8>) -> nat {
    le_value(field(b, LEN_T_START, LEN_T_END))
}

/// The payload length that a header declares.
pub open spec fn payload_len_of(b: Seq<u8>) -> nat {
    le_value(field(b, LEN_P_START, LEN_P_END))
}

/// The length of the record that a header declares: the header and both
/// sections, each padded.
pub open spec fn declared_len(b: Seq<u8>) -> int {
    HEADER_LEN + pad8(tags_len_of(b) as int) + pad8(payload_len_of(b) as int)
}

/// The bytes are as long as their header says, and no longer than a record
/// may be. Every [`Record`] holds such bytes.
pub open spec fn well_formed(b: Seq<u8>) -> bool {
    &&& HEADER_LEN <= b.len() <= MAX_RECORD_LEN
    &&& declared_len(b) == b.len()
}

/// The region that is hashed and signed: from the signing key to the end.
pub open spec fn hashable_of(b: Seq<u8>) -> Seq<u8> {
    b.subrange(HASHABLE_START as int, b.len() as int)
}

/// The bytes that stand for the signing key.
pub open spec fn signing_key_of(b: Seq<u8>) -> Seq<u8> {
    field(b, SIGNING_KEY_START, SIGNING_KEY_END)
}

/// The bytes that stand for the author's key.
pub open spec fn author_key_of(b: Seq<u8>) -> Seq<u8> {
    field(b, AUTHOR_KEY_START, AUTHOR_KEY_END)
}

/// Both keys of a record are keys.
pub open spec fn keys_valid(b: Seq<u8>) -> bool {
    ed25519_point_valid(signing_key_of(b)) && ed25519_point_valid(author_key_of(b))
}

/// The hash that a record stores is the front of the digest of its hashable
/// region.
pub open spec fn hash_matches(b: Seq<u8>) -> bool {
    truncated(blake3_xof(hashable_of(b))) == field(b, HASH_START, HASH_END)
}

/// The tag bytes of a record, without their padding.
pub open spec fn tags_of(b: Seq<u8>) -> Seq<u8> {
    b.subrange(HEADER_LEN as int, HEADER_LEN + tags_len_of(b))
}

/// The payload bytes of a record, without their padding.
pub open spec fn payload_of(b: Seq<u8>) -> Seq<u8> {
    b.subrange(
        HEADER_LEN + pad8(tags_len_of(b) as int),
        HEADER_LEN + pad8(tags_len_of(b) as int) + payload_len_of(b),
    )
}

/// What [`Record::from_bytes`] makes of an input: the bytes of the record at
/// its front, or the reason why there is none.
pub open spec fn from_bytes_outcome(input: Seq<u8>) -> Result<Seq<u8>, Error> {
    if input.len() < HEADER_LEN {
        Err(Error::EndOfInput)
    } else if declared_len(input) > MAX_RECORD_LEN {
        Err(Error::RecordTooLong)
    } else if input.len() < declared_len(input) {
        Err(Error::EndOfInput)
    } else {
        Ok(input.subrange(0, declared_len(input)))
    }
}

/// The outcome of verifying the bytes `b`, given whether the signature in
/// them is one of the signing key over their digest: the first check that
/// fails, in this order, or success.
pub open spec fn verify_outcome(b: Seq<u8>, signature_valid: bool) -> Result<(), Error> {
    if b.len() > MAX_RECORD_LEN {
        Err(Error::RecordTooLong)
    } else if b.len() < HEADER_LEN {
        Err(Error::RecordTooShort)
    } else if declared_len(b) != b.len() {
        Err(Error::RecordSectionLengthMismatch)
    } else if !keys_valid(b) {
        Err(Error::InvalidPublicKey)
    } else if !hash_matches(b) {
        Err(Error::HashMismatch)
    } else if !signature_valid {
        Err(Error::InvalidSignature)
    } else if le_value(field(b, TIMESTAMP_START, TIMESTAMP_END)) > MAX_MILLIS {
        Err(Error::TimeOutOfRange)
    } else if uses_reserved(le_value(field(b, FLAGS_START, FLAGS_END)) as u16) {
        Err(Error::ReservedFlagsUsed)
    } else if b[ZERO_START as int] != 0 || b[ZERO_START + 1] != 0 {
        Err(Error::IdZerosAreNotZero)
    } else {
        Ok(())
    }
}

/// What a record says: everything in it but the signature and the
/// identifier, which are derived.
pub struct Content {
    pub signing_key: Seq<u8>,
    pub address: Seq<u8>,
    pub flags: u16,
    pub millis: nat,
    pub app_flags: u16,
    pub tags: Seq<u8>,
    pub payload: Seq<u8>,
}

impl Content {
    /// The length of the record with this content.
    pub open spec fn total_len(self) -> int {
        HEADER_LEN + pad8(self.tags.len() as int) + pad8(self.payload.len() as int)
    }

    /// The hashable region of the record with this content.
    pub open spec fn hashable(self) -> Seq<u8> {
        self.signing_key + self.address + le_bytes(self.flags as nat, 2) + le_bytes(self.millis, 6)
            + le_bytes(self.app_flags as nat, 2) + le_bytes(self.tags.len(), 2) + le_bytes(
            self.payload.len(),
            4,
        ) + self.tags + zeros(pad8(self.tags.len() as int) - self.tags.len()) + self.payload
            + zeros(pad8(self.payload.len() as int) - self.payload.len())
    }

    /// The digest of the record with this content: what is signed.
    pub open spec fn digest(self) -> Seq<u8> {
        blake3_xof(self.hashable())
    }

    /// The record with this content and the given signature.
    pub open spec fn signed_bytes(self, signature: Seq<u8>) -> Seq<u8> {
        signature + id_bytes(self.millis, self.digest()) + self.hashable()
    }

    /// The record with this content before it is signed: the signature is
    /// all zero.
    pub open spec fn unsigned_bytes(self) -> Seq<u8> {
        self.signed_bytes(zeros(64))
    }

    /// Why the record with this content cannot be written into a buffer of
    /// `capacity` bytes, if it cannot. The last case is a tag section of
    /// exactly 65,536 bytes: within the bound, but its length does not fit
    /// the two bytes that the header has for it.
    pub open spec fn write_error(self, capacity: nat) -> Option<Error> {
        if self.tags.len() > MAX_TAGS_LEN {
            Some(Error::RecordTooLong)
        } else if self.total_len() > MAX_RECORD_LEN {
            Some(Error::RecordTooLong)
        } else if capacity < self.total_len() {
            Some(Error::EndOfOutput)
        } else if uses_reserved(self.flags) {
            Some(Error::ReservedFlagsUsed)
        } else if self.tags.len() == MAX_TAGS_LEN {
            Some(Error::RecordSectionLengthMismatch)
        } else {
            None
        }
    }

    /// What writing the record with this content into a buffer does: the
    /// buffer before and after, and the result, which on success is the
    /// length of the record and the digest that is to be signed.
    pub open spec fn written(
        self,
        before: Seq<u8>,
        after: Seq<u8>,
        r: Result<(usize, [u8; 64]), Error>,
    ) -> bool {
        match self.write_error(before.len()) {
            Some(e) => r == Err::<(usize, [u8; 64]), Error>(e) && after == before,
            None => r is Ok && r->Ok_0.0 == self.total_len() && r->Ok_0.1@ == self.digest()
                && after == splice(before, 0, self.unsigned_bytes()),
        }
    }
}

/// The content that the arguments of the writing functions describe.
pub open spec fn content_of(
    signing_key: PublicKey,
    address: Address,
    timestamp: Timestamp,
    flags: RecordFlags,
    app_flags: u16,
    tags: Seq<u8>,
    payload: Seq<u8>,
) -> Content {
    Content {
        signing_key: signing_key@,
        address: address@,
        flags: flags.spec_bits(),
        millis: timestamp.millis(),
        app_flags,
        tags,
        payload,
    }
}

/// A record, borrowed: a view of bytes that are as long as their header
/// says. Nothing else about them has been checked until
/// [`Record::verify`] has been called.
#[derive(Clone, Copy, Debug, PartialEq, Eq, Hash)]
pub struct Record<'a> {
    bytes: &'a [u8],
}

impl<'a> View for Record<'a> {
    type V = Seq<u8>;

    closed spec fn view(&self) -> Seq<u8> {
        self.bytes@
    }
}

impl<'a> Record<'a> {
    #[verifier::type_invariant]
    spec fn sized(self) -> bool {
        well_formed(self.bytes@)
    }

    /// Reads the lengths that a header declares and adds them up. `None`
    /// stands for a sum beyond the length that a record may have.
    fn read_declared_len(header: &[u8]) -> (total: Option<usize>)
        requires
            header@.len() >= HEADER_LEN,
        ensures
            declared_len(header@) > MAX_RECORD_LEN ==> total is None,
            declared_len(header@) <= MAX_RECORD_LEN ==> total == Some(
                declared_len(header@) as usize,
            ),
    {
        let tags_len: u64 = read_le(header, LEN_T_START, 2);
        let payload_len: u64 = read_le(header, LEN_P_START, 4);
        proof {
            lemma_pow256_values();
        }
        if payload_len > MAX_RECORD_LEN as u64 {
            return None;
        }
        let total: usize = HEADER_LEN + padded_len(tags_len as usize) + padded_len(
            payload_len as usize,
        );
        if total > MAX_RECORD_LEN {
            None
        } else {
            Some(total)
        }
    }

    /// Takes the front of `input` as a record, looking only at the lengths:
    /// the input must hold a header, and as many bytes as the header
    /// declares, which may not be more than a record may have. Hash,
    /// signature and reserved bits are left for [`Record::verify`].
    pub fn from_bytes(input: &'a [u8]) -> (r: Result<Record<'a>, Error>)
        ensures
            match from_bytes_outcome(input@) {
                Ok(bytes) => r is Ok && r->Ok_0@ == bytes && well_formed(bytes),
                Err(e) => r == Err::<Record<'a>, Error>(e),
            },
    {
        if input.len() < HEADER_LEN {
            return Err(Error::EndOfInput);
        }
        match Self::read_declared_len(input) {
            None => Err(Error::RecordTooLong),
            Some(total) => {
                if input.len() < total {
                    Err(Error::EndOfInput)
                } else {
                    let bytes: &'a [u8] = &input[0..total];
                    proof {
                        assert(bytes@.subrange(0, HEADER_LEN as int) =~= input@.subrange(
                            0,
                            HEADER_LEN as int,
                        ));
                        lemma_same_header(input@, bytes@);
                    }
                    Ok(Record { bytes })
                }
            },
        }
    }

    /// The bytes of the record.
    pub fn as_bytes(&self) -> (bytes: &'a [u8])
        ensures
            bytes@ == self@,
            well_formed(self@),
    {
        proof {
            use_type_invariant(self);
        }
        self.bytes
    }

    /// The 64 bytes of the signature.
    pub fn signature(&self) -> (signature: [u8; 64])
        ensures
            signature@ == field(self@, SIG_START, SIG_END),
    {
        proof {
            use_type_invariant(self);
        }
        array_from::<64>(self.bytes, SIG_START)
    }

    /// The full 64-byte digest of the hashable region: what the signature
    /// is a signature of. The record stores its first 40 bytes.
    pub fn full_hash(&self) -> (digest: [u8; 64])
        ensures
            digest@ == blake3_xof(hashable_of(self@)),
    {
        proof {
            use_type_invariant(self);
        }
        xof64(&self.bytes[HASHABLE_START..self.bytes.len()])
    }

    /// The identifier.
    pub fn id(&self) -> (id: Id)
        ensures
            id@ == field(self@, ID_START, ID_END),
    {
        proof {
            use_type_invariant(self);
        }
        let bytes: [u8; 48] = array_from::<48>(self.bytes, ID_START);
        Id::from_bytes_no_verify(&bytes)
    }

    /// The address.
    pub fn address(&self) -> (address: Address)
        ensures
            address@ == field(self@, ADDRESS_START, ADDRESS_END),
    {
        proof {
            use_type_invariant(self);
        }
        let bytes: [u8; 48] = array_from::<48>(self.bytes, ADDRESS_START);
        Address::from_bytes_no_verify(&bytes)
    }

    /// The key that signed the record, if the bytes that stand for it are a
    /// key. It may act for the author without being the author's.
    pub fn signing_public_key(&self) -> (r: Result<PublicKey, Error>)
        ensures
            PublicKey::read_from(signing_key_of(self@), r),
    {
        proof {
            use_type_invariant(self);
        }
        let bytes: [u8; 32] = array_from::<32>(self.bytes, SIGNING_KEY_START);
        PublicKey::from_bytes(&bytes)
    }

    /// The author's key, if the bytes that stand for it are a key.
    pub fn author_public_key(&self) -> (r: Result<PublicKey, Error>)
        ensures
            PublicKey::read_from(author_key_of(self@), r),
    {
        proof {
            use_type_invariant(self);
        }
        let bytes: [u8; 32] = array_from::<32>(self.bytes, AUTHOR_KEY_START);
        PublicKey::from_bytes(&bytes)
    }

    /// The kind.
    pub fn kind(&self) -> (kind: Kind)
        ensures
            kind.0 == le_value(field(self@, KIND_START, KIND_END)),
    {
        proof {
            use_type_invariant(self);
            lemma_pow256_values();
        }
        Kind(read_le(self.bytes, KIND_START, 2) as u16)
    }

    /// The nonce of the address.
    pub fn nonce(&self) -> (nonce: [u8; 14])
        ensures
            nonce@ == field(self@, NONCE_START, NONCE_END),
    {
        proof {
            use_type_invariant(self);
        }
        array_from::<14>(self.bytes, NONCE_START)
    }

    /// The flags, reserved bits included if any is set.
    pub fn flags(&self) -> (flags: RecordFlags)
        ensures
            flags.spec_bits() == le_value(field(self@, FLAGS_START, FLAGS_END)),
    {
        proof {
            use_type_invariant(self);
            lemma_pow256_values();
        }
        RecordFlags::from_bits_retain(read_le(self.bytes, FLAGS_START, 2) as u16)
    }

    /// The application's own flags.
    pub fn app_flags(&self) -> (app_flags: u16)
        ensures
            app_flags == le_value(field(self@, APPFLAGS_START, APPFLAGS_END)),
    {
        proof {
            use_type_invariant(self);
            lemma_pow256_values();
        }
        read_le(self.bytes, APPFLAGS_START, 2) as u16
    }

    /// The time at which the record was made, if the header holds one that
    /// is within range.
    pub fn timestamp(&self) -> (r: Result<Timestamp, Error>)
        ensures
            Timestamp::spec_from_millis(le_value(field(self@, TIMESTAMP_START, TIMESTAMP_END)), r),
    {
        proof {
            use_type_invariant(self);
        }
        Timestamp::from_millis(read_le(self.bytes, TIMESTAMP_START, 6))
    }

    /// Length of the tag section, without padding.
    pub fn tags_len(&self) -> (len: usize)
        ensures
            len == tags_len_of(self@),
            well_formed(self@),
    {
        proof {
            use_type_invariant(self);
            lemma_pow256_values();
        }
        read_le(self.bytes, LEN_T_START, 2) as usize
    }

    /// Length of the tag section, with padding.
    pub fn tags_padded_len(&self) -> (len: usize)
        ensures
            len == pad8(tags_len_of(self@) as int),
    {
        padded_len(self.tags_len())
    }

    /// The tag section, without padding.
    pub fn tags_bytes(&self) -> (tags: &'a [u8])
        ensures
            tags@ == tags_of(self@),
    {
        let len: usize = self.tags_len();
        &self.bytes[HEADER_LEN..HEADER_LEN + len]
    }

    /// Length of the payload, without padding.
    pub fn payload_len(&self) -> (len: usize)
        ensures
            len == payload_len_of(self@),
            well_formed(self@),
    {
        proof {
            use_type_invariant(self);
            lemma_pow256_values();
        }
        read_le(self.bytes, LEN_P_START, 4) as usize
    }

    /// Length of the payload, with padding.
    pub fn payload_padded_len(&self) -> (len: usize)
        ensures
            len == pad8(payload_len_of(self@) as int),
    {
        padded_len(self.payload_len())
    }

    /// The payload as it is stored, without padding. If the flags say that
    /// it is compressed, decompressing it is the caller's part.
    pub fn payload_bytes(&self) -> (payload: &'a [u8])
        ensures
            payload@ == payload_of(self@),
    {
        let len: usize = self.payload_len();
        let start: usize = HEADER_LEN + self.tags_padded_len();
        &self.bytes[start..start + len]
    }

    /// Writes a record with the given address at the front of `buffer`,
    /// complete but for its signature, which is left zero: every field at
    /// its offset, both sections padded with zeros, the hash of the
    /// hashable region and the identifier. Returns the length of the record
    /// and the digest that is to be signed; [`Record::write_signature`]
    /// puts the signature in.
    ///
    /// Fails, and leaves the buffer as it was, if the tags are longer than
    /// 65,536 bytes, if the record would be longer than 1,048,576 bytes, if
    /// the buffer is too small, if a reserved flag is set, or if the length
    /// of the tags does not fit its field.
    pub fn write_replacement_record(
        buffer: &mut [u8],
        signing_public_key: &PublicKey,
        address: Address,
        timestamp: Timestamp,
        flags: RecordFlags,
        app_flags: u16,
        tags_bytes: &[u8],
        payload: &[u8],
    ) -> (r: Result<(usize, [u8; 64]), Error>)
        ensures
            content_of(
                *signing_public_key,
                address,
                timestamp,
                flags,
                app_flags,
                tags_bytes@,
                payload@,
            ).written(old(buffer)@, final(buffer)@, r),
    {
        let tags_len: usize = tags_bytes.len();
        let payload_len: usize = payload.len();
        if tags_len > MAX_TAGS_LEN {
            return Err(Error::RecordTooLong);
        }
        if payload_len > MAX_RECORD_LEN {
            return Err(Error::RecordTooLong);
        }
        let tags_end: usize = HEADER_LEN + padded_len(tags_len);
        let len: usize = tags_end + padded_len(payload_len);
        if len > MAX_RECORD_LEN {
            return Err(Error::RecordTooLong);
        }
        if buffer.len() < len {
            return Err(Error::EndOfOutput);
        }
        if flags.has_reserved() {
            return Err(Error::ReservedFlagsUsed);
        }
        if tags_len == MAX_TAGS_LEN {
            return Err(Error::RecordSectionLengthMismatch);
        }
        let ghost before = buffer@;
        let ghost c = content_of(
            *signing_public_key,
            address,
            timestamp,
            flags,
            app_flags,
            tags_bytes@,
            payload@,
        );
        let flag_bytes: [u8; 2] = le_array::<2>(flags.bits() as u64);
        let time_bytes: [u8; 6] = timestamp.to_bytes();
        let app_bytes: [u8; 2] = le_array::<2>(app_flags as u64);
        let tags_len_bytes: [u8; 2] = le_array::<2>(tags_len as u64);
        let payload_len_bytes: [u8; 4] = le_array::<4>(payload_len as u64);
        let n: usize = buffer.len();
        let at: usize = append(
            buffer,
            HASHABLE_START,
            HASHABLE_START,
            len,
            signing_public_key.as_bytes().as_slice(),
        );
        proof {
            assert(before.subrange(HASHABLE_START as int, HASHABLE_START as int) + c.signing_key
                =~= c.signing_key);
        }
        let at: usize = append(buffer, HASHABLE_START, at, len, address.as_bytes().as_slice());
        let at: usize = append(buffer, HASHABLE_START, at, len, flag_bytes.as_slice());
        let at: usize = append(buffer, HASHABLE_START, at, len, time_bytes.as_slice());
        let at: usize = append(buffer, HASHABLE_START, at, len, app_bytes.as_slice());
        let at: usize = append(buffer, HASHABLE_START, at, len, tags_len_bytes.as_slice());
        let at: usize = append(buffer, HASHABLE_START, at, len, payload_len_bytes.as_slice());
        let at: usize = append(buffer, HASHABLE_START, at, len, tags_bytes);
        let at: usize = append_zeros(buffer, HASHABLE_START, at, len, tags_end - at);
        let at: usize = append(buffer, HASHABLE_START, at, len, payload);
        let at: usize = append_zeros(buffer, HASHABLE_START, at, len, len - at);
        let ghost filled = buffer@;
        assert(filled.subrange(HASHABLE_START as int, len as int) == c.hashable());
        let digest: [u8; 64] = xof64(&buffer[HASHABLE_START..len]);
        let be_time: [u8; 6] = timestamp.to_be_bytes();
        let at: usize = append_zeros(buffer, 0, 0, HASHABLE_START, SIG_END);
        proof {
            assert(filled.subrange(0, 0) + zeros(64) =~= zeros(64));
        }
        let at: usize = append(buffer, 0, at, HASHABLE_START, be_time.as_slice());
        let at: usize = append_zeros(buffer, 0, at, HASHABLE_START, ZERO_END - ZERO_START);
        let at: usize = append(
            buffer,
            0,
            at,
            HASHABLE_START,
            &digest.as_slice()[0..HASH_PREFIX_LEN],
        );
        proof {
            let head = zeros(64) + id_bytes(c.millis, c.digest());
            lemma_truncated(digest@);
            assert(buffer@.subrange(0, HASHABLE_START as int) =~= head);
            lemma_agree_within(
                buffer@,
                filled,
                HASHABLE_START as int,
                n as int,
                HASHABLE_START as int,
                len as int,
            );
            lemma_agree_within(
                buffer@,
                filled,
                HASHABLE_START as int,
                n as int,
                len as int,
                n as int,
            );
            lemma_three_parts(buffer@, HASHABLE_START as int, len as int);
            assert(c.unsigned_bytes() =~= head + c.hashable());
            assert(buffer@ =~= splice(before, 0, c.unsigned_bytes()));
        }
        Ok((len, digest))
    }

    /// Puts `signature` into the record at the front of `buffer`. Fails,
    /// and leaves the buffer as it was, if the buffer is shorter than a
    /// signature.
    pub fn write_signature(buffer: &mut [u8], signature: &[u8; 64]) -> (r: Result<(), Error>)
        ensures
            old(buffer)@.len() < 64 ==> r == Err::<(), Error>(Error::EndOfOutput)
                && final(buffer)@ == old(buffer)@,
            old(buffer)@.len() >= 64 ==> r is Ok && final(buffer)@ == splice(
                old(buffer)@,
                0,
                signature@,
            ),
    {
        if buffer.len() < SIG_END {
            return Err(Error::EndOfOutput);
        }
        copy_into(buffer, SIG_START, signature.as_slice());
        Ok(())
    }

    /// Writes a new record at the front of `buffer`, as
    /// [`Record::write_replacement_record`] does, at an address of the
    /// signing key and the kind: the one that the deterministic key gives,
    /// or, without such a key, one with a random nonce.
    pub fn write_record(
        buffer: &mut [u8],
        signing_public_key: &PublicKey,
        parts: &RecordParts,
    ) -> (r: Result<(usize, [u8; 64]), Error>)
        ensures
            exists|address: Address|
                parts.address_fits(*signing_public_key, address) && #[trigger] parts.content(
                    *signing_public_key,
                    address,
                ).written(old(buffer)@, final(buffer)@, r),
    {
        let address = parts.address(signing_public_key);
        let ghost before = buffer@;
        let r = Self::write_replacement_record(
            buffer,
            signing_public_key,
            address,
            parts.timestamp,
            parts.flags,
            parts.app_flags,
            parts.tags_bytes,
            parts.payload,
        );
        proof {
            assert(parts.content(*signing_public_key, address).written(before, buffer@, r));
        }
        r
    }

    /// Checks everything that makes bytes a valid record, in this order:
    /// the lengths, both public keys, the hash, the signature, the
    /// timestamp, the reserved flag bits and the reserved bytes of the
    /// identifier. The first check that fails gives the error.
    ///
    /// `signature_valid` is the outcome of the strict Ed25519ph check of the
    /// signature in the bytes, under the signing key in them, over the
    /// digest of their hashable region, with [`SIGNING_CONTEXT`].
    pub fn verify_bytes(bytes: &[u8], signature_valid: bool) -> (r: Result<(), Error>)
        ensures
            r == verify_outcome(bytes@, signature_valid),
    {
        let len: usize = bytes.len();
        if len > MAX_RECORD_LEN {
            return Err(Error::RecordTooLong);
        }
        if len < HEADER_LEN {
            return Err(Error::RecordTooShort);
        }
        match Self::read_declared_len(bytes) {
            None => {
                return Err(Error::RecordSectionLengthMismatch);
            },
            Some(total) => {
                if total != len {
                    return Err(Error::RecordSectionLengthMismatch);
                }
            },
        }
        let signing_key: [u8; 32] = array_from::<32>(bytes, SIGNING_KEY_START);
        let author_key: [u8; 32] = array_from::<32>(bytes, AUTHOR_KEY_START);
        if !point_is_valid(&signing_key) || !point_is_valid(&author_key) {
            return Err(Error::InvalidPublicKey);
        }
        let digest: [u8; 64] = xof64(&bytes[HASHABLE_START..len]);
        proof {
            lemma_truncated(digest@);
        }
        if !same_bytes(&digest.as_slice()[0..HASH_PREFIX_LEN], &bytes[HASH_START..HASH_END]) {
            return Err(Error::HashMismatch);
        }
        if !signature_valid {
            return Err(Error::InvalidSignature);
        }
        if read_le(bytes, TIMESTAMP_START, 6) > MAX_MILLIS {
            return Err(Error::TimeOutOfRange);
        }
        proof {
            lemma_pow256_values();
        }
        if RecordFlags::from_bits_retain(read_le(bytes, FLAGS_START, 2) as u16).has_reserved() {
            return Err(Error::ReservedFlagsUsed);
        }
        if bytes[ZERO_START] != 0 || bytes[ZERO_START + 1] != 0 {
            return Err(Error::IdZerosAreNotZero);
        }
        Ok(())
    }

    /// Checks the record as [`Record::verify_bytes`] checks its bytes.
    pub fn verify(&self, signature_valid: bool) -> (r: Result<(), Error>)
        ensures
            r == verify_outcome(self@, signature_valid),
    {
        Self::verify_bytes(self.bytes, signature_valid)
    }
}

/// Two byte strings that agree on the header declare the same lengths.
pub proof fn lemma_same_header(a: Seq<u8>, b: Seq<u8>)
    requires
        a.len() >= HEADER_LEN,
        b.len() >= HEADER_LEN,
        a.subrange(0, HEADER_LEN as int) == b.subrange(0, HEADER_LEN as int),
    ensures
        tags_len_of(a) == tags_len_of(b),
        payload_len_of(a) == payload_len_of(b),
        declared_len(a) == declared_len(b),
{
    let h = a.subrange(0, HEADER_LEN as int);
    assert(field(a, LEN_T_START, LEN_T_END) =~= h.subrange(202, 204));
    assert(field(b, LEN_T_START, LEN_T_END) =~= h.subrange(202, 204));
    assert(field(a, LEN_P_START, LEN_P_END) =~= h.subrange(204, 208));
    assert(field(b, LEN_P_START, LEN_P_END) =~= h.subrange(204, 208));
}

/// The parts that a new record is made of.
#[derive(Clone, Copy, Debug)]
pub struct RecordParts<'a> {
    /// What the record means.
    pub kind: Kind,
    /// A key that fixes the address, so that a later record made with the
    /// same key replaces this one. Without it the address is random.
    pub deterministic_key: Option<&'a [u8]>,
    /// When the record is made.
    pub timestamp: Timestamp,
    /// The flags.
    pub flags: RecordFlags,
    /// The application's own flags.
    pub app_flags: u16,
    /// The tag section.
    pub tags_bytes: &'a [u8],
    /// The payload.
    pub payload: &'a [u8],
}

impl<'a> RecordParts<'a> {
    /// The content of the record made of these parts, signed by
    /// `signing_key` and standing at `address`.
    pub open spec fn content(self, signing_key: PublicKey, address: Address) -> Content {
        content_of(
            signing_key,
            address,
            self.timestamp,
            self.flags,
            self.app_flags,
            self.tags_bytes@,
            self.payload@,
        )
    }

    /// `address` is one that a record made of these parts by `signing_key`
    /// may stand at: the author is the signing key, the kind is that of the
    /// parts, and the nonce is derived from the deterministic key if there
    /// is one.
    pub open spec fn address_fits(self, signing_key: PublicKey, address: Address) -> bool {
        match self.deterministic_key {
            Some(key) => address@ == address_bytes(
                deterministic_nonce(key@),
                self.kind.0,
                signing_key@,
            ),
            None => address@.len() == 48 && address@.subrange(14, 48) == le_bytes(
                self.kind.0 as nat,
                2,
            ) + signing_key@,
        }
    }

    /// The address for a record made of these parts by `signing_key`.
    pub fn address(&self, signing_key: &PublicKey) -> (address: Address)
        ensures
            self.address_fits(*signing_key, address),
    {
        match self.deterministic_key {
            Some(key) => Address::new_deterministic(*signing_key, self.kind, key),
            None => Address::new_random(*signing_key, self.kind),
        }
    }

    /// The length of the record that would be made of these parts.
    pub fn record_len(&self) -> (len: usize)
        requires
            self.tags_bytes@.len() + self.payload@.len() <= usize::MAX - 222,
        ensures
            len == HEADER_LEN + pad8(self.tags_bytes@.len() as int) + pad8(
                self.payload@.len() as int,
            ),
    {
        HEADER_LEN + padded_len(self.tags_bytes.len()) + padded_len(self.payload.len())
    }
}

/// A record that owns its bytes. Like a [`Record`], it holds bytes that are
/// as long as their header says.
#[derive(Debug, PartialEq, Eq, Hash)]
pub struct OwnedRecord {
    bytes: Vec<u8>,
}

impl View for OwnedRecord {
    type V = Seq<u8>;

    closed spec fn view(&self) -> Seq<u8> {
        self.bytes@
    }
}

impl Clone for OwnedRecord {
    fn clone(&self) -> (copy: OwnedRecord)
        ensures
            copy@ == self@,
    {
        proof {
            use_type_invariant(self);
        }
        OwnedRecord { bytes: self.bytes.clone() }
    }
}

impl OwnedRecord {
    #[verifier::type_invariant]
    spec fn sized(self) -> bool {
        well_formed(self.bytes@)
    }

    /// Takes `vec` as a record if it passes every check of
    /// [`Record::verify_bytes`], where `signature_valid` is the outcome of
    /// the signature check.
    pub fn from_vec(vec: Vec<u8>, signature_valid: bool) -> (r: Result<OwnedRecord, Error>)
        ensures
            match verify_outcome(vec@, signature_valid) {
                Ok(_) => r is Ok && r->Ok_0@ == vec@,
                Err(e) => r == Err::<OwnedRecord, Error>(e),
            },
    {
        match Record::verify_bytes(vec.as_slice(), signature_valid) {
            Ok(_) => Ok(OwnedRecord { bytes: vec }),
            Err(e) => Err(e),
        }
    }

    /// Makes a new record of these parts, complete but for its signature,
    /// at the address that [`RecordParts::address`] gives. Returns it with
    /// the digest that is to be signed.
    pub fn new(signing_public_key: &PublicKey, parts: &RecordParts) -> (r: Result<
        (OwnedRecord, [u8; 64]),
        Error,
    >)
        ensures
            exists|address: Address|
                parts.address_fits(*signing_public_key, address) && #[trigger] Self::made(
                    parts.content(*signing_public_key, address),
                    r,
                ),
    {
        let address = parts.address(signing_public_key);
        let r = Self::new_replacement(
            signing_public_key,
            address,
            parts.timestamp,
            parts.flags,
            parts.app_flags,
            parts.tags_bytes,
            parts.payload,
        );
        proof {
            assert(Self::made(parts.content(*signing_public_key, address), r));
        }
        r
    }

    /// What making a record with the content `c` returns: the unsigned
    /// record and its digest, or the reason why it cannot be written.
    pub open spec fn made(c: Content, r: Result<(OwnedRecord, [u8; 64]), Error>) -> bool {
        match c.write_error(c.total_len() as nat) {
            Some(e) => r == Err::<(OwnedRecord, [u8; 64]), Error>(e),
            None => r is Ok && r->Ok_0.0@ == c.unsigned_bytes() && r->Ok_0.1@ == c.digest(),
        }
    }

    /// Makes a new record at the given address, which may be that of an
    /// earlier record that this one is to replace. The record is complete
    /// but for its signature; it is returned with the digest that is to be
    /// signed, and [`OwnedRecord::with_signature`] puts the signature in.
    pub fn new_replacement(
        signing_public_key: &PublicKey,
        address: Address,
        timestamp: Timestamp,
        flags: RecordFlags,
        app_flags: u16,
        tags_bytes: &[u8],
        payload: &[u8],
    ) -> (r: Result<(OwnedRecord, [u8; 64]), Error>)
        ensures
            Self::made(
                content_of(
                    *signing_public_key,
                    address,
                    timestamp,
                    flags,
                    app_flags,
                    tags_bytes@,
                    payload@,
                ),
                r,
            ),
    {
        if tags_bytes.len() > MAX_TAGS_LEN {
            return Err(Error::RecordTooLong);
        }
        if payload.len() > MAX_RECORD_LEN {
            return Err(Error::RecordTooLong);
        }
        let len: usize = HEADER_LEN + padded_len(tags_bytes.len()) + padded_len(payload.len());
        if len > MAX_RECORD_LEN {
            return Err(Error::RecordTooLong);
        }
        let mut bytes: Vec<u8> = vec![0u8; len];
        let _millis: u64 = timestamp.as_millis();
        let ghost c = content_of(
            *signing_public_key,
            address,
            timestamp,
            flags,
            app_flags,
            tags_bytes@,
            payload@,
        );
        let ghost blank = bytes@;
        match Record::write_replacement_record(
            bytes.as_mut_slice(),
            signing_public_key,
            address,
            timestamp,
            flags,
            app_flags,
            tags_bytes,
            payload,
        ) {
            Err(e) => Err(e),
            Ok((_, digest)) => {
                proof {
                    signing_public_key.lemma_len();
                    address.lemma_len();
                    crate::laws::lemma_record_fields(c, zeros(64));
                    assert(splice(blank, 0, c.unsigned_bytes()) =~= c.unsigned_bytes());
                }
                Ok((OwnedRecord { bytes }, digest))
            },
        }
    }

    /// The record with `signature` in the place of its signature.
    pub fn with_signature(self, signature: &[u8; 64]) -> (signed: OwnedRecord)
        ensures
            signed@ == splice(self@, 0, signature@),
    {
        proof {
            use_type_invariant(&self);
        }
        let mut bytes: Vec<u8> = self.bytes;
        let ghost before = bytes@;
        copy_into(bytes.as_mut_slice(), SIG_START, signature.as_slice());
        proof {
            assert(bytes@.subrange(202, 208) =~= before.subrange(202, 208));
            lemma_same_lengths(before, bytes@);
        }
        OwnedRecord { bytes }
    }

    /// The record, borrowed.
    pub fn as_record(&self) -> (record: Record<'_>)
        ensures
            record@ == self@,
    {
        proof {
            use_type_invariant(self);
        }
        Record { bytes: self.bytes.as_slice() }
    }

    /// The bytes of the record.
    pub fn as_bytes(&self) -> (bytes: &[u8])
        ensures
            bytes@ == self@,
            well_formed(self@),
    {
        proof {
            use_type_invariant(self);
        }
        self.bytes.as_slice()
    }

    /// The bytes of the record, given up.
    pub fn into_vec(self) -> (bytes: Vec<u8>)
        ensures
            bytes@ == self@,
    {
        self.bytes
    }

    /// Checks the record as [`Record::verify_bytes`] checks its bytes.
    pub fn verify(&self, signature_valid: bool) -> (r: Result<(), Error>)
        ensures
            r == verify_outcome(self@, signature_valid),
    {
        Record::verify_bytes(self.bytes.as_slice(), signature_valid)
    }
}

/// Two byte strings of one length whose length fields agree are well formed
/// together.
pub proof fn lemma_same_lengths(a: Seq<u8>, b: Seq<u8>)
    requires
        a.len() == b.len(),
        a.len() >= HEADER_LEN,
        a.subrange(202, 208) == b.subrange(202, 208),
    ensures
        declared_len(a) == declared_len(b),
        well_formed(a) == well_formed(b),
{
    assert(field(a, LEN_T_START, LEN_T_END) =~= a.subrange(202, 208).subrange(0, 2));
    assert(field(b, LEN_T_START, LEN_T_END) =~= b.subrange(202, 208).subrange(0, 2));
    assert(field(a, LEN_P_START, LEN_P_END) =~= a.subrange(202, 208).subrange(2, 6));
    assert(field(b, LEN_P_START, LEN_P_END) =~= b.subrange(202, 208).subrange(2, 6));
}

} // verus!
