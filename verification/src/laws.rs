//! What holds of every record that this library writes, and of every byte
//! string that it accepts.

use crate::address::{address_bytes, deterministic_nonce};
use crate::bytes::{
    be_bytes, le_bytes, le_value, lemma_be_bytes_len, lemma_le_bytes_len, lemma_le_round_trip,
    lemma_pow256_values, lex_lt, splice, zeros,
};
use crate::crypto::{blake3_xof, ed25519_point_valid};
use crate::error::Error;
use crate::id::{id_bytes, lemma_truncated, truncated};
use crate::layout::{
    field, lemma_pad8_is_least_multiple, pad8, ADDRESS_END, ADDRESS_START, APPFLAGS_END,
    APPFLAGS_START, AUTHOR_KEY_END, AUTHOR_KEY_START, BE_TIMESTAMP_END, BE_TIMESTAMP_START,
    FLAGS_END, FLAGS_START, HASHABLE_START, HASH_END, HASH_START, ID_END, ID_START, KIND_END,
    KIND_START, LEN_P_END, LEN_P_START, LEN_T_END, LEN_T_START, MAX_RECORD_LEN, MAX_TAGS_LEN,
    NONCE_END, NONCE_START, SIGNING_KEY_END, SIGNING_KEY_START, SIG_END, SIG_START, TIMESTAMP_END,
    TIMESTAMP_START, ZERO_START,
};
use crate::record::{
    author_key_of, declared_len, hash_matches, hashable_of, keys_valid, payload_len_of,
    payload_of, tags_len_of, tags_of, verify_outcome, well_formed, Content,
};
use crate::record_flags::uses_reserved;
use crate::timestamp::MAX_MILLIS;
use vstd::prelude::*;

verus! {

/// The content is one that a record can hold: the keys and the address have
/// their lengths, the time is within range, the length of the tags fits its
/// field, and the whole is no longer than a record may be.
pub open spec fn representable(c: Content) -> bool {
    &&& c.signing_key.len() == 32
    &&& c.address.len() == 48
    &&& c.millis <= MAX_MILLIS
    &&& c.tags.len() < MAX_TAGS_LEN
    &&& c.total_len() <= MAX_RECORD_LEN
}

/// The fixed part of the hashable region holds the fields at their places,
/// and the two sections follow it.
pub proof fn lemma_hashable_layout(c: Content)
    requires
        representable(c),
    ensures
        c.hashable().len() == c.total_len() - 112,
        c.hashable().subrange(0, 32) == c.signing_key,
        c.hashable().subrange(32, 80) == c.address,
        c.hashable().subrange(80, 82) == le_bytes(c.flags as nat, 2),
        c.hashable().subrange(82, 88) == le_bytes(c.millis, 6),
        c.hashable().subrange(88, 90) == le_bytes(c.app_flags as nat, 2),
        c.hashable().subrange(90, 92) == le_bytes(c.tags.len(), 2),
        c.hashable().subrange(92, 96) == le_bytes(c.payload.len(), 4),
        c.hashable().subrange(96, 96 + c.tags.len() as int) == c.tags,
        c.hashable().subrange(
            96 + pad8(c.tags.len() as int),
            96 + pad8(c.tags.len() as int) + c.payload.len() as int,
        ) == c.payload,
{
    let tl = c.tags.len() as int;
    let pl = c.payload.len() as int;
    lemma_pad8_is_least_multiple(tl, 0);
    lemma_pad8_is_least_multiple(pl, 0);
    lemma_le_bytes_len(c.flags as nat, 2);
    lemma_le_bytes_len(c.millis, 6);
    lemma_le_bytes_len(c.app_flags as nat, 2);
    lemma_le_bytes_len(c.tags.len(), 2);
    lemma_le_bytes_len(c.payload.len(), 4);
    let h1 = c.signing_key + c.address;
    let h2 = h1 + le_bytes(c.flags as nat, 2);
    let h3 = h2 + le_bytes(c.millis, 6);
    let h4 = h3 + le_bytes(c.app_flags as nat, 2);
    let h5 = h4 + le_bytes(c.tags.len(), 2);
    let h6 = h5 + le_bytes(c.payload.len(), 4);
    let h7 = h6 + c.tags;
    let h8 = h7 + zeros(pad8(tl) - tl);
    let h9 = h8 + c.payload;
    let h = h9 + zeros(pad8(pl) - pl);
    assert(h == c.hashable());
    assert(h6.len() == 96);
    assert(h.subrange(0, 96) =~= h6);
    assert(h6.subrange(0, 32) =~= c.signing_key);
    assert(h6.subrange(32, 80) =~= c.address);
    assert(h6.subrange(80, 82) =~= le_bytes(c.flags as nat, 2));
    assert(h6.subrange(82, 88) =~= le_bytes(c.millis, 6));
    assert(h6.subrange(88, 90) =~= le_bytes(c.app_flags as nat, 2));
    assert(h6.subrange(90, 92) =~= le_bytes(c.tags.len(), 2));
    assert(h6.subrange(92, 96) =~= le_bytes(c.payload.len(), 4));
    assert(h.subrange(0, 32) =~= h6.subrange(0, 32));
    assert(h.subrange(32, 80) =~= h6.subrange(32, 80));
    assert(h.subrange(80, 82) =~= h6.subrange(80, 82));
    assert(h.subrange(82, 88) =~= h6.subrange(82, 88));
    assert(h.subrange(88, 90) =~= h6.subrange(88, 90));
    assert(h.subrange(90, 92) =~= h6.subrange(90, 92));
    assert(h.subrange(92, 96) =~= h6.subrange(92, 96));
    assert(h.subrange(96, 96 + tl) =~= c.tags);
    assert(h8.len() == 96 + pad8(tl));
    assert(h.subrange(96 + pad8(tl), 96 + pad8(tl) + pl) =~= c.payload);
}

/// Everything that a record is made of can be read back from its bytes, at
/// the offsets of the layout; and the bytes are as long as their header
/// says.
pub proof fn lemma_record_fields(c: Content, signature: Seq<u8>)
    requires
        representable(c),
        signature.len() == 64,
    ensures
        ({
            let b = c.signed_bytes(signature);
            &&& b.len() == c.total_len()
            &&& well_formed(b)
            &&& field(b, SIG_START, SIG_END) == signature
            &&& field(b, ID_START, ID_END) == id_bytes(c.millis, c.digest())
            &&& field(b, BE_TIMESTAMP_START, BE_TIMESTAMP_END) == be_bytes(c.millis, 6)
            &&& b[ZERO_START as int] == 0
            &&& b[ZERO_START + 1] == 0
            &&& field(b, HASH_START, HASH_END) == truncated(c.digest())
            &&& hashable_of(b) == c.hashable()
            &&& field(b, SIGNING_KEY_START, SIGNING_KEY_END) == c.signing_key
            &&& field(b, ADDRESS_START, ADDRESS_END) == c.address
            &&& le_value(field(b, FLAGS_START, FLAGS_END)) == c.flags
            &&& le_value(field(b, TIMESTAMP_START, TIMESTAMP_END)) == c.millis
            &&& le_value(field(b, APPFLAGS_START, APPFLAGS_END)) == c.app_flags
            &&& tags_len_of(b) == c.tags.len()
            &&& payload_len_of(b) == c.payload.len()
            &&& tags_of(b) == c.tags
            &&& payload_of(b) == c.payload
        }),
{
    let b = c.signed_bytes(signature);
    let h = c.hashable();
    let id = id_bytes(c.millis, c.digest());
    let tl = c.tags.len() as int;
    let pl = c.payload.len() as int;
    lemma_hashable_layout(c);
    lemma_pow256_values();
    lemma_truncated(c.digest());
    lemma_be_bytes_len(c.millis, 6);
    lemma_le_round_trip(c.flags as nat, 2);
    lemma_le_round_trip(c.millis, 6);
    lemma_le_round_trip(c.app_flags as nat, 2);
    lemma_le_round_trip(c.tags.len(), 2);
    lemma_le_round_trip(c.payload.len(), 4);
    assert(id.len() == 48);
    assert(b.len() == 112 + h.len());
    assert(field(b, SIG_START, SIG_END) =~= signature);
    assert(field(b, ID_START, ID_END) =~= id);
    assert(field(b, BE_TIMESTAMP_START, BE_TIMESTAMP_END) =~= be_bytes(c.millis, 6));
    assert(b[70] == id[6]);
    assert(b[71] == id[7]);
    assert(field(b, HASH_START, HASH_END) =~= truncated(c.digest()));
    assert(hashable_of(b) =~= h);
    assert(field(b, SIGNING_KEY_START, SIGNING_KEY_END) =~= h.subrange(0, 32));
    assert(field(b, ADDRESS_START, ADDRESS_END) =~= h.subrange(32, 80));
    assert(field(b, FLAGS_START, FLAGS_END) =~= h.subrange(80, 82));
    assert(field(b, TIMESTAMP_START, TIMESTAMP_END) =~= h.subrange(82, 88));
    assert(field(b, APPFLAGS_START, APPFLAGS_END) =~= h.subrange(88, 90));
    assert(field(b, LEN_T_START, LEN_T_END) =~= h.subrange(90, 92));
    assert(field(b, LEN_P_START, LEN_P_END) =~= h.subrange(92, 96));
    assert(tags_len_of(b) == tl);
    assert(payload_len_of(b) == pl);
    assert(tags_of(b) =~= h.subrange(96, 96 + tl));
    assert(payload_of(b) =~= h.subrange(96 + pad8(tl), 96 + pad8(tl) + pl));
}

/// Putting a signature into an unsigned record gives the signed record: the
/// signature takes the place of the zeros, and nothing else changes.
pub proof fn lemma_signing(c: Content, signature: Seq<u8>)
    requires
        signature.len() == 64,
    ensures
        splice(c.unsigned_bytes(), 0, signature) == c.signed_bytes(signature),
{
    let rest = id_bytes(c.millis, c.digest()) + c.hashable();
    assert(c.unsigned_bytes() =~= zeros(64) + rest);
    assert(c.signed_bytes(signature) =~= signature + rest);
    assert(splice(zeros(64) + rest, 0, signature) =~= signature + rest);
}

/// A record that this library has written, once signed, passes every check
/// except those that rest on the key material: it verifies if and only if
/// the author's key in its address is a key, the signing key is one, and
/// the signature is valid. Reserved flags are the one other way to fail,
/// and the writer refuses them.
pub proof fn lemma_round_trip(c: Content, signature: Seq<u8>, signature_valid: bool)
    requires
        representable(c),
        signature.len() == 64,
        !uses_reserved(c.flags),
    ensures
        verify_outcome(c.signed_bytes(signature), signature_valid) == (if !ed25519_point_valid(
            c.signing_key,
        ) || !ed25519_point_valid(c.address.subrange(16, 48)) {
            Err::<(), Error>(Error::InvalidPublicKey)
        } else if !signature_valid {
            Err::<(), Error>(Error::InvalidSignature)
        } else {
            Ok::<(), Error>(())
        }),
{
    let b = c.signed_bytes(signature);
    lemma_record_fields(c, signature);
    assert(author_key_of(b) =~= field(b, ADDRESS_START, ADDRESS_END).subrange(16, 48));
}

/// The kind and the author of a record are those of its address: what
/// stands behind the nonce there can be read back from the record.
pub proof fn lemma_record_kind_and_author(
    c: Content,
    signature: Seq<u8>,
    kind: u16,
    author: Seq<u8>,
)
    requires
        representable(c),
        signature.len() == 64,
        author.len() == 32,
        c.address.subrange(14, 48) == le_bytes(kind as nat, 2) + author,
    ensures
        field(c.signed_bytes(signature), NONCE_START, NONCE_END) == c.address.subrange(0, 14),
        le_value(field(c.signed_bytes(signature), KIND_START, KIND_END)) == kind,
        field(c.signed_bytes(signature), AUTHOR_KEY_START, AUTHOR_KEY_END) == author,
{
    let b = c.signed_bytes(signature);
    let tail = le_bytes(kind as nat, 2) + author;
    lemma_record_fields(c, signature);
    lemma_pow256_values();
    lemma_le_bytes_len(kind as nat, 2);
    lemma_le_round_trip(kind as nat, 2);
    assert(field(b, NONCE_START, NONCE_END) =~= b.subrange(144, 192).subrange(0, 14));
    assert(field(b, KIND_START, KIND_END) =~= c.address.subrange(14, 48).subrange(0, 2));
    assert(author_key_of(b) =~= c.address.subrange(14, 48).subrange(2, 34));
    assert(tail.subrange(0, 2) =~= le_bytes(kind as nat, 2));
    assert(tail.subrange(2, 34) =~= author);
}

/// A record that its author signs, as the writing functions make it from
/// parts, verifies once the signature is in, if the signature is valid:
/// the signing key is a key, and it is the author's key too.
pub proof fn lemma_own_record_verifies(c: Content, signature: Seq<u8>, kind: u16)
    requires
        representable(c),
        signature.len() == 64,
        !uses_reserved(c.flags),
        c.address.subrange(14, 48) == le_bytes(kind as nat, 2) + c.signing_key,
    ensures
        ed25519_point_valid(c.signing_key) ==> verify_outcome(c.signed_bytes(signature), true)
            == Ok::<(), Error>(()),
        verify_outcome(c.signed_bytes(signature), false) is Err,
{
    lemma_round_trip(c, signature, true);
    lemma_round_trip(c, signature, false);
    lemma_le_bytes_len(kind as nat, 2);
    assert(c.address.subrange(16, 48) =~= c.address.subrange(14, 48).subrange(2, 34));
    assert((le_bytes(kind as nat, 2) + c.signing_key).subrange(2, 34) =~= c.signing_key);
}

/// Bytes that verify hold no reserved flag bit, whatever else they hold;
/// and where every earlier check passes, a reserved bit is reported as
/// such.
pub proof fn lemma_reserved_flags_never_verify(b: Seq<u8>, signature_valid: bool)
    requires
        uses_reserved(le_value(field(b, FLAGS_START, FLAGS_END)) as u16),
    ensures
        verify_outcome(b, signature_valid) is Err,
        verify_outcome(b, signature_valid) != Err::<(), Error>(Error::IdZerosAreNotZero),
        (well_formed(b) && keys_valid(b) && hash_matches(b) && signature_valid && le_value(
            field(b, TIMESTAMP_START, TIMESTAMP_END),
        ) <= MAX_MILLIS) ==> verify_outcome(b, signature_valid) == Err::<(), Error>(
            Error::ReservedFlagsUsed,
        ),
{
}

/// Two different inputs on which the hash agrees in its first 40 bytes.
pub open spec fn collide(x: Seq<u8>, y: Seq<u8>) -> bool {
    x != y && truncated(blake3_xof(x)) == truncated(blake3_xof(y))
}

/// Tampering with the hashable region does not go unnoticed. If bytes
/// verify, and other bytes of the same length with the same signature and
/// identifier but another hashable region verify too, then the two regions
/// are different inputs on which the hash agrees in its first 40 bytes. And
/// where the hash tells the two regions apart, the other bytes fail: with a
/// hash mismatch, if their lengths and keys are in order.
pub proof fn lemma_tampering_needs_collision(
    a: Seq<u8>,
    b: Seq<u8>,
    a_signature_valid: bool,
    b_signature_valid: bool,
)
    requires
        verify_outcome(a, a_signature_valid) is Ok,
        b.len() == a.len(),
        b.subrange(0, HASHABLE_START as int) == a.subrange(0, HASHABLE_START as int),
        b != a,
    ensures
        hashable_of(b) != hashable_of(a),
        verify_outcome(b, b_signature_valid) is Ok ==> collide(hashable_of(a), hashable_of(b)),
        !collide(hashable_of(a), hashable_of(b)) ==> verify_outcome(b, b_signature_valid) is Err,
        (!collide(hashable_of(a), hashable_of(b)) && declared_len(b) == b.len() && keys_valid(b))
            ==> verify_outcome(b, b_signature_valid) == Err::<(), Error>(Error::HashMismatch),
{
    assert(field(b, HASH_START, HASH_END) =~= b.subrange(0, 112).subrange(72, 112));
    assert(field(a, HASH_START, HASH_END) =~= a.subrange(0, 112).subrange(72, 112));
    if hashable_of(b) == hashable_of(a) {
        assert(a =~= a.subrange(0, 112) + hashable_of(a));
        assert(b =~= b.subrange(0, 112) + hashable_of(b));
    }
}

/// Two records with the same author, kind and deterministic key stand at
/// the same address, whatever else they hold.
pub proof fn lemma_same_slot(
    a: Content,
    b: Content,
    signature_a: Seq<u8>,
    signature_b: Seq<u8>,
    author: Seq<u8>,
    kind: u16,
    key: Seq<u8>,
)
    requires
        representable(a),
        representable(b),
        signature_a.len() == 64,
        signature_b.len() == 64,
        a.address == address_bytes(deterministic_nonce(key), kind, author),
        b.address == address_bytes(deterministic_nonce(key), kind, author),
    ensures
        field(a.signed_bytes(signature_a), ADDRESS_START, ADDRESS_END) == field(
            b.signed_bytes(signature_b),
            ADDRESS_START,
            ADDRESS_END,
        ),
{
    lemma_record_fields(a, signature_a);
    lemma_record_fields(b, signature_b);
}

/// Of two records, the one made earlier has the identifier that sorts
/// first.
pub proof fn lemma_record_ids_follow_time(
    a: Content,
    b: Content,
    signature_a: Seq<u8>,
    signature_b: Seq<u8>,
)
    requires
        representable(a),
        representable(b),
        signature_a.len() == 64,
        signature_b.len() == 64,
        a.millis < b.millis,
    ensures
        lex_lt(
            field(a.signed_bytes(signature_a), ID_START, ID_END),
            field(b.signed_bytes(signature_b), ID_START, ID_END),
        ),
{
    lemma_record_fields(a, signature_a);
    lemma_record_fields(b, signature_b);
    lemma_ids_follow_time(a.millis, b.millis, a.digest(), b.digest());
}

/// An identifier with the earlier time sorts first, whatever the two hashes
/// are.
pub proof fn lemma_ids_follow_time(a: nat, b: nat, hash_a: Seq<u8>, hash_b: Seq<u8>)
    requires
        a < b <= MAX_MILLIS,
    ensures
        lex_lt(id_bytes(a, hash_a), id_bytes(b, hash_b)),
{
    lemma_pow256_values();
    lemma_be_bytes_len(a, 6);
    lemma_be_bytes_len(b, 6);
    lemma_truncated(hash_a);
    lemma_truncated(hash_b);
    crate::bytes::lemma_be_bytes_ordered(a, b, 6);
    crate::bytes::lemma_lex_lt_extends(
        be_bytes(a, 6),
        be_bytes(b, 6),
        zeros(2) + truncated(hash_a),
        zeros(2) + truncated(hash_b),
    );
    assert(id_bytes(a, hash_a) =~= be_bytes(a, 6) + (zeros(2) + truncated(hash_a)));
    assert(id_bytes(b, hash_b) =~= be_bytes(b, 6) + (zeros(2) + truncated(hash_b)));
}

} // verus!
