//! The layout table of a record: where each field stands, how long a record
//! may be, and how its sections are padded. The writer and the verifier
//! both go by this table.

use vstd::prelude::*;

verus! {

/// Length of the fixed header; also the length of the smallest record.
pub const HEADER_LEN: usize = 208;

/// Greatest length of a whole record.
pub const MAX_RECORD_LEN: usize = 1_048_576;

/// Greatest length of the unpadded tag section.
pub const MAX_TAGS_LEN: usize = 65_536;

pub const SIG_START: usize = 0;
pub const SIG_END: usize = 64;
pub const ID_START: usize = 64;
pub const BE_TIMESTAMP_START: usize = 64;
pub const BE_TIMESTAMP_END: usize = 70;
pub const ZERO_START: usize = 70;
pub const ZERO_END: usize = 72;
pub const HASH_START: usize = 72;
pub const HASH_END: usize = 112;
pub const ID_END: usize = 112;
pub const SIGNING_KEY_START: usize = 112;
pub const SIGNING_KEY_END: usize = 144;
pub const ADDRESS_START: usize = 144;
pub const NONCE_START: usize = 144;
pub const NONCE_END: usize = 158;
pub const KIND_START: usize = 158;
pub const KIND_END: usize = 160;
pub const AUTHOR_KEY_START: usize = 160;
pub const AUTHOR_KEY_END: usize = 192;
pub const ADDRESS_END: usize = 192;
pub const FLAGS_START: usize = 192;
pub const FLAGS_END: usize = 194;
pub const TIMESTAMP_START: usize = 194;
pub const TIMESTAMP_END: usize = 200;
pub const APPFLAGS_START: usize = 200;
pub const APPFLAGS_END: usize = 202;
pub const LEN_T_START: usize = 202;
pub const LEN_T_END: usize = 204;
pub const LEN_P_START: usize = 204;
pub const LEN_P_END: usize = 208;

/// Where the region that is hashed and signed begins; it runs to the end.
pub const HASHABLE_START: usize = 112;

/// The bytes of `b` from `start` up to `end`: one field of the layout.
#[verifier::inline]
pub open spec fn field(b: Seq<u8>, start: usize, end: usize) -> Seq<u8> {
    b.subrange(start as int, end as int)
}

/// `n` rounded up to a multiple of eight.
pub open spec fn pad8(n: int) -> int {
    (n + 7) / 8 * 8
}

/// Padding gives the smallest multiple of eight that is not below the length.
pub proof fn lemma_pad8_is_least_multiple(n: int, m: int)
    requires
        0 <= n,
    ensures
        pad8(n) % 8 == 0,
        n <= pad8(n) < n + 8,
        (m % 8 == 0 && n <= m) ==> pad8(n) <= m,
{
}

/// Rounds `len` up to a multiple of eight.
pub fn padded_len(len: usize) -> (padded: usize)
    requires
        len <= usize::MAX - 7,
    ensures
        padded == pad8(len as int),
        padded == (len + 7) as usize & !7usize,
        padded % 8 == 0,
        len <= padded < len + 8,
{
    let sum: usize = len + 7;
    let padded: usize = sum & !7usize;
    assert(padded == sum / 8 * 8) by (bit_vector)
        requires
            padded == sum & !7usize,
    ;
    padded
}

} // verus!
