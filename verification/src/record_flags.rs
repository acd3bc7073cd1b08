//! The 16 flag bits of a record's header.

use vstd::prelude::*;

verus! {

/// The payload is compressed with Zstandard; decompressing is the caller's part.
pub const ZSTD: u16 = 0x0001;

/// Servers should accept the record only from its author.
pub const FROM_AUTHOR: u16 = 0x0002;

/// Servers should serve the record only to the people it is tagged for.
pub const TO_RECIPIENTS: u16 = 0x0004;

/// The record need not be kept: it is of passing interest.
pub const EPHEMERAL: u16 = 0x0008;

/// The record should not be carried over into other networks.
pub const NO_BRIDGE: u16 = 0x0010;

/// The bits that no record may set.
pub const RESERVED_MASK: u16 = 0xFFE0;

/// Whether `bits` sets a reserved bit.
pub open spec fn uses_reserved(bits: u16) -> bool {
    bits & RESERVED_MASK != 0
}

/// A set of flag bits. Any 16 bits can be held; a record is valid only if
/// none of the reserved ones is set.
#[derive(Clone, Copy, Debug, PartialEq, Eq, Structural, Hash)]
pub struct RecordFlags {
    bits: u16,
}

impl RecordFlags {
    /// The bits, as one number.
    pub closed spec fn spec_bits(self) -> u16 {
        self.bits
    }

    /// No flag set.
    pub fn empty() -> (flags: RecordFlags)
        ensures
            flags.spec_bits() == 0,
    {
        RecordFlags { bits: 0 }
    }

    /// Every flag that is not reserved.
    pub fn all() -> (flags: RecordFlags)
        ensures
            flags.spec_bits() == !RESERVED_MASK,
    {
        RecordFlags { bits: !RESERVED_MASK }
    }

    /// The flags with exactly these bits, reserved ones included.
    pub fn from_bits_retain(bits: u16) -> (flags: RecordFlags)
        ensures
            flags.spec_bits() == bits,
    {
        RecordFlags { bits }
    }

    /// The flags with exactly these bits, unless one of them is reserved.
    pub fn from_bits(bits: u16) -> (flags: Option<RecordFlags>)
        ensures
            uses_reserved(bits) ==> flags is None,
            !uses_reserved(bits) ==> flags is Some && flags->Some_0.spec_bits() == bits,
    {
        if bits & RESERVED_MASK != 0 {
            None
        } else {
            Some(RecordFlags { bits })
        }
    }

    /// The bits, as one number.
    pub fn bits(&self) -> (bits: u16)
        ensures
            bits == self.spec_bits(),
    {
        self.bits
    }

    /// Whether no flag is set.
    pub fn is_empty(&self) -> (yes: bool)
        ensures
            yes == (self.spec_bits() == 0),
    {
        self.bits == 0
    }

    /// Whether a reserved bit is set.
    pub fn has_reserved(&self) -> (yes: bool)
        ensures
            yes == uses_reserved(self.spec_bits()),
    {
        self.bits & RESERVED_MASK != 0
    }

    /// Whether every flag of `other` is set here too.
    pub fn contains(&self, other: RecordFlags) -> (yes: bool)
        ensures
            yes == (self.spec_bits() & other.spec_bits() == other.spec_bits()),
    {
        self.bits & other.bits == other.bits
    }

    /// The flags set in either.
    pub fn union(self, other: RecordFlags) -> (flags: RecordFlags)
        ensures
            flags.spec_bits() == self.spec_bits() | other.spec_bits(),
    {
        RecordFlags { bits: self.bits | other.bits }
    }

    /// The flags set in both.
    pub fn intersection(self, other: RecordFlags) -> (flags: RecordFlags)
        ensures
            flags.spec_bits() == self.spec_bits() & other.spec_bits(),
    {
        RecordFlags { bits: self.bits & other.bits }
    }
}

impl Default for RecordFlags {
    fn default() -> (flags: RecordFlags)
        ensures
            flags.spec_bits() == 0,
    {
        RecordFlags { bits: 0 }
    }
}

/// Flags that set no reserved bit stay so under union and intersection, and
/// the empty set and the set of all flags set none.
pub proof fn lemma_reserved_closed(a: u16, b: u16)
    ensures
        !uses_reserved(0),
        !uses_reserved(!RESERVED_MASK),
        (!uses_reserved(a) && !uses_reserved(b)) ==> !uses_reserved(a | b),
        !uses_reserved(a) ==> !uses_reserved(a & b),
{
    assert(0u16 & 0xFFE0u16 == 0) by (bit_vector);
    assert(!0xFFE0u16 & 0xFFE0u16 == 0) by (bit_vector);
    assert((a & 0xFFE0u16 == 0 && b & 0xFFE0u16 == 0) ==> (a | b) & 0xFFE0u16 == 0)
        by (bit_vector);
    assert(a & 0xFFE0u16 == 0 ==> (a & b) & 0xFFE0u16 == 0) by (bit_vector);
}

} // verus!
