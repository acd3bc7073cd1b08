//! The ways in which reading or writing a record can fail.

use vstd::prelude::*;

verus! {

/// Every failure is reported to the caller; none is recovered from here.
#[derive(Clone, Copy, Debug, PartialEq, Eq, Structural)]
pub enum Error {
    /// The input ends before the bytes that it declares.
    EndOfInput,
    /// The destination buffer cannot hold the record.
    EndOfOutput,
    /// The record, or its tag section, is longer than the format allows.
    RecordTooLong,
    /// The record is shorter than a header.
    RecordTooShort,
    /// Header and padded sections do not add up to the length of the buffer.
    RecordSectionLengthMismatch,
    /// A reserved flag bit is set.
    ReservedFlagsUsed,
    /// The two reserved bytes of the identifier are not zero.
    IdZerosAreNotZero,
    /// The stored hash is not the hash of the record's content.
    HashMismatch,
    /// A key field does not hold a public key.
    InvalidPublicKey,
    /// The signature does not belong to the content and the signing key.
    InvalidSignature,
    /// A time lies outside the range that a timestamp can hold.
    TimeOutOfRange,
}

impl Error {
    /// A short description, for diagnostics.
    pub fn description(&self) -> (text: &'static str)
        ensures
            text@ == self.spec_description()@,
    {
        match self {
            Error::EndOfInput => "end of input",
            Error::EndOfOutput => "end of output",
            Error::RecordTooLong => "record too long",
            Error::RecordTooShort => "record too short",
            Error::RecordSectionLengthMismatch => "record section length mismatch",
            Error::ReservedFlagsUsed => "reserved flags used",
            Error::IdZerosAreNotZero => "reserved bytes of the id are not zero",
            Error::HashMismatch => "hash mismatch",
            Error::InvalidPublicKey => "invalid public key",
            Error::InvalidSignature => "invalid signature",
            Error::TimeOutOfRange => "time out of range",
        }
    }

    /// The text that [`Error::description`] returns.
    pub open spec fn spec_description(&self) -> &'static str {
        match self {
            Error::EndOfInput => "end of input",
            Error::EndOfOutput => "end of output",
            Error::RecordTooLong => "record too long",
            Error::RecordTooShort => "record too short",
            Error::RecordSectionLengthMismatch => "record section length mismatch",
            Error::ReservedFlagsUsed => "reserved flags used",
            Error::IdZerosAreNotZero => "reserved bytes of the id are not zero",
            Error::HashMismatch => "hash mismatch",
            Error::InvalidPublicKey => "invalid public key",
            Error::InvalidSignature => "invalid signature",
            Error::TimeOutOfRange => "time out of range",
        }
    }
}

} // verus!
