//! Bounded time values and their two fixed-width encodings.

use crate::bytes::{
    be_array, be_bytes, le_array, le_bytes, le_value, lemma_le_round_trip, lemma_pow256_values,
    read_le,
};
use crate::crypto::unix_time_millis;
use crate::error::Error;
use vstd::prelude::*;

verus! {

/// The greatest number of milliseconds that a timestamp holds: 47 bits.
pub const MAX_MILLIS: u64 = 0x7FFF_FFFF_FFFF;

/// Width in bytes of an encoded timestamp.
pub const TIMESTAMP_LEN: usize = 6;

/// A count of milliseconds since the Unix epoch, at most [`MAX_MILLIS`].
///
/// The same count is written least significant byte first in a record's
/// header and most significant byte first at the front of its identifier, so
/// that identifiers sort by time.
#[derive(Clone, Copy, Debug, PartialEq, Eq, Structural, PartialOrd, Ord, Hash)]
pub struct Timestamp {
    millis: u64,
}

impl Timestamp {
    /// The count of milliseconds.
    pub closed spec fn millis(self) -> nat {
        self.millis as nat
    }

    /// The count is within range.
    pub open spec fn wf(self) -> bool {
        self.millis() <= MAX_MILLIS
    }

    #[verifier::type_invariant]
    spec fn in_range(self) -> bool {
        self.millis <= MAX_MILLIS
    }

    /// What [`Timestamp::from_millis`] returns.
    pub open spec fn spec_from_millis(millis: nat, r: Result<Timestamp, Error>) -> bool {
        if millis <= MAX_MILLIS {
            r is Ok && r->Ok_0.millis() == millis && r->Ok_0.wf()
        } else {
            r == Err::<Timestamp, Error>(Error::TimeOutOfRange)
        }
    }

    /// The epoch itself.
    pub fn zero() -> (t: Timestamp)
        ensures
            t.millis() == 0,
            t.wf(),
    {
        Timestamp { millis: 0 }
    }

    /// The last moment that can be told.
    pub fn max() -> (t: Timestamp)
        ensures
            t.millis() == MAX_MILLIS,
            t.wf(),
    {
        Timestamp { millis: MAX_MILLIS }
    }

    /// A timestamp of `millis` milliseconds, unless that is out of range.
    pub fn from_millis(millis: u64) -> (r: Result<Timestamp, Error>)
        ensures
            Self::spec_from_millis(millis as nat, r),
    {
        if millis > MAX_MILLIS {
            Err(Error::TimeOutOfRange)
        } else {
            Ok(Timestamp { millis })
        }
    }

    /// The count of milliseconds.
    pub fn as_millis(&self) -> (millis: u64)
        ensures
            millis == self.millis(),
            self.wf(),
    {
        proof {
            use_type_invariant(self);
        }
        self.millis
    }

    /// Turns a reading of the clock into a timestamp. `None` stands for a
    /// clock that is set before the epoch.
    pub fn from_clock(reading: Option<u128>) -> (r: Result<Timestamp, Error>)
        ensures
            match reading {
                Some(millis) => Self::spec_from_millis(millis as nat, r),
                None => r == Err::<Timestamp, Error>(Error::TimeOutOfRange),
            },
    {
        match reading {
            None => Err(Error::TimeOutOfRange),
            Some(millis) => {
                if millis > 0x7FFF_FFFF_FFFFu128 {
                    Err(Error::TimeOutOfRange)
                } else {
                    Ok(Timestamp { millis: millis as u64 })
                }
            },
        }
    }

    /// The present moment, by the system clock. Fails if the clock is
    /// outside the range.
    pub fn now() -> (r: Result<Timestamp, Error>)
        ensures
            r is Ok ==> r->Ok_0.wf(),
            r is Err ==> r->Err_0 == Error::TimeOutOfRange,
    {
        Self::from_clock(unix_time_millis())
    }

    /// The header encoding: six bytes, least significant first.
    pub fn to_bytes(&self) -> (bytes: [u8; 6])
        ensures
            bytes@ == le_bytes(self.millis(), 6),
    {
        le_array::<6>(self.millis)
    }

    /// The sort-order encoding: six bytes, most significant first.
    pub fn to_be_bytes(&self) -> (bytes: [u8; 6])
        ensures
            bytes@ == be_bytes(self.millis(), 6),
    {
        be_array::<6>(self.millis)
    }

    /// Reads the header encoding. Fails if the bytes hold a count out of range.
    pub fn from_bytes(bytes: &[u8; 6]) -> (r: Result<Timestamp, Error>)
        ensures
            Self::spec_from_millis(le_value(bytes@), r),
    {
        let value: u64 = read_le(bytes.as_slice(), 0, 6);
        proof {
            assert(bytes@.subrange(0, 6) =~= bytes@);
        }
        Self::from_millis(value)
    }
}

/// Writing a timestamp in the header encoding and reading it back gives the
/// same count.
pub proof fn lemma_timestamp_round_trip(t: Timestamp)
    requires
        t.wf(),
    ensures
        le_value(le_bytes(t.millis(), 6)) == t.millis(),
        le_value(le_bytes(t.millis(), 6)) <= MAX_MILLIS,
{
    lemma_pow256_values();
    lemma_le_round_trip(t.millis(), 6);
}

} // verus!
