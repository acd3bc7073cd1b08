//! The classifier that says what a record means.

use vstd::prelude::*;

verus! {

/// A schedule of the keys that act for an author.
pub const KEY_SCHEDULE: u16 = 1;

/// An author's profile.
pub const PROFILE: u16 = 2;

/// A microblog post that starts a thread.
pub const MICROBLOG_ROOT: u16 = 3;

/// A reply or comment.
pub const REPLY_COMMENT: u16 = 4;

/// First value of the range that is left to applications.
pub const APPLICATION_SPECIFIC_START: u16 = 0x8000;

/// A 16-bit classifier. A few values are named, as in `Kind(KEY_SCHEDULE)`;
/// every other value is legal and means nothing to this library.
#[derive(Clone, Copy, Debug, PartialEq, Eq, Structural, PartialOrd, Ord, Hash)]
pub struct Kind(pub u16);

impl Kind {
    /// The raw value.
    pub fn to_u16(&self) -> (value: u16)
        ensures
            value == self.0,
    {
        self.0
    }

    /// The kind with this raw value.
    pub fn from_u16(value: u16) -> (kind: Kind)
        ensures
            kind.0 == value,
    {
        Kind(value)
    }

    /// Whether the value lies in the range that is left to applications.
    pub fn is_application_specific(&self) -> (yes: bool)
        ensures
            yes == (self.0 >= APPLICATION_SPECIFIC_START),
    {
        self.0 >= APPLICATION_SPECIFIC_START
    }
}

} // verus!
