//! Binary codec for signed, content-identified records.
//!
//! A record is one contiguous byte buffer: a fixed 208-byte header followed by
//! a tag section and a payload section, each zero-padded to a multiple of
//! eight bytes. The header binds a signature, a content identifier, the
//! signing key, an address, flags and a timestamp at fixed offsets.

pub mod address;
pub mod bytes;
pub mod crypto;
pub mod error;
pub mod id;
pub mod keys;
pub mod kind;
pub mod laws;
pub mod layout;
pub mod record;
pub mod record_flags;
pub mod text;
pub mod timestamp;


pub use address::Address;
pub use error::Error;
pub use id::Id;
pub use keys::{PublicKey, SecretKey};
pub use kind::Kind;
pub use record::{OwnedRecord, Record, RecordParts};
pub use record_flags::RecordFlags;
pub use timestamp::Timestamp;
