use mosaic_core::bytes::{
    append, append_zeros, array_from, be_array, bytes_lt, copy_into, fill_zero, le_array,
    read_be, read_le, same_bytes,
};
use mosaic_core::error::Error;
use mosaic_core::id::Id;
use mosaic_core::kind::{Kind, APPLICATION_SPECIFIC_START, KEY_SCHEDULE, MICROBLOG_ROOT};
use mosaic_core::layout::padded_len;
use mosaic_core::record_flags::{
    RecordFlags, EPHEMERAL, FROM_AUTHOR, NO_BRIDGE, RESERVED_MASK, TO_RECIPIENTS, ZSTD,
};
use mosaic_core::text::decimal_text;
use mosaic_core::timestamp::{Timestamp, MAX_MILLIS};
use mosaic_core::SecretKey;

#[test]
fn padding_is_the_least_multiple_of_eight() {
    for len in 0usize..200 {
        let padded = padded_len(len);
        assert_eq!(padded % 8, 0);
        assert!(padded >= len);
        assert!(padded < len + 8);
        assert_eq!(padded, (len + 7) & !7);
    }
}

#[test]
fn little_and_big_endian() {
    assert_eq!(le_array::<2>(0x0102), [0x02, 0x01]);
    assert_eq!(le_array::<4>(0x0102_0304), [0x04, 0x03, 0x02, 0x01]);
    assert_eq!(le_array::<6>(0x0102_0304_0506), [6, 5, 4, 3, 2, 1]);
    assert_eq!(be_array::<6>(0x0102_0304_0506), [1, 2, 3, 4, 5, 6]);
    // only the low bytes are kept
    assert_eq!(le_array::<2>(65_536), [0, 0]);
    assert_eq!(le_array::<2>(0x1_2345), [0x45, 0x23]);
    let bytes = [9u8, 1, 2, 3, 4, 5, 6, 9];
    assert_eq!(read_le(&bytes, 1, 6), 0x0605_0403_0201);
    assert_eq!(read_be(&bytes, 1, 6), 0x0102_0304_0506);
    assert_eq!(read_le(&bytes, 1, 2), 0x0201);
    assert_eq!(read_le(&bytes, 3, 0), 0);
    assert_eq!(read_le(&bytes, 0, 7), 0x06_0504_0302_0109);
}

#[test]
fn copies_and_fills() {
    let mut buffer = [1u8; 8];
    copy_into(&mut buffer, 2, &[7, 8, 9]);
    assert_eq!(buffer, [1, 1, 7, 8, 9, 1, 1, 1]);
    fill_zero(&mut buffer, 4, 7);
    assert_eq!(buffer, [1, 1, 7, 8, 0, 0, 0, 1]);
    fill_zero(&mut buffer, 3, 3);
    assert_eq!(buffer, [1, 1, 7, 8, 0, 0, 0, 1]);
    let next = append(&mut buffer, 0, 0, 8, &[5, 6]);
    assert_eq!(next, 2);
    let next = append_zeros(&mut buffer, 0, next, 8, 1);
    assert_eq!(next, 3);
    assert_eq!(buffer, [5, 6, 0, 8, 0, 0, 0, 1]);
    assert_eq!(array_from::<3>(&buffer, 1), [6, 0, 8]);
    assert!(same_bytes(&[1, 2], &[1, 2]));
    assert!(!same_bytes(&[1, 2], &[1, 3]));
    assert!(!same_bytes(&[1, 2], &[1, 2, 3]));
    assert!(same_bytes(&[], &[]));
}

#[test]
fn byte_strings_compare_from_the_front() {
    assert!(bytes_lt(&[1, 2, 3], &[1, 2, 4]));
    assert!(!bytes_lt(&[1, 2, 4], &[1, 2, 3]));
    assert!(!bytes_lt(&[1, 2, 3], &[1, 2, 3]));
    assert!(bytes_lt(&[1, 2], &[1, 2, 3]));
    assert!(!bytes_lt(&[1, 2, 3], &[1, 2]));
    assert!(bytes_lt(&[], &[0]));
    assert!(!bytes_lt(&[], &[]));
    assert!(bytes_lt(&[0, 255], &[1, 0]));
}

#[test]
fn timestamps_are_bounded() {
    assert_eq!(MAX_MILLIS, (1 << 47) - 1);
    assert_eq!(Timestamp::from_millis(0).unwrap().as_millis(), 0);
    assert_eq!(Timestamp::from_millis(MAX_MILLIS).unwrap(), Timestamp::max());
    assert_eq!(Timestamp::from_millis(MAX_MILLIS + 1), Err(Error::TimeOutOfRange));
    assert_eq!(Timestamp::from_millis(u64::MAX), Err(Error::TimeOutOfRange));
    assert_eq!(Timestamp::zero().as_millis(), 0);
    assert_eq!(Timestamp::max().as_millis(), MAX_MILLIS);
    assert_eq!(Timestamp::from_clock(None), Err(Error::TimeOutOfRange));
    assert_eq!(Timestamp::from_clock(Some(5)).unwrap().as_millis(), 5);
    assert_eq!(
        Timestamp::from_clock(Some(MAX_MILLIS as u128)).unwrap().as_millis(),
        MAX_MILLIS
    );
    assert_eq!(Timestamp::from_clock(Some(MAX_MILLIS as u128 + 1)), Err(Error::TimeOutOfRange));
    assert_eq!(Timestamp::from_clock(Some(1u128 << 64)), Err(Error::TimeOutOfRange));
    assert_eq!(Timestamp::from_clock(Some(u128::MAX)), Err(Error::TimeOutOfRange));
    assert!(Timestamp::from_millis(1).unwrap() < Timestamp::from_millis(2).unwrap());
}

#[test]
fn timestamps_round_trip_through_bytes() {
    let t = Timestamp::from_millis(0x0102_0304_0506).unwrap();
    assert_eq!(t.to_bytes(), [6, 5, 4, 3, 2, 1]);
    assert_eq!(t.to_be_bytes(), [1, 2, 3, 4, 5, 6]);
    for millis in [0u64, 1, 255, 256, 1_700_000_000_000, MAX_MILLIS] {
        let t = Timestamp::from_millis(millis).unwrap();
        assert_eq!(Timestamp::from_bytes(&t.to_bytes()), Ok(t));
        let mut be = t.to_bytes();
        be.reverse();
        assert_eq!(t.to_be_bytes(), be);
    }
    assert_eq!(
        Timestamp::from_bytes(&[0xFF, 0xFF, 0xFF, 0xFF, 0xFF, 0x7F]),
        Ok(Timestamp::max())
    );
    assert_eq!(Timestamp::from_bytes(&[0, 0, 0, 0, 0, 0x80]), Err(Error::TimeOutOfRange));
    assert_eq!(Timestamp::from_bytes(&[0xFF; 6]), Err(Error::TimeOutOfRange));
}

#[test]
fn now_is_after_2020() {
    let now = Timestamp::now().unwrap();
    assert!(now.as_millis() > 1_577_836_800_000);
    assert!(now.as_millis() <= MAX_MILLIS);
}

#[test]
fn flags() {
    assert_eq!(RecordFlags::empty().bits(), 0);
    assert_eq!(RecordFlags::default(), RecordFlags::empty());
    assert!(RecordFlags::empty().is_empty());
    assert_eq!(RecordFlags::all().bits(), 0x001F);
    assert_eq!(ZSTD | FROM_AUTHOR | TO_RECIPIENTS | EPHEMERAL | NO_BRIDGE, 0x001F);
    assert_eq!(RESERVED_MASK, 0xFFE0);
    assert!(!RecordFlags::all().has_reserved());
    assert!(!RecordFlags::all().is_empty());
    assert!(RecordFlags::from_bits_retain(0x0020).has_reserved());
    assert!(RecordFlags::from_bits_retain(0x8001).has_reserved());
    assert_eq!(RecordFlags::from_bits_retain(0x8001).bits(), 0x8001);
    assert_eq!(RecordFlags::from_bits(0x0020), None);
    assert_eq!(RecordFlags::from_bits(0xFFFF), None);
    assert_eq!(RecordFlags::from_bits(0x0011).unwrap().bits(), 0x0011);
    let a = RecordFlags::from_bits_retain(ZSTD | EPHEMERAL);
    let b = RecordFlags::from_bits_retain(EPHEMERAL | NO_BRIDGE);
    assert_eq!(a.union(b).bits(), ZSTD | EPHEMERAL | NO_BRIDGE);
    assert_eq!(a.intersection(b).bits(), EPHEMERAL);
    assert!(a.contains(RecordFlags::from_bits_retain(ZSTD)));
    assert!(!a.contains(b));
    assert!(a.contains(RecordFlags::empty()));
}

#[test]
fn kinds() {
    assert_eq!(Kind(KEY_SCHEDULE).to_u16(), 1);
    assert_eq!(Kind::from_u16(3), Kind(MICROBLOG_ROOT));
    assert!(!Kind(MICROBLOG_ROOT).is_application_specific());
    assert!(Kind(APPLICATION_SPECIFIC_START).is_application_specific());
    assert!(!Kind(APPLICATION_SPECIFIC_START - 1).is_application_specific());
    assert!(Kind(u16::MAX).is_application_specific());
    assert!(Kind(1) < Kind(2));
}

#[test]
fn ids() {
    let t = Timestamp::from_millis(0x0102_0304_0506).unwrap();
    let mut hash = [0u8; 64];
    for (i, b) in hash.iter_mut().enumerate() {
        *b = i as u8 + 100;
    }
    let id = Id::from_parts(t, &hash);
    assert_eq!(id.as_bytes()[..8], [1, 2, 3, 4, 5, 6, 0, 0]);
    assert_eq!(id.as_bytes()[8..], hash[..40]);
    assert_eq!(id.hash_prefix(), hash[..40]);
    assert_eq!(id.timestamp(), Ok(t));
    assert_eq!(Id::from_bytes_no_verify(id.as_bytes()), id);
    let late = Id::from_bytes_no_verify(&[0xFF; 48]);
    assert_eq!(late.timestamp(), Err(Error::TimeOutOfRange));
    assert!(id.sorts_before(&late));
    assert!(!late.sorts_before(&id));
    assert!(!id.sorts_before(&id));
}

#[test]
fn decimal_numbers() {
    assert_eq!(decimal_text(0), "0");
    assert_eq!(decimal_text(7), "7");
    assert_eq!(decimal_text(10), "10");
    assert_eq!(decimal_text(1_234_567_890), "1234567890");
    assert_eq!(decimal_text(u64::MAX), "18446744073709551615");
}

#[test]
fn errors_describe_themselves() {
    assert_eq!(Error::EndOfInput.description(), "end of input");
    assert_eq!(Error::EndOfOutput.description(), "end of output");
    assert_eq!(Error::RecordTooLong.description(), "record too long");
    assert_eq!(Error::RecordTooShort.description(), "record too short");
    assert_eq!(
        Error::RecordSectionLengthMismatch.description(),
        "record section length mismatch"
    );
    assert_eq!(Error::ReservedFlagsUsed.description(), "reserved flags used");
    assert_eq!(
        Error::IdZerosAreNotZero.description(),
        "reserved bytes of the id are not zero"
    );
    assert_eq!(Error::HashMismatch.description(), "hash mismatch");
    assert_eq!(Error::InvalidPublicKey.description(), "invalid public key");
    assert_eq!(Error::InvalidSignature.description(), "invalid signature");
    assert_eq!(Error::TimeOutOfRange.description(), "time out of range");
}

#[test]
fn secret_keys() {
    let a = SecretKey::generate();
    let b = SecretKey::generate();
    assert_ne!(a.as_bytes(), b.as_bytes());
    let copy = SecretKey::from_bytes(a.as_bytes());
    assert_eq!(copy.as_bytes(), a.as_bytes());
    assert_eq!(copy.public().as_bytes(), a.public().as_bytes());
    assert_ne!(a.public().as_bytes(), b.public().as_bytes());
}
