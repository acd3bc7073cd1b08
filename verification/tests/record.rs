use digest::consts::U64;
use digest::{FixedOutput, HashMarker, Output, OutputSizeUser, Update};
use mosaic_core::kind::{KEY_SCHEDULE, MICROBLOG_ROOT};
use mosaic_core::layout::{padded_len, HEADER_LEN, MAX_RECORD_LEN, MAX_TAGS_LEN};
use mosaic_core::record::SIGNING_CONTEXT;
use mosaic_core::{
    Address, Error, Kind, OwnedRecord, PublicKey, Record, RecordFlags, RecordParts, SecretKey,
    Timestamp,
};

/// BLAKE3 with 64 bytes of output, as the signature scheme wants its prehash.
#[derive(Default)]
struct Blake3 {
    h: blake3::Hasher,
}

impl OutputSizeUser for Blake3 {
    type OutputSize = U64;
}

impl Update for Blake3 {
    fn update(&mut self, data: &[u8]) {
        self.h.update(data);
    }
}

impl FixedOutput for Blake3 {
    fn finalize_into(self, out: &mut Output<Self>) {
        self.h.finalize_xof().fill(out);
    }
}

impl HashMarker for Blake3 {}

/// A digest that is already complete.
struct Finished([u8; 64]);

impl Default for Finished {
    fn default() -> Finished {
        Finished([0u8; 64])
    }
}

impl OutputSizeUser for Finished {
    type OutputSize = U64;
}

impl Update for Finished {
    fn update(&mut self, _data: &[u8]) {
        panic!("a finished digest takes no input");
    }
}

impl FixedOutput for Finished {
    fn finalize_into(self, out: &mut Output<Self>) {
        out.copy_from_slice(&self.0);
    }
}

impl HashMarker for Finished {}

fn hasher_over(data: &[u8]) -> Blake3 {
    let mut h = blake3::Hasher::new();
    h.update(data);
    Blake3 { h }
}

/// Signs the hashable region of an unsigned record.
fn sign(secret: &SecretKey, unsigned: &[u8]) -> [u8; 64] {
    let key = ed25519_dalek::SigningKey::from_bytes(secret.as_bytes());
    key.sign_prehashed(hasher_over(&unsigned[112..]), Some(&SIGNING_CONTEXT))
        .unwrap()
        .to_bytes()
}

/// The signature check that `verify` takes the outcome of.
fn signature_valid(bytes: &[u8]) -> bool {
    if bytes.len() < HEADER_LEN {
        return false;
    }
    let mut key_bytes = [0u8; 32];
    key_bytes.copy_from_slice(&bytes[112..144]);
    let key = match ed25519_dalek::VerifyingKey::from_bytes(&key_bytes) {
        Ok(key) => key,
        Err(_) => return false,
    };
    let signature = match ed25519_dalek::Signature::from_slice(&bytes[0..64]) {
        Ok(signature) => signature,
        Err(_) => return false,
    };
    key.verify_prehashed_strict(hasher_over(&bytes[112..]), Some(&SIGNING_CONTEXT), &signature)
        .is_ok()
}

fn fixed_secret() -> SecretKey {
    let mut bytes = [0u8; 32];
    for (i, b) in bytes.iter_mut().enumerate() {
        *b = (i as u8).wrapping_mul(7).wrapping_add(3);
    }
    SecretKey::from_bytes(&bytes)
}

fn parts<'a>(tags: &'a [u8], payload: &'a [u8], millis: u64) -> RecordParts<'a> {
    RecordParts {
        kind: Kind(MICROBLOG_ROOT),
        deterministic_key: None,
        timestamp: Timestamp::from_millis(millis).unwrap(),
        flags: RecordFlags::empty(),
        app_flags: 0,
        tags_bytes: tags,
        payload,
    }
}

/// Makes a signed record of the parts.
fn signed(secret: &SecretKey, parts: &RecordParts) -> OwnedRecord {
    let (unsigned, digest) = OwnedRecord::new(&secret.public(), parts).unwrap();
    assert_eq!(digest, unsigned.as_record().full_hash());
    let signature = sign(secret, unsigned.as_bytes());
    unsigned.with_signature(&signature)
}

#[test]
fn signing_the_digest_is_signing_the_region() {
    let secret = fixed_secret();
    let (unsigned, digest) =
        OwnedRecord::new(&secret.public(), &parts(b"tags", b"payload", 42)).unwrap();
    let key = ed25519_dalek::SigningKey::from_bytes(secret.as_bytes());
    let by_digest = key
        .sign_prehashed(Finished(digest), Some(&SIGNING_CONTEXT))
        .unwrap()
        .to_bytes();
    assert_eq!(by_digest, sign(&secret, unsigned.as_bytes()));
    let record = unsigned.with_signature(&by_digest);
    assert!(signature_valid(record.as_bytes()));
    let view = record.as_record();
    let verifying = ed25519_dalek::VerifyingKey::from_bytes(
        view.signing_public_key().unwrap().as_bytes(),
    )
    .unwrap();
    let signature = ed25519_dalek::Signature::from_bytes(&view.signature());
    assert!(verifying
        .verify_prehashed_strict(Finished(view.full_hash()), Some(&SIGNING_CONTEXT), &signature)
        .is_ok());
    assert_eq!(view.verify(true), Ok(()));
    assert_eq!(&SIGNING_CONTEXT, b"Mosaic");
}

#[test]
fn the_smallest_record() {
    let secret = fixed_secret();
    let r = signed(&secret, &parts(b"", b"", 0));
    assert_eq!(r.as_bytes().len(), HEADER_LEN);
    assert_eq!(r.as_bytes().len(), 208);
    assert_eq!(r.verify(signature_valid(r.as_bytes())), Ok(()));
    assert_eq!(r.as_record().tags_bytes(), b"");
    assert_eq!(r.as_record().payload_bytes(), b"");
    assert_eq!(r.as_record().timestamp(), Ok(Timestamp::zero()));
    assert_eq!(Record::from_bytes(r.as_bytes()).unwrap(), r.as_record());
    assert_eq!(Record::verify_bytes(&r.as_bytes()[..207], true), Err(Error::RecordTooShort));
}

#[test]
fn test_padded_lengths_idea() {
    for (len, padded) in [(0, 0), (1, 8), (2, 8), (7, 8), (8, 8), (9, 16)] {
        let padded_len = (len + 7) & !7;
        assert_eq!(padded, padded_len);
    }
}

#[test]
fn padded_len_rounds_up_to_eight() {
    for (len, padded) in [(0usize, 0usize), (1, 8), (2, 8), (7, 8), (8, 8), (9, 16), (11, 16)] {
        assert_eq!(padded_len(len), padded);
        assert_eq!(padded_len(len), (len + 7) & !7);
    }
    assert_eq!(padded_len(1_048_361), 1_048_368);
}

#[test]
fn test_record() {
    let signing_secret_key = SecretKey::generate();

    let r1 = signed(
        &signing_secret_key,
        &RecordParts {
            kind: Kind(KEY_SCHEDULE),
            deterministic_key: None,
            timestamp: Timestamp::now().unwrap(),
            flags: RecordFlags::empty(),
            app_flags: 0,
            tags_bytes: b"",
            payload: b"hello world",
        },
    );

    println!("{}", r1.to_text());

    let r2 = Record::from_bytes(r1.as_bytes()).unwrap();

    println!("r2 built");

    assert_eq!(r1.as_record(), r2);
}

#[test]
fn hello_world_record() {
    let secret = SecretKey::generate();
    let now = Timestamp::now().unwrap();
    let r = signed(
        &secret,
        &RecordParts {
            kind: Kind(KEY_SCHEDULE),
            deterministic_key: None,
            timestamp: now,
            flags: RecordFlags::empty(),
            app_flags: 0,
            tags_bytes: b"",
            payload: b"hello world",
        },
    );
    assert_eq!(r.as_bytes().len(), 224);
    assert_eq!(r.verify(signature_valid(r.as_bytes())), Ok(()));
    assert!(signature_valid(r.as_bytes()));
    let view = r.as_record();
    assert_eq!(view.payload_bytes(), b"hello world");
    assert_eq!(view.payload_len(), 11);
    assert_eq!(view.payload_padded_len(), 16);
    assert_eq!(view.tags_len(), 0);
    assert_eq!(view.tags_padded_len(), 0);
    assert_eq!(view.tags_bytes(), b"");
    assert_eq!(view.kind(), Kind(KEY_SCHEDULE));
    assert_eq!(view.timestamp(), Ok(now));
}

#[test]
fn accessors_return_the_parts() {
    let secret = fixed_secret();
    let public = secret.public();
    let tags = [9u8, 8, 7, 6, 5, 4, 3, 2, 1, 0];
    let payload = b"a payload of thirty-one bytes..";
    let p = RecordParts {
        kind: Kind(0x8123),
        deterministic_key: Some(b"slot"),
        timestamp: Timestamp::from_millis(1_700_000_000_123).unwrap(),
        flags: RecordFlags::from_bits_retain(0x0011),
        app_flags: 0xBEEF,
        tags_bytes: &tags,
        payload,
    };
    let r = signed(&secret, &p);
    let view = r.as_record();
    assert_eq!(r.as_bytes().len(), 208 + 16 + 32);
    assert_eq!(p.record_len(), 208 + 16 + 32);
    assert_eq!(view.verify(signature_valid(r.as_bytes())), Ok(()));
    assert_eq!(view.kind(), Kind(0x8123));
    assert!(view.kind().is_application_specific());
    assert_eq!(view.flags().bits(), 0x0011);
    assert_eq!(view.app_flags(), 0xBEEF);
    assert_eq!(view.timestamp().unwrap().as_millis(), 1_700_000_000_123);
    assert_eq!(view.tags_bytes(), &tags);
    assert_eq!(view.tags_len(), 10);
    assert_eq!(view.tags_padded_len(), 16);
    assert_eq!(view.payload_bytes(), payload);
    assert_eq!(view.payload_len(), 31);
    assert_eq!(view.payload_padded_len(), 32);
    assert_eq!(view.signing_public_key().unwrap().as_bytes(), public.as_bytes());
    assert_eq!(view.author_public_key().unwrap().as_bytes(), public.as_bytes());
    assert_eq!(view.address(), Address::new_deterministic(public, Kind(0x8123), b"slot"));
    assert_eq!(view.nonce(), view.address().nonce());
    assert_eq!(view.signature(), sign(&secret, r.as_bytes()));
    assert_eq!(view.id().as_bytes()[..], r.as_bytes()[64..112]);
    assert_eq!(view.id().timestamp().unwrap().as_millis(), 1_700_000_000_123);
    assert_eq!(view.as_bytes(), r.as_bytes());
    // padding is zero
    assert_eq!(&r.as_bytes()[218..224], &[0u8; 6]);
    assert_eq!(r.as_bytes()[255], 0);
}

#[test]
fn header_fields_stand_at_their_offsets() {
    let secret = fixed_secret();
    let public = secret.public();
    let p = RecordParts {
        kind: Kind(0x0102),
        deterministic_key: Some(b"k"),
        timestamp: Timestamp::from_millis(0x0102_0304_0506).unwrap(),
        flags: RecordFlags::from_bits_retain(0x0005),
        app_flags: 0x0A0B,
        tags_bytes: &[1, 2, 3],
        payload: &[4, 5, 6, 7, 8, 9, 10, 11, 12],
    };
    let (unsigned, digest) = OwnedRecord::new(&public, &p).unwrap();
    let b = unsigned.as_bytes();
    assert_eq!(b.len(), 208 + 8 + 16);
    assert_eq!(&b[0..64], &[0u8; 64]);
    assert_eq!(&b[64..70], &[0x01, 0x02, 0x03, 0x04, 0x05, 0x06]);
    assert_eq!(&b[70..72], &[0, 0]);
    assert_eq!(&b[72..112], &digest[..40]);
    assert_eq!(&b[112..144], public.as_bytes());
    assert_eq!(&b[158..160], &[0x02, 0x01]);
    assert_eq!(&b[160..192], public.as_bytes());
    assert_eq!(&b[192..194], &[0x05, 0x00]);
    assert_eq!(&b[194..200], &[0x06, 0x05, 0x04, 0x03, 0x02, 0x01]);
    assert_eq!(&b[200..202], &[0x0B, 0x0A]);
    assert_eq!(&b[202..204], &[3, 0]);
    assert_eq!(&b[204..208], &[9, 0, 0, 0]);
    assert_eq!(&b[208..216], &[1, 2, 3, 0, 0, 0, 0, 0]);
    assert_eq!(&b[216..232], &[4, 5, 6, 7, 8, 9, 10, 11, 12, 0, 0, 0, 0, 0, 0, 0]);
}

#[test]
fn full_hash_is_blake3_of_the_hashable_region() {
    let secret = fixed_secret();
    let r = signed(&secret, &parts(b"tag", b"payload", 5));
    let mut expected = [0u8; 64];
    let mut h = blake3::Hasher::new();
    h.update(&r.as_bytes()[112..]);
    h.finalize_xof().fill(&mut expected);
    let digest = r.as_record().full_hash();
    assert_eq!(digest, expected);
    assert_eq!(&r.as_bytes()[72..112], &expected[..40]);
    assert_ne!(&digest[..], &r.as_bytes()[112..176]);
}

#[test]
fn write_into_a_buffer() {
    let secret = fixed_secret();
    let public = secret.public();
    let mut p = parts(b"0123456789", b"hello world", 77);
    p.deterministic_key = Some(b"profile");
    let mut buffer = vec![0xAAu8; 300];
    let (len, digest) = Record::write_record(&mut buffer, &public, &p).unwrap();
    assert_eq!(len, 208 + 16 + 16);
    assert_eq!(len, p.record_len());
    // what lies behind the record is left alone
    assert!(buffer[len..].iter().all(|b| *b == 0xAA));
    let signature = sign(&secret, &buffer[..len]);
    assert_eq!(Record::write_signature(&mut buffer, &signature), Ok(()));
    let record = Record::from_bytes(&buffer).unwrap();
    assert_eq!(record.as_bytes().len(), len);
    assert_eq!(record.full_hash(), digest);
    assert_eq!(record.verify(signature_valid(record.as_bytes())), Ok(()));
    // the owned constructor gives the same bytes
    let owned = signed(&secret, &p);
    assert_eq!(owned.as_bytes(), record.as_bytes());
}

#[test]
fn write_replacement_keeps_the_address() {
    let secret = fixed_secret();
    let public = secret.public();
    let first = signed(&secret, &parts(b"", b"first", 1000));
    let address = first.as_record().address();
    let (second, _) = OwnedRecord::new_replacement(
        &public,
        address,
        Timestamp::from_millis(2000).unwrap(),
        RecordFlags::empty(),
        7,
        b"t",
        b"second",
    )
    .unwrap();
    let signature = sign(&secret, second.as_bytes());
    let second = second.with_signature(&signature);
    assert_eq!(second.as_record().address(), address);
    assert_eq!(second.verify(signature_valid(second.as_bytes())), Ok(()));
    assert!(first.as_record().id().sorts_before(&second.as_record().id()));
    assert!(first.as_record().id() < second.as_record().id());
}

#[test]
fn write_fails_on_a_small_buffer() {
    let public = fixed_secret().public();
    let p = parts(b"", b"hello world", 1);
    let mut buffer = vec![7u8; 223];
    assert_eq!(Record::write_record(&mut buffer, &public, &p), Err(Error::EndOfOutput));
    assert_eq!(buffer, vec![7u8; 223]);
    let mut buffer = vec![7u8; 224];
    assert!(Record::write_record(&mut buffer, &public, &p).is_ok());
    let mut short = vec![0u8; 63];
    assert_eq!(Record::write_signature(&mut short, &[1u8; 64]), Err(Error::EndOfOutput));
}

#[test]
fn write_fails_on_reserved_flags() {
    let public = fixed_secret().public();
    for bit in 5..16 {
        let mut p = parts(b"", b"x", 1);
        p.flags = RecordFlags::from_bits_retain(1u16 << bit);
        assert!(p.flags.has_reserved());
        assert_eq!(OwnedRecord::new(&public, &p).err(), Some(Error::ReservedFlagsUsed));
        let mut buffer = vec![0u8; 512];
        assert_eq!(Record::write_record(&mut buffer, &public, &p), Err(Error::ReservedFlagsUsed));
        assert_eq!(buffer, vec![0u8; 512]);
    }
    for bit in 0..5 {
        let mut p = parts(b"", b"x", 1);
        p.flags = RecordFlags::from_bits_retain(1u16 << bit);
        assert!(OwnedRecord::new(&public, &p).is_ok());
    }
}

#[test]
fn verify_rejects_reserved_flags_in_a_crafted_record() {
    let secret = fixed_secret();
    let r = signed(&secret, &parts(b"", b"x", 1));
    let mut bytes = r.into_vec();
    // set a reserved bit, then mend hash and signature
    bytes[193] = 0x80;
    let mut digest = [0u8; 64];
    let mut h = blake3::Hasher::new();
    h.update(&bytes[112..]);
    h.finalize_xof().fill(&mut digest);
    bytes[72..112].copy_from_slice(&digest[..40]);
    let signature = sign(&secret, &bytes);
    bytes[..64].copy_from_slice(&signature);
    assert!(signature_valid(&bytes));
    assert_eq!(Record::verify_bytes(&bytes, true), Err(Error::ReservedFlagsUsed));
    assert_eq!(OwnedRecord::from_vec(bytes, true).err(), Some(Error::ReservedFlagsUsed));
}

#[test]
fn tampering_is_detected() {
    let secret = fixed_secret();
    let r = signed(&secret, &parts(b"tags", b"hello world", 123_456));
    let good = r.as_bytes().to_vec();
    assert_eq!(Record::verify_bytes(&good, signature_valid(&good)), Ok(()));
    for i in 112..good.len() {
        let mut bad = good.clone();
        bad[i] ^= 0x01;
        let outcome = Record::verify_bytes(&bad, signature_valid(&bad));
        assert!(outcome.is_err(), "byte {i}");
        if (144..160).contains(&i) || (192..202).contains(&i) || i >= 208 {
            assert_eq!(outcome, Err(Error::HashMismatch), "byte {i}");
        }
    }
    // a byte of the signature
    let mut bad = good.clone();
    bad[3] ^= 0x40;
    assert_eq!(
        Record::verify_bytes(&bad, signature_valid(&bad)),
        Err(Error::InvalidSignature)
    );
    // a byte of the stored hash
    let mut bad = good.clone();
    bad[80] ^= 0x40;
    assert_eq!(Record::verify_bytes(&bad, signature_valid(&bad)), Err(Error::HashMismatch));
}

#[test]
fn verify_reports_the_first_failure() {
    let secret = fixed_secret();
    let r = signed(&secret, &parts(b"", b"hello", 99));
    let good = r.as_bytes().to_vec();

    assert_eq!(Record::verify_bytes(&good[..207], true), Err(Error::RecordTooShort));
    assert_eq!(Record::verify_bytes(&[], true), Err(Error::RecordTooShort));
    assert_eq!(
        Record::verify_bytes(&vec![0u8; MAX_RECORD_LEN + 1], true),
        Err(Error::RecordTooLong)
    );
    assert_eq!(
        Record::verify_bytes(&good[..good.len() - 8], true),
        Err(Error::RecordSectionLengthMismatch)
    );
    let mut longer = good.clone();
    longer.extend_from_slice(&[0u8; 8]);
    assert_eq!(Record::verify_bytes(&longer, true), Err(Error::RecordSectionLengthMismatch));

    assert_eq!(Record::verify_bytes(&good, false), Err(Error::InvalidSignature));
    assert_eq!(Record::verify_bytes(&good, true), Ok(()));

    // the reserved bytes of the id are outside the hashable region
    let mut bad = good.clone();
    bad[70] = 1;
    assert_eq!(Record::verify_bytes(&bad, true), Err(Error::IdZerosAreNotZero));
    let mut bad = good.clone();
    bad[71] = 1;
    assert_eq!(Record::verify_bytes(&bad, true), Err(Error::IdZerosAreNotZero));
}

#[test]
fn verify_rejects_a_bad_timestamp_and_bad_keys() {
    let secret = fixed_secret();
    let r = signed(&secret, &parts(b"", b"hello", 99));
    let good = r.as_bytes().to_vec();

    // a timestamp out of range, hash mended
    let mut bad = good.clone();
    bad[199] = 0x80;
    let mut digest = [0u8; 64];
    let mut h = blake3::Hasher::new();
    h.update(&bad[112..]);
    h.finalize_xof().fill(&mut digest);
    bad[72..112].copy_from_slice(&digest[..40]);
    assert_eq!(Record::verify_bytes(&bad, true), Err(Error::TimeOutOfRange));
    assert_eq!(
        Record::from_bytes(&bad).unwrap().timestamp(),
        Err(Error::TimeOutOfRange)
    );

    // a signing key that is no curve point
    let invalid = invalid_key_bytes();
    let mut bad = good.clone();
    bad[112..144].copy_from_slice(&invalid);
    assert_eq!(Record::verify_bytes(&bad, true), Err(Error::InvalidPublicKey));
    assert_eq!(
        Record::from_bytes(&bad).unwrap().signing_public_key().err(),
        Some(Error::InvalidPublicKey)
    );
    // an author key that is no curve point
    let mut bad = good.clone();
    bad[160..192].copy_from_slice(&invalid);
    assert_eq!(Record::verify_bytes(&bad, true), Err(Error::InvalidPublicKey));
    assert_eq!(
        Record::from_bytes(&bad).unwrap().author_public_key().err(),
        Some(Error::InvalidPublicKey)
    );
}

/// 32 bytes that the curve library does not take for a point.
fn invalid_key_bytes() -> [u8; 32] {
    for first in 0..=255u8 {
        let mut bytes = [0u8; 32];
        bytes[0] = first;
        if ed25519_dalek::VerifyingKey::from_bytes(&bytes).is_err() {
            return bytes;
        }
    }
    panic!("no invalid key found");
}

#[test]
fn public_keys_are_checked() {
    let invalid = invalid_key_bytes();
    assert_eq!(PublicKey::from_bytes(&invalid).err(), Some(Error::InvalidPublicKey));
    let secret = fixed_secret();
    let public = secret.public();
    let expected = ed25519_dalek::SigningKey::from_bytes(secret.as_bytes())
        .verifying_key()
        .to_bytes();
    assert_eq!(public.as_bytes(), &expected);
    assert_eq!(public.to_bytes(), expected);
    assert_ne!(public.as_bytes(), secret.as_bytes());
    assert_eq!(PublicKey::from_bytes(&expected).unwrap().as_bytes(), &expected);
    let mut address = [0u8; 48];
    address[16..].copy_from_slice(&invalid);
    assert_eq!(Address::from_bytes(&address).err(), Some(Error::InvalidPublicKey));
    assert_eq!(
        Address::from_bytes_no_verify(&address).author_public_key().err(),
        Some(Error::InvalidPublicKey)
    );
    address[16..].copy_from_slice(&expected);
    assert_eq!(Address::from_bytes(&address).unwrap().as_bytes(), &address);
}

#[test]
fn from_bytes_checks_lengths_only() {
    assert_eq!(Record::from_bytes(&[0u8; 207]).err(), Some(Error::EndOfInput));
    // the smallest record: a header with empty sections
    let header = [0u8; 208];
    let r = Record::from_bytes(&header).unwrap();
    assert_eq!(r.as_bytes().len(), 208);
    assert_eq!(r.tags_bytes(), b"");
    assert_eq!(r.payload_bytes(), b"");
    // it is no valid record
    assert!(r.verify(true).is_err());

    // a declared payload of 9 bytes needs 16 more
    let mut input = vec![0u8; 208 + 15];
    input[204] = 9;
    assert_eq!(Record::from_bytes(&input).err(), Some(Error::EndOfInput));
    input.push(0);
    assert_eq!(Record::from_bytes(&input).unwrap().as_bytes().len(), 224);
    // what follows the record is not part of it
    input.extend_from_slice(&[1, 2, 3]);
    let r = Record::from_bytes(&input).unwrap();
    assert_eq!(r.as_bytes().len(), 224);
    assert_eq!(r.payload_len(), 9);

    // declared lengths that add up to more than a record may have
    let mut input = vec![0u8; 208];
    input[204..208].copy_from_slice(&(1_048_361u32).to_le_bytes());
    assert_eq!(Record::from_bytes(&input).err(), Some(Error::EndOfInput));
    input[204..208].copy_from_slice(&(1_048_369u32).to_le_bytes());
    assert_eq!(Record::from_bytes(&input).err(), Some(Error::RecordTooLong));
    input[204..208].copy_from_slice(&u32::MAX.to_le_bytes());
    input[202..204].copy_from_slice(&u16::MAX.to_le_bytes());
    assert_eq!(Record::from_bytes(&input).err(), Some(Error::RecordTooLong));
}

#[test]
fn length_boundaries() {
    let secret = fixed_secret();
    let public = secret.public();
    // exactly 1,048,576 bytes: 208 + 1,048,368
    let payload = vec![0x5Au8; 1_048_368];
    let r = signed(&secret, &parts(b"", &payload, 1));
    assert_eq!(r.as_bytes().len(), MAX_RECORD_LEN);
    assert_eq!(r.verify(signature_valid(r.as_bytes())), Ok(()));
    assert_eq!(r.as_record().payload_bytes(), &payload[..]);
    // one byte more pads to eight more
    let payload = vec![0x5Au8; 1_048_369];
    assert_eq!(
        OwnedRecord::new(&public, &parts(b"", &payload, 1)).err(),
        Some(Error::RecordTooLong)
    );
    let mut buffer = vec![0u8; MAX_RECORD_LEN + 8];
    assert_eq!(
        Record::write_record(&mut buffer, &public, &parts(b"", &payload, 1)),
        Err(Error::RecordTooLong)
    );
    // with tags: 208 + 8 + 1,048,360
    let payload = vec![1u8; 1_048_360];
    let r = signed(&secret, &parts(b"t", &payload, 1));
    assert_eq!(r.as_bytes().len(), MAX_RECORD_LEN);
    assert_eq!(
        OwnedRecord::new(&public, &parts(b"123456789", &payload, 1)).err(),
        Some(Error::RecordTooLong)
    );
}

#[test]
fn tag_length_boundaries() {
    let secret = fixed_secret();
    let public = secret.public();
    let tags = vec![3u8; MAX_TAGS_LEN + 1];
    assert_eq!(
        OwnedRecord::new(&public, &parts(&tags, b"", 1)).err(),
        Some(Error::RecordTooLong)
    );
    // 65,536 bytes are within the bound, but their length has no encoding
    assert_eq!(
        OwnedRecord::new(&public, &parts(&tags[..MAX_TAGS_LEN], b"", 1)).err(),
        Some(Error::RecordSectionLengthMismatch)
    );
    let r = signed(&secret, &parts(&tags[..MAX_TAGS_LEN - 1], b"p", 1));
    assert_eq!(r.as_bytes().len(), 208 + 65_536 + 8);
    assert_eq!(r.as_record().tags_len(), 65_535);
    assert_eq!(r.as_record().tags_bytes(), &tags[..MAX_TAGS_LEN - 1]);
    assert_eq!(r.as_record().payload_bytes(), b"p");
    assert_eq!(r.verify(signature_valid(r.as_bytes())), Ok(()));
}

#[test]
fn from_vec_verifies() {
    let secret = fixed_secret();
    let r = signed(&secret, &parts(b"abc", b"hello", 99));
    let bytes = r.clone().into_vec();
    let valid = signature_valid(&bytes);
    assert!(valid);
    let again = OwnedRecord::from_vec(bytes.clone(), valid).unwrap();
    assert_eq!(again, r);
    assert_eq!(again.as_bytes(), &bytes[..]);
    assert_eq!(OwnedRecord::from_vec(bytes.clone(), false).err(), Some(Error::InvalidSignature));
    assert_eq!(OwnedRecord::from_vec(vec![0u8; 10], true).err(), Some(Error::RecordTooShort));
    // an unsigned record does not pass the signature check
    let (unsigned, _) = OwnedRecord::new(&secret.public(), &parts(b"abc", b"hello", 99)).unwrap();
    assert!(!signature_valid(unsigned.as_bytes()));
    assert_eq!(
        unsigned.verify(signature_valid(unsigned.as_bytes())),
        Err(Error::InvalidSignature)
    );
}

#[test]
fn deterministic_addresses_repeat_and_random_ones_do_not() {
    let secret = fixed_secret();
    let public = secret.public();
    let mut a = parts(b"", b"one", 10);
    a.deterministic_key = Some(b"settings");
    let mut b = parts(b"tagged", b"another payload", 20);
    b.deterministic_key = Some(b"settings");
    let ra = signed(&secret, &a);
    let rb = signed(&secret, &b);
    assert_eq!(ra.as_record().address(), rb.as_record().address());
    assert_eq!(ra.as_record().address().as_bytes(), rb.as_record().address().as_bytes());
    assert_ne!(ra.as_record().id(), rb.as_record().id());

    b.deterministic_key = Some(b"other");
    let rc = signed(&secret, &b);
    assert_ne!(ra.as_record().address(), rc.as_record().address());

    // the nonce is the front of the hash of the key
    let hash = blake3::hash(b"settings");
    assert_eq!(ra.as_record().nonce(), hash.as_bytes()[..14]);
    assert_eq!(a.address(&public).nonce(), hash.as_bytes()[..14]);

    let r1 = signed(&secret, &parts(b"", b"one", 10));
    let r2 = signed(&secret, &parts(b"", b"one", 10));
    assert_ne!(r1.as_record().address(), r2.as_record().address());
    assert_eq!(r1.as_record().address().kind(), Kind(MICROBLOG_ROOT));
    assert_eq!(
        r1.as_record().address().author_public_key().unwrap().as_bytes(),
        public.as_bytes()
    );
    assert_ne!(Address::new_random(public, Kind(1)), Address::new_random(public, Kind(1)));
}

#[test]
fn ids_sort_by_time() {
    let secret = fixed_secret();
    let times = [0u64, 1, 255, 256, 65_535, 65_536, 1 << 40, (1 << 47) - 1];
    for i in 0..times.len() {
        for j in 0..times.len() {
            let a = signed(&secret, &parts(b"", b"zzzz", times[i]));
            let b = signed(&secret, &parts(b"", b"aaaa", times[j]));
            let (ia, ib) = (a.as_record().id(), b.as_record().id());
            if times[i] < times[j] {
                assert!(ia < ib);
                assert!(ia.sorts_before(&ib));
                assert!(!ib.sorts_before(&ia));
                assert!(ia.as_bytes() < ib.as_bytes());
            }
            assert_eq!(ia.sorts_before(&ib), ia.as_bytes() < ib.as_bytes());
        }
    }
}

#[test]
fn text_rendering() {
    let secret = fixed_secret();
    let mut p = parts(b"\x01\x02\x03", b"hello world", 1234);
    p.kind = Kind(KEY_SCHEDULE);
    p.flags = RecordFlags::from_bits_retain(3);
    p.app_flags = 65535;
    let r = signed(&secret, &p);
    let text = r.to_text();
    let lines: Vec<&str> = text.lines().collect();
    assert_eq!(lines.len(), 9);
    assert!(lines[0].starts_with("id: "));
    assert_eq!(lines[0].len(), 4 + 64);
    assert!(lines[1].starts_with("  address: "));
    assert!(lines[2].starts_with("  author key: "));
    assert!(lines[3].starts_with("  signing key: "));
    assert_eq!(&lines[2][14..], &lines[3][15..]);
    assert_eq!(lines[4], "  timestamp: 1234");
    assert_eq!(lines[5], "  kind: 1");
    assert_eq!(lines[6], "  flags: 3 65535");
    assert_eq!(lines[7], "  tags: AQID");
    assert_eq!(lines[8], "  payload: aGVsbG8gd29ybGQ=");
    assert!(text.ends_with('\n'));
    assert_eq!(r.as_record().to_text(), text);
}
