use parity_scale_codec::{Compact, Decode, Encode};
use sassafras_consensus::aux_schema::{
    auxiliary_key, engine_key, load_auxiliary, write_auxiliary, AUXILIARY_KEY,
};
use sassafras_consensus::epoch::{Epoch, ValidatorSet};
use sassafras_consensus::error::Error;
use sassafras_consensus::record::{
    decode_epoch, decode_record, encode_epoch, encode_record, AuxiliaryRecord,
};

fn set(proofs: usize, authorities: usize, seed: u8) -> ValidatorSet {
    ValidatorSet {
        proofs: (0..proofs).map(|i| [seed.wrapping_add(i as u8); 64]).collect(),
        authorities: (0..authorities)
            .map(|i| ([seed.wrapping_mul(3).wrapping_add(i as u8); 32], 1_000_000_007 * i as u64))
            .collect(),
        randomness: [seed; 32],
    }
}

fn epoch(publishing: ValidatorSet, validating: ValidatorSet) -> Epoch {
    Epoch { start_slot: 10, duration: 100, epoch_index: 0x0102_0304_0506_0708, publishing, validating }
}

/// The bytes that the codec writes for the fields of an epoch, one after
/// the other.
fn by_codec(epoch: &Epoch) -> Vec<u8> {
    (
        epoch.start_slot,
        epoch.duration,
        epoch.epoch_index,
        (
            epoch.publishing.proofs.clone(),
            epoch.publishing.authorities.clone(),
            epoch.publishing.randomness,
        ),
        (
            epoch.validating.proofs.clone(),
            epoch.validating.authorities.clone(),
            epoch.validating.randomness,
        ),
    )
        .encode()
}

#[test]
fn empty_epoch_bytes() {
    let e = Epoch {
        start_slot: 1,
        duration: 2,
        epoch_index: 3,
        publishing: set(0, 0, 0xaa),
        validating: set(0, 0, 0xbb),
    };
    let mut expected = vec![1, 0, 0, 0, 0, 0, 0, 0, 2, 0, 0, 0, 0, 0, 0, 0, 3, 0, 0, 0, 0, 0, 0, 0];
    expected.extend_from_slice(&[0, 0]);
    expected.extend_from_slice(&[0xaa; 32]);
    expected.extend_from_slice(&[0, 0]);
    expected.extend_from_slice(&[0xbb; 32]);
    assert_eq!(encode_epoch(&e), expected);
    assert_eq!(decode_epoch(&expected), Some(e));
}

#[test]
fn small_epoch_bytes() {
    let e = Epoch {
        start_slot: 0x0102,
        duration: 1,
        epoch_index: 0,
        publishing: ValidatorSet { proofs: vec![[5; 64]], authorities: vec![], randomness: [6; 32] },
        validating: ValidatorSet {
            proofs: vec![],
            authorities: vec![([7; 32], 0x0a0b)],
            randomness: [8; 32],
        },
    };
    let mut expected = vec![2, 1, 0, 0, 0, 0, 0, 0, 1, 0, 0, 0, 0, 0, 0, 0, 0, 0, 0, 0, 0, 0, 0, 0];
    expected.push(4);
    expected.extend_from_slice(&[5; 64]);
    expected.push(0);
    expected.extend_from_slice(&[6; 32]);
    expected.push(0);
    expected.push(4);
    expected.extend_from_slice(&[7; 32]);
    expected.extend_from_slice(&[0x0b, 0x0a, 0, 0, 0, 0, 0, 0]);
    expected.extend_from_slice(&[8; 32]);
    assert_eq!(encode_epoch(&e), expected);
}

#[test]
fn epoch_bytes_are_those_of_the_codec() {
    for (proofs, authorities) in [(0, 1), (1, 0), (3, 2), (63, 64), (64, 63), (65, 300)] {
        let e = epoch(set(proofs, authorities, 1), set(authorities, proofs, 2));
        assert_eq!(encode_epoch(&e), by_codec(&e));
    }
}

#[test]
fn lengths_take_every_compact_mode() {
    // One byte up to 63, two bytes up to 16383, four bytes beyond.
    for count in [0usize, 1, 63, 64, 255, 16383, 16384, 70_000] {
        let e = epoch(set(count, 1, 9), set(0, count.min(100), 4));
        let bytes = encode_epoch(&e);
        assert_eq!(bytes, by_codec(&e));
        let prefix = Compact(count as u32).encode();
        assert_eq!(&bytes[24..24 + prefix.len()], &prefix[..]);
        assert_eq!(decode_epoch(&bytes), Some(e));
    }
}

#[test]
fn epoch_round_trip() {
    for (proofs, authorities) in [(0, 0), (1, 1), (2, 5), (64, 64), (100, 7)] {
        let e = epoch(set(proofs, authorities, 3), set(authorities, proofs, 5));
        assert_eq!(decode_epoch(&encode_epoch(&e)), Some(e));
    }
}

#[test]
fn record_round_trip() {
    let record =
        AuxiliaryRecord { epoch_state: epoch(set(2, 3, 1), set(4, 1, 2)), last_slot: u64::MAX - 1 };
    let bytes = encode_record(&record);
    let mut expected = by_codec(&record.epoch_state);
    expected.extend_from_slice(&(u64::MAX - 1).to_le_bytes());
    assert_eq!(bytes, expected);
    assert_eq!(decode_record(&bytes), Some(record));
}

#[test]
fn bytes_behind_a_record_are_not_read() {
    let record = AuxiliaryRecord { epoch_state: epoch(set(2, 3, 1), set(4, 1, 2)), last_slot: 77 };
    let mut bytes = encode_record(&record);
    bytes.extend_from_slice(&[1, 2, 3]);
    assert_eq!(decode_record(&bytes), Some(record.clone()));
    assert_eq!(decode_epoch(&bytes), Some(record.epoch_state));
}

#[test]
fn truncated_bytes_hold_no_record() {
    let record = AuxiliaryRecord { epoch_state: epoch(set(2, 3, 1), set(4, 1, 2)), last_slot: 77 };
    let bytes = encode_record(&record);
    for len in 0..bytes.len() {
        assert_eq!(decode_record(&bytes[..len]), None, "prefix of {} bytes", len);
    }
    let epoch_len = bytes.len() - 8;
    for len in 0..epoch_len {
        assert_eq!(decode_epoch(&bytes[..len]), None, "prefix of {} bytes", len);
    }
    assert!(decode_epoch(&bytes[..epoch_len]).is_some());
}

#[test]
fn only_the_shortest_form_of_a_length_is_read() {
    let e = epoch(set(1, 0, 1), set(0, 0, 2));
    let bytes = encode_epoch(&e);
    assert_eq!(bytes[24], 4);
    // The length 1 in two bytes.
    let mut longer = bytes[..24].to_vec();
    longer.extend_from_slice(&[0x05, 0x00]);
    longer.extend_from_slice(&bytes[25..]);
    assert_eq!(decode_epoch(&longer), None);
    assert!(<Vec<[u8; 64]>>::decode(&mut &longer[24..]).is_err());
    // A length of more than 32 bits.
    let mut wide = bytes[..24].to_vec();
    wide.extend_from_slice(&[0x07, 0, 0, 0, 0, 1]);
    wide.extend_from_slice(&bytes[25..]);
    assert_eq!(decode_epoch(&wide), None);
}

#[test]
fn a_length_beyond_the_input_is_refused() {
    let mut bytes = vec![0u8; 24];
    // 2^32 - 1 proofs announced, none present.
    bytes.extend_from_slice(&[0x03, 0xff, 0xff, 0xff, 0xff]);
    bytes.extend_from_slice(&[0u8; 200]);
    assert_eq!(decode_epoch(&bytes), None);
}

#[test]
fn decoding_agrees_with_the_codec() {
    let e = epoch(set(70, 2, 1), set(1, 65, 2));
    let bytes = by_codec(&e);
    let decoded = decode_epoch(&bytes).unwrap();
    type Set = (Vec<[u8; 64]>, Vec<([u8; 32], u64)>, [u8; 32]);
    let (start_slot, duration, epoch_index, publishing, validating) =
        <(u64, u64, u64, Set, Set)>::decode(&mut &bytes[..]).unwrap();
    assert_eq!(decoded.start_slot, start_slot);
    assert_eq!(decoded.duration, duration);
    assert_eq!(decoded.epoch_index, epoch_index);
    assert_eq!(decoded.publishing.proofs, publishing.0);
    assert_eq!(decoded.publishing.authorities, publishing.1);
    assert_eq!(decoded.publishing.randomness, publishing.2);
    assert_eq!(decoded.validating.proofs, validating.0);
    assert_eq!(decoded.validating.authorities, validating.1);
    assert_eq!(decoded.validating.randomness, validating.2);
}

#[test]
fn keys_of_the_store() {
    assert_eq!(&AUXILIARY_KEY[..], b"sassafras_auxiliary");
    assert_eq!(engine_key(), b"sassafras_auxiliary".to_vec());
    let mut expected = b"sassafras_auxiliary".to_vec();
    expected.extend_from_slice(&[0x42; 32]);
    assert_eq!(auxiliary_key(&[0x42; 32]), expected);
    assert_ne!(auxiliary_key(&[0x42; 32]), auxiliary_key(&[0x43; 32]));
}

#[test]
fn what_is_written_is_loaded() {
    let record = AuxiliaryRecord { epoch_state: epoch(set(2, 3, 1), set(4, 1, 2)), last_slot: 77 };
    let (key, value) = write_auxiliary(&[1; 32], &record);
    assert_eq!(key, auxiliary_key(&[1; 32]));
    assert_eq!(load_auxiliary(&[1; 32], &[2; 32], Some(&value)), Ok(record));
}

#[test]
fn parent_unavailable() {
    let unavailable = Err(Error::ParentUnavailable([1; 32], [2; 32]));
    assert_eq!(load_auxiliary(&[1; 32], &[2; 32], None), unavailable);
    assert_eq!(load_auxiliary(&[1; 32], &[2; 32], Some(&[1, 2, 3])), unavailable);
}
