use sassafras_consensus::digest::{
    as_sassafras_seal, find_next_epoch_descriptor, find_post_block_descriptor, find_pre_digest,
    is_sassafras_engine, DigestItem, Header, NextEpochDescriptor, PostBlockDescriptor, PreDigest,
};
use sassafras_consensus::error::Error;
use sassafras_consensus::primitives::SASSAFRAS_ENGINE_ID;
use sassafras_consensus::verification::pop_seal;

fn pre_digest(slot: u64) -> PreDigest {
    PreDigest {
        authority_index: 3,
        slot,
        ticket_vrf_index: 4,
        ticket_vrf_output: [1; 32],
        post_vrf_output: [2; 32],
        post_vrf_proof: [3; 64],
    }
}

fn log(digest: Vec<DigestItem>) -> Header {
    Header { hash: [7; 32], parent_hash: [8; 32], digest }
}

fn commitments(byte: u8) -> PostBlockDescriptor {
    PostBlockDescriptor { commitments: vec![[byte; 64]] }
}

fn announcement(byte: u8) -> NextEpochDescriptor {
    NextEpochDescriptor { authorities: vec![([byte; 32], 1)], randomness: [byte; 32] }
}

#[test]
fn engine_id_is_sass() {
    assert_eq!(&SASSAFRAS_ENGINE_ID, b"SASS");
    assert!(is_sassafras_engine(b"SASS"));
    assert!(!is_sassafras_engine(b"SASs"));
    assert!(!is_sassafras_engine(b"BABE"));
}

#[test]
fn pre_digest_is_found_wherever_it_stands() {
    let pre = pre_digest(5);
    assert_eq!(find_pre_digest(&log(vec![DigestItem::PreDigest(pre)])), Ok(pre));
    assert_eq!(
        find_pre_digest(&log(vec![
            DigestItem::Other,
            DigestItem::PostBlockDescriptor(commitments(1)),
            DigestItem::PreDigest(pre),
            DigestItem::Seal(SASSAFRAS_ENGINE_ID, [0; 64]),
        ])),
        Ok(pre)
    );
}

#[test]
fn pre_digest_absent() {
    assert_eq!(find_pre_digest(&log(vec![])), Err(Error::NoPreRuntimeDigest));
    assert_eq!(
        find_pre_digest(&log(vec![
            DigestItem::Other,
            DigestItem::NextEpochDescriptor(announcement(1)),
            DigestItem::Seal(SASSAFRAS_ENGINE_ID, [0; 64]),
        ])),
        Err(Error::NoPreRuntimeDigest)
    );
}

#[test]
fn pre_digest_twice() {
    assert_eq!(
        find_pre_digest(&log(vec![
            DigestItem::PreDigest(pre_digest(5)),
            DigestItem::Other,
            DigestItem::PreDigest(pre_digest(6)),
        ])),
        Err(Error::MultiplePreRuntimeDigest)
    );
    assert_eq!(
        find_pre_digest(&log(vec![
            DigestItem::PreDigest(pre_digest(5)),
            DigestItem::PreDigest(pre_digest(5)),
            DigestItem::PreDigest(pre_digest(5)),
        ])),
        Err(Error::MultiplePreRuntimeDigest)
    );
}

#[test]
fn post_block_descriptor_is_optional() {
    assert_eq!(find_post_block_descriptor(&log(vec![])), Ok(None));
    assert_eq!(
        find_post_block_descriptor(&log(vec![
            DigestItem::PreDigest(pre_digest(5)),
            DigestItem::NextEpochDescriptor(announcement(1)),
        ])),
        Ok(None)
    );
}

#[test]
fn post_block_descriptor_once_and_twice() {
    let first = commitments(1);
    let header = log(vec![DigestItem::Other, DigestItem::PostBlockDescriptor(first.clone())]);
    assert_eq!(find_post_block_descriptor(&header), Ok(Some(&first)));
    let header = log(vec![
        DigestItem::PostBlockDescriptor(first),
        DigestItem::PreDigest(pre_digest(5)),
        DigestItem::PostBlockDescriptor(commitments(2)),
    ]);
    assert_eq!(find_post_block_descriptor(&header), Err(Error::MultiplePostBlockDescriptor));
}

#[test]
fn next_epoch_descriptor_is_optional() {
    assert_eq!(find_next_epoch_descriptor(&log(vec![])), Ok(None));
    assert_eq!(
        find_next_epoch_descriptor(&log(vec![
            DigestItem::PreDigest(pre_digest(5)),
            DigestItem::PostBlockDescriptor(commitments(1)),
        ])),
        Ok(None)
    );
}

#[test]
fn next_epoch_descriptor_once_and_twice() {
    let first = announcement(1);
    let header = log(vec![DigestItem::NextEpochDescriptor(first.clone()), DigestItem::Other]);
    assert_eq!(find_next_epoch_descriptor(&header), Ok(Some(&first)));
    let header = log(vec![
        DigestItem::NextEpochDescriptor(first),
        DigestItem::NextEpochDescriptor(announcement(2)),
    ]);
    assert_eq!(find_next_epoch_descriptor(&header), Err(Error::MultipleNextEpochDescriptor));
}

#[test]
fn seal_is_read_by_engine() {
    assert_eq!(as_sassafras_seal(&DigestItem::Seal(SASSAFRAS_ENGINE_ID, [9; 64])), Some([9; 64]));
    assert_eq!(as_sassafras_seal(&DigestItem::Seal(*b"aura", [9; 64])), None);
    assert_eq!(as_sassafras_seal(&DigestItem::Other), None);
    assert_eq!(as_sassafras_seal(&DigestItem::PreDigest(pre_digest(1))), None);
}

#[test]
fn seal_is_popped() {
    let seal = DigestItem::Seal(SASSAFRAS_ENGINE_ID, [9; 64]);
    let mut header = log(vec![DigestItem::Other, seal.clone()]);
    assert_eq!(pop_seal(&mut header), Ok((seal, [9; 64])));
    assert_eq!(header, log(vec![DigestItem::Other]));
}

#[test]
fn header_unsealed() {
    let mut header = log(vec![]);
    assert_eq!(pop_seal(&mut header), Err(Error::HeaderUnsealed([7; 32])));
    assert_eq!(header, log(vec![]));
}

#[test]
fn last_item_is_no_seal() {
    let mut header = log(vec![DigestItem::Seal(SASSAFRAS_ENGINE_ID, [9; 64]), DigestItem::Other]);
    assert_eq!(pop_seal(&mut header), Err(Error::InvalidSeal));
    assert_eq!(header.digest.len(), 1);
    let mut header = log(vec![DigestItem::Seal(*b"BABE", [9; 64])]);
    assert_eq!(pop_seal(&mut header), Err(Error::InvalidSeal));
}
