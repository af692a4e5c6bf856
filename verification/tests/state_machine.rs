use sassafras_consensus::block_import::handed_epoch;
use sassafras_consensus::digest::{
    DigestItem, Header, NextEpochDescriptor, PostBlockDescriptor, PreDigest,
};
use sassafras_consensus::epoch::{Epoch, ValidatorSet};
use sassafras_consensus::error::Error;
use sassafras_consensus::record::encode_epoch;
use sassafras_consensus::verification::{
    apply_block, check_claim, claim_outcome, next_epoch, within_limits,
};

fn machine_epoch() -> Epoch {
    Epoch {
        start_slot: 10,
        duration: 100,
        epoch_index: 4,
        publishing: ValidatorSet {
            proofs: vec![[1; 64], [2; 64]],
            authorities: vec![([3; 32], 1)],
            randomness: [4; 32],
        },
        validating: ValidatorSet {
            proofs: vec![[5; 64]],
            authorities: vec![([6; 32], 1), ([7; 32], 2)],
            randomness: [8; 32],
        },
    }
}

fn claim(authority_index: u32, ticket_vrf_index: u32) -> PreDigest {
    PreDigest {
        authority_index,
        slot: 20,
        ticket_vrf_index,
        ticket_vrf_output: [0; 32],
        post_vrf_output: [0; 32],
        post_vrf_proof: [0; 64],
    }
}

fn unsealed(digest: Vec<DigestItem>) -> Header {
    Header { hash: [0; 32], parent_hash: [0; 32], digest }
}

#[test]
fn verdict_for_every_outcome_of_the_checks() {
    let epoch = machine_epoch();
    let pre = claim(1, 0);
    assert_eq!(claim_outcome(&epoch, &pre, true, true, true), Ok(()));
    assert_eq!(claim_outcome(&epoch, &pre, true, true, false), Err(Error::PostVRFVerificationFailed));
    assert_eq!(
        claim_outcome(&epoch, &pre, true, false, true),
        Err(Error::TicketVRFVerificationFailed)
    );
    assert_eq!(
        claim_outcome(&epoch, &pre, true, false, false),
        Err(Error::TicketVRFVerificationFailed)
    );
    for ticket_ok in [false, true] {
        for post_ok in [false, true] {
            assert_eq!(
                claim_outcome(&epoch, &pre, false, ticket_ok, post_ok),
                Err(Error::InvalidSeal)
            );
        }
    }
}

#[test]
fn indices_are_held_against_the_validating_set() {
    let epoch = machine_epoch();
    // Two authorities validate, one publishes; one ticket validates, two are published.
    assert_eq!(claim_outcome(&epoch, &claim(2, 0), true, true, true), Err(Error::InvalidAuthorityId));
    assert_eq!(
        claim_outcome(&epoch, &claim(u32::MAX, 0), true, true, true),
        Err(Error::InvalidAuthorityId)
    );
    assert_eq!(
        claim_outcome(&epoch, &claim(1, 1), true, true, true),
        Err(Error::InvalidTicketVRFIndex)
    );
    assert_eq!(claim_outcome(&epoch, &claim(2, 1), true, true, true), Err(Error::InvalidAuthorityId));
    assert_eq!(claim_outcome(&epoch, &claim(1, 1), false, true, true), Err(Error::InvalidSeal));
}

#[test]
fn keys_that_are_no_points_sign_nothing() {
    // 32 bytes of 0xff are no compressed point, so no signature verifies.
    let mut epoch = machine_epoch();
    epoch.validating.authorities[0].0 = [0xff; 32];
    assert_eq!(check_claim(&epoch, &claim(0, 0), &[0; 64], &[9; 32]), Err(Error::InvalidSeal));
    assert_eq!(
        apply_block(epoch, &claim(0, 0), &[0; 64], &[9; 32], None, None),
        Err(Error::InvalidSeal)
    );
}

#[test]
fn descriptors_are_applied_in_order() {
    let epoch = machine_epoch();
    let committed = PostBlockDescriptor { commitments: vec![[9; 64]] };
    let announced = NextEpochDescriptor { authorities: vec![([10; 32], 5)], randomness: [11; 32] };

    assert_eq!(next_epoch(epoch.clone(), None, None), epoch);

    let after = next_epoch(epoch.clone(), Some(&committed), None);
    assert_eq!(after.publishing.proofs, vec![[1; 64], [2; 64], [9; 64]]);
    assert_eq!(after.validating, epoch.validating);

    let after = next_epoch(epoch.clone(), None, Some(&announced));
    assert_eq!(after.epoch_index, 5);
    assert_eq!(after.start_slot, 110);
    assert_eq!(after.validating.proofs, vec![[1; 64], [2; 64]]);
    assert_eq!(after.publishing.authorities, announced.authorities);

    let after = next_epoch(epoch, Some(&committed), Some(&announced));
    assert_eq!(after.validating.proofs, vec![[1; 64], [9; 64], [2; 64]]);
    assert!(after.publishing.proofs.is_empty());
}

#[test]
fn limits_of_the_counters() {
    let announced = NextEpochDescriptor { authorities: vec![], randomness: [0; 32] };
    let rotating = unsealed(vec![DigestItem::NextEpochDescriptor(announced)]);
    let plain = unsealed(vec![DigestItem::Other]);

    let mut epoch = machine_epoch();
    assert!(epoch.can_increment());
    assert!(epoch.is_encodable());
    assert!(within_limits(&epoch, &rotating));

    epoch.epoch_index = u64::MAX;
    assert!(!epoch.can_increment());
    assert!(!within_limits(&epoch, &rotating));
    assert!(within_limits(&epoch, &plain));

    epoch.epoch_index = u64::MAX - 1;
    epoch.start_slot = u64::MAX - 100;
    assert!(epoch.can_increment());
    assert!(within_limits(&epoch, &rotating));
    epoch.start_slot = u64::MAX - 99;
    assert!(!epoch.can_increment());
    assert!(!within_limits(&epoch, &rotating));
    assert!(within_limits(&epoch, &plain));
}

#[test]
fn limits_do_not_matter_where_the_digest_fails() {
    let announced = NextEpochDescriptor { authorities: vec![], randomness: [0; 32] };
    let twice = unsealed(vec![
        DigestItem::NextEpochDescriptor(announced.clone()),
        DigestItem::NextEpochDescriptor(announced),
    ]);
    let mut epoch = machine_epoch();
    epoch.epoch_index = u64::MAX;
    assert!(within_limits(&epoch, &twice));
}

#[test]
fn handed_epoch_is_the_first_entry_of_the_engine() {
    let first = machine_epoch();
    let mut second = machine_epoch();
    second.epoch_index = 99;
    let key = b"sassafras_auxiliary".to_vec();
    assert_eq!(handed_epoch(&vec![]), None);
    assert_eq!(handed_epoch(&vec![(b"sassafras".to_vec(), Some(encode_epoch(&first)))]), None);
    assert_eq!(
        handed_epoch(&vec![
            (b"other".to_vec(), Some(encode_epoch(&second))),
            (key.clone(), Some(encode_epoch(&first))),
            (key.clone(), Some(encode_epoch(&second))),
        ]),
        Some(first)
    );
    assert_eq!(handed_epoch(&vec![(key.clone(), None), (key.clone(), Some(encode_epoch(&second)))]), None);
    assert_eq!(handed_epoch(&vec![(key, Some(vec![1, 2, 3]))]), None);
}
