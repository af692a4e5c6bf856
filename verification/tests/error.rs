use sassafras_consensus::error::{Error, InherentError};

#[test]
fn every_error_has_its_reason() {
    let mut hash = [0u8; 32];
    for (i, byte) in hash.iter_mut().enumerate() {
        *byte = (i as u8).wrapping_mul(0x1f).wrapping_add(0xa0);
    }
    let short = format!("{}", sp_core::H256(hash));
    let full = format!("{:?}", sp_core::H256(hash));
    assert_eq!(short, "0xa0bf\u{2026}4261");
    assert_eq!(full.len(), 66);
    let parent = [0xff; 32];
    let cases = vec![
        (
            Error::Extraction(InherentError::TimestampMissing),
            "Could not extract timestamp and slot: timestamp inherent data not found".to_string(),
        ),
        (
            Error::Extraction(InherentError::SlotMissing),
            "Could not extract timestamp and slot: slot inherent data not found".to_string(),
        ),
        (Error::TooFarInFuture(hash), format!("Header {} rejected: too far in the future", full)),
        (
            Error::ParentUnavailable(parent, hash),
            format!("Parent (0xffff\u{2026}ffff) of {} unavailable. Cannot import", short),
        ),
        (
            Error::FetchParentHeader("Backend(\"gone\")".to_string()),
            "Could not fetch parent header: Backend(\"gone\")".to_string(),
        ),
        (Error::MultiplePreRuntimeDigest, "MultiplePreRuntimeDigest".to_string()),
        (Error::NoPreRuntimeDigest, "NoPreRuntimeDigest".to_string()),
        (Error::MultipleNextEpochDescriptor, "MultipleNextEpochDescriptor".to_string()),
        (Error::MultiplePostBlockDescriptor, "MultiplePostBlockDescriptor".to_string()),
        (Error::InvalidTicketVRFIndex, "InvalidTicketVRFIndex".to_string()),
        (Error::InvalidAuthorityId, "InvalidAuthorityId".to_string()),
        (Error::InvalidSeal, "InvalidSeal".to_string()),
        (Error::HeaderUnsealed(hash), short.clone()),
        (Error::TicketVRFVerificationFailed, "TicketVRFVerificationFailed".to_string()),
        (Error::PostVRFVerificationFailed, "PostVRFVerificationFailed".to_string()),
        (Error::SlotInPast, "SlotInPast".to_string()),
        (Error::SlotInFuture, "SlotInFuture".to_string()),
        (Error::Runtime("no providers".to_string()), "no providers".to_string()),
        (Error::Client("disk".to_string()), "disk".to_string()),
    ];
    for (error, reason) in cases {
        assert_eq!(error.reason(), reason);
    }
}

#[test]
fn hashes_are_written_in_lower_case_hexadecimal() {
    let mut hash = [0u8; 32];
    hash[0] = 0x0a;
    hash[1] = 0xf9;
    hash[30] = 0x10;
    hash[31] = 0xce;
    assert_eq!(Error::HeaderUnsealed(hash).reason(), "0x0af9\u{2026}10ce");
    let mut all = String::from("0x0af9");
    for _ in 0..28 {
        all.push_str("00");
    }
    all.push_str("10ce");
    assert_eq!(
        Error::TooFarInFuture(hash).reason(),
        format!("Header {} rejected: too far in the future", all)
    );
}
