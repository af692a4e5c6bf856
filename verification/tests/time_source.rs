use sassafras_consensus::error::InherentError;
use sassafras_consensus::time_source::{ClockDrift, InherentData, TimeSource};

#[test]
fn new_time_source_is_empty() {
    let source = TimeSource::new();
    assert_eq!(source.clock_drift, None);
    assert!(source.samples.is_empty());
    assert_eq!(TimeSource::default(), source);
}

#[test]
fn reading_without_drift() {
    let mut source = TimeSource::new();
    let data = InherentData { timestamp: Some(1234), slot: Some(56) };
    assert_eq!(
        source.extract_timestamp_and_slot(&data),
        Ok((1234, 56, ClockDrift { secs: 0, nanos: 0 }))
    );
}

#[test]
fn drift_is_handed_out_once() {
    let drift = ClockDrift { secs: 3, nanos: 999_999_999 };
    let mut source = TimeSource { clock_drift: Some(drift), samples: vec![(5, 6)] };
    let data = InherentData { timestamp: Some(1), slot: Some(2) };
    assert_eq!(source.extract_timestamp_and_slot(&data), Ok((1, 2, drift)));
    assert_eq!(source.clock_drift, None);
    assert_eq!(
        source.extract_timestamp_and_slot(&data),
        Ok((1, 2, ClockDrift { secs: 0, nanos: 0 }))
    );
    assert_eq!(source.samples, vec![(5, 6)]);
}

#[test]
fn failed_reading_keeps_the_drift() {
    let drift = ClockDrift { secs: 3, nanos: 4 };
    let mut source = TimeSource { clock_drift: Some(drift), samples: vec![] };
    assert_eq!(
        source.extract_timestamp_and_slot(&InherentData { timestamp: None, slot: Some(2) }),
        Err(InherentError::TimestampMissing)
    );
    assert_eq!(
        source.extract_timestamp_and_slot(&InherentData { timestamp: Some(1), slot: None }),
        Err(InherentError::SlotMissing)
    );
    assert_eq!(
        source.extract_timestamp_and_slot(&InherentData { timestamp: None, slot: None }),
        Err(InherentError::TimestampMissing)
    );
    assert_eq!(source.clock_drift, Some(drift));
}
