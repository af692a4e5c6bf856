//! The source of the current slot.
//!
//! Slot and timestamp arrive as inherent data. The time source adds the
//! clock drift that it holds, once: the drift is handed out with the first
//! successful reading and is gone after it.

use vstd::prelude::*;
use crate::error::InherentError;
use crate::primitives::Slot;

verus! {

/// The two inherents that the engine requires, as far as they are present.
#[derive(Debug, Clone, Copy, PartialEq, Eq)]
pub struct InherentData {
    /// The timestamp inherent, in milliseconds.
    pub timestamp: Option<u64>,
    /// The slot inherent.
    pub slot: Option<Slot>,
}

/// A span of time: whole seconds and the nanoseconds beyond them.
#[derive(Debug, Clone, Copy, PartialEq, Eq, Structural)]
pub struct ClockDrift {
    pub secs: u64,
    pub nanos: u32,
}

/// No drift at all.
pub open spec fn spec_no_drift() -> ClockDrift {
    ClockDrift { secs: 0, nanos: 0 }
}

/// Clock drift that waits to be consumed, and the slots seen so far.
#[derive(Debug, Clone, PartialEq, Eq)]
pub struct TimeSource {
    /// Drift to hand out with the next reading.
    pub clock_drift: Option<ClockDrift>,
    /// Slots that were seen, each with the instant at which it was seen, in
    /// nanoseconds of a monotonic clock.
    pub samples: Vec<(u64, Slot)>,
}

/// What a reading returns: timestamp, slot and drift, or the inherent that
/// is missing. The timestamp is looked for first.
pub open spec fn spec_extract_timestamp_and_slot(
    clock_drift: Option<ClockDrift>,
    data: InherentData,
) -> Result<(u64, Slot, ClockDrift), InherentError> {
    match data.timestamp {
        None => Err(InherentError::TimestampMissing),
        Some(timestamp) => match data.slot {
            None => Err(InherentError::SlotMissing),
            Some(slot) => Ok(
                (
                    timestamp,
                    slot,
                    match clock_drift {
                        Some(drift) => drift,
                        None => spec_no_drift(),
                    },
                ),
            ),
        },
    }
}

impl TimeSource {
    /// A time source without drift that has seen no slot.
    pub fn new() -> (res: TimeSource)
        ensures
            res.clock_drift is None,
            res.samples@ == Seq::<(u64, Slot)>::empty(),
    {
        TimeSource { clock_drift: None, samples: Vec::new() }
    }

    /// Reads timestamp and slot from the inherent data and hands out the
    /// clock drift.
    ///
    /// A successful reading consumes the drift. A failed one leaves the time
    /// source as it was.
    pub fn extract_timestamp_and_slot(&mut self, data: &InherentData) -> (res: Result<
        (u64, Slot, ClockDrift),
        InherentError,
    >)
        ensures
            res == spec_extract_timestamp_and_slot(old(self).clock_drift, *data),
            res is Ok ==> final(self).clock_drift is None,
            res is Err ==> final(self).clock_drift == old(self).clock_drift,
            final(self).samples == old(self).samples,
    {
        let timestamp = match data.timestamp {
            Some(timestamp) => timestamp,
            None => { return Err(InherentError::TimestampMissing); },
        };
        let slot = match data.slot {
            Some(slot) => slot,
            None => { return Err(InherentError::SlotMissing); },
        };
        let drift = match self.clock_drift.take() {
            Some(drift) => drift,
            None => ClockDrift { secs: 0, nanos: 0 },
        };
        Ok((timestamp, slot, drift))
    }
}

impl Default for TimeSource {
    fn default() -> (res: TimeSource)
        ensures
            res.clock_drift is None,
            res.samples@ == Seq::<(u64, Slot)>::empty(),
    {
        TimeSource::new()
    }
}

} // verus!
