//! The step between verification and storage.
//!
//! Before a block is stored, its slot is held against the last slot of its
//! parent once more: blocks may arrive on paths that pass no verifier. The
//! record of the block is then added to what is written with it.

use vstd::prelude::*;
use crate::aux_schema::{auxiliary_key, spec_auxiliary_key, AUXILIARY_KEY};
use crate::digest::{
    find_pre_digest, lemma_seal_is_no_pre_digest, spec_find_next_epoch_descriptor,
    spec_find_post_block_descriptor, spec_find_pre_digest, DigestItem, Header,
};
use crate::epoch::{Epoch, EpochView};
use crate::error::Error;
use crate::import_params::{spec_verified_params, BlockImportParams, BlockOrigin, Justification};
use crate::primitives::BlockHash;
use crate::record::{
    decode_epoch, encode_record, lemma_epoch_round_trip, spec_decode_epoch, spec_encode_record,
    AuxiliaryRecord, AuxiliaryRecordView,
};
use crate::time_source::{ClockDrift, InherentData};
use crate::verification::{
    lemma_epoch_index_steps, lemma_seal_is_no_descriptor, spec_next_epoch, spec_parent_view,
    spec_pop_seal, spec_slot_now, spec_verify, spec_within_limits,
};

verus! {

/// The epoch state that the verifier handed over with a block: what the
/// first entry under the key of the engine holds, if it holds an epoch.
pub open spec fn spec_handed_epoch(
    auxiliary: Seq<(Vec<u8>, Option<Vec<u8>>)>,
) -> Option<EpochView>
    decreases auxiliary.len(),
{
    if auxiliary.len() == 0 {
        None
    } else if auxiliary[0].0@ == AUXILIARY_KEY@ {
        match auxiliary[0].1 {
            Some(value) => spec_decode_epoch(value@),
            None => None,
        }
    } else {
        spec_handed_epoch(auxiliary.drop_first())
    }
}

/// The record that the import of a block writes, or why it writes none:
/// the error of the look-up where the record of the parent was not found,
/// the error of the search where the header has not exactly one pre-digest,
/// and `SlotInPast` unless the slot of the block exceeds the last slot of
/// its parent. The record holds the epoch state that the verifier handed
/// over, or that of the parent where none was handed over, and the slot of
/// the block as last slot.
pub open spec fn spec_import_block(
    logs: Seq<DigestItem>,
    auxiliary: Seq<(Vec<u8>, Option<Vec<u8>>)>,
    parent: Result<AuxiliaryRecordView, Error>,
) -> Result<AuxiliaryRecordView, Error> {
    match parent {
        Err(e) => Err(e),
        Ok(record) => match spec_find_pre_digest(logs) {
            Err(e) => Err(e),
            Ok(pre) => if pre.slot <= record.last_slot {
                Err(Error::SlotInPast)
            } else {
                Ok(
                    AuxiliaryRecordView {
                        epoch_state: match spec_handed_epoch(auxiliary) {
                            Some(epoch) => epoch,
                            None => record.epoch_state,
                        },
                        last_slot: pre.slot,
                    },
                )
            },
        },
    }
}

/// Whether a key is the key of the engine.
fn is_engine_key(key: &Vec<u8>) -> (res: bool)
    ensures
        res == (key@ == AUXILIARY_KEY@),
{
    if key.len() != 19 {
        return false;
    }
    let mut i: usize = 0;
    while i < 19
        invariant
            i <= 19,
            key.len() == 19,
            forall|j: int| 0 <= j < i ==> key@[j] == AUXILIARY_KEY@[j],
        decreases 19 - i,
    {
        if key[i] != AUXILIARY_KEY[i] {
            return false;
        }
        i += 1;
    }
    proof {
        assert(key@ =~= AUXILIARY_KEY@);
    }
    true
}

/// Reads the epoch state that the verifier handed over with a block.
pub fn handed_epoch(auxiliary: &Vec<(Vec<u8>, Option<Vec<u8>>)>) -> (res: Option<Epoch>)
    ensures
        match res {
            Some(epoch) => spec_handed_epoch(auxiliary@) == Some(epoch@) && epoch@.encodable(),
            None => spec_handed_epoch(auxiliary@) is None,
        },
{
    let mut i: usize = 0;
    proof {
        assert(auxiliary@.skip(0) =~= auxiliary@);
    }
    while i < auxiliary.len()
        invariant
            i <= auxiliary.len(),
            spec_handed_epoch(auxiliary@) == spec_handed_epoch(auxiliary@.skip(i as int)),
        decreases auxiliary.len() - i,
    {
        proof {
            assert(auxiliary@.skip(i as int).drop_first() =~= auxiliary@.skip(i + 1));
        }
        if is_engine_key(&auxiliary[i].0) {
            return match &auxiliary[i].1 {
                Some(value) => decode_epoch(value.as_slice()),
                None => None,
            };
        }
        i += 1;
    }
    None
}

/// The import of blocks of this engine. What it wraps, the importer that
/// stores the block, is not part of it.
#[derive(Debug)]
pub struct SassafrasBlockImport {}

impl SassafrasBlockImport {
    /// An import step.
    pub fn new() -> SassafrasBlockImport {
        SassafrasBlockImport {  }
    }

    /// Decides whether a block may be stored, and with what.
    ///
    /// `parent` is the record stored for the parent, or the reason why there
    /// is none. The verdict is that of [`spec_import_block`]. On success the
    /// block is returned with one more entry to write: the record of the
    /// block, under the key of the hash of its sealed header.
    ///
    /// The lists of the parent's epoch must be short enough to be encoded;
    /// those of a record that was read from its bytes are.
    pub fn import_block<X>(
        &mut self,
        block: BlockImportParams<X>,
        parent: Result<AuxiliaryRecord, Error>,
    ) -> (res: Result<BlockImportParams<X>, Error>)
        requires
            parent matches Ok(record) ==> record@.epoch_state.encodable(),
        ensures
            match res {
                Ok(stored) => {
                    &&& spec_import_block(
                        block.header.digest@,
                        block.auxiliary@,
                        spec_parent_view(parent),
                    ) matches Ok(record)
                    &&& stored.auxiliary@.len() == block.auxiliary@.len() + 1
                    &&& stored.auxiliary@.drop_last() == block.auxiliary@
                    &&& stored.auxiliary@.last().0@ == spec_auxiliary_key(block.post_hash)
                    &&& stored.auxiliary@.last().1 matches Some(value) && value@
                        == spec_encode_record(record)
                    &&& stored.origin == block.origin
                    &&& stored.header == block.header
                    &&& stored.post_hash == block.post_hash
                    &&& stored.justification == block.justification
                    &&& stored.post_digests == block.post_digests
                    &&& stored.body == block.body
                    &&& stored.finalized == block.finalized
                    &&& stored.fork_choice == block.fork_choice
                    &&& stored.allow_missing_state == block.allow_missing_state
                    &&& stored.import_existing == block.import_existing
                },
                Err(e) => spec_import_block(
                    block.header.digest@,
                    block.auxiliary@,
                    spec_parent_view(parent),
                ) == Err::<AuxiliaryRecordView, Error>(e),
            },
    {
        let mut auxiliary = match parent {
            Ok(record) => record,
            Err(e) => { return Err(e); },
        };
        let pre_digest = match find_pre_digest(&block.header) {
            Ok(pre_digest) => pre_digest,
            Err(e) => { return Err(e); },
        };
        if pre_digest.slot <= auxiliary.last_slot {
            return Err(Error::SlotInPast);
        }
        auxiliary.last_slot = pre_digest.slot;
        if let Some(epoch) = handed_epoch(&block.auxiliary) {
            auxiliary.epoch_state = epoch;
        }
        let key = auxiliary_key(&block.post_hash);
        let value = encode_record(&auxiliary);
        let mut block = block;
        block.auxiliary.push((key, Some(value)));
        Ok(block)
    }
}

/// Slots grow along a chain: a block that is stored claimed a slot beyond
/// the last slot of its parent, and its own record holds that slot.
pub proof fn lemma_stored_slot_exceeds_parent(
    logs: Seq<DigestItem>,
    auxiliary: Seq<(Vec<u8>, Option<Vec<u8>>)>,
    parent: AuxiliaryRecordView,
)
    requires
        spec_import_block(logs, auxiliary, Ok(parent)) is Ok,
    ensures
        spec_find_pre_digest(logs) is Ok,
        spec_find_pre_digest(logs)->Ok_0.slot > parent.last_slot,
        spec_import_block(logs, auxiliary, Ok(parent))->Ok_0.last_slot == spec_find_pre_digest(
            logs,
        )->Ok_0.slot,
        spec_import_block(logs, auxiliary, Ok(parent))->Ok_0.last_slot > parent.last_slot,
{
}

/// What the verifier hands over is what the import reads: the epoch state
/// in the parameters of a verified block is the epoch state after the
/// block.
pub proof fn lemma_verified_epoch_is_handed_over<X>(
    params: BlockImportParams<X>,
    origin: BlockOrigin,
    header: Header,
    pre_hash: BlockHash,
    justification: Option<Justification>,
    body: Option<Vec<X>>,
    epoch: EpochView,
)
    requires
        spec_verified_params(params, origin, header, pre_hash, justification, body, epoch),
        epoch.encodable(),
    ensures
        spec_handed_epoch(params.auxiliary@) == Some(epoch),
{
    lemma_epoch_round_trip(epoch);
}

/// The record of an accepted block. A block is accepted when the verifier
/// accepts its header under the record of its parent and the import stores
/// what the verifier prepared. Then, of the record stored for the block:
/// its epoch state is the one that the verifier computed; its epoch index
/// is that of the parent, or one more if the block announces the next
/// epoch; its last slot is the slot of the block, which exceeds the last
/// slot of the parent and not the slot of the clock.
pub proof fn lemma_accepted_block<X>(
    clock_drift: Option<ClockDrift>,
    origin: BlockOrigin,
    header: Header,
    pre_hash: BlockHash,
    justification: Option<Justification>,
    body: Option<Vec<X>>,
    inherents: Result<InherentData, String>,
    parent: AuxiliaryRecordView,
    params: BlockImportParams<X>,
)
    requires
        spec_within_limits(parent.epoch_state, header.digest@),
        spec_verify(clock_drift, header, pre_hash, inherents, Ok(parent)) is Ok,
        spec_verified_params(
            params,
            origin,
            header,
            pre_hash,
            justification,
            body,
            spec_verify(clock_drift, header, pre_hash, inherents, Ok(parent))->Ok_0,
        ),
        spec_import_block(params.header.digest@, params.auxiliary@, Ok(parent)) is Ok,
    ensures
        ({
            let epoch = spec_verify(clock_drift, header, pre_hash, inherents, Ok(parent))->Ok_0;
            let record = spec_import_block(
                params.header.digest@,
                params.auxiliary@,
                Ok(parent),
            )->Ok_0;
            let pre = spec_find_pre_digest(header.digest@)->Ok_0;
            let announces = spec_find_next_epoch_descriptor(header.digest@.drop_last())->Ok_0
                is Some;
            &&& record.epoch_state == epoch
            &&& !announces ==> record.epoch_state.epoch_index == parent.epoch_state.epoch_index
            &&& announces ==> record.epoch_state.epoch_index == parent.epoch_state.epoch_index
                + 1
            &&& record.last_slot == pre.slot
            &&& pre.slot > parent.last_slot
            &&& pre.slot <= spec_slot_now(clock_drift, inherents)->Ok_0
        }),
{
    let logs = header.digest@;
    let epoch = spec_verify(clock_drift, header, pre_hash, inherents, Ok(parent))->Ok_0;
    let pre = spec_find_pre_digest(logs)->Ok_0;
    let seal = spec_pop_seal(header.hash, logs)->Ok_0;
    let post = spec_find_post_block_descriptor(logs.drop_last())->Ok_0;
    let next = spec_find_next_epoch_descriptor(logs.drop_last())->Ok_0;
    assert(logs.last() is Seal);
    lemma_seal_is_no_descriptor(logs);
    lemma_seal_is_no_pre_digest(logs);
    assert(epoch == spec_next_epoch(parent.epoch_state, post, next));
    lemma_epoch_index_steps(parent.epoch_state, pre, seal, pre_hash, post, next);
    lemma_verified_epoch_is_handed_over(params, origin, header, pre_hash, justification, body, epoch);
}

} // verus!
