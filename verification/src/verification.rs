//! Verification of a block against the epoch state of its parent.
//!
//! The stages run in a fixed order and the first failure is returned:
//! the clock, the pre-digest, the slot against the clock, the parent's
//! record, the seal, the descriptors, and then the claim itself: authority,
//! signature, ticket, ticket VRF, post-block VRF. A block that passes
//! commits its tickets to the publishing set and, where it announces the
//! next epoch, rotates the sets.
//!
//! The cryptographic checks are made by outside code. What the verifier
//! returns for each of their outcomes is fixed by [`spec_claim_outcome`],
//! and [`claim_outcome`] computes it from outcomes that the caller supplies.

use vstd::prelude::*;
use crate::aux_schema::engine_key;
use crate::crypto::{seal_signature_valid, spec_seal_signature_valid, spec_vrf_valid, vrf_valid};
use crate::digest::{
    as_sassafras_seal, find_next_epoch_descriptor, find_post_block_descriptor, find_pre_digest,
    spec_as_sassafras_seal, spec_find_next_epoch_descriptor, spec_find_post_block_descriptor,
    spec_find_pre_digest, spec_owned, DigestItem, Header, NextEpochDescriptor, PostBlockDescriptor, PreDigest,
};
use crate::epoch::{Epoch, EpochView};
use crate::error::Error;
use crate::import_params::{
    spec_verified_params, BlockImportParams, BlockOrigin, CacheKeyId, ForkChoiceStrategy,
    Justification,
};
use crate::primitives::{AuthorityId, BlockHash, SealSignature, Slot};
use crate::record::{encode_epoch, AuxiliaryRecord, AuxiliaryRecordView};
use crate::time_source::{spec_extract_timestamp_and_slot, ClockDrift, InherentData, TimeSource};
use crate::transcript::{
    make_post_transcript, make_ticket_transcript, spec_post_transcript, spec_ticket_transcript,
};

verus! {

/// The key of the author that a pre-digest names.
pub open spec fn spec_author(epoch: EpochView, pre: PreDigest) -> AuthorityId {
    epoch.validating.authorities[pre.authority_index as int].0
}

/// Whether the seal is the author's signature on the hash of the unsealed
/// header.
pub open spec fn spec_seal_ok(
    epoch: EpochView,
    pre: PreDigest,
    seal: SealSignature,
    pre_hash: BlockHash,
) -> bool {
    spec_seal_signature_valid(seal@, pre_hash@, spec_author(epoch, pre)@)
}

/// Whether the ticket that the pre-digest names proves its claimed output,
/// for the author, on the ticket transcript of slot and epoch.
pub open spec fn spec_ticket_ok(epoch: EpochView, pre: PreDigest) -> bool {
    spec_vrf_valid(
        spec_author(epoch, pre)@,
        spec_ticket_transcript(epoch.validating.randomness@, pre.slot, epoch.epoch_index),
        pre.ticket_vrf_output@,
        epoch.validating.proofs[pre.ticket_vrf_index as int]@,
    )
}

/// Whether the post-block proof of the pre-digest proves its claimed
/// output, for the author, on the post-block transcript of slot and epoch.
pub open spec fn spec_post_ok(epoch: EpochView, pre: PreDigest) -> bool {
    spec_vrf_valid(
        spec_author(epoch, pre)@,
        spec_post_transcript(epoch.validating.randomness@, pre.slot, epoch.epoch_index),
        pre.post_vrf_output@,
        pre.post_vrf_proof@,
    )
}

/// The verdict on a claim, given the outcome of the three cryptographic
/// checks. Each stage is reached only if those before it passed.
pub open spec fn spec_claim_outcome(
    epoch: EpochView,
    pre: PreDigest,
    seal_ok: bool,
    ticket_ok: bool,
    post_ok: bool,
) -> Result<(), Error> {
    if pre.authority_index >= epoch.validating.authorities.len() {
        Err(Error::InvalidAuthorityId)
    } else if !seal_ok {
        Err(Error::InvalidSeal)
    } else if pre.ticket_vrf_index >= epoch.validating.proofs.len() {
        Err(Error::InvalidTicketVRFIndex)
    } else if !ticket_ok {
        Err(Error::TicketVRFVerificationFailed)
    } else if !post_ok {
        Err(Error::PostVRFVerificationFailed)
    } else {
        Ok(())
    }
}

/// The verdict on a claim under an epoch.
pub open spec fn spec_check_claim(
    epoch: EpochView,
    pre: PreDigest,
    seal: SealSignature,
    pre_hash: BlockHash,
) -> Result<(), Error> {
    spec_claim_outcome(
        epoch,
        pre,
        spec_seal_ok(epoch, pre, seal, pre_hash),
        spec_ticket_ok(epoch, pre),
        spec_post_ok(epoch, pre),
    )
}

/// The epoch state that an accepted block leaves behind: its commitments
/// join the publishing set, and then, if it announces the next epoch, the
/// sets rotate.
pub open spec fn spec_next_epoch(
    epoch: EpochView,
    post: Option<PostBlockDescriptor>,
    next: Option<NextEpochDescriptor>,
) -> EpochView {
    let committed = match post {
        Some(descriptor) => epoch.commit_tickets(descriptor.commitments@),
        None => epoch,
    };
    match next {
        Some(descriptor) => committed.rotate(descriptor),
        None => committed,
    }
}

/// What the state machine makes of a block: the error of the first stage
/// that fails, or the epoch state after the block.
pub open spec fn spec_apply_block(
    epoch: EpochView,
    pre: PreDigest,
    seal: SealSignature,
    pre_hash: BlockHash,
    post: Option<PostBlockDescriptor>,
    next: Option<NextEpochDescriptor>,
) -> Result<EpochView, Error> {
    match spec_check_claim(epoch, pre, seal, pre_hash) {
        Err(e) => Err(e),
        Ok(_) => Ok(spec_next_epoch(epoch, post, next)),
    }
}

/// The verdict on a claim, given the outcome of the three cryptographic
/// checks.
pub fn claim_outcome(
    epoch: &Epoch,
    pre: &PreDigest,
    seal_ok: bool,
    ticket_ok: bool,
    post_ok: bool,
) -> (res: Result<(), Error>)
    ensures
        res == spec_claim_outcome(epoch@, *pre, seal_ok, ticket_ok, post_ok),
{
    if pre.authority_index as usize >= epoch.validating.authorities.len() {
        Err(Error::InvalidAuthorityId)
    } else if !seal_ok {
        Err(Error::InvalidSeal)
    } else if pre.ticket_vrf_index as usize >= epoch.validating.proofs.len() {
        Err(Error::InvalidTicketVRFIndex)
    } else if !ticket_ok {
        Err(Error::TicketVRFVerificationFailed)
    } else if !post_ok {
        Err(Error::PostVRFVerificationFailed)
    } else {
        Ok(())
    }
}

/// Checks the claim of a block under the epoch of its parent: the author
/// exists, the seal is the author's signature on `pre_hash`, the ticket
/// exists, and both VRF outputs verify.
pub fn check_claim(
    epoch: &Epoch,
    pre: &PreDigest,
    seal: &SealSignature,
    pre_hash: &BlockHash,
) -> (res: Result<(), Error>)
    ensures
        res == spec_check_claim(epoch@, *pre, *seal, *pre_hash),
{
    if pre.authority_index as usize >= epoch.validating.authorities.len() {
        return Err(Error::InvalidAuthorityId);
    }
    let author: AuthorityId = epoch.validating.authorities[pre.authority_index as usize].0;
    if !seal_signature_valid(seal, pre_hash, &author) {
        return Err(Error::InvalidSeal);
    }
    if pre.ticket_vrf_index as usize >= epoch.validating.proofs.len() {
        return Err(Error::InvalidTicketVRFIndex);
    }
    let ticket_vrf_proof = epoch.validating.proofs[pre.ticket_vrf_index as usize];
    let ticket_transcript = make_ticket_transcript(
        epoch.validating.randomness.as_slice(),
        pre.slot,
        epoch.epoch_index,
    );
    if !vrf_valid(&author, ticket_transcript, &pre.ticket_vrf_output, &ticket_vrf_proof) {
        return Err(Error::TicketVRFVerificationFailed);
    }
    let post_transcript = make_post_transcript(
        epoch.validating.randomness.as_slice(),
        pre.slot,
        epoch.epoch_index,
    );
    if !vrf_valid(&author, post_transcript, &pre.post_vrf_output, &pre.post_vrf_proof) {
        return Err(Error::PostVRFVerificationFailed);
    }
    Ok(())
}

/// Applies the descriptors of an accepted block to the epoch state.
///
/// Where the block announces the next epoch, the counters of that epoch
/// must be numbers of 64 bits.
pub fn next_epoch(
    epoch: Epoch,
    post: Option<&PostBlockDescriptor>,
    next: Option<&NextEpochDescriptor>,
) -> (res: Epoch)
    requires
        next is Some ==> epoch@.can_increment(),
    ensures
        res@ == spec_next_epoch(
            epoch@,
            spec_owned(post),
            spec_owned(next),
        ),
{
    let mut epoch = epoch;
    if let Some(descriptor) = post {
        epoch.commit_tickets(&descriptor.commitments);
    }
    match next {
        Some(descriptor) => epoch.rotate(descriptor),
        None => epoch,
    }
}

/// Runs the epoch state machine on a block: checks its claim under the
/// epoch of the parent and, if the claim holds, applies its descriptors.
///
/// Where the block announces the next epoch, the counters of that epoch
/// must be numbers of 64 bits.
pub fn apply_block(
    epoch: Epoch,
    pre: &PreDigest,
    seal: &SealSignature,
    pre_hash: &BlockHash,
    post: Option<&PostBlockDescriptor>,
    next: Option<&NextEpochDescriptor>,
) -> (res: Result<Epoch, Error>)
    requires
        next is Some ==> epoch@.can_increment(),
    ensures
        match res {
            Ok(after) => spec_apply_block(
                epoch@,
                *pre,
                *seal,
                *pre_hash,
                spec_owned(post),
                spec_owned(next),
            ) == Ok::<EpochView, Error>(after@),
            Err(e) => spec_apply_block(
                epoch@,
                *pre,
                *seal,
                *pre_hash,
                spec_owned(post),
                spec_owned(next),
            ) == Err::<EpochView, Error>(e),
        },
{
    match check_claim(&epoch, pre, seal, pre_hash) {
        Err(e) => Err(e),
        Ok(_) => Ok(next_epoch(epoch, post, next)),
    }
}

/// What taking the seal off a header gives: the signature of the last
/// digest item, `HeaderUnsealed` where the log is empty, `InvalidSeal` where
/// the last item is no seal of this engine.
pub open spec fn spec_pop_seal(
    hash: BlockHash,
    logs: Seq<DigestItem>,
) -> Result<SealSignature, Error> {
    if logs.len() == 0 {
        Err(Error::HeaderUnsealed(hash))
    } else {
        match spec_as_sassafras_seal(logs.last()) {
            None => Err(Error::InvalidSeal),
            Some(signature) => Ok(signature),
        }
    }
}

/// Takes the last digest item off a header and reads it as the seal.
///
/// The item is removed whether it is a seal or not. It is returned together
/// with its signature.
pub fn pop_seal(header: &mut Header) -> (res: Result<(DigestItem, SealSignature), Error>)
    ensures
        match res {
            Ok((item, signature)) => spec_pop_seal(old(header).hash, old(header).digest@) == Ok::<
                SealSignature,
                Error,
            >(signature) && item == old(header).digest@.last(),
            Err(e) => spec_pop_seal(old(header).hash, old(header).digest@) == Err::<
                SealSignature,
                Error,
            >(e),
        },
        final(header).hash == old(header).hash,
        final(header).parent_hash == old(header).parent_hash,
        old(header).digest@.len() > 0 ==> final(header).digest@ == old(header).digest@.drop_last(),
        old(header).digest@.len() == 0 ==> final(header).digest@ == old(header).digest@,
{
    let seal = match header.digest.pop() {
        Some(seal) => seal,
        None => { return Err(Error::HeaderUnsealed(header.hash)); },
    };
    match as_sassafras_seal(&seal) {
        Some(signature) => Ok((seal, signature)),
        None => Err(Error::InvalidSeal),
    }
}

/// The slot of the local clock: `Runtime` where no inherent data could be
/// created, `Extraction` where a required inherent is missing.
pub open spec fn spec_slot_now(
    clock_drift: Option<ClockDrift>,
    inherents: Result<InherentData, String>,
) -> Result<Slot, Error> {
    match inherents {
        Err(message) => Err(Error::Runtime(message)),
        Ok(data) => match spec_extract_timestamp_and_slot(clock_drift, data) {
            Err(e) => Err(Error::Extraction(e)),
            Ok((_, slot, _)) => Ok(slot),
        },
    }
}

/// The outcome of a look-up of the parent's record, as a mathematical
/// value.
pub open spec fn spec_parent_view(
    parent: Result<AuxiliaryRecord, Error>,
) -> Result<AuxiliaryRecordView, Error> {
    match parent {
        Ok(record) => Ok(record@),
        Err(e) => Err(e),
    }
}

/// The verdict of the verifier on a header, stage by stage: the error of the
/// first stage that fails, or the epoch state after the block.
///
/// 1. The slot of the local clock is read from the inherent data.
/// 2. The pre-digest is looked for.
/// 3. Its slot must not exceed the slot of the clock.
/// 4. The record of the parent must have been found.
/// 5. The last digest item is taken off; it must be a seal of this engine.
/// 6. Post-block descriptor and next-epoch descriptor are looked for among
///    the items that remain.
/// 7. The state machine checks the claim and applies the descriptors.
pub open spec fn spec_verify(
    clock_drift: Option<ClockDrift>,
    header: Header,
    pre_hash: BlockHash,
    inherents: Result<InherentData, String>,
    parent: Result<AuxiliaryRecordView, Error>,
) -> Result<EpochView, Error> {
    let logs = header.digest@;
    match spec_slot_now(clock_drift, inherents) {
        Err(e) => Err(e),
        Ok(slot_now) => match spec_find_pre_digest(logs) {
            Err(e) => Err(e),
            Ok(pre) => if pre.slot > slot_now {
                Err(Error::SlotInFuture)
            } else {
                match parent {
                    Err(e) => Err(e),
                    Ok(record) => match spec_pop_seal(header.hash, logs) {
                        Err(e) => Err(e),
                        Ok(seal) => match spec_find_post_block_descriptor(logs.drop_last()) {
                            Err(e) => Err(e),
                            Ok(post) => match spec_find_next_epoch_descriptor(logs.drop_last()) {
                                Err(e) => Err(e),
                                Ok(next) => spec_apply_block(
                                    record.epoch_state,
                                    pre,
                                    seal,
                                    pre_hash,
                                    post,
                                    next,
                                ),
                            },
                        },
                    },
                }
            },
        },
    }
}

/// A seal is no descriptor: a log that ends in a seal holds the descriptors
/// of the log without it.
pub proof fn lemma_seal_is_no_descriptor(logs: Seq<DigestItem>)
    requires
        logs.len() > 0,
        logs.last() is Seal,
    ensures
        spec_find_post_block_descriptor(logs.drop_last()) == spec_find_post_block_descriptor(logs),
        spec_find_next_epoch_descriptor(logs.drop_last()) == spec_find_next_epoch_descriptor(logs),
{
}

/// The machine can hold what a header asks of an epoch: where the header
/// announces the next epoch, the counters of that epoch are numbers of 64
/// bits, and the lists of the epoch state after the block are short enough
/// to be encoded.
pub open spec fn spec_within_limits(epoch: EpochView, logs: Seq<DigestItem>) -> bool {
    match (spec_find_post_block_descriptor(logs), spec_find_next_epoch_descriptor(logs)) {
        (Ok(post), Ok(next)) => {
            &&& next is Some ==> epoch.can_increment()
            &&& spec_next_epoch(epoch, post, next).encodable()
        },
        _ => true,
    }
}

/// Whether the machine can hold what a header asks of an epoch.
pub fn within_limits(epoch: &Epoch, header: &Header) -> (ok: bool)
    ensures
        ok == spec_within_limits(epoch@, header.digest@),
{
    let post = match find_post_block_descriptor(header) {
        Ok(post) => post,
        Err(_) => { return true; },
    };
    let next = match find_next_epoch_descriptor(header) {
        Ok(next) => next,
        Err(_) => { return true; },
    };
    let limit: usize = u32::MAX as usize;
    let committed_fit = epoch.publishing.proofs.len() <= limit && match post {
        Some(descriptor) => descriptor.commitments.len() <= limit
            - epoch.publishing.proofs.len(),
        None => true,
    };
    match next {
        Some(descriptor) => {
            epoch.epoch_index < u64::MAX && epoch.start_slot <= u64::MAX - epoch.duration
                && committed_fit && epoch.publishing.authorities.len() <= limit
                && descriptor.authorities.len() <= limit
        },
        None => {
            committed_fit && epoch.publishing.authorities.len() <= limit
                && epoch.validating.proofs.len() <= limit && epoch.validating.authorities.len()
                <= limit
        },
    }
}

/// The verifier of incoming blocks. It holds the source of the current
/// slot and nothing else between two calls.
#[derive(Debug)]
pub struct SassafrasVerifier {
    /// Source of the current slot.
    pub time_source: TimeSource,
}

impl SassafrasVerifier {
    /// A verifier on a time source.
    pub fn new(time_source: TimeSource) -> (res: SassafrasVerifier)
        ensures
            res.time_source == time_source,
    {
        SassafrasVerifier { time_source }
    }

    /// Verifies a block and prepares its import.
    ///
    /// `header` is the header as it arrived, `pre_hash` the hash of the
    /// header without its last digest item. `inherents` is the inherent data
    /// of the moment, or the reason why none could be created; `parent` is
    /// the record stored for the parent, or the reason why there is none.
    ///
    /// The verdict is that of [`spec_verify`]. On success the parameters of
    /// the import carry the epoch state after the block; no cache entry is
    /// produced. Reading the clock consumes the drift of the time source.
    ///
    /// Where the record of the parent was found, the header must ask
    /// nothing of its epoch that the machine cannot hold.
    pub fn verify<X>(
        &mut self,
        origin: BlockOrigin,
        header: Header,
        pre_hash: BlockHash,
        justification: Option<Justification>,
        body: Option<Vec<X>>,
        inherents: Result<InherentData, String>,
        parent: Result<AuxiliaryRecord, Error>,
    ) -> (res: Result<(BlockImportParams<X>, Option<Vec<(CacheKeyId, Vec<u8>)>>), Error>)
        requires
            parent matches Ok(record) ==> spec_within_limits(
                record@.epoch_state,
                header.digest@,
            ),
        ensures
            match res {
                Ok((params, cache)) => {
                    &&& spec_verify(
                        old(self).time_source.clock_drift,
                        header,
                        pre_hash,
                        inherents,
                        spec_parent_view(parent),
                    ) matches Ok(epoch)
                    &&& spec_verified_params(
                        params,
                        origin,
                        header,
                        pre_hash,
                        justification,
                        body,
                        epoch,
                    )
                    &&& cache is None
                },
                Err(e) => spec_verify(
                    old(self).time_source.clock_drift,
                    header,
                    pre_hash,
                    inherents,
                    spec_parent_view(parent),
                ) == Err::<EpochView, Error>(e),
            },
            spec_slot_now(old(self).time_source.clock_drift, inherents) is Ok
                ==> final(self).time_source.clock_drift is None,
            spec_slot_now(old(self).time_source.clock_drift, inherents) is Err
                ==> final(self).time_source.clock_drift == old(self).time_source.clock_drift,
            final(self).time_source.samples == old(self).time_source.samples,
    {
        let inherent_data = match inherents {
            Ok(data) => data,
            Err(message) => { return Err(Error::Runtime(message)); },
        };
        let slot_now = match self.time_source.extract_timestamp_and_slot(&inherent_data) {
            Ok((_, slot_now, _)) => slot_now,
            Err(e) => { return Err(Error::Extraction(e)); },
        };
        let pre_digest = match find_pre_digest(&header) {
            Ok(pre_digest) => pre_digest,
            Err(e) => { return Err(e); },
        };
        if pre_digest.slot > slot_now {
            return Err(Error::SlotInFuture);
        }
        let record = match parent {
            Ok(record) => record,
            Err(e) => { return Err(e); },
        };
        let mut unsealed = header;
        let post_hash = unsealed.hash;
        let (seal, signature) = match pop_seal(&mut unsealed) {
            Ok(popped) => popped,
            Err(e) => { return Err(e); },
        };
        proof {
            lemma_seal_is_no_descriptor(header.digest@);
        }
        let post = match find_post_block_descriptor(&unsealed) {
            Ok(post) => post,
            Err(e) => { return Err(e); },
        };
        let next = match find_next_epoch_descriptor(&unsealed) {
            Ok(next) => next,
            Err(e) => { return Err(e); },
        };
        let epoch = match apply_block(
            record.epoch_state,
            &pre_digest,
            &signature,
            &pre_hash,
            post,
            next,
        ) {
            Ok(epoch) => epoch,
            Err(e) => { return Err(e); },
        };
        let encoded = encode_epoch(&epoch);
        unsealed.hash = pre_hash;
        let mut post_digests: Vec<DigestItem> = Vec::new();
        post_digests.push(seal);
        let mut auxiliary: Vec<(Vec<u8>, Option<Vec<u8>>)> = Vec::new();
        auxiliary.push((engine_key(), Some(encoded)));
        let block_import_params = BlockImportParams {
            origin,
            header: unsealed,
            post_hash,
            justification,
            post_digests,
            body,
            finalized: false,
            auxiliary,
            fork_choice: ForkChoiceStrategy::LongestChain,
            allow_missing_state: false,
            import_existing: false,
        };
        Ok((block_import_params, None))
    }
}

/// A block moves the epoch index by at most one: an accepted block leaves
/// the index of its parent's epoch as it is, unless it announces the next
/// epoch, and then the index grows by one.
pub proof fn lemma_epoch_index_steps(
    epoch: EpochView,
    pre: PreDigest,
    seal: SealSignature,
    pre_hash: BlockHash,
    post: Option<PostBlockDescriptor>,
    next: Option<NextEpochDescriptor>,
)
    requires
        spec_apply_block(epoch, pre, seal, pre_hash, post, next) is Ok,
        next is Some ==> epoch.can_increment(),
    ensures
        next is None ==> spec_apply_block(epoch, pre, seal, pre_hash, post, next)->Ok_0.epoch_index
            == epoch.epoch_index,
        next is Some ==> spec_apply_block(epoch, pre, seal, pre_hash, post, next)->Ok_0.epoch_index
            == epoch.epoch_index + 1,
{
}

/// An accepted block was sealed by the author that it names: the author is
/// an authority of the set under which the block was verified, and the seal
/// is that authority's signature on the hash of the unsealed header. Unless
/// the block announces the next epoch, the same authority stands at the same
/// index of the validating set after the block.
pub proof fn lemma_accepted_seal_verifies(
    epoch: EpochView,
    pre: PreDigest,
    seal: SealSignature,
    pre_hash: BlockHash,
    post: Option<PostBlockDescriptor>,
    next: Option<NextEpochDescriptor>,
)
    requires
        spec_apply_block(epoch, pre, seal, pre_hash, post, next) is Ok,
    ensures
        pre.authority_index < epoch.validating.authorities.len(),
        spec_seal_signature_valid(
            seal@,
            pre_hash@,
            epoch.validating.authorities[pre.authority_index as int].0@,
        ),
        next is None ==> spec_seal_signature_valid(
            seal@,
            pre_hash@,
            spec_apply_block(
                epoch,
                pre,
                seal,
                pre_hash,
                post,
                next,
            )->Ok_0.validating.authorities[pre.authority_index as int].0@,
        ),
{
}

/// An accepted block holds a ticket of the validating set, and both of its
/// VRF outputs verify for its author.
pub proof fn lemma_accepted_vrfs_verify(
    epoch: EpochView,
    pre: PreDigest,
    seal: SealSignature,
    pre_hash: BlockHash,
    post: Option<PostBlockDescriptor>,
    next: Option<NextEpochDescriptor>,
)
    requires
        spec_apply_block(epoch, pre, seal, pre_hash, post, next) is Ok,
    ensures
        pre.ticket_vrf_index < epoch.validating.proofs.len(),
        spec_ticket_ok(epoch, pre),
        spec_post_ok(epoch, pre),
{
}

/// A block that only commits tickets leaves everything but the proofs of
/// the publishing set as it was, and those grow by its commitments, in
/// order.
pub proof fn lemma_commitments_are_appended(epoch: EpochView, descriptor: PostBlockDescriptor)
    ensures
        spec_next_epoch(epoch, Some(descriptor), None).publishing.proofs
            == epoch.publishing.proofs + descriptor.commitments@,
        spec_next_epoch(epoch, Some(descriptor), None).publishing.proofs.len()
            == epoch.publishing.proofs.len() + descriptor.commitments@.len(),
        spec_next_epoch(epoch, Some(descriptor), None).publishing.authorities
            == epoch.publishing.authorities,
        spec_next_epoch(epoch, Some(descriptor), None).publishing.randomness
            == epoch.publishing.randomness,
        spec_next_epoch(epoch, Some(descriptor), None).validating == epoch.validating,
        spec_next_epoch(epoch, Some(descriptor), None).epoch_index == epoch.epoch_index,
        spec_next_epoch(epoch, Some(descriptor), None).start_slot == epoch.start_slot,
        spec_next_epoch(epoch, Some(descriptor), None).duration == epoch.duration,
        spec_next_epoch(epoch, None, None) == epoch,
{
}

/// When a block leaves a well-formed epoch behind. Commitments never harm
/// an epoch. An announcement keeps the epoch well formed if the epoch after
/// the next still ends at a slot number, and it keeps both sets able to sign
/// if it names an authority.
pub proof fn lemma_next_epoch_well_formed(
    epoch: EpochView,
    post: Option<PostBlockDescriptor>,
    next: Option<NextEpochDescriptor>,
)
    requires
        epoch.wf(),
        next is Some ==> epoch.epoch_index < u64::MAX && epoch.start_slot + 2 * epoch.duration
            <= u64::MAX,
    ensures
        spec_next_epoch(epoch, post, next).wf(),
        spec_next_epoch(epoch, post, next).duration == epoch.duration,
        epoch.wf_sets() && (next matches Some(descriptor) ==> descriptor.authorities@.len() > 0)
            ==> spec_next_epoch(epoch, post, next).wf_sets(),
{
}

/// No accepted block lies in the future: its slot does not exceed the slot
/// of the local clock.
pub proof fn lemma_verified_slot_not_in_future(
    clock_drift: Option<ClockDrift>,
    header: Header,
    pre_hash: BlockHash,
    inherents: Result<InherentData, String>,
    parent: Result<AuxiliaryRecordView, Error>,
)
    requires
        spec_verify(clock_drift, header, pre_hash, inherents, parent) is Ok,
    ensures
        spec_slot_now(clock_drift, inherents) is Ok,
        spec_find_pre_digest(header.digest@) is Ok,
        spec_find_pre_digest(header.digest@)->Ok_0.slot <= spec_slot_now(
            clock_drift,
            inherents,
        )->Ok_0,
{
}

} // verus!
