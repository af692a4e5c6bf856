//! The digest log of a header and the queries that read it.
//!
//! A header may carry at most one pre-runtime digest, at most one post-block
//! descriptor and at most one next-epoch descriptor of this engine. Its last
//! digest item is the seal.

use vstd::prelude::*;
use crate::error::Error;
use crate::primitives::{
    AuthorityId, AuthorityWeight, BlockHash, EngineId, Randomness, SealSignature, Slot, VrfOutput,
    VrfProof, SASSAFRAS_ENGINE_ID,
};

verus! {

/// The claim that the author of a block makes on a slot.
#[derive(Debug, Clone, Copy, PartialEq, Eq)]
pub struct PreDigest {
    /// Index of the author among the authorities of the validating set.
    pub authority_index: u32,
    /// The slot that the block claims.
    pub slot: Slot,
    /// Index of the ticket among the proofs of the validating set.
    pub ticket_vrf_index: u32,
    /// VRF output of the ticket.
    pub ticket_vrf_output: VrfOutput,
    /// VRF output that the block adds to the randomness.
    pub post_vrf_output: VrfOutput,
    /// Proof of `post_vrf_output`.
    pub post_vrf_proof: VrfProof,
}

/// Ticket commitments that a block publishes for the next epoch.
#[derive(Debug, Clone, PartialEq, Eq)]
pub struct PostBlockDescriptor {
    /// The proofs, in the order in which they are admitted.
    pub commitments: Vec<VrfProof>,
}

/// Announces the end of an epoch and the set that follows the next one.
#[derive(Debug, Clone, PartialEq, Eq)]
pub struct NextEpochDescriptor {
    /// The authorities of the announced set.
    pub authorities: Vec<(AuthorityId, AuthorityWeight)>,
    /// The randomness of the announced set.
    pub randomness: Randomness,
}

/// One item of a header's digest log, as far as this engine reads it.
#[derive(Debug, Clone, PartialEq, Eq)]
pub enum DigestItem {
    /// A pre-runtime digest of this engine.
    PreDigest(PreDigest),
    /// A consensus message of this engine that commits tickets.
    PostBlockDescriptor(PostBlockDescriptor),
    /// A consensus message of this engine that announces the next epoch.
    NextEpochDescriptor(NextEpochDescriptor),
    /// A seal, with the engine that made it.
    Seal(EngineId, SealSignature),
    /// Any other item.
    Other,
}

/// What the verifier reads of a header.
#[derive(Debug, Clone, PartialEq, Eq)]
pub struct Header {
    /// Hash of the header as it stands, with every digest item.
    pub hash: BlockHash,
    /// Hash of the parent header.
    pub parent_hash: BlockHash,
    /// The digest log, in order.
    pub digest: Vec<DigestItem>,
}

/// The value behind an optional reference.
pub open spec fn spec_owned<T>(borrowed: Option<&T>) -> Option<T> {
    match borrowed {
        Some(value) => Some(*value),
        None => None,
    }
}

/// The pre-runtime digests of a log, in order.
pub open spec fn pre_digests(logs: Seq<DigestItem>) -> Seq<PreDigest> {
    logs.filter_map(
        |item: DigestItem|
            match item {
                DigestItem::PreDigest(pre) => Some(pre),
                _ => None,
            },
    )
}

/// The post-block descriptors of a log, in order.
pub open spec fn post_block_descriptors(logs: Seq<DigestItem>) -> Seq<PostBlockDescriptor> {
    logs.filter_map(
        |item: DigestItem|
            match item {
                DigestItem::PostBlockDescriptor(desc) => Some(desc),
                _ => None,
            },
    )
}

/// The next-epoch descriptors of a log, in order.
pub open spec fn next_epoch_descriptors(logs: Seq<DigestItem>) -> Seq<NextEpochDescriptor> {
    logs.filter_map(
        |item: DigestItem|
            match item {
                DigestItem::NextEpochDescriptor(desc) => Some(desc),
                _ => None,
            },
    )
}

/// The pre-runtime digest of a log: the only one, or the reason why there is
/// none to take.
pub open spec fn spec_find_pre_digest(logs: Seq<DigestItem>) -> Result<PreDigest, Error> {
    let found = pre_digests(logs);
    if found.len() == 0 {
        Err(Error::NoPreRuntimeDigest)
    } else if found.len() == 1 {
        Ok(found[0])
    } else {
        Err(Error::MultiplePreRuntimeDigest)
    }
}

/// The post-block descriptor of a log: none, the only one, or an error where
/// there are several.
pub open spec fn spec_find_post_block_descriptor(
    logs: Seq<DigestItem>,
) -> Result<Option<PostBlockDescriptor>, Error> {
    let found = post_block_descriptors(logs);
    if found.len() == 0 {
        Ok(None)
    } else if found.len() == 1 {
        Ok(Some(found[0]))
    } else {
        Err(Error::MultiplePostBlockDescriptor)
    }
}

/// The next-epoch descriptor of a log: none, the only one, or an error where
/// there are several.
pub open spec fn spec_find_next_epoch_descriptor(
    logs: Seq<DigestItem>,
) -> Result<Option<NextEpochDescriptor>, Error> {
    let found = next_epoch_descriptors(logs);
    if found.len() == 0 {
        Ok(None)
    } else if found.len() == 1 {
        Ok(Some(found[0]))
    } else {
        Err(Error::MultipleNextEpochDescriptor)
    }
}

/// A longer prefix of a log selects at least as many items.
pub proof fn lemma_filter_map_prefix_len<A, B>(logs: Seq<A>, f: spec_fn(A) -> Option<B>, k: int)
    requires
        0 <= k <= logs.len(),
    ensures
        logs.take(k).filter_map(f).len() <= logs.filter_map(f).len(),
    decreases logs.len() - k,
{
    if k == logs.len() {
        assert(logs.take(k) =~= logs);
    } else {
        logs.lemma_filter_map_take_succ(f, k);
        lemma_filter_map_prefix_len(logs, f, k + 1);
    }
}

/// A seal is no pre-runtime digest: a log that ends in a seal holds the
/// pre-runtime digests of the log without it.
pub proof fn lemma_seal_is_no_pre_digest(logs: Seq<DigestItem>)
    requires
        logs.len() > 0,
        logs.last() is Seal,
    ensures
        spec_find_pre_digest(logs.drop_last()) == spec_find_pre_digest(logs),
{
}

/// Scans the digest log for the pre-runtime digest of this engine.
///
/// The first occurrence is taken; a second one is an error, and so is a log
/// without any.
pub fn find_pre_digest(header: &Header) -> (res: Result<PreDigest, Error>)
    ensures
        res == spec_find_pre_digest(header.digest@),
{
    let ghost pick = |item: DigestItem|
        match item {
            DigestItem::PreDigest(pre) => Some(pre),
            _ => None,
        };
    let mut pre_digest: Option<PreDigest> = None;
    let mut i: usize = 0;
    while i < header.digest.len()
        invariant
            i <= header.digest.len(),
            pick == (|item: DigestItem|
                match item {
                    DigestItem::PreDigest(pre) => Some(pre),
                    _ => None,
                }),
            header.digest@.take(i as int).filter_map(pick) == (match pre_digest {
                Some(pre) => seq![pre],
                None => Seq::empty(),
            }),
        decreases header.digest.len() - i,
    {
        proof {
            header.digest@.lemma_filter_map_take_succ(pick, i as int);
        }
        match &header.digest[i] {
            DigestItem::PreDigest(pre) => {
                if pre_digest.is_some() {
                    proof {
                        lemma_filter_map_prefix_len(header.digest@, pick, i + 1);
                    }
                    return Err(Error::MultiplePreRuntimeDigest);
                }
                pre_digest = Some(*pre);
            },
            _ => {},
        }
        i += 1;
    }
    proof {
        assert(header.digest@.take(i as int) =~= header.digest@);
    }
    match pre_digest {
        Some(pre) => Ok(pre),
        None => Err(Error::NoPreRuntimeDigest),
    }
}

/// Scans the digest log for a post-block descriptor.
///
/// The first occurrence is taken; a second one is an error. A log without
/// any is in order.
pub fn find_post_block_descriptor(
    header: &Header,
) -> (res: Result<Option<&PostBlockDescriptor>, Error>)
    ensures
        match res {
            Ok(found) => spec_find_post_block_descriptor(header.digest@) == Ok::<
                Option<PostBlockDescriptor>,
                Error,
            >(spec_owned(found)),
            Err(e) => spec_find_post_block_descriptor(header.digest@) == Err::<
                Option<PostBlockDescriptor>,
                Error,
            >(e),
        },
{
    let ghost pick = |item: DigestItem|
        match item {
            DigestItem::PostBlockDescriptor(desc) => Some(desc),
            _ => None,
        };
    let mut found: Option<&PostBlockDescriptor> = None;
    let mut i: usize = 0;
    while i < header.digest.len()
        invariant
            i <= header.digest.len(),
            pick == (|item: DigestItem|
                match item {
                    DigestItem::PostBlockDescriptor(desc) => Some(desc),
                    _ => None,
                }),
            header.digest@.take(i as int).filter_map(pick) == (match found {
                Some(desc) => seq![*desc],
                None => Seq::empty(),
            }),
        decreases header.digest.len() - i,
    {
        proof {
            header.digest@.lemma_filter_map_take_succ(pick, i as int);
        }
        match &header.digest[i] {
            DigestItem::PostBlockDescriptor(desc) => {
                if found.is_some() {
                    proof {
                        lemma_filter_map_prefix_len(header.digest@, pick, i + 1);
                    }
                    return Err(Error::MultiplePostBlockDescriptor);
                }
                found = Some(desc);
            },
            _ => {},
        }
        i += 1;
    }
    proof {
        assert(header.digest@.take(i as int) =~= header.digest@);
    }
    Ok(found)
}

/// Scans the digest log for a next-epoch descriptor.
///
/// The first occurrence is taken; a second one is an error. A log without
/// any is in order.
pub fn find_next_epoch_descriptor(
    header: &Header,
) -> (res: Result<Option<&NextEpochDescriptor>, Error>)
    ensures
        match res {
            Ok(found) => spec_find_next_epoch_descriptor(header.digest@) == Ok::<
                Option<NextEpochDescriptor>,
                Error,
            >(spec_owned(found)),
            Err(e) => spec_find_next_epoch_descriptor(header.digest@) == Err::<
                Option<NextEpochDescriptor>,
                Error,
            >(e),
        },
{
    let ghost pick = |item: DigestItem|
        match item {
            DigestItem::NextEpochDescriptor(desc) => Some(desc),
            _ => None,
        };
    let mut found: Option<&NextEpochDescriptor> = None;
    let mut i: usize = 0;
    while i < header.digest.len()
        invariant
            i <= header.digest.len(),
            pick == (|item: DigestItem|
                match item {
                    DigestItem::NextEpochDescriptor(desc) => Some(desc),
                    _ => None,
                }),
            header.digest@.take(i as int).filter_map(pick) == (match found {
                Some(desc) => seq![*desc],
                None => Seq::empty(),
            }),
        decreases header.digest.len() - i,
    {
        proof {
            header.digest@.lemma_filter_map_take_succ(pick, i as int);
        }
        match &header.digest[i] {
            DigestItem::NextEpochDescriptor(desc) => {
                if found.is_some() {
                    proof {
                        lemma_filter_map_prefix_len(header.digest@, pick, i + 1);
                    }
                    return Err(Error::MultipleNextEpochDescriptor);
                }
                found = Some(desc);
            },
            _ => {},
        }
        i += 1;
    }
    proof {
        assert(header.digest@.take(i as int) =~= header.digest@);
    }
    Ok(found)
}

/// Whether an engine tag is the tag of this protocol.
pub fn is_sassafras_engine(engine: &EngineId) -> (res: bool)
    ensures
        res == (*engine == SASSAFRAS_ENGINE_ID),
{
    let same = engine[0] == SASSAFRAS_ENGINE_ID[0] && engine[1] == SASSAFRAS_ENGINE_ID[1]
        && engine[2] == SASSAFRAS_ENGINE_ID[2] && engine[3] == SASSAFRAS_ENGINE_ID[3];
    proof {
        if same {
            assert(*engine =~= SASSAFRAS_ENGINE_ID);
        }
    }
    same
}

/// The signature of a digest item that is a seal of this engine.
pub open spec fn spec_as_sassafras_seal(item: DigestItem) -> Option<SealSignature> {
    match item {
        DigestItem::Seal(engine, signature) => if engine == SASSAFRAS_ENGINE_ID {
            Some(signature)
        } else {
            None
        },
        _ => None,
    }
}

/// Reads a digest item as a seal of this engine.
pub fn as_sassafras_seal(item: &DigestItem) -> (res: Option<SealSignature>)
    ensures
        res == spec_as_sassafras_seal(*item),
{
    match item {
        DigestItem::Seal(engine, signature) => {
            if is_sassafras_engine(engine) {
                Some(*signature)
            } else {
                None
            }
        },
        _ => None,
    }
}

} // verus!
