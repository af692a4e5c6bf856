//! What the verifier hands to the import of a block.

use vstd::prelude::*;
use crate::aux_schema::AUXILIARY_KEY;
use crate::digest::{DigestItem, Header};
use crate::epoch::EpochView;
use crate::primitives::BlockHash;
use crate::record::spec_encode_epoch;

verus! {

/// Where a block came from.
#[derive(Debug, Clone, Copy, PartialEq, Eq, Structural)]
pub enum BlockOrigin {
    /// The genesis block of the chain.
    Genesis,
    /// Received during the initial synchronisation.
    NetworkInitialSync,
    /// Broadcast by a peer.
    NetworkBroadcast,
    /// Received through consensus.
    ConsensusBroadcast,
    /// Authored by this node.
    Own,
    /// Read from a file.
    File,
}

/// How the import chooses between forks.
#[derive(Debug, Clone, Copy, PartialEq, Eq, Structural)]
pub enum ForkChoiceStrategy {
    /// The longest chain wins.
    LongestChain,
    /// The caller says whether the block becomes the best block.
    Custom(bool),
}

/// Key of an entry of the consensus cache.
pub type CacheKeyId = [u8; 4];

/// A justification of finality, as opaque bytes.
pub type Justification = Vec<u8>;

/// Everything that the import of a verified block needs.
#[derive(Debug, Clone, PartialEq, Eq)]
pub struct BlockImportParams<X> {
    /// Where the block came from.
    pub origin: BlockOrigin,
    /// The header without its seal.
    pub header: Header,
    /// Hash of the header with its seal.
    pub post_hash: BlockHash,
    /// Justification that came with the block.
    pub justification: Option<Justification>,
    /// Digest items to put back behind the header's own: the seal.
    pub post_digests: Vec<DigestItem>,
    /// The extrinsics of the block.
    pub body: Option<Vec<X>>,
    /// Whether the block is final.
    pub finalized: bool,
    /// Entries to write to the auxiliary store together with the block. A
    /// value of `None` deletes the key.
    pub auxiliary: Vec<(Vec<u8>, Option<Vec<u8>>)>,
    /// How the import chooses between forks.
    pub fork_choice: ForkChoiceStrategy,
    /// Whether the block may be imported without the state of its parent.
    pub allow_missing_state: bool,
    /// Whether a block that is already known is imported again.
    pub import_existing: bool,
}

/// The parameters that the verifier produces for a header that it accepted
/// with the epoch state `epoch`: the header without its last item and with
/// the hash `pre_hash`, the seal as the only post-digest, the bytes of the
/// epoch under the key of the engine, the longest chain as fork choice, and
/// nothing final, missing or imported twice.
pub open spec fn spec_verified_params<X>(
    params: BlockImportParams<X>,
    origin: BlockOrigin,
    header: Header,
    pre_hash: BlockHash,
    justification: Option<Justification>,
    body: Option<Vec<X>>,
    epoch: EpochView,
) -> bool {
    &&& params.origin == origin
    &&& params.header.hash == pre_hash
    &&& params.header.parent_hash == header.parent_hash
    &&& params.header.digest@ == header.digest@.drop_last()
    &&& params.post_hash == header.hash
    &&& params.justification == justification
    &&& params.post_digests@ == seq![header.digest@.last()]
    &&& params.body == body
    &&& params.finalized == false
    &&& params.auxiliary@.len() == 1
    &&& params.auxiliary@[0].0@ == AUXILIARY_KEY@
    &&& params.auxiliary@[0].1 matches Some(value) && value@ == spec_encode_epoch(epoch)
    &&& params.fork_choice == ForkChoiceStrategy::LongestChain
    &&& params.allow_missing_state == false
    &&& params.import_existing == false
}

} // verus!
