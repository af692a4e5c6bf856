//! Keys and values of the auxiliary store.
//!
//! The store itself belongs to the chain database. Here are the rules of
//! what is kept in it: under which key the record of a block stands, and how
//! the bytes found under the key of a parent are read.

use vstd::prelude::*;
use crate::error::Error;
use crate::primitives::BlockHash;
use crate::record::{
    decode_record, encode_record, lemma_record_round_trip, spec_decode_record, spec_encode_record,
    AuxiliaryRecord, AuxiliaryRecordView,
};

verus! {

/// The fixed key of the engine in the auxiliary store:
/// `sassafras_auxiliary` in ASCII. The record of a block stands under this
/// key followed by the hash of the block.
pub const AUXILIARY_KEY: [u8; 19] = [
    0x73, 0x61, 0x73, 0x73, 0x61, 0x66, 0x72, 0x61, 0x73, 0x5f, 0x61, 0x75, 0x78, 0x69, 0x6c, 0x69,
    0x61, 0x72, 0x79,
];

/// The key under which the record of a block stands.
pub open spec fn spec_auxiliary_key(hash: BlockHash) -> Seq<u8> {
    AUXILIARY_KEY@ + hash@
}

/// What a look-up of the parent's record gives: the record that the stored
/// bytes hold, or `ParentUnavailable` where nothing is stored or the bytes
/// hold no record.
pub open spec fn spec_load_auxiliary(
    parent_hash: BlockHash,
    hash: BlockHash,
    stored: Option<Seq<u8>>,
) -> Result<AuxiliaryRecordView, Error> {
    match stored {
        None => Err(Error::ParentUnavailable(parent_hash, hash)),
        Some(bytes) => match spec_decode_record(bytes) {
            None => Err(Error::ParentUnavailable(parent_hash, hash)),
            Some(record) => Ok(record),
        },
    }
}

/// The fixed key of the engine, under which the verifier hands the epoch
/// state of a block to the import.
pub fn engine_key() -> (key: Vec<u8>)
    ensures
        key@ == AUXILIARY_KEY@,
{
    let mut key: Vec<u8> = Vec::new();
    let mut i: usize = 0;
    while i < 19
        invariant
            i <= 19,
            key@ == AUXILIARY_KEY@.take(i as int),
        decreases 19 - i,
    {
        key.push(AUXILIARY_KEY[i]);
        i += 1;
    }
    proof {
        assert(AUXILIARY_KEY@.take(19) =~= AUXILIARY_KEY@);
    }
    key
}

/// The key under which the record of a block stands.
pub fn auxiliary_key(hash: &BlockHash) -> (key: Vec<u8>)
    ensures
        key@ == spec_auxiliary_key(*hash),
{
    let mut key = engine_key();
    let mut j: usize = 0;
    while j < 32
        invariant
            j <= 32,
            key@ == AUXILIARY_KEY@ + hash@.take(j as int),
        decreases 32 - j,
    {
        key.push(hash[j]);
        j += 1;
    }
    proof {
        assert(hash@.take(32) =~= hash@);
    }
    key
}

/// Reads the record of the parent of a block from what the store holds
/// under the parent's key.
///
/// `stored` is `None` where the store holds nothing under that key.
pub fn load_auxiliary(
    parent_hash: &BlockHash,
    hash: &BlockHash,
    stored: Option<&[u8]>,
) -> (res: Result<AuxiliaryRecord, Error>)
    ensures
        match res {
            Ok(record) => stored is Some && spec_load_auxiliary(
                *parent_hash,
                *hash,
                Some(stored->0@),
            ) == Ok::<AuxiliaryRecordView, Error>(record@) && record@.epoch_state.encodable(),
            Err(e) => spec_load_auxiliary(
                *parent_hash,
                *hash,
                match stored {
                    Some(bytes) => Some(bytes@),
                    None => None,
                },
            ) == Err::<AuxiliaryRecordView, Error>(e),
        },
{
    match stored {
        None => Err(Error::ParentUnavailable(*parent_hash, *hash)),
        Some(bytes) => match decode_record(bytes) {
            None => Err(Error::ParentUnavailable(*parent_hash, *hash)),
            Some(record) => Ok(record),
        },
    }
}

/// The entry that stores the record of a block: its key and its bytes.
///
/// Neither list of either set of the epoch may hold more than `u32::MAX`
/// items: the format has no length for more.
pub fn write_auxiliary(hash: &BlockHash, record: &AuxiliaryRecord) -> (entry: (Vec<u8>, Vec<u8>))
    requires
        record@.epoch_state.encodable(),
    ensures
        entry.0@ == spec_auxiliary_key(*hash),
        entry.1@ == spec_encode_record(record@),
{
    (auxiliary_key(hash), encode_record(record))
}

/// What is written for a block is what its children load: the bytes of a
/// record, read as the record of a parent, give that record.
pub proof fn lemma_written_record_loads(
    record: AuxiliaryRecordView,
    parent_hash: BlockHash,
    hash: BlockHash,
)
    requires
        record.epoch_state.encodable(),
    ensures
        spec_load_auxiliary(parent_hash, hash, Some(spec_encode_record(record))) == Ok::<
            AuxiliaryRecordView,
            Error,
        >(record),
{
    lemma_record_round_trip(record);
}

/// Blocks with different hashes have different keys.
pub proof fn lemma_keys_differ(first: BlockHash, second: BlockHash)
    requires
        first != second,
    ensures
        spec_auxiliary_key(first) != spec_auxiliary_key(second),
{
    if spec_auxiliary_key(first) == spec_auxiliary_key(second) {
        assert forall|i: int| 0 <= i < 32 implies first[i] == second[i] by {
            assert(spec_auxiliary_key(first)[19 + i] == first@[i]);
            assert(spec_auxiliary_key(second)[19 + i] == second@[i]);
        }
        assert(first =~= second);
    }
}

} // verus!
