//! The record that is stored for every imported block, and its bytes.
//!
//! A record is written in the SCALE format: integers of 64 bits as eight
//! bytes, least significant first; a list as the compact form of its length
//! followed by its items; keys, proofs and randomness as they are. The
//! fields follow each other in the order of their declaration.

use vstd::prelude::*;
use vstd::bytes::{spec_u64_from_le_bytes, spec_u64_to_le_bytes};
use vstd::slice::slice_subrange;
use crate::epoch::{Epoch, EpochView, ValidatorSet, ValidatorSetView};
use crate::primitives::{AuthorityId, AuthorityWeight, Slot, VrfProof};
use crate::scale::{
    decode_compact_u32, decode_u64, encode_compact_u32, encode_u64, lemma_compact_decoded_is_prefix,
    lemma_compact_len, lemma_compact_round_trip, lemma_u64_round_trip, spec_compact_len,
    spec_compact_u32, spec_decode_compact_u32, spec_decode_u64, COMPACT_FOUR_BYTE_MAX,
    COMPACT_ONE_BYTE_MAX, COMPACT_TWO_BYTE_MAX,
};

verus! {

/// What is stored under the hash of a block: the epoch state that the block
/// leaves behind, and the slot that it claimed.
#[derive(Debug, Clone, PartialEq, Eq)]
pub struct AuxiliaryRecord {
    /// Epoch state after the block.
    pub epoch_state: Epoch,
    /// Slot of the block.
    pub last_slot: Slot,
}

/// A record as a mathematical value.
pub struct AuxiliaryRecordView {
    pub epoch_state: EpochView,
    pub last_slot: Slot,
}

impl View for AuxiliaryRecord {
    type V = AuxiliaryRecordView;

    open spec fn view(&self) -> AuxiliaryRecordView {
        AuxiliaryRecordView { epoch_state: self.epoch_state@, last_slot: self.last_slot }
    }
}

/// Number of bytes of a proof.
pub const PROOF_BYTES: usize = 64;

/// Number of bytes of a key.
pub const KEY_BYTES: usize = 32;

/// Number of bytes of an authority: its key and its weight.
pub const AUTHORITY_BYTES: usize = 40;

/// The bytes of an authority: the key, then the weight.
pub open spec fn spec_encode_authority(authority: (AuthorityId, AuthorityWeight)) -> Seq<u8> {
    authority.0@ + spec_u64_to_le_bytes(authority.1)
}

/// The bytes of a list of proofs.
pub open spec fn spec_encode_proofs(proofs: Seq<VrfProof>) -> Seq<u8> {
    spec_compact_u32(proofs.len() as u32) + Seq::new(
        64 * proofs.len(),
        |i: int| proofs[i / 64][i % 64],
    )
}

/// The bytes of a list of authorities.
pub open spec fn spec_encode_authorities(
    authorities: Seq<(AuthorityId, AuthorityWeight)>,
) -> Seq<u8> {
    spec_compact_u32(authorities.len() as u32) + Seq::new(
        40 * authorities.len(),
        |i: int| spec_encode_authority(authorities[i / 40])[i % 40],
    )
}

/// The bytes of a validator set: proofs, authorities, randomness.
pub open spec fn spec_encode_validator_set(set: ValidatorSetView) -> Seq<u8> {
    spec_encode_proofs(set.proofs) + spec_encode_authorities(set.authorities) + set.randomness@
}

/// The bytes of an epoch: first slot, duration, index, publishing set,
/// validating set.
pub open spec fn spec_encode_epoch(epoch: EpochView) -> Seq<u8> {
    spec_u64_to_le_bytes(epoch.start_slot) + spec_u64_to_le_bytes(epoch.duration)
        + spec_u64_to_le_bytes(epoch.epoch_index) + spec_encode_validator_set(epoch.publishing)
        + spec_encode_validator_set(epoch.validating)
}

/// The bytes of a record: epoch state, last slot.
pub open spec fn spec_encode_record(record: AuxiliaryRecordView) -> Seq<u8> {
    spec_encode_epoch(record.epoch_state) + spec_u64_to_le_bytes(record.last_slot)
}

impl ValidatorSetView {
    /// The lengths of both lists have a compact form.
    pub open spec fn encodable(self) -> bool {
        &&& self.proofs.len() <= u32::MAX
        &&& self.authorities.len() <= u32::MAX
    }
}

impl EpochView {
    /// Both sets can be encoded.
    pub open spec fn encodable(self) -> bool {
        &&& self.publishing.encodable()
        &&& self.validating.encodable()
    }
}

impl Epoch {
    /// Whether the lists of both sets are short enough to be encoded.
    pub fn is_encodable(&self) -> (res: bool)
        ensures
            res == self@.encodable(),
    {
        let limit: usize = u32::MAX as usize;
        self.publishing.proofs.len() <= limit && self.publishing.authorities.len() <= limit
            && self.validating.proofs.len() <= limit && self.validating.authorities.len() <= limit
    }
}

/// Appends bytes to a buffer.
fn append_bytes(out: &mut Vec<u8>, bytes: &[u8])
    ensures
        final(out)@ == old(out)@ + bytes@,
{
    let mut i: usize = 0;
    while i < bytes.len()
        invariant
            i <= bytes.len(),
            out@ == old(out)@ + bytes@.take(i as int),
        decreases bytes.len() - i,
    {
        out.push(bytes[i]);
        i += 1;
    }
    proof {
        assert(bytes@.take(i as int) =~= bytes@);
    }
}

/// Appends the bytes of a list of proofs.
fn append_proofs(out: &mut Vec<u8>, proofs: &Vec<VrfProof>)
    requires
        proofs.len() <= u32::MAX,
    ensures
        final(out)@ == old(out)@ + spec_encode_proofs(proofs@),
{
    let count = encode_compact_u32(proofs.len() as u32);
    append_bytes(out, count.as_slice());
    let mut k: usize = 0;
    while k < proofs.len()
        invariant
            k <= proofs.len(),
            out@ == old(out)@ + count@ + Seq::new(
                64 * (k as nat),
                |i: int| proofs@[i / 64][i % 64],
            ),
        decreases proofs.len() - k,
    {
        let ghost before = out@;
        append_bytes(out, proofs[k].as_slice());
        proof {
            assert(out@ =~= old(out)@ + count@ + Seq::new(
                64 * ((k + 1) as nat),
                |i: int| proofs@[i / 64][i % 64],
            ));
        }
        k += 1;
    }
    proof {
        assert(out@ =~= old(out)@ + spec_encode_proofs(proofs@));
    }
}

/// Appends the bytes of a list of authorities.
fn append_authorities(out: &mut Vec<u8>, authorities: &Vec<(AuthorityId, AuthorityWeight)>)
    requires
        authorities.len() <= u32::MAX,
    ensures
        final(out)@ == old(out)@ + spec_encode_authorities(authorities@),
{
    let count = encode_compact_u32(authorities.len() as u32);
    append_bytes(out, count.as_slice());
    let mut k: usize = 0;
    while k < authorities.len()
        invariant
            k <= authorities.len(),
            out@ == old(out)@ + count@ + Seq::new(
                40 * (k as nat),
                |i: int| spec_encode_authority(authorities@[i / 40])[i % 40],
            ),
        decreases authorities.len() - k,
    {
        let weight = encode_u64(authorities[k].1);
        proof {
            lemma_u64_round_trip(authorities[k as int].1, Seq::empty());
        }
        append_bytes(out, authorities[k].0.as_slice());
        append_bytes(out, weight.as_slice());
        proof {
            assert(out@ =~= old(out)@ + count@ + Seq::new(
                40 * ((k + 1) as nat),
                |i: int| spec_encode_authority(authorities@[i / 40])[i % 40],
            ));
        }
        k += 1;
    }
    proof {
        assert(out@ =~= old(out)@ + spec_encode_authorities(authorities@));
    }
}

/// Appends the bytes of a validator set.
fn append_validator_set(out: &mut Vec<u8>, set: &ValidatorSet)
    requires
        set@.encodable(),
    ensures
        final(out)@ == old(out)@ + spec_encode_validator_set(set@),
{
    append_proofs(out, &set.proofs);
    append_authorities(out, &set.authorities);
    append_bytes(out, set.randomness.as_slice());
    proof {
        assert(out@ =~= old(out)@ + spec_encode_validator_set(set@));
    }
}

/// Appends the bytes of an epoch.
fn append_epoch(out: &mut Vec<u8>, epoch: &Epoch)
    requires
        epoch@.encodable(),
    ensures
        final(out)@ == old(out)@ + spec_encode_epoch(epoch@),
{
    let start_slot = encode_u64(epoch.start_slot);
    append_bytes(out, start_slot.as_slice());
    let duration = encode_u64(epoch.duration);
    append_bytes(out, duration.as_slice());
    let epoch_index = encode_u64(epoch.epoch_index);
    append_bytes(out, epoch_index.as_slice());
    append_validator_set(out, &epoch.publishing);
    append_validator_set(out, &epoch.validating);
    proof {
        assert(out@ =~= old(out)@ + spec_encode_epoch(epoch@));
    }
}

/// The bytes of an epoch.
///
/// Neither list of either set may hold more than `u32::MAX` items: the
/// format has no length for more.
pub fn encode_epoch(epoch: &Epoch) -> (bytes: Vec<u8>)
    requires
        epoch@.encodable(),
    ensures
        bytes@ == spec_encode_epoch(epoch@),
{
    let mut out: Vec<u8> = Vec::new();
    append_epoch(&mut out, epoch);
    out
}

/// The bytes of a record.
///
/// Neither list of either set may hold more than `u32::MAX` items: the
/// format has no length for more.
pub fn encode_record(record: &AuxiliaryRecord) -> (bytes: Vec<u8>)
    requires
        record@.epoch_state.encodable(),
    ensures
        bytes@ == spec_encode_record(record@),
{
    let mut out: Vec<u8> = Vec::new();
    append_epoch(&mut out, &record.epoch_state);
    let last_slot = encode_u64(record.last_slot);
    append_bytes(&mut out, last_slot.as_slice());
    out
}

/// The key or randomness that has the given 32 bytes.
pub open spec fn spec_array32(bytes: Seq<u8>) -> [u8; 32] {
    choose|array: [u8; 32]| array@ == bytes
}

/// The proof that has the given 64 bytes.
pub open spec fn spec_array64(bytes: Seq<u8>) -> [u8; 64] {
    choose|array: [u8; 64]| array@ == bytes
}

/// The authority that the first 40 bytes of the input encode.
pub open spec fn spec_decode_authority(input: Seq<u8>) -> (AuthorityId, AuthorityWeight) {
    (spec_array32(input.subrange(0, 32)), spec_u64_from_le_bytes(input.subrange(32, 40)))
}

/// The list of proofs that the input starts with, and the number of bytes
/// that it takes.
pub open spec fn spec_decode_proofs(input: Seq<u8>) -> Option<(Seq<VrfProof>, int)> {
    match spec_decode_compact_u32(input) {
        None => None,
        Some(count) => {
            let start = spec_compact_len(count) as int;
            if input.len() < start + 64 * count {
                None
            } else {
                Some(
                    (
                        Seq::new(
                            count as nat,
                            |k: int| spec_array64(input.subrange(start + 64 * k, start + 64 * k + 64)),
                        ),
                        start + 64 * count,
                    ),
                )
            }
        },
    }
}

/// The list of authorities that the input starts with, and the number of
/// bytes that it takes.
pub open spec fn spec_decode_authorities(
    input: Seq<u8>,
) -> Option<(Seq<(AuthorityId, AuthorityWeight)>, int)> {
    match spec_decode_compact_u32(input) {
        None => None,
        Some(count) => {
            let start = spec_compact_len(count) as int;
            if input.len() < start + 40 * count {
                None
            } else {
                Some(
                    (
                        Seq::new(
                            count as nat,
                            |k: int|
                                spec_decode_authority(
                                    input.subrange(start + 40 * k, start + 40 * k + 40),
                                ),
                        ),
                        start + 40 * count,
                    ),
                )
            }
        },
    }
}

/// The validator set that the input starts with, and the number of bytes
/// that it takes.
pub open spec fn spec_decode_validator_set(input: Seq<u8>) -> Option<(ValidatorSetView, int)> {
    match spec_decode_proofs(input) {
        None => None,
        Some((proofs, proofs_len)) => match spec_decode_authorities(input.skip(proofs_len)) {
            None => None,
            Some((authorities, authorities_len)) => {
                let at = proofs_len + authorities_len;
                if input.len() < at + 32 {
                    None
                } else {
                    Some(
                        (
                            ValidatorSetView {
                                proofs,
                                authorities,
                                randomness: spec_array32(input.subrange(at, at + 32)),
                            },
                            at + 32,
                        ),
                    )
                }
            },
        },
    }
}

/// The epoch that the input starts with, and the number of bytes that it
/// takes.
pub open spec fn spec_decode_epoch_prefix(input: Seq<u8>) -> Option<(EpochView, int)> {
    if input.len() < 24 {
        None
    } else {
        match spec_decode_validator_set(input.skip(24)) {
            None => None,
            Some((publishing, publishing_len)) => match spec_decode_validator_set(
                input.skip(24 + publishing_len),
            ) {
                None => None,
                Some((validating, validating_len)) => Some(
                    (
                        EpochView {
                            start_slot: spec_u64_from_le_bytes(input.subrange(0, 8)),
                            duration: spec_u64_from_le_bytes(input.subrange(8, 16)),
                            epoch_index: spec_u64_from_le_bytes(input.subrange(16, 24)),
                            publishing,
                            validating,
                        },
                        24 + publishing_len + validating_len,
                    ),
                ),
            },
        }
    }
}

/// The epoch that the input starts with. What follows it is not read.
pub open spec fn spec_decode_epoch(input: Seq<u8>) -> Option<EpochView> {
    match spec_decode_epoch_prefix(input) {
        None => None,
        Some((epoch, _)) => Some(epoch),
    }
}

/// The record that the input starts with. What follows it is not read.
pub open spec fn spec_decode_record(input: Seq<u8>) -> Option<AuxiliaryRecordView> {
    match spec_decode_epoch_prefix(input) {
        None => None,
        Some((epoch_state, len)) => match spec_decode_u64(input.skip(len)) {
            None => None,
            Some(last_slot) => Some(AuxiliaryRecordView { epoch_state, last_slot }),
        },
    }
}

/// An array is the only one with its bytes.
pub proof fn lemma_array32_of_view(array: [u8; 32])
    ensures
        spec_array32(array@) == array,
{
    let chosen = spec_array32(array@);
    assert(chosen@ == array@);
    assert(chosen =~= array);
}

/// An array is the only one with its bytes.
pub proof fn lemma_array64_of_view(array: [u8; 64])
    ensures
        spec_array64(array@) == array,
{
    let chosen = spec_array64(array@);
    assert(chosen@ == array@);
    assert(chosen =~= array);
}

/// Reads 32 bytes from a position of the input.
fn read_array32(input: &[u8], at: usize) -> (array: [u8; 32])
    requires
        at + 32 <= input.len(),
    ensures
        array@ == input@.subrange(at as int, at + 32),
        array == spec_array32(input@.subrange(at as int, at + 32)),
{
    let mut array = [0u8; 32];
    let mut i: usize = 0;
    while i < 32
        invariant
            i <= 32,
            at + 32 <= input.len(),
            forall|j: int| 0 <= j < i ==> array@[j] == input@[at + j],
        decreases 32 - i,
    {
        array[i] = input[at + i];
        i += 1;
    }
    proof {
        assert(array@ =~= input@.subrange(at as int, at + 32));
        lemma_array32_of_view(array);
    }
    array
}

/// Reads 64 bytes from a position of the input.
fn read_array64(input: &[u8], at: usize) -> (array: [u8; 64])
    requires
        at + 64 <= input.len(),
    ensures
        array@ == input@.subrange(at as int, at + 64),
        array == spec_array64(input@.subrange(at as int, at + 64)),
{
    let mut array = [0u8; 64];
    let mut i: usize = 0;
    while i < 64
        invariant
            i <= 64,
            at + 64 <= input.len(),
            forall|j: int| 0 <= j < i ==> array@[j] == input@[at + j],
        decreases 64 - i,
    {
        array[i] = input[at + i];
        i += 1;
    }
    proof {
        assert(array@ =~= input@.subrange(at as int, at + 64));
        lemma_array64_of_view(array);
    }
    array
}

/// Number of bytes of the compact form of a number.
fn compact_len(n: u32) -> (len: usize)
    ensures
        len == spec_compact_len(n),
{
    if n <= COMPACT_ONE_BYTE_MAX {
        1
    } else if n <= COMPACT_TWO_BYTE_MAX {
        2
    } else if n <= COMPACT_FOUR_BYTE_MAX {
        4
    } else {
        5
    }
}

/// Reads a list of proofs from a position of the input.
fn read_proofs(input: &[u8], at: usize) -> (res: Option<(Vec<VrfProof>, usize)>)
    requires
        at <= input.len(),
    ensures
        match res {
            Some((proofs, next)) => at <= next <= input.len() && spec_decode_proofs(
                input@.skip(at as int),
            ) == Some((proofs@, next - at)),
            None => spec_decode_proofs(input@.skip(at as int)) is None,
        },
{
    let ghost tail = input@.skip(at as int);
    let rest = slice_subrange(input, at, input.len());
    assert(rest@ =~= tail);
    let count = match decode_compact_u32(rest) {
        Some(count) => count,
        None => { return None; },
    };
    proof {
        lemma_compact_decoded_is_prefix(tail);
    }
    let start = at + compact_len(count);
    if count as usize > (input.len() - start) / PROOF_BYTES {
        return None;
    }
    let mut proofs: Vec<VrfProof> = Vec::new();
    let mut k: usize = 0;
    while k < count as usize
        invariant
            k <= count,
            at <= start,
            start + 64 * count <= input.len(),
            tail == input@.skip(at as int),
            proofs@.len() == k,
            forall|j: int|
                0 <= j < k ==> proofs@[j] == spec_array64(
                    tail.subrange(start - at + 64 * j, start - at + 64 * j + 64),
                ),
        decreases count - k,
    {
        let proof_bytes = read_array64(input, start + PROOF_BYTES * k);
        proof {
            assert(input@.subrange(start + 64 * k, start + 64 * k + 64) =~= tail.subrange(
                start - at + 64 * k,
                start - at + 64 * k + 64,
            ));
        }
        proofs.push(proof_bytes);
        k += 1;
    }
    proof {
        let (decoded, _) = spec_decode_proofs(tail).unwrap();
        assert(proofs@ =~= decoded);
    }
    Some((proofs, start + PROOF_BYTES * (count as usize)))
}

/// Reads a list of authorities from a position of the input.
fn read_authorities(input: &[u8], at: usize) -> (res: Option<
    (Vec<(AuthorityId, AuthorityWeight)>, usize),
>)
    requires
        at <= input.len(),
    ensures
        match res {
            Some((authorities, next)) => at <= next <= input.len() && spec_decode_authorities(
                input@.skip(at as int),
            ) == Some((authorities@, next - at)),
            None => spec_decode_authorities(input@.skip(at as int)) is None,
        },
{
    let ghost tail = input@.skip(at as int);
    let rest = slice_subrange(input, at, input.len());
    assert(rest@ =~= tail);
    let count = match decode_compact_u32(rest) {
        Some(count) => count,
        None => { return None; },
    };
    proof {
        lemma_compact_decoded_is_prefix(tail);
    }
    let start = at + compact_len(count);
    if count as usize > (input.len() - start) / AUTHORITY_BYTES {
        return None;
    }
    let mut authorities: Vec<(AuthorityId, AuthorityWeight)> = Vec::new();
    let mut k: usize = 0;
    while k < count as usize
        invariant
            k <= count,
            at <= start,
            start + 40 * count <= input.len(),
            tail == input@.skip(at as int),
            authorities@.len() == k,
            forall|j: int|
                0 <= j < k ==> authorities@[j] == spec_decode_authority(
                    tail.subrange(start - at + 40 * j, start - at + 40 * j + 40),
                ),
        decreases count - k,
    {
        let from = start + AUTHORITY_BYTES * k;
        let ghost item = tail.subrange(start - at + 40 * k, start - at + 40 * k + 40);
        let key = read_array32(input, from);
        let weight_bytes = slice_subrange(input, from + KEY_BYTES, from + AUTHORITY_BYTES);
        proof {
            assert(input@.subrange(from as int, from + 32) =~= item.subrange(0, 32));
            assert(weight_bytes@ =~= item.subrange(32, 40));
            assert(weight_bytes@.subrange(0, 8) =~= weight_bytes@);
        }
        let weight = match decode_u64(weight_bytes) {
            Some(weight) => weight,
            None => { return None; },
        };
        authorities.push((key, weight));
        k += 1;
    }
    proof {
        let (decoded, _) = spec_decode_authorities(tail).unwrap();
        assert(authorities@ =~= decoded);
    }
    Some((authorities, start + AUTHORITY_BYTES * (count as usize)))
}

/// Reads a validator set from a position of the input.
fn read_validator_set(input: &[u8], at: usize) -> (res: Option<(ValidatorSet, usize)>)
    requires
        at <= input.len(),
    ensures
        match res {
            Some((set, next)) => at <= next <= input.len() && spec_decode_validator_set(
                input@.skip(at as int),
            ) == Some((set@, next - at)) && set@.encodable(),
            None => spec_decode_validator_set(input@.skip(at as int)) is None,
        },
{
    let ghost tail = input@.skip(at as int);
    let (proofs, after_proofs) = match read_proofs(input, at) {
        Some(read) => read,
        None => { return None; },
    };
    proof {
        assert(tail.skip(after_proofs - at) =~= input@.skip(after_proofs as int));
    }
    let (authorities, after_authorities) = match read_authorities(input, after_proofs) {
        Some(read) => read,
        None => { return None; },
    };
    if input.len() - after_authorities < KEY_BYTES {
        return None;
    }
    let randomness = read_array32(input, after_authorities);
    proof {
        assert(input@.subrange(after_authorities as int, after_authorities + 32) =~= tail.subrange(
            after_authorities - at,
            after_authorities - at + 32,
        ));
    }
    Some((ValidatorSet { proofs, authorities, randomness }, after_authorities + KEY_BYTES))
}

/// Reads an epoch from the start of the input.
fn read_epoch(input: &[u8]) -> (res: Option<(Epoch, usize)>)
    ensures
        match res {
            Some((epoch, next)) => next <= input.len() && spec_decode_epoch_prefix(input@) == Some(
                (epoch@, next as int),
            ) && epoch@.encodable(),
            None => spec_decode_epoch_prefix(input@) is None,
        },
{
    if input.len() < 24 {
        return None;
    }
    let start_slot = decode_u64(slice_subrange(input, 0, 8));
    let duration = decode_u64(slice_subrange(input, 8, 16));
    let epoch_index = decode_u64(slice_subrange(input, 16, 24));
    proof {
        assert(input@.subrange(0, 8).subrange(0, 8) =~= input@.subrange(0, 8));
        assert(input@.subrange(8, 16).subrange(0, 8) =~= input@.subrange(8, 16));
        assert(input@.subrange(16, 24).subrange(0, 8) =~= input@.subrange(16, 24));
    }
    let (publishing, after_publishing) = match read_validator_set(input, 24) {
        Some(read) => read,
        None => { return None; },
    };
    let (validating, after_validating) = match read_validator_set(input, after_publishing) {
        Some(read) => read,
        None => { return None; },
    };
    match (start_slot, duration, epoch_index) {
        (Some(start_slot), Some(duration), Some(epoch_index)) => Some(
            (Epoch { start_slot, duration, epoch_index, publishing, validating }, after_validating),
        ),
        _ => None,
    }
}

/// Reads an epoch from the bytes that it was written to. Bytes that follow
/// the epoch are not read.
pub fn decode_epoch(input: &[u8]) -> (res: Option<Epoch>)
    ensures
        match res {
            Some(epoch) => spec_decode_epoch(input@) == Some(epoch@) && epoch@.encodable(),
            None => spec_decode_epoch(input@) is None,
        },
{
    match read_epoch(input) {
        Some((epoch, _)) => Some(epoch),
        None => None,
    }
}

/// Reads a record from the bytes that it was written to. Bytes that follow
/// the record are not read.
pub fn decode_record(input: &[u8]) -> (res: Option<AuxiliaryRecord>)
    ensures
        match res {
            Some(record) => spec_decode_record(input@) == Some(record@)
                && record@.epoch_state.encodable(),
            None => spec_decode_record(input@) is None,
        },
{
    let (epoch_state, after_epoch) = match read_epoch(input) {
        Some(read) => read,
        None => { return None; },
    };
    let rest = slice_subrange(input, after_epoch, input.len());
    assert(rest@ =~= input@.skip(after_epoch as int));
    match decode_u64(rest) {
        Some(last_slot) => Some(AuxiliaryRecord { epoch_state, last_slot }),
        None => None,
    }
}

/// Reading a list of proofs gives the list back, whatever follows it.
pub proof fn lemma_proofs_round_trip(proofs: Seq<VrfProof>, rest: Seq<u8>)
    requires
        proofs.len() <= u32::MAX,
    ensures
        spec_decode_proofs(spec_encode_proofs(proofs) + rest) == Some(
            (proofs, spec_encode_proofs(proofs).len() as int),
        ),
{
    let count = proofs.len() as u32;
    let items = Seq::new(64 * proofs.len(), |i: int| proofs[i / 64][i % 64]);
    let input = spec_encode_proofs(proofs) + rest;
    let start = spec_compact_len(count) as int;
    lemma_compact_len(count);
    assert(input =~= spec_compact_u32(count) + (items + rest));
    lemma_compact_round_trip(count, items + rest);
    let decoded = Seq::new(
        count as nat,
        |k: int| spec_array64(input.subrange(start + 64 * k, start + 64 * k + 64)),
    );
    assert forall|k: int| 0 <= k < proofs.len() implies decoded[k] == proofs[k] by {
        assert(input.subrange(start + 64 * k, start + 64 * k + 64) =~= proofs[k]@) by {
            assert forall|j: int| 0 <= j < 64 implies input[start + 64 * k + j] == proofs[k]@[j] by {
                assert(input[start + 64 * k + j] == items[64 * k + j]);
                assert((64 * k + j) / 64 == k);
                assert((64 * k + j) % 64 == j);
            }
        }
        lemma_array64_of_view(proofs[k]);
    }
    assert(decoded =~= proofs);
}

/// Reading an authority gives it back.
pub proof fn lemma_authority_round_trip(authority: (AuthorityId, AuthorityWeight))
    ensures
        spec_encode_authority(authority).len() == 40,
        spec_decode_authority(spec_encode_authority(authority)) == authority,
{
    let bytes = spec_encode_authority(authority);
    vstd::bytes::lemma_auto_spec_u64_to_from_le_bytes();
    assert(bytes.subrange(0, 32) =~= authority.0@);
    assert(bytes.subrange(32, 40) =~= spec_u64_to_le_bytes(authority.1));
    lemma_array32_of_view(authority.0);
}

/// Reading a list of authorities gives the list back, whatever follows it.
pub proof fn lemma_authorities_round_trip(
    authorities: Seq<(AuthorityId, AuthorityWeight)>,
    rest: Seq<u8>,
)
    requires
        authorities.len() <= u32::MAX,
    ensures
        spec_decode_authorities(spec_encode_authorities(authorities) + rest) == Some(
            (authorities, spec_encode_authorities(authorities).len() as int),
        ),
{
    let count = authorities.len() as u32;
    let items = Seq::new(
        40 * authorities.len(),
        |i: int| spec_encode_authority(authorities[i / 40])[i % 40],
    );
    let input = spec_encode_authorities(authorities) + rest;
    let start = spec_compact_len(count) as int;
    lemma_compact_len(count);
    assert(input =~= spec_compact_u32(count) + (items + rest));
    lemma_compact_round_trip(count, items + rest);
    let decoded = Seq::new(
        count as nat,
        |k: int| spec_decode_authority(input.subrange(start + 40 * k, start + 40 * k + 40)),
    );
    assert forall|k: int| 0 <= k < authorities.len() implies decoded[k] == authorities[k] by {
        lemma_authority_round_trip(authorities[k]);
        assert(input.subrange(start + 40 * k, start + 40 * k + 40) =~= spec_encode_authority(
            authorities[k],
        )) by {
            assert forall|j: int| 0 <= j < 40 implies input[start + 40 * k + j]
                == spec_encode_authority(authorities[k])[j] by {
                assert(input[start + 40 * k + j] == items[40 * k + j]);
                assert((40 * k + j) / 40 == k);
                assert((40 * k + j) % 40 == j);
            }
        }
    }
    assert(decoded =~= authorities);
}

/// Reading a validator set gives the set back, whatever follows it.
pub proof fn lemma_validator_set_round_trip(set: ValidatorSetView, rest: Seq<u8>)
    requires
        set.encodable(),
    ensures
        spec_decode_validator_set(spec_encode_validator_set(set) + rest) == Some(
            (set, spec_encode_validator_set(set).len() as int),
        ),
{
    let proofs = spec_encode_proofs(set.proofs);
    let authorities = spec_encode_authorities(set.authorities);
    let input = spec_encode_validator_set(set) + rest;
    assert(input =~= proofs + (authorities + set.randomness@ + rest));
    lemma_proofs_round_trip(set.proofs, authorities + set.randomness@ + rest);
    assert(input.skip(proofs.len() as int) =~= authorities + (set.randomness@ + rest));
    lemma_authorities_round_trip(set.authorities, set.randomness@ + rest);
    let at = (proofs.len() + authorities.len()) as int;
    assert(input.subrange(at, at + 32) =~= set.randomness@);
    lemma_array32_of_view(set.randomness);
}

/// Reading an epoch gives the epoch back, whatever follows it.
pub proof fn lemma_epoch_prefix_round_trip(epoch: EpochView, rest: Seq<u8>)
    requires
        epoch.encodable(),
    ensures
        spec_decode_epoch_prefix(spec_encode_epoch(epoch) + rest) == Some(
            (epoch, spec_encode_epoch(epoch).len() as int),
        ),
{
    vstd::bytes::lemma_auto_spec_u64_to_from_le_bytes();
    let publishing = spec_encode_validator_set(epoch.publishing);
    let validating = spec_encode_validator_set(epoch.validating);
    let input = spec_encode_epoch(epoch) + rest;
    assert(input.subrange(0, 8) =~= spec_u64_to_le_bytes(epoch.start_slot));
    assert(input.subrange(8, 16) =~= spec_u64_to_le_bytes(epoch.duration));
    assert(input.subrange(16, 24) =~= spec_u64_to_le_bytes(epoch.epoch_index));
    assert(input.skip(24) =~= publishing + (validating + rest));
    lemma_validator_set_round_trip(epoch.publishing, validating + rest);
    assert(input.skip(24 + publishing.len() as int) =~= validating + rest);
    lemma_validator_set_round_trip(epoch.validating, rest);
}

/// Encoding round trip of the epoch state: an epoch that is written and
/// read again is the same epoch.
pub proof fn lemma_epoch_round_trip(epoch: EpochView)
    requires
        epoch.encodable(),
    ensures
        spec_decode_epoch(spec_encode_epoch(epoch)) == Some(epoch),
{
    lemma_epoch_prefix_round_trip(epoch, Seq::empty());
    assert(spec_encode_epoch(epoch) + Seq::<u8>::empty() =~= spec_encode_epoch(epoch));
}

/// Encoding round trip of the stored record: a record that is written and
/// read again is the same record.
pub proof fn lemma_record_round_trip(record: AuxiliaryRecordView)
    requires
        record.epoch_state.encodable(),
    ensures
        spec_decode_record(spec_encode_record(record)) == Some(record),
{
    let last_slot = spec_u64_to_le_bytes(record.last_slot);
    lemma_epoch_prefix_round_trip(record.epoch_state, last_slot);
    lemma_u64_round_trip(record.last_slot, Seq::empty());
    assert(spec_encode_record(record).skip(spec_encode_epoch(record.epoch_state).len() as int)
        =~= last_slot + Seq::<u8>::empty());
}

} // verus!
