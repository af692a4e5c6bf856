//! The VRF transcripts of the protocol.
//!
//! A transcript binds a role, a slot, an epoch and the randomness of the
//! epoch. Author and verifier must build it byte for byte alike: the label
//! of the transcript is the engine tag, and the four messages follow in a
//! fixed order under fixed labels.

use vstd::prelude::*;
use vstd::bytes::{lemma_auto_spec_u64_to_from_le_bytes, spec_u64_to_le_bytes, u64_to_le_bytes};
use crate::primitives::{Slot, SASSAFRAS_ENGINE_ID};

verus! {

/// The transcript type of `merlin`. Verus sees nothing inside it.
#[verifier::external_type_specification]
#[verifier::external_body]
pub struct ExTranscript(merlin::Transcript);

/// The messages that a transcript has absorbed, oldest first, each with its
/// label.
pub uninterp spec fn transcript_messages(transcript: merlin::Transcript) -> Seq<(Seq<u8>, Seq<u8>)>;

/// The label under which `merlin` absorbs the label of a new transcript:
/// `dom-sep` in ASCII.
pub open spec fn dom_sep_label() -> Seq<u8> {
    seq![0x64u8, 0x6f, 0x6d, 0x2d, 0x73, 0x65, 0x70]
}

/// `merlin::Transcript::new` starts a transcript whose only message is the
/// given label, absorbed under `dom-sep`. It panics on a label of more than
/// `u32::MAX` bytes.
pub assume_specification[ merlin::Transcript::new ](
    label: &'static [u8],
) -> (transcript: merlin::Transcript)
    requires
        label@.len() <= u32::MAX,
    ensures
        transcript_messages(transcript) == seq![(dom_sep_label(), label@)],
;

/// `merlin::Transcript::append_message` absorbs one more message under the
/// given label and leaves the earlier ones as they are. It panics on a
/// message of more than `u32::MAX` bytes.
pub assume_specification[ merlin::Transcript::append_message ](
    transcript: &mut merlin::Transcript,
    label: &'static [u8],
    message: &[u8],
)
    requires
        message@.len() <= u32::MAX,
    ensures
        transcript_messages(*final(transcript)) == transcript_messages(*old(transcript)).push(
            (label@, message@),
        ),
;

/// Label of the role: `type` in ASCII.
pub const TYPE_LABEL: [u8; 4] = [0x74, 0x79, 0x70, 0x65];

/// Label of the slot: `slot number` in ASCII.
pub const SLOT_NUMBER_LABEL: [u8; 11] = [
    0x73, 0x6c, 0x6f, 0x74, 0x20, 0x6e, 0x75, 0x6d, 0x62, 0x65, 0x72,
];

/// Label of the epoch index: `current epoch` in ASCII.
pub const CURRENT_EPOCH_LABEL: [u8; 13] = [
    0x63, 0x75, 0x72, 0x72, 0x65, 0x6e, 0x74, 0x20, 0x65, 0x70, 0x6f, 0x63, 0x68,
];

/// Label of the randomness: `chain randomness` in ASCII.
pub const CHAIN_RANDOMNESS_LABEL: [u8; 16] = [
    0x63, 0x68, 0x61, 0x69, 0x6e, 0x20, 0x72, 0x61, 0x6e, 0x64, 0x6f, 0x6d, 0x6e, 0x65, 0x73, 0x73,
];

/// Role of the transcript that a ticket was drawn with: `ticket` in ASCII.
pub const TICKET_ROLE: [u8; 6] = [0x74, 0x69, 0x63, 0x6b, 0x65, 0x74];

/// Role of the transcript that a block adds entropy with: `post` in ASCII.
pub const POST_ROLE: [u8; 4] = [0x70, 0x6f, 0x73, 0x74];

/// The messages of the transcript of a role: the engine tag as the label of
/// the transcript, then role, slot and epoch index (both as eight bytes,
/// least significant first) and the randomness.
pub open spec fn spec_transcript(
    role: Seq<u8>,
    randomness: Seq<u8>,
    slot: Slot,
    epoch: u64,
) -> Seq<(Seq<u8>, Seq<u8>)> {
    seq![
        (dom_sep_label(), SASSAFRAS_ENGINE_ID@),
        (TYPE_LABEL@, role),
        (SLOT_NUMBER_LABEL@, spec_u64_to_le_bytes(slot)),
        (CURRENT_EPOCH_LABEL@, spec_u64_to_le_bytes(epoch)),
        (CHAIN_RANDOMNESS_LABEL@, randomness),
    ]
}

/// The messages of a ticket transcript.
pub open spec fn spec_ticket_transcript(
    randomness: Seq<u8>,
    slot: Slot,
    epoch: u64,
) -> Seq<(Seq<u8>, Seq<u8>)> {
    spec_transcript(TICKET_ROLE@, randomness, slot, epoch)
}

/// The messages of a post-block transcript.
pub open spec fn spec_post_transcript(
    randomness: Seq<u8>,
    slot: Slot,
    epoch: u64,
) -> Seq<(Seq<u8>, Seq<u8>)> {
    spec_transcript(POST_ROLE@, randomness, slot, epoch)
}

/// Builds the transcript of a role.
fn make_transcript(
    role: &'static [u8],
    randomness: &[u8],
    slot_number: Slot,
    epoch: u64,
) -> (transcript: merlin::Transcript)
    requires
        role@.len() <= u32::MAX,
        randomness@.len() <= u32::MAX,
    ensures
        transcript_messages(transcript) == spec_transcript(role@, randomness@, slot_number, epoch),
{
    proof {
        lemma_auto_spec_u64_to_from_le_bytes();
    }
    let mut transcript = merlin::Transcript::new(&SASSAFRAS_ENGINE_ID);
    transcript.append_message(&TYPE_LABEL, role);
    let slot_bytes = u64_to_le_bytes(slot_number);
    transcript.append_message(&SLOT_NUMBER_LABEL, slot_bytes.as_slice());
    let epoch_bytes = u64_to_le_bytes(epoch);
    transcript.append_message(&CURRENT_EPOCH_LABEL, epoch_bytes.as_slice());
    transcript.append_message(&CHAIN_RANDOMNESS_LABEL, randomness);
    transcript
}

/// Builds the transcript against which the VRF output of a ticket is
/// verified.
///
/// The randomness may have any length that `merlin` accepts.
pub fn make_ticket_transcript(
    randomness: &[u8],
    slot_number: Slot,
    epoch: u64,
) -> (transcript: merlin::Transcript)
    requires
        randomness@.len() <= u32::MAX,
    ensures
        transcript_messages(transcript) == spec_ticket_transcript(randomness@, slot_number, epoch),
{
    make_transcript(&TICKET_ROLE, randomness, slot_number, epoch)
}

/// Builds the transcript against which the post-block VRF output is
/// verified.
///
/// The randomness may have any length that `merlin` accepts.
pub fn make_post_transcript(
    randomness: &[u8],
    slot_number: Slot,
    epoch: u64,
) -> (transcript: merlin::Transcript)
    requires
        randomness@.len() <= u32::MAX,
    ensures
        transcript_messages(transcript) == spec_post_transcript(randomness@, slot_number, epoch),
{
    make_transcript(&POST_ROLE, randomness, slot_number, epoch)
}

/// Transcripts are deterministic: two transcripts of one role that were
/// built from the same randomness, slot and epoch index hold the same
/// messages, whenever and wherever they were built.
pub proof fn lemma_transcript_deterministic(
    first: merlin::Transcript,
    second: merlin::Transcript,
    role: Seq<u8>,
    randomness: Seq<u8>,
    slot: Slot,
    epoch: u64,
)
    requires
        transcript_messages(first) == spec_transcript(role, randomness, slot, epoch),
        transcript_messages(second) == spec_transcript(role, randomness, slot, epoch),
    ensures
        transcript_messages(first) == transcript_messages(second),
{
}

/// A transcript binds all of its inputs: transcripts with the same messages
/// were built for the same role, randomness, slot and epoch index.
pub proof fn lemma_transcript_binds_inputs(
    role1: Seq<u8>,
    randomness1: Seq<u8>,
    slot1: Slot,
    epoch1: u64,
    role2: Seq<u8>,
    randomness2: Seq<u8>,
    slot2: Slot,
    epoch2: u64,
)
    requires
        spec_transcript(role1, randomness1, slot1, epoch1) == spec_transcript(
            role2,
            randomness2,
            slot2,
            epoch2,
        ),
    ensures
        role1 == role2,
        randomness1 == randomness2,
        slot1 == slot2,
        epoch1 == epoch2,
{
    lemma_auto_spec_u64_to_from_le_bytes();
    let first = spec_transcript(role1, randomness1, slot1, epoch1);
    let second = spec_transcript(role2, randomness2, slot2, epoch2);
    assert(first[1] == second[1]);
    assert(first[2] == second[2]);
    assert(first[3] == second[3]);
    assert(first[4] == second[4]);
}

/// A ticket transcript is never a post-block transcript.
pub proof fn lemma_roles_differ(
    randomness1: Seq<u8>,
    slot1: Slot,
    epoch1: u64,
    randomness2: Seq<u8>,
    slot2: Slot,
    epoch2: u64,
)
    ensures
        spec_ticket_transcript(randomness1, slot1, epoch1) != spec_post_transcript(
            randomness2,
            slot2,
            epoch2,
        ),
{
    let ticket = spec_ticket_transcript(randomness1, slot1, epoch1);
    let post = spec_post_transcript(randomness2, slot2, epoch2);
    assert(ticket[1].1.len() == 6);
    assert(post[1].1.len() == 4);
}

} // verus!
