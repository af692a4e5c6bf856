//! The two cryptographic checks that the verifier leans on.
//!
//! Neither is proved here. Each is a function of its arguments alone, so its
//! outcome has a name that the contracts of the verifier speak of.

use vstd::prelude::*;
use crate::primitives::{AuthorityId, BlockHash, SealSignature, VrfOutput, VrfProof};
use crate::transcript::transcript_messages;

verus! {

/// Whether `signature` is the signature of the key `public` on `message`
/// under the signing context of `sp_core::sr25519`.
pub uninterp spec fn spec_seal_signature_valid(
    signature: Seq<u8>,
    message: Seq<u8>,
    public: Seq<u8>,
) -> bool;

/// Whether `proof` shows that `output` is the VRF output of the key `public`
/// on the transcript that holds `messages`.
pub uninterp spec fn spec_vrf_valid(
    public: Seq<u8>,
    messages: Seq<(Seq<u8>, Seq<u8>)>,
    output: Seq<u8>,
    proof: Seq<u8>,
) -> bool;

/// Calls `sp_core::sr25519::Pair::verify` on the hash of an unsealed header.
///
/// The call returns `false` where signature or key do not parse, and else
/// what the Schnorr verification of `schnorrkel` finds. Nothing but the
/// three arguments enters it.
#[verifier::external_body]
pub(crate) fn seal_signature_valid(
    signature: &SealSignature,
    message: &BlockHash,
    public: &AuthorityId,
) -> (ok: bool)
    ensures
        ok == spec_seal_signature_valid(signature@, message@, public@),
{
    <sp_core::sr25519::Pair as sp_core::Pair>::verify(
        &sp_core::sr25519::Signature::from_raw(*signature),
        message,
        &sp_core::sr25519::Public::from_raw(*public),
    )
}

/// Calls `schnorrkel::PublicKey::vrf_verify` on the key and the proof that
/// `schnorrkel::PublicKey::from_bytes` and `schnorrkel::vrf::VRFProof::from_bytes`
/// read from the bytes.
///
/// The result is `false` where key or proof do not parse or the
/// verification fails. Nothing but the four arguments enters it; of the
/// transcript, only the messages that it has absorbed.
#[verifier::external_body]
pub(crate) fn vrf_valid(
    public: &AuthorityId,
    transcript: merlin::Transcript,
    output: &VrfOutput,
    proof: &VrfProof,
) -> (ok: bool)
    ensures
        ok == spec_vrf_valid(public@, transcript_messages(transcript), output@, proof@),
{
    match (schnorrkel::PublicKey::from_bytes(public), schnorrkel::vrf::VRFProof::from_bytes(proof)) {
        (Ok(key), Ok(proof)) => key.vrf_verify(
            transcript,
            &schnorrkel::vrf::VRFPreOut(*output),
            &proof,
        ).is_ok(),
        _ => false,
    }
}

} // verus!
