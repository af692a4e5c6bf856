//! Plain values shared by every part of the verifier.

use vstd::prelude::*;

verus! {

/// Number of a slot, the discrete unit of protocol time.
pub type Slot = u64;

/// Hash of a block header.
pub type BlockHash = [u8; 32];

/// Entropy of one epoch, the seed of its VRF transcripts.
pub type Randomness = [u8; 32];

/// Public key of an authority, in its compressed 32-byte form.
pub type AuthorityId = [u8; 32];

/// Weight of an authority. The verifier carries it and never reads it.
pub type AuthorityWeight = u64;

/// Output that a VRF proof speaks of, a compressed curve point.
pub type VrfOutput = [u8; 32];

/// Proof of a VRF output: two scalars of 32 bytes each.
pub type VrfProof = [u8; 64];

/// Signature that seals a header.
pub type SealSignature = [u8; 64];

/// Tag of a consensus engine on a digest item.
pub type EngineId = [u8; 4];

/// The engine tag of this protocol, `SASS` in ASCII. It marks the digest
/// items of the protocol and labels every VRF transcript.
pub const SASSAFRAS_ENGINE_ID: EngineId = [0x53, 0x41, 0x53, 0x53];

} // verus!
