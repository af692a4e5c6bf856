//! Block verification for a ticket-based, VRF-driven consensus protocol.
//!
//! A header carries a pre-runtime digest and a seal. The verifier decides
//! whether the block may extend the chain under the validator set of the
//! current epoch, and computes the epoch state that the block leaves behind.
//! The import step holds the slot of the block against its parent once more
//! and adds the record of the block to what is stored with it.
//!
//! Signatures and VRF proofs are checked by `sp_core` and `schnorrkel`,
//! transcripts are built with `merlin`, and the integers of stored records
//! are written by `parity_scale_codec`. What is claimed of these crates is
//! stated where they are called: in [`crypto`], [`transcript`], [`scale`]
//! and [`error`].

pub mod primitives;
pub mod error;
pub mod digest;
pub mod transcript;
pub mod crypto;
pub mod scale;
pub mod epoch;
pub mod record;
pub mod aux_schema;
pub mod time_source;
pub mod import_params;
pub mod verification;
pub mod block_import;
pub mod benchmarking;
