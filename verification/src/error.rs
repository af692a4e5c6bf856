//! The single error type of the verifier.

use vstd::prelude::*;
use crate::primitives::BlockHash;

verus! {

/// Which of the two required inherents could not be read.
#[derive(Debug, Clone, Copy, PartialEq, Eq, Structural)]
pub enum InherentError {
    /// The timestamp inherent is absent.
    TimestampMissing,
    /// The slot inherent is absent.
    SlotMissing,
}

/// Why a block was rejected.
#[derive(Debug, Clone, PartialEq, Eq)]
pub enum Error {
    /// Timestamp and slot could not be read from the inherent data.
    Extraction(InherentError),
    /// The header lies too far in the future.
    TooFarInFuture(BlockHash),
    /// No record is stored for the parent (first hash) of the block
    /// (second hash).
    ParentUnavailable(BlockHash, BlockHash),
    /// The parent header could not be fetched.
    FetchParentHeader(String),
    /// More than one pre-runtime digest of this engine.
    MultiplePreRuntimeDigest,
    /// No pre-runtime digest of this engine.
    NoPreRuntimeDigest,
    /// More than one next-epoch descriptor.
    MultipleNextEpochDescriptor,
    /// More than one post-block descriptor.
    MultiplePostBlockDescriptor,
    /// The ticket index of the pre-digest selects no committed proof.
    InvalidTicketVRFIndex,
    /// The authority index of the pre-digest selects no authority.
    InvalidAuthorityId,
    /// The last digest item is no seal of this engine, or its signature does
    /// not verify.
    InvalidSeal,
    /// The header carries no digest item at all, so no seal.
    HeaderUnsealed(BlockHash),
    /// The ticket VRF output does not verify.
    TicketVRFVerificationFailed,
    /// The post-block VRF output does not verify.
    PostVRFVerificationFailed,
    /// The slot does not exceed the last slot of the parent.
    SlotInPast,
    /// The slot exceeds the slot of the local clock.
    SlotInFuture,
    /// The inherent data could not be created.
    Runtime(String),
    /// The underlying store failed, or holds a record that cannot be read.
    Client(String),
}

/// The lower-case hexadecimal digit of a number below 16.
pub open spec fn spec_hex_digit(n: int) -> char {
    if n < 10 {
        (0x30 + n) as char
    } else {
        (0x61 + n - 10) as char
    }
}

/// A hash in short: `0x`, its first two bytes in hexadecimal, an ellipsis,
/// and its last two bytes.
pub open spec fn spec_hash_display(hash: BlockHash) -> Seq<char> {
    seq![
        '0',
        'x',
        spec_hex_digit(hash[0] as int / 16),
        spec_hex_digit(hash[0] as int % 16),
        spec_hex_digit(hash[1] as int / 16),
        spec_hex_digit(hash[1] as int % 16),
        '\u{2026}',
        spec_hex_digit(hash[30] as int / 16),
        spec_hex_digit(hash[30] as int % 16),
        spec_hex_digit(hash[31] as int / 16),
        spec_hex_digit(hash[31] as int % 16),
    ]
}

/// A hash in full: `0x` and all of its bytes in hexadecimal.
pub open spec fn spec_hash_debug(hash: BlockHash) -> Seq<char> {
    seq!['0', 'x'] + Seq::new(
        64,
        |i: int|
            if i % 2 == 0 {
                spec_hex_digit(hash[i / 2] as int / 16)
            } else {
                spec_hex_digit(hash[i / 2] as int % 16)
            },
    )
}

/// Formats a hash as `sp_core::H256` displays it: `0x`, the first two bytes
/// in lower-case hexadecimal, an ellipsis, and the last two bytes.
#[verifier::external_body]
fn hash_display(hash: &BlockHash) -> (text: String)
    ensures
        text@ == spec_hash_display(*hash),
{
    format!("{}", sp_core::H256(*hash))
}

/// Formats a hash as `sp_core::H256` prints it for debugging: `0x` and all
/// bytes in lower-case hexadecimal.
#[verifier::external_body]
fn hash_debug(hash: &BlockHash) -> (text: String)
    ensures
        text@ == spec_hash_debug(*hash),
{
    format!("{:?}", sp_core::H256(*hash))
}

/// Calls `String::push_str`, which appends the characters of `more`.
#[verifier::external_body]
fn append_str(text: &mut String, more: &str)
    ensures
        final(text)@ == old(text)@ + more@,
{
    text.push_str(more)
}

impl InherentError {
    /// The reason in words.
    pub open spec fn spec_reason(self) -> Seq<char> {
        match self {
            InherentError::TimestampMissing => "timestamp inherent data not found"@,
            InherentError::SlotMissing => "slot inherent data not found"@,
        }
    }

    /// The reason in words.
    pub fn reason(&self) -> (text: String)
        ensures
            text@ == self.spec_reason(),
    {
        match self {
            InherentError::TimestampMissing => "timestamp inherent data not found".to_string(),
            InherentError::SlotMissing => "slot inherent data not found".to_string(),
        }
    }
}

impl Error {
    /// The reason string of an error. Every variant has its own wording;
    /// a variant without a value of its own is worded by its name.
    pub open spec fn spec_reason(self) -> Seq<char> {
        match self {
            Error::Extraction(e) => "Could not extract timestamp and slot: "@ + e.spec_reason(),
            Error::TooFarInFuture(hash) => "Header "@ + spec_hash_debug(hash)
                + " rejected: too far in the future"@,
            Error::ParentUnavailable(parent, hash) => "Parent ("@ + spec_hash_display(parent)
                + ") of "@ + spec_hash_display(hash) + " unavailable. Cannot import"@,
            Error::FetchParentHeader(message) => "Could not fetch parent header: "@ + message@,
            Error::MultiplePreRuntimeDigest => "MultiplePreRuntimeDigest"@,
            Error::NoPreRuntimeDigest => "NoPreRuntimeDigest"@,
            Error::MultipleNextEpochDescriptor => "MultipleNextEpochDescriptor"@,
            Error::MultiplePostBlockDescriptor => "MultiplePostBlockDescriptor"@,
            Error::InvalidTicketVRFIndex => "InvalidTicketVRFIndex"@,
            Error::InvalidAuthorityId => "InvalidAuthorityId"@,
            Error::InvalidSeal => "InvalidSeal"@,
            Error::HeaderUnsealed(hash) => spec_hash_display(hash),
            Error::TicketVRFVerificationFailed => "TicketVRFVerificationFailed"@,
            Error::PostVRFVerificationFailed => "PostVRFVerificationFailed"@,
            Error::SlotInPast => "SlotInPast"@,
            Error::SlotInFuture => "SlotInFuture"@,
            Error::Runtime(message) => message@,
            Error::Client(message) => message@,
        }
    }

    /// The reason string under which the error is reported.
    pub fn reason(&self) -> (text: String)
        ensures
            text@ == self.spec_reason(),
    {
        match self {
            Error::Extraction(e) => {
                let mut text = "Could not extract timestamp and slot: ".to_string();
                append_str(&mut text, e.reason().as_str());
                text
            },
            Error::TooFarInFuture(hash) => {
                let mut text = "Header ".to_string();
                append_str(&mut text, hash_debug(hash).as_str());
                append_str(&mut text, " rejected: too far in the future");
                text
            },
            Error::ParentUnavailable(parent, hash) => {
                let mut text = "Parent (".to_string();
                append_str(&mut text, hash_display(parent).as_str());
                append_str(&mut text, ") of ");
                append_str(&mut text, hash_display(hash).as_str());
                append_str(&mut text, " unavailable. Cannot import");
                text
            },
            Error::FetchParentHeader(message) => {
                let mut text = "Could not fetch parent header: ".to_string();
                append_str(&mut text, message.as_str());
                text
            },
            Error::MultiplePreRuntimeDigest => "MultiplePreRuntimeDigest".to_string(),
            Error::NoPreRuntimeDigest => "NoPreRuntimeDigest".to_string(),
            Error::MultipleNextEpochDescriptor => "MultipleNextEpochDescriptor".to_string(),
            Error::MultiplePostBlockDescriptor => "MultiplePostBlockDescriptor".to_string(),
            Error::InvalidTicketVRFIndex => "InvalidTicketVRFIndex".to_string(),
            Error::InvalidAuthorityId => "InvalidAuthorityId".to_string(),
            Error::InvalidSeal => "InvalidSeal".to_string(),
            Error::HeaderUnsealed(hash) => hash_display(hash),
            Error::TicketVRFVerificationFailed => "TicketVRFVerificationFailed".to_string(),
            Error::PostVRFVerificationFailed => "PostVRFVerificationFailed".to_string(),
            Error::SlotInPast => "SlotInPast".to_string(),
            Error::SlotInFuture => "SlotInFuture".to_string(),
            Error::Runtime(message) => message.clone(),
            Error::Client(message) => message.clone(),
        }
    }
}

} // verus!
