//! Set-up plans for benchmarking a democracy pallet.
//!
//! Before a benchmark runs, the pallet needs public proposals and referendums
//! to work on. The steps that create them are computed here as plain values;
//! whoever holds the runtime performs them in order and stops at the first
//! step that fails.

use vstd::prelude::*;

verus! {

/// Seed of every benchmark account.
pub const SEED: u32 = 0;

/// Most proposals that a benchmark sets up.
pub const MAX_PROPOSALS: u32 = 100;

/// Most referendums that a benchmark sets up.
pub const MAX_REFERENDUMS: u32 = 100;

/// Most users that a benchmark sets up.
pub const MAX_USERS: u32 = 100;

/// How a referendum counts its votes.
#[derive(Debug, Clone, Copy, PartialEq, Eq, Structural)]
pub enum VoteThreshold {
    /// A supermajority of approvals is needed.
    SuperMajorityApprove,
    /// A supermajority of rejections is needed to stop it.
    SuperMajorityAgainst,
    /// A simple majority of approvals is needed.
    SimpleMajority,
}

/// One step of a set-up.
#[derive(Debug, Clone, Copy, PartialEq, Eq, Structural)]
pub enum SetupStep {
    /// The benchmark account `other` of this index and seed is given the
    /// largest balance and proposes the default proposal hash for the
    /// minimum deposit. This step can fail.
    Propose { account_index: u32, seed: u32 },
    /// A referendum on the default proposal hash is injected, ending at
    /// block `end` and enacted `delay` blocks later.
    InjectReferendum { end: u32, threshold: VoteThreshold, delay: u32 },
}

/// The step that lets the account of an index propose.
pub open spec fn spec_propose_step(account_index: u32) -> SetupStep {
    SetupStep::Propose { account_index, seed: SEED }
}

/// The step that injects one referendum.
pub open spec fn spec_inject_step() -> SetupStep {
    SetupStep::InjectReferendum { end: 0, threshold: VoteThreshold::SimpleMajority, delay: 0 }
}

/// The steps that add `number` proposals: account 0 proposes first, account
/// `number - 1` last.
pub open spec fn spec_add_proposals(number: u32) -> Seq<SetupStep> {
    Seq::new(number as nat, |p: int| spec_propose_step(p as u32))
}

/// The steps that add `number` referendums: for each referendum, one
/// proposal by account 0, then the injection.
pub open spec fn spec_add_referendums(number: u32) -> Seq<SetupStep> {
    Seq::new(
        2 * (number as nat),
        |i: int|
            if i % 2 == 0 {
                spec_propose_step(0)
            } else {
                spec_inject_step()
            },
    )
}

/// Plans the set-up of `number` public proposals.
pub fn add_proposals(number: u32) -> (steps: Vec<SetupStep>)
    ensures
        steps@ == spec_add_proposals(number),
{
    let mut steps: Vec<SetupStep> = Vec::new();
    let mut p: u32 = 0;
    while p < number
        invariant
            p <= number,
            steps@ == spec_add_proposals(p),
        decreases number - p,
    {
        steps.push(SetupStep::Propose { account_index: p, seed: SEED });
        p += 1;
    }
    steps
}

/// Plans the set-up of `number` referendums.
pub fn add_referendums(number: u32) -> (steps: Vec<SetupStep>)
    ensures
        steps@ == spec_add_referendums(number),
{
    let mut steps: Vec<SetupStep> = Vec::new();
    let mut done: u32 = 0;
    while done < number
        invariant
            done <= number,
            steps@ == spec_add_referendums(done),
        decreases number - done,
    {
        let mut proposal = add_proposals(1);
        assert(proposal@ == seq![spec_propose_step(0)]);
        steps.append(&mut proposal);
        steps.push(
            SetupStep::InjectReferendum {
                end: 0,
                threshold: VoteThreshold::SimpleMajority,
                delay: 0,
            },
        );
        done += 1;
    }
    steps
}

/// Each referendum costs two steps, and every proposal of the plan comes
/// directly before the injection that it is for.
pub proof fn lemma_referendums_alternate(number: u32, i: int)
    requires
        0 <= i < number,
    ensures
        spec_add_referendums(number).len() == 2 * number,
        spec_add_referendums(number)[2 * i] == spec_propose_step(0),
        spec_add_referendums(number)[2 * i + 1] == spec_inject_step(),
{
}

} // verus!
