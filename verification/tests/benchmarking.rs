use sassafras_consensus::benchmarking::{
    add_proposals, add_referendums, SetupStep, VoteThreshold, MAX_PROPOSALS, MAX_REFERENDUMS,
    MAX_USERS, SEED,
};

#[test]
fn benchmark_constants() {
    assert_eq!(SEED, 0);
    assert_eq!(MAX_PROPOSALS, 100);
    assert_eq!(MAX_REFERENDUMS, 100);
    assert_eq!(MAX_USERS, 100);
}

#[test]
fn no_proposals_no_steps() {
    assert_eq!(add_proposals(0), vec![]);
    assert_eq!(add_referendums(0), vec![]);
}

#[test]
fn proposals_by_accounts_in_order() {
    assert_eq!(
        add_proposals(3),
        vec![
            SetupStep::Propose { account_index: 0, seed: 0 },
            SetupStep::Propose { account_index: 1, seed: 0 },
            SetupStep::Propose { account_index: 2, seed: 0 },
        ]
    );
    assert_eq!(add_proposals(MAX_PROPOSALS).len(), 100);
}

#[test]
fn each_referendum_follows_its_proposal() {
    let propose = SetupStep::Propose { account_index: 0, seed: 0 };
    let inject =
        SetupStep::InjectReferendum { end: 0, threshold: VoteThreshold::SimpleMajority, delay: 0 };
    assert_eq!(add_referendums(1), vec![propose, inject]);
    assert_eq!(add_referendums(2), vec![propose, inject, propose, inject]);
    let plan = add_referendums(MAX_REFERENDUMS);
    assert_eq!(plan.len(), 200);
    for (i, step) in plan.iter().enumerate() {
        assert_eq!(*step, if i % 2 == 0 { propose } else { inject });
    }
}
