use smultisig::engine::SmultisigModule;
use smultisig::types::{Error, Event, ProposalStatus, ProposalThreshold, ProposalType};

fn new_module() -> SmultisigModule {
    SmultisigModule::new(3, 5, 5)
}

#[test]
fn scenario_group_grows_by_unanimous_approval() {
    // group {1,2,3} created by caller 1; add_member(4) creates proposal 1
    // with policy All and the creator's implicit aye; two more ayes reach
    // required(3, All) = 3, so member 4 joins in that very call.
    let mut m = new_module();
    assert!(m.create_multisig_group(1, vec![1, 2, 3]).is_ok());

    assert!(m.add_member(1, 4).is_ok());
    let p = m.proposals(1).unwrap();
    assert_eq!(p.proposal_id, 1);
    assert_eq!(p.proposaltype, ProposalType::AddMember);
    assert_eq!(p.threshold, ProposalThreshold::All);
    assert_eq!(p.status, ProposalStatus::Pending);
    assert_eq!(p.vote, 1);
    assert!(m.votings(1).unwrap().ayes.contains(&1));

    assert!(m.approve(2, 1).is_ok());
    assert_eq!(m.proposals(1).unwrap().status, ProposalStatus::Pending);

    assert!(m.approve(3, 1).is_ok());
    assert_eq!(m.proposals(1).unwrap().status, ProposalStatus::Approved);
    assert_eq!(m.proposals(1).unwrap().vote, 3);
    assert_eq!(*m.members(), vec![1, 2, 3, 4]);
}

#[test]
fn scenario_rejection_by_nay_threshold() {
    // group {1,2,3,4}, policy MoreThanHalf (required = 3): the creator's
    // aye stands alone; nays from the three other members reach 3 and the
    // proposal is rejected with the membership unchanged.
    let mut m = new_module();
    assert!(m.create_multisig_group(1, vec![1, 2, 3, 4]).is_ok());

    let id = m
        .create_proposal(1, ProposalType::AddMember, 5, ProposalThreshold::MoreThanHalf)
        .unwrap();
    assert_eq!(id, 1);
    assert_eq!(m.proposals(1).unwrap().vote, 1);

    assert!(m.reject(2, 1).is_ok());
    assert!(m.reject(3, 1).is_ok());
    assert_eq!(m.proposals(1).unwrap().status, ProposalStatus::Pending);

    assert!(m.reject(4, 1).is_ok());
    assert_eq!(m.proposals(1).unwrap().status, ProposalStatus::Rejected);
    assert_eq!(*m.members(), vec![1, 2, 3, 4]);
    assert_eq!(m.proposals(1).unwrap().vote, 1);
    let votes = m.votings(1).unwrap();
    assert_eq!(votes.ayes, vec![1]);
    assert_eq!(votes.nays, vec![2, 3, 4]);
}

#[test]
fn threshold_crossing_happens_in_the_casting_call() {
    // size 4 with MoreThanHalf requires 3 ayes: the proposal stays pending
    // through the second aye and flips to Approved exactly on the third.
    let mut m = new_module();
    assert!(m.create_multisig_group(1, vec![1, 2, 3, 4]).is_ok());
    let id = m
        .create_proposal(1, ProposalType::AddMember, 5, ProposalThreshold::MoreThanHalf)
        .unwrap();

    assert_eq!(m.proposals(id).unwrap().status, ProposalStatus::Pending);
    assert!(m.approve(2, id).is_ok());
    assert_eq!(m.proposals(id).unwrap().status, ProposalStatus::Pending);
    assert!(m.approve(3, id).is_ok());
    assert_eq!(m.proposals(id).unwrap().status, ProposalStatus::Approved);
    assert!(m.members().contains(&5));
}

#[test]
fn proposal_ids_are_monotonic() {
    let mut m = new_module();
    assert!(m.create_multisig_group(1, vec![1, 2, 3]).is_ok());
    let id1 = m
        .create_proposal(1, ProposalType::AddMember, 4, ProposalThreshold::MoreThanHalf)
        .unwrap();
    let id2 = m
        .create_proposal(2, ProposalType::AddMember, 5, ProposalThreshold::MoreThanHalf)
        .unwrap();
    let id3 = m
        .create_proposal(3, ProposalType::RemoveMember, 2, ProposalThreshold::All)
        .unwrap();
    assert_eq!(id1, 1);
    assert_eq!(id2, id1 + 1);
    assert_eq!(id3, id2 + 1);
}

#[test]
fn second_vote_by_same_member_is_rejected() {
    let mut m = new_module();
    assert!(m.create_multisig_group(1, vec![1, 2, 3]).is_ok());
    let id = m
        .create_proposal(1, ProposalType::AddMember, 4, ProposalThreshold::All)
        .unwrap();

    assert!(m.approve(2, id).is_ok());
    // a second vote from 2, on either side, is a duplicate
    assert_eq!(m.approve(2, id), Err(Error::DuplicateVote));
    assert_eq!(m.reject(2, id), Err(Error::DuplicateVote));
    // the creator's implicit vote counts too
    assert_eq!(m.approve(1, id), Err(Error::DuplicateVote));
    let votes = m.votings(id).unwrap();
    assert_eq!(votes.ayes, vec![1, 2]);
    assert_eq!(votes.nays, Vec::<u64>::new());
}

#[test]
fn finalized_proposal_accepts_no_votes() {
    let mut m = new_module();
    assert!(m.create_multisig_group(1, vec![1, 2, 3]).is_ok());
    assert!(m.add_member(1, 4).is_ok());
    assert!(m.approve(2, 1).is_ok());
    assert!(m.approve(3, 1).is_ok());
    assert_eq!(m.proposals(1).unwrap().status, ProposalStatus::Approved);

    // member 4 joined; its vote now fails on the finalized proposal and
    // the tallies stay exactly as finalization left them
    let ayes_before = m.votings(1).unwrap().ayes.clone();
    let nays_before = m.votings(1).unwrap().nays.clone();
    assert_eq!(m.approve(4, 1), Err(Error::ProposalFinalized));
    assert_eq!(m.reject(4, 1), Err(Error::ProposalFinalized));
    assert_eq!(m.votings(1).unwrap().ayes, ayes_before);
    assert_eq!(m.votings(1).unwrap().nays, nays_before);
}

#[test]
fn execution_failure_downgrades_to_rejected() {
    // Two proposals both remove member 3. The first executes; by the time
    // the second crosses its threshold, 3 is gone, so its execution fails
    // and the outcome is downgraded to Rejected instead of aborting.
    let mut m = SmultisigModule::new(1, 5, 5);
    assert!(m.create_multisig_group(1, vec![1, 2, 3]).is_ok());

    let a = m
        .create_proposal(1, ProposalType::RemoveMember, 3, ProposalThreshold::MoreThanHalf)
        .unwrap();
    let b = m
        .create_proposal(2, ProposalType::RemoveMember, 3, ProposalThreshold::MoreThanHalf)
        .unwrap();

    // required(3, MoreThanHalf) = 2: the second aye executes the removal
    assert!(m.approve(2, a).is_ok());
    assert_eq!(m.proposals(a).unwrap().status, ProposalStatus::Approved);
    assert_eq!(*m.members(), vec![1, 2]);

    // required(2, MoreThanHalf) = 2: proposal b crosses, but 3 is absent
    assert!(m.approve(1, b).is_ok());
    assert_eq!(m.proposals(b).unwrap().status, ProposalStatus::Rejected);
    assert_eq!(*m.members(), vec![1, 2]);
}

#[test]
fn group_creation_replaces_the_group() {
    let mut m = new_module();
    assert!(m.create_multisig_group(1, vec![1, 2, 3]).is_ok());
    assert!(m.create_multisig_group(7, vec![7, 8, 9]).is_ok());
    assert_eq!(*m.members(), vec![7, 8, 9]);
}

#[test]
fn sole_member_executes_immediately() {
    // with one member and unanimity, the creator's implicit vote already
    // meets the threshold: the proposal is approved and executed in the
    // creating call itself
    let mut m = SmultisigModule::new(1, 5, 5);
    assert!(m.create_multisig_group(1, vec![1]).is_ok());
    assert!(m.add_member(1, 2).is_ok());
    assert_eq!(m.proposals(1).unwrap().status, ProposalStatus::Approved);
    assert_eq!(*m.members(), vec![1, 2]);
}

#[test]
fn notification_log_of_an_approved_addition() {
    // the exact, ordered notification trail of the growth scenario
    let mut m = new_module();
    assert!(m.create_multisig_group(1, vec![1, 2, 3]).is_ok());
    assert!(m.add_member(1, 4).is_ok());
    assert!(m.approve(2, 1).is_ok());
    assert!(m.approve(3, 1).is_ok());
    assert_eq!(
        *m.events(),
        vec![
            Event::CreateMultisig { who: 1, dyn_threshold: 3 },
            Event::ApprovalProposal { proposal_id: 1, vote: 1, who: 1 },
            Event::CreateProposal {
                who: 1,
                proposal_id: 1,
                threshold: ProposalThreshold::All,
                status: ProposalStatus::Pending,
            },
            Event::ApprovalProposal { proposal_id: 1, vote: 2, who: 2 },
            Event::ApprovalProposal { proposal_id: 1, vote: 3, who: 3 },
            Event::ChangeGroup { account: 1, dynthreshold: 3 },
            Event::FinshedProposal { proposal_id: 1, vote: 3, status: ProposalStatus::Approved },
        ]
    );
}

#[test]
fn pending_proposals_are_listed_in_order() {
    let mut m = new_module();
    assert!(m.create_multisig_group(1, vec![1, 2, 3, 4]).is_ok());
    let a = m
        .create_proposal(1, ProposalType::AddMember, 5, ProposalThreshold::MoreThanHalf)
        .unwrap();
    let b = m
        .create_proposal(2, ProposalType::RemoveMember, 4, ProposalThreshold::MoreThanHalf)
        .unwrap();
    let c = m
        .create_proposal(3, ProposalType::AddMember, 6, ProposalThreshold::MoreThanHalf)
        .unwrap();

    // finalize the middle one by rejection: required(4, MoreThanHalf) = 3
    assert!(m.reject(1, b).is_ok());
    assert!(m.reject(3, b).is_ok());
    assert!(m.reject(4, b).is_ok());
    assert_eq!(m.proposals(b).unwrap().status, ProposalStatus::Rejected);

    let pending = m.get_pending_proposal();
    assert_eq!(pending.len(), 2);
    assert_eq!(pending[0].proposal_id, a);
    assert_eq!(pending[1].proposal_id, c);
    assert_eq!(pending[0].status, ProposalStatus::Pending);
    assert_eq!(pending[1].status, ProposalStatus::Pending);
}
