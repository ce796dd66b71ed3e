use smultisig::engine::SmultisigModule;
use smultisig::policy::{calculate_dyn_threshold, required_votes};
use smultisig::registry::MembershipRegistry;
use smultisig::types::{Error, Event, ProposalThreshold, ProposalType};

fn new_module() -> SmultisigModule {
    SmultisigModule::new(3, 5, 5)
}

#[test]
fn group_creation_deduplicates_and_sorts() {
    let mut m = SmultisigModule::new(1, 5, 5);
    assert!(m.create_multisig_group(3, vec![3, 1, 2, 3, 1]).is_ok());
    assert_eq!(*m.members(), vec![1, 2, 3]);
    assert_eq!(
        *m.events().last().unwrap(),
        Event::CreateMultisig { who: 3, dyn_threshold: 3 }
    );
}

#[test]
fn group_creation_errors() {
    let mut m = new_module();
    // the caller must name itself among the members
    assert_eq!(m.create_multisig_group(9, vec![1, 2, 3]), Err(Error::CallerNotIncluded));
    // three duplicated entries are one member, below the minimum of 3
    assert_eq!(m.create_multisig_group(1, vec![1, 1, 1]), Err(Error::GroupTooSmall));
    assert_eq!(m.create_multisig_group(1, vec![]), Err(Error::CallerNotIncluded));
    assert_eq!(m.create_multisig_group(1, vec![1, 2]), Err(Error::GroupTooSmall));
    // six distinct members exceed the maximum of 5
    assert_eq!(m.create_multisig_group(1, vec![1, 2, 3, 4, 5, 6]), Err(Error::GroupTooLarge));
    // nothing was created along the way
    assert_eq!(*m.members(), Vec::<u64>::new());
    assert_eq!(m.events().len(), 0);
}

#[test]
fn proposal_creation_errors() {
    let mut m = new_module();
    assert!(m.create_multisig_group(1, vec![1, 2, 3]).is_ok());

    // only members may propose
    assert_eq!(
        m.create_proposal(9, ProposalType::AddMember, 4, ProposalThreshold::All),
        Err(Error::CallerNotMember)
    );
    // adding an existing member, or removing an absent one, changes nothing
    assert_eq!(m.add_member(1, 2), Err(Error::DuplicateTarget));
    assert_eq!(m.remove_member(1, 9), Err(Error::DuplicateTarget));
    assert_eq!(m.get_pending_proposal().len(), 0);
}

#[test]
fn oversized_group_admits_no_proposals() {
    // with a proposal-eligibility ceiling of 2, a group of 3 is too large
    // to admit new proposals
    let mut m = SmultisigModule::new(1, 5, 2);
    assert!(m.create_multisig_group(1, vec![1, 2, 3]).is_ok());
    assert_eq!(m.add_member(1, 9), Err(Error::GroupTooLarge));
}

#[test]
fn voting_errors() {
    let mut m = new_module();
    assert!(m.create_multisig_group(1, vec![1, 2, 3]).is_ok());
    assert_eq!(m.approve(1, 1), Err(Error::ProposalNotFound));
    assert_eq!(m.reject(1, 99), Err(Error::ProposalNotFound));

    assert!(m.add_member(1, 4).is_ok());
    assert_eq!(m.approve(9, 1), Err(Error::CallerNotMember));
    assert_eq!(m.reject(9, 1), Err(Error::CallerNotMember));
    // the not-yet-admitted target may not vote either
    assert_eq!(m.approve(4, 1), Err(Error::CallerNotMember));
}

#[test]
fn registry_remove_errors() {
    let mut r = MembershipRegistry::new(2, 5);
    let mut group: Vec<u64> = vec![1, 2];
    assert_eq!(r.initialize(1, &group), Ok(2));

    // removing an absent member
    assert_eq!(r.remove(9), Err(Error::MemberNotFound));
    // removal may not breach the configured minimum of 2
    assert_eq!(r.remove(2), Err(Error::GroupTooSmall));

    group = vec![1, 2, 3];
    assert_eq!(r.initialize(1, &group), Ok(3));
    assert_eq!(r.remove(2), Ok(()));
    assert_eq!(*r.members(), vec![1, 3]);
}

#[test]
fn registry_add_errors() {
    let mut r = MembershipRegistry::new(1, 3);
    let group: Vec<u64> = vec![1, 2];
    assert_eq!(r.initialize(1, &group), Ok(2));

    // a present member cannot be added again
    assert_eq!(r.add(2), Err(Error::GroupTooLarge));
    assert_eq!(r.add(3), Ok(()));
    // the bound of 3 is reached
    assert_eq!(r.add(4), Err(Error::GroupTooLarge));
    assert_eq!(*r.members(), vec![1, 2, 3]);
}

#[test]
fn required_votes_formulas() {
    // All: the whole group
    assert_eq!(required_votes(3, ProposalThreshold::All), 3);
    assert_eq!(required_votes(5, ProposalThreshold::All), 5);
    // MoreThanHalf: floor(size / 2) + 1
    assert_eq!(required_votes(3, ProposalThreshold::MoreThanHalf), 2);
    assert_eq!(required_votes(4, ProposalThreshold::MoreThanHalf), 3);
    assert_eq!(required_votes(5, ProposalThreshold::MoreThanHalf), 3);
    // MoreThanTwoThirds: ceil(2 * size / 3)
    assert_eq!(required_votes(3, ProposalThreshold::MoreThanTwoThirds), 2);
    assert_eq!(required_votes(4, ProposalThreshold::MoreThanTwoThirds), 3);
    assert_eq!(required_votes(5, ProposalThreshold::MoreThanTwoThirds), 4);
    assert_eq!(required_votes(6, ProposalThreshold::MoreThanTwoThirds), 4);
    // MoreThanThreeQuarters: ceil(3 * size / 4)
    assert_eq!(required_votes(4, ProposalThreshold::MoreThanThreeQuarters), 3);
    assert_eq!(required_votes(5, ProposalThreshold::MoreThanThreeQuarters), 4);
    assert_eq!(required_votes(8, ProposalThreshold::MoreThanThreeQuarters), 6);
}

#[test]
fn dynamic_threshold_by_group_size() {
    assert_eq!(calculate_dyn_threshold(&vec![1, 2]), 2);
    assert_eq!(calculate_dyn_threshold(&vec![1, 2, 3]), 3);
    assert_eq!(calculate_dyn_threshold(&vec![1, 2, 3, 4]), 3);
    assert_eq!(calculate_dyn_threshold(&vec![1, 2, 3, 4, 5]), 4);
    assert_eq!(calculate_dyn_threshold(&vec![1, 2, 3, 4, 5, 6]), 4);
    assert_eq!(calculate_dyn_threshold(&vec![1, 2, 3, 4, 5, 6, 7, 8]), 5);
}
