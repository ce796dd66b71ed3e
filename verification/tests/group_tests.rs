use smultisig::engine::SmultisigModule;
use smultisig::types::{Event, ProposalStatus, ProposalThreshold};

/// Engine configured like a small deployment: at least 3 and at most 5
/// members, proposals admitted while the group has at most 5 members.
fn new_module() -> SmultisigModule {
    SmultisigModule::new(3, 5, 5)
}

/// Checks events against the latest. A contiguous set of events must be
/// provided; they must include the most recent event, but do not have to
/// include every past event.
fn assert_events(m: &SmultisigModule, expected: Vec<Event>) {
    let actual = m.events();
    assert!(actual.len() >= expected.len(), "fewer events than expected");
    let offset = actual.len() - expected.len();
    for (i, evt) in expected.iter().enumerate() {
        assert_eq!(actual[offset + i], *evt, "Events don't match");
    }
}

#[test]
fn it_create_multisig_group() {
    let mut m = new_module();
    assert!(m.create_multisig_group(1, vec![1, 2, 3]).is_ok());

    assert!(m.add_member(1, 4).is_ok());

    assert_events(
        &m,
        vec![Event::CreateProposal {
            who: 1,
            proposal_id: 1,
            threshold: ProposalThreshold::All,
            status: ProposalStatus::Pending,
        }],
    );

    assert!(m.approve(2, 1).is_ok());

    let proposal_vote = m.votings(1).unwrap();
    assert!(proposal_vote.ayes.contains(&1));
    assert!(proposal_vote.ayes.contains(&2));

    assert!(m.reject(3, 1).is_ok());

    let members = m.add_members(1).unwrap();
    assert_eq!(members, 4);

    assert!(!m.members().contains(&4));
}

#[test]
fn remove_member_work() {
    let mut m = new_module();
    assert!(m.create_multisig_group(1, vec![1, 2, 3, 4]).is_ok());
    assert_events(&m, vec![Event::CreateMultisig { who: 1, dyn_threshold: 3 }]);

    assert!(m.remove_member(1, 4).is_ok());

    let members = m.remove_members(1).unwrap();
    assert_eq!(members, 4);

    assert_events(
        &m,
        vec![Event::CreateProposal {
            who: 1,
            proposal_id: 1,
            threshold: ProposalThreshold::All,
            status: ProposalStatus::Pending,
        }],
    );

    assert!(m.approve(2, 1).is_ok());

    assert!(m.approve(3, 1).is_ok());

    assert!(m.approve(4, 1).is_ok());

    assert!(!m.members().contains(&4));
}

#[test]
fn it_add_members_into_group_work() {
    let mut m = new_module();
    assert!(m.create_multisig_group(1, vec![1, 2, 3]).is_ok());

    assert!(m.add_member(1, 4).is_ok());
    assert_events(
        &m,
        vec![Event::CreateProposal {
            who: 1,
            proposal_id: 1,
            threshold: ProposalThreshold::All,
            status: ProposalStatus::Pending,
        }],
    );

    assert!(m.approve(2, 1).is_ok());

    let proposal_vote = m.votings(1).unwrap();
    assert!(proposal_vote.ayes.contains(&1));
    assert!(proposal_vote.ayes.contains(&2));

    assert!(m.approve(3, 1).is_ok());

    let members = m.add_members(1).unwrap();
    assert_eq!(members, 4);

    assert!(m.members().contains(&4));
}
