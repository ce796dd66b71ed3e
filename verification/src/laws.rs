//! The governance laws the library guarantees, stated and proved once and
//! for all over the state transitions of [`crate::state`].

use vstd::prelude::*;

use crate::policy::spec_required;
use crate::state::{
    create_group_result, create_result, lemma_create_result_wf, lemma_vote_result_wf,
    lemma_vote_step_wf, payload_ok, vote_result, wf_slot, wf_state, StateView,
};
use crate::types::{Error, ProposalThreshold, ProposalType};

verus! {

/// **Uniqueness (group creation).** A successful group creation yields a
/// duplicate-free group whose size lies within the configured bounds.
pub proof fn lemma_group_uniqueness_create(s: StateView, who: u64, members: Seq<u64>)
    requires
        wf_state(s),
        create_group_result(s, who, members) is Ok,
    ensures
        ({
            let s2 = create_group_result(s, who, members).unwrap();
            &&& s2.members.no_duplicates()
            &&& s.min_members as nat <= s2.members.len() <= s.max_members as nat
        }),
{
    crate::state::lemma_create_group_wf(s, who, members);
    crate::order::lemma_canon_props(members);
    crate::order::lemma_sorted_no_duplicates(crate::order::canon_seq(members));
}

/// **Uniqueness (proposal creation).** A successful proposal creation —
/// whose implicit first vote may already execute a membership change —
/// leaves the group duplicate-free and within the configured bounds.
pub proof fn lemma_group_uniqueness_create_proposal(
    s: StateView,
    caller: u64,
    kind: ProposalType,
    target: u64,
    policy: ProposalThreshold,
)
    requires
        wf_state(s),
        s.proposals.len() < u32::MAX as nat,
        create_result(s, caller, kind, target, policy) is Ok,
    ensures
        ({
            let s2 = create_result(s, caller, kind, target, policy).unwrap().0;
            &&& s2.members.no_duplicates()
            &&& s.min_members as nat <= s2.members.len() <= s.max_members as nat
        }),
{
    lemma_create_result_wf(s, caller, kind, target, policy);
    let s2 = create_result(s, caller, kind, target, policy).unwrap().0;
    crate::order::lemma_sorted_no_duplicates(s2.members);
}

/// **Uniqueness (voting).** A successful vote — even one that executes a
/// membership change — leaves the group duplicate-free and within the
/// configured bounds.
pub proof fn lemma_group_uniqueness_vote(
    s: StateView,
    caller: u64,
    proposal_id: u32,
    approve: bool,
)
    requires
        wf_state(s),
        vote_result(s, caller, proposal_id, approve) is Ok,
    ensures
        ({
            let s2 = vote_result(s, caller, proposal_id, approve).unwrap().0;
            &&& s2.members.no_duplicates()
            &&& s.min_members as nat <= s2.members.len() <= s.max_members as nat
        }),
{
    lemma_vote_result_wf(s, caller, proposal_id, approve);
    let s2 = vote_result(s, caller, proposal_id, approve).unwrap().0;
    crate::order::lemma_sorted_no_duplicates(s2.members);
}

/// **Monotonic identifiers.** A successful creation allocates exactly the
/// store's running count plus one; hence two consecutive successful
/// creations yield consecutive identifiers, whoever makes them.
pub proof fn lemma_monotonic_ids(
    s: StateView,
    caller1: u64,
    kind1: ProposalType,
    target1: u64,
    policy1: ProposalThreshold,
    caller2: u64,
    kind2: ProposalType,
    target2: u64,
    policy2: ProposalThreshold,
)
    requires
        wf_state(s),
        s.proposals.len() + 1 < u32::MAX as nat,
        create_result(s, caller1, kind1, target1, policy1) is Ok,
        ({
            let s1 = create_result(s, caller1, kind1, target1, policy1).unwrap().0;
            create_result(s1, caller2, kind2, target2, policy2) is Ok
        }),
    ensures
        ({
            let (s1, id1) = create_result(s, caller1, kind1, target1, policy1).unwrap();
            let (s2, id2) = create_result(s1, caller2, kind2, target2, policy2).unwrap();
            id2 == id1 + 1
        }),
{
    lemma_create_result_wf(s, caller1, kind1, target1, policy1);
    let s1 = create_result(s, caller1, kind1, target1, policy1).unwrap().0;
    lemma_create_result_wf(s1, caller2, kind2, target2, policy2);
}

/// **At most one vote per member per proposal.** Once a member's vote on a
/// proposal is recorded and the proposal is still pending, any further vote
/// by the same member on that proposal fails with `DuplicateVote`.
pub proof fn lemma_duplicate_vote(
    s: StateView,
    caller: u64,
    proposal_id: u32,
    first_approve: bool,
    second_approve: bool,
)
    requires
        wf_state(s),
        vote_result(s, caller, proposal_id, first_approve) is Ok,
        ({
            let s1 = vote_result(s, caller, proposal_id, first_approve).unwrap().0;
            s1.proposals[proposal_id as int - 1].status is Pending
        }),
    ensures
        ({
            let s1 = vote_result(s, caller, proposal_id, first_approve).unwrap().0;
            vote_result(s1, caller, proposal_id, second_approve) == Err::<
                (StateView, bool),
                Error,
            >(Error::DuplicateVote)
        }),
{
    broadcast use vstd::seq_lib::lemma_seq_contains_after_push;

    let i = proposal_id as int - 1;
    lemma_vote_step_wf(s, i, caller, first_approve);
    let s1 = vote_result(s, caller, proposal_id, first_approve).unwrap().0;
    assert(s1.votes[i].ayes.contains(caller) || s1.votes[i].nays.contains(caller));
}

/// **At most one vote per member per proposal (direct form).** A vote
/// request by a member whose vote is already recorded on a still-pending
/// proposal fails with `DuplicateVote`, on either side of the tally (and
/// every failed request leaves the state untouched, by the voting entry
/// points' contracts).
pub proof fn lemma_vote_by_recorded_voter_fails(
    s: StateView,
    caller: u64,
    proposal_id: u32,
    approve: bool,
)
    requires
        wf_state(s),
        1 <= proposal_id && proposal_id as int <= s.proposals.len(),
        s.members.contains(caller),
        s.proposals[proposal_id as int - 1].status is Pending,
        s.votes[proposal_id as int - 1].ayes.contains(caller) || s.votes[proposal_id as int
            - 1].nays.contains(caller),
    ensures
        vote_result(s, caller, proposal_id, approve) == Err::<(StateView, bool), Error>(
            Error::DuplicateVote,
        ),
{
}

/// **At most one vote per member per proposal (unconditional form).** A
/// second vote by the same member directly after their first one never
/// succeeds: it is refused as a duplicate while the proposal is pending,
/// and as finalized (or for lost membership) once it is not.
pub proof fn lemma_second_vote_never_succeeds(
    s: StateView,
    caller: u64,
    proposal_id: u32,
    first_approve: bool,
    second_approve: bool,
)
    requires
        wf_state(s),
        vote_result(s, caller, proposal_id, first_approve) is Ok,
    ensures
        ({
            let s1 = vote_result(s, caller, proposal_id, first_approve).unwrap().0;
            vote_result(s1, caller, proposal_id, second_approve) is Err
        }),
{
    broadcast use vstd::seq_lib::lemma_seq_contains_after_push;

    let i = proposal_id as int - 1;
    lemma_vote_step_wf(s, i, caller, first_approve);
}

/// **Threshold crossing is exact.** A successful approval records the vote,
/// and the proposal leaves `Pending` in the very call in which the approval
/// count first reaches the required threshold — computed from the group
/// size at that call — and in no earlier call. The outcome is `Approved`
/// exactly when the membership change is applicable at that moment;
/// otherwise the execution failure downgrades it to `Rejected`.
pub proof fn lemma_threshold_crossing(s: StateView, caller: u64, proposal_id: u32)
    requires
        wf_state(s),
        vote_result(s, caller, proposal_id, true) is Ok,
    ensures
        ({
            let i = proposal_id as int - 1;
            let req = spec_required(s.members.len(), s.proposals[i].threshold);
            let (s2, done) = vote_result(s, caller, proposal_id, true).unwrap();
            let newcount = s.votes[i].ayes.len() + 1;
            &&& s2.votes[i].ayes == s.votes[i].ayes.push(caller)
            &&& (newcount >= req <==> done)
            &&& (newcount < req ==> s2.proposals[i].status is Pending && s2.proposals[i].vote as nat
                == newcount && s2.members == s.members)
            &&& (newcount >= req && payload_ok(s, i) ==> s2.proposals[i].status is Approved)
            &&& (newcount >= req && !payload_ok(s, i) ==> s2.proposals[i].status is Rejected
                && s2.members == s.members)
        }),
{
    let i = proposal_id as int - 1;
    assert(wf_slot(s, i));
    lemma_vote_step_wf(s, i, caller, true);
}

/// **No post-finalization mutation.** Once a proposal reached a terminal
/// status, every further vote on it fails — with `ProposalFinalized`
/// whenever the caller is a current member — so its tallies never change
/// again (the voting entry points leave the whole state unchanged on every
/// error).
pub proof fn lemma_no_post_finalization_votes(
    s: StateView,
    caller: u64,
    proposal_id: u32,
    approve: bool,
)
    requires
        wf_state(s),
        1 <= proposal_id && proposal_id as int <= s.proposals.len(),
        !(s.proposals[proposal_id as int - 1].status is Pending),
    ensures
        vote_result(s, caller, proposal_id, approve) is Err,
        s.members.contains(caller) ==> vote_result(s, caller, proposal_id, approve) == Err::<
            (StateView, bool),
            Error,
        >(Error::ProposalFinalized),
{
}

} // verus!
