//! The mathematical state of the governance engine and its transitions.
//!
//! Every public operation of the engine is specified as a function from a
//! [`StateView`] to the next `StateView` (or an [`Error`], in which case the
//! state is unchanged): operations are atomic, all-or-nothing transitions.

use vstd::prelude::*;

use crate::order::{canon_seq, sorted_insert, sorted_strict};
use crate::policy::{spec_dyn_threshold, spec_required};
use crate::types::{
    Error, Event, Proposal, ProposalStatus, ProposalThreshold, ProposalType, VoteView,
};

verus! {

/// The whole ledger-visible state: configuration bounds, the member group,
/// the proposal and vote-record tables, and the notification log.
#[verifier::ext_equal]
pub ghost struct StateView {
    /// Smallest group size a successful mutation may leave behind.
    pub min_members: u32,
    /// Largest group size a successful mutation may produce.
    pub max_members: u32,
    /// Group sizes above this ceiling admit no new proposals.
    pub proposal_ceiling: u32,
    /// The group: strictly ascending member identities.
    pub members: Seq<u64>,
    /// Proposal records, at index `id - 1`; never deleted.
    pub proposals: Seq<Proposal>,
    /// One vote record per proposal, at the same index.
    pub votes: Seq<VoteView>,
    /// Notifications, one per state transition, oldest first.
    pub events: Seq<Event>,
}

/// Well-formedness of one proposal/vote-record pair: identifiers equal the
/// position, nobody votes twice or on both sides, the approval counter
/// mirrors the aye list, and tallies stay within the group bound.
pub open spec fn wf_slot(s: StateView, i: int) -> bool {
    let p = s.proposals[i];
    let v = s.votes[i];
    &&& p.proposal_id == i + 1
    &&& v.index == i + 1
    &&& v.ayes.no_duplicates()
    &&& v.nays.no_duplicates()
    &&& forall|x: u64| v.ayes.contains(x) ==> !v.nays.contains(x)
    &&& p.vote as nat == v.ayes.len()
    &&& v.ayes.len() <= s.max_members as nat
    &&& v.nays.len() <= s.max_members as nat
    &&& p.status is Pending ==> v.ayes.len() < s.max_members as nat && v.nays.len()
        < s.max_members as nat
}

/// Well-formedness of the whole state.
pub open spec fn wf_state(s: StateView) -> bool {
    &&& 1 <= s.min_members <= s.max_members
    &&& sorted_strict(s.members)
    &&& s.members.len() <= s.max_members as nat
    &&& s.members.len() == 0 || s.members.len() >= s.min_members as nat
    &&& s.proposals.len() == s.votes.len()
    &&& s.proposals.len() <= u32::MAX as nat
    &&& forall|i: int| 0 <= i < s.proposals.len() ==> #[trigger] wf_slot(s, i)
}

/// Group creation: the caller must name itself, and the deduplicated list
/// must fit the configured bounds; the group is replaced wholesale.
pub open spec fn create_group_result(s: StateView, who: u64, members: Seq<u64>) -> Result<
    StateView,
    Error,
> {
    let canon = canon_seq(members);
    if !members.contains(who) {
        Err(Error::CallerNotIncluded)
    } else if canon.len() < s.min_members as nat {
        Err(Error::GroupTooSmall)
    } else if canon.len() > s.max_members as nat {
        Err(Error::GroupTooLarge)
    } else {
        Ok(
            StateView {
                members: canon,
                events: s.events.push(
                    Event::CreateMultisig {
                        who,
                        dyn_threshold: spec_dyn_threshold(canon.len()) as u32,
                    },
                ),
                ..s
            },
        )
    }
}

/// A member can be added iff absent and below the size bound.
pub open spec fn member_add_ok(s: StateView, target: u64) -> bool {
    !s.members.contains(target) && s.members.len() < s.max_members as nat
}

/// A member can be removed iff present and the minimum is kept.
pub open spec fn member_remove_ok(s: StateView, target: u64) -> bool {
    s.members.contains(target) && s.members.len() > s.min_members as nat
}

/// Whether the payload of proposal `i` can be applied right now.
pub open spec fn payload_ok(s: StateView, i: int) -> bool {
    match s.proposals[i].proposaltype {
        ProposalType::AddMember => member_add_ok(s, s.proposals[i].target),
        ProposalType::RemoveMember => member_remove_ok(s, s.proposals[i].target),
    }
}

/// The member list after applying the payload of proposal `i`.
pub open spec fn members_after(s: StateView, i: int) -> Seq<u64> {
    match s.proposals[i].proposaltype {
        ProposalType::AddMember => sorted_insert(s.members, s.proposals[i].target),
        ProposalType::RemoveMember => s.members.remove_value(s.proposals[i].target),
    }
}

/// Execution of proposal `i`, already marked `Approved`: on success the
/// group changes and the status stays `Approved`; an execution failure is
/// absorbed by downgrading the outcome to `Rejected` instead of aborting.
pub open spec fn execute_result(s: StateView, i: int) -> StateView {
    let p = s.proposals[i];
    if payload_ok(s, i) {
        StateView {
            members: members_after(s, i),
            events: s.events.push(
                Event::ChangeGroup {
                    account: p.owner,
                    dynthreshold: spec_dyn_threshold(members_after(s, i).len()) as u32,
                },
            ).push(
                Event::FinshedProposal {
                    proposal_id: p.proposal_id,
                    vote: p.vote,
                    status: ProposalStatus::Approved,
                },
            ),
            ..s
        }
    } else {
        StateView {
            proposals: s.proposals.update(i, Proposal { status: ProposalStatus::Rejected, ..p }),
            events: s.events.push(
                Event::FinshedProposal {
                    proposal_id: p.proposal_id,
                    vote: p.vote,
                    status: ProposalStatus::Rejected,
                },
            ),
            ..s
        }
    }
}

/// Record an approval: the caller joins the ayes and the counter advances.
pub open spec fn aye_step(s: StateView, i: int, caller: u64) -> StateView {
    let p = s.proposals[i];
    let v = s.votes[i];
    let newcount = (p.vote + 1) as u32;
    StateView {
        proposals: s.proposals.update(i, Proposal { vote: newcount, ..p }),
        votes: s.votes.update(i, VoteView { ayes: v.ayes.push(caller), ..v }),
        events: s.events.push(
            Event::ApprovalProposal { proposal_id: p.proposal_id, vote: newcount, who: caller },
        ),
        ..s
    }
}

/// Record a rejection: the caller joins the nays.
pub open spec fn nay_step(s: StateView, i: int, caller: u64) -> StateView {
    let p = s.proposals[i];
    let v = s.votes[i];
    StateView {
        votes: s.votes.update(i, VoteView { nays: v.nays.push(caller), ..v }),
        events: s.events.push(
            Event::RejectProposal { proposal_id: p.proposal_id, vote: p.vote, who: caller },
        ),
        ..s
    }
}

/// One validated vote on proposal `i`: the vote is recorded, then the
/// threshold (computed from the current group size) decides whether the
/// proposal is approved and executed, rejected, or left pending. The flag
/// reports whether the proposal reached a terminal status in this step.
pub open spec fn vote_step(s: StateView, i: int, caller: u64, approve: bool) -> (StateView, bool) {
    let req = spec_required(s.members.len(), s.proposals[i].threshold);
    if approve {
        let s1 = aye_step(s, i, caller);
        if s1.proposals[i].vote as nat >= req {
            let s2 = StateView {
                proposals: s1.proposals.update(
                    i,
                    Proposal { status: ProposalStatus::Approved, ..s1.proposals[i] },
                ),
                ..s1
            };
            (execute_result(s2, i), true)
        } else {
            (s1, false)
        }
    } else {
        let s1 = nay_step(s, i, caller);
        if s1.votes[i].nays.len() >= req {
            let p1 = s1.proposals[i];
            (
                StateView {
                    proposals: s1.proposals.update(
                        i,
                        Proposal { status: ProposalStatus::Rejected, ..p1 },
                    ),
                    events: s1.events.push(
                        Event::FinshedProposal {
                            proposal_id: p1.proposal_id,
                            vote: p1.vote,
                            status: ProposalStatus::Rejected,
                        },
                    ),
                    ..s1
                },
                true,
            )
        } else {
            (s1, false)
        }
    }
}

/// A vote request: the proposal must exist, the caller must currently be a
/// member, the proposal must still be pending, and the caller must not have
/// voted on it before; then `vote_step` applies.
pub open spec fn vote_result(s: StateView, caller: u64, proposal_id: u32, approve: bool) -> Result<
    (StateView, bool),
    Error,
> {
    if !(1 <= proposal_id && proposal_id as int <= s.proposals.len() as int) {
        Err(Error::ProposalNotFound)
    } else {
        let i = proposal_id as int - 1;
        if !s.members.contains(caller) {
            Err(Error::CallerNotMember)
        } else if !(s.proposals[i].status is Pending) {
            Err(Error::ProposalFinalized)
        } else if s.votes[i].ayes.contains(caller) || s.votes[i].nays.contains(caller) {
            Err(Error::DuplicateVote)
        } else {
            Ok(vote_step(s, i, caller, approve))
        }
    }
}

/// Validation of a creation request: only members may propose, oversized
/// groups admit no proposals, and the payload must change something.
pub open spec fn create_checks(
    s: StateView,
    caller: u64,
    kind: ProposalType,
    target: u64,
) -> Option<Error> {
    if !s.members.contains(caller) {
        Some(Error::CallerNotMember)
    } else if s.members.len() > s.proposal_ceiling as nat {
        Some(Error::GroupTooLarge)
    } else if (kind is AddMember && s.members.contains(target)) || (kind is RemoveMember
        && !s.members.contains(target)) {
        Some(Error::DuplicateTarget)
    } else {
        None
    }
}

/// Allocation of the next proposal: the identifier is the running count plus
/// one, the status starts `Pending` with an empty vote record.
pub open spec fn allocate_step(
    s: StateView,
    caller: u64,
    kind: ProposalType,
    target: u64,
    policy: ProposalThreshold,
) -> StateView {
    let id = (s.proposals.len() + 1) as u32;
    StateView {
        proposals: s.proposals.push(
            Proposal {
                proposal_id: id,
                threshold: policy,
                status: ProposalStatus::Pending,
                vote: 0,
                proposaltype: kind,
                target,
                owner: caller,
            },
        ),
        votes: s.votes.push(VoteView { index: id, ayes: Seq::empty(), nays: Seq::empty() }),
        ..s
    }
}

/// A creation request: after validation the proposal is allocated, the
/// creator's implicit first approval is routed through `vote_step`, and the
/// creation notification is logged last.
pub open spec fn create_result(
    s: StateView,
    caller: u64,
    kind: ProposalType,
    target: u64,
    policy: ProposalThreshold,
) -> Result<(StateView, u32), Error> {
    match create_checks(s, caller, kind, target) {
        Some(e) => Err(e),
        None => {
            let id = (s.proposals.len() + 1) as u32;
            let s1 = allocate_step(s, caller, kind, target, policy);
            let s2 = vote_step(s1, id as int - 1, caller, true).0;
            let s3 = StateView {
                events: s2.events.push(
                    Event::CreateProposal {
                        who: caller,
                        proposal_id: id,
                        threshold: policy,
                        status: ProposalStatus::Pending,
                    },
                ),
                ..s2
            };
            Ok((s3, id))
        },
    }
}

/// The proposals that are still awaiting votes, in ascending identifier
/// order.
pub open spec fn spec_pending(proposals: Seq<Proposal>) -> Seq<Proposal> {
    proposals.filter(|p: Proposal| p.status is Pending)
}

/// Appending a fresh voter keeps a duplicate-free tally duplicate-free.
proof fn lemma_push_no_duplicates(s: Seq<u64>, x: u64)
    requires
        s.no_duplicates(),
        !s.contains(x),
    ensures
        s.push(x).no_duplicates(),
{
    let s2 = s.push(x);
    assert forall|p: int, q: int| 0 <= p < q < s2.len() implies s2[p] != s2[q] by {
        if q == s2.len() - 1 {
            assert(s2[p] == s[p]);
            assert(s.contains(s[p]));
        }
    }
}

/// A successful group creation leaves a well-formed state and touches only
/// the member list and the notification log.
pub proof fn lemma_create_group_wf(s: StateView, who: u64, members: Seq<u64>)
    requires
        wf_state(s),
    ensures
        match create_group_result(s, who, members) {
            Ok(s2) => {
                &&& wf_state(s2)
                &&& s2.proposals == s.proposals
                &&& s2.votes == s.votes
                &&& s2.min_members == s.min_members
                &&& s2.max_members == s.max_members
                &&& s2.proposal_ceiling == s.proposal_ceiling
            },
            Err(_) => true,
        },
{
    crate::order::lemma_canon_props(members);
    match create_group_result(s, who, members) {
        Ok(s2) => {
            assert forall|i: int| 0 <= i < s2.proposals.len() implies #[trigger] wf_slot(
                s2,
                i,
            ) by {
                assert(wf_slot(s, i));
            }
        },
        Err(_) => {},
    }
}

/// Executing an approved proposal preserves well-formedness: a possible
/// membership change respects the size bounds (otherwise the outcome is
/// downgraded), and vote records are untouched.
pub proof fn lemma_execute_wf(s: StateView, i: int)
    requires
        wf_state(s),
        0 <= i < s.proposals.len(),
        s.proposals[i].status is Approved,
        s.members.len() >= 1,
    ensures
        wf_state(execute_result(s, i)),
        execute_result(s, i).proposals.len() == s.proposals.len(),
        execute_result(s, i).votes == s.votes,
        execute_result(s, i).min_members == s.min_members,
        execute_result(s, i).max_members == s.max_members,
        execute_result(s, i).proposal_ceiling == s.proposal_ceiling,
        !(execute_result(s, i).proposals[i].status is Pending),
        execute_result(s, i).members.len() >= 1,
        forall|j: int|
            0 <= j < s.proposals.len() && j != i ==> execute_result(s, i).proposals[j]
                == s.proposals[j],
{
    let r = execute_result(s, i);
    let p = s.proposals[i];
    if payload_ok(s, i) {
        match p.proposaltype {
            ProposalType::AddMember => {
                crate::order::lemma_sorted_insert_props(s.members, p.target);
            },
            ProposalType::RemoveMember => {
                let j = choose|j: int| 0 <= j < s.members.len() && s.members[j] == p.target;
                crate::order::lemma_sorted_remove(s.members, j);
            },
        }
        assert forall|k: int| 0 <= k < r.proposals.len() implies #[trigger] wf_slot(r, k) by {
            assert(wf_slot(s, k));
        }
    } else {
        assert forall|k: int| 0 <= k < r.proposals.len() implies #[trigger] wf_slot(r, k) by {
            assert(wf_slot(s, k));
        }
    }
}

/// One validated vote preserves well-formedness; the vote lands in exactly
/// one tally of exactly one proposal, the proposal count is unchanged, and
/// the proposal stays pending if and only if no threshold was crossed.
pub proof fn lemma_vote_step_wf(s: StateView, i: int, caller: u64, approve: bool)
    requires
        wf_state(s),
        0 <= i < s.proposals.len(),
        s.proposals[i].status is Pending,
        s.members.contains(caller),
        !s.votes[i].ayes.contains(caller),
        !s.votes[i].nays.contains(caller),
    ensures
        ({
            let (s2, done) = vote_step(s, i, caller, approve);
            &&& wf_state(s2)
            &&& s2.proposals.len() == s.proposals.len()
            &&& s2.votes.len() == s.votes.len()
            &&& s2.min_members == s.min_members
            &&& s2.max_members == s.max_members
            &&& s2.proposal_ceiling == s.proposal_ceiling
            &&& s2.votes[i].ayes == (if approve {
                s.votes[i].ayes.push(caller)
            } else {
                s.votes[i].ayes
            })
            &&& s2.votes[i].nays == (if approve {
                s.votes[i].nays
            } else {
                s.votes[i].nays.push(caller)
            })
            &&& (s2.proposals[i].status is Pending <==> !done)
            &&& (!done ==> s2.members == s.members)
            &&& s2.members.len() >= 1
            &&& forall|j: int|
                0 <= j < s.proposals.len() && j != i ==> s2.proposals[j] == s.proposals[j]
                    && s2.votes[j] == s.votes[j]
        }),
{
    broadcast use vstd::seq_lib::lemma_seq_contains_after_push;

    let size = s.members.len();
    assert(size >= 1);
    let req = spec_required(size, s.proposals[i].threshold);
    crate::policy::lemma_required_bounds(size, s.proposals[i].threshold);
    assert(wf_slot(s, i));
    let v = s.votes[i];
    let p = s.proposals[i];
    if approve {
        lemma_push_no_duplicates(v.ayes, caller);
        let s1 = aye_step(s, i, caller);
        assert(s1.votes[i].ayes == v.ayes.push(caller));
        assert(s1.proposals[i].vote as nat == v.ayes.len() + 1);
        if s1.proposals[i].vote as nat >= req {
            let s2 = StateView {
                proposals: s1.proposals.update(
                    i,
                    Proposal { status: ProposalStatus::Approved, ..s1.proposals[i] },
                ),
                ..s1
            };
            assert(wf_state(s2)) by {
                assert forall|k: int| 0 <= k < s2.proposals.len() implies #[trigger] wf_slot(
                    s2,
                    k,
                ) by {
                    assert(wf_slot(s, k));
                }
            }
            lemma_execute_wf(s2, i);
        } else {
            assert(wf_state(s1)) by {
                assert forall|k: int| 0 <= k < s1.proposals.len() implies #[trigger] wf_slot(
                    s1,
                    k,
                ) by {
                    assert(wf_slot(s, k));
                }
            }
        }
    } else {
        lemma_push_no_duplicates(v.nays, caller);
        let s1 = nay_step(s, i, caller);
        assert(s1.votes[i].nays == v.nays.push(caller));
        if s1.votes[i].nays.len() >= req {
            let p1 = s1.proposals[i];
            let s2 = StateView {
                proposals: s1.proposals.update(
                    i,
                    Proposal { status: ProposalStatus::Rejected, ..p1 },
                ),
                events: s1.events.push(
                    Event::FinshedProposal {
                        proposal_id: p1.proposal_id,
                        vote: p1.vote,
                        status: ProposalStatus::Rejected,
                    },
                ),
                ..s1
            };
            assert(wf_state(s2)) by {
                assert forall|k: int| 0 <= k < s2.proposals.len() implies #[trigger] wf_slot(
                    s2,
                    k,
                ) by {
                    assert(wf_slot(s, k));
                }
            }
        } else {
            assert(wf_state(s1)) by {
                assert forall|k: int| 0 <= k < s1.proposals.len() implies #[trigger] wf_slot(
                    s1,
                    k,
                ) by {
                    assert(wf_slot(s, k));
                }
            }
        }
    }
}

/// A successful vote request preserves well-formedness and never changes
/// the number of proposals; a failed one is pure validation.
pub proof fn lemma_vote_result_wf(s: StateView, caller: u64, proposal_id: u32, approve: bool)
    requires
        wf_state(s),
    ensures
        match vote_result(s, caller, proposal_id, approve) {
            Ok(pair) => {
                &&& wf_state(pair.0)
                &&& pair.0.proposals.len() == s.proposals.len()
                &&& pair.0.min_members == s.min_members
                &&& pair.0.max_members == s.max_members
                &&& pair.0.proposal_ceiling == s.proposal_ceiling
                &&& s.min_members as nat <= pair.0.members.len() <= s.max_members as nat
            },
            Err(_) => true,
        },
{
    match vote_result(s, caller, proposal_id, approve) {
        Ok(_) => {
            lemma_vote_step_wf(s, proposal_id as int - 1, caller, approve);
        },
        Err(_) => {},
    }
}

/// A successful creation preserves well-formedness, allocates exactly the
/// next identifier, and grows the proposal table by one.
pub proof fn lemma_create_result_wf(
    s: StateView,
    caller: u64,
    kind: ProposalType,
    target: u64,
    policy: ProposalThreshold,
)
    requires
        wf_state(s),
        s.proposals.len() < u32::MAX as nat,
    ensures
        match create_result(s, caller, kind, target, policy) {
            Ok(pair) => {
                &&& wf_state(pair.0)
                &&& pair.1 as nat == s.proposals.len() + 1
                &&& pair.0.proposals.len() == s.proposals.len() + 1
                &&& pair.0.proposals[pair.1 as int - 1].proposal_id == pair.1
                &&& pair.0.min_members == s.min_members
                &&& pair.0.max_members == s.max_members
                &&& pair.0.proposal_ceiling == s.proposal_ceiling
                &&& s.min_members as nat <= pair.0.members.len() <= s.max_members as nat
            },
            Err(_) => true,
        },
{
    match create_result(s, caller, kind, target, policy) {
        Ok(pair) => {
            let id = (s.proposals.len() + 1) as u32;
            let s1 = allocate_step(s, caller, kind, target, policy);
            let i = id as int - 1;
            assert(wf_state(s1)) by {
                assert forall|k: int| 0 <= k < s1.proposals.len() implies #[trigger] wf_slot(
                    s1,
                    k,
                ) by {
                    if k < s.proposals.len() {
                        assert(wf_slot(s, k));
                    }
                }
            }
            assert(s1.proposals[i].status is Pending);
            assert(!s1.votes[i].ayes.contains(caller));
            assert(!s1.votes[i].nays.contains(caller));
            lemma_vote_step_wf(s1, i, caller, true);
            let s2 = vote_step(s1, i, caller, true).0;
            let s3 = pair.0;
            assert(wf_state(s3)) by {
                assert forall|k: int| 0 <= k < s3.proposals.len() implies #[trigger] wf_slot(
                    s3,
                    k,
                ) by {
                    assert(wf_slot(s2, k));
                }
            }
            assert(wf_slot(s3, id as int - 1));
        },
        Err(_) => {},
    }
}

} // verus!
