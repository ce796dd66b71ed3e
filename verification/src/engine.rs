//! The governance engine: entry points for group creation, proposal
//! creation, voting, and threshold-gated execution, over the registry and
//! the proposal store. Each entry point is an atomic transition: it either
//! applies the whole specified change or returns an error and changes
//! nothing.

use vstd::prelude::*;

use crate::order::contains_value;
use crate::policy::{calculate_dyn_threshold, required_votes, spec_dyn_threshold};
use crate::registry::MembershipRegistry;
use crate::state::{
    allocate_step, aye_step, create_result, execute_result, member_add_ok, nay_step, spec_pending,
    vote_result, vote_step, wf_slot, wf_state, StateView,
};
use crate::store::ProposalStore;
use crate::types::{
    Error, Event, Proposal, ProposalStatus, ProposalThreshold, ProposalType, VoteView, Votes,
};

verus! {

/// The multisig governance engine: one group, the proposal audit trail, and
/// the log of emitted notifications.
pub struct SmultisigModule {
    pub registry: MembershipRegistry,
    pub store: ProposalStore,
    pub proposal_ceiling: u32,
    pub events: Vec<Event>,
}

impl View for SmultisigModule {
    type V = StateView;

    open spec fn view(&self) -> StateView {
        StateView {
            min_members: self.registry.min_members,
            max_members: self.registry.max_members,
            proposal_ceiling: self.proposal_ceiling,
            members: self.registry@,
            proposals: self.store.proposals@,
            votes: self.store.votes_view(),
            events: self.events@,
        }
    }
}

impl SmultisigModule {
    /// The engine's invariant; established by `new` and preserved by every
    /// entry point.
    pub open spec fn wf(&self) -> bool {
        wf_state(self@)
    }

    /// A fresh engine: configured bounds, no group, no proposals, no events.
    pub fn new(min_members: u32, max_members: u32, proposal_ceiling: u32) -> (r: SmultisigModule)
        requires
            1 <= min_members <= max_members,
        ensures
            r.wf(),
            r@.min_members == min_members,
            r@.max_members == max_members,
            r@.proposal_ceiling == proposal_ceiling,
            r@.members == Seq::<u64>::empty(),
            r@.proposals == Seq::<Proposal>::empty(),
            r@.votes == Seq::<VoteView>::empty(),
            r@.events == Seq::<Event>::empty(),
    {
        let r = SmultisigModule {
            registry: MembershipRegistry::new(min_members, max_members),
            store: ProposalStore::new(),
            proposal_ceiling,
            events: Vec::new(),
        };
        proof {
            assert(r@.events =~= Seq::<Event>::empty());
        }
        r
    }

    /// The current members, in canonical ascending order.
    pub fn members(&self) -> (r: &Vec<u64>)
        ensures
            r@ == self@.members,
    {
        self.registry.members()
    }

    /// The notifications emitted so far, oldest first.
    pub fn events(&self) -> (r: &Vec<Event>)
        ensures
            r@ == self@.events,
    {
        &self.events
    }

    /// Look a proposal up by its identifier.
    pub fn proposals(&self, proposal_id: u32) -> (r: Option<Proposal>)
        ensures
            if 1 <= proposal_id && proposal_id as int <= self@.proposals.len() {
                r == Some(self@.proposals[proposal_id as int - 1])
            } else {
                r is None
            },
    {
        if proposal_id >= 1 && (proposal_id as usize) <= self.store.len() {
            Some(self.store.get((proposal_id - 1) as usize))
        } else {
            None
        }
    }

    /// Look a vote record up by its proposal identifier.
    pub fn votings(&self, proposal_id: u32) -> (r: Option<&Votes>)
        ensures
            match r {
                Some(v) => 1 <= proposal_id && proposal_id as int <= self@.votes.len() && v@
                    == self@.votes[proposal_id as int - 1],
                None => !(1 <= proposal_id && proposal_id as int <= self@.votes.len()),
            },
    {
        proof {
            assert(self@.votes.len() == self.store.votes@.len());
        }
        if proposal_id >= 1 && (proposal_id as usize) <= self.store.votes.len() {
            Some(self.store.get_votes((proposal_id - 1) as usize))
        } else {
            None
        }
    }

    /// The target member of an add-member proposal, if `proposal_id` names
    /// one.
    pub fn add_members(&self, proposal_id: u32) -> (r: Option<u64>)
        ensures
            ({
                let valid = 1 <= proposal_id && proposal_id as int <= self@.proposals.len();
                if valid && self@.proposals[proposal_id as int - 1].proposaltype is AddMember {
                    r == Some(self@.proposals[proposal_id as int - 1].target)
                } else {
                    r is None
                }
            }),
    {
        match self.proposals(proposal_id) {
            Some(p) => match p.proposaltype {
                ProposalType::AddMember => Some(p.target),
                ProposalType::RemoveMember => None,
            },
            None => None,
        }
    }

    /// The target member of a remove-member proposal, if `proposal_id`
    /// names one.
    pub fn remove_members(&self, proposal_id: u32) -> (r: Option<u64>)
        ensures
            ({
                let valid = 1 <= proposal_id && proposal_id as int <= self@.proposals.len();
                if valid && self@.proposals[proposal_id as int - 1].proposaltype is RemoveMember {
                    r == Some(self@.proposals[proposal_id as int - 1].target)
                } else {
                    r is None
                }
            }),
    {
        match self.proposals(proposal_id) {
            Some(p) => match p.proposaltype {
                ProposalType::AddMember => None,
                ProposalType::RemoveMember => Some(p.target),
            },
            None => None,
        }
    }

    /// The proposals whose status is still `Pending`, in ascending
    /// identifier order.
    pub fn get_pending_proposal(&self) -> (r: Vec<Proposal>)
        ensures
            r@ == spec_pending(self@.proposals),
    {
        let mut out: Vec<Proposal> = Vec::new();
        let mut i: usize = 0;
        proof {
            reveal(Seq::filter);
            assert(self@.proposals.take(0) =~= Seq::<Proposal>::empty());
            assert(out@ =~= spec_pending(self@.proposals.take(0)));
        }
        let n = self.store.len();
        while i < n
            invariant
                n == self.store.proposals@.len(),
                i <= n,
                out@ == spec_pending(self.store.proposals@.take(i as int)),
            decreases n - i,
        {
            let p = self.store.get(i);
            if p.status == ProposalStatus::Pending {
                out.push(p);
            }
            i += 1;
            proof {
                reveal(Seq::filter);
                let t = self.store.proposals@.take(i as int);
                assert(t.drop_last() =~= self.store.proposals@.take(i as int - 1));
                assert(t.last() == p);
                assert(out@ == spec_pending(t));
            }
        }
        proof {
            assert(self.store.proposals@.take(self.store.proposals@.len() as int)
                =~= self@.proposals);
        }
        out
    }

    /// Create (or replace) the multisig group from the given member list.
    pub fn create_multisig_group(&mut self, who: u64, members: Vec<u64>) -> (r: Result<(), Error>)
        requires
            old(self).wf(),
        ensures
            final(self).wf(),
            match crate::state::create_group_result(old(self)@, who, members@) {
                Ok(s2) => r == Ok::<(), Error>(()) && final(self)@ == s2,
                Err(e) => r == Err::<(), Error>(e) && final(self)@ == old(self)@,
            },
    {
        proof {
            crate::state::lemma_create_group_wf(old(self)@, who, members@);
        }
        match self.registry.initialize(who, &members) {
            Ok(_) => {},
            Err(e) => {
                proof {
                    assert(self@ =~~= old(self)@);
                }
                return Err(e);
            },
        }
        let dyn_t = calculate_dyn_threshold(self.registry.members());
        self.events.push(Event::CreateMultisig { who, dyn_threshold: dyn_t });
        proof {
            let s2 = crate::state::create_group_result(old(self)@, who, members@).unwrap();
            assert(self@ =~~= s2);
        }
        Ok(())
    }

    /// Apply one membership change on behalf of `who` and, on success, log
    /// the group change with the new dynamic threshold. `signal` selects
    /// addition (`true`) or removal (`false`).
    pub fn do_change_members(&mut self, who: u64, member: u64, signal: bool) -> (r: Result<
        (),
        Error,
    >)
        requires
            old(self).wf(),
            old(self)@.members.len() >= 1,
        ensures
            final(self).wf(),
            final(self)@.proposals == old(self)@.proposals,
            final(self)@.votes == old(self)@.votes,
            final(self)@.min_members == old(self)@.min_members,
            final(self)@.max_members == old(self)@.max_members,
            final(self)@.proposal_ceiling == old(self)@.proposal_ceiling,
            ({
                let changed_event = Event::ChangeGroup {
                    account: who,
                    dynthreshold: spec_dyn_threshold(final(self)@.members.len()) as u32,
                };
                if signal {
                    if member_add_ok(old(self)@, member) {
                        &&& r == Ok::<(), Error>(())
                        &&& final(self)@.members == crate::order::sorted_insert(
                            old(self)@.members,
                            member,
                        )
                        &&& final(self)@.events == old(self)@.events.push(changed_event)
                    } else {
                        r == Err::<(), Error>(Error::GroupTooLarge) && final(self)@ == old(self)@
                    }
                } else {
                    if !old(self)@.members.contains(member) {
                        r == Err::<(), Error>(Error::MemberNotFound) && final(self)@ == old(self)@
                    } else if old(self)@.members.len() <= old(self)@.min_members as nat {
                        r == Err::<(), Error>(Error::GroupTooSmall) && final(self)@ == old(self)@
                    } else {
                        &&& r == Ok::<(), Error>(())
                        &&& final(self)@.members == old(self)@.members.remove_value(member)
                        &&& final(self)@.events == old(self)@.events.push(changed_event)
                    }
                }
            }),
    {
        let res = if signal {
            self.registry.add(member)
        } else {
            self.registry.remove(member)
        };
        proof {
            assert forall|k: int| 0 <= k < self@.proposals.len() implies #[trigger] wf_slot(
                self@,
                k,
            ) by {
                assert(wf_slot(old(self)@, k));
            }
        }
        match res {
            Ok(()) => {
                let dyn_t = calculate_dyn_threshold(self.registry.members());
                self.events.push(Event::ChangeGroup { account: who, dynthreshold: dyn_t });
                proof {
                    assert forall|k: int| 0 <= k < self@.proposals.len() implies #[trigger] wf_slot(
                        self@,
                        k,
                    ) by {
                        assert(wf_slot(old(self)@, k));
                    }
                }
                Ok(())
            },
            Err(e) => {
                proof {
                    assert(self@ =~~= old(self)@);
                }
                Err(e)
            },
        }
    }

    /// Execute a proposal that just reached its approval threshold: apply
    /// its membership change and finalize. An execution failure does not
    /// abort; it downgrades the outcome to `Rejected`.
    pub fn exe_proposal(&mut self, proposal_id: u32) -> (r: Result<(), Error>)
        requires
            old(self).wf(),
            1 <= proposal_id && proposal_id as int <= old(self)@.proposals.len()
                ==> old(self)@.proposals[proposal_id as int - 1].status is Approved
                && old(self)@.members.len() >= 1,
        ensures
            final(self).wf(),
            if 1 <= proposal_id && proposal_id as int <= old(self)@.proposals.len() {
                r == Ok::<(), Error>(()) && final(self)@ == execute_result(
                    old(self)@,
                    proposal_id as int - 1,
                )
            } else {
                r == Err::<(), Error>(Error::ProposalNotFound) && final(self)@ == old(self)@
            },
    {
        let n = self.store.len();
        if proposal_id < 1 || proposal_id as usize > n {
            return Err(Error::ProposalNotFound);
        }
        let i = (proposal_id - 1) as usize;
        let p = self.store.get(i);
        let ghost s = old(self)@;
        proof {
            assert(wf_slot(s, i as int));
            crate::state::lemma_execute_wf(s, i as int);
        }
        let add = match p.proposaltype {
            ProposalType::AddMember => true,
            ProposalType::RemoveMember => false,
        };
        match self.do_change_members(p.owner, p.target, add) {
            Ok(()) => {
                self.events.push(
                    Event::FinshedProposal {
                        proposal_id,
                        vote: p.vote,
                        status: ProposalStatus::Approved,
                    },
                );
                proof {
                    assert(self@ =~~= execute_result(s, i as int));
                }
            },
            Err(_) => {
                self.store.set_status(i, ProposalStatus::Rejected);
                self.events.push(
                    Event::FinshedProposal {
                        proposal_id,
                        vote: p.vote,
                        status: ProposalStatus::Rejected,
                    },
                );
                proof {
                    assert(self@ =~~= execute_result(s, i as int));
                }
            },
        }
        Ok(())
    }

    /// Cast a vote: validate the request, record the vote, and finalize the
    /// proposal if a threshold was crossed in this very call. Returns
    /// whether the proposal reached a terminal status now.
    pub fn do_vote(&mut self, caller: u64, proposal_id: u32, approve: bool) -> (r: Result<
        bool,
        Error,
    >)
        requires
            old(self).wf(),
        ensures
            final(self).wf(),
            match vote_result(old(self)@, caller, proposal_id, approve) {
                Ok(pair) => r == Ok::<bool, Error>(pair.1) && final(self)@ == pair.0,
                Err(e) => r == Err::<bool, Error>(e) && final(self)@ == old(self)@,
            },
    {
        let ghost s = old(self)@;
        let n = self.store.len();
        if proposal_id < 1 || proposal_id as usize > n {
            return Err(Error::ProposalNotFound);
        }
        let i = (proposal_id - 1) as usize;
        if !self.registry.contains(caller) {
            return Err(Error::CallerNotMember);
        }
        let p = self.store.get(i);
        proof {
            assert(wf_slot(s, i as int));
        }
        if p.status != ProposalStatus::Pending {
            return Err(Error::ProposalFinalized);
        }
        let voted = {
            let v = self.store.get_votes(i);
            contains_value(&v.ayes, caller) || contains_value(&v.nays, caller)
        };
        if voted {
            return Err(Error::DuplicateVote);
        }
        proof {
            crate::state::lemma_vote_step_wf(s, i as int, caller, approve);
        }
        let size = self.registry.size();
        let req = required_votes(size, p.threshold);
        if approve {
            self.store.record_aye(i, caller);
            let newcount = p.vote + 1;
            self.events.push(Event::ApprovalProposal { proposal_id, vote: newcount, who: caller });
            let ghost s1 = aye_step(s, i as int, caller);
            proof {
                assert(self@ =~~= s1);
            }
            if newcount >= req {
                self.store.set_status(i, ProposalStatus::Approved);
                let ghost s2 = StateView {
                    proposals: s1.proposals.update(
                        i as int,
                        Proposal { status: ProposalStatus::Approved, ..s1.proposals[i as int] },
                    ),
                    ..s1
                };
                proof {
                    assert(self@ =~~= s2);
                    assert(wf_state(s2)) by {
                        assert forall|k: int| 0 <= k < s2.proposals.len() implies #[trigger] wf_slot(
                            s2,
                            k,
                        ) by {
                            assert(wf_slot(s, k));
                        }
                    }
                }
                let eres = self.exe_proposal(proposal_id);
                proof {
                    assert(eres == Ok::<(), Error>(()));
                    assert(vote_step(s, i as int, caller, true) == (
                        execute_result(s2, i as int),
                        true,
                    ));
                }
                Ok(true)
            } else {
                proof {
                    assert(vote_step(s, i as int, caller, true) == (s1, false));
                }
                Ok(false)
            }
        } else {
            self.store.record_nay(i, caller);
            self.events.push(Event::RejectProposal { proposal_id, vote: p.vote, who: caller });
            let ghost s1 = nay_step(s, i as int, caller);
            proof {
                assert(self@ =~~= s1);
            }
            let nays_len = {
                let v = self.store.get_votes(i);
                v.nays.len()
            };
            if nays_len >= req as usize {
                self.store.set_status(i, ProposalStatus::Rejected);
                self.events.push(
                    Event::FinshedProposal {
                        proposal_id,
                        vote: p.vote,
                        status: ProposalStatus::Rejected,
                    },
                );
                proof {
                    assert(self@ =~~= vote_step(s, i as int, caller, false).0);
                    assert(vote_step(s, i as int, caller, false).1 == true);
                }
                Ok(true)
            } else {
                proof {
                    assert(vote_step(s, i as int, caller, false) == (s1, false));
                }
                Ok(false)
            }
        }
    }

    /// Create a proposal on behalf of `caller`: validate, allocate the next
    /// identifier, and route the creator's implicit first approval through
    /// the voting engine. Returns the new proposal's identifier.
    pub fn create_a_proposal(
        &mut self,
        caller: u64,
        proposaltype: ProposalType,
        member: u64,
        threshold: ProposalThreshold,
    ) -> (r: Result<u32, Error>)
        requires
            old(self).wf(),
            old(self)@.proposals.len() < u32::MAX,
        ensures
            final(self).wf(),
            match create_result(old(self)@, caller, proposaltype, member, threshold) {
                Ok(pair) => r == Ok::<u32, Error>(pair.1) && final(self)@ == pair.0,
                Err(e) => r == Err::<u32, Error>(e) && final(self)@ == old(self)@,
            },
    {
        let ghost s = old(self)@;
        proof {
            crate::state::lemma_create_result_wf(s, caller, proposaltype, member, threshold);
        }
        if !self.registry.contains(caller) {
            return Err(Error::CallerNotMember);
        }
        let size = self.registry.size();
        if size > self.proposal_ceiling {
            return Err(Error::GroupTooLarge);
        }
        let target_is_member = self.registry.contains(member);
        let dup = match proposaltype {
            ProposalType::AddMember => target_is_member,
            ProposalType::RemoveMember => !target_is_member,
        };
        if dup {
            return Err(Error::DuplicateTarget);
        }
        let id = self.store.allocate(caller, proposaltype, member, threshold);
        let ghost s1 = allocate_step(s, caller, proposaltype, member, threshold);
        proof {
            assert(self@ =~~= s1);
            assert(wf_state(s1)) by {
                assert forall|k: int| 0 <= k < s1.proposals.len() implies #[trigger] wf_slot(
                    s1,
                    k,
                ) by {
                    if k < s.proposals.len() {
                        assert(wf_slot(s, k));
                    }
                }
            }
            assert(s1.proposals[id as int - 1].status is Pending);
            assert(!s1.votes[id as int - 1].ayes.contains(caller));
            assert(!s1.votes[id as int - 1].nays.contains(caller));
        }
        let vres = self.do_vote(caller, id, true);
        proof {
            assert(vres is Ok);
        }
        self.events.push(
            Event::CreateProposal {
                who: caller,
                proposal_id: id,
                threshold,
                status: ProposalStatus::Pending,
            },
        );
        proof {
            let pair = create_result(s, caller, proposaltype, member, threshold).unwrap();
            assert(self@ =~~= pair.0);
        }
        Ok(id)
    }

    /// The public proposal-creation entry point; the work happens in
    /// `create_a_proposal`.
    pub fn create_proposal(
        &mut self,
        who: u64,
        proposaltype: ProposalType,
        member: u64,
        threshold: ProposalThreshold,
    ) -> (r: Result<u32, Error>)
        requires
            old(self).wf(),
            old(self)@.proposals.len() < u32::MAX,
        ensures
            final(self).wf(),
            match create_result(old(self)@, who, proposaltype, member, threshold) {
                Ok(pair) => r == Ok::<u32, Error>(pair.1) && final(self)@ == pair.0,
                Err(e) => r == Err::<u32, Error>(e) && final(self)@ == old(self)@,
            },
    {
        self.create_a_proposal(who, proposaltype, member, threshold)
    }

    /// Vote to approve the proposal; may finalize and execute it.
    pub fn approve(&mut self, who: u64, proposal_id: u32) -> (r: Result<(), Error>)
        requires
            old(self).wf(),
        ensures
            final(self).wf(),
            match vote_result(old(self)@, who, proposal_id, true) {
                Ok(pair) => r == Ok::<(), Error>(()) && final(self)@ == pair.0,
                Err(e) => r == Err::<(), Error>(e) && final(self)@ == old(self)@,
            },
    {
        match self.do_vote(who, proposal_id, true) {
            Ok(_) => Ok(()),
            Err(e) => Err(e),
        }
    }

    /// Vote to reject the proposal; may finalize it as `Rejected`.
    pub fn reject(&mut self, who: u64, proposal_id: u32) -> (r: Result<(), Error>)
        requires
            old(self).wf(),
        ensures
            final(self).wf(),
            match vote_result(old(self)@, who, proposal_id, false) {
                Ok(pair) => r == Ok::<(), Error>(()) && final(self)@ == pair.0,
                Err(e) => r == Err::<(), Error>(e) && final(self)@ == old(self)@,
            },
    {
        match self.do_vote(who, proposal_id, false) {
            Ok(_) => Ok(()),
            Err(e) => Err(e),
        }
    }

    /// Convenience entry point: propose adding `member`, with the creator's
    /// implicit first approval, under the unanimity policy.
    pub fn add_member(&mut self, who: u64, member: u64) -> (r: Result<(), Error>)
        requires
            old(self).wf(),
            old(self)@.proposals.len() < u32::MAX,
        ensures
            final(self).wf(),
            match create_result(
                old(self)@,
                who,
                ProposalType::AddMember,
                member,
                ProposalThreshold::All,
            ) {
                Ok(pair) => r == Ok::<(), Error>(()) && final(self)@ == pair.0,
                Err(e) => r == Err::<(), Error>(e) && final(self)@ == old(self)@,
            },
    {
        match self.create_a_proposal(who, ProposalType::AddMember, member, ProposalThreshold::All) {
            Ok(_) => Ok(()),
            Err(e) => Err(e),
        }
    }

    /// Convenience entry point: propose removing `member`, with the
    /// creator's implicit first approval, under the unanimity policy.
    pub fn remove_member(&mut self, who: u64, member: u64) -> (r: Result<(), Error>)
        requires
            old(self).wf(),
            old(self)@.proposals.len() < u32::MAX,
        ensures
            final(self).wf(),
            match create_result(
                old(self)@,
                who,
                ProposalType::RemoveMember,
                member,
                ProposalThreshold::All,
            ) {
                Ok(pair) => r == Ok::<(), Error>(()) && final(self)@ == pair.0,
                Err(e) => r == Err::<(), Error>(e) && final(self)@ == old(self)@,
            },
    {
        match self.create_a_proposal(
            who,
            ProposalType::RemoveMember,
            member,
            ProposalThreshold::All,
        ) {
            Ok(_) => Ok(()),
            Err(e) => Err(e),
        }
    }
}

} // verus!
