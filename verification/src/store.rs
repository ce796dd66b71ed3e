//! The proposal store: proposal records and their vote tallies, keyed by a
//! monotonically increasing identifier (the position plus one). Records are
//! never deleted; they remain as an audit trail.

use vstd::prelude::*;

use crate::types::{Proposal, ProposalStatus, ProposalThreshold, ProposalType, VoteView, Votes};

verus! {

/// Proposal records and vote records, parallel, at index `id - 1`.
pub struct ProposalStore {
    pub proposals: Vec<Proposal>,
    pub votes: Vec<Votes>,
}

impl ProposalStore {
    /// The vote records as their mathematical images.
    pub open spec fn votes_view(&self) -> Seq<VoteView> {
        self.votes@.map_values(|v: Votes| v@)
    }

    /// An empty store.
    pub fn new() -> (r: ProposalStore)
        ensures
            r.proposals@ == Seq::<Proposal>::empty(),
            r.votes_view() == Seq::<VoteView>::empty(),
    {
        let r = ProposalStore { proposals: Vec::new(), votes: Vec::new() };
        proof {
            assert(r.proposals@ =~= Seq::<Proposal>::empty());
            assert(r.votes_view() =~= Seq::<VoteView>::empty());
        }
        r
    }

    /// How many proposals were ever created.
    pub fn len(&self) -> (r: usize)
        ensures
            r == self.proposals@.len(),
    {
        self.proposals.len()
    }

    /// Read the proposal at position `i`.
    pub fn get(&self, i: usize) -> (r: Proposal)
        requires
            i < self.proposals@.len(),
        ensures
            r == self.proposals@[i as int],
    {
        self.proposals[i]
    }

    /// Read the vote record at position `i`.
    pub fn get_votes(&self, i: usize) -> (r: &Votes)
        requires
            i < self.votes@.len(),
        ensures
            r@ == self.votes@[i as int]@,
    {
        &self.votes[i]
    }

    /// Allocate the next proposal: its identifier is the running count plus
    /// one; it starts `Pending` with an empty vote record.
    pub fn allocate(
        &mut self,
        owner: u64,
        kind: ProposalType,
        target: u64,
        policy: ProposalThreshold,
    ) -> (id: u32)
        requires
            old(self).proposals@.len() < u32::MAX,
            old(self).proposals@.len() == old(self).votes@.len(),
        ensures
            id as nat == old(self).proposals@.len() + 1,
            final(self).proposals@ == old(self).proposals@.push(
                Proposal {
                    proposal_id: id,
                    threshold: policy,
                    status: ProposalStatus::Pending,
                    vote: 0,
                    proposaltype: kind,
                    target,
                    owner,
                },
            ),
            final(self).votes_view() == old(self).votes_view().push(
                VoteView { index: id, ayes: Seq::empty(), nays: Seq::empty() },
            ),
    {
        let id = (self.proposals.len() + 1) as u32;
        self.proposals.push(
            Proposal {
                proposal_id: id,
                threshold: policy,
                status: ProposalStatus::Pending,
                vote: 0,
                proposaltype: kind,
                target,
                owner,
            },
        );
        self.votes.push(Votes { index: id, ayes: Vec::new(), nays: Vec::new() });
        proof {
            assert(final(self).votes_view() =~~= old(self).votes_view().push(
                VoteView { index: id, ayes: Seq::empty(), nays: Seq::empty() },
            ));
        }
        id
    }

    /// Record an approval by `caller` on the proposal at position `i` and
    /// advance its approval counter.
    pub fn record_aye(&mut self, i: usize, caller: u64)
        requires
            i < old(self).proposals@.len(),
            old(self).proposals@.len() == old(self).votes@.len(),
            old(self).proposals@[i as int].vote < u32::MAX,
        ensures
            final(self).proposals@ == old(self).proposals@.update(
                i as int,
                Proposal {
                    vote: (old(self).proposals@[i as int].vote + 1) as u32,
                    ..old(self).proposals@[i as int]
                },
            ),
            final(self).votes_view() == old(self).votes_view().update(
                i as int,
                VoteView {
                    ayes: old(self).votes_view()[i as int].ayes.push(caller),
                    ..old(self).votes_view()[i as int]
                },
            ),
    {
        let p = self.proposals[i];
        self.proposals[i] = Proposal { vote: p.vote + 1, ..p };
        self.votes[i].ayes.push(caller);
        proof {
            assert(final(self).votes_view() =~~= old(self).votes_view().update(
                i as int,
                VoteView {
                    ayes: old(self).votes_view()[i as int].ayes.push(caller),
                    ..old(self).votes_view()[i as int]
                },
            ));
        }
    }

    /// Record a rejection by `caller` on the proposal at position `i`; the
    /// approval counter is untouched.
    pub fn record_nay(&mut self, i: usize, caller: u64)
        requires
            i < old(self).votes@.len(),
        ensures
            final(self).proposals@ == old(self).proposals@,
            final(self).votes_view() == old(self).votes_view().update(
                i as int,
                VoteView {
                    nays: old(self).votes_view()[i as int].nays.push(caller),
                    ..old(self).votes_view()[i as int]
                },
            ),
    {
        self.votes[i].nays.push(caller);
        proof {
            assert(final(self).votes_view() =~~= old(self).votes_view().update(
                i as int,
                VoteView {
                    nays: old(self).votes_view()[i as int].nays.push(caller),
                    ..old(self).votes_view()[i as int]
                },
            ));
        }
    }

    /// Overwrite the status of the proposal at position `i`.
    pub fn set_status(&mut self, i: usize, status: ProposalStatus)
        requires
            i < old(self).proposals@.len(),
        ensures
            final(self).proposals@ == old(self).proposals@.update(
                i as int,
                Proposal { status, ..old(self).proposals@[i as int] },
            ),
            final(self).votes@ == old(self).votes@,
    {
        let p = self.proposals[i];
        self.proposals[i] = Proposal { status, ..p };
    }
}

} // verus!
