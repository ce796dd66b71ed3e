//! Data model: proposals, vote records, events and errors.

use vstd::prelude::*;

verus! {

/// A proposal's unique index.
pub type ProposalIndex = u32;

/// A computed approval count required by a policy at a given group size.
pub type Threshold = u32;

/// Lifecycle of a proposal. `Pending` is the initial status; `Approved` and
/// `Rejected` are terminal: once reached, no further votes are accepted.
#[derive(PartialEq, Eq, Structural, Clone, Copy, Debug)]
pub enum ProposalStatus {
    Pending,
    Approved,
    Rejected,
}

/// The governance action a proposal carries.
#[derive(PartialEq, Eq, Structural, Clone, Copy, Debug)]
pub enum ProposalType {
    AddMember,
    RemoveMember,
}

/// The fraction-of-group-size rule determining how many approving votes a
/// proposal needs.
#[derive(PartialEq, Eq, Structural, Clone, Copy, Debug)]
pub enum ProposalThreshold {
    /// 100% of the group.
    All,
    /// strictly more than 1/2: floor(size / 2) + 1.
    MoreThanHalf,
    /// at least 2/3, rounded up: ceil(2 * size / 3).
    MoreThanTwoThirds,
    /// at least 3/4, rounded up: ceil(3 * size / 4).
    MoreThanThreeQuarters,
}

/// A pending or finalized governance action, retained as an audit record.
#[derive(PartialEq, Eq, Structural, Clone, Copy, Debug)]
pub struct Proposal {
    /// Monotonically increasing identifier, starting at 1.
    pub proposal_id: u32,
    /// The requested approval policy.
    pub threshold: ProposalThreshold,
    /// Current lifecycle status.
    pub status: ProposalStatus,
    /// Number of approval votes recorded so far.
    pub vote: u32,
    /// Which membership change the proposal carries.
    pub proposaltype: ProposalType,
    /// The member identity affected by the proposal.
    pub target: u64,
    /// Identity of the proposal's creator.
    pub owner: u64,
}

/// Per-proposal tally of who voted which way.
#[derive(Debug)]
pub struct Votes {
    /// The proposal's unique index.
    pub index: ProposalIndex,
    /// The set of voters that approved, in vote order.
    pub ayes: Vec<u64>,
    /// The set of voters that rejected, in vote order.
    pub nays: Vec<u64>,
}

/// Mathematical image of a vote record.
#[verifier::ext_equal]
pub ghost struct VoteView {
    pub index: u32,
    pub ayes: Seq<u64>,
    pub nays: Seq<u64>,
}

impl View for Votes {
    type V = VoteView;

    open spec fn view(&self) -> VoteView {
        VoteView { index: self.index, ayes: self.ayes@, nays: self.nays@ }
    }
}

/// Notifications recorded on each state transition, one entry per transition.
#[derive(PartialEq, Eq, Structural, Clone, Copy, Debug)]
pub enum Event {
    /// A group was created (or replaced) with the given member count policy.
    CreateMultisig { who: u64, dyn_threshold: u32 },
    /// A proposal was allocated; `status` is its status at creation.
    CreateProposal { who: u64, proposal_id: u32, threshold: ProposalThreshold, status: ProposalStatus },
    /// An approval vote was recorded; `vote` is the new approval count.
    ApprovalProposal { proposal_id: u32, vote: u32, who: u64 },
    /// A proposal reached a terminal status with the given approval count.
    FinshedProposal { proposal_id: u32, vote: u32, status: ProposalStatus },
    /// A rejection vote was recorded; `vote` is the unchanged approval count.
    RejectProposal { proposal_id: u32, vote: u32, who: u64 },
    /// The member set changed while executing an approved proposal.
    ChangeGroup { account: u64, dynthreshold: u32 },
}

/// Why an operation was refused. Every validation failure leaves the whole
/// state unchanged.
#[derive(PartialEq, Eq, Structural, Clone, Copy, Debug)]
pub enum Error {
    /// The (deduplicated) member list is below the configured minimum.
    GroupTooSmall,
    /// The member list, or the group a change would produce, exceeds a bound.
    GroupTooLarge,
    /// The caller is not currently a member of the group.
    CallerNotMember,
    /// A group cannot be created by someone outside of it.
    CallerNotIncluded,
    /// No proposal exists under the given identifier.
    ProposalNotFound,
    /// The proposal already reached a terminal status.
    ProposalFinalized,
    /// The caller already voted on this proposal.
    DuplicateVote,
    /// Adding an existing member, or removing an absent one, was requested.
    DuplicateTarget,
    /// The member to remove is not in the group.
    MemberNotFound,
}

} // verus!
