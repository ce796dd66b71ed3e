//! Threshold policy: how many approving votes a proposal needs at a given
//! group size, and the group's default (dynamic) threshold.

use vstd::prelude::*;

use crate::types::ProposalThreshold;

verus! {

/// Required approval count for a group of `size` members under `policy`:
/// `All` needs every member, `MoreThanHalf` a strict majority, and the
/// fractional policies their fraction of the group rounded up.
pub open spec fn spec_required(size: nat, policy: ProposalThreshold) -> nat {
    match policy {
        ProposalThreshold::All => size,
        ProposalThreshold::MoreThanHalf => size / 2 + 1,
        ProposalThreshold::MoreThanTwoThirds => (2 * size + 2) / 3,
        ProposalThreshold::MoreThanThreeQuarters => (3 * size + 3) / 4,
    }
}

/// The group-size-dependent default threshold reported in notifications:
/// unanimity for tiny groups, two thirds for small ones, a majority beyond.
pub open spec fn spec_dyn_threshold(size: nat) -> nat {
    if size <= 3 {
        size
    } else if size <= 5 {
        spec_required(size, ProposalThreshold::MoreThanTwoThirds)
    } else {
        spec_required(size, ProposalThreshold::MoreThanHalf)
    }
}

/// In a non-empty group every policy requires at least one vote and never
/// more votes than there are members.
pub proof fn lemma_required_bounds(size: nat, policy: ProposalThreshold)
    requires
        size >= 1,
    ensures
        1 <= spec_required(size, policy) <= size,
{
    match policy {
        ProposalThreshold::All => {},
        ProposalThreshold::MoreThanHalf => {},
        ProposalThreshold::MoreThanTwoThirds => {
            vstd::arithmetic::div_mod::lemma_fundamental_div_mod((2 * size + 2) as int, 3);
        },
        ProposalThreshold::MoreThanThreeQuarters => {
            vstd::arithmetic::div_mod::lemma_fundamental_div_mod((3 * size + 3) as int, 4);
        },
    }
}

/// Executable form of `spec_required`.
pub fn required_votes(size: u32, policy: ProposalThreshold) -> (r: u32)
    ensures
        r as nat == spec_required(size as nat, policy),
{
    match policy {
        ProposalThreshold::All => size,
        ProposalThreshold::MoreThanHalf => size / 2 + 1,
        ProposalThreshold::MoreThanTwoThirds => {
            let wide: u64 = (2 * (size as u64) + 2) / 3;
            proof {
                if size >= 1 {
                    lemma_required_bounds(size as nat, ProposalThreshold::MoreThanTwoThirds);
                }
            }
            wide as u32
        },
        ProposalThreshold::MoreThanThreeQuarters => {
            let wide: u64 = (3 * (size as u64) + 3) / 4;
            proof {
                if size >= 1 {
                    lemma_required_bounds(size as nat, ProposalThreshold::MoreThanThreeQuarters);
                }
            }
            wide as u32
        },
    }
}

/// Executable form of `spec_dyn_threshold`, over the current member list.
pub fn calculate_dyn_threshold(members: &Vec<u64>) -> (r: u32)
    requires
        members@.len() <= u32::MAX,
    ensures
        r as nat == spec_dyn_threshold(members@.len()),
{
    let n = members.len();
    if n <= 3 {
        n as u32
    } else if n <= 5 {
        required_votes(n as u32, ProposalThreshold::MoreThanTwoThirds)
    } else {
        required_votes(n as u32, ProposalThreshold::MoreThanHalf)
    }
}

} // verus!
