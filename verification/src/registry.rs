//! The membership registry: owns the current member set, enforcing size
//! bounds, uniqueness and the canonical ascending order.

use vstd::prelude::*;

use crate::order::{
    canon_seq, contains_value, find_index, insert_sorted, lemma_canon_props, lemma_sorted_remove,
    sorted_insert, sorted_strict,
};
use crate::types::Error;

verus! {

/// The current member group and its configured size bounds.
pub struct MembershipRegistry {
    pub members: Vec<u64>,
    pub min_members: u32,
    pub max_members: u32,
}

impl View for MembershipRegistry {
    type V = Seq<u64>;

    open spec fn view(&self) -> Seq<u64> {
        self.members@
    }
}

impl MembershipRegistry {
    /// The registry's invariant: sane bounds, canonical order, and a size
    /// that is zero (no group yet) or within the configured bounds.
    pub open spec fn wf(&self) -> bool {
        &&& 1 <= self.min_members <= self.max_members
        &&& sorted_strict(self@)
        &&& self@.len() <= self.max_members as nat
        &&& self@.len() == 0 || self@.len() >= self.min_members as nat
    }

    /// An empty registry with the given bounds.
    pub fn new(min_members: u32, max_members: u32) -> (r: MembershipRegistry)
        requires
            1 <= min_members <= max_members,
        ensures
            r.wf(),
            r@ == Seq::<u64>::empty(),
            r.min_members == min_members,
            r.max_members == max_members,
    {
        let r = MembershipRegistry { members: Vec::new(), min_members, max_members };
        proof {
            assert(r@ =~= Seq::<u64>::empty());
        }
        r
    }

    /// Whether `who` is currently a member.
    pub fn contains(&self, who: u64) -> (r: bool)
        ensures
            r == self@.contains(who),
    {
        contains_value(&self.members, who)
    }

    /// The current member count.
    pub fn size(&self) -> (r: u32)
        requires
            self.wf(),
        ensures
            r as nat == self@.len(),
    {
        self.members.len() as u32
    }

    /// The members, in canonical ascending order.
    pub fn members(&self) -> (r: &Vec<u64>)
        ensures
            r@ == self@,
    {
        &self.members
    }

    /// Replace the group: the caller must name itself among the new members,
    /// and the deduplicated list must fit the configured bounds. Returns the
    /// post-state member count.
    pub fn initialize(&mut self, caller: u64, members: &Vec<u64>) -> (r: Result<u32, Error>)
        requires
            old(self).wf(),
        ensures
            final(self).wf(),
            final(self).min_members == old(self).min_members,
            final(self).max_members == old(self).max_members,
            ({
                let canon = canon_seq(members@);
                if !members@.contains(caller) {
                    r == Err::<u32, Error>(Error::CallerNotIncluded) && final(self)@ == old(self)@
                } else if canon.len() < old(self).min_members as nat {
                    r == Err::<u32, Error>(Error::GroupTooSmall) && final(self)@ == old(self)@
                } else if canon.len() > old(self).max_members as nat {
                    r == Err::<u32, Error>(Error::GroupTooLarge) && final(self)@ == old(self)@
                } else {
                    r == Ok::<u32, Error>(canon.len() as u32) && final(self)@ == canon
                }
            }),
    {
        proof {
            lemma_canon_props(members@);
        }
        if !contains_value(members, caller) {
            return Err(Error::CallerNotIncluded);
        }
        let mut canon: Vec<u64> = Vec::new();
        let mut i: usize = 0;
        proof {
            assert(canon@ =~= canon_seq(members@.take(0)));
        }
        while i < members.len()
            invariant
                i <= members@.len(),
                canon@ == canon_seq(members@.take(i as int)),
                sorted_strict(canon@),
            decreases members@.len() - i,
        {
            let ghost prefix = members@.take(i as int);
            insert_sorted(&mut canon, members[i]);
            i += 1;
            proof {
                assert(members@.take(i as int) =~= prefix.push(members@[i - 1]));
                crate::order::lemma_canon_push(prefix, members@[i - 1]);
            }
        }
        proof {
            assert(members@.take(members@.len() as int) =~= members@);
        }
        let n = canon.len();
        if n < self.min_members as usize {
            return Err(Error::GroupTooSmall);
        }
        if n > self.max_members as usize {
            return Err(Error::GroupTooLarge);
        }
        self.members = canon;
        Ok(n as u32)
    }

    /// Add one member at execution time: fails if the bound would be
    /// exceeded or the member is already present.
    pub fn add(&mut self, member: u64) -> (r: Result<(), Error>)
        requires
            old(self).wf(),
            old(self)@.len() >= 1,
        ensures
            final(self).wf(),
            final(self).min_members == old(self).min_members,
            final(self).max_members == old(self).max_members,
            if !old(self)@.contains(member) && old(self)@.len() < old(self).max_members as nat {
                r == Ok::<(), Error>(()) && final(self)@ == sorted_insert(old(self)@, member)
            } else {
                r == Err::<(), Error>(Error::GroupTooLarge) && final(self)@ == old(self)@
            },
    {
        proof {
            crate::order::lemma_sorted_insert_props(old(self)@, member);
        }
        if self.contains(member) {
            return Err(Error::GroupTooLarge);
        }
        if self.members.len() >= self.max_members as usize {
            return Err(Error::GroupTooLarge);
        }
        insert_sorted(&mut self.members, member);
        Ok(())
    }

    /// Remove one member at execution time: fails if absent, or if removal
    /// would leave the group below the configured minimum.
    pub fn remove(&mut self, member: u64) -> (r: Result<(), Error>)
        requires
            old(self).wf(),
        ensures
            final(self).wf(),
            final(self).min_members == old(self).min_members,
            final(self).max_members == old(self).max_members,
            if !old(self)@.contains(member) {
                r == Err::<(), Error>(Error::MemberNotFound) && final(self)@ == old(self)@
            } else if old(self)@.len() <= old(self).min_members as nat {
                r == Err::<(), Error>(Error::GroupTooSmall) && final(self)@ == old(self)@
            } else {
                r == Ok::<(), Error>(()) && final(self)@ == old(self)@.remove_value(member)
            },
    {
        let idx = match find_index(&self.members, member) {
            Some(idx) => idx,
            None => {
                return Err(Error::MemberNotFound);
            },
        };
        if self.members.len() <= self.min_members as usize {
            return Err(Error::GroupTooSmall);
        }
        proof {
            lemma_sorted_remove(old(self)@, idx as int);
        }
        self.members.remove(idx);
        Ok(())
    }
}

} // verus!
