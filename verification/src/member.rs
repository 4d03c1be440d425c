//! Members of a group, and which of them a batch may not touch.

use std::collections::HashSet;
use vstd::prelude::*;

verus! {

broadcast use vstd::std_specs::hash::group_hash_axioms;

/// A member of the group as the platform reports it. The core only reads it.
#[derive(Debug, Clone, Copy, PartialEq, Eq, Structural)]
pub struct Member {
    /// The platform's identity of the account.
    pub id: u64,
    /// Whether the platform lets the display name be changed.
    pub renamable: bool,
}

/// A member is protected if the display name cannot be changed or if the
/// identity is among the protected ones.
pub open spec fn is_protected(member: Member, protected: Set<u64>) -> bool {
    !member.renamable || protected.contains(member.id)
}

/// The members of `members` that are not protected, in their order.
pub open spec fn eligible(members: Seq<Member>, protected: Set<u64>) -> Seq<Member> {
    members.filter(|m: Member| !is_protected(m, protected))
}

impl Member {
    /// Whether a batch must leave this member alone.
    pub fn is_protected(&self, protected: &HashSet<u64>) -> (yes: bool)
        ensures
            yes == is_protected(*self, protected@),
    {
        !self.renamable || protected.contains(&self.id)
    }
}

} // verus!
