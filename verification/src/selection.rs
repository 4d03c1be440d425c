//! Which members a batch targets.

use crate::chance::{choose_one, choose_several, is_sample_of, picked_at, random_in_range};
use crate::member::{eligible, is_protected, Member};
use std::collections::HashSet;
use vstd::prelude::*;

verus! {

/// How a batch chooses its targets among the candidates.
#[derive(Debug, Clone, Copy, PartialEq, Eq, Structural)]
pub enum SelectionPolicy {
    /// One member that is not protected.
    Single,
    /// A random number of members, at least three.
    Multiple,
    /// Every candidate.
    All,
}

/// The number of members that `pick_random` returns when asked for `amount`
/// out of `available`: at least one is asked for, and no more can come than
/// there are.
pub open spec fn picked_count(amount: int, available: int) -> int {
    let wanted = if amount > 1 { amount } else { 1 };
    if wanted <= available { wanted } else { available }
}

/// What a selection by `policy` among `candidates` may return.
pub open spec fn selected(
    candidates: Seq<Member>,
    policy: SelectionPolicy,
    protected: Set<u64>,
    targets: Seq<Member>,
) -> bool {
    match policy {
        SelectionPolicy::Single => if eligible(candidates, protected).len() == 0 {
            targets.len() == 0
        } else {
            targets.len() == 1 && eligible(candidates, protected).contains(targets[0])
        },
        SelectionPolicy::Multiple => if candidates.len() <= 3 {
            targets == candidates
        } else {
            3 <= targets.len() < candidates.len() && is_sample_of(targets, candidates)
        },
        SelectionPolicy::All => targets == candidates,
    }
}

/// No two positions of `members` hold the same identity.
pub open spec fn distinct_ids(members: Seq<Member>) -> bool {
    forall|i: int, j: int|
        0 <= i < j < members.len() ==> (#[trigger] members[i]).id != (#[trigger] members[j]).id
}

fn pick(amount: usize, users: &Vec<Member>) -> (picked: Vec<Member>)
    ensures
        picked@.len() == picked_count(amount as int, users@.len() as int),
        is_sample_of(picked@, users@),
{
    if amount > 1 {
        choose_several(users, amount)
    } else {
        let mut picked: Vec<Member> = Vec::new();
        match choose_one(users) {
            Some(user) => {
                picked.push(user);
                proof {
                    let at = users@.index_of(user);
                    assert(picked_at(users@, seq![at], picked@));
                }
            },
            None => {
                proof {
                    assert(picked_at(users@, Seq::<int>::empty(), picked@));
                }
            },
        }
        picked
    }
}

/// Picks members of `users` at random, none of them twice: `amount` of them
/// where that is more than one, else one; all of them where there are fewer.
pub fn pick_random(amount: u32, users: Vec<Member>) -> (picked: Vec<Member>)
    ensures
        picked@.len() == picked_count(amount as int, users@.len() as int),
        is_sample_of(picked@, users@),
{
    pick(amount as usize, &users)
}

/// The candidates that are not protected, in their order.
pub fn eligible_members(candidates: &Vec<Member>, protected: &HashSet<u64>) -> (kept: Vec<Member>)
    ensures
        kept@ == eligible(candidates@, protected@),
{
    let mut kept: Vec<Member> = Vec::new();
    let ghost keep = |m: Member| !is_protected(m, protected@);
    proof {
        assert(candidates@.take(0) =~= Seq::<Member>::empty());
        reveal(Seq::filter);
    }
    for i in 0..candidates.len()
        invariant
            keep == (|m: Member| !is_protected(m, protected@)),
            kept@ == candidates@.take(i as int).filter(keep),
    {
        let member = candidates[i];
        proof {
            reveal(Seq::filter);
            assert(candidates@.take(i + 1).drop_last() =~= candidates@.take(i as int));
        }
        if !member.is_protected(protected) {
            kept.push(member);
        }
    }
    proof {
        assert(candidates@.take(candidates@.len() as int) =~= candidates@);
    }
    kept
}

/// Chooses the targets of a batch among `candidates` as `policy` says.
///
/// `Single` chooses one of the candidates that are not protected, or nobody
/// if there is none. `Multiple` draws a number from three up to, but not
/// including, the number of candidates, and chooses that many of them; with
/// three candidates or fewer it takes them all. `All` takes them all.
pub fn select_targets(
    candidates: Vec<Member>,
    policy: SelectionPolicy,
    protected: &HashSet<u64>,
) -> (targets: Vec<Member>)
    ensures
        selected(candidates@, policy, protected@, targets@),
{
    match policy {
        SelectionPolicy::Single => {
            let pool = eligible_members(&candidates, protected);
            let targets = pick(1, &pool);
            proof {
                if pool@.len() > 0 {
                    let positions = choose|positions: Seq<int>| picked_at(pool@, positions, targets@);
                    assert(targets@[0] == pool@[positions[0]]);
                }
            }
            targets
        },
        SelectionPolicy::Multiple => {
            let n = candidates.len();
            if n <= 3 {
                candidates
            } else {
                let amount = random_in_range(3, n);
                pick(amount, &candidates)
            }
        },
        SelectionPolicy::All => candidates,
    }
}

/// A selection by `Single` holds at most one member, and never a protected
/// one; where every candidate is protected it holds nobody.
pub proof fn lemma_single_selection(
    candidates: Seq<Member>,
    protected: Set<u64>,
    targets: Seq<Member>,
)
    requires
        selected(candidates, SelectionPolicy::Single, protected, targets),
    ensures
        targets.len() <= 1,
        forall|i: int| 0 <= i < targets.len() ==> !is_protected(#[trigger] targets[i], protected),
        forall|i: int| 0 <= i < targets.len() ==> candidates.contains(#[trigger] targets[i]),
        (forall|i: int| 0 <= i < candidates.len() ==> is_protected(#[trigger] candidates[i], protected))
            ==> targets.len() == 0,
{
    let keep = |m: Member| !is_protected(m, protected);
    let kept = eligible(candidates, protected);
    if kept.len() > 0 {
        let at = kept.index_of(targets[0]);
        candidates.lemma_filter_pred(keep, at);
        candidates.lemma_filter_contains_rev(keep, targets[0]);
    }
    if forall|i: int| 0 <= i < candidates.len() ==> is_protected(#[trigger] candidates[i], protected) {
        if kept.len() > 0 {
            candidates.lemma_filter_contains_rev(keep, kept[0]);
            candidates.lemma_filter_pred(keep, 0);
            let at = candidates.index_of(kept[0]);
            assert(is_protected(candidates[at], protected));
        }
    }
}

/// A selection by `Multiple` among `n` candidates holds at least three and
/// fewer than `n` members, or all of them where `n` is three or less; and
/// where no two candidates share an identity, no two targets do.
pub proof fn lemma_multiple_selection(
    candidates: Seq<Member>,
    protected: Set<u64>,
    targets: Seq<Member>,
)
    requires
        selected(candidates, SelectionPolicy::Multiple, protected, targets),
    ensures
        candidates.len() <= 3 ==> targets.len() == candidates.len(),
        candidates.len() > 3 ==> 3 <= targets.len() < candidates.len(),
        distinct_ids(candidates) ==> distinct_ids(targets),
{
    if candidates.len() > 3 && distinct_ids(candidates) {
        lemma_sample_keeps_ids_distinct(candidates, targets);
    }
}

/// Members taken from positions of their own in a list without a repeated
/// identity have no repeated identity either.
pub proof fn lemma_sample_keeps_ids_distinct(source: Seq<Member>, out: Seq<Member>)
    requires
        is_sample_of(out, source),
        distinct_ids(source),
    ensures
        distinct_ids(out),
{
    let positions = choose|positions: Seq<int>| picked_at(source, positions, out);
    assert forall|i: int, j: int| 0 <= i < j < out.len() implies (#[trigger] out[i]).id != (
    #[trigger] out[j]).id by {
        assert(positions[i] != positions[j]);
        assert(out[i] == source[positions[i]]);
        assert(out[j] == source[positions[j]]);
        if positions[i] < positions[j] {
            assert(source[positions[i]].id != source[positions[j]].id);
        } else {
            assert(source[positions[j]].id != source[positions[i]].id);
        }
    }
}

} // verus!
