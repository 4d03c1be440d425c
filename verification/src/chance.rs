//! The random choices of the library, each made by the `rand` crate with the
//! generator of the calling thread.

use crate::member::Member;
use rand::seq::SliceRandom;
use rand::Rng;
use vstd::prelude::*;
use vstd::set_lib::{lemma_int_range, lemma_set_subset_finite, lemma_subset_equality, set_int_range};

verus! {

/// `out` holds the items of `source` at `positions`, in that order, and no
/// position is used twice.
pub open spec fn picked_at<T>(source: Seq<T>, positions: Seq<int>, out: Seq<T>) -> bool {
    &&& positions.len() == out.len()
    &&& positions.no_duplicates()
    &&& forall|j: int|
        0 <= j < positions.len() ==> 0 <= #[trigger] positions[j] < source.len() && out[j]
            == source[positions[j]]
}

/// `out` is made of items of `source`, each taken from a position of its own.
pub open spec fn is_sample_of<T>(out: Seq<T>, source: Seq<T>) -> bool {
    exists|positions: Seq<int>| picked_at(source, positions, out)
}

/// Calls `Rng::gen_range` on `low..high`. Claimed: the number lies in the
/// range. The call panics on an empty range, which `requires` leaves out.
#[verifier::external_body]
pub(crate) fn random_in_range(low: usize, high: usize) -> (n: usize)
    requires
        low < high,
    ensures
        low <= n < high,
{
    rand::thread_rng().gen_range(low..high)
}

/// Calls `SliceRandom::choose`. Claimed: nothing comes back from an empty
/// list, and from any other one of its items.
#[verifier::external_body]
pub(crate) fn choose_one(members: &Vec<Member>) -> (one: Option<Member>)
    ensures
        members@.len() == 0 ==> one is None,
        members@.len() > 0 ==> one is Some && members@.contains(one.unwrap()),
{
    members.choose(&mut rand::thread_rng()).copied()
}

/// Calls `SliceRandom::choose_multiple`. Claimed: `amount` items come back,
/// or all of them if there are fewer, each from a position of its own.
#[verifier::external_body]
pub(crate) fn choose_several(members: &Vec<Member>, amount: usize) -> (some: Vec<Member>)
    ensures
        some@.len() == if amount <= members@.len() { amount as int } else { members@.len() as int },
        is_sample_of(some@, members@),
{
    members.choose_multiple(&mut rand::thread_rng(), amount).copied().collect()
}

/// A sample as long as its source leaves nothing out: every item of the
/// source is in it.
pub proof fn lemma_full_sample_covers<T>(out: Seq<T>, source: Seq<T>)
    requires
        is_sample_of(out, source),
        out.len() == source.len(),
    ensures
        forall|i: int| 0 <= i < source.len() ==> out.contains(#[trigger] source[i]),
{
    let positions = choose|positions: Seq<int>| picked_at(source, positions, out);
    let all = set_int_range(0, source.len() as int);
    lemma_int_range(0, source.len() as int);
    positions.unique_seq_to_set();
    assert(positions.to_set().subset_of(all)) by {
        assert forall|p: int| positions.to_set().contains(p) implies all.contains(p) by {
            let j = positions.index_of(p);
            assert(positions[j] == p);
        }
    }
    lemma_set_subset_finite(all, positions.to_set());
    lemma_subset_equality(positions.to_set(), all);
    assert forall|i: int| 0 <= i < source.len() implies out.contains(#[trigger] source[i]) by {
        assert(all.contains(i));
        assert(positions.to_set().contains(i));
        let j = positions.index_of(i);
        assert(out[j] == source[i]);
    }
}

} // verus!
