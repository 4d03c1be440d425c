//! The pool of labels that one batch hands out.

use crate::chance::random_in_range;
use vstd::prelude::*;
use vstd::string::StringExecFns;

verus! {

/// The label that is handed out once the pool is empty.
pub const FALLBACK_LABEL: &'static str = "balls";

/// The texts of `labels`, in order.
pub open spec fn label_views(labels: Seq<String>) -> Seq<Seq<char>> {
    Seq::new(labels.len(), |i: int| labels[i]@)
}

/// What a draw may do to a pool: from an empty pool comes the fallback and
/// the pool stays as it is; from any other comes one of its labels, which
/// leaves the pool.
pub open spec fn is_draw(before: Seq<Seq<char>>, label: Seq<char>, after: Seq<Seq<char>>) -> bool {
    if before.len() == 0 {
        label == FALLBACK_LABEL@ && after == before
    } else {
        exists|i: int| 0 <= i < before.len() && label == #[trigger] before[i] && after == before.remove(i)
    }
}

/// The labels that a batch has not handed out yet.
pub struct NamePool {
    labels: Vec<String>,
}

impl View for NamePool {
    type V = Seq<Seq<char>>;

    closed spec fn view(&self) -> Seq<Seq<char>> {
        label_views(self.labels@)
    }
}

impl NamePool {
    /// A pool that holds `labels`, each as often as the list does.
    pub fn new(labels: Vec<String>) -> (pool: Self)
        ensures
            pool@ == label_views(labels@),
    {
        NamePool { labels }
    }

    /// The number of labels left.
    pub fn remaining(&self) -> (n: usize)
        ensures
            n == self@.len(),
    {
        self.labels.len()
    }

    /// Takes the label at `position` out of the pool. Where the pool has no such
    /// position, it stays as it is and the fallback comes back.
    pub fn draw_at(&mut self, position: usize) -> (label: String)
        ensures
            position < old(self)@.len() ==> label@ == old(self)@[position as int] && final(self)@
                == old(self)@.remove(position as int),
            position >= old(self)@.len() ==> label@ == FALLBACK_LABEL@ && final(self)@ == old(
                self,
            )@,
    {
        if position < self.labels.len() {
            let label = self.labels.remove(position);
            assert(self@ =~= old(self)@.remove(position as int));
            label
        } else {
            String::from_str(FALLBACK_LABEL)
        }
    }

    /// Takes one label out of the pool, chosen at random; from an empty pool
    /// the fallback, and the pool is left alone.
    pub fn draw(&mut self) -> (label: String)
        ensures
            is_draw(old(self)@, label@, final(self)@),
    {
        let n = self.labels.len();
        if n == 0 {
            String::from_str(FALLBACK_LABEL)
        } else {
            let position = random_in_range(0, n);
            self.draw_at(position)
        }
    }
}

} // verus!
