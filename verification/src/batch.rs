//! The batch: choose the targets, hand each a label, take the platform's
//! answers in whatever order they come, and report in the order of dispatch.

use crate::member::{is_protected, Member};
use crate::pool::{is_draw, label_views, NamePool, FALLBACK_LABEL};
use crate::selection::{select_targets, selected, SelectionPolicy};
use crate::text::text_view;
use crate::worker::{
    begin, conclude, concluded, reply_view, MutationOutcome, OutcomeView, SkipReason, WorkerStep,
};
use std::collections::HashSet;
use vstd::prelude::*;

verus! {

broadcast use vstd::seq_lib::group_to_multiset_ensures;

/// Where the attempt on one target stands. Each state but the first holds the
/// label that was drawn.
enum Progress {
    Skipped,
    Awaiting(String),
    Succeeded(String),
    Failed(String, String),
}

/// One target of a running batch.
struct Slot {
    member: Member,
    progress: Progress,
}

/// One target of a running batch as the contracts see it: the member, the
/// label drawn for it (none for a protected member), and how the attempt
/// ended (nothing while the platform has not answered).
pub struct SlotView {
    pub member: Member,
    pub label: Option<Seq<char>>,
    pub outcome: Option<OutcomeView>,
}

impl View for Slot {
    type V = SlotView;

    closed spec fn view(&self) -> SlotView {
        match self.progress {
            Progress::Skipped => SlotView {
                member: self.member,
                label: None,
                outcome: Some(OutcomeView::Skipped(SkipReason::Protected)),
            },
            Progress::Awaiting(label) => SlotView {
                member: self.member,
                label: Some(label@),
                outcome: None,
            },
            Progress::Succeeded(label) => SlotView {
                member: self.member,
                label: Some(label@),
                outcome: Some(OutcomeView::Succeeded(label@)),
            },
            Progress::Failed(label, error) => SlotView {
                member: self.member,
                label: Some(label@),
                outcome: Some(OutcomeView::Failed(error@)),
            },
        }
    }
}

/// The members of `slots`, in order.
pub open spec fn targets_of(slots: Seq<SlotView>) -> Seq<Member> {
    Seq::new(slots.len(), |i: int| slots[i].member)
}

/// For each slot the label drawn for it, in order.
pub open spec fn labels_of(slots: Seq<SlotView>) -> Seq<Option<Seq<char>>> {
    Seq::new(slots.len(), |i: int| slots[i].label)
}

/// The labels that were drawn, in the order of the draws: `column` without
/// its gaps.
pub open spec fn attempt_labels(column: Seq<Option<Seq<char>>>) -> Seq<Seq<char>>
    decreases column.len(),
{
    if column.len() == 0 {
        Seq::empty()
    } else {
        let rest = attempt_labels(column.drop_last());
        match column.last() {
            Some(label) => rest.push(label),
            None => rest,
        }
    }
}

/// The number of draws made for the positions before `i`.
pub open spec fn draws_before(column: Seq<Option<Seq<char>>>, i: int) -> nat {
    attempt_labels(column.take(i)).len()
}

/// The draws that found a label in the pool: the first `available` of them.
pub open spec fn pool_draws(drawn: Seq<Seq<char>>, available: nat) -> Seq<Seq<char>> {
    if drawn.len() <= available {
        drawn
    } else {
        drawn.take(available as int)
    }
}

/// `drawn` can come out of a pool filled with `labels`: as long as the pool
/// lasts, each draw takes a label of its own out of it, and every later draw
/// gives the fallback.
pub open spec fn drawn_from(labels: Seq<Seq<char>>, drawn: Seq<Seq<char>>) -> bool {
    &&& pool_draws(drawn, labels.len()).to_multiset().subset_of(labels.to_multiset())
    &&& forall|k: int| labels.len() <= k < drawn.len() ==> #[trigger] drawn[k] == FALLBACK_LABEL@
}

/// What dispatch makes of one target: a protected member is skipped at
/// once and gets no label; any other gets a label and awaits the platform.
pub open spec fn dispatched_slot(target: Member, protected: Set<u64>, slot: SlotView) -> bool {
    &&& slot.member == target
    &&& is_protected(target, protected) ==> slot.label is None && slot.outcome == Some(
        OutcomeView::Skipped(SkipReason::Protected),
    )
    &&& !is_protected(target, protected) ==> slot.label is Some && slot.outcome is None
}

/// What dispatch makes of its targets.
pub open spec fn dispatched(protected: Set<u64>, slots: Seq<SlotView>) -> bool {
    forall|i: int|
        0 <= i < slots.len() ==> dispatched_slot((#[trigger] slots[i]).member, protected, slots[i])
}

/// A slot is consistent: without a label the member was skipped; with one,
/// the attempt is under way, has failed, or has succeeded with that label.
pub open spec fn slot_ok(slot: SlotView) -> bool {
    match slot.label {
        None => slot.outcome == Some(OutcomeView::Skipped(SkipReason::Protected)),
        Some(label) => slot.outcome is None || slot.outcome == Some(OutcomeView::Succeeded(label))
            || slot.outcome matches Some(OutcomeView::Failed(_)),
    }
}

/// The platform has not answered for this slot yet.
pub open spec fn awaiting(slot: SlotView) -> bool {
    slot.label is Some && slot.outcome is None
}

/// The slot after the platform answered `reply`.
pub open spec fn answered(slot: SlotView, reply: Result<(), Seq<char>>) -> SlotView {
    SlotView { outcome: Some(concluded(slot.label.unwrap(), reply)), ..slot }
}

/// The state that the loop of dispatch keeps between `labels`, the draws made
/// so far and what is left in the pool.
spec fn pool_state(labels: Seq<Seq<char>>, drawn: Seq<Seq<char>>, pool: Seq<Seq<char>>) -> bool {
    &&& pool_draws(drawn, labels.len()).to_multiset().add(pool.to_multiset())
        =~= labels.to_multiset()
    &&& forall|k: int| labels.len() <= k < drawn.len() ==> #[trigger] drawn[k] == FALLBACK_LABEL@
}

proof fn lemma_pool_state_after_draw(
    labels: Seq<Seq<char>>,
    drawn: Seq<Seq<char>>,
    before: Seq<Seq<char>>,
    label: Seq<char>,
    after: Seq<Seq<char>>,
)
    requires
        pool_state(labels, drawn, before),
        is_draw(before, label, after),
    ensures
        pool_state(labels, drawn.push(label), after),
{
    let found = pool_draws(drawn, labels.len());
    let next = drawn.push(label);
    assert(found.to_multiset().add(before.to_multiset()).len() == labels.to_multiset().len());
    assert(found.len() + before.len() == labels.len());
    if before.len() == 0 {
        assert(pool_draws(next, labels.len()) =~= found);
    } else {
        let i = choose|i: int| 0 <= i < before.len() && label == #[trigger] before[i] && after == before.remove(i);
        assert(drawn.len() < labels.len());
        assert(pool_draws(next, labels.len()) == next);
        assert(before.to_multiset().count(label) > 0) by {
            assert(before.contains(label));
        }
        assert(after.to_multiset() =~= before.to_multiset().remove(label));
        assert(next.to_multiset() =~= drawn.to_multiset().insert(label));
        assert(next.to_multiset().add(after.to_multiset()) =~= drawn.to_multiset().add(
            before.to_multiset(),
        ));
    }
}

proof fn lemma_pool_state_gives_drawn_from(
    labels: Seq<Seq<char>>,
    drawn: Seq<Seq<char>>,
    pool: Seq<Seq<char>>,
)
    requires
        pool_state(labels, drawn, pool),
    ensures
        drawn_from(labels, drawn),
{
    let found = pool_draws(drawn, labels.len()).to_multiset();
    assert forall|label: Seq<char>| found.count(label) <= labels.to_multiset().count(label) by {
        assert(found.add(pool.to_multiset()).count(label) == labels.to_multiset().count(label));
    }
}

/// A request to the platform that is still open: give `member` the `label`.
/// `slot` says where the answer belongs.
#[derive(Debug)]
pub struct RenameRequest {
    pub slot: usize,
    pub member: Member,
    pub label: String,
}

/// An open request as the contracts see it.
pub struct RequestView {
    pub slot: int,
    pub member: Member,
    pub label: Seq<char>,
}

impl View for RenameRequest {
    type V = RequestView;

    open spec fn view(&self) -> RequestView {
        RequestView { slot: self.slot as int, member: self.member, label: self.label@ }
    }
}

/// The views of `requests`, in order.
pub open spec fn request_views(requests: Seq<RenameRequest>) -> Seq<RequestView> {
    Seq::new(requests.len(), |i: int| requests[i]@)
}

/// The requests that the platform has not answered, in the order of
/// dispatch.
pub open spec fn pending(slots: Seq<SlotView>) -> Seq<RequestView>
    decreases slots.len(),
{
    if slots.len() == 0 {
        Seq::empty()
    } else {
        let rest = pending(slots.drop_last());
        let last = slots.last();
        if awaiting(last) {
            rest.push(
                RequestView {
                    slot: slots.len() - 1,
                    member: last.member,
                    label: last.label.unwrap(),
                },
            )
        } else {
            rest
        }
    }
}

/// Every slot has its outcome.
pub open spec fn settled(slots: Seq<SlotView>) -> bool {
    forall|i: int| 0 <= i < slots.len() ==> (#[trigger] slots[i]).outcome is Some
}

/// One line of the report: the member, the label that was drawn for it (none
/// if it was skipped) and how the attempt ended.
#[derive(Debug)]
pub struct BatchEntry {
    pub member: Member,
    pub label: Option<String>,
    pub outcome: MutationOutcome,
}

impl BatchEntry {
    /// The label that the member now carries, where the attempt succeeded.
    pub fn outcome_label(&self) -> (label: Option<&str>)
        ensures
            match self.outcome {
                MutationOutcome::Succeeded(applied) => label is Some && label.unwrap()@ == applied@,
                _ => label is None,
            },
    {
        match &self.outcome {
            MutationOutcome::Succeeded(applied) => Some(applied.as_str()),
            _ => None,
        }
    }
}

/// A line of the report as the contracts see it.
pub struct EntryView {
    pub member: Member,
    pub label: Option<Seq<char>>,
    pub outcome: OutcomeView,
}

impl View for BatchEntry {
    type V = EntryView;

    open spec fn view(&self) -> EntryView {
        EntryView { member: self.member, label: text_view(self.label), outcome: self.outcome@ }
    }
}

/// The views of `entries`, in order.
pub open spec fn entry_views(entries: Seq<BatchEntry>) -> Seq<EntryView> {
    Seq::new(entries.len(), |i: int| entries[i]@)
}

/// The report of a batch whose slots all have their outcome: one line for
/// each slot, in the order of dispatch.
pub open spec fn report_of(slots: Seq<SlotView>) -> Seq<EntryView> {
    Seq::new(
        slots.len(),
        |i: int|
            EntryView {
                member: slots[i].member,
                label: slots[i].label,
                outcome: slots[i].outcome.unwrap(),
            },
    )
}

/// For each line the label drawn for it, in order.
pub open spec fn entry_labels(entries: Seq<EntryView>) -> Seq<Option<Seq<char>>> {
    Seq::new(entries.len(), |i: int| entries[i].label)
}

/// A line is consistent: without a label the member was skipped; with one,
/// the attempt failed or succeeded with that label.
pub open spec fn entry_ok(entry: EntryView) -> bool {
    match entry.label {
        None => entry.outcome == OutcomeView::Skipped(SkipReason::Protected),
        Some(label) => entry.outcome == OutcomeView::Succeeded(label)
            || entry.outcome is Failed,
    }
}

/// Every line is consistent.
pub open spec fn entries_ok(entries: Seq<EntryView>) -> bool {
    forall|i: int| 0 <= i < entries.len() ==> entry_ok(#[trigger] entries[i])
}

/// The views of `slots`, in order.
spec fn slot_views(slots: Seq<Slot>) -> Seq<SlotView> {
    Seq::new(slots.len(), |i: int| slots[i]@)
}

proof fn lemma_push_skipped(column: Seq<Option<Seq<char>>>)
    ensures
        attempt_labels(column.push(None)) == attempt_labels(column),
{
    assert(column.push(None).drop_last() =~= column);
}

proof fn lemma_push_drawn(column: Seq<Option<Seq<char>>>, label: Seq<char>)
    ensures
        attempt_labels(column.push(Some(label))) == attempt_labels(column).push(label),
{
    assert(column.push(Some(label)).drop_last() =~= column);
}

/// A batch under way: its targets in the order of dispatch, each with the
/// label drawn for it and, once known, the outcome.
pub struct Batch {
    slots: Vec<Slot>,
}

impl View for Batch {
    type V = Seq<SlotView>;

    closed spec fn view(&self) -> Seq<SlotView> {
        slot_views(self.slots@)
    }
}

impl Batch {
    /// Starts a batch: chooses the targets among `candidates` as `selection`
    /// says, fills one pool with `labels`, and goes through the targets in
    /// order. A protected target is skipped and costs no label; for every
    /// other one label is drawn, and the platform is yet to be asked.
    pub fn dispatch(
        candidates: Vec<Member>,
        selection: SelectionPolicy,
        labels: Vec<String>,
        protected: &HashSet<u64>,
    ) -> (batch: Batch)
        ensures
            selected(candidates@, selection, protected@, targets_of(batch@)),
            dispatched(protected@, batch@),
            drawn_from(label_views(labels@), attempt_labels(labels_of(batch@))),
    {
        let targets = select_targets(candidates, selection, protected);
        let ghost all = label_views(labels@);
        let mut pool = NamePool::new(labels);
        let mut slots: Vec<Slot> = Vec::new();
        let n = targets.len();
        let mut i: usize = 0;
        proof {
            assert(labels_of(slot_views(slots@)) =~= Seq::empty());
            assert(all.to_multiset().add(Seq::<Seq<char>>::empty().to_multiset()) =~= all.to_multiset());
            assert(Seq::<Seq<char>>::empty().to_multiset().add(all.to_multiset())
                =~= all.to_multiset());
        }
        while i < n
            invariant
                n == targets@.len(),
                i <= n,
                slots@.len() == i,
                forall|k: int|
                    0 <= k < i ==> dispatched_slot(targets@[k], protected@, #[trigger] slots@[k]@),
                pool_state(all, attempt_labels(labels_of(slot_views(slots@))), pool@),
            decreases n - i,
        {
            let member = targets[i];
            let ghost column = labels_of(slot_views(slots@));
            let ghost before = pool@;
            let slot = match begin(&member, &mut pool, protected) {
                WorkerStep::Skip => Slot { member, progress: Progress::Skipped },
                WorkerStep::Attempt(label) => Slot { member, progress: Progress::Awaiting(label) },
            };
            slots.push(slot);
            proof {
                assert(labels_of(slot_views(slots@)) =~= column.push(slot@.label));
                match slot@.label {
                    None => {
                        lemma_push_skipped(column);
                    },
                    Some(label) => {
                        lemma_push_drawn(column, label);
                        lemma_pool_state_after_draw(
                            all,
                            attempt_labels(column),
                            before,
                            label,
                            pool@,
                        );
                    },
                }
            }
            i = i + 1;
        }
        let batch = Batch { slots };
        proof {
            assert(targets_of(batch@) =~= targets@);
            lemma_pool_state_gives_drawn_from(all, attempt_labels(labels_of(batch@)), pool@);
        }
        batch
    }

    /// The number of targets.
    pub fn len(&self) -> (n: usize)
        ensures
            n == self@.len(),
    {
        self.slots.len()
    }

    /// The requests that are still open, in the order of dispatch.
    pub fn requests(&self) -> (open: Vec<RenameRequest>)
        ensures
            request_views(open@) == pending(self@),
    {
        let mut open: Vec<RenameRequest> = Vec::new();
        let n = self.slots.len();
        proof {
            assert(self@.take(0) =~= Seq::empty());
            assert(request_views(open@) =~= Seq::empty());
        }
        for i in 0..n
            invariant
                n == self.slots@.len(),
                request_views(open@) == pending(self@.take(i as int)),
        {
            let slot = &self.slots[i];
            let ghost so_far = request_views(open@);
            proof {
                assert(self@.take(i + 1).drop_last() =~= self@.take(i as int));
                assert(self@.take(i + 1).last() == slot@);
            }
            match &slot.progress {
                Progress::Awaiting(label) => {
                    let request = RenameRequest { slot: i, member: slot.member, label: label.clone() };
                    open.push(request);
                    proof {
                        assert(request_views(open@) =~= so_far.push(request@));
                    }
                },
                _ => {},
            }
        }
        proof {
            assert(self@.take(n as int) =~= self@);
        }
        open
    }

    /// Takes the platform's answer for `slot`. Where that slot awaits one, it
    /// gets its outcome, success with the label drawn for it or the
    /// platform's failure, and every other slot stays as it is. Anywhere
    /// else the answer is dropped and nothing changes.
    pub fn complete(&mut self, slot: usize, reply: Result<(), String>) -> (accepted: bool)
        ensures
            accepted == (slot < old(self)@.len() && awaiting(old(self)@[slot as int])),
            accepted ==> final(self)@ == old(self)@.update(
                slot as int,
                answered(old(self)@[slot as int], reply_view(reply)),
            ),
            !accepted ==> final(self)@ == old(self)@,
    {
        if slot >= self.slots.len() {
            return false;
        }
        let current = &self.slots[slot];
        let member = current.member;
        match &current.progress {
            Progress::Awaiting(label) => {
                let kept = label.clone();
                let progress = match conclude(label.clone(), reply) {
                    MutationOutcome::Failed(error) => Progress::Failed(kept, error),
                    _ => Progress::Succeeded(kept),
                };
                self.slots.set(slot, Slot { member, progress });
                proof {
                    assert(self@ =~= old(self)@.update(
                        slot as int,
                        answered(old(self)@[slot as int], reply_view(reply)),
                    ));
                }
                true
            },
            _ => false,
        }
    }

    /// Whether every slot has its outcome.
    pub fn is_settled(&self) -> (yes: bool)
        ensures
            yes == settled(self@),
    {
        let n = self.slots.len();
        for i in 0..n
            invariant
                n == self.slots@.len(),
                forall|k: int| 0 <= k < i ==> (#[trigger] self@[k]).outcome is Some,
        {
            match &self.slots[i].progress {
                Progress::Awaiting(_) => {
                    assert(self@[i as int].outcome is None);
                    return false;
                },
                _ => {},
            }
        }
        true
    }

    /// The report, once every slot has its outcome: the lines in the order
    /// of dispatch, whatever the order of the answers was. Before that,
    /// nothing.
    pub fn finish(&self) -> (report: Option<BatchResult>)
        ensures
            settled(self@) ==> report is Some && report.unwrap()@ == report_of(self@),
            !settled(self@) ==> report is None,
            report is Some ==> entries_ok(report.unwrap()@),
    {
        let mut entries: Vec<BatchEntry> = Vec::new();
        let n = self.slots.len();
        for i in 0..n
            invariant
                n == self.slots@.len(),
                entries@.len() == i,
                forall|k: int| 0 <= k < i ==> (#[trigger] self@[k]).outcome is Some,
                forall|k: int| 0 <= k < i ==> (#[trigger] entries@[k])@ == report_of(self@)[k],
        {
            let slot = &self.slots[i];
            let member = slot.member;
            let entry = match &slot.progress {
                Progress::Awaiting(_) => {
                    assert(self@[i as int].outcome is None);
                    return None;
                },
                Progress::Skipped => BatchEntry {
                    member,
                    label: None,
                    outcome: MutationOutcome::Skipped(SkipReason::Protected),
                },
                Progress::Succeeded(label) => BatchEntry {
                    member,
                    label: Some(label.clone()),
                    outcome: MutationOutcome::Succeeded(label.clone()),
                },
                Progress::Failed(label, error) => BatchEntry {
                    member,
                    label: Some(label.clone()),
                    outcome: MutationOutcome::Failed(error.clone()),
                },
            };
            entries.push(entry);
        }
        let report = BatchResult { entries };
        proof {
            assert(report@ =~= report_of(self@));
            assert forall|k: int| 0 <= k < report@.len() implies entry_ok(#[trigger] report@[k]) by {
                assert(report@[k] == report_of(self@)[k]);
            }
        }
        Some(report)
    }
}

/// The report of a batch: one line for each target, in the order of
/// dispatch.
#[derive(Debug)]
pub struct BatchResult {
    entries: Vec<BatchEntry>,
}

impl View for BatchResult {
    type V = Seq<EntryView>;

    closed spec fn view(&self) -> Seq<EntryView> {
        entry_views(self.entries@)
    }
}

/// The number of lines that report a success.
pub open spec fn succeeded_count(entries: Seq<EntryView>) -> nat {
    entries.filter(|e: EntryView| e.outcome is Succeeded).len()
}

/// The number of lines that report a member left alone.
pub open spec fn skipped_count(entries: Seq<EntryView>) -> nat {
    entries.filter(|e: EntryView| e.outcome is Skipped).len()
}

/// The number of lines that report a failure.
pub open spec fn failed_count(entries: Seq<EntryView>) -> nat {
    entries.filter(|e: EntryView| e.outcome is Failed).len()
}

/// The identities of the members that were renamed, in the order of
/// dispatch.
pub open spec fn succeeded_ids(entries: Seq<EntryView>) -> Seq<u64> {
    entries.filter(|e: EntryView| e.outcome is Succeeded).map_values(|e: EntryView| e.member.id)
}

/// What one more line adds to the counts and to the list of the renamed.
proof fn lemma_counts_step(entries: Seq<EntryView>, i: int)
    requires
        0 <= i < entries.len(),
    ensures
        succeeded_count(entries.take(i + 1)) == succeeded_count(entries.take(i)) + (if entries[i].outcome is Succeeded {
            1nat
        } else {
            0nat
        }),
        skipped_count(entries.take(i + 1)) == skipped_count(entries.take(i)) + (if entries[i].outcome is Skipped {
            1nat
        } else {
            0nat
        }),
        failed_count(entries.take(i + 1)) == failed_count(entries.take(i)) + (if entries[i].outcome is Failed {
            1nat
        } else {
            0nat
        }),
        succeeded_ids(entries.take(i + 1)) == if entries[i].outcome is Succeeded {
            succeeded_ids(entries.take(i)).push(entries[i].member.id)
        } else {
            succeeded_ids(entries.take(i))
        },
{
    reveal(Seq::filter);
    assert(entries.take(i + 1).drop_last() =~= entries.take(i));
    assert(entries.take(i + 1).last() == entries[i]);
    let renamed = |e: EntryView| e.outcome is Succeeded;
    let id = |e: EntryView| e.member.id;
    if entries[i].outcome is Succeeded {
        assert(entries.take(i + 1).filter(renamed) == entries.take(i).filter(renamed).push(entries[i]));
        assert(entries.take(i).filter(renamed).push(entries[i]).map_values(id)
            =~= entries.take(i).filter(renamed).map_values(id).push(entries[i].member.id));
    }
}

/// Every line counts once: as a success, as a skip or as a failure.
pub proof fn lemma_counts_add_up(entries: Seq<EntryView>)
    ensures
        succeeded_count(entries) + skipped_count(entries) + failed_count(entries) == entries.len(),
        succeeded_ids(entries).len() == succeeded_count(entries),
    decreases entries.len(),
{
    reveal(Seq::filter);
    if entries.len() > 0 {
        let i = entries.len() - 1;
        lemma_counts_add_up(entries.take(i));
        lemma_counts_step(entries, i);
        assert(entries.take(i + 1) =~= entries);
    }
}

/// The three counts of a report.
#[derive(Debug, Clone, Copy, PartialEq, Eq, Structural)]
pub struct Counts {
    pub succeeded: usize,
    pub skipped: usize,
    pub failed: usize,
}

impl BatchResult {
    /// The lines, in the order of dispatch.
    pub fn entries(&self) -> (lines: &Vec<BatchEntry>)
        ensures
            entry_views(lines@) == self@,
    {
        &self.entries
    }

    /// The number of lines.
    pub fn len(&self) -> (n: usize)
        ensures
            n == self@.len(),
    {
        self.entries.len()
    }

    /// How many members were renamed, how many were left alone and how many
    /// attempts failed.
    pub fn counts(&self) -> (counts: Counts)
        ensures
            counts.succeeded == succeeded_count(self@),
            counts.skipped == skipped_count(self@),
            counts.failed == failed_count(self@),
    {
        let mut counts = Counts { succeeded: 0, skipped: 0, failed: 0 };
        let n = self.entries.len();
        proof {
            assert(self@.take(0) =~= Seq::empty());
            reveal(Seq::filter);
        }
        for i in 0..n
            invariant
                n == self.entries@.len(),
                counts.succeeded == succeeded_count(self@.take(i as int)),
                counts.skipped == skipped_count(self@.take(i as int)),
                counts.failed == failed_count(self@.take(i as int)),
                counts.succeeded + counts.skipped + counts.failed == i,
        {
            proof {
                lemma_counts_step(self@, i as int);
            }
            match &self.entries[i].outcome {
                MutationOutcome::Succeeded(_) => {
                    counts.succeeded = counts.succeeded + 1;
                },
                MutationOutcome::Skipped(_) => {
                    counts.skipped = counts.skipped + 1;
                },
                MutationOutcome::Failed(_) => {
                    counts.failed = counts.failed + 1;
                },
            }
        }
        proof {
            assert(self@.take(n as int) =~= self@);
        }
        counts
    }

    /// The identities of the members that were renamed, in the order of
    /// dispatch.
    pub fn renamed(&self) -> (ids: Vec<u64>)
        ensures
            ids@ == succeeded_ids(self@),
    {
        let mut ids: Vec<u64> = Vec::new();
        let n = self.entries.len();
        proof {
            assert(self@.take(0) =~= Seq::empty());
            reveal(Seq::filter);
            assert(succeeded_ids(self@.take(0)) =~= Seq::empty());
        }
        for i in 0..n
            invariant
                n == self.entries@.len(),
                ids@ == succeeded_ids(self@.take(i as int)),
        {
            proof {
                lemma_counts_step(self@, i as int);
            }
            let entry = &self.entries[i];
            match &entry.outcome {
                MutationOutcome::Succeeded(_) => {
                    ids.push(entry.member.id);
                },
                _ => {},
            }
        }
        proof {
            assert(self@.take(n as int) =~= self@);
        }
        ids
    }
}

/// The draw made for position `i` is the one that `draws_before` counts to:
/// it stands at that place among the draws.
pub proof fn lemma_draw_of_position(column: Seq<Option<Seq<char>>>, i: int)
    requires
        0 <= i < column.len(),
        column[i] is Some,
    ensures
        draws_before(column, i) < attempt_labels(column).len(),
        attempt_labels(column)[draws_before(column, i) as int] == column[i].unwrap(),
    decreases column.len(),
{
    let rest = column.drop_last();
    if i == column.len() - 1 {
        assert(column.take(i) =~= rest);
    } else {
        lemma_draw_of_position(rest, i);
        assert(rest.take(i) =~= column.take(i));
    }
}

/// A later position has more draws before it than an earlier one for which
/// a label was drawn.
pub proof fn lemma_draws_before_grow(column: Seq<Option<Seq<char>>>, i: int, j: int)
    requires
        0 <= i < j <= column.len(),
        column[i] is Some,
    ensures
        draws_before(column, i) < draws_before(column, j),
{
    lemma_draw_of_position(column.take(j), i);
    assert(column.take(j).take(i) =~= column.take(i));
}

/// An answer changes no label: the draws of a batch stay what dispatch made
/// them.
pub proof fn lemma_answer_keeps_labels(slots: Seq<SlotView>, slot: int, reply: Result<(), Seq<char>>)
    requires
        0 <= slot < slots.len(),
    ensures
        labels_of(slots.update(slot, answered(slots[slot], reply))) == labels_of(slots),
        targets_of(slots.update(slot, answered(slots[slot], reply))) == targets_of(slots),
{
    let next = slots.update(slot, answered(slots[slot], reply));
    assert(labels_of(next) =~= labels_of(slots));
    assert(targets_of(next) =~= targets_of(slots));
}

/// An answer for one slot changes no other slot, whatever the answer is: a
/// failure of one attempt leaves the outcome of every other as it would
/// have been.
pub proof fn lemma_answer_touches_one_slot(
    slots: Seq<SlotView>,
    slot: int,
    reply: Result<(), Seq<char>>,
    other: Result<(), Seq<char>>,
)
    requires
        0 <= slot < slots.len(),
    ensures
        forall|k: int|
            0 <= k < slots.len() && k != slot ==> slots.update(slot, answered(slots[slot], reply))[k]
                == slots[k],
        forall|k: int|
            0 <= k < slots.len() && k != slot ==> slots.update(slot, answered(slots[slot], reply))[k]
                == slots.update(slot, answered(slots[slot], other))[k],
{
}

/// The report carries the members and the labels of the slots.
pub proof fn lemma_report_keeps_labels(slots: Seq<SlotView>)
    ensures
        entry_labels(report_of(slots)) == labels_of(slots),
{
    assert(entry_labels(report_of(slots)) =~= labels_of(slots));
}

/// In a report whose labels were drawn from a pool filled with `labels`, no
/// label of which occurs twice: two successes for which the pool still had
/// a label never carry the same label, and a success for which the pool was
/// empty carries the fallback.
pub proof fn lemma_labels_distinct_until_exhausted(labels: Seq<Seq<char>>, entries: Seq<EntryView>)
    requires
        entries_ok(entries),
        drawn_from(labels, attempt_labels(entry_labels(entries))),
        labels.no_duplicates(),
    ensures
        forall|i: int, j: int|
            0 <= i < j < entries.len() && (#[trigger] entries[i]).outcome is Succeeded && (
            #[trigger] entries[j]).outcome is Succeeded && draws_before(entry_labels(entries), j)
                < labels.len() ==> entries[i].outcome != entries[j].outcome,
        forall|i: int|
            0 <= i < entries.len() && (#[trigger] entries[i]).outcome is Succeeded && draws_before(
                entry_labels(entries),
                i,
            ) >= labels.len() ==> entries[i].outcome == OutcomeView::Succeeded(FALLBACK_LABEL@),
{
    let column = entry_labels(entries);
    let drawn = attempt_labels(column);
    let found = pool_draws(drawn, labels.len());
    labels.lemma_multiset_has_no_duplicates();
    assert forall|x: Seq<char>| found.to_multiset().contains(x) implies found.to_multiset().count(x)
        == 1 by {
        assert(found.to_multiset().count(x) <= labels.to_multiset().count(x));
        assert(labels.to_multiset().contains(x));
    }
    found.lemma_multiset_has_no_duplicates_conv();
    assert forall|i: int, j: int|
        0 <= i < j < entries.len() && (#[trigger] entries[i]).outcome is Succeeded && (
        #[trigger] entries[j]).outcome is Succeeded && draws_before(column, j)
            < labels.len() implies entries[i].outcome != entries[j].outcome by {
        assert(entry_ok(entries[i]) && entry_ok(entries[j]));
        assert(column[i] == entries[i].label && column[j] == entries[j].label);
        lemma_draw_of_position(column, i);
        lemma_draw_of_position(column, j);
        lemma_draws_before_grow(column, i, j);
        let a = draws_before(column, i) as int;
        let b = draws_before(column, j) as int;
        assert(found[a] == drawn[a] && found[b] == drawn[b]);
        assert(found[a] != found[b]);
    }
    assert forall|i: int|
        0 <= i < entries.len() && (#[trigger] entries[i]).outcome is Succeeded && draws_before(
            column,
            i,
        ) >= labels.len() implies entries[i].outcome == OutcomeView::Succeeded(
        FALLBACK_LABEL@,
    ) by {
        assert(entry_ok(entries[i]));
        assert(column[i] == entries[i].label);
        lemma_draw_of_position(column, i);
    }
}

/// The slots without a label are those of the protected members.
pub open spec fn labelled(protected: Set<u64>, slots: Seq<SlotView>) -> bool {
    forall|i: int|
        0 <= i < slots.len() ==> ((#[trigger] slots[i]).label is None) == is_protected(
            slots[i].member,
            protected,
        )
}

/// Every slot is consistent.
pub open spec fn slots_ok(slots: Seq<SlotView>) -> bool {
    forall|i: int| 0 <= i < slots.len() ==> slot_ok(#[trigger] slots[i])
}

impl Batch {
    /// The slots of a batch are consistent at every time.
    pub proof fn lemma_consistent(&self)
        ensures
            slots_ok(self@),
    {
        assert forall|i: int| 0 <= i < self@.len() implies slot_ok(#[trigger] self@[i]) by {
            assert(self@[i] == self.slots@[i]@);
        }
    }
}

/// What dispatch makes of its targets gives labels to those that are not
/// protected, and to no others.
pub proof fn lemma_dispatched_is_labelled(protected: Set<u64>, slots: Seq<SlotView>)
    requires
        dispatched(protected, slots),
    ensures
        labelled(protected, slots),
        slots_ok(slots),
{
    assert forall|i: int| 0 <= i < slots.len() implies ((#[trigger] slots[i]).label is None)
        == is_protected(slots[i].member, protected) && slot_ok(slots[i]) by {
        assert(dispatched_slot(slots[i].member, protected, slots[i]));
    }
}

/// A batch that chose its targets by `Single` has at most one slot, and no
/// member in it is ever reported as skipped; where every candidate is
/// protected it has no slot at all.
pub proof fn lemma_single_batch(candidates: Seq<Member>, protected: Set<u64>, slots: Seq<SlotView>)
    requires
        selected(candidates, SelectionPolicy::Single, protected, targets_of(slots)),
        labelled(protected, slots),
        slots_ok(slots),
    ensures
        slots.len() <= 1,
        forall|i: int|
            0 <= i < slots.len() ==> !((#[trigger] slots[i]).outcome matches Some(
                OutcomeView::Skipped(_),
            )),
        (forall|i: int| 0 <= i < candidates.len() ==> is_protected(#[trigger] candidates[i], protected))
            ==> slots.len() == 0,
{
    crate::selection::lemma_single_selection(candidates, protected, targets_of(slots));
    assert forall|i: int| 0 <= i < slots.len() implies !((#[trigger] slots[i]).outcome matches Some(
        OutcomeView::Skipped(_),
    )) by {
        assert(targets_of(slots)[i] == slots[i].member);
        assert(slot_ok(slots[i]));
    }
}

} // verus!
