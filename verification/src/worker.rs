//! One attempt to rename one member.

use crate::member::{is_protected, Member};
use crate::pool::{is_draw, NamePool};
use std::collections::HashSet;
use vstd::prelude::*;

verus! {

/// Why a member was left alone.
#[derive(Debug, Clone, Copy, PartialEq, Eq, Structural)]
pub enum SkipReason {
    /// The member is protected.
    Protected,
}

/// How the attempt on one member ended.
#[derive(Debug)]
pub enum MutationOutcome {
    /// The member now carries this label.
    Succeeded(String),
    /// No attempt was made.
    Skipped(SkipReason),
    /// The platform refused or failed; its message.
    Failed(String),
}

/// An outcome as the contracts see it.
pub enum OutcomeView {
    Succeeded(Seq<char>),
    Skipped(SkipReason),
    Failed(Seq<char>),
}

impl View for MutationOutcome {
    type V = OutcomeView;

    open spec fn view(&self) -> OutcomeView {
        match self {
            MutationOutcome::Succeeded(label) => OutcomeView::Succeeded(label@),
            MutationOutcome::Skipped(reason) => OutcomeView::Skipped(*reason),
            MutationOutcome::Failed(error) => OutcomeView::Failed(error@),
        }
    }
}

impl Clone for MutationOutcome {
    fn clone(&self) -> (copy: Self)
        ensures
            copy@ == self@,
    {
        match self {
            MutationOutcome::Succeeded(label) => MutationOutcome::Succeeded(label.clone()),
            MutationOutcome::Skipped(reason) => MutationOutcome::Skipped(*reason),
            MutationOutcome::Failed(error) => MutationOutcome::Failed(error.clone()),
        }
    }
}

/// What a worker does next for its member.
#[derive(Debug)]
pub enum WorkerStep {
    /// Nothing: the member is protected.
    Skip,
    /// Ask the platform once to give the member this label.
    Attempt(String),
}

/// A step as the contracts see it.
pub enum StepView {
    Skip,
    Attempt(Seq<char>),
}

impl View for WorkerStep {
    type V = StepView;

    open spec fn view(&self) -> StepView {
        match self {
            WorkerStep::Skip => StepView::Skip,
            WorkerStep::Attempt(label) => StepView::Attempt(label@),
        }
    }
}

/// The outcome of an attempt with `label` to which the platform answered
/// `reply`.
pub open spec fn concluded(label: Seq<char>, reply: Result<(), Seq<char>>) -> OutcomeView {
    match reply {
        Ok(_) => OutcomeView::Succeeded(label),
        Err(error) => OutcomeView::Failed(error),
    }
}

/// The platform's answer as the contracts see it.
pub open spec fn reply_view(reply: Result<(), String>) -> Result<(), Seq<char>> {
    match reply {
        Ok(_) => Ok(()),
        Err(error) => Err(error@),
    }
}

/// Decides what to do for `member`. A protected member is skipped and the
/// pool is left alone; for any other, one label is drawn from the pool.
pub fn begin(member: &Member, pool: &mut NamePool, protected: &HashSet<u64>) -> (step: WorkerStep)
    ensures
        is_protected(*member, protected@) ==> step@ == StepView::Skip && final(pool)@ == old(pool)@,
        !is_protected(*member, protected@) ==> (step@ matches StepView::Attempt(label) && is_draw(
            old(pool)@,
            label,
            final(pool)@,
        )),
{
    if member.is_protected(protected) {
        WorkerStep::Skip
    } else {
        WorkerStep::Attempt(pool.draw())
    }
}

/// The outcome of the one attempt that was made with `label`: success with
/// that label, or the platform's failure. The label is spent either way.
pub fn conclude(label: String, reply: Result<(), String>) -> (outcome: MutationOutcome)
    ensures
        outcome@ == concluded(label@, reply_view(reply)),
{
    match reply {
        Ok(_) => MutationOutcome::Succeeded(label),
        Err(error) => MutationOutcome::Failed(error),
    }
}

} // verus!
