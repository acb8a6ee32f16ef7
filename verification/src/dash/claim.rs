//! The decisions of the controller that reconciles model claims.

use crate::dash::binding::{Action, Outcome, FALLBACK_SECS};
use crate::text::same_str;
use vstd::prelude::*;

verus! {

/// How far a claim has come.
#[derive(Copy, Clone, Debug, PartialEq, Eq, PartialOrd, Ord, Hash, Structural)]
pub enum ModelClaimState {
    Pending,
    Ready,
    Replacing,
    Deleting,
}

impl Default for ModelClaimState {
    fn default() -> (state: Self)
        ensures
            state == ModelClaimState::Pending,
    {
        ModelClaimState::Pending
    }
}

/// What the controller of claims does next.
#[derive(Copy, Clone, Debug, PartialEq, Eq, Structural)]
pub enum ClaimStep {
    /// Record that the claim is being deleted.
    MarkDeleting,
    /// Put the controller's finalizer on the claim.
    AddFinalizer,
    /// Validate the claim against the cluster.
    Validate,
    /// Record the validated claim as ready.
    MarkReady,
    /// Delete what the claim holds.
    Delete,
    /// Take the controller's finalizer off the claim.
    RemoveFinalizer,
    /// End the reconciliation.
    Finish(Action),
}

/// What the controller reads of a claim.
#[derive(Copy, Clone, Debug, PartialEq, Eq, Structural)]
pub struct ClaimFacts {
    /// The claim carries a deletion timestamp.
    pub deletion_requested: bool,
    /// The state in the claim's status, if it has a status.
    pub state: Option<ModelClaimState>,
    /// The claim carries the controller's finalizer.
    pub has_finalizer: bool,
}

/// The first step for a claim. A claim that is to be deleted and does not
/// say so yet is marked; a claim without the finalizer gets it; after that
/// the state decides, and a claim without a status is pending.
pub open spec fn claim_first_step(facts: ClaimFacts) -> ClaimStep {
    if facts.deletion_requested && facts.state != Some(ModelClaimState::Deleting) {
        ClaimStep::MarkDeleting
    } else if !facts.has_finalizer {
        ClaimStep::AddFinalizer
    } else {
        match facts.state {
            Some(ModelClaimState::Ready) => ClaimStep::Finish(Action::AwaitChange),
            Some(ModelClaimState::Deleting) => ClaimStep::Delete,
            _ => ClaimStep::Validate,
        }
    }
}

/// The step after a step and its outcome, where there is one to decide. A
/// claim that was validated is recorded as ready, and one whose holdings
/// were deleted loses the finalizer. A validation or a deletion that failed,
/// and a record that was written or not, end with another look after the
/// fallback time. Putting the finalizer on or taking it off ends the
/// reconciliation with the action that this step itself came back with.
pub open spec fn claim_next_step(step: ClaimStep, outcome: Outcome) -> Option<ClaimStep> {
    match (step, outcome) {
        (ClaimStep::Validate, Outcome::Done) => Some(ClaimStep::MarkReady),
        (ClaimStep::Delete, Outcome::Done) => Some(ClaimStep::RemoveFinalizer),
        (ClaimStep::Validate, Outcome::Failed) => Some(
            ClaimStep::Finish(Action::Requeue(FALLBACK_SECS)),
        ),
        (ClaimStep::Delete, Outcome::Failed) => Some(
            ClaimStep::Finish(Action::Requeue(FALLBACK_SECS)),
        ),
        (ClaimStep::MarkDeleting, _) => Some(ClaimStep::Finish(Action::Requeue(FALLBACK_SECS))),
        (ClaimStep::MarkReady, _) => Some(ClaimStep::Finish(Action::Requeue(FALLBACK_SECS))),
        (ClaimStep::AddFinalizer, _) => None,
        (ClaimStep::RemoveFinalizer, _) => None,
        (ClaimStep::Finish(_), _) => None,
    }
}

/// Whether a list of finalizers holds the one of a name.
pub open spec fn holds_finalizer(finalizers: Seq<String>, name: Seq<char>) -> bool {
    exists|i: int| 0 <= i < finalizers.len() && (#[trigger] finalizers[i])@ == name
}

/// Looks for a finalizer in a list.
pub fn has_finalizer(finalizers: &Vec<String>, name: &str) -> (found: bool)
    ensures
        found == holds_finalizer(finalizers@, name@),
{
    let mut i: usize = 0;
    while i < finalizers.len()
        invariant
            i <= finalizers.len(),
            forall|j: int| 0 <= j < i ==> (#[trigger] finalizers@[j])@ != name@,
        decreases finalizers.len() - i,
    {
        if same_str(finalizers[i].as_str(), name) {
            return true;
        }
        i = i + 1;
    }
    false
}

/// Decides the first step of a reconciliation.
pub fn claim_begin(facts: ClaimFacts) -> (step: ClaimStep)
    ensures
        step == claim_first_step(facts),
{
    let deleting = match facts.state {
        Some(ModelClaimState::Deleting) => true,
        _ => false,
    };
    if facts.deletion_requested && !deleting {
        ClaimStep::MarkDeleting
    } else if !facts.has_finalizer {
        ClaimStep::AddFinalizer
    } else {
        match facts.state {
            Some(ModelClaimState::Ready) => ClaimStep::Finish(Action::AwaitChange),
            Some(ModelClaimState::Deleting) => ClaimStep::Delete,
            _ => ClaimStep::Validate,
        }
    }
}

/// Decides the step after a step and its outcome.
pub fn claim_advance(step: ClaimStep, outcome: Outcome) -> (next: Option<ClaimStep>)
    ensures
        next == claim_next_step(step, outcome),
{
    let again = Some(ClaimStep::Finish(Action::Requeue(FALLBACK_SECS)));
    match step {
        ClaimStep::Validate => match outcome {
            Outcome::Done => Some(ClaimStep::MarkReady),
            Outcome::Failed => again,
        },
        ClaimStep::Delete => match outcome {
            Outcome::Done => Some(ClaimStep::RemoveFinalizer),
            Outcome::Failed => again,
        },
        ClaimStep::MarkDeleting => again,
        ClaimStep::MarkReady => again,
        ClaimStep::AddFinalizer => None,
        ClaimStep::RemoveFinalizer => None,
        ClaimStep::Finish(_) => None,
    }
}

} // verus!
