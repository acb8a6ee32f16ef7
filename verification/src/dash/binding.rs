//! Bindings of a model to a storage, and the decisions of the controller
//! that brings a binding to readiness.

use vstd::prelude::*;

verus! {

/// When the data of a cloned storage is carried over to its target.
#[derive(Copy, Clone, Debug, PartialEq, Eq, PartialOrd, Ord, Hash, Structural)]
pub enum ModelStorageBindingSyncPolicy {
    Always,
    Never,
    OnDelete,
}

impl Default for ModelStorageBindingSyncPolicy {
    fn default() -> (policy: Self)
        ensures
            policy == ModelStorageBindingSyncPolicy::Never,
    {
        ModelStorageBindingSyncPolicy::Never
    }
}

/// How far a binding has come.
#[derive(Copy, Clone, Debug, PartialEq, Eq, PartialOrd, Ord, Hash, Structural)]
pub enum ModelStorageBindingState {
    Pending,
    Ready,
}

impl Default for ModelStorageBindingState {
    fn default() -> (state: Self)
        ensures
            state == ModelStorageBindingState::Pending,
    {
        ModelStorageBindingState::Pending
    }
}

/// A storage that is filled from another.
#[derive(Clone, Debug, PartialEq)]
pub struct ModelStorageBindingStorageKindClonedSpec<Storage> {
    pub source: Storage,
    pub target: Storage,
    pub sync_policy: ModelStorageBindingSyncPolicy,
}

/// A storage that stands alone.
#[derive(Clone, Debug, PartialEq)]
pub struct ModelStorageBindingStorageKindOwnedSpec<Storage> {
    pub target: Storage,
}

/// The storage side of a binding.
#[derive(Clone, Debug, PartialEq)]
pub enum ModelStorageBindingStorageKind<Storage> {
    Cloned(ModelStorageBindingStorageKindClonedSpec<Storage>),
    Owned(ModelStorageBindingStorageKindOwnedSpec<Storage>),
}

impl<Storage> ModelStorageBindingStorageKind<Storage> {
    /// The storage that the target is filled from, and when, where there is
    /// one.
    pub fn source(&self) -> (r: Option<(&Storage, ModelStorageBindingSyncPolicy)>)
        ensures
            match *self {
                ModelStorageBindingStorageKind::Cloned(spec) => r == Some(
                    (&spec.source, spec.sync_policy),
                ),
                ModelStorageBindingStorageKind::Owned(_) => r is None,
            },
    {
        match self {
            ModelStorageBindingStorageKind::Cloned(spec) => Some((&spec.source, spec.sync_policy)),
            ModelStorageBindingStorageKind::Owned(_) => None,
        }
    }

    /// The storage that the model is bound to.
    pub fn target(&self) -> (r: &Storage)
        ensures
            match *self {
                ModelStorageBindingStorageKind::Cloned(spec) => *r == spec.target,
                ModelStorageBindingStorageKind::Owned(spec) => *r == spec.target,
            },
    {
        match self {
            ModelStorageBindingStorageKind::Cloned(spec) => &spec.target,
            ModelStorageBindingStorageKind::Owned(spec) => &spec.target,
        }
    }
}

/// A binding: the name of a model, and the storage it is bound to by name.
#[derive(Clone, Debug, PartialEq)]
pub struct ModelStorageBindingSpec {
    pub model: String,
    pub storage: ModelStorageBindingStorageKind<String>,
}

/// The storage side of a binding with the storages looked up.
#[derive(Clone, Debug, PartialEq)]
pub struct ModelStorageBindingStorageSpec<'name, Storage> {
    pub source: Option<(&'name str, Storage, ModelStorageBindingSyncPolicy)>,
    pub target: Storage,
    pub target_name: &'name str,
}

/// How long the controllers wait before they look at a resource again, in
/// seconds.
pub const FALLBACK_SECS: u64 = 30;

/// What a controller does with a resource once a reconciliation is over.
#[derive(Copy, Clone, Debug, PartialEq, Eq, Structural)]
pub enum Action {
    /// Look again after so many seconds.
    Requeue(u64),
    /// Wait until the resource changes.
    AwaitChange,
}

/// What the controller of bindings does next.
#[derive(Copy, Clone, Debug, PartialEq, Eq, Structural)]
pub enum BindingStep {
    /// Validate the binding against the cluster.
    Validate,
    /// Record the validated binding as ready.
    MarkReady,
    /// End the reconciliation.
    Finish(Action),
}

/// What happened to the step that the controller took.
#[derive(Copy, Clone, Debug, PartialEq, Eq, Structural)]
pub enum Outcome {
    Done,
    Failed,
}

/// The first step for a binding in a state. A binding without a status is
/// pending.
pub open spec fn binding_first_step(state: Option<ModelStorageBindingState>) -> BindingStep {
    match state {
        Some(ModelStorageBindingState::Ready) => BindingStep::Finish(Action::AwaitChange),
        _ => BindingStep::Validate,
    }
}

/// The step after a step and its outcome, where there is one to decide. A
/// binding that was validated is recorded as ready. A validation that
/// failed, and a record that was written or not, end with another look after
/// the fallback time.
pub open spec fn binding_next_step(step: BindingStep, outcome: Outcome) -> Option<BindingStep> {
    match (step, outcome) {
        (BindingStep::Validate, Outcome::Done) => Some(BindingStep::MarkReady),
        (BindingStep::Validate, Outcome::Failed) => Some(
            BindingStep::Finish(Action::Requeue(FALLBACK_SECS)),
        ),
        (BindingStep::MarkReady, _) => Some(BindingStep::Finish(Action::Requeue(FALLBACK_SECS))),
        (BindingStep::Finish(_), _) => None,
    }
}

/// Decides the first step of a reconciliation.
pub fn binding_begin(state: Option<ModelStorageBindingState>) -> (step: BindingStep)
    ensures
        step == binding_first_step(state),
{
    match state {
        Some(ModelStorageBindingState::Ready) => BindingStep::Finish(Action::AwaitChange),
        _ => BindingStep::Validate,
    }
}

/// Decides the step after a step and its outcome.
pub fn binding_advance(step: BindingStep, outcome: Outcome) -> (next: Option<BindingStep>)
    ensures
        next == binding_next_step(step, outcome),
{
    let again = Some(BindingStep::Finish(Action::Requeue(FALLBACK_SECS)));
    match step {
        BindingStep::Validate => match outcome {
            Outcome::Done => Some(BindingStep::MarkReady),
            Outcome::Failed => again,
        },
        BindingStep::MarkReady => again,
        BindingStep::Finish(_) => None,
    }
}

} // verus!
