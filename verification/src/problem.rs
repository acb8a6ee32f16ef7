//! The problem specification: the metadata schema that the rest of the
//! pipeline works under, and the refined problem that the analyzer hands on.

use crate::graph::metadata::{GraphMetadata, GraphMetadataRaw, GraphMetadataView};
use crate::graph::scope::{GraphScope, ScopeView};
use vstd::prelude::*;

verus! {

/// A problem: the mapping from roles to columns, and whether diagnostics are
/// detailed. `verbose` changes no result.
#[derive(Debug, PartialEq, Eq, PartialOrd, Ord, Hash)]
pub struct ProblemSpec<M = GraphMetadataRaw> {
    pub metadata: M,
    pub verbose: bool,
}

/// A problem as a mathematical value.
pub ghost struct ProblemSpecView<V> {
    pub metadata: V,
    pub verbose: bool,
}

impl<M: View> View for ProblemSpec<M> {
    type V = ProblemSpecView<M::V>;

    open spec fn view(&self) -> ProblemSpecView<M::V> {
        ProblemSpecView { metadata: self.metadata@, verbose: self.verbose }
    }
}

impl<M> ProblemSpec<M> {
    /// The ceiling of every capacity, `u64::MAX >> 32`. It leaves 32 bits of
    /// headroom, so that a capacity times a cost, summed over many edges,
    /// still fits.
    pub const MAX_CAPACITY: u64 = 0xffff_ffff;

    /// Diagnostics are brief unless asked for.
    pub fn default_verbose() -> (verbose: bool)
        ensures
            !verbose,
    {
        false
    }
}

/// The ceiling of every capacity, as a number.
pub open spec fn max_capacity() -> int {
    0xffff_ffff
}

impl<M: Default> Default for ProblemSpec<M> {
    fn default() -> (spec: Self)
        ensures
            !spec.verbose,
            call_ensures(M::default, (), spec.metadata),
    {
        ProblemSpec { metadata: M::default(), verbose: Self::default_verbose() }
    }
}

impl<M: Clone> Clone for ProblemSpec<M> {
    fn clone(&self) -> (copy: Self)
        ensures
            copy.verbose == self.verbose,
            cloned::<M>(self.metadata, copy.metadata),
    {
        ProblemSpec { metadata: self.metadata.clone(), verbose: self.verbose }
    }
}

/// A problem refined for the solver: every role has its column.
#[derive(Debug, PartialEq, Eq)]
pub struct VirtualProblem {
    pub scope: GraphScope,
    pub spec: ProblemSpec<GraphMetadata>,
}

/// A refined problem as a mathematical value.
pub ghost struct VirtualProblemView {
    pub scope: ScopeView,
    pub spec: ProblemSpecView<GraphMetadataView>,
}

impl View for VirtualProblem {
    type V = VirtualProblemView;

    open spec fn view(&self) -> VirtualProblemView {
        VirtualProblemView { scope: self.scope@, spec: self.spec@ }
    }
}

impl Clone for VirtualProblem {
    fn clone(&self) -> (copy: Self)
        ensures
            copy@ == self@,
    {
        VirtualProblem { scope: self.scope.clone(), spec: self.spec.clone() }
    }
}

} // verus!
