//! Analyzers: they refine a raw graph and a declared problem into a problem
//! that the solver can take.

use crate::error::{agrees, Error, ErrorView, FrameOperation, Role};
use crate::frame::lazy::{fabric_plan, fill_plan, LazyFrame, LazyFrameView};
use crate::frame::plan::PlanView;
use crate::frame::slice::Number;
use crate::frame::table::ValueView;
use crate::graph::metadata::{
    declared, standard_name, standard_name_of, GraphMetadata, GraphMetadataRaw,
    GraphMetadataRawView, GraphMetadataView,
};
use crate::graph::scope::{Graph, GraphData, GraphDataView, GraphView};
use crate::problem::{ProblemSpec, ProblemSpecView, VirtualProblem, VirtualProblemView};
use vstd::prelude::*;

verus! {

/// Whether a role has to be declared. The keys of the graph have no default:
/// what names a node, and what names the two ends of an edge.
pub open spec fn is_required(role: Role) -> bool {
    role == Role::Name || role == Role::Sink || role == Role::Src
}

/// The column of a role under a declared mapping: the declared one, or the
/// standard name where the role has a default.
pub open spec fn resolve(m: GraphMetadataRawView, role: Role) -> Result<Seq<char>, ErrorView> {
    match declared(m, role) {
        Some(name) => Ok(name),
        None => if is_required(role) {
            Err(ErrorView::MissingRole(role))
        } else {
            Ok(standard_name(role))
        },
    }
}

/// The mapping of every role under a declared mapping. Of several required
/// roles that are missing, the name is reported before the sink, and the
/// sink before the source.
pub open spec fn pin(m: GraphMetadataRawView) -> Result<GraphMetadataView, ErrorView> {
    if resolve(m, Role::Name) is Err {
        Err(ErrorView::MissingRole(Role::Name))
    } else if resolve(m, Role::Sink) is Err {
        Err(ErrorView::MissingRole(Role::Sink))
    } else if resolve(m, Role::Src) is Err {
        Err(ErrorView::MissingRole(Role::Src))
    } else {
        Ok(
            GraphMetadataView {
                capacity: resolve(m, Role::Capacity)->Ok_0,
                flow: resolve(m, Role::Flow)->Ok_0,
                function: resolve(m, Role::Function)->Ok_0,
                name: resolve(m, Role::Name)->Ok_0,
                sink: resolve(m, Role::Sink)->Ok_0,
                src: resolve(m, Role::Src)->Ok_0,
                supply: resolve(m, Role::Supply)->Ok_0,
                unit_cost: resolve(m, Role::UnitCost)->Ok_0,
            },
        )
    }
}

/// The declared mapping that says of every role what a full mapping says.
pub open spec fn declare_all(m: GraphMetadataView) -> GraphMetadataRawView {
    GraphMetadataRawView {
        capacity: Some(m.capacity),
        flow: Some(m.flow),
        function: Some(m.function),
        name: Some(m.name),
        sink: Some(m.sink),
        src: Some(m.src),
        supply: Some(m.supply),
        unit_cost: Some(m.unit_cost),
    }
}

/// The outcome of an analysis as a mathematical value: the refined problem,
/// and the graph that goes with it.
pub ghost struct AnalysisView {
    pub problem: VirtualProblemView,
    pub graph: GraphView<GraphDataView<LazyFrameView>>,
}

/// The outcome of an analysis.
#[derive(Debug)]
pub struct Analysis {
    pub problem: VirtualProblem,
    pub graph: Graph<GraphData<LazyFrame>>,
}

impl View for Analysis {
    type V = AnalysisView;

    open spec fn view(&self) -> AnalysisView {
        AnalysisView { problem: self.problem@, graph: self.graph@ }
    }
}

/// The analysis that changes nothing: the problem gets its full mapping, and
/// the graph is handed on as it came.
pub open spec fn analyze_unchanged(
    graph: GraphView<GraphDataView<LazyFrameView>>,
    spec: ProblemSpecView<GraphMetadataRawView>,
) -> Result<AnalysisView, ErrorView> {
    match pin(spec.metadata) {
        Err(e) => Err(e),
        Ok(metadata) => Ok(
            AnalysisView {
                problem: VirtualProblemView {
                    scope: graph.scope,
                    spec: ProblemSpecView { metadata, verbose: spec.verbose },
                },
                graph,
            },
        ),
    }
}

/// The plan of the candidate edges over a node plan: every pair of nodes,
/// at the greatest capacity and at no cost.
pub open spec fn candidate_plan(nodes: PlanView, m: GraphMetadataView) -> PlanView {
    fill_plan(fabric_plan(nodes, m), m.unit_cost, ValueView::Int(0))
}

/// The edges of a graph after the analysis that derives them: the edges that
/// are there, or, where there are none, the candidate edges over the nodes.
pub open spec fn derived_edges(data: GraphDataView<LazyFrameView>, m: GraphMetadataView) -> Result<
    LazyFrameView,
    ErrorView,
> {
    match data.edges {
        LazyFrameView::Table(_) => Ok(data.edges),
        LazyFrameView::Empty => match data.nodes {
            LazyFrameView::Empty => Err(ErrorView::EmptyFrame(FrameOperation::Fabric)),
            LazyFrameView::Table(nodes) => Ok(LazyFrameView::Table(candidate_plan(nodes, m))),
        },
    }
}

/// The analysis that derives candidate edges: the problem gets its full
/// mapping, and a graph without edges gets the fully connected ones, which
/// cost nothing to use.
pub open spec fn analyze_fabric(
    graph: GraphView<GraphDataView<LazyFrameView>>,
    spec: ProblemSpecView<GraphMetadataRawView>,
) -> Result<AnalysisView, ErrorView> {
    match pin(spec.metadata) {
        Err(e) => Err(e),
        Ok(metadata) => match derived_edges(graph.data, metadata) {
            Err(e) => Err(e),
            Ok(edges) => Ok(
                AnalysisView {
                    problem: VirtualProblemView {
                        scope: graph.scope,
                        spec: ProblemSpecView { metadata, verbose: spec.verbose },
                    },
                    graph: GraphView {
                        scope: graph.scope,
                        data: GraphDataView { edges, nodes: graph.data.nodes },
                    },
                },
            ),
        },
    }
}

/// The column of a role: the declared one, or the standard name where the
/// role has a default.
fn resolve_role(m: &GraphMetadataRaw, role: Role) -> (r: Result<String, Error>)
    ensures
        r is Ok == resolve(m@, role) is Ok,
        r is Ok ==> r->Ok_0@ == resolve(m@, role)->Ok_0,
        r is Err ==> r->Err_0@ == resolve(m@, role)->Err_0,
{
    match m.declared(role) {
        Some(name) => Ok(name.clone()),
        None => match role {
            Role::Name | Role::Sink | Role::Src => Err(Error::MissingRole(role)),
            _ => Ok(standard_name_of(role).to_owned()),
        },
    }
}

/// Gives every role its column, or says which required role has none.
pub fn pin_metadata(m: &GraphMetadataRaw) -> (r: Result<GraphMetadata, Error>)
    ensures
        agrees(r, pin(m@)),
{
    let name = match resolve_role(m, Role::Name) {
        Ok(name) => name,
        Err(e) => {
            return Err(e);
        },
    };
    let sink = match resolve_role(m, Role::Sink) {
        Ok(name) => name,
        Err(e) => {
            return Err(e);
        },
    };
    let src = match resolve_role(m, Role::Src) {
        Ok(name) => name,
        Err(e) => {
            return Err(e);
        },
    };
    let capacity = match resolve_role(m, Role::Capacity) {
        Ok(name) => name,
        Err(e) => {
            return Err(e);
        },
    };
    let flow = match resolve_role(m, Role::Flow) {
        Ok(name) => name,
        Err(e) => {
            return Err(e);
        },
    };
    let function = match resolve_role(m, Role::Function) {
        Ok(name) => name,
        Err(e) => {
            return Err(e);
        },
    };
    let supply = match resolve_role(m, Role::Supply) {
        Ok(name) => name,
        Err(e) => {
            return Err(e);
        },
    };
    let unit_cost = match resolve_role(m, Role::UnitCost) {
        Ok(name) => name,
        Err(e) => {
            return Err(e);
        },
    };
    Ok(GraphMetadata { capacity, flow, function, name, sink, src, supply, unit_cost })
}

/// The analyzer that changes nothing.
#[derive(Clone, Copy, Debug, Default, PartialEq, Eq)]
pub struct VirtualProblemAnalyzerEmpty {}

impl VirtualProblemAnalyzerEmpty {
    /// Refines a declared problem, and hands the graph on as it came.
    pub fn analyze(
        &self,
        graph: Graph<GraphData<LazyFrame>>,
        spec: &ProblemSpec<GraphMetadataRaw>,
    ) -> (r: Result<Analysis, Error>)
        ensures
            agrees(r, analyze_unchanged(graph@, spec@)),
    {
        let metadata = match pin_metadata(&spec.metadata) {
            Ok(metadata) => metadata,
            Err(e) => {
                return Err(e);
            },
        };
        let problem = VirtualProblem {
            scope: graph.scope.clone(),
            spec: ProblemSpec { metadata, verbose: spec.verbose },
        };
        Ok(Analysis { problem, graph })
    }
}

/// The analyzer that derives candidate edges where a graph has none.
#[derive(Clone, Copy, Debug, Default, PartialEq, Eq)]
pub struct VirtualProblemAnalyzerFabric {}

impl VirtualProblemAnalyzerFabric {
    /// Refines a declared problem, and gives a graph without edges the fully
    /// connected ones over its nodes, at no cost.
    pub fn analyze(
        &self,
        graph: Graph<GraphData<LazyFrame>>,
        spec: &ProblemSpec<GraphMetadataRaw>,
    ) -> (r: Result<Analysis, Error>)
        ensures
            agrees(r, analyze_fabric(graph@, spec@)),
    {
        let metadata = match pin_metadata(&spec.metadata) {
            Ok(metadata) => metadata,
            Err(e) => {
                return Err(e);
            },
        };
        let pinned = ProblemSpec { metadata, verbose: spec.verbose };
        let Graph { scope, data } = graph;
        let GraphData { edges, nodes } = data;
        let edges = match edges {
            LazyFrame::Table(p) => LazyFrame::Table(p),
            LazyFrame::Empty => {
                let mut edges = match nodes.fabric(&pinned) {
                    Ok(edges) => edges,
                    Err(e) => {
                        return Err(e);
                    },
                };
                let unit_cost = pinned.metadata.unit_cost.as_str();
                match edges.fill_column_with_value(unit_cost, Number::new(0)) {
                    Ok(()) => {},
                    Err(e) => {
                        return Err(e);
                    },
                }
                edges
            },
        };
        let problem = VirtualProblem { scope: scope.clone(), spec: pinned };
        Ok(Analysis { problem, graph: Graph { scope, data: GraphData { edges, nodes } } })
    }
}

/// The analyzers there are.
#[derive(Clone, Copy, Debug, PartialEq, Eq)]
pub enum VirtualProblemAnalyzer {
    Empty(VirtualProblemAnalyzerEmpty),
    Fabric(VirtualProblemAnalyzerFabric),
}

/// What an analyzer makes of a graph and a declared problem.
pub open spec fn analyze_with(
    analyzer: VirtualProblemAnalyzer,
    graph: GraphView<GraphDataView<LazyFrameView>>,
    spec: ProblemSpecView<GraphMetadataRawView>,
) -> Result<AnalysisView, ErrorView> {
    match analyzer {
        VirtualProblemAnalyzer::Empty(_) => analyze_unchanged(graph, spec),
        VirtualProblemAnalyzer::Fabric(_) => analyze_fabric(graph, spec),
    }
}

impl Default for VirtualProblemAnalyzer {
    fn default() -> (analyzer: Self)
        ensures
            analyzer is Empty,
    {
        VirtualProblemAnalyzer::Empty(VirtualProblemAnalyzerEmpty {  })
    }
}

impl VirtualProblemAnalyzer {
    /// Refines a graph and a declared problem.
    pub fn analyze(
        &self,
        graph: Graph<GraphData<LazyFrame>>,
        spec: &ProblemSpec<GraphMetadataRaw>,
    ) -> (r: Result<Analysis, Error>)
        ensures
            agrees(r, analyze_with(*self, graph@, spec@)),
    {
        match self {
            VirtualProblemAnalyzer::Empty(a) => a.analyze(graph, spec),
            VirtualProblemAnalyzer::Fabric(a) => a.analyze(graph, spec),
        }
    }
}

/// Two analyses of one graph under one problem come out the same.
pub proof fn lemma_analysis_repeatable(
    analyzer: VirtualProblemAnalyzer,
    graph: GraphView<GraphDataView<LazyFrameView>>,
    spec: ProblemSpecView<GraphMetadataRawView>,
    first: Result<Analysis, Error>,
    second: Result<Analysis, Error>,
)
    requires
        agrees(first, analyze_with(analyzer, graph, spec)),
        agrees(second, analyze_with(analyzer, graph, spec)),
    ensures
        first is Ok == second is Ok,
        first is Ok ==> first->Ok_0@ == second->Ok_0@,
        first is Err ==> first->Err_0@ == second->Err_0@,
{
}

/// A full mapping, declared again role by role, is refined to itself.
pub proof fn lemma_pin_fixed_point(m: GraphMetadataView)
    ensures
        pin(declare_all(m)) == Ok::<GraphMetadataView, ErrorView>(m),
{
}

/// Analysis is idempotent: a problem that was refined, declared again and
/// analyzed once more, with the graph that the first analysis gave, comes out
/// as it went in.
pub proof fn lemma_analysis_idempotent(
    analyzer: VirtualProblemAnalyzer,
    graph: GraphView<GraphDataView<LazyFrameView>>,
    spec: ProblemSpecView<GraphMetadataRawView>,
)
    requires
        analyze_with(analyzer, graph, spec) is Ok,
    ensures
        ({
            let once = analyze_with(analyzer, graph, spec)->Ok_0;
            let again = ProblemSpecView {
                metadata: declare_all(once.problem.spec.metadata),
                verbose: once.problem.spec.verbose,
            };
            analyze_with(analyzer, once.graph, again) == Ok::<AnalysisView, ErrorView>(once)
        }),
{
    let once = analyze_with(analyzer, graph, spec)->Ok_0;
    lemma_pin_fixed_point(once.problem.spec.metadata);
}

} // verus!
