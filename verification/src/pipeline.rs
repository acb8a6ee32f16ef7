//! The pipeline: a raw graph is analyzed, solved and executed, in this order
//! and never back. A stage that fails ends the pipeline at that stage, and
//! the store is as it was.

use crate::analyzer::{analyze_with, Analysis, AnalysisView, VirtualProblemAnalyzer};
use crate::error::{Error, ErrorView};
use crate::frame::lazy::{collect_frame, DataFrameView, LazyFrame, LazyFrameView};
use crate::graph::metadata::{GraphMetadataRaw, GraphMetadataRawView, GraphMetadataStandard};
use crate::graph::scope::{Graph, GraphData, GraphDataView, GraphView, ScopeView};
use crate::problem::{ProblemSpec, ProblemSpecView, VirtualProblem, VirtualProblemView};
use crate::runner::{simulate, NetworkRunner};
use crate::solver::solve::{solves, NetworkSolver};
use crate::store::{NetworkGraphDB, StoredData};
use vstd::prelude::*;

verus! {

/// The stages of the pipeline.
#[derive(Clone, Copy, Debug, PartialEq, Eq, Structural)]
pub enum Stage {
    Analyzer,
    Solver,
    Runner,
}

/// A failure of the pipeline: the stage that failed, and why.
#[derive(Debug, PartialEq, Eq)]
pub struct StageError {
    pub stage: Stage,
    pub error: Error,
}

/// A graph that was analyzed and solved and waits to be executed.
#[derive(Debug, PartialEq)]
pub struct Solved {
    /// The problem as the analyzer refined it.
    pub problem: VirtualProblem,
    /// The graph with its flow.
    pub graph: GraphData<LazyFrame>,
}

/// The pipeline: an analyzer, the solver and the simulator.
#[derive(Clone, Copy, Debug, PartialEq, Eq)]
pub struct Pipeline {
    pub analyzer: VirtualProblemAnalyzer,
    pub solver: NetworkSolver,
    pub runner: NetworkRunner,
}

/// Whether an outcome is a failure of the given stage for the given reason.
pub open spec fn failed<T>(r: Result<T, StageError>, stage: Stage, error: ErrorView) -> bool {
    r is Err && r->Err_0.stage == stage && r->Err_0.error@ == error
}

/// The two frames of a graph, materialized: the edges first, then the nodes.
pub open spec fn materialize(graph: GraphDataView<LazyFrameView>) -> Result<
    GraphDataView<DataFrameView>,
    ErrorView,
> {
    match collect_frame(graph.edges) {
        Err(e) => Err(e),
        Ok(edges) => match collect_frame(graph.nodes) {
            Err(e) => Err(e),
            Ok(nodes) => Ok(GraphDataView { edges, nodes }),
        },
    }
}

/// Whether `r` is what the pipeline makes of an outcome of the solver: a
/// failure of the solver, or the refined problem with the solved graph.
pub open spec fn solved_as(
    tables: GraphDataView<DataFrameView>,
    refined: VirtualProblemView,
    solved: Result<GraphData<LazyFrame>, Error>,
    r: Result<Solved, StageError>,
) -> bool {
    &&& solves(tables, refined.spec.metadata, solved)
    &&& match solved {
        Err(e) => failed(r, Stage::Solver, e@),
        Ok(graph) => r is Ok && r->Ok_0.problem@ == refined && r->Ok_0.graph@ == graph@,
    }
}

/// What analyzing and solving a raw graph comes to: a failure of the
/// analyzer; or a failure of the solver, which is also where the frames of
/// the analyzed graph are materialized; or the refined problem with a graph
/// that the solver has solved.
pub open spec fn planned(
    analyzer: VirtualProblemAnalyzer,
    raw: GraphView<GraphDataView<LazyFrameView>>,
    problem: ProblemSpecView<GraphMetadataRawView>,
    r: Result<Solved, StageError>,
) -> bool {
    match analyze_with(analyzer, raw, problem) {
        Err(e) => failed(r, Stage::Analyzer, e),
        Ok(analysis) => match materialize(analysis.graph.data) {
            Err(e) => failed(r, Stage::Solver, e),
            Ok(tables) => exists|solved: Result<GraphData<LazyFrame>, Error>|
                #[trigger] solved_as(tables, analysis.problem, solved, r),
        },
    }
}

/// Whether `r` and the store after it are what executing makes of a graph
/// that was analyzed and solved, or of the failure to get that far: the
/// failure is handed on, and otherwise the simulator decides.
pub open spec fn executed_as(
    solved: Result<Solved, StageError>,
    before: Map<ScopeView, StoredData>,
    after: Map<ScopeView, StoredData>,
    r: Result<VirtualProblem, StageError>,
) -> bool {
    match solved {
        Err(e) => r is Err && r->Err_0.stage == e.stage && r->Err_0.error@ == e.error@ && after
            == before,
        Ok(solved) => match simulate(solved.graph@) {
            Err(e) => failed(r, Stage::Runner, e) && after == before,
            Ok(recorded) => r is Ok && r->Ok_0@ == solved.problem@ && after == before.insert(
                solved.problem@.scope,
                recorded,
            ),
        },
    }
}

/// What the whole pipeline comes to: a failure of one stage, with the store
/// as it was; or the refined problem, with what the simulator evaluated in
/// the store under the scope of the graph.
pub open spec fn ran(
    analyzer: VirtualProblemAnalyzer,
    raw: GraphView<GraphDataView<LazyFrameView>>,
    problem: ProblemSpecView<GraphMetadataRawView>,
    before: Map<ScopeView, StoredData>,
    after: Map<ScopeView, StoredData>,
    r: Result<VirtualProblem, StageError>,
) -> bool {
    exists|solved: Result<Solved, StageError>|
        planned(analyzer, raw, problem, solved) && #[trigger] executed_as(solved, before, after, r)
}

impl Pipeline {
    /// Analyzes and solves a raw graph. The store is not touched.
    pub fn plan(
        &self,
        raw: Graph<GraphData<LazyFrame>>,
        problem: &ProblemSpec<GraphMetadataRaw>,
    ) -> (r: Result<Solved, StageError>)
        ensures
            planned(self.analyzer, raw@, problem@, r),
    {
        let analysis = match self.analyzer.analyze(raw, problem) {
            Ok(analysis) => analysis,
            Err(error) => {
                return Err(StageError { stage: Stage::Analyzer, error });
            },
        };
        let ghost analyzed = analysis@;
        let Analysis { problem: refined, graph } = analysis;
        let GraphData { edges, nodes } = graph.data;
        assert(analyze_with(self.analyzer, raw@, problem@) == Ok::<AnalysisView, ErrorView>(
            analyzed,
        ));
        assert(analyzed.graph.data.edges == edges@ && analyzed.graph.data.nodes == nodes@);
        let edges = match edges.collect() {
            Ok(edges) => edges,
            Err(error) => {
                return Err(StageError { stage: Stage::Solver, error });
            },
        };
        let nodes = match nodes.collect() {
            Ok(nodes) => nodes,
            Err(error) => {
                return Err(StageError { stage: Stage::Solver, error });
            },
        };
        let tables = GraphData { edges, nodes };
        assert(materialize(analyzed.graph.data) == Ok::<GraphDataView<DataFrameView>, ErrorView>(
            tables@,
        ));
        let solved = self.solver.solve(&tables, &refined.spec);
        let ghost outcome = solved;
        assert(refined@ == analyzed.problem);
        let r = match solved {
            Ok(graph) => Ok(Solved { problem: refined, graph }),
            Err(error) => Err(StageError { stage: Stage::Solver, error }),
        };
        proof {
            assert(solved_as(tables@, analyzed.problem, outcome, r));
            assert(analyze_with(self.analyzer, raw@, problem@)->Ok_0 == analyzed);
            assert(materialize(analyzed.graph.data)->Ok_0 == tables@);
        }
        r
    }

    /// Executes a graph that was analyzed and solved, and records it in the
    /// store under the scope of its problem.
    pub fn execute(&self, graph_db: &mut NetworkGraphDB, solved: Solved) -> (r: Result<
        VirtualProblem,
        StageError,
    >)
        ensures
            match simulate(solved.graph@) {
                Err(e) => failed(r, Stage::Runner, e) && final(graph_db)@ == old(graph_db)@,
                Ok(recorded) => r is Ok && r->Ok_0@ == solved.problem@ && final(graph_db)@ == old(
                    graph_db,
                )@.insert(solved.problem@.scope, recorded),
            },
    {
        let Solved { problem, graph } = solved;
        let standard = ProblemSpec {
            metadata: GraphMetadataStandard {  },
            verbose: problem.spec.verbose,
        };
        match self.runner.execute(graph_db, &problem.scope, graph, &standard) {
            Ok(()) => Ok(problem),
            Err(error) => Err(StageError { stage: Stage::Runner, error }),
        }
    }

    /// Takes a raw graph through the whole pipeline.
    pub fn run(
        &self,
        graph_db: &mut NetworkGraphDB,
        raw: Graph<GraphData<LazyFrame>>,
        problem: &ProblemSpec<GraphMetadataRaw>,
    ) -> (r: Result<VirtualProblem, StageError>)
        ensures
            ran(self.analyzer, raw@, problem@, old(graph_db)@, final(graph_db)@, r),
    {
        let solved = self.plan(raw, problem);
        let ghost outcome = solved;
        let r = match solved {
            Ok(solved) => self.execute(graph_db, solved),
            Err(e) => Err(e),
        };
        assert(executed_as(outcome, old(graph_db)@, graph_db@, r));
        r
    }
}

} // verus!
