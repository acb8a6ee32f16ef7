//! The simulator: a runner that evaluates a solved graph and records the
//! outcome in the graph store, and touches nothing else.

use crate::error::{Error, ErrorView, GraphPart};
use crate::frame::lazy::{collect_frame, LazyFrame, LazyFrameView};
use crate::frame::plan::{Plan, PlanView};
use crate::graph::metadata::GraphMetadataStandard;
use crate::graph::scope::{Graph, GraphData, GraphDataView, GraphScope};
use crate::problem::ProblemSpec;
use crate::store::{NetworkGraphDB, StoredData};
use vstd::prelude::*;

verus! {

/// What a run comes to, before anything is recorded: the failure that stops
/// it, or the two tables that it evaluated. An empty frame stops it at once,
/// the edges before the nodes; then the edges are evaluated, then the nodes.
pub open spec fn simulate(graph: GraphDataView<LazyFrameView>) -> Result<StoredData, ErrorView> {
    if graph.edges is Empty {
        Err(ErrorView::EmptyGraph(GraphPart::Edges))
    } else if graph.nodes is Empty {
        Err(ErrorView::EmptyGraph(GraphPart::Nodes))
    } else {
        match collect_frame(graph.edges) {
            Err(e) => Err(e),
            Ok(edges) => match collect_frame(graph.nodes) {
                Err(e) => Err(e),
                Ok(nodes) => Ok(
                    GraphDataView {
                        edges: LazyFrameView::Table(PlanView::Scan(edges->Table_0)),
                        nodes: LazyFrameView::Table(PlanView::Scan(nodes->Table_0)),
                    },
                ),
            },
        }
    }
}

/// The simulator.
#[derive(Clone, Copy, Debug, Default, PartialEq, Eq)]
pub struct NetworkRunner {}

impl NetworkRunner {
    /// Runs a graph as a simulation and records its tables under `scope`. A
    /// run that fails leaves the store as it was.
    pub fn execute(
        &self,
        graph_db: &mut NetworkGraphDB,
        scope: &GraphScope,
        graph: GraphData<LazyFrame>,
        problem: &ProblemSpec<GraphMetadataStandard>,
    ) -> (r: Result<(), Error>)
        ensures
            r is Ok == simulate(graph@) is Ok,
            r is Err ==> r->Err_0@ == simulate(graph@)->Err_0 && final(graph_db)@ == old(
                graph_db,
            )@,
            r is Ok ==> final(graph_db)@ == old(graph_db)@.insert(scope@, simulate(graph@)->Ok_0),
    {
        let GraphData { edges, nodes } = graph;
        let edges = match edges {
            LazyFrame::Empty => {
                return Err(Error::EmptyGraph(GraphPart::Edges));
            },
            LazyFrame::Table(p) => p,
        };
        let nodes = match nodes {
            LazyFrame::Empty => {
                return Err(Error::EmptyGraph(GraphPart::Nodes));
            },
            LazyFrame::Table(p) => p,
        };
        let edges = match edges.run() {
            Err(e) => {
                return Err(e);
            },
            Ok(t) => t,
        };
        let nodes = match nodes.run() {
            Err(e) => {
                return Err(e);
            },
            Ok(t) => t,
        };
        graph_db.insert(
            Graph {
                scope: scope.clone(),
                data: GraphData {
                    edges: LazyFrame::Table(Plan::Scan(edges)),
                    nodes: LazyFrame::Table(Plan::Scan(nodes)),
                },
            },
        );
        Ok(())
    }
}

} // verus!
