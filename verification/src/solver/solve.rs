//! The solver of graphs: it reads a graph as a flow network, finds a
//! minimum-cost flow, and writes the flow back beside the edges and nodes.

use crate::error::{Error, ErrorView, FrameOperation, GraphPart, Role};
use crate::frame::lazy::{DataFrame, DataFrameView, LazyFrame, LazyFrameView};
use crate::frame::ops::{lemma_put_fits, put_column, put_columns};
use crate::frame::plan::{Plan, PlanView};
use crate::frame::table::{
    height, values_view, well_formed, Column, ColumnView, Table, TableView, Value, ValueView,
};
use crate::graph::metadata::{GraphMetadata, GraphMetadataView};
use crate::graph::scope::{GraphData, GraphDataView};
use crate::problem::ProblemSpec;
use crate::solver::flow::min_cost_flow;
use crate::solver::network::{limit, network_wf, node_limit, optimal, solvable};
use crate::solver::reading::{
    among, amount_of, amounts, cells, check_distinct, edge_columns, fault, first_missing,
    graph_arcs, is_amount, lemma_all_amounts, lemma_all_known, lemma_columns_full, network_of,
    node_columns, place, read_amounts, resolve, sum, sum_of,
};
use crate::solver::search::{ints, FlowArc, Network};
use vstd::prelude::*;

verus! {

/// The column that holds `len` values of a flow, from place `from` on.
pub open spec fn flow_column(name: Seq<char>, x: Seq<int>, from: int, len: int) -> ColumnView {
    ColumnView { name, values: Seq::new(len as nat, |r: int| ValueView::Int(x[from + r])) }
}

/// A graph with a flow written into it: every edge with what it carries,
/// and every node with what it keeps, in the column of the flow.
pub open spec fn solved(
    nodes: TableView,
    edges: TableView,
    m: GraphMetadataView,
    x: Seq<int>,
) -> GraphDataView<LazyFrameView> {
    GraphDataView {
        edges: LazyFrameView::Table(
            PlanView::Scan(
                TableView {
                    columns: put_columns(edges, flow_column(m.flow, x, 0, height(edges) as int)),
                },
            ),
        ),
        nodes: LazyFrameView::Table(
            PlanView::Scan(
                TableView {
                    columns: put_columns(
                        nodes,
                        flow_column(m.flow, x, height(edges) as int, height(nodes) as int),
                    ),
                },
            ),
        ),
    }
}

/// Why a graph that can be read has no feasible flow: its nodes supply more
/// than they can keep between them, or the edges do not lead the supply to
/// where it could be kept.
pub open spec fn shortfall(nodes: TableView, m: GraphMetadataView) -> ErrorView {
    if sum(amounts(cells(nodes, m.supply))) > sum(amounts(cells(nodes, m.capacity))) {
        ErrorView::InsufficientCapacity
    } else {
        ErrorView::Disconnected
    }
}

/// What solving a graph comes to.
pub open spec fn solves(
    graph: GraphDataView<DataFrameView>,
    m: GraphMetadataView,
    r: Result<GraphData<LazyFrame>, Error>,
) -> bool {
    match (graph.edges, graph.nodes) {
        (DataFrameView::Table(edges), DataFrameView::Table(nodes)) => match fault(nodes, edges, m) {
            Some(e) => r is Err && r->Err_0@ == e,
            None => {
                &&& network_wf(network_of(nodes, edges, m))
                &&& r is Ok == solvable(network_of(nodes, edges, m))
                &&& r is Err ==> r->Err_0@ == shortfall(nodes, m)
                &&& r is Ok ==> exists|x: Seq<int>|
                    #[trigger] optimal(network_of(nodes, edges, m), x) && r->Ok_0@ == solved(
                        nodes,
                        edges,
                        m,
                        x,
                    )
            },
        },
        _ => r is Err && r->Err_0@ == ErrorView::EmptyFrame(FrameOperation::Solve),
    }
}

/// The first of four columns that a table lacks, or the four columns.
fn four_columns<'a>(t: &'a Table, a: &str, b: &str, c: &str, d: &str) -> (r: Result<
    (&'a Column, &'a Column, &'a Column, &'a Column),
    Error,
>)
    ensures
        match first_missing(t@, seq![a@, b@, c@, d@]) {
            Some(name) => r is Err && r->Err_0@ == ErrorView::MissingColumn(name),
            None => r is Ok && r->Ok_0.0@.values == cells(t@, a@) && r->Ok_0.1@.values == cells(
                t@,
                b@,
            ) && r->Ok_0.2@.values == cells(t@, c@) && r->Ok_0.3@.values == cells(t@, d@)
                && r->Ok_0.0.values@.len() == height(t@) && r->Ok_0.1.values@.len() == height(t@)
                && r->Ok_0.2.values@.len() == height(t@) && r->Ok_0.3.values@.len() == height(
                t@,
            ),
        },
{
    let first = match t.column(a) {
        Some(c) => c,
        None => {
            return Err(Error::MissingColumn(a.to_owned()));
        },
    };
    let second = match t.column(b) {
        Some(c) => c,
        None => {
            return Err(Error::MissingColumn(b.to_owned()));
        },
    };
    let third = match t.column(c) {
        Some(c) => c,
        None => {
            return Err(Error::MissingColumn(c.to_owned()));
        },
    };
    let fourth = match t.column(d) {
        Some(c) => c,
        None => {
            return Err(Error::MissingColumn(d.to_owned()));
        },
    };
    Ok((first, second, third, fourth))
}

/// The cells that hold `len` values of a flow, from place `from` on.
fn flow_cells(x: &Vec<u64>, from: usize, len: usize) -> (cells: Vec<Value>)
    requires
        from + len <= x@.len(),
        forall|a: int| 0 <= a < x@.len() ==> #[trigger] x@[a] <= limit(),
    ensures
        values_view(cells@) == Seq::new(len as nat, |r: int| ValueView::Int(ints(x@)[from + r])),
{
    let mut cells: Vec<Value> = Vec::new();
    let total = x.len();
    let mut r: usize = 0;
    while r < len
        invariant
            r <= len,
            total == x@.len(),
            from + len <= x@.len(),
            cells@.len() == r,
            forall|a: int| 0 <= a < x@.len() ==> #[trigger] x@[a] <= limit(),
            forall|i: int|
                0 <= i < r ==> (#[trigger] cells@[i])@ == ValueView::Int(x@[from + i] as int),
        decreases len - r,
    {
        let f = x[from + r];
        assert(f <= limit());
        cells.push(Value::Int(f as i64));
        r = r + 1;
    }
    assert(values_view(cells@) =~= Seq::new(
        len as nat,
        |r: int| ValueView::Int(ints(x@)[from + r]),
    ));
    cells
}

/// The solver.
#[derive(Clone, Copy, Debug, Default, PartialEq, Eq)]
pub struct NetworkSolver {}

impl NetworkSolver {
    /// Finds a minimum-cost flow over a graph: how much every edge carries
    /// and how much every node keeps, so that every node sends on or keeps
    /// exactly what it supplies and takes in, nothing exceeds a capacity,
    /// and the cost, what is carried or kept times the unit cost of the
    /// edge or node, summed over all of them, is as small as can be. The
    /// flow is written into the column of the flow, of the edges and of the
    /// nodes. A graph that cannot be read, or that has no such flow, is
    /// reported with the reason.
    pub fn solve(&self, graph: &GraphData<DataFrame>, problem: &ProblemSpec<GraphMetadata>) -> (r:
        Result<GraphData<LazyFrame>, Error>)
        ensures
            solves(graph@, problem@.metadata, r),
    {
        let (edges, nodes) = match (&graph.edges, &graph.nodes) {
            (DataFrame::Table(edges), DataFrame::Table(nodes)) => (edges, nodes),
            _ => {
                return Err(Error::EmptyFrame(FrameOperation::Solve));
            },
        };
        let m = &problem.metadata;
        let ghost mv = m@;
        let ghost nv = nodes@;
        let ghost ev = edges@;
        assert(node_columns(mv) =~= seq![mv.name, mv.capacity, mv.supply, mv.unit_cost]);
        assert(edge_columns(mv) =~= seq![mv.src, mv.sink, mv.capacity, mv.unit_cost]);
        let (names, node_capacity, node_supply, node_cost) = match four_columns(
            nodes,
            m.name.as_str(),
            m.capacity.as_str(),
            m.supply.as_str(),
            m.unit_cost.as_str(),
        ) {
            Ok(columns) => columns,
            Err(e) => {
                return Err(e);
            },
        };
        let (sources, sinks, edge_capacity, edge_cost) = match four_columns(
            edges,
            m.src.as_str(),
            m.sink.as_str(),
            m.capacity.as_str(),
            m.unit_cost.as_str(),
        ) {
            Ok(columns) => columns,
            Err(e) => {
                return Err(e);
            },
        };
        let n = nodes.height();
        let k = edges.height();
        if n >= 0x1000_0000 || k > usize::MAX - n {
            return Err(Error::TooLarge);
        }
        let capacity = match read_amounts(node_capacity, GraphPart::Nodes, Role::Capacity) {
            Ok(amounts) => amounts,
            Err(e) => {
                return Err(e);
            },
        };
        let supply = match read_amounts(node_supply, GraphPart::Nodes, Role::Supply) {
            Ok(amounts) => amounts,
            Err(e) => {
                return Err(e);
            },
        };
        let cost = match read_amounts(node_cost, GraphPart::Nodes, Role::UnitCost) {
            Ok(amounts) => amounts,
            Err(e) => {
                return Err(e);
            },
        };
        match check_distinct(&names.values) {
            Ok(_) => {},
            Err(e) => {
                return Err(e);
            },
        }
        let arc_capacity = match read_amounts(edge_capacity, GraphPart::Edges, Role::Capacity) {
            Ok(amounts) => amounts,
            Err(e) => {
                return Err(e);
            },
        };
        let arc_cost = match read_amounts(edge_cost, GraphPart::Edges, Role::UnitCost) {
            Ok(amounts) => amounts,
            Err(e) => {
                return Err(e);
            },
        };
        let tails = match resolve(&names.values, &sources.values, Role::Src) {
            Ok(places) => places,
            Err(e) => {
                return Err(e);
            },
        };
        let heads = match resolve(&names.values, &sinks.values, Role::Sink) {
            Ok(places) => places,
            Err(e) => {
                return Err(e);
            },
        };
        assert(fault(nv, ev, mv) is None);
        proof {
            assert forall|i: int| 0 <= i < supply@.len() implies #[trigger] supply@[i]
                <= limit() by {
                assert(is_amount(cells(nv, mv.supply)[i]));
            }
            assert forall|i: int| 0 <= i < capacity@.len() implies #[trigger] capacity@[i]
                <= limit() by {
                assert(is_amount(cells(nv, mv.capacity)[i]));
            }
        }
        let short = sum_of_checked(&supply, &capacity);
        let ghost wanted = graph_arcs(nv, ev, mv);
        let mut arcs: Vec<FlowArc> = Vec::new();
        let mut e: usize = 0;
        while e < k
            invariant
                e <= k,
                k == height(ev),
                n == height(nv),
                n < node_limit(),
                k + n <= usize::MAX,
                wanted == graph_arcs(nv, ev, mv),
                arcs@.len() == e,
                tails@.len() == k,
                heads@.len() == k,
                capacity@.len() == n,
                cost@.len() == n,
                cells(nv, mv.capacity).len() == n,
                cells(nv, mv.unit_cost).len() == n,
                supply@.len() == n,
                ints(supply@) == amounts(cells(nv, mv.supply)),
                short == (sum(amounts(cells(nv, mv.supply))) > sum(
                    amounts(cells(nv, mv.capacity)),
                )),
                forall|d: int|
                    0 <= d < n ==> #[trigger] capacity@[d] == amount_of(cells(nv, mv.capacity)[d]),
                forall|d: int|
                    0 <= d < n ==> #[trigger] cost@[d] == amount_of(cells(nv, mv.unit_cost)[d]),
                arc_capacity@.len() == k,
                arc_cost@.len() == k,
                forall|d: int|
                    0 <= d < k ==> #[trigger] arc_capacity@[d] == amount_of(
                        cells(ev, mv.capacity)[d],
                    ),
                forall|d: int|
                    0 <= d < k ==> #[trigger] arc_cost@[d] == amount_of(cells(ev, mv.unit_cost)[d]),
                cells(nv, mv.name).len() == n,
                cells(ev, mv.src).len() == k,
                cells(ev, mv.sink).len() == k,
                cells(ev, mv.capacity).len() == k,
                cells(ev, mv.unit_cost).len() == k,
                forall|d: int|
                    0 <= d < k ==> (#[trigger] tails@[d]) < n && tails@[d] == place(
                        cells(nv, mv.name),
                        cells(ev, mv.src)[d],
                    ),
                forall|d: int|
                    0 <= d < k ==> (#[trigger] heads@[d]) < n && heads@[d] == place(
                        cells(nv, mv.name),
                        cells(ev, mv.sink)[d],
                    ),
                forall|a: int| 0 <= a < e ==> (#[trigger] arcs@[a])@ == wanted[a],
            decreases k - e,
        {
            arcs.push(
                FlowArc {
                    tail: tails[e],
                    head: heads[e],
                    capacity: arc_capacity[e],
                    cost: arc_cost[e],
                },
            );
            e = e + 1;
        }
        let mut v: usize = 0;
        while v < n
            invariant
                v <= n,
                k == height(ev),
                n == height(nv),
                n < node_limit(),
                k + n <= usize::MAX,
                wanted == graph_arcs(nv, ev, mv),
                arcs@.len() == k + v,
                capacity@.len() == n,
                cost@.len() == n,
                cells(nv, mv.capacity).len() == n,
                cells(nv, mv.unit_cost).len() == n,
                supply@.len() == n,
                ints(supply@) == amounts(cells(nv, mv.supply)),
                short == (sum(amounts(cells(nv, mv.supply))) > sum(
                    amounts(cells(nv, mv.capacity)),
                )),
                forall|d: int|
                    0 <= d < n ==> #[trigger] capacity@[d] == amount_of(cells(nv, mv.capacity)[d]),
                forall|d: int|
                    0 <= d < n ==> #[trigger] cost@[d] == amount_of(cells(nv, mv.unit_cost)[d]),
                forall|a: int| 0 <= a < k + v ==> (#[trigger] arcs@[a])@ == wanted[a],
            decreases n - v,
        {
            arcs.push(FlowArc { tail: v, head: n, capacity: capacity[v], cost: cost[v] });
            v = v + 1;
        }
        let net = Network { nodes: n + 1, arcs, supply };
        proof {
            assert(net@.arcs =~= wanted);
            assert(net@ == network_of(nv, ev, mv));
            lemma_read_network(nv, ev, mv);
        }
        let x = match min_cost_flow(&net) {
            Some(x) => x,
            None => {
                return Err(
                    if short {
                        Error::InsufficientCapacity
                    } else {
                        Error::Disconnected
                    },
                );
            },
        };
        proof {
            assert forall|a: int| 0 <= a < x@.len() implies #[trigger] x@[a] <= limit() by {
                assert(0 <= ints(x@)[a] <= net@.arcs[a].capacity);
            }
            lemma_put_fits(ev, flow_column(mv.flow, ints(x@), 0, k as int));
            lemma_put_fits(nv, flow_column(mv.flow, ints(x@), k as int, n as int));
        }
        let carried = Column { name: m.flow.clone(), values: flow_cells(&x, 0, k) };
        let kept = Column { name: m.flow.clone(), values: flow_cells(&x, k, n) };
        assert(carried@ == flow_column(mv.flow, ints(x@), 0, k as int));
        assert(kept@ == flow_column(mv.flow, ints(x@), k as int, n as int));
        let edges_out = match put_column(edges, carried) {
            Ok(t) => t,
            Err(e) => {
                return Err(e);
            },
        };
        let nodes_out = match put_column(nodes, kept) {
            Ok(t) => t,
            Err(e) => {
                return Err(e);
            },
        };
        let out = GraphData {
            edges: LazyFrame::Table(Plan::Scan(edges_out)),
            nodes: LazyFrame::Table(Plan::Scan(nodes_out)),
        };
        proof {
            assert(out@ == solved(nv, ev, mv, ints(x@)));
            assert(optimal(network_of(nv, ev, mv), ints(x@)));
        }
        Ok(out)
    }
}

/// Whether the nodes supply more than they can keep between them.
fn sum_of_checked(supply: &Vec<u64>, capacity: &Vec<u64>) -> (short: bool)
    requires
        supply@.len() <= node_limit(),
        capacity@.len() <= node_limit(),
        forall|i: int| 0 <= i < supply@.len() ==> #[trigger] supply@[i] <= limit(),
        forall|i: int| 0 <= i < capacity@.len() ==> #[trigger] capacity@[i] <= limit(),
    ensures
        short == (sum(ints(supply@)) > sum(ints(capacity@))),
{
    sum_of(supply) > sum_of(capacity)
}

/// A graph without a fault describes a well-formed network.
pub proof fn lemma_read_network(nodes: TableView, edges: TableView, m: GraphMetadataView)
    requires
        well_formed(nodes),
        well_formed(edges),
        fault(nodes, edges, m) is None,
    ensures
        network_wf(network_of(nodes, edges, m)),
{
    let net = network_of(nodes, edges, m);
    let n = height(nodes) as int;
    let k = height(edges) as int;
    lemma_columns_full(nodes, node_columns(m));
    lemma_columns_full(edges, edge_columns(m));
    assert(node_columns(m)[0] == m.name && node_columns(m)[1] == m.capacity && node_columns(m)[2]
        == m.supply && node_columns(m)[3] == m.unit_cost);
    assert(edge_columns(m)[0] == m.src && edge_columns(m)[1] == m.sink && edge_columns(m)[2]
        == m.capacity && edge_columns(m)[3] == m.unit_cost);
    lemma_all_amounts(cells(nodes, m.capacity), 0);
    lemma_all_amounts(cells(nodes, m.supply), 0);
    lemma_all_amounts(cells(nodes, m.unit_cost), 0);
    lemma_all_amounts(cells(edges, m.capacity), 0);
    lemma_all_amounts(cells(edges, m.unit_cost), 0);
    lemma_all_known(cells(nodes, m.name), cells(edges, m.src), 0);
    lemma_all_known(cells(nodes, m.name), cells(edges, m.sink), 0);
    assert forall|v: int| 0 <= v < net.supply.len() implies 0 <= #[trigger] net.supply[v]
        <= limit() by {
        assert(is_amount(cells(nodes, m.supply)[v]));
    }
    assert forall|a: int| 0 <= a < net.arcs.len() implies {
        &&& 0 <= (#[trigger] net.arcs[a]).tail < net.nodes
        &&& 0 <= net.arcs[a].head < net.nodes
        &&& 0 <= net.arcs[a].capacity <= limit()
        &&& 0 <= net.arcs[a].cost <= limit()
    } by {
        if a < k {
            assert(is_amount(cells(edges, m.capacity)[a]));
            assert(is_amount(cells(edges, m.unit_cost)[a]));
            assert(among(
                cells(nodes, m.name),
                cells(edges, m.src)[a],
                n,
            ));
            assert(among(
                cells(nodes, m.name),
                cells(edges, m.sink)[a],
                n,
            ));
        } else {
            assert(is_amount(cells(nodes, m.capacity)[a - k]));
            assert(is_amount(cells(nodes, m.unit_cost)[a - k]));
        }
    }
}

} // verus!
