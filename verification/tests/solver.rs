use kubegraph::error::{Error, ErrorKind, FrameOperation, GraphPart, Role};
use kubegraph::frame::table::{Column, Table, Value};
use kubegraph::frame::{DataFrame, IntoLazySlice, LazyFrame, Number};
use kubegraph::graph::{GraphData, GraphMetadata};
use kubegraph::problem::ProblemSpec;
use kubegraph::solver::flow::min_cost_flow;
use kubegraph::solver::search::{FlowArc, Network};
use kubegraph::solver::NetworkSolver;

fn ints(name: &str, values: &[i64]) -> Column {
    Column {
        name: name.to_string(),
        values: values.iter().map(|v| Value::Int(*v)).collect(),
    }
}

fn texts(name: &str, values: &[&str]) -> Column {
    Column {
        name: name.to_string(),
        values: values.iter().map(|v| Value::Text(v.to_string())).collect(),
    }
}

fn table(columns: Vec<Column>) -> Table {
    let mut t = Table::new();
    for c in columns {
        t = t.with_column(c).unwrap();
    }
    t
}

fn graph(edges: Vec<Column>, nodes: Vec<Column>) -> GraphData<DataFrame> {
    GraphData {
        edges: DataFrame::Table(table(edges)),
        nodes: DataFrame::Table(table(nodes)),
    }
}

fn problem() -> ProblemSpec<GraphMetadata> {
    ProblemSpec {
        metadata: GraphMetadata::standard(),
        verbose: true,
    }
}

fn collect(frame: LazyFrame) -> Table {
    match frame.collect().unwrap() {
        DataFrame::Table(t) => t,
        DataFrame::Empty => panic!("an empty frame"),
    }
}

fn flows(t: &Table) -> Vec<i64> {
    t.column("flow")
        .unwrap()
        .values
        .iter()
        .map(|v| match v {
            Value::Int(i) => *i,
            other => panic!("not a flow: {other:?}"),
        })
        .collect()
}

fn try_table(columns: Vec<Column>) -> Result<DataFrame, Error> {
    let mut t = Table::new();
    for c in columns {
        t = t.with_column(c)?;
    }
    Ok(DataFrame::Table(t))
}

#[test]
fn solver_simple() {
    // Step 1. Define edges
    let edges = try_table(vec![
        ints("src", &[0]),
        ints("sink", &[1]),
        ints("capacity", &[20]),
        ints("unit_cost", &[1]),
    ])
    .expect("failed to create edges dataframe");

    // Step 2. Define nodes
    let nodes = try_table(vec![
        ints("name", &[0, 1]),
        ints("capacity", &[20, 10]),
        ints("supply", &[20, 0]),
        ints("unit_cost", &[5, 0]),
    ])
    .expect("failed to create nodes dataframe");

    // Step 3. Define a graph
    let graph = GraphData { edges, nodes };

    // Step 4. Define a problem
    let problem = ProblemSpec {
        verbose: true,
        ..problem()
    };

    // Step 5. Define a solver
    let solver = NetworkSolver::default();

    // Step 6. Optimize the graph
    let optimized_graph = solver
        .solve(&graph, &problem)
        .expect("failed to optimize the graph");
    let GraphData {
        edges: mut optimized_edges,
        nodes: optimized_nodes,
    } = optimized_graph;
    optimized_nodes
        .clone()
        .collect()
        .expect("failed to collect graph");

    let edges_flow = optimized_edges
        .get_column("flow")
        .expect("failed to get edges cost");
    let edges_unit_cost = optimized_edges.get_column("unit_cost").unwrap();

    let edges_cost = edges_flow.mul(edges_unit_cost);
    optimized_edges
        .insert_column("cost", edges_cost)
        .expect("failed to insert edge cost column");

    println!();
    println!("{:?}", &optimized_nodes);
    println!("{:?}", &optimized_edges);

    let optimized_edges = optimized_edges.clone();
    let get_arc_cost = |src: i64, sink: i64| -> u64 {
        let mut found = optimized_edges.clone();
        let src = Number::new(src).try_into_lazy_slice(&found).unwrap();
        let sink = Number::new(sink).try_into_lazy_slice(&found).unwrap();
        let wanted = found
            .get_column("src")
            .unwrap()
            .eq(src)
            .and(found.get_column("sink").unwrap().eq(sink));
        found.apply_filter(wanted).unwrap();
        let found = match found.collect().expect("failed to search an edge") {
            DataFrame::Table(found) => found,
            DataFrame::Empty => panic!("failed to search an edge"),
        };
        match found
            .column("cost")
            .unwrap()
            .values
            .first()
            .expect("no such edge")
        {
            Value::Int(cost) => *cost as u64,
            other => panic!("failed to extract edge cost value: {other:?}"),
        }
    };

    assert_eq!(get_arc_cost(0, 1), 10);
}

#[test]
fn the_simple_graph_keeps_what_it_cannot_send() {
    let g = graph(
        vec![
            ints("src", &[0]),
            ints("sink", &[1]),
            ints("capacity", &[20]),
            ints("unit_cost", &[1]),
        ],
        vec![
            ints("name", &[0, 1]),
            ints("capacity", &[20, 10]),
            ints("supply", &[20, 0]),
            ints("unit_cost", &[5, 0]),
        ],
    );
    let solved = NetworkSolver {}.solve(&g, &problem()).unwrap();
    let edges = collect(solved.edges);
    let nodes = collect(solved.nodes);
    assert_eq!(flows(&edges), vec![10]);
    assert_eq!(flows(&nodes), vec![10, 10]);
    assert_eq!(edges.width(), 5);
    assert_eq!(nodes.width(), 5);
    assert_eq!(edges.column("src").unwrap().values, vec![Value::Int(0)]);
}

#[test]
fn more_supply_than_capacity_is_infeasible() {
    let g = graph(
        vec![
            ints("src", &[0]),
            ints("sink", &[1]),
            ints("capacity", &[1000]),
            ints("unit_cost", &[1]),
        ],
        vec![
            ints("name", &[0, 1]),
            ints("capacity", &[0, 10]),
            ints("supply", &[100, 0]),
            ints("unit_cost", &[0, 0]),
        ],
    );
    let err = NetworkSolver {}.solve(&g, &problem()).unwrap_err();
    assert_eq!(err, Error::InsufficientCapacity);
    assert_eq!(err.kind(), ErrorKind::InfeasibleProblem);
}

#[test]
fn supply_that_cannot_reach_capacity_is_infeasible() {
    let g = graph(
        vec![
            texts("src", &["b"]),
            texts("sink", &["a"]),
            ints("capacity", &[1000]),
            ints("unit_cost", &[1]),
        ],
        vec![
            texts("name", &["a", "b"]),
            ints("capacity", &[3, 10]),
            ints("supply", &[5, 0]),
            ints("unit_cost", &[0, 0]),
        ],
    );
    let err = NetworkSolver {}.solve(&g, &problem()).unwrap_err();
    assert_eq!(err, Error::Disconnected);
    assert_eq!(err.kind(), ErrorKind::InfeasibleProblem);
    let narrow = graph(
        vec![
            texts("src", &["a"]),
            texts("sink", &["b"]),
            ints("capacity", &[1]),
            ints("unit_cost", &[1]),
        ],
        vec![
            texts("name", &["a", "b"]),
            ints("capacity", &[3, 10]),
            ints("supply", &[5, 0]),
            ints("unit_cost", &[0, 0]),
        ],
    );
    assert_eq!(
        NetworkSolver {}.solve(&narrow, &problem()).unwrap_err(),
        Error::Disconnected
    );
}

#[test]
fn the_cheaper_way_is_taken_first() {
    let g = graph(
        vec![
            texts("src", &["a", "a", "b", "c"]),
            texts("sink", &["b", "c", "d", "d"]),
            ints("capacity", &[10, 10, 4, 10]),
            ints("unit_cost", &[1, 2, 1, 3]),
        ],
        vec![
            texts("name", &["a", "b", "c", "d"]),
            ints("capacity", &[0, 0, 0, 7]),
            ints("supply", &[7, 0, 0, 0]),
            ints("unit_cost", &[0, 0, 0, 0]),
        ],
    );
    let solved = NetworkSolver {}.solve(&g, &problem()).unwrap();
    assert_eq!(flows(&collect(solved.edges)), vec![4, 3, 4, 3]);
    assert_eq!(flows(&collect(solved.nodes)), vec![0, 0, 0, 7]);
}

#[test]
fn a_flow_is_taken_back_where_that_is_cheaper() {
    // Sending a -> b -> t first is cheapest for one unit, and has to be
    // undone in part for the second.
    let g = graph(
        vec![
            texts("src", &["s", "s", "a", "a", "b"]),
            texts("sink", &["a", "b", "b", "t", "t"]),
            ints("capacity", &[1, 1, 1, 1, 1]),
            ints("unit_cost", &[1, 5, 1, 5, 1]),
        ],
        vec![
            texts("name", &["s", "a", "b", "t"]),
            ints("capacity", &[0, 0, 0, 2]),
            ints("supply", &[2, 0, 0, 0]),
            ints("unit_cost", &[0, 0, 0, 0]),
        ],
    );
    let solved = NetworkSolver {}.solve(&g, &problem()).unwrap();
    assert_eq!(flows(&collect(solved.edges)), vec![1, 1, 0, 1, 1]);
}

#[test]
fn a_graph_that_cannot_be_read_is_refused() {
    let edges = || {
        vec![
            ints("src", &[0, 1]),
            ints("sink", &[1, 0]),
            ints("capacity", &[20, 5]),
            ints("unit_cost", &[1, 1]),
        ]
    };
    let nodes = || {
        vec![
            ints("name", &[0, 1]),
            ints("capacity", &[20, 10]),
            ints("supply", &[20, 0]),
            ints("unit_cost", &[5, 0]),
        ]
    };
    let solve = |e: Vec<Column>, n: Vec<Column>| NetworkSolver {}.solve(&graph(e, n), &problem());
    let replaced = |mut cs: Vec<Column>, c: Column| {
        let at = cs.iter().position(|x| x.name == c.name).unwrap();
        cs[at] = c;
        cs
    };
    let without = |mut cs: Vec<Column>, name: &str| {
        cs.retain(|c| c.name != name);
        cs
    };
    assert!(solve(edges(), nodes()).is_ok());
    assert_eq!(
        solve(edges(), without(nodes(), "supply")).unwrap_err(),
        Error::MissingColumn("supply".to_string())
    );
    assert_eq!(
        solve(without(edges(), "sink"), without(nodes(), "unit_cost")).unwrap_err(),
        Error::MissingColumn("unit_cost".to_string())
    );
    assert_eq!(
        solve(without(edges(), "sink"), nodes()).unwrap_err(),
        Error::MissingColumn("sink".to_string())
    );
    let err = solve(edges(), replaced(nodes(), ints("capacity", &[20, -1]))).unwrap_err();
    assert_eq!(err, Error::InvalidValue(GraphPart::Nodes, Role::Capacity, 1));
    assert_eq!(err.kind(), ErrorKind::InvalidGraph);
    assert_eq!(
        solve(edges(), replaced(nodes(), ints("supply", &[4294967296, 0]))).unwrap_err(),
        Error::InvalidValue(GraphPart::Nodes, Role::Supply, 0)
    );
    assert_eq!(
        solve(edges(), replaced(nodes(), texts("unit_cost", &["5", "0"]))).unwrap_err(),
        Error::InvalidValue(GraphPart::Nodes, Role::UnitCost, 0)
    );
    assert_eq!(
        solve(edges(), replaced(nodes(), ints("name", &[1, 1]))).unwrap_err(),
        Error::DuplicateNode(1)
    );
    assert_eq!(
        solve(replaced(edges(), ints("capacity", &[20, -5])), nodes()).unwrap_err(),
        Error::InvalidValue(GraphPart::Edges, Role::Capacity, 1)
    );
    assert_eq!(
        solve(replaced(edges(), ints("unit_cost", &[-1, 1])), nodes()).unwrap_err(),
        Error::InvalidValue(GraphPart::Edges, Role::UnitCost, 0)
    );
    assert_eq!(
        solve(replaced(edges(), ints("src", &[0, 2])), nodes()).unwrap_err(),
        Error::UnknownNode(Role::Src, 1)
    );
    assert_eq!(
        solve(replaced(edges(), texts("sink", &["1", "0"])), nodes()).unwrap_err(),
        Error::UnknownNode(Role::Sink, 0)
    );
    assert!(solve(
        replaced(edges(), ints("capacity", &[4294967295, 5])),
        nodes()
    )
    .is_ok());
}

#[test]
fn an_empty_frame_cannot_be_solved() {
    let g = graph(vec![ints("src", &[])], vec![ints("name", &[])]);
    let no_edges = GraphData {
        edges: DataFrame::Empty,
        nodes: g.nodes.clone(),
    };
    let no_nodes = GraphData {
        edges: g.edges.clone(),
        nodes: DataFrame::Empty,
    };
    for g in [no_edges, no_nodes] {
        let err = NetworkSolver {}.solve(&g, &problem()).unwrap_err();
        assert_eq!(err, Error::EmptyFrame(FrameOperation::Solve));
        assert_eq!(err.kind(), ErrorKind::Schema);
    }
}

#[test]
fn a_graph_without_rows_is_solved_by_nothing() {
    let g = graph(
        vec![
            ints("src", &[]),
            ints("sink", &[]),
            ints("capacity", &[]),
            ints("unit_cost", &[]),
        ],
        vec![
            ints("name", &[]),
            ints("capacity", &[]),
            ints("supply", &[]),
            ints("unit_cost", &[]),
        ],
    );
    let solved = NetworkSolver {}.solve(&g, &problem()).unwrap();
    assert_eq!(flows(&collect(solved.edges)), Vec::<i64>::new());
    assert_eq!(flows(&collect(solved.nodes)), Vec::<i64>::new());
}

#[test]
fn the_columns_follow_the_metadata() {
    let m = GraphMetadata {
        capacity: "room".to_string(),
        flow: "moved".to_string(),
        function: "f".to_string(),
        name: "id".to_string(),
        sink: "to".to_string(),
        src: "from".to_string(),
        supply: "have".to_string(),
        unit_cost: "price".to_string(),
    };
    let g = graph(
        vec![
            ints("from", &[0]),
            ints("to", &[1]),
            ints("room", &[20]),
            ints("price", &[1]),
            ints("moved", &[99]),
        ],
        vec![
            ints("id", &[0, 1]),
            ints("room", &[20, 10]),
            ints("have", &[20, 0]),
            ints("price", &[5, 0]),
        ],
    );
    let p = ProblemSpec {
        metadata: m,
        verbose: false,
    };
    let solved = NetworkSolver {}.solve(&g, &p).unwrap();
    let edges = collect(solved.edges);
    assert_eq!(edges.width(), 5);
    assert_eq!(edges.column("moved").unwrap().values, vec![Value::Int(10)]);
    assert_eq!(edges.find("moved"), Some(4));
    assert_eq!(
        collect(solved.nodes).column("moved").unwrap().values,
        vec![Value::Int(10), Value::Int(10)]
    );
}

#[test]
fn verbose_changes_nothing() {
    let g = graph(
        vec![
            ints("src", &[0]),
            ints("sink", &[1]),
            ints("capacity", &[20]),
            ints("unit_cost", &[1]),
        ],
        vec![
            ints("name", &[0, 1]),
            ints("capacity", &[20, 10]),
            ints("supply", &[20, 0]),
            ints("unit_cost", &[5, 0]),
        ],
    );
    let mut quiet = problem();
    quiet.verbose = false;
    let a = NetworkSolver {}.solve(&g, &problem()).unwrap();
    let b = NetworkSolver {}.solve(&g, &quiet).unwrap();
    assert_eq!(a, b);
}

/// The cost of the cheapest feasible flow, found by trying every flow.
fn cheapest(net: &Network) -> Option<u64> {
    fn go(net: &Network, x: &mut Vec<u64>, a: usize, best: &mut Option<u64>) {
        if a == net.arcs.len() {
            let sink = net.nodes - 1;
            for v in 0..sink {
                let mut balance = net.supply[v] as i64;
                for (arc, f) in net.arcs.iter().zip(x.iter()) {
                    if arc.tail == v {
                        balance -= *f as i64;
                    }
                    if arc.head == v {
                        balance += *f as i64;
                    }
                }
                if balance != 0 {
                    return;
                }
            }
            let cost: u64 = net.arcs.iter().zip(x.iter()).map(|(arc, f)| arc.cost * f).sum();
            if best.map(|b| cost < b).unwrap_or(true) {
                *best = Some(cost);
            }
            return;
        }
        for f in 0..=net.arcs[a].capacity {
            x[a] = f;
            go(net, x, a + 1, best);
        }
        x[a] = 0;
    }
    let mut best = None;
    go(net, &mut vec![0; net.arcs.len()], 0, &mut best);
    best
}

#[test]
fn the_flow_found_is_as_cheap_as_any() {
    // A small generator of networks: every case is fixed by its number.
    let mut state: u64 = 0x2545_f491_4f6c_dd1d;
    let mut next = |below: u64| {
        state ^= state << 13;
        state ^= state >> 7;
        state ^= state << 17;
        state % below
    };
    let mut solved = 0;
    let mut unsolved = 0;
    for _ in 0..300 {
        let nodes = 2 + next(3) as usize;
        let sink = nodes - 1;
        let mut arcs = Vec::new();
        for _ in 0..(1 + next(5)) {
            arcs.push(FlowArc {
                tail: next(nodes as u64) as usize,
                head: next(nodes as u64) as usize,
                capacity: next(3),
                cost: next(4),
            });
        }
        for v in 0..sink {
            if next(2) == 0 {
                arcs.push(FlowArc {
                    tail: v,
                    head: sink,
                    capacity: next(3),
                    cost: next(4),
                });
            }
        }
        let supply: Vec<u64> = (0..sink).map(|_| next(3)).collect();
        let net = Network {
            nodes,
            arcs,
            supply,
        };
        let expected = cheapest(&net);
        match min_cost_flow(&net) {
            None => {
                assert_eq!(expected, None, "{net:?}");
                unsolved += 1;
            }
            Some(x) => {
                let cost: u64 = net.arcs.iter().zip(x.iter()).map(|(arc, f)| arc.cost * f).sum();
                assert_eq!(Some(cost), expected, "{net:?}");
                for (arc, f) in net.arcs.iter().zip(x.iter()) {
                    assert!(*f <= arc.capacity);
                }
                solved += 1;
            }
        }
    }
    assert!(solved > 20);
    assert!(unsolved > 20);
}
