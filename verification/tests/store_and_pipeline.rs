use kubegraph::analyzer::{
    VirtualProblemAnalyzer, VirtualProblemAnalyzerEmpty, VirtualProblemAnalyzerFabric,
};
use kubegraph::error::{Error, ErrorKind, FrameOperation, GraphPart, Role};
use kubegraph::frame::table::{Column, Table, Value};
use kubegraph::frame::{DataFrame, LazyFrame};
use kubegraph::graph::{
    Graph, GraphData, GraphFilter, GraphMetadata, GraphMetadataRaw, GraphMetadataStandard,
    GraphScope,
};
use kubegraph::pipeline::{Pipeline, Stage, StageError};
use kubegraph::problem::ProblemSpec;
use kubegraph::runner::NetworkRunner;
use kubegraph::solver::NetworkSolver;
use kubegraph::store::NetworkGraphDB;

fn scope(kind: &str, namespace: &str, name: &str) -> GraphScope {
    GraphScope {
        kind: kind.to_string(),
        namespace: namespace.to_string(),
        name: name.to_string(),
    }
}

fn frame(name: &str, values: &[i64]) -> LazyFrame {
    let t = Table::new()
        .with_column(Column {
            name: name.to_string(),
            values: values.iter().map(|v| Value::Int(*v)).collect(),
        })
        .unwrap();
    LazyFrame::from(DataFrame::Table(t))
}

fn graph(s: GraphScope, marker: i64) -> Graph<GraphData<LazyFrame>> {
    Graph {
        scope: s,
        data: GraphData {
            edges: frame("src", &[marker]),
            nodes: frame("name", &[marker, marker + 1]),
        },
    }
}

#[test]
fn a_stored_graph_comes_back() {
    let mut db = NetworkGraphDB::new();
    assert_eq!(db.get(&scope("k", "ns", "a")), None);
    let g = graph(scope("k", "ns", "a"), 1);
    db.insert(g.clone());
    assert_eq!(db.get(&g.scope), Some(g));
    assert_eq!(db.get(&scope("k", "ns", "b")), None);
}

#[test]
fn the_last_write_wins() {
    let mut db = NetworkGraphDB::new();
    db.insert(graph(scope("k", "ns", "a"), 1));
    db.insert(graph(scope("k", "ns", "b"), 2));
    db.insert(graph(scope("k", "ns", "a"), 3));
    assert_eq!(
        db.get(&scope("k", "ns", "a")),
        Some(graph(scope("k", "ns", "a"), 3))
    );
    assert_eq!(
        db.list(None),
        vec![graph(scope("k", "ns", "a"), 3), graph(scope("k", "ns", "b"), 2)]
    );
}

#[test]
fn a_snapshot_is_not_changed_by_later_writes() {
    let mut db = NetworkGraphDB::default();
    db.insert(graph(scope("k", "ns", "a"), 1));
    let snapshot = db.clone();
    db.insert(graph(scope("k", "ns", "a"), 2));
    db.insert(graph(scope("k", "ns", "b"), 3));
    assert_eq!(snapshot.list(None), vec![graph(scope("k", "ns", "a"), 1)]);
    assert_eq!(db.list(None).len(), 2);
}

#[test]
fn list_holds_every_scope_once_in_order() {
    let mut db = NetworkGraphDB::new();
    let scopes = [
        scope("k", "z", "a"),
        scope("a", "b", "c"),
        scope("k", "ns", "b"),
        scope("k", "ns", "a"),
        scope("", "", ""),
        scope("k", "ns", "a"),
        scope("a", "b", "c"),
    ];
    for (i, s) in scopes.iter().enumerate() {
        db.insert(graph(s.clone(), i as i64));
    }
    let listed: Vec<GraphScope> = db.list(None).into_iter().map(|g| g.scope).collect();
    let mut expected: Vec<GraphScope> = scopes.to_vec();
    expected.sort();
    expected.dedup();
    assert_eq!(listed, expected);
    for s in expected.iter() {
        assert_eq!(db.get(s).unwrap().scope, *s);
    }
}

#[test]
fn list_with_a_filter_holds_what_matches() {
    let mut db = NetworkGraphDB::new();
    for (i, s) in [
        scope("k", "ns", "a"),
        scope("k", "other", "a"),
        scope("j", "ns", "b"),
        scope("k", "ns", "c"),
    ]
    .iter()
    .enumerate()
    {
        db.insert(graph(s.clone(), i as i64));
    }
    let filter = GraphFilter {
        kind: Some("k".to_string()),
        namespace: Some("ns".to_string()),
        name: None,
    };
    let listed: Vec<GraphScope> = db
        .list(Some(&filter))
        .into_iter()
        .map(|g| g.scope)
        .collect();
    assert_eq!(listed, vec![scope("k", "ns", "a"), scope("k", "ns", "c")]);
    assert!(filter.contains(&scope("k", "ns", "zzz")));
    assert!(!filter.contains(&scope("k", "NS", "a")));
    let by_name = GraphFilter {
        kind: None,
        namespace: None,
        name: Some("a".to_string()),
    };
    assert_eq!(db.list(Some(&by_name)).len(), 2);
    let nothing = GraphFilter {
        kind: Some("none".to_string()),
        namespace: None,
        name: None,
    };
    assert_eq!(db.list(Some(&nothing)), vec![]);
    let everything = GraphFilter {
        kind: None,
        namespace: None,
        name: None,
    };
    assert_eq!(db.list(Some(&everything)), db.list(None));
    db.close();
}

fn declared(name: &str, sink: &str, src: &str) -> ProblemSpec<GraphMetadataRaw> {
    ProblemSpec {
        metadata: GraphMetadataRaw {
            name: Some(name.to_string()),
            sink: Some(sink.to_string()),
            src: Some(src.to_string()),
            ..GraphMetadataRaw::default()
        },
        verbose: true,
    }
}

#[test]
fn analysis_fills_in_the_defaults() {
    let g = graph(scope("k", "ns", "a"), 1);
    let mut spec = declared("id", "to", "from");
    spec.metadata.capacity = Some("room".to_string());
    let analysis = VirtualProblemAnalyzerEmpty {}.analyze(g.clone(), &spec).unwrap();
    assert_eq!(analysis.graph, g);
    assert_eq!(analysis.problem.scope, g.scope);
    assert!(analysis.problem.spec.verbose);
    assert_eq!(
        analysis.problem.spec.metadata,
        GraphMetadata {
            capacity: "room".to_string(),
            flow: "flow".to_string(),
            function: "function".to_string(),
            name: "id".to_string(),
            sink: "to".to_string(),
            src: "from".to_string(),
            supply: "supply".to_string(),
            unit_cost: "unit_cost".to_string(),
        }
    );
}

#[test]
fn analysis_fails_without_a_required_role() {
    let g = || graph(scope("k", "ns", "a"), 1);
    let analyzer = VirtualProblemAnalyzer::default();
    assert_eq!(
        analyzer,
        VirtualProblemAnalyzer::Empty(VirtualProblemAnalyzerEmpty {})
    );
    let nothing: ProblemSpec<GraphMetadataRaw> = ProblemSpec::default();
    assert!(!nothing.verbose);
    let err = analyzer.analyze(g(), &nothing).unwrap_err();
    assert_eq!(err, Error::MissingRole(Role::Name));
    assert_eq!(err.kind(), ErrorKind::Schema);
    let mut spec = declared("name", "sink", "src");
    spec.metadata.src = None;
    assert_eq!(
        analyzer.analyze(g(), &spec).unwrap_err(),
        Error::MissingRole(Role::Src)
    );
    spec.metadata.sink = None;
    assert_eq!(
        analyzer.analyze(g(), &spec).unwrap_err(),
        Error::MissingRole(Role::Sink)
    );
}

#[test]
fn analysis_twice_gives_the_same() {
    let spec = declared("name", "sink", "src");
    for analyzer in [
        VirtualProblemAnalyzer::Empty(VirtualProblemAnalyzerEmpty {}),
        VirtualProblemAnalyzer::Fabric(VirtualProblemAnalyzerFabric {}),
    ] {
        let mut g = graph(scope("k", "ns", "a"), 1);
        g.data.edges = LazyFrame::Empty;
        let first = analyzer.analyze(g.clone(), &spec).unwrap();
        let second = analyzer.analyze(g.clone(), &spec).unwrap();
        assert_eq!(first.problem, second.problem);
        assert_eq!(first.graph, second.graph);
        let m = first.problem.spec.metadata.clone();
        let again = ProblemSpec {
            metadata: GraphMetadataRaw {
                capacity: Some(m.capacity),
                flow: Some(m.flow),
                function: Some(m.function),
                name: Some(m.name),
                sink: Some(m.sink),
                src: Some(m.src),
                supply: Some(m.supply),
                unit_cost: Some(m.unit_cost),
            },
            verbose: first.problem.spec.verbose,
        };
        let third = analyzer.analyze(first.graph.clone(), &again).unwrap();
        assert_eq!(third.problem, first.problem);
        assert_eq!(third.graph, first.graph);
    }
}

#[test]
fn the_fabric_analyzer_derives_missing_edges() {
    let spec = declared("name", "sink", "src");
    let mut g = graph(scope("k", "ns", "a"), 1);
    g.data.edges = LazyFrame::Empty;
    let analysis = VirtualProblemAnalyzerFabric {}.analyze(g.clone(), &spec).unwrap();
    let mut expected = g.data.nodes.fabric(&analysis.problem.spec).unwrap();
    expected
        .fill_column_with_value("unit_cost", kubegraph::frame::Number::new(0))
        .unwrap();
    assert_eq!(analysis.graph.data.edges, expected);
    assert_eq!(analysis.graph.data.nodes, g.data.nodes);
    match analysis.graph.data.edges.collect().unwrap() {
        DataFrame::Table(t) => {
            assert_eq!(t.height(), 4);
            assert_eq!(t.column("unit_cost").unwrap().values, vec![Value::Int(0); 4]);
            assert_eq!(
                t.column("capacity").unwrap().values,
                vec![Value::Int(4294967295); 4]
            );
        }
        DataFrame::Empty => panic!("an empty frame"),
    }
    let with_edges = graph(scope("k", "ns", "a"), 1);
    let kept = VirtualProblemAnalyzerFabric {}
        .analyze(with_edges.clone(), &spec)
        .unwrap();
    assert_eq!(kept.graph, with_edges);
    let mut nothing = graph(scope("k", "ns", "a"), 1);
    nothing.data.edges = LazyFrame::Empty;
    nothing.data.nodes = LazyFrame::Empty;
    assert_eq!(
        VirtualProblemAnalyzerFabric {}
            .analyze(nothing, &spec)
            .unwrap_err(),
        Error::EmptyFrame(FrameOperation::Fabric)
    );
}

fn standard() -> ProblemSpec<GraphMetadataStandard> {
    ProblemSpec {
        metadata: GraphMetadataStandard {},
        verbose: false,
    }
}

#[test]
fn the_runner_refuses_an_empty_graph() {
    let runner = NetworkRunner::default();
    let mut db = NetworkGraphDB::new();
    let s = scope("k", "ns", "a");
    let no_edges = GraphData {
        edges: LazyFrame::Empty,
        nodes: frame("name", &[1]),
    };
    let err = runner.execute(&mut db, &s, no_edges, &standard()).unwrap_err();
    assert_eq!(err, Error::EmptyGraph(GraphPart::Edges));
    assert_eq!(err.kind(), ErrorKind::EmptyGraph);
    let no_nodes = GraphData {
        edges: frame("src", &[1]),
        nodes: LazyFrame::Empty,
    };
    assert_eq!(
        runner.execute(&mut db, &s, no_nodes, &standard()).unwrap_err(),
        Error::EmptyGraph(GraphPart::Nodes)
    );
    let neither = GraphData {
        edges: LazyFrame::Empty,
        nodes: LazyFrame::Empty,
    };
    assert_eq!(
        runner.execute(&mut db, &s, neither, &standard()).unwrap_err(),
        Error::EmptyGraph(GraphPart::Edges)
    );
    assert_eq!(db.list(None), vec![]);
}

#[test]
fn the_runner_records_what_it_evaluated() {
    let runner = NetworkRunner::default();
    let mut db = NetworkGraphDB::new();
    let s = scope("k", "ns", "a");
    let mut nodes = frame("name", &[1, 2]);
    nodes
        .fill_column_with_value("supply", kubegraph::frame::Number::new(5))
        .unwrap();
    let g = GraphData {
        edges: frame("src", &[1]),
        nodes,
    };
    runner.execute(&mut db, &s, g, &standard()).unwrap();
    let stored = db.get(&s).unwrap();
    assert_eq!(stored.data.edges, frame("src", &[1]));
    match stored.data.nodes.collect().unwrap() {
        DataFrame::Table(t) => {
            assert_eq!(t.width(), 2);
            assert_eq!(
                t.column("supply").unwrap().values,
                vec![Value::Int(5), Value::Int(5)]
            );
        }
        DataFrame::Empty => panic!("an empty frame"),
    }
}

#[test]
fn a_run_that_fails_leaves_the_store_alone() {
    let runner = NetworkRunner::default();
    let mut db = NetworkGraphDB::new();
    let s = scope("k", "ns", "a");
    db.insert(graph(s.clone(), 1));
    let mut broken = frame("name", &[1]);
    let missing = broken.get_column("nope").unwrap();
    broken.insert_column("x", missing).unwrap();
    let g = GraphData {
        edges: frame("src", &[9]),
        nodes: broken,
    };
    assert_eq!(
        runner.execute(&mut db, &s, g, &standard()).unwrap_err(),
        Error::MissingColumn("nope".to_string())
    );
    assert_eq!(db.get(&s), Some(graph(s.clone(), 1)));
}

fn column(name: &str, values: &[i64]) -> Column {
    Column {
        name: name.to_string(),
        values: values.iter().map(|v| Value::Int(*v)).collect(),
    }
}

fn nodes(capacity: &[i64], supply: &[i64]) -> LazyFrame {
    let names: Vec<i64> = (0..capacity.len() as i64).collect();
    let t = Table::new()
        .with_column(column("name", &names))
        .unwrap()
        .with_column(column("capacity", capacity))
        .unwrap()
        .with_column(column("supply", supply))
        .unwrap()
        .with_column(column("unit_cost", &vec![1; capacity.len()]))
        .unwrap();
    LazyFrame::from(DataFrame::Table(t))
}

fn pipeline() -> Pipeline {
    Pipeline {
        analyzer: VirtualProblemAnalyzer::Fabric(VirtualProblemAnalyzerFabric {}),
        solver: NetworkSolver::default(),
        runner: NetworkRunner::default(),
    }
}

#[test]
fn the_pipeline_takes_a_graph_to_the_store() {
    let mut db = NetworkGraphDB::new();
    let s = scope("k", "ns", "a");
    let raw = Graph {
        scope: s.clone(),
        data: GraphData {
            edges: LazyFrame::Empty,
            nodes: nodes(&[0, 10], &[4, 0]),
        },
    };
    let refined = pipeline()
        .run(&mut db, raw, &declared("name", "sink", "src"))
        .unwrap();
    assert_eq!(refined.scope, s);
    assert_eq!(refined.spec.metadata.capacity, "capacity");
    let stored = db.get(&s).unwrap();
    match stored.data.edges.collect().unwrap() {
        DataFrame::Table(edges) => {
            assert_eq!(edges.height(), 4);
            assert_eq!(
                edges.column("flow").unwrap().values,
                vec![Value::Int(0), Value::Int(4), Value::Int(0), Value::Int(0)]
            );
        }
        DataFrame::Empty => panic!("an empty frame"),
    }
    match stored.data.nodes.collect().unwrap() {
        DataFrame::Table(nodes) => assert_eq!(
            nodes.column("flow").unwrap().values,
            vec![Value::Int(0), Value::Int(4)]
        ),
        DataFrame::Empty => panic!("an empty frame"),
    }
}

#[test]
fn a_stage_that_fails_is_named_and_leaves_the_store_alone() {
    let mut db = NetworkGraphDB::new();
    let s = scope("k", "ns", "a");
    db.insert(graph(s.clone(), 1));
    let raw = |nodes: LazyFrame| Graph {
        scope: s.clone(),
        data: GraphData {
            edges: LazyFrame::Empty,
            nodes,
        },
    };
    let nothing: ProblemSpec<GraphMetadataRaw> = ProblemSpec::default();
    assert_eq!(
        pipeline().run(&mut db, raw(nodes(&[1], &[1])), &nothing),
        Err(StageError {
            stage: Stage::Analyzer,
            error: Error::MissingRole(Role::Name),
        })
    );
    assert_eq!(
        pipeline().run(
            &mut db,
            raw(LazyFrame::Empty),
            &declared("name", "sink", "src")
        ),
        Err(StageError {
            stage: Stage::Analyzer,
            error: Error::EmptyFrame(FrameOperation::Fabric),
        })
    );
    assert_eq!(
        pipeline().run(
            &mut db,
            raw(frame("name", &[1])),
            &declared("id", "sink", "src")
        ),
        Err(StageError {
            stage: Stage::Solver,
            error: Error::MissingColumn("id".to_string()),
        })
    );
    assert_eq!(
        pipeline().run(
            &mut db,
            raw(nodes(&[1, 1], &[3, 0])),
            &declared("name", "sink", "src")
        ),
        Err(StageError {
            stage: Stage::Solver,
            error: Error::InsufficientCapacity,
        })
    );
    assert_eq!(db.list(None), vec![graph(s.clone(), 1)]);
    let solved = pipeline()
        .plan(raw(nodes(&[0, 10], &[4, 0])), &declared("name", "sink", "src"))
        .unwrap();
    assert_eq!(db.list(None), vec![graph(s.clone(), 1)]);
    pipeline().execute(&mut db, solved).unwrap();
    assert_ne!(db.get(&s), Some(graph(s.clone(), 1)));
}
