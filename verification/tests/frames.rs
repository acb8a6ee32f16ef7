use kubegraph::error::{Error, ErrorKind, FrameOperation};
use kubegraph::frame::expr::{BinaryOperator, UnaryOperator};
use kubegraph::frame::table::{Column, Table, Value};
use kubegraph::frame::{DataFrame, Feature, IntoLazySlice, LazyFrame, LazySlice, Number};
use kubegraph::graph::{FunctionMetadata, GraphDataType, GraphMetadata, GraphScope};
use kubegraph::problem::{ProblemSpec, VirtualProblem};

fn ints(name: &str, values: &[i64]) -> Column {
    Column {
        name: name.to_string(),
        values: values.iter().map(|v| Value::Int(*v)).collect(),
    }
}

fn texts(name: &str, values: &[&str]) -> Column {
    Column {
        name: name.to_string(),
        values: values.iter().map(|v| Value::Text(v.to_string())).collect(),
    }
}

fn table(columns: Vec<Column>) -> Table {
    let mut t = Table::new();
    for c in columns {
        t = t.with_column(c).unwrap();
    }
    t
}

fn nodes() -> Table {
    table(vec![
        texts("name", &["a", "b", "c"]),
        ints("capacity", &[20, 10, 5]),
        ints("supply", &[20, 0, 0]),
    ])
}

fn lazy(t: Table) -> LazyFrame {
    LazyFrame::from(DataFrame::Table(t))
}

fn collect(frame: LazyFrame) -> Table {
    match frame.collect().unwrap() {
        DataFrame::Table(t) => t,
        DataFrame::Empty => panic!("an empty frame"),
    }
}

fn column<'a>(t: &'a Table, name: &str) -> &'a Column {
    t.column(name).unwrap()
}

fn standard_problem() -> ProblemSpec<GraphMetadata> {
    ProblemSpec {
        metadata: GraphMetadata::standard(),
        verbose: false,
    }
}

#[test]
fn empty_is_the_identity_of_concat() {
    let g = lazy(nodes());
    assert_eq!(LazyFrame::Empty.concat(g.clone()).unwrap(), g);
    assert_eq!(g.clone().concat(LazyFrame::Empty).unwrap(), g);
    assert_eq!(
        LazyFrame::Empty.concat(LazyFrame::Empty).unwrap(),
        LazyFrame::Empty
    );
}

#[test]
fn concat_stacks_the_rows() {
    let upper = table(vec![ints("x", &[1, 2]), texts("y", &["a", "b"])]);
    let lower = table(vec![ints("x", &[3]), texts("y", &["c"])]);
    let both = collect(lazy(upper).concat(lazy(lower)).unwrap());
    assert_eq!(
        both,
        table(vec![ints("x", &[1, 2, 3]), texts("y", &["a", "b", "c"])])
    );
}

#[test]
fn concat_is_associative_on_tables() {
    let a = || lazy(table(vec![ints("x", &[1])]));
    let b = || lazy(table(vec![ints("x", &[2, 3])]));
    let c = || lazy(table(vec![ints("x", &[4])]));
    let left = collect(a().concat(b()).unwrap().concat(c()).unwrap());
    let right = collect(a().concat(b().concat(c()).unwrap()).unwrap());
    assert_eq!(left, right);
    assert_eq!(left, table(vec![ints("x", &[1, 2, 3, 4])]));
}

#[test]
fn concat_of_different_columns_fails_when_collected() {
    let a = lazy(table(vec![ints("x", &[1])]));
    let b = lazy(table(vec![ints("y", &[2])]));
    let err = a.concat(b).unwrap().collect().unwrap_err();
    assert_eq!(err, Error::ShapeMismatch);
    assert_eq!(err.kind(), ErrorKind::Schema);
}

#[test]
fn empty_collects_to_empty() {
    assert_eq!(LazyFrame::Empty.collect().unwrap(), DataFrame::Empty);
    assert_eq!(LazyFrame::default(), LazyFrame::Empty);
    assert_eq!(LazyFrame::from(DataFrame::Empty), LazyFrame::Empty);
}

#[test]
fn operations_fail_on_the_empty_frame() {
    let mut empty = LazyFrame::Empty;
    assert_eq!(
        empty.all().unwrap_err(),
        Error::EmptyFrame(FrameOperation::All)
    );
    assert_eq!(
        empty.get_column("x").unwrap_err(),
        Error::EmptyFrame(FrameOperation::GetColumn)
    );
    assert_eq!(
        empty.fabric(&standard_problem()).unwrap_err(),
        Error::EmptyFrame(FrameOperation::Fabric)
    );
    assert_eq!(
        empty
            .alias("function", &FunctionMetadata { name: "f".to_string() })
            .unwrap_err(),
        Error::EmptyFrame(FrameOperation::Alias)
    );
    let slice = Number::new(1).try_into_lazy_slice(&lazy(nodes())).unwrap();
    assert_eq!(
        empty.insert_column("x", slice.clone()).unwrap_err(),
        Error::EmptyFrame(FrameOperation::InsertColumn)
    );
    assert_eq!(
        empty.apply_filter(slice).unwrap_err(),
        Error::EmptyFrame(FrameOperation::ApplyFilter)
    );
    assert_eq!(
        empty
            .fill_column_with_feature("x", Feature::new(true))
            .unwrap_err(),
        Error::EmptyFrame(FrameOperation::FillColumnWithFeature)
    );
    assert_eq!(
        empty
            .fill_column_with_value("x", Number::new(1))
            .unwrap_err(),
        Error::EmptyFrame(FrameOperation::FillColumnWithValue)
    );
    assert_eq!(
        Feature::new(true).try_into_lazy_slice(&empty).unwrap_err(),
        Error::EmptyFrame(FrameOperation::IntoSlice)
    );
    assert_eq!(empty, LazyFrame::Empty);
    assert_eq!(
        Error::EmptyFrame(FrameOperation::Fabric).kind(),
        ErrorKind::Schema
    );
}

#[test]
fn fabric_has_a_row_for_every_pair_of_nodes() {
    let edges = collect(lazy(nodes()).fabric(&standard_problem()).unwrap());
    assert_eq!(edges.height(), 9);
    assert_eq!(edges.width(), 7);
    assert_eq!(
        column(&edges, "src").values,
        texts("", &["a", "a", "a", "b", "b", "b", "c", "c", "c"]).values
    );
    assert_eq!(
        column(&edges, "sink").values,
        texts("", &["a", "b", "c", "a", "b", "c", "a", "b", "c"]).values
    );
    assert_eq!(
        column(&edges, "src.capacity").values,
        ints("", &[20, 20, 20, 10, 10, 10, 5, 5, 5]).values
    );
    assert_eq!(
        column(&edges, "sink.supply").values,
        ints("", &[20, 0, 0, 20, 0, 0, 20, 0, 0]).values
    );
    assert_eq!(
        column(&edges, "capacity").values,
        ints("", &[4294967295; 9]).values
    );
    assert_eq!(ProblemSpec::<GraphMetadata>::MAX_CAPACITY, u64::MAX >> 32);
    assert_eq!(ProblemSpec::<GraphMetadata>::MAX_CAPACITY, 4294967295);
}

#[test]
fn fabric_of_no_nodes_has_no_rows() {
    let none = table(vec![texts("name", &[])]);
    let edges = collect(lazy(none).fabric(&standard_problem()).unwrap());
    assert_eq!(edges.height(), 0);
    let one = table(vec![texts("name", &["only"])]);
    let edges = collect(lazy(one).fabric(&standard_problem()).unwrap());
    assert_eq!(edges.height(), 1);
    assert_eq!(
        edges,
        table(vec![
            texts("src", &["only"]),
            texts("sink", &["only"]),
            ints("capacity", &[4294967295]),
        ])
    );
}

#[test]
fn fabric_without_the_name_column_fails_when_collected() {
    let t = table(vec![ints("capacity", &[1])]);
    let err = lazy(t)
        .fabric(&standard_problem())
        .unwrap()
        .collect()
        .unwrap_err();
    assert_eq!(err, Error::MissingColumn("name".to_string()));
}

#[test]
fn fabric_with_one_name_for_both_sides_fails_when_collected() {
    let mut problem = standard_problem();
    problem.metadata.sink = "src".to_string();
    let err = lazy(nodes())
        .fabric(&problem)
        .unwrap()
        .collect()
        .unwrap_err();
    assert_eq!(err, Error::DuplicateColumn("src".to_string()));
}

#[test]
fn alias_and_fill_add_constant_columns() {
    let mut frame = lazy(table(vec![ints("x", &[1, 2])]));
    frame
        .alias("function", &FunctionMetadata { name: "f".to_string() })
        .unwrap();
    frame
        .fill_column_with_feature("on", Feature::new(true))
        .unwrap();
    frame.fill_column_with_value("x", Number::new(7)).unwrap();
    assert_eq!(
        collect(frame),
        table(vec![
            ints("x", &[7, 7]),
            texts("function", &["f", "f"]),
            Column {
                name: "on".to_string(),
                values: vec![Value::Bool(true), Value::Bool(true)],
            },
        ])
    );
}

#[test]
fn insert_column_computes_row_by_row() {
    let mut frame = lazy(table(vec![ints("flow", &[10, 3]), ints("unit_cost", &[1, 5])]));
    let cost = frame
        .get_column("flow")
        .unwrap()
        .mul(frame.get_column("unit_cost").unwrap());
    frame.insert_column("cost", cost).unwrap();
    let t = collect(frame);
    assert_eq!(column(&t, "cost").values, ints("", &[10, 15]).values);
}

#[test]
fn filter_keeps_the_rows_that_match() {
    let mut frame = lazy(table(vec![ints("src", &[0, 0, 1]), ints("sink", &[1, 2, 2])]));
    let zero = Number::new(0).try_into_lazy_slice(&frame).unwrap();
    let two = Number::new(2).try_into_lazy_slice(&frame).unwrap();
    let wanted = frame
        .get_column("src")
        .unwrap()
        .eq(zero)
        .and(frame.get_column("sink").unwrap().eq(two));
    frame.apply_filter(wanted).unwrap();
    assert_eq!(
        collect(frame),
        table(vec![ints("src", &[0]), ints("sink", &[2])])
    );
}

#[test]
fn operators_compute_what_they_say() {
    let t = table(vec![ints("a", &[7, -7, 0]), ints("b", &[2, 2, 5])]);
    let cases: Vec<(BinaryOperator, Vec<Value>)> = vec![
        (BinaryOperator::Add, ints("", &[9, -5, 5]).values),
        (BinaryOperator::Sub, ints("", &[5, -9, -5]).values),
        (BinaryOperator::Mul, ints("", &[14, -14, 0]).values),
        (BinaryOperator::Div, ints("", &[3, -4, 0]).values),
        (
            BinaryOperator::Lt,
            vec![Value::Bool(false), Value::Bool(true), Value::Bool(true)],
        ),
        (
            BinaryOperator::Ge,
            vec![Value::Bool(true), Value::Bool(false), Value::Bool(false)],
        ),
        (
            BinaryOperator::Ne,
            vec![Value::Bool(true), Value::Bool(true), Value::Bool(true)],
        ),
    ];
    for (op, expected) in cases {
        let mut frame = lazy(t.clone());
        let e = frame
            .get_column("a")
            .unwrap()
            .binary(op, frame.get_column("b").unwrap());
        frame.insert_column("r", e).unwrap();
        assert_eq!(column(&collect(frame), "r").values, expected);
    }
    let mut frame = lazy(t.clone());
    let negated = frame.get_column("a").unwrap().unary(UnaryOperator::Neg);
    frame.insert_column("r", negated).unwrap();
    assert_eq!(
        column(&collect(frame), "r").values,
        ints("", &[-7, 7, 0]).values
    );
}

#[test]
fn evaluation_failures_are_reported() {
    let t = table(vec![
        ints("a", &[i64::MAX, 1]),
        ints("z", &[0, 0]),
        texts("s", &["x", "y"]),
    ]);
    let run = |build: &dyn Fn(&LazyFrame) -> LazySlice| {
        let mut frame = lazy(t.clone());
        let e = build(&frame);
        frame.insert_column("r", e).unwrap();
        frame.collect().unwrap_err()
    };
    let col = |f: &LazyFrame, n: &str| f.get_column(n).unwrap();
    assert_eq!(run(&|f| col(f, "a").add(col(f, "a"))), Error::Overflow);
    assert_eq!(run(&|f| col(f, "a").div(col(f, "z"))), Error::DivisionByZero);
    assert_eq!(run(&|f| col(f, "a").add(col(f, "s"))), Error::TypeMismatch);
    assert_eq!(run(&|f| col(f, "s").not()), Error::TypeMismatch);
    assert_eq!(
        run(&|f| col(f, "a").add(col(f, "nope"))),
        Error::MissingColumn("nope".to_string())
    );
    assert_eq!(run(&|f| f.all().unwrap()), Error::Wildcard);
    assert_eq!(Error::Overflow.kind(), ErrorKind::Evaluation);
    let mut frame = lazy(t.clone());
    let not_a_truth = col(&frame, "a");
    frame.apply_filter(not_a_truth).unwrap();
    assert_eq!(frame.collect().unwrap_err(), Error::TypeMismatch);
}

#[test]
fn cast_renames_the_columns_of_the_roles() {
    let origin = GraphMetadata {
        name: "id".to_string(),
        capacity: "cap".to_string(),
        supply: "have".to_string(),
        ..GraphMetadata::standard()
    };
    let problem = VirtualProblem {
        scope: GraphScope {
            kind: "k".to_string(),
            namespace: "ns".to_string(),
            name: "n".to_string(),
        },
        spec: standard_problem(),
    };
    let t = table(vec![
        texts("id", &["a"]),
        ints("cap", &[1]),
        ints("have", &[2]),
        ints("extra", &[3]),
    ]);
    let cast = collect(lazy(t.clone()).cast(GraphDataType::Node, &origin, &problem));
    assert_eq!(
        cast,
        table(vec![
            texts("name", &["a"]),
            ints("capacity", &[1]),
            ints("supply", &[2]),
            ints("extra", &[3]),
        ])
    );
    let as_edges = collect(lazy(t).cast(GraphDataType::Edge, &origin, &problem));
    assert_eq!(
        as_edges,
        table(vec![
            texts("id", &["a"]),
            ints("capacity", &[1]),
            ints("have", &[2]),
            ints("extra", &[3]),
        ])
    );
    assert_eq!(
        LazyFrame::Empty.cast(GraphDataType::Node, &origin, &problem),
        LazyFrame::Empty
    );
}

#[test]
fn tables_refuse_columns_that_do_not_fit() {
    let t = table(vec![ints("x", &[1, 2])]);
    assert_eq!(
        t.clone().with_column(ints("x", &[3, 4])).unwrap_err(),
        Error::DuplicateColumn("x".to_string())
    );
    assert_eq!(
        t.clone().with_column(ints("y", &[3])).unwrap_err(),
        Error::ShapeMismatch
    );
    assert_eq!(t.find("x"), Some(0));
    assert_eq!(t.find("y"), None);
    assert_eq!(Table::new().height(), 0);
    assert_eq!(Table::new().width(), 0);
}
