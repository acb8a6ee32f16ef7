use kubegraph::frame::table::{Column, Table, Value};
use kubegraph::frame::{DataFrame, IntoLazySlice, LazyFrame, Number};
use kubegraph::graph::GraphMetadata;
use kubegraph::problem::ProblemSpec;
use polars::prelude::{all, col, lit, AnyValue, IntoLazy, UnionArgs};

fn ints(name: &str, values: &[i64]) -> Column {
    Column {
        name: name.to_string(),
        values: values.iter().map(|v| Value::Int(*v)).collect(),
    }
}

fn texts(name: &str, values: &[&str]) -> Column {
    Column {
        name: name.to_string(),
        values: values.iter().map(|v| Value::Text(v.to_string())).collect(),
    }
}

fn table(columns: Vec<Column>) -> Table {
    let mut t = Table::new();
    for c in columns {
        t = t.with_column(c).unwrap();
    }
    t
}

fn collect(frame: LazyFrame) -> Table {
    match frame.collect().unwrap() {
        DataFrame::Table(t) => t,
        DataFrame::Empty => panic!("an empty frame"),
    }
}

fn into_polars(t: &Table) -> polars::frame::DataFrame {
    let columns = (0..t.width())
        .map(|i| {
            let c = t.column_at(i);
            let name = c.name.as_str().into();
            match c.values.first() {
                Some(Value::Text(_)) => polars::prelude::Column::new(
                    name,
                    c.values
                        .iter()
                        .map(|v| match v {
                            Value::Text(s) => s.clone(),
                            other => panic!("not a text: {other:?}"),
                        })
                        .collect::<Vec<String>>(),
                ),
                _ => polars::prelude::Column::new(
                    name,
                    c.values
                        .iter()
                        .map(|v| match v {
                            Value::Int(i) => *i,
                            other => panic!("not an integer: {other:?}"),
                        })
                        .collect::<Vec<i64>>(),
                ),
            }
        })
        .collect();
    polars::frame::DataFrame::new(t.height(), columns).unwrap()
}

fn from_polars(df: &polars::frame::DataFrame) -> Table {
    let mut t = Table::new();
    for c in df.columns() {
        let values = (0..c.len())
            .map(|row| match c.get(row).unwrap() {
                AnyValue::Int64(i) => Value::Int(i),
                AnyValue::UInt64(i) => Value::Int(i as i64),
                AnyValue::Int32(i) => Value::Int(i as i64),
                AnyValue::Boolean(b) => Value::Bool(b),
                AnyValue::String(s) => Value::Text(s.to_string()),
                AnyValue::StringOwned(s) => Value::Text(s.to_string()),
                other => panic!("a cell that a table cannot hold: {other:?}"),
            })
            .collect();
        t = t
            .with_column(Column {
                name: c.name().to_string(),
                values,
            })
            .unwrap();
    }
    t
}

fn nodes() -> Table {
    table(vec![
        texts("name", &["a", "b", "c"]),
        ints("capacity", &[20, 10, 5]),
        ints("supply", &[20, 0, 0]),
    ])
}

fn polars_side(
    nodes: &polars::prelude::LazyFrame,
    name: &str,
    side: &str,
) -> polars::prelude::LazyFrame {
    nodes.clone().select([
        col(name).alias(side),
        all()
            .exclude_cols([name])
            .as_expr()
            .name()
            .prefix(&format!("{side}.")),
    ])
}

#[test]
fn fabric_agrees_with_polars() {
    let problem = ProblemSpec {
        metadata: GraphMetadata::standard(),
        verbose: false,
    };
    let ours = collect(
        LazyFrame::from(DataFrame::Table(nodes()))
            .fabric(&problem)
            .unwrap(),
    );
    let lazy = into_polars(&nodes()).lazy();
    let theirs = polars_side(&lazy, "name", "src")
        .cross_join(polars_side(&lazy, "name", "sink"), None)
        .with_column(lit(ProblemSpec::<GraphMetadata>::MAX_CAPACITY).alias("capacity"))
        .collect()
        .unwrap();
    assert_eq!(theirs.height(), 9);
    assert_eq!(ours, from_polars(&theirs));
}

#[test]
fn concat_agrees_with_polars() {
    let upper = table(vec![ints("x", &[1, 2]), texts("y", &["a", "b"])]);
    let lower = table(vec![ints("x", &[3]), texts("y", &["c"])]);
    let ours = collect(
        LazyFrame::from(DataFrame::Table(upper.clone()))
            .concat(LazyFrame::from(DataFrame::Table(lower.clone())))
            .unwrap(),
    );
    let theirs = polars::prelude::concat(
        [into_polars(&upper).lazy(), into_polars(&lower).lazy()],
        UnionArgs::default(),
    )
    .unwrap()
    .collect()
    .unwrap();
    assert_eq!(ours, from_polars(&theirs));
}

#[test]
fn columns_and_filters_agree_with_polars() {
    let t = table(vec![
        ints("flow", &[10, 3, 0, 7]),
        ints("unit_cost", &[1, 5, 2, 0]),
    ]);
    let mut frame = LazyFrame::from(DataFrame::Table(t.clone()));
    let cost = frame
        .get_column("flow")
        .unwrap()
        .mul(frame.get_column("unit_cost").unwrap());
    frame.insert_column("cost", cost).unwrap();
    let five = Number::new(5).try_into_lazy_slice(&frame).unwrap();
    let seven = Number::new(7).try_into_lazy_slice(&frame).unwrap();
    let wanted = frame
        .get_column("cost")
        .unwrap()
        .ge(five)
        .or(frame.get_column("flow").unwrap().eq(seven));
    frame.apply_filter(wanted).unwrap();
    frame
        .fill_column_with_value("flow", Number::new(1))
        .unwrap();
    let ours = collect(frame);
    let theirs = into_polars(&t)
        .lazy()
        .with_column((col("flow") * col("unit_cost")).alias("cost"))
        .filter(col("cost").gt_eq(lit(5i64)).or(col("flow").eq(lit(7i64))))
        .with_column(lit(1i64).alias("flow"))
        .collect()
        .unwrap();
    assert_eq!(ours, from_polars(&theirs));
    assert_eq!(ours.height(), 3);
}
