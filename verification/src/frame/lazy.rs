//! Frames: the empty frame, which stands for no backend at all, and frames of
//! the table backend.

use crate::error::{agrees, Error, ErrorView, FrameOperation, Role};
use crate::frame::expr::{eval_rows, Expr, ExprView};
use crate::frame::ops::{
    cross, cross_columns, each_cell, edge_side, lemma_put_fits, put_columns, side_columns,
    with_column, Renaming,
};
use crate::frame::plan::{eval_plan, Plan, PlanView};
use crate::frame::slice::{Feature, LazySlice, Number};
use crate::frame::table::{
    column_index, has_column, height, lemma_assemble_ok, lemma_assemble_well_formed,
    lemma_column_index_unique, well_formed, ColumnView, Table, TableView, Value, ValueView,
};
use crate::graph::metadata::{
    column_of, standard_metadata, FunctionMetadata, GraphDataType, GraphMetadata,
    GraphMetadataView,
};
use crate::problem::{max_capacity, ProblemSpec, VirtualProblem};
use vstd::prelude::*;

verus! {

/// A materialized frame.
#[derive(Debug, PartialEq)]
pub enum DataFrame {
    /// No backend: nothing was computed.
    Empty,
    /// A table.
    Table(Table),
}

/// A materialized frame as a mathematical value.
pub ghost enum DataFrameView {
    Empty,
    Table(TableView),
}

impl View for DataFrame {
    type V = DataFrameView;

    open spec fn view(&self) -> DataFrameView {
        match *self {
            DataFrame::Empty => DataFrameView::Empty,
            DataFrame::Table(t) => DataFrameView::Table(t@),
        }
    }
}

impl Clone for DataFrame {
    fn clone(&self) -> (copy: Self)
        ensures
            copy@ == self@,
    {
        match self {
            DataFrame::Empty => DataFrame::Empty,
            DataFrame::Table(t) => DataFrame::Table(t.clone()),
        }
    }
}

/// A deferred frame.
#[derive(Debug, PartialEq)]
pub enum LazyFrame {
    /// No backend. It is the identity of `concat`, and every operation that
    /// needs a backend fails on it.
    Empty,
    /// A plan of the table backend.
    Table(Plan),
}

/// A deferred frame as a mathematical value.
pub ghost enum LazyFrameView {
    Empty,
    Table(PlanView),
}

impl View for LazyFrame {
    type V = LazyFrameView;

    open spec fn view(&self) -> LazyFrameView {
        match *self {
            LazyFrame::Empty => LazyFrameView::Empty,
            LazyFrame::Table(p) => LazyFrameView::Table(p@),
        }
    }
}

impl Clone for LazyFrame {
    fn clone(&self) -> (copy: Self)
        ensures
            copy@ == self@,
    {
        match self {
            LazyFrame::Empty => LazyFrame::Empty,
            LazyFrame::Table(p) => LazyFrame::Table(p.clone()),
        }
    }
}

impl Default for LazyFrame {
    fn default() -> (frame: Self)
        ensures
            frame@ is Empty,
    {
        LazyFrame::Empty
    }
}

impl From<DataFrame> for LazyFrame {
    fn from(value: DataFrame) -> (frame: Self) {
        match value {
            DataFrame::Empty => LazyFrame::Empty,
            DataFrame::Table(t) => LazyFrame::Table(Plan::Scan(t)),
        }
    }
}

impl vstd::std_specs::convert::FromSpecImpl<DataFrame> for LazyFrame {
    open spec fn obeys_from_spec() -> bool {
        true
    }

    open spec fn from_spec(value: DataFrame) -> Self {
        match value {
            DataFrame::Empty => LazyFrame::Empty,
            DataFrame::Table(t) => LazyFrame::Table(Plan::Scan(t)),
        }
    }
}

/// What can be turned into a lazy frame.
pub trait IntoLazyFrame: Into<LazyFrame> {

}

impl<T: Into<LazyFrame>> IntoLazyFrame for T {

}

/// The frame that scans a materialized one.
pub open spec fn lazy_of(df: DataFrameView) -> LazyFrameView {
    match df {
        DataFrameView::Empty => LazyFrameView::Empty,
        DataFrameView::Table(t) => LazyFrameView::Table(PlanView::Scan(t)),
    }
}

/// The union of two frames. The empty frame is its identity on both sides.
pub open spec fn concat_frames(a: LazyFrameView, b: LazyFrameView) -> LazyFrameView {
    match (a, b) {
        (LazyFrameView::Empty, other) => other,
        (other, LazyFrameView::Empty) => other,
        (LazyFrameView::Table(p), LazyFrameView::Table(q)) => LazyFrameView::Table(
            PlanView::Concat(Box::new(p), Box::new(q)),
        ),
    }
}

/// What a frame collects to: nothing for the empty frame, and for a plan the
/// table that it computes.
pub open spec fn collect_frame(f: LazyFrameView) -> Result<DataFrameView, ErrorView> {
    match f {
        LazyFrameView::Empty => Ok(DataFrameView::Empty),
        LazyFrameView::Table(p) => match eval_plan(p) {
            Ok(t) => Ok(DataFrameView::Table(t)),
            Err(e) => Err(e),
        },
    }
}

/// The plan that adds to `input` a column with the same value in every row.
pub open spec fn fill_plan(input: PlanView, name: Seq<char>, value: ValueView) -> PlanView {
    PlanView::WithColumn { input: Box::new(input), name, value: ExprView::Literal(value) }
}

/// The plan of one side of the edges over a node plan.
pub open spec fn side_plan(nodes: PlanView, name: Seq<char>, side: Seq<char>) -> PlanView {
    PlanView::EdgeSide { input: Box::new(nodes), name, side }
}

/// The plan of the fully connected edges over a node plan: every node as
/// source beside every node as sink, itself included, each pair with the
/// greatest capacity there is.
pub open spec fn fabric_plan(nodes: PlanView, m: GraphMetadataView) -> PlanView {
    fill_plan(
        PlanView::Cross(
            Box::new(side_plan(nodes, m.name, m.src)),
            Box::new(side_plan(nodes, m.name, m.sink)),
        ),
        m.capacity,
        ValueView::Int(max_capacity()),
    )
}

/// The roles that the columns of a table of each kind play.
pub open spec fn roles_of(ty: GraphDataType) -> Seq<Role> {
    match ty {
        GraphDataType::Edge => seq![Role::Src, Role::Sink, Role::Capacity, Role::UnitCost],
        GraphDataType::Node => seq![Role::Name, Role::Capacity, Role::Supply, Role::UnitCost],
    }
}

/// The renamings that take a table from the names of one mapping to those
/// of another, for the roles of its kind.
pub open spec fn cast_renamings(
    ty: GraphDataType,
    origin: GraphMetadataView,
    target: GraphMetadataView,
) -> Seq<(Seq<char>, Seq<char>)> {
    roles_of(ty).map_values(|role: Role| (column_of(origin, role), column_of(target, role)))
}

/// A frame under the column names of a problem.
pub open spec fn cast_frame(
    f: LazyFrameView,
    ty: GraphDataType,
    origin: GraphMetadataView,
    target: GraphMetadataView,
) -> LazyFrameView {
    match f {
        LazyFrameView::Empty => LazyFrameView::Empty,
        LazyFrameView::Table(p) => LazyFrameView::Table(
            PlanView::Rename { input: Box::new(p), renamings: cast_renamings(ty, origin, target) },
        ),
    }
}

/// What an operation that adds a step to a frame gives: a failure on the
/// empty frame, which stays as it is, and the longer plan otherwise.
pub open spec fn step_result(
    before: LazyFrameView,
    after: LazyFrameView,
    r: Result<(), Error>,
    operation: FrameOperation,
    plan: spec_fn(PlanView) -> PlanView,
) -> bool {
    match before {
        LazyFrameView::Empty => r is Err && r->Err_0@ == ErrorView::EmptyFrame(operation) && after
            == before,
        LazyFrameView::Table(p) => r is Ok && after == LazyFrameView::Table(plan(p)),
    }
}

/// The renaming that takes the column of a role from one mapping to another.
fn renaming(origin: &GraphMetadata, target: &GraphMetadata, role: Role) -> (r: Renaming)
    ensures
        r@ == (column_of(origin@, role), column_of(target@, role)),
{
    Renaming { from: origin.column(role).to_owned(), to: target.column(role).to_owned() }
}

impl LazyFrame {
    /// The selector of all columns.
    pub fn all(&self) -> (r: Result<LazySlice, Error>)
        ensures
            self@ is Empty ==> r is Err && r->Err_0@ == ErrorView::EmptyFrame(FrameOperation::All),
            !(self@ is Empty) ==> r is Ok && r->Ok_0@ == ExprView::All,
    {
        match self {
            LazyFrame::Empty => Err(Error::EmptyFrame(FrameOperation::All)),
            LazyFrame::Table(_) => Ok(LazySlice::Table(Expr::All)),
        }
    }

    /// The frame under the column names of a problem: the columns that play
    /// a role under `origin` get the names that the problem gives those roles.
    /// The empty frame stays empty.
    pub fn cast(self, ty: GraphDataType, origin: &GraphMetadata, problem: &VirtualProblem) -> (r:
        Self)
        ensures
            r@ == cast_frame(self@, ty, origin@, problem@.spec.metadata),
    {
        match self {
            LazyFrame::Empty => LazyFrame::Empty,
            LazyFrame::Table(p) => {
                let target = &problem.spec.metadata;
                let mut renamings: Vec<Renaming> = Vec::new();
                match ty {
                    GraphDataType::Edge => {
                        renamings.push(renaming(origin, target, Role::Src));
                        renamings.push(renaming(origin, target, Role::Sink));
                    },
                    GraphDataType::Node => {
                        renamings.push(renaming(origin, target, Role::Name));
                    },
                }
                renamings.push(renaming(origin, target, Role::Capacity));
                match ty {
                    GraphDataType::Edge => {},
                    GraphDataType::Node => {
                        renamings.push(renaming(origin, target, Role::Supply));
                    },
                }
                renamings.push(renaming(origin, target, Role::UnitCost));
                assert(crate::frame::ops::renamings_view(renamings@) =~= cast_renamings(
                    ty,
                    origin@,
                    problem@.spec.metadata,
                ));
                LazyFrame::Table(Plan::Rename { input: Box::new(p), renamings })
            },
        }
    }

    /// Materializes the frame. The empty frame collects to the empty frame,
    /// and a plan to a well-formed table.
    pub fn collect(self) -> (r: Result<DataFrame, Error>)
        ensures
            agrees(r, collect_frame(self@)),
            r matches Ok(DataFrame::Table(t)) ==> well_formed(t@),
    {
        match self {
            LazyFrame::Empty => Ok(DataFrame::Empty),
            LazyFrame::Table(p) => match p.run() {
                Ok(t) => {
                    let _ = t.width();
                    Ok(DataFrame::Table(t))
                },
                Err(e) => Err(e),
            },
        }
    }

    /// The union of two frames.
    pub fn concat(self, other: Self) -> (r: Result<Self, Error>)
        ensures
            r is Ok,
            r->Ok_0@ == concat_frames(self@, other@),
    {
        match (self, other) {
            (LazyFrame::Empty, LazyFrame::Empty) => Ok(LazyFrame::Empty),
            (LazyFrame::Empty, value) => Ok(value),
            (value, LazyFrame::Empty) => Ok(value),
            (LazyFrame::Table(a), LazyFrame::Table(b)) => Ok(
                LazyFrame::Table(Plan::Concat(Box::new(a), Box::new(b))),
            ),
        }
    }

    /// The column of a name.
    pub fn get_column(&self, name: &str) -> (r: Result<LazySlice, Error>)
        ensures
            self@ is Empty ==> r is Err && r->Err_0@ == ErrorView::EmptyFrame(
                FrameOperation::GetColumn,
            ),
            !(self@ is Empty) ==> r is Ok && r->Ok_0@ == ExprView::Column(name@),
    {
        match self {
            LazyFrame::Empty => Err(Error::EmptyFrame(FrameOperation::GetColumn)),
            LazyFrame::Table(_) => Ok(LazySlice::Table(Expr::Column(name.to_owned()))),
        }
    }

    /// The fully connected edges over the nodes of this frame.
    pub fn fabric(&self, problem: &ProblemSpec<GraphMetadata>) -> (r: Result<Self, Error>)
        ensures
            self@ is Empty ==> r is Err && r->Err_0@ == ErrorView::EmptyFrame(
                FrameOperation::Fabric,
            ),
            self@ matches LazyFrameView::Table(nodes) ==> r is Ok && r->Ok_0@
                == LazyFrameView::Table(fabric_plan(nodes, problem@.metadata)),
    {
        match self {
            LazyFrame::Empty => Err(Error::EmptyFrame(FrameOperation::Fabric)),
            LazyFrame::Table(nodes) => {
                let m = &problem.metadata;
                let src = Plan::EdgeSide {
                    input: Box::new(nodes.clone()),
                    name: m.name.clone(),
                    side: m.src.clone(),
                };
                let sink = Plan::EdgeSide {
                    input: Box::new(nodes.clone()),
                    name: m.name.clone(),
                    side: m.sink.clone(),
                };
                assert(src@ == side_plan(nodes@, m@.name, m@.src));
                assert(sink@ == side_plan(nodes@, m@.name, m@.sink));
                let pairs = Plan::Cross(Box::new(src), Box::new(sink));
                assert(pairs@ == PlanView::Cross(Box::new(src@), Box::new(sink@)));
                let capacity: i64 = 0xffff_ffff;
                let edges = Plan::WithColumn {
                    input: Box::new(pairs),
                    name: m.capacity.clone(),
                    value: Expr::Literal(Value::Int(capacity)),
                };
                assert(edges@ == fabric_plan(nodes@, m@));
                Ok(LazyFrame::Table(edges))
            },
        }
    }

    /// Adds to the plan a column that an expression computes, or fails on the
    /// empty frame in the name of the given operation.
    fn push_step(&mut self, operation: FrameOperation, name: &str, value: Expr) -> (r: Result<
        (),
        Error,
    >)
        ensures
            step_result(
                old(self)@,
                final(self)@,
                r,
                operation,
                |p: PlanView|
                    PlanView::WithColumn { input: Box::new(p), name: name@, value: value@ },
            ),
    {
        let mut taken = LazyFrame::Empty;
        core::mem::swap(self, &mut taken);
        match taken {
            LazyFrame::Empty => Err(Error::EmptyFrame(operation)),
            LazyFrame::Table(p) => {
                *self = LazyFrame::Table(
                    Plan::WithColumn { input: Box::new(p), name: name.to_owned(), value },
                );
                Ok(())
            },
        }
    }

    /// Adds a column that holds the name of a function in every row.
    pub fn alias(&mut self, key: &str, metadata: &FunctionMetadata) -> (r: Result<(), Error>)
        ensures
            step_result(
                old(self)@,
                final(self)@,
                r,
                FrameOperation::Alias,
                |p: PlanView| fill_plan(p, key@, ValueView::Text(metadata.name@)),
            ),
    {
        self.push_step(
            FrameOperation::Alias,
            key,
            Expr::Literal(Value::Text(metadata.name.clone())),
        )
    }

    /// Adds a column, or puts it in the place of the one of its name.
    pub fn insert_column(&mut self, name: &str, column: LazySlice) -> (r: Result<(), Error>)
        ensures
            step_result(
                old(self)@,
                final(self)@,
                r,
                FrameOperation::InsertColumn,
                |p: PlanView|
                    PlanView::WithColumn { input: Box::new(p), name: name@, value: column@ },
            ),
    {
        self.push_step(FrameOperation::InsertColumn, name, column.into_expr())
    }

    /// Keeps the rows for which the filter is true.
    pub fn apply_filter(&mut self, filter: LazySlice) -> (r: Result<(), Error>)
        ensures
            step_result(
                old(self)@,
                final(self)@,
                r,
                FrameOperation::ApplyFilter,
                |p: PlanView| PlanView::Filter { input: Box::new(p), predicate: filter@ },
            ),
    {
        let mut taken = LazyFrame::Empty;
        core::mem::swap(self, &mut taken);
        match taken {
            LazyFrame::Empty => Err(Error::EmptyFrame(FrameOperation::ApplyFilter)),
            LazyFrame::Table(p) => {
                *self = LazyFrame::Table(
                    Plan::Filter { input: Box::new(p), predicate: filter.into_expr() },
                );
                Ok(())
            },
        }
    }

    /// Fills a column with a truth value.
    pub fn fill_column_with_feature(&mut self, name: &str, value: Feature) -> (r: Result<
        (),
        Error,
    >)
        ensures
            step_result(
                old(self)@,
                final(self)@,
                r,
                FrameOperation::FillColumnWithFeature,
                |p: PlanView| fill_plan(p, name@, ValueView::Bool(value.0)),
            ),
    {
        self.push_step(
            FrameOperation::FillColumnWithFeature,
            name,
            Expr::Literal(Value::Bool(value.0)),
        )
    }

    /// Fills a column with a number.
    pub fn fill_column_with_value(&mut self, name: &str, value: Number) -> (r: Result<(), Error>)
        ensures
            step_result(
                old(self)@,
                final(self)@,
                r,
                FrameOperation::FillColumnWithValue,
                |p: PlanView| fill_plan(p, name@, ValueView::Int(value.0 as int)),
            ),
    {
        self.push_step(
            FrameOperation::FillColumnWithValue,
            name,
            Expr::Literal(Value::Int(value.0)),
        )
    }
}

/// A column filled with one value holds that value in every row.
pub proof fn lemma_literal_rows(v: ValueView, t: TableView, n: nat)
    ensures
        eval_rows(ExprView::Literal(v), t, n) == Ok::<Seq<ValueView>, ErrorView>(
            Seq::new(n, |i: int| v),
        ),
    decreases n,
{
    if n == 0 {
        assert(Seq::new(0, |i: int| v) =~= Seq::<ValueView>::empty());
    } else {
        lemma_literal_rows(v, t, (n - 1) as nat);
        assert(Seq::new((n - 1) as nat, |i: int| v).push(v) =~= Seq::new(n, |i: int| v));
    }
}

/// One side of the edges has a row for every node.
pub proof fn lemma_edge_side_height(t: TableView, name: Seq<char>, side: Seq<char>)
    requires
        well_formed(t),
        edge_side(t, name, side) is Ok,
    ensures
        well_formed(edge_side(t, name, side)->Ok_0),
        height(edge_side(t, name, side)->Ok_0) == height(t),
        edge_side(t, name, side)->Ok_0.columns.len() == t.columns.len(),
        t.columns.len() > 0,
{
    let key = column_index(t, name);
    let columns = side_columns(t, key, side);
    lemma_assemble_ok(columns);
    assert(columns[0].values == t.columns[key].values);
}

/// The fully connected edges over `n` nodes are `n * n` rows, and every one
/// of them has the greatest capacity there is.
pub proof fn lemma_fabric_rows(nodes: PlanView, m: GraphMetadataView)
    requires
        eval_plan(nodes) is Ok,
        well_formed(eval_plan(nodes)->Ok_0),
        eval_plan(fabric_plan(nodes, m)) is Ok,
    ensures
        ({
            let n = height(eval_plan(nodes)->Ok_0);
            let edges = eval_plan(fabric_plan(nodes, m))->Ok_0;
            &&& well_formed(edges)
            &&& height(edges) == n * n
            &&& has_column(edges, m.capacity)
            &&& edges.columns[column_index(edges, m.capacity)].values == Seq::new(
                n * n,
                |i: int| ValueView::Int(max_capacity()),
            )
        }),
{
    let t = eval_plan(nodes)->Ok_0;
    let n = height(t);
    let src_plan = side_plan(nodes, m.name, m.src);
    let sink_plan = side_plan(nodes, m.name, m.sink);
    let pairs_plan = PlanView::Cross(Box::new(src_plan), Box::new(sink_plan));
    assert(eval_plan(src_plan) == edge_side(t, m.name, m.src));
    assert(eval_plan(sink_plan) == edge_side(t, m.name, m.sink));
    assert(eval_plan(pairs_plan) is Ok);
    let src = eval_plan(src_plan)->Ok_0;
    let sink = eval_plan(sink_plan)->Ok_0;
    lemma_edge_side_height(t, m.name, m.src);
    lemma_edge_side_height(t, m.name, m.sink);
    let pairs = eval_plan(pairs_plan)->Ok_0;
    assert(eval_plan(pairs_plan) == cross(src, sink));
    lemma_assemble_ok(cross_columns(src, sink));
    assert(pairs.columns[0] == each_cell(src.columns[0], height(sink)));
    assert(height(pairs) == n * n);
    let value = ValueView::Int(max_capacity());
    let filled = Seq::new(n * n, |i: int| value);
    lemma_literal_rows(value, pairs, n * n);
    let fresh = ColumnView { name: m.capacity, values: filled };
    let edges = eval_plan(fabric_plan(nodes, m))->Ok_0;
    assert(eval_plan(fabric_plan(nodes, m)) == with_column(
        pairs,
        m.capacity,
        ExprView::Literal(value),
    ));
    lemma_assemble_ok(put_columns(pairs, fresh));
    assert(edges.columns == put_columns(pairs, fresh));
    if has_column(pairs, m.capacity) {
        let at = column_index(pairs, m.capacity);
        assert(edges.columns[at] == fresh);
        lemma_column_index_unique(edges, m.capacity, at);
        if at != 0 {
            assert(edges.columns[0] == pairs.columns[0]);
        }
    } else {
        let at = pairs.columns.len() as int;
        assert(edges.columns[at] == fresh);
        lemma_column_index_unique(edges, m.capacity, at);
        assert(edges.columns[0] == pairs.columns[0]);
    }
}

/// One side of the edges can be made of every well-formed node table that has
/// the key column, and all its column names begin with the name of the side.
pub proof fn lemma_edge_side_made(t: TableView, name: Seq<char>, side: Seq<char>)
    requires
        well_formed(t),
        has_column(t, name),
    ensures
        edge_side(t, name, side) == Ok::<TableView, ErrorView>(
            TableView { columns: side_columns(t, column_index(t, name), side) },
        ),
        forall|i: int|
            0 <= i < t.columns.len() ==> side.is_prefix_of(
                (#[trigger] side_columns(t, column_index(t, name), side)[i]).name,
            ),
{
    let key = column_index(t, name);
    let columns = side_columns(t, key, side);
    let made = TableView { columns };
    let source = |i: int|
        if i <= key {
            i - 1
        } else {
            i
        };
    assert forall|i: int| 0 <= i < columns.len() implies side.is_prefix_of(
        (#[trigger] columns[i]).name,
    ) by {
        if i > 0 {
            let rest = seq!['.'] + t.columns[source(i)].name;
            assert(columns[i].name =~= side + rest);
            assert(columns[i].name.subrange(0, side.len() as int) =~= side);
        } else {
            assert(columns[i].name.subrange(0, side.len() as int) =~= side);
        }
    }
    assert forall|i: int, j: int|
        0 <= i < columns.len() && 0 <= j < columns.len() && i != j implies (
    #[trigger] made.columns[i]).name != (#[trigger] made.columns[j]).name by {
        if i == 0 || j == 0 {
            assert(columns[i].name.len() != columns[j].name.len());
        } else {
            let x = t.columns[source(i)].name;
            let y = t.columns[source(j)].name;
            assert(t.columns[source(i)].name != t.columns[source(j)].name);
            let lead = side + seq!['.'];
            assert(columns[i].name =~= lead + x);
            assert(columns[j].name =~= lead + y);
            assert((lead + x).skip(lead.len() as int) =~= x);
            assert((lead + y).skip(lead.len() as int) =~= y);
        }
    }
    assert forall|i: int| 0 <= i < columns.len() implies (#[trigger] made.columns[i]).values.len()
        == height(made) by {
        assert(t.columns[key].values.len() == height(t));
        if i > 0 {
            assert(t.columns[source(i)].values.len() == height(t));
        }
    }
    lemma_assemble_well_formed(made);
}

/// Every row of a table can be put beside every row of another where no
/// column of the one has the name of a column of the other, and the rows
/// are not too many.
pub proof fn lemma_cross_made(a: TableView, b: TableView)
    requires
        well_formed(a),
        well_formed(b),
        a.columns.len() > 0,
        b.columns.len() > 0,
        height(a) * height(b) <= usize::MAX,
        forall|i: int, j: int|
            0 <= i < a.columns.len() && 0 <= j < b.columns.len() ==> (#[trigger] a.columns[i]).name
                != (#[trigger] b.columns[j]).name,
    ensures
        cross(a, b) == Ok::<TableView, ErrorView>(TableView { columns: cross_columns(a, b) }),
{
    let columns = cross_columns(a, b);
    let made = TableView { columns };
    let wide = a.columns.len() as int;
    assert(a.columns[0].values.len() == height(a));
    assert(height(made) == height(a) * height(b));
    assert forall|i: int| 0 <= i < columns.len() implies (#[trigger] made.columns[i]).values.len()
        == height(made) by {
        if i < wide {
            assert(a.columns[i].values.len() == height(a));
        } else {
            assert(b.columns[i - wide].values.len() == height(b));
        }
    }
    assert forall|i: int, j: int|
        0 <= i < columns.len() && 0 <= j < columns.len() && i != j implies (
    #[trigger] made.columns[i]).name != (#[trigger] made.columns[j]).name by {
        if i < wide && j < wide {
            assert(a.columns[i].name != a.columns[j].name);
        } else if i >= wide && j >= wide {
            assert(b.columns[i - wide].name != b.columns[j - wide].name);
        } else if i < wide {
            assert(a.columns[i].name != b.columns[j - wide].name);
        } else {
            assert(a.columns[j].name != b.columns[i - wide].name);
        }
    }
    lemma_assemble_well_formed(made);
}

/// The fully connected edges can be made of every well-formed node table
/// that has the key column, where the names of the two sides part ways at
/// some letter and the pairs of nodes are not too many.
pub proof fn lemma_fabric_made(nodes: PlanView, m: GraphMetadataView, parting: int)
    requires
        eval_plan(nodes) is Ok,
        well_formed(eval_plan(nodes)->Ok_0),
        has_column(eval_plan(nodes)->Ok_0, m.name),
        height(eval_plan(nodes)->Ok_0) * height(eval_plan(nodes)->Ok_0) <= usize::MAX,
        0 <= parting < m.src.len(),
        parting < m.sink.len(),
        m.src[parting] != m.sink[parting],
    ensures
        eval_plan(fabric_plan(nodes, m)) is Ok,
{
    let t = eval_plan(nodes)->Ok_0;
    let key = column_index(t, m.name);
    lemma_edge_side_made(t, m.name, m.src);
    lemma_edge_side_made(t, m.name, m.sink);
    let src = TableView { columns: side_columns(t, key, m.src) };
    let sink = TableView { columns: side_columns(t, key, m.sink) };
    let src_plan = side_plan(nodes, m.name, m.src);
    let sink_plan = side_plan(nodes, m.name, m.sink);
    assert(eval_plan(src_plan) == edge_side(t, m.name, m.src));
    assert(eval_plan(sink_plan) == edge_side(t, m.name, m.sink));
    lemma_edge_side_height(t, m.name, m.src);
    lemma_edge_side_height(t, m.name, m.sink);
    assert forall|i: int, j: int|
        0 <= i < src.columns.len() && 0 <= j < sink.columns.len() implies (
    #[trigger] src.columns[i]).name != (#[trigger] sink.columns[j]).name by {
        let a = src.columns[i].name;
        let b = sink.columns[j].name;
        assert(m.src.is_prefix_of(a));
        assert(m.sink.is_prefix_of(b));
        assert(a.subrange(0, m.src.len() as int)[parting] == a[parting]);
        assert(b.subrange(0, m.sink.len() as int)[parting] == b[parting]);
    }
    lemma_cross_made(src, sink);
    let pairs_plan = PlanView::Cross(Box::new(src_plan), Box::new(sink_plan));
    assert(eval_plan(pairs_plan) == cross(src, sink));
    let pairs = TableView { columns: cross_columns(src, sink) };
    lemma_assemble_ok(cross_columns(src, sink));
    let value = ValueView::Int(max_capacity());
    lemma_literal_rows(value, pairs, height(pairs));
    lemma_put_fits(
        pairs,
        ColumnView { name: m.capacity, values: Seq::new(height(pairs), |i: int| value) },
    );
    assert(eval_plan(fabric_plan(nodes, m)) == with_column(
        pairs,
        m.capacity,
        ExprView::Literal(value),
    ));
}

/// Under the standard names the fully connected edges can be made of every
/// well-formed node table with a `name` column, unless the pairs of nodes
/// are too many.
pub proof fn lemma_fabric_standard(nodes: PlanView)
    requires
        eval_plan(nodes) is Ok,
        well_formed(eval_plan(nodes)->Ok_0),
        has_column(eval_plan(nodes)->Ok_0, "name"@),
        height(eval_plan(nodes)->Ok_0) * height(eval_plan(nodes)->Ok_0) <= usize::MAX,
    ensures
        eval_plan(fabric_plan(nodes, standard_metadata())) is Ok,
{
    reveal_strlit("src");
    reveal_strlit("sink");
    lemma_fabric_made(nodes, standard_metadata(), 1);
}

/// The empty frame is the identity of `concat` on both sides.
pub proof fn lemma_concat_identity(g: LazyFrameView)
    ensures
        concat_frames(LazyFrameView::Empty, g) == g,
        concat_frames(g, LazyFrameView::Empty) == g,
        concat_frames(LazyFrameView::Empty, LazyFrameView::Empty) == LazyFrameView::Empty,
{
}

} // verus!
