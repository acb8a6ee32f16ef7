//! Materialized tables: named columns of values, all of one height.

use crate::error::{agrees, Error, ErrorView};
use crate::text::same_str;
use vstd::prelude::*;

verus! {

/// One cell of a table.
#[derive(Debug, PartialEq, Eq)]
pub enum Value {
    Int(i64),
    Bool(bool),
    Text(String),
}

/// A cell as a mathematical value.
pub ghost enum ValueView {
    Int(int),
    Bool(bool),
    Text(Seq<char>),
}

impl View for Value {
    type V = ValueView;

    open spec fn view(&self) -> ValueView {
        match *self {
            Value::Int(i) => ValueView::Int(i as int),
            Value::Bool(b) => ValueView::Bool(b),
            Value::Text(s) => ValueView::Text(s@),
        }
    }
}

impl Clone for Value {
    fn clone(&self) -> (copy: Self)
        ensures
            copy@ == self@,
    {
        match self {
            Value::Int(i) => Value::Int(*i),
            Value::Bool(b) => Value::Bool(*b),
            Value::Text(s) => Value::Text(s.clone()),
        }
    }
}

impl Value {
    /// Whether two cells hold the same value.
    pub fn same(&self, other: &Value) -> (b: bool)
        ensures
            b == (self@ == other@),
    {
        match (self, other) {
            (Value::Int(a), Value::Int(b)) => *a == *b,
            (Value::Bool(a), Value::Bool(b)) => *a == *b,
            (Value::Text(a), Value::Text(b)) => *a == *b,
            _ => false,
        }
    }
}

/// The cells of a column as mathematical values.
pub open spec fn values_view(cells: Seq<Value>) -> Seq<ValueView> {
    cells.map_values(|v: Value| v@)
}

/// Copies a list of cells.
pub fn clone_values(cells: &Vec<Value>) -> (copy: Vec<Value>)
    ensures
        values_view(copy@) == values_view(cells@),
{
    let mut copy: Vec<Value> = Vec::new();
    let mut i: usize = 0;
    while i < cells.len()
        invariant
            i <= cells.len(),
            copy.len() == i,
            forall|j: int| 0 <= j < i ==> copy@[j]@ == cells@[j]@,
        decreases cells.len() - i,
    {
        copy.push(cells[i].clone());
        i = i + 1;
    }
    assert(values_view(copy@) =~= values_view(cells@));
    copy
}

/// A named column.
#[derive(Debug, PartialEq, Eq)]
pub struct Column {
    pub name: String,
    pub values: Vec<Value>,
}

/// A column as a mathematical value.
pub ghost struct ColumnView {
    pub name: Seq<char>,
    pub values: Seq<ValueView>,
}

impl View for Column {
    type V = ColumnView;

    open spec fn view(&self) -> ColumnView {
        ColumnView { name: self.name@, values: values_view(self.values@) }
    }
}

impl Clone for Column {
    fn clone(&self) -> (copy: Self)
        ensures
            copy@ == self@,
    {
        Column { name: self.name.clone(), values: clone_values(&self.values) }
    }
}

/// The columns of a table as mathematical values.
pub open spec fn columns_view(columns: Seq<Column>) -> Seq<ColumnView> {
    columns.map_values(|c: Column| c@)
}

/// A table as a mathematical value: its columns, left to right.
pub ghost struct TableView {
    pub columns: Seq<ColumnView>,
}

/// The number of rows: the length of the first column, or none without one.
pub open spec fn height(t: TableView) -> nat {
    if t.columns.len() == 0 {
        0
    } else {
        t.columns[0].values.len()
    }
}

/// Whether the table has a column of this name.
pub open spec fn has_column(t: TableView, name: Seq<char>) -> bool {
    exists|i: int| 0 <= i < t.columns.len() && (#[trigger] t.columns[i]).name == name
}

/// The position of the column of this name, where the table has one.
pub open spec fn column_index(t: TableView, name: Seq<char>) -> int {
    choose|i: int| 0 <= i < t.columns.len() && (#[trigger] t.columns[i]).name == name
}

/// Every column has as many cells as the table has rows, and no two columns
/// share a name.
pub open spec fn well_formed(t: TableView) -> bool {
    &&& forall|i: int|
        0 <= i < t.columns.len() ==> (#[trigger] t.columns[i]).values.len() == height(t)
    &&& forall|i: int, j: int|
        0 <= i < t.columns.len() && 0 <= j < t.columns.len() && i != j ==> (
        #[trigger] t.columns[i]).name != (#[trigger] t.columns[j]).name
}

/// A table with one more column on the right. The first column decides the
/// height; every other one must have it, under a name that is not yet taken.
pub open spec fn add_column(t: TableView, c: ColumnView) -> Result<TableView, ErrorView> {
    if has_column(t, c.name) {
        Err(ErrorView::DuplicateColumn(c.name))
    } else if t.columns.len() > 0 && c.values.len() != height(t) {
        Err(ErrorView::ShapeMismatch)
    } else {
        Ok(TableView { columns: t.columns.push(c) })
    }
}

/// The table that a list of columns makes, added one by one from the left.
pub open spec fn assemble(columns: Seq<ColumnView>) -> Result<TableView, ErrorView>
    decreases columns.len(),
{
    if columns.len() == 0 {
        Ok(TableView { columns: Seq::empty() })
    } else {
        match assemble(columns.drop_last()) {
            Err(e) => Err(e),
            Ok(t) => add_column(t, columns.last()),
        }
    }
}

/// What `assemble` accepts is a well-formed table of exactly those columns.
pub proof fn lemma_assemble_ok(columns: Seq<ColumnView>)
    ensures
        assemble(columns) is Ok ==> assemble(columns)->Ok_0.columns == columns && well_formed(
            assemble(columns)->Ok_0,
        ),
    decreases columns.len(),
{
    if columns.len() > 0 {
        lemma_assemble_ok(columns.drop_last());
        if assemble(columns) is Ok {
            let before = assemble(columns.drop_last())->Ok_0;
            let after = assemble(columns)->Ok_0;
            assert(after.columns =~= columns);
            assert forall|i: int, j: int|
                0 <= i < after.columns.len() && 0 <= j < after.columns.len() && i != j implies (
            #[trigger] after.columns[i]).name != (#[trigger] after.columns[j]).name by {
                if i < before.columns.len() && j < before.columns.len() {
                    assert(before.columns[i].name != before.columns[j].name);
                } else if i < before.columns.len() {
                    assert(before.columns[i].name != columns.last().name);
                } else {
                    assert(before.columns[j].name != columns.last().name);
                }
            }
            assert forall|i: int| 0 <= i < after.columns.len() implies (
            #[trigger] after.columns[i]).values.len() == height(after) by {
                if i < before.columns.len() {
                    assert(before.columns[i].values.len() == height(before));
                }
            }
        }
    }
}

/// `assemble` accepts the columns of every well-formed table.
pub proof fn lemma_assemble_well_formed(t: TableView)
    requires
        well_formed(t),
    ensures
        assemble(t.columns) == Ok::<TableView, ErrorView>(t),
    decreases t.columns.len(),
{
    if t.columns.len() == 0 {
        assert(t.columns =~= Seq::empty());
    } else {
        let before = TableView { columns: t.columns.drop_last() };
        assert forall|i: int| 0 <= i < before.columns.len() implies (
        #[trigger] before.columns[i]).values.len() == height(before) by {
            assert(before.columns[i] == t.columns[i]);
            assert(before.columns[0] == t.columns[0]);
        }
        assert forall|i: int, j: int|
            0 <= i < before.columns.len() && 0 <= j < before.columns.len() && i != j implies (
        #[trigger] before.columns[i]).name != (#[trigger] before.columns[j]).name by {
            assert(before.columns[i] == t.columns[i]);
            assert(before.columns[j] == t.columns[j]);
        }
        lemma_assemble_well_formed(before);
        let last = t.columns.last();
        if has_column(before, last.name) {
            let k = column_index(before, last.name);
            assert(before.columns[k] == t.columns[k]);
            assert(t.columns[k].name != t.columns[t.columns.len() - 1].name);
        }
        if before.columns.len() > 0 {
            assert(before.columns[0] == t.columns[0]);
            assert(t.columns[t.columns.len() - 1].values.len() == height(t));
        }
        assert(before.columns.push(last) =~= t.columns);
    }
}

/// Once a list of columns is refused, no longer list is accepted: the failure
/// stays the same.
pub proof fn lemma_assemble_failure_stays(columns: Seq<ColumnView>, n: int)
    requires
        0 <= n <= columns.len(),
        assemble(columns.take(n)) is Err,
    ensures
        assemble(columns) == assemble(columns.take(n)),
    decreases columns.len(),
{
    if n == columns.len() {
        assert(columns.take(n) =~= columns);
    } else {
        assert(columns.drop_last().take(n) =~= columns.take(n));
        lemma_assemble_failure_stays(columns.drop_last(), n);
    }
}

/// In a well-formed table a name belongs to one column only.
pub proof fn lemma_column_index_unique(t: TableView, name: Seq<char>, i: int)
    requires
        well_formed(t),
        0 <= i < t.columns.len(),
        t.columns[i].name == name,
    ensures
        has_column(t, name),
        column_index(t, name) == i,
{
    let j = column_index(t, name);
    assert(0 <= j < t.columns.len() && t.columns[j].name == name);
}

/// A materialized table.
#[derive(Debug, PartialEq, Eq)]
pub struct Table {
    columns: Vec<Column>,
}

impl View for Table {
    type V = TableView;

    closed spec fn view(&self) -> TableView {
        TableView { columns: columns_view(self.columns@) }
    }
}

impl Table {
    /// Every table that there is is well-formed.
    #[verifier::type_invariant]
    spec fn rectangular(self) -> bool {
        well_formed(self@)
    }

    /// The table without columns.
    pub fn new() -> (t: Table)
        ensures
            t@ == (TableView { columns: Seq::empty() }),
    {
        let t = Table { columns: Vec::new() };
        assert(t@.columns =~= Seq::empty());
        t
    }

    /// A table of the given columns.
    pub fn from_columns(columns: Vec<Column>) -> (t: Table)
        requires
            well_formed(TableView { columns: columns_view(columns@) }),
        ensures
            t@.columns == columns_view(columns@),
    {
        Table { columns }
    }

    /// The number of columns. Every table is well-formed.
    pub fn width(&self) -> (n: usize)
        ensures
            n == self@.columns.len(),
            well_formed(self@),
    {
        proof {
            use_type_invariant(self);
        }
        self.columns.len()
    }

    /// The number of rows. Every table is well-formed.
    pub fn height(&self) -> (n: usize)
        ensures
            n == height(self@),
            well_formed(self@),
    {
        proof {
            use_type_invariant(self);
        }
        if self.columns.len() == 0 {
            0
        } else {
            assert(self@.columns[0] == self.columns@[0]@);
            self.columns[0].values.len()
        }
    }

    /// The column at a position.
    pub fn column_at(&self, i: usize) -> (c: &Column)
        requires
            i < self@.columns.len(),
        ensures
            c@ == self@.columns[i as int],
            c.values@.len() == height(self@),
    {
        proof {
            use_type_invariant(self);
            assert(self@.columns[i as int] == self.columns@[i as int]@);
            assert(self.columns@[i as int]@.values.len() == self.columns@[i as int].values@.len());
        }
        &self.columns[i]
    }

    /// The position of the column of a name.
    pub fn find(&self, name: &str) -> (found: Option<usize>)
        ensures
            found is Some == has_column(self@, name@),
            found is Some ==> found->0 == column_index(self@, name@),
            found is Some ==> found->0 < self@.columns.len(),
    {
        proof {
            use_type_invariant(self);
        }
        let mut i: usize = 0;
        while i < self.columns.len()
            invariant
                i <= self.columns.len(),
                well_formed(self@),
                forall|j: int| 0 <= j < i ==> (#[trigger] self@.columns[j]).name != name@,
            decreases self.columns.len() - i,
        {
            assert(self@.columns[i as int] == self.columns@[i as int]@);
            if same_str(self.columns[i].name.as_str(), name) {
                proof {
                    lemma_column_index_unique(self@, name@, i as int);
                }
                return Some(i);
            }
            i = i + 1;
        }
        None
    }

    /// The column of a name.
    pub fn column(&self, name: &str) -> (c: Option<&Column>)
        ensures
            c is Some == has_column(self@, name@),
            c is Some ==> c->0@ == self@.columns[column_index(self@, name@)],
            c is Some ==> c->0.values@.len() == height(self@),
    {
        match self.find(name) {
            Some(i) => Some(self.column_at(i)),
            None => None,
        }
    }

    /// The table with one more column on the right, where the name is free
    /// and the height fits.
    pub fn with_column(self, column: Column) -> (r: Result<Table, Error>)
        ensures
            agrees(r, add_column(self@, column@)),
    {
        proof {
            use_type_invariant(&self);
        }
        if self.find(column.name.as_str()).is_some() {
            return Err(Error::DuplicateColumn(column.name));
        }
        if self.columns.len() > 0 && column.values.len() != self.height() {
            return Err(Error::ShapeMismatch);
        }
        let ghost before = self@;
        let mut columns = self.columns;
        columns.push(column);
        let ghost after = TableView { columns: columns_view(columns@) };
        proof {
            assert(after.columns =~= before.columns.push(column@));
            assert(height(after) == if before.columns.len() == 0 {
                column@.values.len()
            } else {
                height(before)
            });
            assert forall|i: int, j: int|
                0 <= i < after.columns.len() && 0 <= j < after.columns.len() && i != j implies (
            #[trigger] after.columns[i]).name != (#[trigger] after.columns[j]).name by {
                if i < before.columns.len() && j < before.columns.len() {
                    assert(before.columns[i].name != before.columns[j].name);
                } else if i < before.columns.len() {
                    assert(before.columns[i].name != column@.name);
                } else {
                    assert(before.columns[j].name != column@.name);
                }
            }
        }
        Ok(Table { columns })
    }
}

impl Clone for Table {
    fn clone(&self) -> (copy: Self)
        ensures
            copy@ == self@,
    {
        proof {
            use_type_invariant(self);
        }
        let mut columns: Vec<Column> = Vec::new();
        let mut i: usize = 0;
        while i < self.columns.len()
            invariant
                i <= self.columns.len(),
                columns.len() == i,
                forall|j: int| 0 <= j < i ==> columns@[j]@ == self.columns@[j]@,
            decreases self.columns.len() - i,
        {
            columns.push(self.columns[i].clone());
            i = i + 1;
        }
        assert(columns_view(columns@) =~= columns_view(self.columns@));
        Table { columns }
    }
}

} // verus!
