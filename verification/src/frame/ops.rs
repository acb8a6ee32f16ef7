//! The operations on tables that plans are made of.

use crate::error::{agrees, Error, ErrorView};
use crate::frame::expr::{eval_column, Expr, ExprView};
use crate::frame::table::{
    add_column, assemble, clone_values, column_index, has_column, height,
    lemma_assemble_failure_stays, lemma_assemble_ok, lemma_assemble_well_formed, values_view,
    well_formed, Column, ColumnView, Table, TableView,
    Value, ValueView,
};
use crate::text::same_str;
use vstd::arithmetic::div_mod::{
    lemma_div_pos_is_pos, lemma_fundamental_div_mod_converse, lemma_mod_bound,
    lemma_multiply_divide_lt,
};
use vstd::prelude::*;
use vstd::string::*;

verus! {

/// Adding the next column of a list to what its earlier columns made is what
/// `assemble` does.
pub proof fn lemma_assemble_step(columns: Seq<ColumnView>, i: int, so_far: TableView)
    requires
        0 <= i < columns.len(),
        assemble(columns.take(i)) == Ok::<TableView, ErrorView>(so_far),
    ensures
        assemble(columns.take(i + 1)) == add_column(so_far, columns[i]),
{
    assert(columns.take(i + 1).drop_last() =~= columns.take(i));
    assert(columns.take(i + 1).last() == columns[i]);
}

/// Appends copies of `more` to `out`.
fn append_values(out: &mut Vec<Value>, more: &Vec<Value>)
    ensures
        values_view(final(out)@) == values_view(old(out)@) + values_view(more@),
{
    let ghost before = out@;
    let mut i: usize = 0;
    while i < more.len()
        invariant
            i <= more.len(),
            out@.len() == before.len() + i,
            forall|j: int| 0 <= j < before.len() ==> out@[j] == before[j],
            forall|j: int| 0 <= j < i ==> out@[before.len() + j]@ == more@[j]@,
        decreases more.len() - i,
    {
        out.push(more[i].clone());
        i = i + 1;
    }
    assert(values_view(out@) =~= values_view(before) + values_view(more@));
}

/// Adds one column to a table under assembly and says how the assembly of
/// the whole list of columns stands after it.
fn extend(so_far: Table, column: Column, Ghost(columns): Ghost<Seq<ColumnView>>, i: usize) -> (r:
    Result<Table, Error>)
    requires
        i < columns.len(),
        assemble(columns.take(i as int)) == Ok::<TableView, ErrorView>(so_far@),
        column@ == columns[i as int],
    ensures
        r is Ok ==> assemble(columns.take(i + 1)) == Ok::<TableView, ErrorView>(r->Ok_0@),
        r is Err ==> agrees(r, assemble(columns)),
{
    proof {
        lemma_assemble_step(columns, i as int, so_far@);
    }
    let r = so_far.with_column(column);
    proof {
        if r is Err {
            lemma_assemble_failure_stays(columns, i + 1);
        }
    }
    r
}

/// Two tables have the same column names in the same order.
pub open spec fn same_names(a: TableView, b: TableView) -> bool {
    &&& a.columns.len() == b.columns.len()
    &&& forall|i: int|
        0 <= i < a.columns.len() ==> (#[trigger] a.columns[i]).name == b.columns[i].name
}

/// The columns of `a` with those of `b` below them.
pub open spec fn stacked_columns(a: TableView, b: TableView) -> Seq<ColumnView> {
    Seq::new(
        a.columns.len(),
        |i: int|
            ColumnView {
                name: a.columns[i].name,
                values: a.columns[i].values + b.columns[i].values,
            },
    )
}

/// The rows of `a` followed by the rows of `b`, where both have the same
/// columns.
pub open spec fn stack(a: TableView, b: TableView) -> Result<TableView, ErrorView> {
    if same_names(a, b) {
        assemble(stacked_columns(a, b))
    } else {
        Err(ErrorView::ShapeMismatch)
    }
}

/// Stacking is associative: three tables that can be stacked pair by pair
/// make the same table whichever pair is stacked first.
pub proof fn lemma_stack_associative(a: TableView, b: TableView, c: TableView)
    requires
        stack(a, b) is Ok,
        stack(b, c) is Ok,
    ensures
        stack(stack(a, b)->Ok_0, c) == stack(a, stack(b, c)->Ok_0),
{
    let ab = stack(a, b)->Ok_0;
    let bc = stack(b, c)->Ok_0;
    lemma_assemble_ok(stacked_columns(a, b));
    lemma_assemble_ok(stacked_columns(b, c));
    assert(same_names(ab, c) == same_names(a, bc)) by {
        if same_names(ab, c) {
            assert forall|i: int| 0 <= i < a.columns.len() implies (#[trigger] a.columns[i]).name
                == bc.columns[i].name by {
                assert(ab.columns[i].name == c.columns[i].name);
                assert(b.columns[i].name == bc.columns[i].name);
            }
        }
        if same_names(a, bc) {
            assert forall|i: int| 0 <= i < ab.columns.len() implies (
            #[trigger] ab.columns[i]).name == c.columns[i].name by {
                assert(a.columns[i].name == bc.columns[i].name);
                assert(b.columns[i].name == c.columns[i].name);
            }
        }
    }
    if same_names(ab, c) {
        assert forall|i: int| 0 <= i < a.columns.len() implies stacked_columns(ab, c)[i]
            == stacked_columns(a, bc)[i] by {
            assert((a.columns[i].values + b.columns[i].values) + c.columns[i].values
                =~= a.columns[i].values + (b.columns[i].values + c.columns[i].values));
        }
        assert(stacked_columns(ab, c) =~= stacked_columns(a, bc));
    }
}

/// Puts the rows of `b` below the rows of `a`.
pub fn stack_tables(a: &Table, b: &Table) -> (r: Result<Table, Error>)
    ensures
        agrees(r, stack(a@, b@)),
{
    let n = a.width();
    if n != b.width() {
        return Err(Error::ShapeMismatch);
    }
    let mut i: usize = 0;
    while i < n
        invariant
            i <= n,
            n == a@.columns.len(),
            n == b@.columns.len(),
            forall|j: int| 0 <= j < i ==> (#[trigger] a@.columns[j]).name == b@.columns[j].name,
        decreases n - i,
    {
        if !same_str(a.column_at(i).name.as_str(), b.column_at(i).name.as_str()) {
            return Err(Error::ShapeMismatch);
        }
        i = i + 1;
    }
    let ghost columns = stacked_columns(a@, b@);
    let mut out = Table::new();
    assert(columns.take(0) =~= Seq::empty());
    let mut i: usize = 0;
    while i < n
        invariant
            i <= n,
            n == a@.columns.len(),
            n == b@.columns.len(),
            same_names(a@, b@),
            columns == stacked_columns(a@, b@),
            assemble(columns.take(i as int)) == Ok::<TableView, ErrorView>(out@),
        decreases n - i,
    {
        let upper = a.column_at(i);
        let lower = b.column_at(i);
        let mut values = clone_values(&upper.values);
        append_values(&mut values, &lower.values);
        let column = Column { name: upper.name.clone(), values };
        match extend(out, column, Ghost(columns), i) {
            Err(e) => {
                return Err(e);
            },
            Ok(t) => {
                out = t;
            },
        }
        i = i + 1;
    }
    assert(columns.take(n as int) =~= columns);
    Ok(out)
}

/// A column under the name of a side: the side, a dot, the column's name.
pub open spec fn prefixed(side: Seq<char>, c: ColumnView) -> ColumnView {
    ColumnView { name: side + seq!['.'] + c.name, values: c.values }
}

/// The columns of one side of an edge: first the key column, which is the
/// column at `key` under the side's name, then every other column in its
/// order, under the side's name as a prefix.
pub open spec fn side_columns(t: TableView, key: int, side: Seq<char>) -> Seq<ColumnView> {
    Seq::new(
        t.columns.len(),
        |i: int|
            if i == 0 {
                ColumnView { name: side, values: t.columns[key].values }
            } else if i <= key {
                prefixed(side, t.columns[i - 1])
            } else {
                prefixed(side, t.columns[i])
            },
    )
}

/// A node table seen as one side of the edges: the column `name` becomes the
/// key of the side, and the other columns describe that side.
pub open spec fn edge_side(t: TableView, name: Seq<char>, side: Seq<char>) -> Result<
    TableView,
    ErrorView,
> {
    if has_column(t, name) {
        assemble(side_columns(t, column_index(t, name), side))
    } else {
        Err(ErrorView::MissingColumn(name))
    }
}

/// Renames the columns of a node table for one side of the edges.
pub fn edge_side_of(t: &Table, name: &str, side: &str) -> (r: Result<Table, Error>)
    ensures
        agrees(r, edge_side(t@, name@, side@)),
{
    let key = match t.find(name) {
        Some(key) => key,
        None => {
            return Err(Error::MissingColumn(name.to_owned()));
        },
    };
    let n = t.width();
    let ghost columns = side_columns(t@, key as int, side@);
    let mut out = Table::new();
    assert(columns.take(0) =~= Seq::empty());
    let mut i: usize = 0;
    while i < n
        invariant
            i <= n,
            key < n,
            n == t@.columns.len(),
            has_column(t@, name@),
            key == column_index(t@, name@),
            columns == side_columns(t@, key as int, side@),
            assemble(columns.take(i as int)) == Ok::<TableView, ErrorView>(out@),
        decreases n - i,
    {
        let column = if i == 0 {
            Column { name: side.to_owned(), values: clone_values(&t.column_at(key).values) }
        } else {
            let source = if i <= key {
                t.column_at(i - 1)
            } else {
                t.column_at(i)
            };
            let mut label = side.to_owned();
            proof {
                reveal_strlit(".");
            }
            label.append(".");
            label.append(source.name.as_str());
            assert(label@ =~= side@ + seq!['.'] + source@.name);
            Column { name: label, values: clone_values(&source.values) }
        };
        match extend(out, column, Ghost(columns), i) {
            Err(e) => {
                return Err(e);
            },
            Ok(t) => {
                out = t;
            },
        }
        i = i + 1;
    }
    assert(columns.take(n as int) =~= columns);
    Ok(out)
}

/// A column in which every cell stands `times` times in a row.
pub open spec fn each_cell(c: ColumnView, times: nat) -> ColumnView {
    ColumnView {
        name: c.name,
        values: Seq::new(c.values.len() * times, |r: int| c.values[r / (times as int)]),
    }
}

/// A column that is gone through `times` times.
pub open spec fn whole_column(c: ColumnView, times: nat) -> ColumnView {
    ColumnView {
        name: c.name,
        values: Seq::new(times * c.values.len(), |r: int| c.values[r % (c.values.len() as int)]),
    }
}

/// The columns of `a`, each cell once for every row of `b`, and then the
/// columns of `b`, gone through once for every row of `a`.
pub open spec fn cross_columns(a: TableView, b: TableView) -> Seq<ColumnView> {
    Seq::new(
        a.columns.len() + b.columns.len(),
        |i: int|
            if i < a.columns.len() {
                each_cell(a.columns[i], height(b))
            } else {
                whole_column(b.columns[i - a.columns.len()], height(a))
            },
    )
}

/// Every row of `a` beside every row of `b`: the rows of `a` in their order,
/// and for each of them the rows of `b` in theirs. It fails where the result
/// would have more rows than can be addressed, or a name twice.
pub open spec fn cross(a: TableView, b: TableView) -> Result<TableView, ErrorView> {
    if height(a) * height(b) > usize::MAX {
        Err(ErrorView::TooLarge)
    } else {
        assemble(cross_columns(a, b))
    }
}

/// The column with every cell `times` times in a row.
fn repeat_each(c: &Column, times: usize) -> (out: Column)
    requires
        c.values@.len() * times <= usize::MAX,
    ensures
        out@ == each_cell(c@, times as nat),
{
    let n = c.values.len();
    let mut values: Vec<Value> = Vec::new();
    let mut i: usize = 0;
    while i < n
        invariant
            i <= n,
            n == c.values@.len(),
            n * times <= usize::MAX,
            values@.len() == i * times,
            forall|r: int| 0 <= r < values@.len() ==> values@[r]@ == c.values@[r / (times as int)]@,
        decreases n - i,
    {
        let mut j: usize = 0;
        while j < times
            invariant
                i < n,
                j <= times,
                n == c.values@.len(),
                n * times <= usize::MAX,
                values@.len() == i * times + j,
                forall|r: int|
                    0 <= r < values@.len() ==> values@[r]@ == c.values@[r / (times as int)]@,
            decreases times - j,
        {
            proof {
                lemma_fundamental_div_mod_converse(
                    i * times + j,
                    times as int,
                    i as int,
                    j as int,
                );
                assert(i * times + j < n * times) by (nonlinear_arith)
                    requires
                        i < n,
                        j < times,
                ;
            }
            values.push(c.values[i].clone());
            j = j + 1;
        }
        assert((i + 1) * times == i * times + times) by (nonlinear_arith);
        i = i + 1;
    }
    let out = Column { name: c.name.clone(), values };
    proof {
        let want = each_cell(c@, times as nat).values;
        assert(out@.values.len() == want.len());
        assert forall|r: int| 0 <= r < want.len() implies out@.values[r] == want[r] by {
            assert(r < times * n) by (nonlinear_arith)
                requires
                    r < n * times,
            ;
            lemma_multiply_divide_lt(r, times as int, n as int);
            lemma_div_pos_is_pos(r, times as int);
            assert(values@[r]@ == c.values@[r / (times as int)]@);
        }
        assert(out@.values =~= want);
    }
    out
}

/// The column gone through `times` times.
fn repeat_whole(c: &Column, times: usize) -> (out: Column)
    requires
        times * c.values@.len() <= usize::MAX,
    ensures
        out@ == whole_column(c@, times as nat),
{
    let n = c.values.len();
    let mut values: Vec<Value> = Vec::new();
    let mut i: usize = 0;
    while i < times
        invariant
            i <= times,
            n == c.values@.len(),
            times * n <= usize::MAX,
            values@.len() == i * n,
            forall|r: int| 0 <= r < values@.len() ==> values@[r]@ == c.values@[r % (n as int)]@,
        decreases times - i,
    {
        let mut j: usize = 0;
        while j < n
            invariant
                i < times,
                j <= n,
                n == c.values@.len(),
                times * n <= usize::MAX,
                values@.len() == i * n + j,
                forall|r: int|
                    0 <= r < values@.len() ==> values@[r]@ == c.values@[r % (n as int)]@,
            decreases n - j,
        {
            proof {
                lemma_fundamental_div_mod_converse(i * n + j, n as int, i as int, j as int);
                assert(i * n + j < times * n) by (nonlinear_arith)
                    requires
                        i < times,
                        j < n,
                ;
            }
            values.push(c.values[j].clone());
            j = j + 1;
        }
        assert((i + 1) * n == i * n + n) by (nonlinear_arith);
        i = i + 1;
    }
    let out = Column { name: c.name.clone(), values };
    proof {
        let want = whole_column(c@, times as nat).values;
        assert(out@.values.len() == want.len());
        assert forall|r: int| 0 <= r < want.len() implies out@.values[r] == want[r] by {
            if n > 0 {
                lemma_mod_bound(r, n as int);
            }
            assert(values@[r]@ == c.values@[r % (n as int)]@);
        }
        assert(out@.values =~= want);
    }
    out
}

/// Puts every row of `a` beside every row of `b`.
pub fn cross_tables(a: &Table, b: &Table) -> (r: Result<Table, Error>)
    ensures
        agrees(r, cross(a@, b@)),
{
    let rows_a = a.height();
    let rows_b = b.height();
    if rows_a.checked_mul(rows_b).is_none() {
        return Err(Error::TooLarge);
    }
    let wa = a.width();
    let wb = b.width();
    let ghost columns = cross_columns(a@, b@);
    let mut out = Table::new();
    assert(columns.take(0) =~= Seq::empty());
    let mut i: usize = 0;
    while i < wa
        invariant
            i <= wa,
            wa == a@.columns.len(),
            rows_a == height(a@),
            rows_b == height(b@),
            rows_a * rows_b <= usize::MAX,
            columns == cross_columns(a@, b@),
            assemble(columns.take(i as int)) == Ok::<TableView, ErrorView>(out@),
        decreases wa - i,
    {
        let column = repeat_each(a.column_at(i), rows_b);
        match extend(out, column, Ghost(columns), i) {
            Err(e) => {
                return Err(e);
            },
            Ok(t) => {
                out = t;
            },
        }
        i = i + 1;
    }
    let mut j: usize = 0;
    while j < wb
        invariant
            j <= wb,
            wa == a@.columns.len(),
            wb == b@.columns.len(),
            rows_a == height(a@),
            rows_b == height(b@),
            rows_a * rows_b <= usize::MAX,
            columns == cross_columns(a@, b@),
            assemble(columns.take(wa + j)) == Ok::<TableView, ErrorView>(out@),
        decreases wb - j,
    {
        let column = repeat_whole(b.column_at(j), rows_a);
        proof {
            lemma_assemble_ok(columns.take(wa + j));
        }
        let at = out.width();
        match extend(out, column, Ghost(columns), at) {
            Err(e) => {
                return Err(e);
            },
            Ok(t) => {
                out = t;
            },
        }
        j = j + 1;
    }
    assert(columns.take(wa + wb) =~= columns);
    Ok(out)
}

/// The columns of a table after a column is put into it: in the place of the
/// column of the same name where there is one, on the right where there is
/// none.
pub open spec fn put_columns(t: TableView, c: ColumnView) -> Seq<ColumnView> {
    if has_column(t, c.name) {
        t.columns.update(column_index(t, c.name), c)
    } else {
        t.columns.push(c)
    }
}

/// A table with the column that an expression computes over it, under the
/// given name.
pub open spec fn with_column(t: TableView, name: Seq<char>, e: ExprView) -> Result<
    TableView,
    ErrorView,
> {
    match eval_column(e, t) {
        Err(e) => Err(e),
        Ok(values) => assemble(put_columns(t, ColumnView { name, values })),
    }
}

/// Computes a column over a table and puts it into the table.
pub fn with_column_of(t: &Table, name: &str, e: &Expr) -> (r: Result<Table, Error>)
    ensures
        agrees(r, with_column(t@, name@, e@)),
{
    let values = match e.eval_all(t) {
        Err(e) => {
            return Err(e);
        },
        Ok(values) => values,
    };
    put_column(t, Column { name: name.to_owned(), values })
}

/// A table with a column put into it takes the column where it has as many
/// cells as the table has rows.
pub proof fn lemma_put_fits(t: TableView, c: ColumnView)
    requires
        well_formed(t),
        t.columns.len() > 0,
        c.values.len() == height(t),
    ensures
        assemble(put_columns(t, c)) == Ok::<TableView, ErrorView>(
            TableView { columns: put_columns(t, c) },
        ),
        height(TableView { columns: put_columns(t, c) }) == height(t),
{
    let after = TableView { columns: put_columns(t, c) };
    if has_column(t, c.name) {
        let at = column_index(t, c.name);
        assert forall|i: int, j: int|
            0 <= i < after.columns.len() && 0 <= j < after.columns.len() && i != j implies (
        #[trigger] after.columns[i]).name != (#[trigger] after.columns[j]).name by {
            assert(t.columns[i].name != t.columns[j].name);
        }
        assert forall|i: int| 0 <= i < after.columns.len() implies (
        #[trigger] after.columns[i]).values.len() == height(after) by {
            assert(t.columns[i].values.len() == height(t));
            assert(t.columns[0].values.len() == height(t));
        }
    } else {
        assert forall|i: int, j: int|
            0 <= i < after.columns.len() && 0 <= j < after.columns.len() && i != j implies (
        #[trigger] after.columns[i]).name != (#[trigger] after.columns[j]).name by {
            if i < t.columns.len() && j < t.columns.len() {
                assert(t.columns[i].name != t.columns[j].name);
            } else if i < t.columns.len() {
                assert(t.columns[i].name != c.name);
            } else {
                assert(t.columns[j].name != c.name);
            }
        }
        assert forall|i: int| 0 <= i < after.columns.len() implies (
        #[trigger] after.columns[i]).values.len() == height(after) by {
            assert(t.columns[0].values.len() == height(t));
            if i < t.columns.len() {
                assert(t.columns[i].values.len() == height(t));
            }
        }
    }
    lemma_assemble_well_formed(after);
}

/// Puts a column into a table: in the place of the column of its name, or
/// on the right.
pub fn put_column(t: &Table, fresh: Column) -> (r: Result<Table, Error>)
    ensures
        agrees(r, assemble(put_columns(t@, fresh@))),
{
    let place = t.find(fresh.name.as_str());
    let n = t.width();
    let ghost columns = put_columns(t@, fresh@);
    let mut out = Table::new();
    assert(columns.take(0) =~= Seq::empty());
    let mut i: usize = 0;
    while i < n
        invariant
            i <= n,
            n == t@.columns.len(),
            place is Some == has_column(t@, fresh@.name),
            place is Some ==> place->0 == column_index(t@, fresh@.name) && place->0 < n,
            columns == put_columns(t@, fresh@),
            assemble(columns.take(i as int)) == Ok::<TableView, ErrorView>(out@),
        decreases n - i,
    {
        let column = if place == Some(i) {
            fresh.clone()
        } else {
            t.column_at(i).clone()
        };
        match extend(out, column, Ghost(columns), i) {
            Err(e) => {
                return Err(e);
            },
            Ok(t) => {
                out = t;
            },
        }
        i = i + 1;
    }
    if place.is_none() {
        match extend(out, fresh, Ghost(columns), n) {
            Err(e) => {
                return Err(e);
            },
            Ok(t) => {
                out = t;
            },
        }
        assert(columns.take(n + 1) =~= columns);
    } else {
        assert(columns.take(n as int) =~= columns);
    }
    Ok(out)
}

/// Whether every cell of a column is a truth value.
pub open spec fn all_truth(mask: Seq<ValueView>) -> bool {
    forall|i: int| 0 <= i < mask.len() ==> (#[trigger] mask[i]) is Bool
}

/// Of the first `n` cells of a column, those whose row the mask marks true,
/// in their order.
pub open spec fn pick(values: Seq<ValueView>, mask: Seq<ValueView>, n: nat) -> Seq<ValueView>
    decreases n,
{
    if n == 0 {
        Seq::empty()
    } else {
        let above = pick(values, mask, (n - 1) as nat);
        if mask[n - 1] == ValueView::Bool(true) {
            above.push(values[n - 1])
        } else {
            above
        }
    }
}

/// The columns of a table, each with the cells that the mask marks true.
pub open spec fn kept_columns(t: TableView, mask: Seq<ValueView>) -> Seq<ColumnView> {
    Seq::new(
        t.columns.len(),
        |i: int|
            ColumnView {
                name: t.columns[i].name,
                values: pick(t.columns[i].values, mask, height(t)),
            },
    )
}

/// The rows of a table for which a predicate is true. The predicate has to
/// give a truth value in every row.
pub open spec fn keep(t: TableView, predicate: ExprView) -> Result<TableView, ErrorView> {
    match eval_column(predicate, t) {
        Err(e) => Err(e),
        Ok(mask) => if all_truth(mask) {
            assemble(kept_columns(t, mask))
        } else {
            Err(ErrorView::TypeMismatch)
        },
    }
}

/// The cells whose row the mask marks true.
fn pick_values(values: &Vec<Value>, mask: &Vec<Value>) -> (out: Vec<Value>)
    requires
        values@.len() == mask@.len(),
    ensures
        values_view(out@) == pick(values_view(values@), values_view(mask@), values@.len() as nat),
{
    let mut out: Vec<Value> = Vec::new();
    let mut i: usize = 0;
    while i < values.len()
        invariant
            i <= values.len(),
            values@.len() == mask@.len(),
            values_view(out@) == pick(values_view(values@), values_view(mask@), i as nat),
        decreases values.len() - i,
    {
        let marked = match &mask[i] {
            Value::Bool(true) => true,
            _ => false,
        };
        assert(marked == (values_view(mask@)[i as int] == ValueView::Bool(true)));
        if marked {
            let ghost above = out@;
            out.push(values[i].clone());
            assert(values_view(out@) =~= values_view(above).push(values_view(values@)[i as int]));
        }
        i = i + 1;
    }
    out
}

/// Keeps the rows of a table for which a predicate is true.
pub fn keep_rows(t: &Table, predicate: &Expr) -> (r: Result<Table, Error>)
    ensures
        agrees(r, keep(t@, predicate@)),
{
    let mask = match predicate.eval_all(t) {
        Err(e) => {
            return Err(e);
        },
        Ok(mask) => mask,
    };
    let mut k: usize = 0;
    while k < mask.len()
        invariant
            k <= mask.len(),
            eval_column(predicate@, t@) == Ok::<Seq<ValueView>, ErrorView>(values_view(mask@)),
            forall|j: int| 0 <= j < k ==> (#[trigger] values_view(mask@)[j]) is Bool,
        decreases mask.len() - k,
    {
        match &mask[k] {
            Value::Bool(_) => {},
            _ => {
                assert(!(values_view(mask@)[k as int] is Bool));
                return Err(Error::TypeMismatch);
            },
        }
        k = k + 1;
    }
    let n = t.width();
    let ghost columns = kept_columns(t@, values_view(mask@));
    let mut out = Table::new();
    assert(columns.take(0) =~= Seq::empty());
    let mut i: usize = 0;
    while i < n
        invariant
            i <= n,
            n == t@.columns.len(),
            mask@.len() == height(t@),
            eval_column(predicate@, t@) == Ok::<Seq<ValueView>, ErrorView>(values_view(mask@)),
            all_truth(values_view(mask@)),
            columns == kept_columns(t@, values_view(mask@)),
            assemble(columns.take(i as int)) == Ok::<TableView, ErrorView>(out@),
        decreases n - i,
    {
        let source = t.column_at(i);
        let column = Column {
            name: source.name.clone(),
            values: pick_values(&source.values, &mask),
        };
        match extend(out, column, Ghost(columns), i) {
            Err(e) => {
                return Err(e);
            },
            Ok(t) => {
                out = t;
            },
        }
        i = i + 1;
    }
    assert(columns.take(n as int) =~= columns);
    Ok(out)
}

/// One renaming: the old name and the new one.
#[derive(Debug, PartialEq, Eq)]
pub struct Renaming {
    pub from: String,
    pub to: String,
}

impl View for Renaming {
    type V = (Seq<char>, Seq<char>);

    open spec fn view(&self) -> (Seq<char>, Seq<char>) {
        (self.from@, self.to@)
    }
}

impl Clone for Renaming {
    fn clone(&self) -> (copy: Self)
        ensures
            copy@ == self@,
    {
        Renaming { from: self.from.clone(), to: self.to.clone() }
    }
}

/// A list of renamings as a mathematical value.
pub open spec fn renamings_view(renamings: Seq<Renaming>) -> Seq<(Seq<char>, Seq<char>)> {
    renamings.map_values(|r: Renaming| r@)
}

/// The name that a column gets: what the first renaming from `i` on that
/// speaks of its name gives it, or the name it has.
pub open spec fn new_name_from(
    renamings: Seq<(Seq<char>, Seq<char>)>,
    name: Seq<char>,
    i: int,
) -> Seq<char>
    decreases renamings.len() - i,
{
    if i < 0 || i >= renamings.len() {
        name
    } else if renamings[i].0 == name {
        renamings[i].1
    } else {
        new_name_from(renamings, name, i + 1)
    }
}

/// The name that a column gets under a list of renamings, all applied at once.
pub open spec fn new_name(renamings: Seq<(Seq<char>, Seq<char>)>, name: Seq<char>) -> Seq<char> {
    new_name_from(renamings, name, 0)
}

/// The columns of a table under their new names.
pub open spec fn renamed_columns(t: TableView, renamings: Seq<(Seq<char>, Seq<char>)>) -> Seq<
    ColumnView,
> {
    Seq::new(
        t.columns.len(),
        |i: int|
            ColumnView {
                name: new_name(renamings, t.columns[i].name),
                values: t.columns[i].values,
            },
    )
}

/// A table with its columns renamed. It fails where two columns would get
/// the same name.
pub open spec fn rename(t: TableView, renamings: Seq<(Seq<char>, Seq<char>)>) -> Result<
    TableView,
    ErrorView,
> {
    assemble(renamed_columns(t, renamings))
}

/// The name that a column gets under a list of renamings.
fn rename_one(renamings: &Vec<Renaming>, name: &str) -> (renamed: String)
    ensures
        renamed@ == new_name(renamings_view(renamings@), name@),
{
    let mut i: usize = 0;
    while i < renamings.len()
        invariant
            i <= renamings.len(),
            new_name(renamings_view(renamings@), name@) == new_name_from(
                renamings_view(renamings@),
                name@,
                i as int,
            ),
        decreases renamings.len() - i,
    {
        assert(renamings_view(renamings@)[i as int] == renamings@[i as int]@);
        if same_str(renamings[i].from.as_str(), name) {
            return renamings[i].to.clone();
        }
        i = i + 1;
    }
    name.to_owned()
}

/// Renames the columns of a table.
pub fn rename_columns(t: &Table, renamings: &Vec<Renaming>) -> (r: Result<Table, Error>)
    ensures
        agrees(r, rename(t@, renamings_view(renamings@))),
{
    let n = t.width();
    let ghost columns = renamed_columns(t@, renamings_view(renamings@));
    let mut out = Table::new();
    assert(columns.take(0) =~= Seq::empty());
    let mut i: usize = 0;
    while i < n
        invariant
            i <= n,
            n == t@.columns.len(),
            columns == renamed_columns(t@, renamings_view(renamings@)),
            assemble(columns.take(i as int)) == Ok::<TableView, ErrorView>(out@),
        decreases n - i,
    {
        let source = t.column_at(i);
        let column = Column {
            name: rename_one(renamings, source.name.as_str()),
            values: clone_values(&source.values),
        };
        match extend(out, column, Ghost(columns), i) {
            Err(e) => {
                return Err(e);
            },
            Ok(t) => {
                out = t;
            },
        }
        i = i + 1;
    }
    assert(columns.take(n as int) =~= columns);
    Ok(out)
}

} // verus!
