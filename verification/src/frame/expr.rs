//! Column expressions: what a lazy column computes for each row of a table.

use crate::error::{Error, ErrorView};
use crate::frame::table::{
    column_index, has_column, height, values_view, Table, TableView, Value, ValueView,
};
use crate::text::{
    compare_str, lemma_str_lt_irreflexive, lemma_str_lt_total, lemma_str_lt_transitive, str_lt,
    Order,
};
use vstd::prelude::*;

verus! {

/// The operators with one operand.
#[derive(Clone, Copy, Debug, PartialEq, Eq, Structural)]
pub enum UnaryOperator {
    /// The negative of an integer.
    Neg,
    /// The negation of a truth value.
    Not,
}

/// The operators with two operands.
#[derive(Clone, Copy, Debug, PartialEq, Eq, Structural)]
pub enum BinaryOperator {
    Add,
    Sub,
    Mul,
    Div,
    Eq,
    Ne,
    Ge,
    Gt,
    Le,
    Lt,
    And,
    Or,
}

/// A column expression.
#[derive(Debug, PartialEq, Eq)]
pub enum Expr {
    /// Every column at once. It selects; it has no value of its own.
    All,
    /// The column of a name.
    Column(String),
    /// The same value in every row.
    Literal(Value),
    Unary(UnaryOperator, Box<Expr>),
    Binary(BinaryOperator, Box<Expr>, Box<Expr>),
}

/// An expression as a mathematical value.
pub ghost enum ExprView {
    All,
    Column(Seq<char>),
    Literal(ValueView),
    Unary(UnaryOperator, Box<ExprView>),
    Binary(BinaryOperator, Box<ExprView>, Box<ExprView>),
}

/// The mathematical value of an expression.
pub open spec fn expr_view(e: Expr) -> ExprView
    decreases e,
{
    match e {
        Expr::All => ExprView::All,
        Expr::Column(name) => ExprView::Column(name@),
        Expr::Literal(v) => ExprView::Literal(v@),
        Expr::Unary(op, a) => ExprView::Unary(op, Box::new(expr_view(*a))),
        Expr::Binary(op, a, b) => ExprView::Binary(
            op,
            Box::new(expr_view(*a)),
            Box::new(expr_view(*b)),
        ),
    }
}

impl View for Expr {
    type V = ExprView;

    open spec fn view(&self) -> ExprView {
        expr_view(*self)
    }
}

impl Clone for Expr {
    fn clone(&self) -> (copy: Self)
        ensures
            copy@ == self@,
        decreases self,
    {
        match self {
            Expr::All => Expr::All,
            Expr::Column(name) => Expr::Column(name.clone()),
            Expr::Literal(v) => Expr::Literal(v.clone()),
            Expr::Unary(op, a) => Expr::Unary(*op, Box::new((**a).clone())),
            Expr::Binary(op, a, b) => Expr::Binary(
                *op,
                Box::new((**a).clone()),
                Box::new((**b).clone()),
            ),
        }
    }
}

/// Whether an integer fits in a cell.
pub open spec fn fits(i: int) -> bool {
    i64::MIN <= i <= i64::MAX
}

/// An integer as a cell, where it fits.
pub open spec fn int_cell(i: int) -> Result<ValueView, ErrorView> {
    if fits(i) {
        Ok(ValueView::Int(i))
    } else {
        Err(ErrorView::Overflow)
    }
}

/// What an operator with one operand gives: the negative of an integer, the
/// negation of a truth value, and a type mismatch on anything else.
pub open spec fn apply_unary(op: UnaryOperator, v: ValueView) -> Result<ValueView, ErrorView> {
    match (op, v) {
        (UnaryOperator::Neg, ValueView::Int(i)) => int_cell(-i),
        (UnaryOperator::Not, ValueView::Bool(b)) => Ok(ValueView::Bool(!b)),
        _ => Err(ErrorView::TypeMismatch),
    }
}

/// What an operator with two operands gives. Arithmetic is on integers and
/// fails where the result does not fit; division is Euclidean and fails on a
/// zero divisor. Equality is between values of one kind; order is between
/// integers or between texts. `And` and `Or` are on truth values. Anything
/// else is a type mismatch.
pub open spec fn apply_binary(op: BinaryOperator, a: ValueView, b: ValueView) -> Result<
    ValueView,
    ErrorView,
> {
    match (a, b) {
        (ValueView::Int(x), ValueView::Int(y)) => match op {
            BinaryOperator::Add => int_cell(x + y),
            BinaryOperator::Sub => int_cell(x - y),
            BinaryOperator::Mul => int_cell(x * y),
            BinaryOperator::Div => if y == 0 {
                Err(ErrorView::DivisionByZero)
            } else {
                int_cell(x / y)
            },
            BinaryOperator::Eq => Ok(ValueView::Bool(x == y)),
            BinaryOperator::Ne => Ok(ValueView::Bool(x != y)),
            BinaryOperator::Ge => Ok(ValueView::Bool(x >= y)),
            BinaryOperator::Gt => Ok(ValueView::Bool(x > y)),
            BinaryOperator::Le => Ok(ValueView::Bool(x <= y)),
            BinaryOperator::Lt => Ok(ValueView::Bool(x < y)),
            _ => Err(ErrorView::TypeMismatch),
        },
        (ValueView::Bool(x), ValueView::Bool(y)) => match op {
            BinaryOperator::Eq => Ok(ValueView::Bool(x == y)),
            BinaryOperator::Ne => Ok(ValueView::Bool(x != y)),
            BinaryOperator::And => Ok(ValueView::Bool(x && y)),
            BinaryOperator::Or => Ok(ValueView::Bool(x || y)),
            _ => Err(ErrorView::TypeMismatch),
        },
        (ValueView::Text(x), ValueView::Text(y)) => match op {
            BinaryOperator::Eq => Ok(ValueView::Bool(x == y)),
            BinaryOperator::Ne => Ok(ValueView::Bool(x != y)),
            BinaryOperator::Ge => Ok(ValueView::Bool(!str_lt(x, y))),
            BinaryOperator::Gt => Ok(ValueView::Bool(str_lt(y, x))),
            BinaryOperator::Le => Ok(ValueView::Bool(!str_lt(y, x))),
            BinaryOperator::Lt => Ok(ValueView::Bool(str_lt(x, y))),
            _ => Err(ErrorView::TypeMismatch),
        },
        _ => Err(ErrorView::TypeMismatch),
    }
}

/// Whether an expression can be evaluated on a table at all: it names only
/// columns that the table has, and does not use the selector of all columns as
/// a value. The first offence, operands left to right, is the one reported.
pub open spec fn check_expr(e: ExprView, t: TableView) -> Result<(), ErrorView>
    decreases e,
{
    match e {
        ExprView::All => Err(ErrorView::Wildcard),
        ExprView::Column(name) => if has_column(t, name) {
            Ok(())
        } else {
            Err(ErrorView::MissingColumn(name))
        },
        ExprView::Literal(_) => Ok(()),
        ExprView::Unary(_, a) => check_expr(*a, t),
        ExprView::Binary(_, a, b) => match check_expr(*a, t) {
            Err(e) => Err(e),
            Ok(_) => check_expr(*b, t),
        },
    }
}

/// The value of an expression in one row of a table.
pub open spec fn eval_expr(e: ExprView, t: TableView, row: int) -> Result<ValueView, ErrorView>
    decreases e,
{
    match e {
        ExprView::All => Err(ErrorView::Wildcard),
        ExprView::Column(name) => if has_column(t, name) {
            Ok(t.columns[column_index(t, name)].values[row])
        } else {
            Err(ErrorView::MissingColumn(name))
        },
        ExprView::Literal(v) => Ok(v),
        ExprView::Unary(op, a) => match eval_expr(*a, t, row) {
            Err(e) => Err(e),
            Ok(v) => apply_unary(op, v),
        },
        ExprView::Binary(op, a, b) => match eval_expr(*a, t, row) {
            Err(e) => Err(e),
            Ok(x) => match eval_expr(*b, t, row) {
                Err(e) => Err(e),
                Ok(y) => apply_binary(op, x, y),
            },
        },
    }
}

/// The values of an expression in the first `n` rows of a table, top down. An
/// expression that cannot be evaluated on the table fails even without rows;
/// otherwise the first row that fails decides the failure.
pub open spec fn eval_rows(e: ExprView, t: TableView, n: nat) -> Result<Seq<ValueView>, ErrorView>
    decreases n,
{
    if n == 0 {
        match check_expr(e, t) {
            Err(e) => Err(e),
            Ok(_) => Ok(Seq::empty()),
        }
    } else {
        match eval_rows(e, t, (n - 1) as nat) {
            Err(e) => Err(e),
            Ok(above) => match eval_expr(e, t, n - 1) {
                Err(e) => Err(e),
                Ok(v) => Ok(above.push(v)),
            },
        }
    }
}

/// The column that an expression computes over a whole table.
pub open spec fn eval_column(e: ExprView, t: TableView) -> Result<Seq<ValueView>, ErrorView> {
    eval_rows(e, t, height(t))
}

/// The values that `eval_rows` gives are one per row.
pub proof fn lemma_eval_rows_len(e: ExprView, t: TableView, n: nat)
    ensures
        eval_rows(e, t, n) is Ok ==> eval_rows(e, t, n)->Ok_0.len() == n,
    decreases n,
{
    if n > 0 {
        lemma_eval_rows_len(e, t, (n - 1) as nat);
    }
}

/// The cell of an integer that fits, or the failure of one that does not.
fn int_result(i: Option<i64>) -> (r: Result<Value, Error>)
    ensures
        i is Some ==> r is Ok && r->Ok_0@ == ValueView::Int(i->0 as int),
        i is None ==> r is Err && r->Err_0@ == ErrorView::Overflow,
{
    match i {
        Some(i) => Ok(Value::Int(i)),
        None => Err(Error::Overflow),
    }
}

/// Applies an operator with one operand.
fn unary(op: UnaryOperator, v: &Value) -> (r: Result<Value, Error>)
    ensures
        r is Ok == apply_unary(op, v@) is Ok,
        r is Ok ==> r->Ok_0@ == apply_unary(op, v@)->Ok_0,
        r is Err ==> r->Err_0@ == apply_unary(op, v@)->Err_0,
{
    match (op, v) {
        (UnaryOperator::Neg, Value::Int(i)) => {
            let zero: i64 = 0;
            int_result(zero.checked_sub(*i))
        },
        (UnaryOperator::Not, Value::Bool(b)) => Ok(Value::Bool(!*b)),
        _ => Err(Error::TypeMismatch),
    }
}

/// Applies an operator with two operands.
fn binary(op: BinaryOperator, a: &Value, b: &Value) -> (r: Result<Value, Error>)
    ensures
        r is Ok == apply_binary(op, a@, b@) is Ok,
        r is Ok ==> r->Ok_0@ == apply_binary(op, a@, b@)->Ok_0,
        r is Err ==> r->Err_0@ == apply_binary(op, a@, b@)->Err_0,
{
    match (a, b) {
        (Value::Int(x), Value::Int(y)) => match op {
            BinaryOperator::Add => int_result(x.checked_add(*y)),
            BinaryOperator::Sub => int_result(x.checked_sub(*y)),
            BinaryOperator::Mul => int_result(x.checked_mul(*y)),
            BinaryOperator::Div => if *y == 0 {
                Err(Error::DivisionByZero)
            } else {
                int_result(x.checked_div_euclid(*y))
            },
            BinaryOperator::Eq => Ok(Value::Bool(*x == *y)),
            BinaryOperator::Ne => Ok(Value::Bool(*x != *y)),
            BinaryOperator::Ge => Ok(Value::Bool(*x >= *y)),
            BinaryOperator::Gt => Ok(Value::Bool(*x > *y)),
            BinaryOperator::Le => Ok(Value::Bool(*x <= *y)),
            BinaryOperator::Lt => Ok(Value::Bool(*x < *y)),
            _ => Err(Error::TypeMismatch),
        },
        (Value::Bool(x), Value::Bool(y)) => match op {
            BinaryOperator::Eq => Ok(Value::Bool(*x == *y)),
            BinaryOperator::Ne => Ok(Value::Bool(*x != *y)),
            BinaryOperator::And => Ok(Value::Bool(*x && *y)),
            BinaryOperator::Or => Ok(Value::Bool(*x || *y)),
            _ => Err(Error::TypeMismatch),
        },
        (Value::Text(x), Value::Text(y)) => {
            let order = compare_str(x.as_str(), y.as_str());
            proof {
                lemma_str_lt_irreflexive(x@);
                lemma_str_lt_total(x@, y@);
                if str_lt(x@, y@) && str_lt(y@, x@) {
                    lemma_str_lt_transitive(x@, y@, x@);
                }
            }
            match op {
                BinaryOperator::Eq => Ok(Value::Bool(matches!(order, Order::Equal))),
                BinaryOperator::Ne => Ok(Value::Bool(!matches!(order, Order::Equal))),
                BinaryOperator::Ge => Ok(Value::Bool(!matches!(order, Order::Less))),
                BinaryOperator::Gt => Ok(Value::Bool(matches!(order, Order::Greater))),
                BinaryOperator::Le => Ok(Value::Bool(!matches!(order, Order::Greater))),
                BinaryOperator::Lt => Ok(Value::Bool(matches!(order, Order::Less))),
                _ => Err(Error::TypeMismatch),
            }
        },
        _ => Err(Error::TypeMismatch),
    }
}

impl Expr {
    /// Checks that the expression can be evaluated on a table.
    pub fn check(&self, t: &Table) -> (r: Result<(), Error>)
        ensures
            r is Ok == check_expr(self@, t@) is Ok,
            r is Err ==> r->Err_0@ == check_expr(self@, t@)->Err_0,
        decreases self,
    {
        match self {
            Expr::All => Err(Error::Wildcard),
            Expr::Column(name) => match t.find(name.as_str()) {
                Some(_) => Ok(()),
                None => Err(Error::MissingColumn(name.clone())),
            },
            Expr::Literal(_) => Ok(()),
            Expr::Unary(_, a) => a.check(t),
            Expr::Binary(_, a, b) => match a.check(t) {
                Err(e) => Err(e),
                Ok(_) => b.check(t),
            },
        }
    }

    /// The value of the expression in one row of a table.
    pub fn eval(&self, t: &Table, row: usize) -> (r: Result<Value, Error>)
        requires
            row < height(t@),
        ensures
            r is Ok == eval_expr(self@, t@, row as int) is Ok,
            r is Ok ==> r->Ok_0@ == eval_expr(self@, t@, row as int)->Ok_0,
            r is Err ==> r->Err_0@ == eval_expr(self@, t@, row as int)->Err_0,
        decreases self,
    {
        match self {
            Expr::All => Err(Error::Wildcard),
            Expr::Column(name) => match t.column(name.as_str()) {
                Some(c) => {
                    assert(c@.values[row as int] == c.values@[row as int]@);
                    Ok(c.values[row].clone())
                },
                None => Err(Error::MissingColumn(name.clone())),
            },
            Expr::Literal(v) => Ok(v.clone()),
            Expr::Unary(op, a) => match a.eval(t, row) {
                Err(e) => Err(e),
                Ok(v) => unary(*op, &v),
            },
            Expr::Binary(op, a, b) => match a.eval(t, row) {
                Err(e) => Err(e),
                Ok(x) => match b.eval(t, row) {
                    Err(e) => Err(e),
                    Ok(y) => binary(*op, &x, &y),
                },
            },
        }
    }

    /// The column that the expression computes over a whole table.
    pub fn eval_all(&self, t: &Table) -> (r: Result<Vec<Value>, Error>)
        ensures
            r is Ok == eval_column(self@, t@) is Ok,
            r is Ok ==> values_view(r->Ok_0@) == eval_column(self@, t@)->Ok_0,
            r is Ok ==> r->Ok_0@.len() == height(t@),
            r is Err ==> r->Err_0@ == eval_column(self@, t@)->Err_0,
    {
        match self.check(t) {
            Err(e) => {
                proof {
                    lemma_eval_rows_fail(self@, t@, height(t@));
                }
                return Err(e);
            },
            Ok(_) => {},
        }
        let n = t.height();
        let mut out: Vec<Value> = Vec::new();
        let mut i: usize = 0;
        while i < n
            invariant
                i <= n,
                n == height(t@),
                out@.len() == i,
                eval_rows(self@, t@, i as nat) is Ok,
                eval_rows(self@, t@, i as nat)->Ok_0 == values_view(out@),
            decreases n - i,
        {
            match self.eval(t, i) {
                Err(e) => {
                    proof {
                        lemma_eval_rows_stays_failed(self@, t@, (i + 1) as nat, n as nat);
                    }
                    return Err(e);
                },
                Ok(v) => {
                    let ghost above = out@;
                    out.push(v);
                    assert(values_view(out@) =~= values_view(above).push(v@));
                },
            }
            i = i + 1;
        }
        Ok(out)
    }
}

/// An expression that cannot be evaluated on a table gives no rows, however
/// many are asked for.
pub proof fn lemma_eval_rows_fail(e: ExprView, t: TableView, n: nat)
    requires
        check_expr(e, t) is Err,
    ensures
        eval_rows(e, t, n) is Err,
        eval_rows(e, t, n)->Err_0 == check_expr(e, t)->Err_0,
    decreases n,
{
    if n > 0 {
        lemma_eval_rows_fail(e, t, (n - 1) as nat);
    }
}

/// Once the first `m` rows fail, more rows fail in the same way.
pub proof fn lemma_eval_rows_stays_failed(e: ExprView, t: TableView, m: nat, n: nat)
    requires
        m <= n,
        eval_rows(e, t, m) is Err,
    ensures
        eval_rows(e, t, n) is Err,
        eval_rows(e, t, n)->Err_0 == eval_rows(e, t, m)->Err_0,
    decreases n,
{
    if m < n {
        lemma_eval_rows_stays_failed(e, t, m, (n - 1) as nat);
    }
}

} // verus!
