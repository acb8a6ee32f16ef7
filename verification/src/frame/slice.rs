//! Lazy columns: expressions tied to the backend that will evaluate them.

use crate::error::{Error, ErrorView, FrameOperation};
use crate::frame::expr::{BinaryOperator, Expr, ExprView, UnaryOperator};
use crate::frame::lazy::LazyFrame;
use crate::frame::table::{Value, ValueView};
use vstd::prelude::*;

verus! {

/// A truth value that fills a column.
#[derive(Clone, Copy, Debug, PartialEq, Eq, Structural)]
pub struct Feature(pub bool);

impl Feature {
    /// The truth value as one that fills a column.
    pub fn new(value: bool) -> (f: Feature)
        ensures
            f.0 == value,
    {
        Feature(value)
    }

    /// The truth value.
    pub fn into_inner(self) -> (value: bool)
        ensures
            value == self.0,
    {
        self.0
    }
}

/// A number that fills a column, as the integer it is rounded to.
#[derive(Clone, Copy, Debug, PartialEq, Eq, Structural)]
pub struct Number(pub i64);

impl Number {
    /// The integer as a number that fills a column.
    pub fn new(value: i64) -> (n: Number)
        ensures
            n.0 == value,
    {
        Number(value)
    }

    /// The integer.
    pub fn into_inner(self) -> (value: i64)
        ensures
            value == self.0,
    {
        self.0
    }
}

/// A lazy column.
#[derive(Debug)]
pub enum LazySlice {
    /// A column that the table backend computes.
    Table(Expr),
}

impl View for LazySlice {
    type V = ExprView;

    open spec fn view(&self) -> ExprView {
        match *self {
            LazySlice::Table(e) => e@,
        }
    }
}

impl Clone for LazySlice {
    fn clone(&self) -> (copy: Self)
        ensures
            copy@ == self@,
    {
        match self {
            LazySlice::Table(e) => LazySlice::Table(e.clone()),
        }
    }
}

/// The expression that applies an operator to one operand.
pub open spec fn unary_of(op: UnaryOperator, a: ExprView) -> ExprView {
    ExprView::Unary(op, Box::new(a))
}

/// The expression that applies an operator to two operands.
pub open spec fn binary_of(op: BinaryOperator, a: ExprView, b: ExprView) -> ExprView {
    ExprView::Binary(op, Box::new(a), Box::new(b))
}

impl LazySlice {
    /// The expression behind the column.
    pub fn into_expr(self) -> (e: Expr)
        ensures
            e@ == self@,
    {
        match self {
            LazySlice::Table(e) => e,
        }
    }

    /// The column that an operator makes of this one.
    pub fn unary(self, op: UnaryOperator) -> (r: LazySlice)
        ensures
            r@ == unary_of(op, self@),
    {
        LazySlice::Table(Expr::Unary(op, Box::new(self.into_expr())))
    }

    /// The column that an operator makes of this one and another.
    pub fn binary(self, op: BinaryOperator, rhs: LazySlice) -> (r: LazySlice)
        ensures
            r@ == binary_of(op, self@, rhs@),
    {
        LazySlice::Table(Expr::Binary(op, Box::new(self.into_expr()), Box::new(rhs.into_expr())))
    }

    /// The negative of this column.
    pub fn neg(self) -> (r: LazySlice)
        ensures
            r@ == unary_of(UnaryOperator::Neg, self@),
    {
        self.unary(UnaryOperator::Neg)
    }

    /// The negation of this column.
    pub fn not(self) -> (r: LazySlice)
        ensures
            r@ == unary_of(UnaryOperator::Not, self@),
    {
        self.unary(UnaryOperator::Not)
    }

    /// This column and another, added row by row.
    pub fn add(self, rhs: LazySlice) -> (r: LazySlice)
        ensures
            r@ == binary_of(BinaryOperator::Add, self@, rhs@),
    {
        self.binary(BinaryOperator::Add, rhs)
    }

    /// This column less another, row by row.
    pub fn sub(self, rhs: LazySlice) -> (r: LazySlice)
        ensures
            r@ == binary_of(BinaryOperator::Sub, self@, rhs@),
    {
        self.binary(BinaryOperator::Sub, rhs)
    }

    /// This column times another, row by row.
    pub fn mul(self, rhs: LazySlice) -> (r: LazySlice)
        ensures
            r@ == binary_of(BinaryOperator::Mul, self@, rhs@),
    {
        self.binary(BinaryOperator::Mul, rhs)
    }

    /// This column divided by another, row by row.
    pub fn div(self, rhs: LazySlice) -> (r: LazySlice)
        ensures
            r@ == binary_of(BinaryOperator::Div, self@, rhs@),
    {
        self.binary(BinaryOperator::Div, rhs)
    }

    /// Whether this column equals another, row by row.
    pub fn eq(self, rhs: LazySlice) -> (r: LazySlice)
        ensures
            r@ == binary_of(BinaryOperator::Eq, self@, rhs@),
    {
        self.binary(BinaryOperator::Eq, rhs)
    }

    /// Whether this column differs from another, row by row.
    pub fn ne(self, rhs: LazySlice) -> (r: LazySlice)
        ensures
            r@ == binary_of(BinaryOperator::Ne, self@, rhs@),
    {
        self.binary(BinaryOperator::Ne, rhs)
    }

    /// Whether this column is no less than another, row by row.
    pub fn ge(self, rhs: LazySlice) -> (r: LazySlice)
        ensures
            r@ == binary_of(BinaryOperator::Ge, self@, rhs@),
    {
        self.binary(BinaryOperator::Ge, rhs)
    }

    /// Whether this column is greater than another, row by row.
    pub fn gt(self, rhs: LazySlice) -> (r: LazySlice)
        ensures
            r@ == binary_of(BinaryOperator::Gt, self@, rhs@),
    {
        self.binary(BinaryOperator::Gt, rhs)
    }

    /// Whether this column is no greater than another, row by row.
    pub fn le(self, rhs: LazySlice) -> (r: LazySlice)
        ensures
            r@ == binary_of(BinaryOperator::Le, self@, rhs@),
    {
        self.binary(BinaryOperator::Le, rhs)
    }

    /// Whether this column is less than another, row by row.
    pub fn lt(self, rhs: LazySlice) -> (r: LazySlice)
        ensures
            r@ == binary_of(BinaryOperator::Lt, self@, rhs@),
    {
        self.binary(BinaryOperator::Lt, rhs)
    }

    /// Whether this column and another both hold, row by row.
    pub fn and(self, rhs: LazySlice) -> (r: LazySlice)
        ensures
            r@ == binary_of(BinaryOperator::And, self@, rhs@),
    {
        self.binary(BinaryOperator::And, rhs)
    }

    /// Whether this column or another holds, row by row.
    pub fn or(self, rhs: LazySlice) -> (r: LazySlice)
        ensures
            r@ == binary_of(BinaryOperator::Or, self@, rhs@),
    {
        self.binary(BinaryOperator::Or, rhs)
    }
}

/// What can stand as a lazy column of a frame.
pub trait IntoLazySlice: Sized {
    /// The literal that the value is in every row.
    spec fn literal(self) -> ValueView;

    /// The value as a literal expression.
    fn into_expr(self) -> (e: Expr)
        ensures
            e@ == ExprView::Literal(self.literal()),
    ;

    /// The value as a lazy column of a frame. The empty frame has no columns.
    fn try_into_lazy_slice(self, df: &LazyFrame) -> (r: Result<LazySlice, Error>)
        ensures
            df@ is Empty ==> r is Err && r->Err_0@ == ErrorView::EmptyFrame(
                FrameOperation::IntoSlice,
            ),
            !(df@ is Empty) ==> r is Ok && r->Ok_0@ == ExprView::Literal(self.literal()),
    {
        match df {
            LazyFrame::Empty => Err(Error::EmptyFrame(FrameOperation::IntoSlice)),
            LazyFrame::Table(_) => Ok(LazySlice::Table(self.into_expr())),
        }
    }
}

impl IntoLazySlice for Feature {
    open spec fn literal(self) -> ValueView {
        ValueView::Bool(self.0)
    }

    fn into_expr(self) -> (e: Expr) {
        Expr::Literal(Value::Bool(self.0))
    }
}

impl IntoLazySlice for Number {
    open spec fn literal(self) -> ValueView {
        ValueView::Int(self.0 as int)
    }

    fn into_expr(self) -> (e: Expr) {
        Expr::Literal(Value::Int(self.0))
    }
}

} // verus!
