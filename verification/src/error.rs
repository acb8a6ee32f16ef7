//! The failures of the pipeline. Every one is reported to the caller; none is
//! turned into an empty or default result.

use vstd::prelude::*;

verus! {

/// The operations of a frame that need a backend.
#[derive(Clone, Copy, Debug, PartialEq, Eq, Structural)]
pub enum FrameOperation {
    All,
    GetColumn,
    Fabric,
    Alias,
    InsertColumn,
    ApplyFilter,
    FillColumnWithFeature,
    FillColumnWithValue,
    IntoSlice,
    Solve,
}

/// The roles that a column can play for the optimizer.
#[derive(Clone, Copy, Debug, PartialEq, Eq, Structural)]
pub enum Role {
    Capacity,
    Flow,
    Function,
    Name,
    Sink,
    Src,
    Supply,
    UnitCost,
}

/// The two tables of a graph.
#[derive(Clone, Copy, Debug, PartialEq, Eq, Structural)]
pub enum GraphPart {
    Edges,
    Nodes,
}

/// The families that failures fall into.
#[derive(Clone, Copy, Debug, PartialEq, Eq, Structural)]
pub enum ErrorKind {
    /// A role without a column, a column that is missing or there twice, or an
    /// operation on the empty frame.
    Schema,
    /// A plan whose evaluation cannot be carried out.
    Evaluation,
    /// A graph that the solver cannot be given.
    InvalidGraph,
    /// Constraints that no flow satisfies.
    InfeasibleProblem,
    /// A runner started on an empty frame.
    EmptyGraph,
}

/// A failure, with what is needed to find its cause.
#[derive(Debug, PartialEq, Eq)]
pub enum Error {
    /// The operation was attempted on the empty frame.
    EmptyFrame(FrameOperation),
    /// The role has no column and no default.
    MissingRole(Role),
    /// The table has no column of this name.
    MissingColumn(String),
    /// The table would have two columns of this name.
    DuplicateColumn(String),
    /// Two tables to be stacked do not have the same columns.
    ShapeMismatch,
    /// An operator was applied to values that it is not defined on.
    TypeMismatch,
    /// An integer result does not fit in 64 bits.
    Overflow,
    /// An integer was divided by zero.
    DivisionByZero,
    /// The selector of all columns was used where one column is needed.
    Wildcard,
    /// The result would have more rows than can be addressed.
    TooLarge,
    /// A value in the given row of the given table is not a non-negative
    /// integer in range where one is needed.
    InvalidValue(GraphPart, Role, usize),
    /// The edge in the given row starts or ends at a node that is not in the
    /// node table.
    UnknownNode(Role, usize),
    /// Two rows of the node table have the same name.
    DuplicateNode(usize),
    /// The nodes cannot absorb the supply: it exceeds their total capacity.
    InsufficientCapacity,
    /// The supply cannot reach enough capacity over the edges.
    Disconnected,
    /// The runner was given an empty frame for this part of the graph.
    EmptyGraph(GraphPart),
}

/// A failure as a mathematical value.
pub ghost enum ErrorView {
    EmptyFrame(FrameOperation),
    MissingRole(Role),
    MissingColumn(Seq<char>),
    DuplicateColumn(Seq<char>),
    ShapeMismatch,
    TypeMismatch,
    Overflow,
    DivisionByZero,
    Wildcard,
    TooLarge,
    InvalidValue(GraphPart, Role, nat),
    UnknownNode(Role, nat),
    DuplicateNode(nat),
    InsufficientCapacity,
    Disconnected,
    EmptyGraph(GraphPart),
}

impl View for Error {
    type V = ErrorView;

    open spec fn view(&self) -> ErrorView {
        match *self {
            Error::EmptyFrame(op) => ErrorView::EmptyFrame(op),
            Error::MissingRole(role) => ErrorView::MissingRole(role),
            Error::MissingColumn(name) => ErrorView::MissingColumn(name@),
            Error::DuplicateColumn(name) => ErrorView::DuplicateColumn(name@),
            Error::ShapeMismatch => ErrorView::ShapeMismatch,
            Error::TypeMismatch => ErrorView::TypeMismatch,
            Error::Overflow => ErrorView::Overflow,
            Error::DivisionByZero => ErrorView::DivisionByZero,
            Error::Wildcard => ErrorView::Wildcard,
            Error::TooLarge => ErrorView::TooLarge,
            Error::InvalidValue(part, role, row) => ErrorView::InvalidValue(part, role, row as nat),
            Error::UnknownNode(role, row) => ErrorView::UnknownNode(role, row as nat),
            Error::DuplicateNode(row) => ErrorView::DuplicateNode(row as nat),
            Error::InsufficientCapacity => ErrorView::InsufficientCapacity,
            Error::Disconnected => ErrorView::Disconnected,
            Error::EmptyGraph(part) => ErrorView::EmptyGraph(part),
        }
    }
}

/// Whether an outcome is the one that its specification gives: the same
/// value on success, the same failure otherwise.
pub open spec fn agrees<T: View>(r: Result<T, Error>, s: Result<T::V, ErrorView>) -> bool {
    match (r, s) {
        (Ok(a), Ok(b)) => a@ == b,
        (Err(a), Err(b)) => a@ == b,
        _ => false,
    }
}

/// The family of a failure.
pub open spec fn kind_of(e: ErrorView) -> ErrorKind {
    match e {
        ErrorView::EmptyFrame(_) => ErrorKind::Schema,
        ErrorView::MissingRole(_) => ErrorKind::Schema,
        ErrorView::MissingColumn(_) => ErrorKind::Schema,
        ErrorView::DuplicateColumn(_) => ErrorKind::Schema,
        ErrorView::ShapeMismatch => ErrorKind::Schema,
        ErrorView::TypeMismatch => ErrorKind::Evaluation,
        ErrorView::Overflow => ErrorKind::Evaluation,
        ErrorView::DivisionByZero => ErrorKind::Evaluation,
        ErrorView::Wildcard => ErrorKind::Evaluation,
        ErrorView::TooLarge => ErrorKind::Evaluation,
        ErrorView::InvalidValue(_, _, _) => ErrorKind::InvalidGraph,
        ErrorView::UnknownNode(_, _) => ErrorKind::InvalidGraph,
        ErrorView::DuplicateNode(_) => ErrorKind::InvalidGraph,
        ErrorView::InsufficientCapacity => ErrorKind::InfeasibleProblem,
        ErrorView::Disconnected => ErrorKind::InfeasibleProblem,
        ErrorView::EmptyGraph(_) => ErrorKind::EmptyGraph,
    }
}

impl Error {
    /// The family of the failure.
    pub fn kind(&self) -> (kind: ErrorKind)
        ensures
            kind == kind_of(self@),
    {
        match self {
            Error::EmptyFrame(_) => ErrorKind::Schema,
            Error::MissingRole(_) => ErrorKind::Schema,
            Error::MissingColumn(_) => ErrorKind::Schema,
            Error::DuplicateColumn(_) => ErrorKind::Schema,
            Error::ShapeMismatch => ErrorKind::Schema,
            Error::TypeMismatch => ErrorKind::Evaluation,
            Error::Overflow => ErrorKind::Evaluation,
            Error::DivisionByZero => ErrorKind::Evaluation,
            Error::Wildcard => ErrorKind::Evaluation,
            Error::TooLarge => ErrorKind::Evaluation,
            Error::InvalidValue(_, _, _) => ErrorKind::InvalidGraph,
            Error::UnknownNode(_, _) => ErrorKind::InvalidGraph,
            Error::DuplicateNode(_) => ErrorKind::InvalidGraph,
            Error::InsufficientCapacity => ErrorKind::InfeasibleProblem,
            Error::Disconnected => ErrorKind::InfeasibleProblem,
            Error::EmptyGraph(_) => ErrorKind::EmptyGraph,
        }
    }
}

} // verus!
