//! Plans: the deferred computations that a lazy frame builds up, and what
//! each of them computes.

use crate::error::{agrees, Error, ErrorView};
use crate::frame::expr::{eval_column, Expr, ExprView};
use crate::frame::ops::{
    cross, cross_columns, cross_tables, edge_side, edge_side_of, keep, keep_rows, kept_columns,
    put_columns, rename, rename_columns, renamed_columns, renamings_view, side_columns, stack,
    stack_tables, stacked_columns, with_column, with_column_of, Renaming,
};
use crate::frame::table::{
    column_index, lemma_assemble_ok, well_formed, ColumnView, Table, TableView,
};
use vstd::prelude::*;

verus! {

/// A deferred computation over tables.
#[derive(Debug, PartialEq, Eq)]
pub enum Plan {
    /// A table that is there already.
    Scan(Table),
    /// The rows of the first plan, then those of the second.
    Concat(Box<Plan>, Box<Plan>),
    /// A node table as one side of the edges.
    EdgeSide { input: Box<Plan>, name: String, side: String },
    /// Every row of the first plan beside every row of the second.
    Cross(Box<Plan>, Box<Plan>),
    /// The input with one column computed over it.
    WithColumn { input: Box<Plan>, name: String, value: Expr },
    /// The rows of the input for which the predicate is true.
    Filter { input: Box<Plan>, predicate: Expr },
    /// The input with its columns renamed.
    Rename { input: Box<Plan>, renamings: Vec<Renaming> },
}

/// A plan as a mathematical value.
pub ghost enum PlanView {
    Scan(TableView),
    Concat(Box<PlanView>, Box<PlanView>),
    EdgeSide { input: Box<PlanView>, name: Seq<char>, side: Seq<char> },
    Cross(Box<PlanView>, Box<PlanView>),
    WithColumn { input: Box<PlanView>, name: Seq<char>, value: ExprView },
    Filter { input: Box<PlanView>, predicate: ExprView },
    Rename { input: Box<PlanView>, renamings: Seq<(Seq<char>, Seq<char>)> },
}

/// The mathematical value of a plan.
pub open spec fn plan_view(p: Plan) -> PlanView
    decreases p,
{
    match p {
        Plan::Scan(t) => PlanView::Scan(t@),
        Plan::Concat(a, b) => PlanView::Concat(Box::new(plan_view(*a)), Box::new(plan_view(*b))),
        Plan::EdgeSide { input, name, side } => PlanView::EdgeSide {
            input: Box::new(plan_view(*input)),
            name: name@,
            side: side@,
        },
        Plan::Cross(a, b) => PlanView::Cross(Box::new(plan_view(*a)), Box::new(plan_view(*b))),
        Plan::WithColumn { input, name, value } => PlanView::WithColumn {
            input: Box::new(plan_view(*input)),
            name: name@,
            value: value@,
        },
        Plan::Filter { input, predicate } => PlanView::Filter {
            input: Box::new(plan_view(*input)),
            predicate: predicate@,
        },
        Plan::Rename { input, renamings } => PlanView::Rename {
            input: Box::new(plan_view(*input)),
            renamings: renamings_view(renamings@),
        },
    }
}

impl View for Plan {
    type V = PlanView;

    open spec fn view(&self) -> PlanView {
        plan_view(*self)
    }
}

/// What a plan computes: the table that its steps make, inputs first, or the
/// first failure on the way.
pub open spec fn eval_plan(p: PlanView) -> Result<TableView, ErrorView>
    decreases p,
{
    match p {
        PlanView::Scan(t) => Ok(t),
        PlanView::Concat(a, b) => match eval_plan(*a) {
            Err(e) => Err(e),
            Ok(upper) => match eval_plan(*b) {
                Err(e) => Err(e),
                Ok(lower) => stack(upper, lower),
            },
        },
        PlanView::EdgeSide { input, name, side } => match eval_plan(*input) {
            Err(e) => Err(e),
            Ok(t) => edge_side(t, name, side),
        },
        PlanView::Cross(a, b) => match eval_plan(*a) {
            Err(e) => Err(e),
            Ok(left) => match eval_plan(*b) {
                Err(e) => Err(e),
                Ok(right) => cross(left, right),
            },
        },
        PlanView::WithColumn { input, name, value } => match eval_plan(*input) {
            Err(e) => Err(e),
            Ok(t) => with_column(t, name, value),
        },
        PlanView::Filter { input, predicate } => match eval_plan(*input) {
            Err(e) => Err(e),
            Ok(t) => keep(t, predicate),
        },
        PlanView::Rename { input, renamings } => match eval_plan(*input) {
            Err(e) => Err(e),
            Ok(t) => rename(t, renamings),
        },
    }
}

/// Whether every table that a plan starts from is well-formed.
pub open spec fn scans_well_formed(p: PlanView) -> bool
    decreases p,
{
    match p {
        PlanView::Scan(t) => well_formed(t),
        PlanView::Concat(a, b) => scans_well_formed(*a) && scans_well_formed(*b),
        PlanView::EdgeSide { input, name, side } => scans_well_formed(*input),
        PlanView::Cross(a, b) => scans_well_formed(*a) && scans_well_formed(*b),
        PlanView::WithColumn { input, name, value } => scans_well_formed(*input),
        PlanView::Filter { input, predicate } => scans_well_formed(*input),
        PlanView::Rename { input, renamings } => scans_well_formed(*input),
    }
}

/// A plan that starts from well-formed tables computes a well-formed table.
pub proof fn lemma_eval_well_formed(p: PlanView)
    requires
        scans_well_formed(p),
        eval_plan(p) is Ok,
    ensures
        well_formed(eval_plan(p)->Ok_0),
{
    match p {
        PlanView::Scan(t) => {},
        PlanView::Concat(a, b) => {
            lemma_assemble_ok(stacked_columns(eval_plan(*a)->Ok_0, eval_plan(*b)->Ok_0));
        },
        PlanView::EdgeSide { input, name, side } => {
            let t = eval_plan(*input)->Ok_0;
            lemma_assemble_ok(side_columns(t, column_index(t, name), side));
        },
        PlanView::Cross(a, b) => {
            lemma_assemble_ok(cross_columns(eval_plan(*a)->Ok_0, eval_plan(*b)->Ok_0));
        },
        PlanView::WithColumn { input, name, value } => {
            let t = eval_plan(*input)->Ok_0;
            lemma_assemble_ok(
                put_columns(t, ColumnView { name, values: eval_column(value, t)->Ok_0 }),
            );
        },
        PlanView::Filter { input, predicate } => {
            let t = eval_plan(*input)->Ok_0;
            lemma_assemble_ok(kept_columns(t, eval_column(predicate, t)->Ok_0));
        },
        PlanView::Rename { input, renamings } => {
            lemma_assemble_ok(renamed_columns(eval_plan(*input)->Ok_0, renamings));
        },
    }
}

/// Copies a list of renamings.
fn clone_renamings(renamings: &Vec<Renaming>) -> (copy: Vec<Renaming>)
    ensures
        renamings_view(copy@) == renamings_view(renamings@),
{
    let mut copy: Vec<Renaming> = Vec::new();
    let mut i: usize = 0;
    while i < renamings.len()
        invariant
            i <= renamings.len(),
            copy.len() == i,
            forall|j: int| 0 <= j < i ==> copy@[j]@ == renamings@[j]@,
        decreases renamings.len() - i,
    {
        copy.push(renamings[i].clone());
        i = i + 1;
    }
    assert(renamings_view(copy@) =~= renamings_view(renamings@));
    copy
}

impl Clone for Plan {
    fn clone(&self) -> (copy: Self)
        ensures
            copy@ == self@,
        decreases self,
    {
        match self {
            Plan::Scan(t) => Plan::Scan(t.clone()),
            Plan::Concat(a, b) => Plan::Concat(Box::new((**a).clone()), Box::new((**b).clone())),
            Plan::EdgeSide { input, name, side } => Plan::EdgeSide {
                input: Box::new((**input).clone()),
                name: name.clone(),
                side: side.clone(),
            },
            Plan::Cross(a, b) => Plan::Cross(Box::new((**a).clone()), Box::new((**b).clone())),
            Plan::WithColumn { input, name, value } => Plan::WithColumn {
                input: Box::new((**input).clone()),
                name: name.clone(),
                value: value.clone(),
            },
            Plan::Filter { input, predicate } => Plan::Filter {
                input: Box::new((**input).clone()),
                predicate: predicate.clone(),
            },
            Plan::Rename { input, renamings } => Plan::Rename {
                input: Box::new((**input).clone()),
                renamings: clone_renamings(renamings),
            },
        }
    }
}

impl Plan {
    /// Carries the plan out. The table that comes of it is well-formed.
    pub fn run(&self) -> (r: Result<Table, Error>)
        ensures
            agrees(r, eval_plan(self@)),
            r is Ok ==> well_formed(r->Ok_0@),
        decreases self,
    {
        let r = self.compute();
        match &r {
            Ok(t) => {
                let _ = t.width();
            },
            Err(_) => {},
        }
        r
    }

    /// Carries the plan out, inputs first.
    fn compute(&self) -> (r: Result<Table, Error>)
        ensures
            agrees(r, eval_plan(self@)),
        decreases self,
    {
        match self {
            Plan::Scan(t) => Ok(t.clone()),
            Plan::Concat(a, b) => {
                let upper = match a.compute() {
                    Err(e) => {
                        return Err(e);
                    },
                    Ok(t) => t,
                };
                let lower = match b.compute() {
                    Err(e) => {
                        return Err(e);
                    },
                    Ok(t) => t,
                };
                stack_tables(&upper, &lower)
            },
            Plan::EdgeSide { input, name, side } => match input.compute() {
                Err(e) => Err(e),
                Ok(t) => edge_side_of(&t, name.as_str(), side.as_str()),
            },
            Plan::Cross(a, b) => {
                let left = match a.compute() {
                    Err(e) => {
                        return Err(e);
                    },
                    Ok(t) => t,
                };
                let right = match b.compute() {
                    Err(e) => {
                        return Err(e);
                    },
                    Ok(t) => t,
                };
                cross_tables(&left, &right)
            },
            Plan::WithColumn { input, name, value } => match input.compute() {
                Err(e) => Err(e),
                Ok(t) => with_column_of(&t, name.as_str(), value),
            },
            Plan::Filter { input, predicate } => match input.compute() {
                Err(e) => Err(e),
                Ok(t) => keep_rows(&t, predicate),
            },
            Plan::Rename { input, renamings } => match input.compute() {
                Err(e) => Err(e),
                Ok(t) => rename_columns(&t, renamings),
            },
        }
    }
}

} // verus!
