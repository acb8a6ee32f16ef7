//! Scopes, the graphs they name, and the filters that select them.

use crate::text::{
    compare_str, lemma_str_lt_irreflexive, lemma_str_lt_total, lemma_str_lt_transitive, same_str,
    str_lt, Order,
};
use vstd::prelude::*;

verus! {

/// Names one logical graph.
#[derive(Debug, PartialEq, Eq, PartialOrd, Ord, Hash)]
pub struct GraphScope {
    pub kind: String,
    pub namespace: String,
    pub name: String,
}

/// A scope as a mathematical value.
pub ghost struct ScopeView {
    pub kind: Seq<char>,
    pub namespace: Seq<char>,
    pub name: Seq<char>,
}

impl View for GraphScope {
    type V = ScopeView;

    open spec fn view(&self) -> ScopeView {
        ScopeView { kind: self.kind@, namespace: self.namespace@, name: self.name@ }
    }
}

/// `a` comes strictly before `b`: by kind, then by namespace, then by name.
pub open spec fn scope_lt(a: ScopeView, b: ScopeView) -> bool {
    ||| str_lt(a.kind, b.kind)
    ||| a.kind == b.kind && str_lt(a.namespace, b.namespace)
    ||| a.kind == b.kind && a.namespace == b.namespace && str_lt(a.name, b.name)
}

/// The three-way comparison of two scopes.
pub open spec fn scope_order(a: ScopeView, b: ScopeView) -> Order {
    if scope_lt(a, b) {
        Order::Less
    } else if a == b {
        Order::Equal
    } else {
        Order::Greater
    }
}

/// No scope comes before itself.
pub proof fn lemma_scope_lt_irreflexive(a: ScopeView)
    ensures
        !scope_lt(a, a),
{
    lemma_str_lt_irreflexive(a.kind);
    lemma_str_lt_irreflexive(a.namespace);
    lemma_str_lt_irreflexive(a.name);
}

/// The order of scopes is transitive.
pub proof fn lemma_scope_lt_transitive(a: ScopeView, b: ScopeView, c: ScopeView)
    requires
        scope_lt(a, b),
        scope_lt(b, c),
    ensures
        scope_lt(a, c),
{
    if str_lt(a.kind, b.kind) && str_lt(b.kind, c.kind) {
        lemma_str_lt_transitive(a.kind, b.kind, c.kind);
    }
    if str_lt(a.namespace, b.namespace) && str_lt(b.namespace, c.namespace) {
        lemma_str_lt_transitive(a.namespace, b.namespace, c.namespace);
    }
    if str_lt(a.name, b.name) && str_lt(b.name, c.name) {
        lemma_str_lt_transitive(a.name, b.name, c.name);
    }
}

/// Of two different scopes one comes before the other.
pub proof fn lemma_scope_lt_total(a: ScopeView, b: ScopeView)
    ensures
        scope_lt(a, b) || a == b || scope_lt(b, a),
{
    lemma_str_lt_total(a.kind, b.kind);
    lemma_str_lt_total(a.namespace, b.namespace);
    lemma_str_lt_total(a.name, b.name);
}

impl Clone for GraphScope {
    fn clone(&self) -> (copy: Self)
        ensures
            copy@ == self@,
    {
        GraphScope {
            kind: self.kind.clone(),
            namespace: self.namespace.clone(),
            name: self.name.clone(),
        }
    }
}

impl GraphScope {
    /// Compares two scopes by kind, then namespace, then name.
    pub fn compare(&self, other: &GraphScope) -> (r: Order)
        ensures
            r == scope_order(self@, other@),
    {
        proof {
            lemma_str_lt_irreflexive(self.kind@);
            lemma_str_lt_irreflexive(self.namespace@);
            lemma_str_lt_irreflexive(self.name@);
        }
        match compare_str(self.kind.as_str(), other.kind.as_str()) {
            Order::Less => Order::Less,
            Order::Greater => Order::Greater,
            Order::Equal => match compare_str(self.namespace.as_str(), other.namespace.as_str()) {
                Order::Less => Order::Less,
                Order::Greater => Order::Greater,
                Order::Equal => compare_str(self.name.as_str(), other.name.as_str()),
            },
        }
    }
}

/// A predicate on scopes: each part that is given must be the scope's own.
#[derive(Debug, PartialEq, Eq, PartialOrd, Ord, Hash)]
pub struct GraphFilter {
    pub kind: Option<String>,
    pub namespace: Option<String>,
    pub name: Option<String>,
}

/// A filter as a mathematical value.
pub ghost struct FilterView {
    pub kind: Option<Seq<char>>,
    pub namespace: Option<Seq<char>>,
    pub name: Option<Seq<char>>,
}

/// An optional part of a filter as a mathematical value.
pub open spec fn part_view(part: Option<String>) -> Option<Seq<char>> {
    match part {
        Some(part) => Some(part@),
        None => None,
    }
}

impl View for GraphFilter {
    type V = FilterView;

    open spec fn view(&self) -> FilterView {
        FilterView {
            kind: part_view(self.kind),
            namespace: part_view(self.namespace),
            name: part_view(self.name),
        }
    }
}

/// A part of a filter admits a value where it is not given or is that value.
pub open spec fn admits(part: Option<Seq<char>>, value: Seq<char>) -> bool {
    match part {
        Some(wanted) => wanted == value,
        None => true,
    }
}

/// Whether a scope satisfies a filter.
pub open spec fn filter_contains(f: FilterView, s: ScopeView) -> bool {
    admits(f.kind, s.kind) && admits(f.namespace, s.namespace) && admits(f.name, s.name)
}

/// Whether a scope passes an optional filter: none lets every scope pass.
pub open spec fn passes(f: Option<FilterView>, s: ScopeView) -> bool {
    match f {
        Some(f) => filter_contains(f, s),
        None => true,
    }
}

/// Whether a part of a filter admits a value.
fn part_admits(part: &Option<String>, value: &str) -> (b: bool)
    ensures
        b == admits(part_view(*part), value@),
{
    match part {
        Some(wanted) => same_str(wanted.as_str(), value),
        None => true,
    }
}

impl GraphFilter {
    /// Whether a scope satisfies the filter.
    pub fn contains(&self, scope: &GraphScope) -> (b: bool)
        ensures
            b == filter_contains(self@, scope@),
    {
        part_admits(&self.kind, scope.kind.as_str()) && part_admits(
            &self.namespace,
            scope.namespace.as_str(),
        ) && part_admits(&self.name, scope.name.as_str())
    }
}

/// A graph under its scope.
#[derive(Debug, PartialEq)]
pub struct Graph<F> {
    pub scope: GraphScope,
    pub data: F,
}

/// The two tables of a graph.
#[derive(Debug, PartialEq)]
pub struct GraphData<F> {
    pub edges: F,
    pub nodes: F,
}

impl<F: Clone> Clone for GraphData<F> {
    fn clone(&self) -> (copy: Self)
        ensures
            cloned::<F>(self.edges, copy.edges),
            cloned::<F>(self.nodes, copy.nodes),
    {
        GraphData { edges: self.edges.clone(), nodes: self.nodes.clone() }
    }
}

impl<F: Clone> Clone for Graph<F> {
    fn clone(&self) -> (copy: Self)
        ensures
            copy.scope@ == self.scope@,
            cloned::<F>(self.data, copy.data),
    {
        Graph { scope: self.scope.clone(), data: self.data.clone() }
    }
}

/// The two tables of a graph as a mathematical value.
pub ghost struct GraphDataView<V> {
    pub edges: V,
    pub nodes: V,
}

impl<F: View> View for GraphData<F> {
    type V = GraphDataView<F::V>;

    open spec fn view(&self) -> GraphDataView<F::V> {
        GraphDataView { edges: self.edges@, nodes: self.nodes@ }
    }
}

/// A graph as a mathematical value.
pub ghost struct GraphView<V> {
    pub scope: ScopeView,
    pub data: V,
}

impl<F: View> View for Graph<F> {
    type V = GraphView<F::V>;

    open spec fn view(&self) -> GraphView<F::V> {
        GraphView { scope: self.scope@, data: self.data@ }
    }
}

} // verus!
