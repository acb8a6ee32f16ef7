//! Reading a graph as a flow network: which tables can be read, and the
//! network that they describe.

use crate::error::{Error, ErrorView, GraphPart, Role};
use crate::frame::table::{
    column_index, has_column, height, values_view, well_formed, Column, TableView, Value, ValueView,
};
use crate::graph::metadata::GraphMetadataView;
use crate::solver::network::{limit, node_limit, ArcView, NetworkView};
use crate::solver::search::ints;
use vstd::prelude::*;

verus! {

/// Whether a cell holds an amount: an integer from nothing to the limit.
pub open spec fn is_amount(v: ValueView) -> bool {
    v matches ValueView::Int(i) && 0 <= i <= limit()
}

/// The amount that a cell holds.
pub open spec fn amount_of(v: ValueView) -> int {
    v->Int_0
}

/// The first row from `i` on whose cell holds no amount.
pub open spec fn first_not_amount(values: Seq<ValueView>, i: int) -> Option<int>
    decreases values.len() - i,
{
    if i < 0 || i >= values.len() {
        None
    } else if !is_amount(values[i]) {
        Some(i)
    } else {
        first_not_amount(values, i + 1)
    }
}

/// The amounts that the cells of a column hold.
pub open spec fn amounts(values: Seq<ValueView>) -> Seq<int> {
    Seq::new(values.len(), |r: int| amount_of(values[r]))
}

/// Whether a value is among the first `k` of a list.
pub open spec fn among(names: Seq<ValueView>, v: ValueView, k: int) -> bool {
    exists|j: int| 0 <= j < k && j < names.len() && #[trigger] names[j] == v
}

/// The place of a value in a list.
pub open spec fn place(names: Seq<ValueView>, v: ValueView) -> int {
    choose|j: int| 0 <= j < names.len() && #[trigger] names[j] == v
}

/// The first row from `i` on whose name a row above has too.
pub open spec fn first_repeat(names: Seq<ValueView>, i: int) -> Option<int>
    decreases names.len() - i,
{
    if i < 0 || i >= names.len() {
        None
    } else if among(names, names[i], i) {
        Some(i)
    } else {
        first_repeat(names, i + 1)
    }
}

/// The first row from `i` on that names a node that there is not.
pub open spec fn first_unknown(names: Seq<ValueView>, refs: Seq<ValueView>, i: int) -> Option<int>
    decreases refs.len() - i,
{
    if i < 0 || i >= refs.len() {
        None
    } else if !among(names, refs[i], names.len() as int) {
        Some(i)
    } else {
        first_unknown(names, refs, i + 1)
    }
}

/// The cells of the column of a name.
pub open spec fn cells(t: TableView, name: Seq<char>) -> Seq<ValueView> {
    t.columns[column_index(t, name)].values
}

/// The columns that a node table must have, in the order in which they are
/// looked for.
pub open spec fn node_columns(m: GraphMetadataView) -> Seq<Seq<char>> {
    seq![m.name, m.capacity, m.supply, m.unit_cost]
}

/// The columns that an edge table must have, in the order in which they are
/// looked for.
pub open spec fn edge_columns(m: GraphMetadataView) -> Seq<Seq<char>> {
    seq![m.src, m.sink, m.capacity, m.unit_cost]
}

/// The first of four columns that a table lacks.
pub open spec fn first_missing(t: TableView, wanted: Seq<Seq<char>>) -> Option<Seq<char>> {
    if !has_column(t, wanted[0]) {
        Some(wanted[0])
    } else if !has_column(t, wanted[1]) {
        Some(wanted[1])
    } else if !has_column(t, wanted[2]) {
        Some(wanted[2])
    } else if !has_column(t, wanted[3]) {
        Some(wanted[3])
    } else {
        None
    }
}

/// A column that must hold amounts, and the first row in which it does not.
pub open spec fn bad_amount(t: TableView, name: Seq<char>, part: GraphPart, role: Role) -> Option<
    ErrorView,
> {
    match first_not_amount(cells(t, name), 0) {
        Some(row) => Some(ErrorView::InvalidValue(part, role, row as nat)),
        None => None,
    }
}

/// A column that must name nodes, and the first row in which it does not.
pub open spec fn bad_end(
    nodes: TableView,
    edges: TableView,
    key: Seq<char>,
    end: Seq<char>,
    role: Role,
) -> Option<ErrorView> {
    match first_unknown(cells(nodes, key), cells(edges, end), 0) {
        Some(row) => Some(ErrorView::UnknownNode(role, row as nat)),
        None => None,
    }
}

/// What keeps a graph from being read as a flow network, if anything does.
/// The tables are looked at in this order, and the first fault is the one
/// reported: a column that the node table lacks, then one that the edge
/// table lacks; more nodes or rows than can be held; a capacity, a supply or
/// a unit cost of a node that is no amount; two nodes of one name; a
/// capacity or a unit cost of an edge that is no amount; a source, and then
/// a sink, that is no node.
pub open spec fn fault(nodes: TableView, edges: TableView, m: GraphMetadataView) -> Option<
    ErrorView,
> {
    if first_missing(nodes, node_columns(m)) is Some {
        Some(ErrorView::MissingColumn(first_missing(nodes, node_columns(m))->0))
    } else if first_missing(edges, edge_columns(m)) is Some {
        Some(ErrorView::MissingColumn(first_missing(edges, edge_columns(m))->0))
    } else if height(nodes) + 1 > node_limit() || height(nodes) + height(edges) > usize::MAX {
        Some(ErrorView::TooLarge)
    } else if bad_amount(nodes, m.capacity, GraphPart::Nodes, Role::Capacity) is Some {
        bad_amount(nodes, m.capacity, GraphPart::Nodes, Role::Capacity)
    } else if bad_amount(nodes, m.supply, GraphPart::Nodes, Role::Supply) is Some {
        bad_amount(nodes, m.supply, GraphPart::Nodes, Role::Supply)
    } else if bad_amount(nodes, m.unit_cost, GraphPart::Nodes, Role::UnitCost) is Some {
        bad_amount(nodes, m.unit_cost, GraphPart::Nodes, Role::UnitCost)
    } else if first_repeat(cells(nodes, m.name), 0) is Some {
        Some(ErrorView::DuplicateNode(first_repeat(cells(nodes, m.name), 0)->0 as nat))
    } else if bad_amount(edges, m.capacity, GraphPart::Edges, Role::Capacity) is Some {
        bad_amount(edges, m.capacity, GraphPart::Edges, Role::Capacity)
    } else if bad_amount(edges, m.unit_cost, GraphPart::Edges, Role::UnitCost) is Some {
        bad_amount(edges, m.unit_cost, GraphPart::Edges, Role::UnitCost)
    } else if bad_end(nodes, edges, m.name, m.src, Role::Src) is Some {
        bad_end(nodes, edges, m.name, m.src, Role::Src)
    } else {
        bad_end(nodes, edges, m.name, m.sink, Role::Sink)
    }
}

/// The arcs of the network of a graph: one for every edge, from its source
/// to its sink, and then one for every node, from the node to the sink of
/// the network, which stands for what the node keeps.
pub open spec fn graph_arcs(nodes: TableView, edges: TableView, m: GraphMetadataView) -> Seq<
    ArcView,
> {
    let n = height(nodes) as int;
    let k = height(edges) as int;
    Seq::new(
        (k + n) as nat,
        |a: int|
            if a < k {
                ArcView {
                    tail: place(cells(nodes, m.name), cells(edges, m.src)[a]),
                    head: place(cells(nodes, m.name), cells(edges, m.sink)[a]),
                    capacity: amount_of(cells(edges, m.capacity)[a]),
                    cost: amount_of(cells(edges, m.unit_cost)[a]),
                }
            } else {
                ArcView {
                    tail: a - k,
                    head: n,
                    capacity: amount_of(cells(nodes, m.capacity)[a - k]),
                    cost: amount_of(cells(nodes, m.unit_cost)[a - k]),
                }
            },
    )
}

/// The flow network that a graph describes: its nodes and one more, the
/// sink; its edges and, for every node, an arc to the sink; and the
/// supplies of its nodes.
pub open spec fn network_of(
    nodes: TableView,
    edges: TableView,
    m: GraphMetadataView,
) -> NetworkView {
    NetworkView {
        nodes: height(nodes) as int + 1,
        arcs: graph_arcs(nodes, edges, m),
        supply: amounts(cells(nodes, m.supply)),
    }
}

/// The columns that a table has are as high as the table.
pub proof fn lemma_columns_full(t: TableView, wanted: Seq<Seq<char>>)
    requires
        well_formed(t),
        wanted.len() == 4,
        first_missing(t, wanted) is None,
    ensures
        forall|i: int| 0 <= i < 4 ==> (#[trigger] cells(t, wanted[i])).len() == height(t),
{
    assert forall|i: int| 0 <= i < 4 implies (#[trigger] cells(t, wanted[i])).len() == height(
        t,
    ) by {
        assert(has_column(t, wanted[i]));
        let at = column_index(t, wanted[i]);
        assert(t.columns[at].values.len() == height(t));
    }
}

/// A column without a first cell that holds no amount holds amounts only.
pub proof fn lemma_all_amounts(values: Seq<ValueView>, i: int)
    requires
        0 <= i,
        first_not_amount(values, i) is None,
    ensures
        forall|r: int| i <= r < values.len() ==> is_amount(#[trigger] values[r]),
    decreases values.len() - i,
{
    if i < values.len() {
        lemma_all_amounts(values, i + 1);
    }
}

/// A column without a first cell that names no node names nodes only.
pub proof fn lemma_all_known(names: Seq<ValueView>, refs: Seq<ValueView>, i: int)
    requires
        0 <= i,
        first_unknown(names, refs, i) is None,
    ensures
        forall|r: int| i <= r < refs.len() ==> among(names, #[trigger] refs[r], names.len() as int),
    decreases refs.len() - i,
{
    if i < refs.len() {
        lemma_all_known(names, refs, i + 1);
    }
}

/// The place of a value among the first `k` of a list, if it is there.
fn find_value(names: &Vec<Value>, v: &Value, k: usize) -> (r: Option<usize>)
    requires
        k <= names@.len(),
    ensures
        r is Some == among(values_view(names@), v@, k as int),
        r is Some ==> r->0 < k && values_view(names@)[r->0 as int] == v@,
{
    let mut j: usize = 0;
    while j < k
        invariant
            j <= k,
            k <= names@.len(),
            forall|i: int| 0 <= i < j ==> #[trigger] values_view(names@)[i] != v@,
        decreases k - j,
    {
        assert(values_view(names@)[j as int] == names@[j as int]@);
        if names[j].same(v) {
            return Some(j);
        }
        j = j + 1;
    }
    None
}

/// Reads the amounts that a column holds.
pub fn read_amounts(column: &Column, part: GraphPart, role: Role) -> (r: Result<Vec<u64>, Error>)
    ensures
        match first_not_amount(column@.values, 0) {
            Some(row) => r is Err && r->Err_0@ == ErrorView::InvalidValue(part, role, row as nat),
            None => r is Ok && ints(r->Ok_0@) == amounts(column@.values) && r->Ok_0@.len()
                == column@.values.len() && forall|i: int|
                0 <= i < column@.values.len() ==> is_amount(#[trigger] column@.values[i])
                    && r->Ok_0@[i] == amount_of(column@.values[i]),
        },
{
    let ghost values = column@.values;
    let mut out: Vec<u64> = Vec::new();
    let mut i: usize = 0;
    while i < column.values.len()
        invariant
            i <= column.values@.len(),
            values == column@.values,
            values.len() == column.values@.len(),
            out@.len() == i,
            first_not_amount(values, 0) == first_not_amount(values, i as int),
            forall|j: int| 0 <= j < i ==> is_amount(#[trigger] values[j]) && out@[j] == amount_of(
                values[j],
            ),
        decreases column.values@.len() - i,
    {
        assert(values[i as int] == column.values@[i as int]@);
        match &column.values[i] {
            Value::Int(v) => {
                if *v < 0 || *v > 0xffff_ffff {
                    return Err(Error::InvalidValue(part, role, i));
                }
                out.push(*v as u64);
            },
            _ => {
                return Err(Error::InvalidValue(part, role, i));
            },
        }
        i = i + 1;
    }
    assert(ints(out@) =~= amounts(values));
    Ok(out)
}

/// Checks that no two nodes have one name.
pub fn check_distinct(names: &Vec<Value>) -> (r: Result<(), Error>)
    ensures
        match first_repeat(values_view(names@), 0) {
            Some(row) => r is Err && r->Err_0@ == ErrorView::DuplicateNode(row as nat),
            None => r is Ok && forall|i: int, j: int|
                0 <= i < j < names@.len() ==> #[trigger] values_view(names@)[i]
                    != #[trigger] values_view(names@)[j],
        },
{
    let ghost views = values_view(names@);
    let mut i: usize = 0;
    while i < names.len()
        invariant
            i <= names@.len(),
            views == values_view(names@),
            first_repeat(views, 0) == first_repeat(views, i as int),
            forall|a: int, b: int| 0 <= a < b < i ==> #[trigger] views[a] != #[trigger] views[b],
        decreases names@.len() - i,
    {
        assert(views[i as int] == names@[i as int]@);
        if find_value(names, &names[i], i).is_some() {
            return Err(Error::DuplicateNode(i));
        }
        i = i + 1;
    }
    Ok(())
}

/// Finds the node that every cell of a column names.
pub fn resolve(names: &Vec<Value>, refs: &Vec<Value>, role: Role) -> (r: Result<Vec<usize>, Error>)
    requires
        forall|i: int, j: int|
            0 <= i < j < names@.len() ==> #[trigger] values_view(names@)[i]
                != #[trigger] values_view(names@)[j],
    ensures
        match first_unknown(values_view(names@), values_view(refs@), 0) {
            Some(row) => r is Err && r->Err_0@ == ErrorView::UnknownNode(role, row as nat),
            None => r is Ok && r->Ok_0@.len() == refs@.len() && forall|e: int|
                0 <= e < refs@.len() ==> (#[trigger] r->Ok_0@[e]) < names@.len() && r->Ok_0@[e]
                    == place(values_view(names@), values_view(refs@)[e]),
        },
{
    let ghost known = values_view(names@);
    let ghost wanted = values_view(refs@);
    let mut out: Vec<usize> = Vec::new();
    let mut e: usize = 0;
    while e < refs.len()
        invariant
            e <= refs@.len(),
            known == values_view(names@),
            wanted == values_view(refs@),
            out@.len() == e,
            first_unknown(known, wanted, 0) == first_unknown(known, wanted, e as int),
            forall|i: int, j: int|
                0 <= i < j < names@.len() ==> #[trigger] known[i] != #[trigger] known[j],
            forall|d: int|
                0 <= d < e ==> (#[trigger] out@[d]) < names@.len() && out@[d] == place(
                    known,
                    wanted[d],
                ),
        decreases refs@.len() - e,
    {
        assert(wanted[e as int] == refs@[e as int]@);
        match find_value(names, &refs[e], names.len()) {
            None => {
                return Err(Error::UnknownNode(role, e));
            },
            Some(j) => {
                proof {
                    let p = place(known, wanted[e as int]);
                    assert(known[j as int] == wanted[e as int]);
                    if p < j {
                        assert(known[p] != known[j as int]);
                    } else if j < p {
                        assert(known[j as int] != known[p]);
                    }
                }
                out.push(j);
            },
        }
        e = e + 1;
    }
    Ok(out)
}

/// The sum of a list of amounts.
pub open spec fn sum(amounts: Seq<int>) -> int
    decreases amounts.len(),
{
    if amounts.len() == 0 {
        0
    } else {
        sum(amounts.drop_last()) + amounts.last()
    }
}

/// Adds up a list of amounts.
pub fn sum_of(amounts: &Vec<u64>) -> (total: u64)
    requires
        amounts@.len() <= node_limit(),
        forall|i: int| 0 <= i < amounts@.len() ==> #[trigger] amounts@[i] <= limit(),
    ensures
        total == sum(ints(amounts@)),
{
    let mut total: u64 = 0;
    let mut i: usize = 0;
    while i < amounts.len()
        invariant
            i <= amounts@.len(),
            amounts@.len() <= node_limit(),
            forall|j: int| 0 <= j < amounts@.len() ==> #[trigger] amounts@[j] <= limit(),
            total == sum(ints(amounts@).take(i as int)),
            total <= i * limit(),
        decreases amounts@.len() - i,
    {
        proof {
            let next = ints(amounts@).take(i + 1);
            assert(next.drop_last() =~= ints(amounts@).take(i as int));
            assert(next.last() == amounts@[i as int]);
            assert(i * limit() + limit() == (i + 1) * limit()) by (nonlinear_arith);
            assert((i + 1) * limit() <= node_limit() * limit()) by (nonlinear_arith)
                requires
                    i + 1 <= node_limit(),
                    limit() >= 0,
            ;
            assert(node_limit() * limit() < u64::MAX) by (nonlinear_arith)
                requires
                    node_limit() == 0x1000_0000,
                    limit() == 0xffff_ffff,
            ;
        }
        total = total + amounts[i];
        i = i + 1;
    }
    assert(ints(amounts@).take(i as int) =~= ints(amounts@));
    total
}

} // verus!
