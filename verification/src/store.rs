//! The graph store: the latest graph of every scope.

use crate::frame::lazy::{LazyFrame, LazyFrameView};
use crate::graph::scope::{
    lemma_scope_lt_irreflexive, lemma_scope_lt_total, lemma_scope_lt_transitive, passes, scope_lt,
    FilterView, Graph, GraphData, GraphDataView, GraphFilter, GraphScope, GraphView, ScopeView,
};
use crate::text::Order;
use vstd::prelude::*;

verus! {

/// What the store holds of one scope as a mathematical value.
pub type StoredData = GraphDataView<LazyFrameView>;

/// A stored graph as a mathematical value.
pub type StoredView = GraphView<StoredData>;

/// The graphs of a list as mathematical values.
pub open spec fn graphs_view(graphs: Seq<Graph<GraphData<LazyFrame>>>) -> Seq<StoredView> {
    graphs.map_values(|g: Graph<GraphData<LazyFrame>>| g@)
}

/// The scopes of a list of graphs go strictly up.
pub open spec fn ascending(graphs: Seq<StoredView>) -> bool {
    forall|i: int, j: int|
        0 <= i < j < graphs.len() ==> scope_lt((#[trigger] graphs[i]).scope, (
        #[trigger] graphs[j]).scope)
}

/// Whether a list holds a graph under a scope.
pub open spec fn holds(graphs: Seq<StoredView>, scope: ScopeView) -> bool {
    exists|i: int| 0 <= i < graphs.len() && (#[trigger] graphs[i]).scope == scope
}

/// Where a list holds the graph of a scope.
pub open spec fn place_of(graphs: Seq<StoredView>, scope: ScopeView) -> int {
    choose|i: int| 0 <= i < graphs.len() && (#[trigger] graphs[i]).scope == scope
}

/// The graph of every scope that a list holds.
pub open spec fn map_of(graphs: Seq<StoredView>) -> Map<ScopeView, StoredData> {
    Map::new(
        |scope: ScopeView| holds(graphs, scope),
        |scope: ScopeView| graphs[place_of(graphs, scope)].data,
    )
}

/// Whether `listing` is what the store lists under a filter: the graphs of
/// the scopes that pass the filter, each once, as the store holds them, in
/// the order of their scopes.
pub open spec fn is_listing(
    listing: Seq<StoredView>,
    stored: Map<ScopeView, StoredData>,
    filter: Option<FilterView>,
) -> bool {
    &&& ascending(listing)
    &&& forall|i: int|
        0 <= i < listing.len() ==> {
            &&& stored.contains_key((#[trigger] listing[i]).scope)
            &&& stored[listing[i].scope] == listing[i].data
            &&& passes(filter, listing[i].scope)
        }
    &&& forall|scope: ScopeView|
        stored.contains_key(scope) && passes(filter, scope) ==> #[trigger] holds(listing, scope)
}

/// In a list whose scopes go up, a scope has one place only.
pub proof fn lemma_one_place(graphs: Seq<StoredView>, i: int)
    requires
        ascending(graphs),
        0 <= i < graphs.len(),
    ensures
        holds(graphs, graphs[i].scope),
        place_of(graphs, graphs[i].scope) == i,
{
    let j = place_of(graphs, graphs[i].scope);
    lemma_scope_lt_irreflexive(graphs[i].scope);
    if j < i {
        assert(scope_lt(graphs[j].scope, graphs[i].scope));
    } else if i < j {
        assert(scope_lt(graphs[i].scope, graphs[j].scope));
    }
}

/// An in-memory store of graphs, one per scope.
pub struct NetworkGraphDB {
    graphs: Vec<Graph<GraphData<LazyFrame>>>,
}

impl View for NetworkGraphDB {
    type V = Map<ScopeView, StoredData>;

    closed spec fn view(&self) -> Map<ScopeView, StoredData> {
        map_of(graphs_view(self.graphs@))
    }
}

/// A copy of a stored graph.
fn clone_graph(g: &Graph<GraphData<LazyFrame>>) -> (copy: Graph<GraphData<LazyFrame>>)
    ensures
        copy@ == g@,
{
    Graph {
        scope: g.scope.clone(),
        data: GraphData { edges: g.data.edges.clone(), nodes: g.data.nodes.clone() },
    }
}

impl NetworkGraphDB {
    /// The graphs of a store are held in the order of their scopes, one per
    /// scope.
    #[verifier::type_invariant]
    spec fn in_order(self) -> bool {
        ascending(graphs_view(self.graphs@))
    }

    /// The store that holds nothing.
    pub fn new() -> (db: NetworkGraphDB)
        ensures
            db@ == Map::<ScopeView, StoredData>::empty(),
    {
        let db = NetworkGraphDB { graphs: Vec::new() };
        assert(db@ =~= Map::<ScopeView, StoredData>::empty());
        db
    }

    /// The first place whose scope does not come before `scope`, and whether
    /// the graph there is the one of `scope`.
    fn position(&self, scope: &GraphScope) -> (r: (usize, bool))
        ensures
            r.0 <= self.graphs@.len(),
            forall|i: int| 0 <= i < r.0 ==> scope_lt(#[trigger] self.graphs@[i]@.scope, scope@),
            forall|i: int|
                r.0 <= i < self.graphs@.len() ==> !scope_lt(
                    #[trigger] self.graphs@[i]@.scope,
                    scope@,
                ),
            r.1 == (r.0 < self.graphs@.len() && self.graphs@[r.0 as int]@.scope == scope@),
            r.1 == holds(graphs_view(self.graphs@), scope@),
    {
        proof {
            use_type_invariant(self);
        }
        let ghost views = graphs_view(self.graphs@);
        let mut lo: usize = 0;
        let mut hi: usize = self.graphs.len();
        while lo < hi
            invariant
                lo <= hi <= self.graphs@.len(),
                views == graphs_view(self.graphs@),
                ascending(views),
                forall|i: int| 0 <= i < lo ==> scope_lt(#[trigger] self.graphs@[i]@.scope, scope@),
                forall|i: int|
                    hi <= i < self.graphs@.len() ==> !scope_lt(
                        #[trigger] self.graphs@[i]@.scope,
                        scope@,
                    ),
            decreases hi - lo,
        {
            let mid = lo + (hi - lo) / 2;
            match self.graphs[mid].scope.compare(scope) {
                Order::Less => {
                    proof {
                        assert forall|i: int| 0 <= i < mid + 1 implies scope_lt(
                            #[trigger] self.graphs@[i]@.scope,
                            scope@,
                        ) by {
                            if i < mid {
                                assert(scope_lt(views[i].scope, views[mid as int].scope));
                                lemma_scope_lt_transitive(
                                    views[i].scope,
                                    views[mid as int].scope,
                                    scope@,
                                );
                            }
                        }
                    }
                    lo = mid + 1;
                },
                _ => {
                    proof {
                        assert forall|i: int| mid <= i < self.graphs@.len() implies !scope_lt(
                            #[trigger] self.graphs@[i]@.scope,
                            scope@,
                        ) by {
                            if mid < i && scope_lt(views[i].scope, scope@) {
                                assert(scope_lt(views[mid as int].scope, views[i].scope));
                                lemma_scope_lt_transitive(
                                    views[mid as int].scope,
                                    views[i].scope,
                                    scope@,
                                );
                            }
                        }
                    }
                    hi = mid;
                },
            }
        }
        let found = if lo < self.graphs.len() {
            match self.graphs[lo].scope.compare(scope) {
                Order::Equal => true,
                _ => false,
            }
        } else {
            false
        };
        proof {
            lemma_scope_lt_irreflexive(scope@);
            if found {
                assert(views[lo as int].scope == scope@);
            }
            if holds(views, scope@) {
                let k = place_of(views, scope@);
                assert(views[k] == self.graphs@[k]@);
                if k > lo {
                    assert(scope_lt(views[lo as int].scope, views[k].scope));
                    lemma_scope_lt_total(views[lo as int].scope, scope@);
                }
            }
        }
        (lo, found)
    }

    /// The graph of a scope, as a copy, where the store holds one.
    pub fn get(&self, scope: &GraphScope) -> (r: Option<Graph<GraphData<LazyFrame>>>)
        ensures
            r is Some == self@.contains_key(scope@),
            r is Some ==> r->0@ == (GraphView { scope: scope@, data: self@[scope@] }),
    {
        proof {
            use_type_invariant(self);
        }
        let (at, found) = self.position(scope);
        if found {
            proof {
                let views = graphs_view(self.graphs@);
                assert(views[at as int] == self.graphs@[at as int]@);
                lemma_one_place(views, at as int);
            }
            Some(clone_graph(&self.graphs[at]))
        } else {
            None
        }
    }

    /// Puts a graph under its scope, in the place of the one that was there.
    pub fn insert(&mut self, graph: Graph<GraphData<LazyFrame>>)
        ensures
            final(self)@ == old(self)@.insert(graph@.scope, graph@.data),
    {
        proof {
            use_type_invariant(&*self);
        }
        let (at, found) = self.position(&graph.scope);
        let mut graphs: Vec<Graph<GraphData<LazyFrame>>> = Vec::new();
        assert(graphs_view(graphs@) =~= Seq::empty());
        core::mem::swap(&mut self.graphs, &mut graphs);
        let ghost before = graphs_view(graphs@);
        let ghost new = graph@;
        if found {
            graphs[at] = graph;
        } else {
            graphs.insert(at, graph);
        }
        let ghost after = graphs_view(graphs@);
        proof {
            lemma_scope_lt_irreflexive(new.scope);
            if found {
                assert(after =~= before.update(at as int, new));
            } else {
                assert(after =~= before.insert(at as int, new));
            }
            assert forall|i: int, j: int| 0 <= i < j < after.len() implies scope_lt(
                (#[trigger] after[i]).scope,
                (#[trigger] after[j]).scope,
            ) by {
                lemma_upsert_ascending(before, new, at as int, found, i, j);
            }
            lemma_upsert_map(before, new, at as int, found);
        }
        core::mem::swap(&mut self.graphs, &mut graphs);
    }

    /// The graphs whose scope passes the filter, as copies, in the order of
    /// their scopes. Without a filter every graph passes.
    pub fn list(&self, filter: Option<&GraphFilter>) -> (r: Vec<Graph<GraphData<LazyFrame>>>)
        ensures
            is_listing(
                graphs_view(r@),
                self@,
                match filter {
                    Some(f) => Some(f@),
                    None => None,
                },
            ),
    {
        proof {
            use_type_invariant(self);
        }
        let ghost views = graphs_view(self.graphs@);
        let ghost wanted = match filter {
            Some(f) => Some(f@),
            None => None,
        };
        let mut out: Vec<Graph<GraphData<LazyFrame>>> = Vec::new();
        let ghost mut from: Seq<int> = Seq::empty();
        let mut i: usize = 0;
        while i < self.graphs.len()
            invariant
                i <= self.graphs@.len(),
                views == graphs_view(self.graphs@),
                ascending(views),
                wanted == match filter {
                    Some(f) => Some(f@),
                    None => None,
                },
                from.len() == out@.len(),
                forall|k: int|
                    0 <= k < from.len() ==> 0 <= #[trigger] from[k] < i && out@[k]@
                        == views[from[k]] && passes(wanted, views[from[k]].scope),
                forall|k: int, l: int| 0 <= k < l < from.len() ==> from[k] < from[l],
                forall|j: int|
                    0 <= j < i && passes(wanted, (#[trigger] views[j]).scope) ==> holds(
                        graphs_view(out@),
                        views[j].scope,
                    ),
            decreases self.graphs@.len() - i,
        {
            let g = &self.graphs[i];
            assert(views[i as int] == g@);
            let wanted_here = match filter {
                Some(f) => f.contains(&g.scope),
                None => true,
            };
            if wanted_here {
                let ghost earlier = graphs_view(out@);
                out.push(clone_graph(g));
                proof {
                    from = from.push(i as int);
                    let now = graphs_view(out@);
                    assert(now =~= earlier.push(g@));
                    assert forall|j: int|
                        0 <= j < i + 1 && passes(wanted, (#[trigger] views[j]).scope) implies holds(
                        now,
                        views[j].scope,
                    ) by {
                        if j < i {
                            let k = place_of(earlier, views[j].scope);
                            assert(now[k] == earlier[k]);
                        } else {
                            assert(now[now.len() - 1].scope == views[j].scope);
                        }
                    }
                }
            }
            i = i + 1;
        }
        proof {
            let listing = graphs_view(out@);
            assert forall|k: int, l: int| 0 <= k < l < listing.len() implies scope_lt(
                (#[trigger] listing[k]).scope,
                (#[trigger] listing[l]).scope,
            ) by {
                assert(listing[k] == views[from[k]]);
                assert(listing[l] == views[from[l]]);
            }
            assert forall|k: int| 0 <= k < listing.len() implies {
                &&& self@.contains_key((#[trigger] listing[k]).scope)
                &&& self@[listing[k].scope] == listing[k].data
                &&& passes(wanted, listing[k].scope)
            } by {
                assert(listing[k] == views[from[k]]);
                lemma_one_place(views, from[k]);
            }
            assert forall|scope: ScopeView|
                self@.contains_key(scope) && passes(wanted, scope) implies #[trigger] holds(
                listing,
                scope,
            ) by {
                let j = place_of(views, scope);
                assert(views[j].scope == scope);
            }
        }
        out
    }

    /// Releases what the store holds on to outside memory: nothing.
    pub fn close(&self) {
    }
}

impl Default for NetworkGraphDB {
    fn default() -> (db: Self)
        ensures
            db@ == Map::<ScopeView, StoredData>::empty(),
    {
        NetworkGraphDB::new()
    }
}

impl Clone for NetworkGraphDB {
    /// A snapshot of the store: what it holds now, whatever is put into the
    /// store later.
    fn clone(&self) -> (copy: Self)
        ensures
            copy@ == self@,
    {
        proof {
            use_type_invariant(self);
        }
        let mut graphs: Vec<Graph<GraphData<LazyFrame>>> = Vec::new();
        let mut i: usize = 0;
        while i < self.graphs.len()
            invariant
                i <= self.graphs@.len(),
                graphs@.len() == i,
                forall|j: int| 0 <= j < i ==> (#[trigger] graphs@[j])@ == self.graphs@[j]@,
            decreases self.graphs@.len() - i,
        {
            graphs.push(clone_graph(&self.graphs[i]));
            i = i + 1;
        }
        assert(graphs_view(graphs@) =~= graphs_view(self.graphs@));
        NetworkGraphDB { graphs }
    }
}

/// A graph that was put into the store is what the store then holds under
/// its scope, whatever it held there before.
pub proof fn lemma_insert_then_get(stored: Map<ScopeView, StoredData>, graph: StoredView)
    ensures
        stored.insert(graph.scope, graph.data).contains_key(graph.scope),
        stored.insert(graph.scope, graph.data)[graph.scope] == graph.data,
{
}

/// Of two graphs put under one scope the later one stays, and the graphs of
/// other scopes are as they were.
pub proof fn lemma_last_write_wins(
    stored: Map<ScopeView, StoredData>,
    first: StoredView,
    second: StoredView,
    other: ScopeView,
)
    requires
        first.scope == second.scope,
        other != first.scope,
    ensures
        stored.insert(first.scope, first.data).insert(second.scope, second.data) == stored.insert(
            second.scope,
            second.data,
        ),
        stored.insert(first.scope, first.data).contains_key(other) == stored.contains_key(other),
        stored.contains_key(other) ==> stored.insert(first.scope, first.data)[other]
            == stored[other],
{
    assert(stored.insert(first.scope, first.data).insert(second.scope, second.data)
        =~= stored.insert(second.scope, second.data));
}

/// A listing holds every stored scope that passes the filter at exactly one
/// place, and nothing else.
pub proof fn lemma_listing_each_once(
    listing: Seq<StoredView>,
    stored: Map<ScopeView, StoredData>,
    filter: Option<FilterView>,
    scope: ScopeView,
)
    requires
        is_listing(listing, stored, filter),
    ensures
        holds(listing, scope) == (stored.contains_key(scope) && passes(filter, scope)),
        forall|i: int, j: int|
            0 <= i < listing.len() && 0 <= j < listing.len() && listing[i].scope == scope
                && listing[j].scope == scope ==> i == j,
{
    if holds(listing, scope) {
        let i = place_of(listing, scope);
        assert(stored.contains_key(listing[i].scope));
    }
    assert forall|i: int, j: int|
        0 <= i < listing.len() && 0 <= j < listing.len() && listing[i].scope == scope
            && listing[j].scope == scope implies i == j by {
        lemma_one_place(listing, i);
        lemma_one_place(listing, j);
    }
}

/// Two lists whose scopes go up and which hold the same graphs are the same
/// list.
pub proof fn lemma_same_graphs_same_list(a: Seq<StoredView>, b: Seq<StoredView>)
    requires
        ascending(a),
        ascending(b),
        forall|i: int|
            0 <= i < a.len() ==> holds(b, (#[trigger] a[i]).scope) && b[place_of(b, a[i].scope)]
                == a[i],
        forall|j: int|
            0 <= j < b.len() ==> holds(a, (#[trigger] b[j]).scope) && a[place_of(a, b[j].scope)]
                == b[j],
    ensures
        a == b,
    decreases a.len(),
{
    if a.len() == 0 {
        if b.len() > 0 {
            assert(holds(a, b[0].scope));
        }
        assert(a =~= b);
    } else {
        let x = a.last();
        let j = place_of(b, x.scope);
        assert(b[j] == x);
        if b.len() - 1 > j {
            let y = b.last();
            let i = place_of(a, y.scope);
            assert(a[i] == y);
            assert(scope_lt(b[j].scope, b[b.len() - 1].scope));
            lemma_scope_lt_irreflexive(x.scope);
            if i < a.len() - 1 {
                assert(scope_lt(a[i].scope, a[a.len() - 1].scope));
                lemma_scope_lt_transitive(x.scope, y.scope, x.scope);
            }
        }
        assert(b.last() == x);
        let short_a = a.drop_last();
        let short_b = b.drop_last();
        lemma_scope_lt_irreflexive(x.scope);
        assert forall|i: int| 0 <= i < short_a.len() implies holds(
            short_b,
            (#[trigger] short_a[i]).scope,
        ) && short_b[place_of(short_b, short_a[i].scope)] == short_a[i] by {
            assert(short_a[i] == a[i]);
            let k = place_of(b, a[i].scope);
            assert(scope_lt(a[i].scope, a[a.len() - 1].scope));
            assert(k < b.len() - 1);
            assert(short_b[k] == b[k]);
            lemma_one_place(short_b, k);
        }
        assert forall|j: int| 0 <= j < short_b.len() implies holds(
            short_a,
            (#[trigger] short_b[j]).scope,
        ) && short_a[place_of(short_a, short_b[j].scope)] == short_b[j] by {
            assert(short_b[j] == b[j]);
            let k = place_of(a, b[j].scope);
            assert(scope_lt(b[j].scope, b[b.len() - 1].scope));
            assert(k < a.len() - 1);
            assert(short_a[k] == a[k]);
            lemma_one_place(short_a, k);
        }
        lemma_same_graphs_same_list(short_a, short_b);
        assert(a =~= short_a.push(x));
        assert(b =~= short_b.push(x));
    }
}

/// What a store lists under a filter is one list and no other.
pub proof fn lemma_listing_unique(
    a: Seq<StoredView>,
    b: Seq<StoredView>,
    stored: Map<ScopeView, StoredData>,
    filter: Option<FilterView>,
)
    requires
        is_listing(a, stored, filter),
        is_listing(b, stored, filter),
    ensures
        a == b,
{
    assert forall|i: int| 0 <= i < a.len() implies holds(b, (#[trigger] a[i]).scope) && b[place_of(
        b,
        a[i].scope,
    )] == a[i] by {
        assert(stored.contains_key(a[i].scope) && passes(filter, a[i].scope));
        assert(holds(b, a[i].scope));
        let k = place_of(b, a[i].scope);
        assert(stored[b[k].scope] == b[k].data);
    }
    assert forall|j: int| 0 <= j < b.len() implies holds(a, (#[trigger] b[j]).scope) && a[place_of(
        a,
        b[j].scope,
    )] == b[j] by {
        assert(stored.contains_key(b[j].scope) && passes(filter, b[j].scope));
        assert(holds(a, b[j].scope));
        let k = place_of(a, b[j].scope);
        assert(stored[a[k].scope] == a[k].data);
    }
    lemma_same_graphs_same_list(a, b);
}

/// Putting a graph into a list at the place that `position` finds keeps the
/// scopes going up.
proof fn lemma_upsert_ascending(
    before: Seq<StoredView>,
    new: StoredView,
    at: int,
    found: bool,
    i: int,
    j: int,
)
    requires
        ascending(before),
        0 <= at <= before.len(),
        forall|k: int| 0 <= k < at ==> scope_lt(#[trigger] before[k].scope, new.scope),
        forall|k: int| at <= k < before.len() ==> !scope_lt(#[trigger] before[k].scope, new.scope),
        found == (at < before.len() && before[at].scope == new.scope),
        0 <= i < j < upsert(before, new, at, found).len(),
    ensures
        scope_lt(upsert(before, new, at, found)[i].scope, upsert(before, new, at, found)[j].scope),
{
    let after = upsert(before, new, at, found);
    if found {
        if i != at && j != at {
            assert(scope_lt(before[i].scope, before[j].scope));
        } else if i == at {
            assert(scope_lt(before[at].scope, before[j].scope));
        } else {
            assert(scope_lt(before[i].scope, before[at].scope));
        }
    } else {
        if j < at {
            assert(scope_lt(before[i].scope, before[j].scope));
        } else if j == at {
            assert(scope_lt(before[i].scope, new.scope));
        } else if i == at {
            let old_j = j - 1;
            assert(!scope_lt(before[old_j].scope, new.scope));
            lemma_scope_lt_total(before[old_j].scope, new.scope);
            if before[old_j].scope == new.scope {
                if old_j > at {
                    assert(scope_lt(before[at].scope, before[old_j].scope));
                    assert(!scope_lt(before[at].scope, new.scope));
                }
            }
        } else if i > at {
            assert(scope_lt(before[i - 1].scope, before[j - 1].scope));
        } else {
            assert(after[j] == before[j - 1]);
            if i < j - 1 {
                assert(scope_lt(before[i].scope, before[j - 1].scope));
            } else {
                assert(scope_lt(before[i].scope, new.scope));
            }
        }
    }
}

/// A list with a graph put in at a place: over the graph that is there, or
/// before it.
pub open spec fn upsert(before: Seq<StoredView>, new: StoredView, at: int, found: bool) -> Seq<
    StoredView,
> {
    if found {
        before.update(at, new)
    } else {
        before.insert(at, new)
    }
}

/// Putting a graph into a list changes what the list holds of that graph's
/// scope, and of no other.
proof fn lemma_upsert_map(before: Seq<StoredView>, new: StoredView, at: int, found: bool)
    requires
        ascending(before),
        ascending(upsert(before, new, at, found)),
        0 <= at <= before.len(),
        found == (at < before.len() && before[at].scope == new.scope),
        found == holds(before, new.scope),
    ensures
        map_of(upsert(before, new, at, found)) == map_of(before).insert(new.scope, new.data),
{
    let after = upsert(before, new, at, found);
    let want = map_of(before).insert(new.scope, new.data);
    assert(after[at] == new);
    lemma_one_place(after, at);
    assert forall|scope: ScopeView| map_of(after).contains_key(scope) == want.contains_key(
        scope,
    ) by {
        if holds(after, scope) {
            let k = place_of(after, scope);
            if k != at {
                let old_k = if found || k < at {
                    k
                } else {
                    k - 1
                };
                assert(before[old_k] == after[k]);
            }
        }
        if holds(before, scope) {
            let k = place_of(before, scope);
            if !(found && k == at) {
                let new_k = if found || k < at {
                    k
                } else {
                    k + 1
                };
                assert(after[new_k] == before[k]);
            }
        }
    }
    assert forall|scope: ScopeView| map_of(after).contains_key(scope) implies map_of(after)[scope]
        == want[scope] by {
        let k = place_of(after, scope);
        if scope != new.scope {
            let old_k = if found || k < at {
                k
            } else {
                k - 1
            };
            assert(before[old_k] == after[k]);
            lemma_one_place(before, old_k);
        }
    }
    assert(map_of(after) =~= want);
}

} // verus!
