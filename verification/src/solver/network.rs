//! Flow networks: what a flow is, when it is feasible, what it costs, and
//! the two certificates that settle a minimum-cost flow problem.

use vstd::prelude::*;

verus! {

/// An arc as a mathematical value.
pub ghost struct ArcView {
    pub tail: int,
    pub head: int,
    pub capacity: int,
    pub cost: int,
}

/// A flow network as a mathematical value. The last node is the sink: it
/// takes in what the other nodes supply.
pub ghost struct NetworkView {
    pub nodes: int,
    pub arcs: Seq<ArcView>,
    pub supply: Seq<int>,
}

/// The greatest capacity, cost or supply that a network may hold.
pub open spec fn limit() -> int {
    0xffff_ffff
}

/// The greatest number of nodes that a network may have, the sink included.
pub open spec fn node_limit() -> int {
    0x1000_0000
}

/// The sink of a network.
pub open spec fn sink_of(net: NetworkView) -> int {
    net.nodes - 1
}

/// Every arc runs between two nodes of the network, with a capacity and a
/// cost within the limit; every node but the sink has a supply within the
/// limit.
pub open spec fn network_wf(net: NetworkView) -> bool {
    &&& 1 <= net.nodes <= node_limit()
    &&& net.supply.len() == net.nodes - 1
    &&& forall|v: int| 0 <= v < net.supply.len() ==> 0 <= #[trigger] net.supply[v] <= limit()
    &&& forall|a: int|
        0 <= a < net.arcs.len() ==> {
            &&& 0 <= (#[trigger] net.arcs[a]).tail < net.nodes
            &&& 0 <= net.arcs[a].head < net.nodes
            &&& 0 <= net.arcs[a].capacity <= limit()
            &&& 0 <= net.arcs[a].cost <= limit()
        }
}

/// What leaves node `v` over the first `k` arcs, less what enters it.
pub open spec fn outflow(arcs: Seq<ArcView>, x: Seq<int>, v: int, k: int) -> int
    decreases k,
{
    if k <= 0 {
        0
    } else {
        outflow(arcs, x, v, k - 1) + (if arcs[k - 1].tail == v {
            x[k - 1]
        } else {
            0
        }) - (if arcs[k - 1].head == v {
            x[k - 1]
        } else {
            0
        })
    }
}

/// What node `v` supplies and has not sent on.
pub open spec fn excess_at(net: NetworkView, x: Seq<int>, v: int) -> int {
    net.supply[v] - outflow(net.arcs, x, v, net.arcs.len() as int)
}

/// Every arc carries between nothing and its capacity.
pub open spec fn within_capacity(net: NetworkView, x: Seq<int>) -> bool {
    &&& x.len() == net.arcs.len()
    &&& forall|a: int| 0 <= a < x.len() ==> 0 <= #[trigger] x[a] <= net.arcs[a].capacity
}

/// A flow is feasible if every arc carries between nothing and its capacity
/// and every node but the sink sends on exactly what it supplies and takes
/// in.
pub open spec fn feasible(net: NetworkView, x: Seq<int>) -> bool {
    &&& within_capacity(net, x)
    &&& forall|v: int| 0 <= v < net.nodes - 1 ==> #[trigger] excess_at(net, x, v) == 0
}

/// What a flow costs over the first `k` arcs: for every arc what it carries
/// times its cost.
pub open spec fn cost_upto(arcs: Seq<ArcView>, x: Seq<int>, k: int) -> int
    decreases k,
{
    if k <= 0 {
        0
    } else {
        cost_upto(arcs, x, k - 1) + x[k - 1] * arcs[k - 1].cost
    }
}

/// What a flow costs.
pub open spec fn total_cost(net: NetworkView, x: Seq<int>) -> int {
    cost_upto(net.arcs, x, net.arcs.len() as int)
}

/// A flow is optimal if it is feasible and no feasible flow costs less.
pub open spec fn optimal(net: NetworkView, x: Seq<int>) -> bool {
    &&& feasible(net, x)
    &&& forall|y: Seq<int>| #[trigger] feasible(net, y) ==> total_cost(net, x) <= total_cost(net, y)
}

/// Two optimal flows of one network cost the same.
pub proof fn lemma_optimal_cost_unique(net: NetworkView, x: Seq<int>, y: Seq<int>)
    requires
        optimal(net, x),
        optimal(net, y),
    ensures
        total_cost(net, x) == total_cost(net, y),
{
}

/// Whether a network has a feasible flow at all.
pub open spec fn solvable(net: NetworkView) -> bool {
    exists|y: Seq<int>| feasible(net, y)
}

/// The cost of an arc as seen from potentials at its two ends.
pub open spec fn reduced_cost(arc: ArcView, potential: Seq<int>) -> int {
    arc.cost + potential[arc.tail] - potential[arc.head]
}

/// Potentials under which no change of a flow pays: an arc with room has no
/// negative reduced cost, and an arc that carries something has no positive
/// one.
pub open spec fn prices(net: NetworkView, x: Seq<int>, potential: Seq<int>) -> bool {
    &&& potential.len() == net.nodes
    &&& forall|a: int|
        0 <= a < net.arcs.len() ==> {
            &&& x[a] < (#[trigger] net.arcs[a]).capacity ==> reduced_cost(net.arcs[a], potential)
                >= 0
            &&& x[a] > 0 ==> reduced_cost(net.arcs[a], potential) <= 0
        }
}

/// The flow over the first `k` arcs, every arc weighted by the difference of
/// the weights of its two ends.
pub open spec fn weighted(arcs: Seq<ArcView>, x: Seq<int>, w: Seq<int>, k: int) -> int
    decreases k,
{
    if k <= 0 {
        0
    } else {
        weighted(arcs, x, w, k - 1) + (w[arcs[k - 1].tail] - w[arcs[k - 1].head]) * x[k - 1]
    }
}

/// The outflows of the first `m` nodes over the first `k` arcs, every node
/// weighted by its weight.
pub open spec fn weighted_outflow(
    arcs: Seq<ArcView>,
    x: Seq<int>,
    w: Seq<int>,
    k: int,
    m: int,
) -> int
    decreases m,
{
    if m <= 0 {
        0
    } else {
        weighted_outflow(arcs, x, w, k, m - 1) + w[m - 1] * outflow(arcs, x, m - 1, k)
    }
}

/// The supplies of the first `m` nodes, every node weighted by its weight.
pub open spec fn weighted_supply(supply: Seq<int>, w: Seq<int>, m: int) -> int
    decreases m,
{
    if m <= 0 {
        0
    } else {
        weighted_supply(supply, w, m - 1) + w[m - 1] * supply[m - 1]
    }
}

/// One more arc adds to the weighted outflow of the nodes what it carries,
/// weighted by its tail, and takes from it what it carries, weighted by its
/// head.
proof fn lemma_weighted_outflow_step(
    arcs: Seq<ArcView>,
    x: Seq<int>,
    w: Seq<int>,
    k: int,
    m: int,
)
    requires
        0 < k <= arcs.len(),
        0 <= m,
    ensures
        weighted_outflow(arcs, x, w, k, m) == weighted_outflow(arcs, x, w, k - 1, m) + (if 0
            <= arcs[k - 1].tail < m {
            w[arcs[k - 1].tail]
        } else {
            0
        }) * x[k - 1] - (if 0 <= arcs[k - 1].head < m {
            w[arcs[k - 1].head]
        } else {
            0
        }) * x[k - 1],
    decreases m,
{
    if m > 0 {
        lemma_weighted_outflow_step(arcs, x, w, k, m - 1);
        let v = m - 1;
        let t = arcs[k - 1].tail;
        let h = arcs[k - 1].head;
        let f = x[k - 1];
        let before = outflow(arcs, x, v, k - 1);
        let out = if t == v {
            f
        } else {
            0
        };
        let inn = if h == v {
            f
        } else {
            0
        };
        assert(outflow(arcs, x, v, k) == before + out - inn);
        assert(w[v] * (before + out - inn) == w[v] * before + w[v] * out - w[v] * inn)
            by (nonlinear_arith);
        assert(w[v] * 0 == 0);
    }
}

/// Summing the flow arc by arc, weighted by the ends of the arcs, is summing
/// it node by node, weighted by the nodes.
pub proof fn lemma_weighted_by_nodes(arcs: Seq<ArcView>, x: Seq<int>, w: Seq<int>, n: int, k: int)
    requires
        0 <= k <= arcs.len(),
        0 <= n,
        forall|a: int|
            0 <= a < arcs.len() ==> 0 <= (#[trigger] arcs[a]).tail < n && 0 <= arcs[a].head < n,
    ensures
        weighted(arcs, x, w, k) == weighted_outflow(arcs, x, w, k, n),
    decreases k,
{
    if k == 0 {
        lemma_weighted_outflow_of_nothing(arcs, x, w, n);
    } else {
        lemma_weighted_by_nodes(arcs, x, w, n, k - 1);
        lemma_weighted_outflow_step(arcs, x, w, k, n);
        let t = arcs[k - 1].tail;
        let h = arcs[k - 1].head;
        assert((w[t] - w[h]) * x[k - 1] == w[t] * x[k - 1] - w[h] * x[k - 1]) by (nonlinear_arith);
    }
}

/// Without arcs the weighted outflow is nothing.
proof fn lemma_weighted_outflow_of_nothing(arcs: Seq<ArcView>, x: Seq<int>, w: Seq<int>, m: int)
    ensures
        weighted_outflow(arcs, x, w, 0, m) == 0,
    decreases m,
{
    if m > 0 {
        lemma_weighted_outflow_of_nothing(arcs, x, w, m - 1);
        assert(w[m - 1] * 0 == 0);
    }
}

/// Where the first `m` nodes have no excess, their weighted outflow is their
/// weighted supply.
proof fn lemma_weighted_outflow_balanced(net: NetworkView, x: Seq<int>, w: Seq<int>, m: int)
    requires
        0 <= m <= net.nodes - 1,
        forall|v: int| 0 <= v < net.nodes - 1 ==> #[trigger] excess_at(net, x, v) == 0,
    ensures
        weighted_outflow(net.arcs, x, w, net.arcs.len() as int, m) == weighted_supply(
            net.supply,
            w,
            m,
        ),
    decreases m,
{
    if m > 0 {
        lemma_weighted_outflow_balanced(net, x, w, m - 1);
        assert(excess_at(net, x, m - 1) == 0);
    }
}

/// A feasible flow, weighted by weights that give the sink none, sums to the
/// weighted supply.
pub proof fn lemma_feasible_weighted(net: NetworkView, x: Seq<int>, w: Seq<int>)
    requires
        network_wf(net),
        feasible(net, x),
        w.len() == net.nodes,
        w[sink_of(net)] == 0,
    ensures
        weighted(net.arcs, x, w, net.arcs.len() as int) == weighted_supply(
            net.supply,
            w,
            net.nodes - 1,
        ),
{
    let k = net.arcs.len() as int;
    lemma_weighted_by_nodes(net.arcs, x, w, net.nodes, k);
    lemma_weighted_outflow_balanced(net, x, w, net.nodes - 1);
    assert(w[net.nodes - 1] * outflow(net.arcs, x, net.nodes - 1, k) == 0) by (nonlinear_arith)
        requires
            w[net.nodes - 1] == 0,
    ;
}

/// Under prices for a flow, the flow costs no more than any other flow
/// within the capacities, once both are charged the weighted flow too.
proof fn lemma_priced_cost(
    net: NetworkView,
    x: Seq<int>,
    y: Seq<int>,
    potential: Seq<int>,
    k: int,
)
    requires
        0 <= k <= net.arcs.len(),
        within_capacity(net, x),
        within_capacity(net, y),
        prices(net, x, potential),
    ensures
        cost_upto(net.arcs, x, k) + weighted(net.arcs, x, potential, k) <= cost_upto(
            net.arcs,
            y,
            k,
        ) + weighted(net.arcs, y, potential, k),
    decreases k,
{
    if k > 0 {
        lemma_priced_cost(net, x, y, potential, k - 1);
        let arc = net.arcs[k - 1];
        let r = reduced_cost(arc, potential);
        let p = potential[arc.tail] - potential[arc.head];
        let c = arc.cost;
        let fx = x[k - 1];
        let fy = y[k - 1];
        assert(0 <= fx <= arc.capacity && 0 <= fy <= arc.capacity);
        assert(r * fx <= r * fy) by (nonlinear_arith)
            requires
                fx < fy ==> r >= 0,
                fx > fy ==> r <= 0,
        ;
        assert(fx * c + p * fx == r * fx) by (nonlinear_arith)
            requires
                r == c + p,
        ;
        assert(fy * c + p * fy == r * fy) by (nonlinear_arith)
            requires
                r == c + p,
        ;
    }
}

/// A feasible flow that has prices is optimal: no feasible flow costs less.
pub proof fn lemma_priced_flow_is_cheapest(
    net: NetworkView,
    x: Seq<int>,
    potential: Seq<int>,
    y: Seq<int>,
)
    requires
        network_wf(net),
        feasible(net, x),
        feasible(net, y),
        prices(net, x, potential),
    ensures
        total_cost(net, x) <= total_cost(net, y),
{
    let shift = potential[sink_of(net)];
    let w = Seq::new(net.nodes as nat, |v: int| potential[v] - shift);
    assert forall|a: int| 0 <= a < net.arcs.len() implies reduced_cost(#[trigger] net.arcs[a], w)
        == reduced_cost(net.arcs[a], potential) by {}
    assert(prices(net, x, w));
    lemma_priced_cost(net, x, y, w, net.arcs.len() as int);
    lemma_feasible_weighted(net, x, w);
    lemma_feasible_weighted(net, y, w);
}

/// A feasible flow that has prices is optimal.
pub proof fn lemma_priced_flow_is_optimal(net: NetworkView, x: Seq<int>, potential: Seq<int>)
    requires
        network_wf(net),
        feasible(net, x),
        prices(net, x, potential),
    ensures
        optimal(net, x),
{
    assert forall|y: Seq<int>| #[trigger] feasible(net, y) implies total_cost(net, x) <= total_cost(
        net,
        y,
    ) by {
        lemma_priced_flow_is_cheapest(net, x, potential, y);
    }
}

/// The weight of a node for a set of nodes: one inside, none outside.
pub open spec fn membership(inside: Seq<bool>) -> Seq<int> {
    Seq::new(
        inside.len(),
        |v: int|
            if inside[v] {
                1int
            } else {
                0int
            },
    )
}

/// The capacity of the first `k` arcs that leave a set of nodes.
pub open spec fn cut_capacity(arcs: Seq<ArcView>, inside: Seq<bool>, k: int) -> int
    decreases k,
{
    if k <= 0 {
        0
    } else {
        cut_capacity(arcs, inside, k - 1) + (if inside[arcs[k - 1].tail] && !inside[arcs[k
            - 1].head] {
            arcs[k - 1].capacity
        } else {
            0
        })
    }
}

/// What the first `m` nodes of a set supply.
pub open spec fn supply_inside(supply: Seq<int>, inside: Seq<bool>, m: int) -> int {
    weighted_supply(supply, membership(inside), m)
}

/// What a flow takes out of a set of nodes, less what it brings in, is no
/// more than the capacity of the arcs that leave the set.
proof fn lemma_cut_bounds_flow(net: NetworkView, y: Seq<int>, inside: Seq<bool>, k: int)
    requires
        0 <= k <= net.arcs.len(),
        network_wf(net),
        within_capacity(net, y),
        inside.len() == net.nodes,
    ensures
        weighted(net.arcs, y, membership(inside), k) <= cut_capacity(net.arcs, inside, k),
    decreases k,
{
    if k > 0 {
        lemma_cut_bounds_flow(net, y, inside, k - 1);
        let arc = net.arcs[k - 1];
        let w = membership(inside);
        let d = w[arc.tail] - w[arc.head];
        let f = y[k - 1];
        assert(0 <= f <= arc.capacity);
        let room = if inside[arc.tail] && !inside[arc.head] {
            arc.capacity
        } else {
            0
        };
        assert(d * f <= room) by (nonlinear_arith)
            requires
                0 <= f <= arc.capacity,
                -1 <= d <= 1,
                d == 1 ==> room == arc.capacity,
                d <= 0 ==> room >= 0,
        ;
    }
}

/// No feasible flow takes more out of a set of nodes than the arcs that
/// leave the set have room for: a set without the sink that supplies more
/// than that shows that there is no feasible flow.
pub proof fn lemma_cut_bounds_supply(net: NetworkView, y: Seq<int>, inside: Seq<bool>)
    requires
        network_wf(net),
        feasible(net, y),
        inside.len() == net.nodes,
        !inside[sink_of(net)],
    ensures
        supply_inside(net.supply, inside, net.nodes - 1) <= cut_capacity(
            net.arcs,
            inside,
            net.arcs.len() as int,
        ),
{
    lemma_cut_bounds_flow(net, y, inside, net.arcs.len() as int);
    lemma_feasible_weighted(net, y, membership(inside));
}

} // verus!
