//! The minimum-cost flow of a network: supply is sent on along the cheapest
//! walks that can carry more, one walk after the other, until no node has
//! an excess or no walk is left.

use crate::solver::network::{
    cut_capacity, excess_at, feasible, lemma_cut_bounds_supply, lemma_priced_flow_is_optimal,
    lemma_weighted_by_nodes, limit, membership, network_wf, node_limit, optimal, outflow, prices,
    reduced_cost, sink_of, solvable, supply_inside, weighted, weighted_outflow, weighted_supply,
    within_capacity, ArcView, NetworkView,
};
use crate::solver::search::{
    far, has_room, ints, label_ok, labelled, last_step_ok, node_ready, search, searchable, searched,
    step_cost, step_from, step_ready, step_settled, step_to, Network, Search, Step, UNREACHED,
};
use vstd::prelude::*;

verus! {

/// What the search for a flow keeps between two walks: a flow within the
/// capacities, the excess that it leaves at every node, and prices for it,
/// which the nodes still in play know as their potentials.
pub open spec fn balanced(
    net: NetworkView,
    x: Seq<u64>,
    excess: Seq<u64>,
    pot: Seq<u64>,
    price: Seq<int>,
    alive: Seq<bool>,
) -> bool {
    &&& searchable(net, ints(x), excess, pot, alive)
    &&& within_capacity(net, ints(x))
    &&& forall|v: int| 0 <= v < net.nodes - 1 ==> excess[v] == #[trigger] excess_at(net, ints(x), v)
    &&& prices(net, ints(x), price)
    &&& forall|v: int| 0 <= v < net.nodes && #[trigger] alive[v] ==> price[v] == pot[v]
}

/// The sum of a list of numbers.
pub open spec fn total(s: Seq<u64>) -> nat
    decreases s.len(),
{
    if s.len() == 0 {
        0
    } else {
        total(s.drop_last()) + s.last() as nat
    }
}

/// Taking an amount from one number of a list takes it from the sum.
proof fn lemma_total_update(s: Seq<u64>, v: int, less: u64)
    requires
        0 <= v < s.len(),
        less <= s[v],
    ensures
        total(s.update(v, (s[v] - less) as u64)) + less == total(s),
    decreases s.len(),
{
    let after = s.update(v, (s[v] - less) as u64);
    if v == s.len() - 1 {
        assert(after.drop_last() =~= s.drop_last());
    } else {
        assert(after.drop_last() =~= s.drop_last().update(v, (s[v] - less) as u64));
        lemma_total_update(s.drop_last(), v, less);
    }
}

/// Changing what one arc carries changes the outflow of its tail by as
/// much, and the outflow of its head by as much the other way.
pub proof fn lemma_outflow_update(arcs: Seq<ArcView>, x: Seq<int>, a: int, new: int, v: int, k: int)
    requires
        0 <= a < x.len(),
        x.len() == arcs.len(),
        0 <= k <= arcs.len(),
    ensures
        outflow(arcs, x.update(a, new), v, k) == outflow(arcs, x, v, k) + if a < k {
            (if arcs[a].tail == v {
                new - x[a]
            } else {
                0
            }) - (if arcs[a].head == v {
                new - x[a]
            } else {
                0
            })
        } else {
            0
        },
    decreases k,
{
    if k > 0 {
        lemma_outflow_update(arcs, x, a, new, v, k - 1);
    }
}

/// The first node with an excess, if there is one.
fn find_excess(excess: &Vec<u64>) -> (r: Option<usize>)
    ensures
        match r {
            Some(v) => v < excess@.len() && excess@[v as int] > 0,
            None => forall|v: int| 0 <= v < excess@.len() ==> #[trigger] excess@[v] == 0,
        },
{
    let mut v: usize = 0;
    while v < excess.len()
        invariant
            v <= excess@.len(),
            forall|w: int| 0 <= w < v ==> #[trigger] excess@[w] == 0,
        decreases excess@.len() - v,
    {
        if excess[v] > 0 {
            return Some(v);
        }
        v = v + 1;
    }
    None
}

/// The prices after a search: a node that was reached has its potential and
/// its distance, and a node that was not has its old price and more than
/// any distance.
pub open spec fn new_prices(price: Seq<int>, pot: Seq<u64>, s: Search) -> Seq<int> {
    Seq::new(
        price.len(),
        |v: int|
            if s.done@[v] {
                pot[v] + s.dist@[v]
            } else {
                price[v] + far()
            },
    )
}

/// The potentials after a search: a node that was reached has its distance
/// more.
pub open spec fn new_potentials(pot: Seq<u64>, s: Search) -> Seq<u64> {
    Seq::new(
        pot.len(),
        |v: int|
            if s.done@[v] {
                (pot[v] + s.dist@[v]) as u64
            } else {
                pot[v]
            },
    )
}

/// Whether the last step to every node that was reached costs nothing
/// under the given potentials.
pub open spec fn tight(net: NetworkView, pot: Seq<u64>, s: Search) -> bool {
    forall|v: int|
        0 <= v < net.nodes && #[trigger] s.done@[v] ==> match s.pred@[v] {
            None => true,
            Some(step) => step_cost(net, ints(pot), step.arc as int, step.forward) == 0,
        }
}

/// The greatest distance in numbers: it fits in 64 bits with room to spare.
proof fn lemma_far()
    ensures
        far() == 0x1000_0000 * 0xffff_ffff,
        far() < u64::MAX,
        limit() == 0xffff_ffff,
{
    assert(node_limit() * limit() == 0x1000_0000 * 0xffff_ffff) by (nonlinear_arith)
        requires
            node_limit() == 0x1000_0000,
            limit() == 0xffff_ffff,
    ;
}

/// The distance and the potential of a node that was reached stay within
/// bounds.
proof fn lemma_reach_bound(
    net: NetworkView,
    x: Seq<int>,
    excess: Seq<u64>,
    pot: Seq<u64>,
    alive: Seq<bool>,
    s: Search,
    count: int,
    top: int,
    v: int,
)
    requires
        network_wf(net),
        labelled(net, x, excess, pot, alive, s, count, top),
        0 <= v < net.nodes,
        s.done@[v],
    ensures
        s.dist@[v] != UNREACHED,
        alive[v],
        s.dist@[v] + pot[v] <= far() - limit(),
{
    assert(label_ok(net, x, excess, pot, alive, s, count, top, v));
    assert(s.order@[v] * limit() <= (node_limit() - 1) * limit()) by (nonlinear_arith)
        requires
            s.order@[v] <= node_limit() - 1,
            limit() >= 0,
    ;
    assert((node_limit() - 1) * limit() == node_limit() * limit() - limit()) by (nonlinear_arith);
}

/// After a search the new prices are prices, the nodes that were reached
/// know them as their new potentials, no step that can carry more leads out
/// of the nodes that were reached or has a negative cost, and the last
/// steps cost nothing.
proof fn lemma_repriced(
    net: NetworkView,
    x: Seq<u64>,
    excess: Seq<u64>,
    pot: Seq<u64>,
    price: Seq<int>,
    alive: Seq<bool>,
    s: Search,
)
    requires
        balanced(net, x, excess, pot, price, alive),
        searched(net, ints(x), excess, pot, alive, s),
    ensures
        balanced(net, x, excess, new_potentials(pot, s), new_prices(price, pot, s), s.done@),
        tight(net, new_potentials(pot, s), s),
{
    lemma_far();
    let xv = ints(x);
    let (count, top) = choose|count: int, top: int|
        labelled(net, xv, excess, pot, alive, s, count, top);
    let pot2 = new_potentials(pot, s);
    let price2 = new_prices(price, pot, s);
    assert forall|v: int| 0 <= v < net.nodes && #[trigger] s.done@[v] implies price2[v] == pot2[v]
        && pot2[v] <= far() - limit() && pot2[v] == pot[v] + s.dist@[v] && price[v] == pot[v] by {
        lemma_reach_bound(net, xv, excess, pot, alive, s, count, top, v);
    }
    assert forall|v: int| 0 <= v < net.nodes implies #[trigger] node_ready(
        net,
        excess,
        pot2,
        s.done@,
        v,
    ) by {
        assert(label_ok(net, xv, excess, pot, alive, s, count, top, v));
        assert(node_ready(net, excess, pot, alive, v));
        if v < net.nodes - 1 && excess[v] > 0 {
            assert(s.dist@[v] == 0);
            assert(s.done@[v]);
        }
    }
    assert forall|a: int, forward: bool| 0 <= a < net.arcs.len() implies #[trigger] step_ready(
        net,
        xv,
        pot2,
        s.done@,
        a,
        forward,
    ) by {
        let f = step_from(net, a, forward);
        let t = step_to(net, a, forward);
        assert(0 <= f < net.nodes && 0 <= t < net.nodes);
        if has_room(net, xv, a, forward) && s.done@[f] {
            assert(step_settled(net, xv, pot, s, -1, 0, a, forward));
            assert(s.done@[t]);
        }
    }
    assert forall|a: int| 0 <= a < net.arcs.len() implies {
        &&& xv[a] < (#[trigger] net.arcs[a]).capacity ==> reduced_cost(net.arcs[a], price2) >= 0
        &&& xv[a] > 0 ==> reduced_cost(net.arcs[a], price2) <= 0
    } by {
        let t = net.arcs[a].tail;
        let h = net.arcs[a].head;
        assert(0 <= t < net.nodes && 0 <= h < net.nodes);
        assert(step_settled(net, xv, pot, s, -1, 0, a, true));
        assert(step_settled(net, xv, pot, s, -1, 0, a, false));
        if s.done@[t] {
            lemma_reach_bound(net, xv, excess, pot, alive, s, count, top, t);
        }
        if s.done@[h] {
            lemma_reach_bound(net, xv, excess, pot, alive, s, count, top, h);
        }
        if xv[a] < net.arcs[a].capacity {
            assert(has_room(net, xv, a, true));
            assert(reduced_cost(net.arcs[a], price) >= 0);
        }
        if xv[a] > 0 {
            assert(has_room(net, xv, a, false));
            assert(reduced_cost(net.arcs[a], price) <= 0);
        }
    }
    assert forall|v: int| 0 <= v < net.nodes && #[trigger] s.done@[v] implies match s.pred@[v] {
        None => true,
        Some(step) => step_cost(net, ints(pot2), step.arc as int, step.forward) == 0,
    } by {
        assert(label_ok(net, xv, excess, pot, alive, s, count, top, v));
        if let Some(step) = s.pred@[v] {
            let f = step_from(net, step.arc as int, step.forward);
            assert(0 <= f < net.nodes);
            assert(last_step_ok(net, xv, excess, pot, s, v));
            lemma_reach_bound(net, xv, excess, pot, alive, s, count, top, v);
            lemma_reach_bound(net, xv, excess, pot, alive, s, count, top, f);
        }
    }
}

/// Adds to the potential of every node that was reached its distance.
fn reprice(pot: &mut Vec<u64>, s: &Search)
    requires
        old(pot)@.len() == s.done@.len(),
        s.dist@.len() == s.done@.len(),
        forall|v: int|
            0 <= v < s.done@.len() && #[trigger] s.done@[v] ==> old(pot)@[v] + s.dist@[v]
                <= u64::MAX,
    ensures
        final(pot)@ == new_potentials(old(pot)@, *s),
{
    let ghost before = pot@;
    let mut v: usize = 0;
    while v < pot.len()
        invariant
            v <= pot@.len(),
            pot@.len() == before.len(),
            before.len() == s.done@.len(),
            s.dist@.len() == s.done@.len(),
            forall|w: int|
                0 <= w < s.done@.len() && #[trigger] s.done@[w] ==> before[w] + s.dist@[w]
                    <= u64::MAX,
            forall|w: int| 0 <= w < v ==> #[trigger] pot@[w] == new_potentials(before, *s)[w],
            forall|w: int| v <= w < pot@.len() ==> #[trigger] pot@[w] == before[w],
        decreases pot@.len() - v,
    {
        if s.done[v] {
            let raised: u64 = pot[v] + s.dist[v];
            pot[v] = raised;
        }
        v = v + 1;
    }
    assert(pot@ =~= new_potentials(before, *s));
}

/// The node that a walk has come to after `i` steps: the sink at first, and
/// after that the start of the step before.
pub open spec fn cursor(net: NetworkView, path: Seq<Step>, i: int) -> int {
    if i <= 0 {
        sink_of(net)
    } else {
        step_from(net, path[i - 1].arc as int, path[i - 1].forward)
    }
}

/// Whether the step at place `i` of a list of steps is the last step to
/// the node that the walk has come to by then.
pub open spec fn on_walk(net: NetworkView, s: Search, path: Seq<Step>, i: int) -> bool {
    &&& 0 <= cursor(net, path, i) < net.nodes
    &&& s.done@[cursor(net, path, i)]
    &&& s.pred@[cursor(net, path, i)] == Some(path[i])
}

/// Whether a list of steps is the walk that the search found to the sink,
/// the last step first: every step is the last step to the node that the
/// walk has come to, and the walk ends where a node has no last step.
pub open spec fn traced(net: NetworkView, s: Search, path: Seq<Step>) -> bool {
    &&& forall|i: int| 0 <= i < path.len() ==> #[trigger] on_walk(net, s, path, i)
    &&& 0 <= cursor(net, path, path.len() as int) < net.nodes
    &&& s.done@[cursor(net, path, path.len() as int)]
    &&& s.pred@[cursor(net, path, path.len() as int)] is None
}

/// A walk that follows last steps stays one when the last step of the node
/// that it has come to is added.
proof fn lemma_walk_on(net: NetworkView, s: Search, earlier: Seq<Step>, step: Step)
    requires
        forall|i: int| 0 <= i < earlier.len() ==> #[trigger] on_walk(net, s, earlier, i),
        0 <= cursor(net, earlier, earlier.len() as int) < net.nodes,
        s.done@[cursor(net, earlier, earlier.len() as int)],
        s.pred@[cursor(net, earlier, earlier.len() as int)] == Some(step),
    ensures
        forall|i: int|
            0 <= i < earlier.len() + 1 ==> #[trigger] on_walk(net, s, earlier.push(step), i),
        cursor(net, earlier.push(step), earlier.len() as int + 1) == step_from(
            net,
            step.arc as int,
            step.forward,
        ),
{
    let path = earlier.push(step);
    assert forall|i: int| 0 <= i < earlier.len() + 1 implies #[trigger] on_walk(
        net,
        s,
        path,
        i,
    ) by {
        if i < earlier.len() {
            assert(on_walk(net, s, earlier, i));
            assert(path[i] == earlier[i]);
            if i > 0 {
                assert(path[i - 1] == earlier[i - 1]);
            }
        } else {
            if i > 0 {
                assert(path[i - 1] == earlier[i - 1]);
            }
            assert(path[i] == step);
        }
    }
}

/// Follows the last steps from the sink back to a node with an excess.
fn trace(
    net: &Network,
    s: &Search,
    Ghost(x): Ghost<Seq<int>>,
    Ghost(excess): Ghost<Seq<u64>>,
    Ghost(pot): Ghost<Seq<u64>>,
    Ghost(alive): Ghost<Seq<bool>>,
) -> (r: (Vec<Step>, usize))
    requires
        network_wf(net@),
        net@.arcs.len() == x.len(),
        searched(net@, x, excess, pot, alive, *s),
        s.done@[sink_of(net@)],
    ensures
        traced(net@, *s, r.0@),
        r.1 == cursor(net@, r.0@, r.0@.len() as int),
        r.1 < net.nodes - 1,
        excess[r.1 as int] > 0,
{
    let ghost netv = net@;
    let ghost (count, top) = choose|count: int, top: int|
        labelled(netv, x, excess, pot, alive, *s, count, top);
    let mut path: Vec<Step> = Vec::new();
    let mut v: usize = net.nodes - 1;
    loop
        invariant
            netv == net@,
            network_wf(netv),
            netv.arcs.len() == x.len(),
            labelled(netv, x, excess, pot, alive, *s, count, top),
            v < net.nodes,
            s.done@[v as int],
            v == cursor(netv, path@, path@.len() as int),
            forall|i: int| 0 <= i < path@.len() ==> #[trigger] on_walk(netv, *s, path@, i),
        ensures
            traced(netv, *s, path@),
            v == cursor(netv, path@, path@.len() as int),
            v < net.nodes - 1,
            excess[v as int] > 0,
        decreases s.order@[v as int],
    {
        proof {
            assert(label_ok(netv, x, excess, pot, alive, *s, count, top, v as int));
            assert(last_step_ok(netv, x, excess, pot, *s, v as int));
        }
        match s.pred[v] {
            None => {
                break ;
            },
            Some(step) => {
                let ghost earlier = path@;
                let arc = &net.arcs[step.arc];
                assert(netv.arcs[step.arc as int] == arc@);
                path.push(step);
                proof {
                    lemma_walk_on(netv, *s, earlier, step);
                }
                v = if step.forward {
                    arc.tail
                } else {
                    arc.head
                };
            },
        }
    }
    (path, v)
}

/// Along the walk that a search found, the nodes were reached earlier and
/// earlier.
proof fn lemma_walk_descends(
    net: NetworkView,
    x: Seq<int>,
    excess: Seq<u64>,
    pot: Seq<u64>,
    alive: Seq<bool>,
    s: Search,
    count: int,
    top: int,
    path: Seq<Step>,
    i: int,
    j: int,
)
    requires
        network_wf(net),
        labelled(net, x, excess, pot, alive, s, count, top),
        traced(net, s, path),
        0 <= i < j <= path.len(),
    ensures
        s.order@[cursor(net, path, j)] < s.order@[cursor(net, path, i)],
        path[i].arc < net.arcs.len(),
        step_to(net, path[i].arc as int, path[i].forward) == cursor(net, path, i),
        has_room(net, x, path[i].arc as int, path[i].forward),
    decreases j - i,
{
    assert(on_walk(net, s, path, i));
    let v = cursor(net, path, i);
    assert(label_ok(net, x, excess, pot, alive, s, count, top, v));
    assert(last_step_ok(net, x, excess, pot, s, v));
    if j > i + 1 {
        lemma_walk_descends(net, x, excess, pot, alive, s, count, top, path, i + 1, j);
    }
}

/// How much more a step can carry.
pub open spec fn room(net: NetworkView, x: Seq<int>, step: Step) -> int {
    if step.forward {
        net.arcs[step.arc as int].capacity - x[step.arc as int]
    } else {
        x[step.arc as int]
    }
}

/// The flow after a step has carried an amount: more along its arc, or less
/// against it.
pub open spec fn carry(x: Seq<int>, step: Step, amount: int) -> Seq<int> {
    x.update(
        step.arc as int,
        if step.forward {
            x[step.arc as int] + amount
        } else {
            x[step.arc as int] - amount
        },
    )
}

/// A step that carries an amount takes it from the excess of its start and
/// adds it to the excess of its end.
proof fn lemma_carry_excess(net: NetworkView, x: Seq<int>, step: Step, amount: int, v: int)
    requires
        x.len() == net.arcs.len(),
        step.arc < net.arcs.len(),
    ensures
        excess_at(net, carry(x, step, amount), v) == excess_at(net, x, v) - (if v == step_from(
            net,
            step.arc as int,
            step.forward,
        ) {
            amount
        } else {
            0
        }) + (if v == step_to(net, step.arc as int, step.forward) {
            amount
        } else {
            0
        }),
{
    let a = step.arc as int;
    let new = if step.forward {
        x[a] + amount
    } else {
        x[a] - amount
    };
    lemma_outflow_update(net.arcs, x, a, new, v, net.arcs.len() as int);
}

/// How much the walk can carry: the least of the excess at its start and
/// the room of its steps. It is one of them, and none of them is less.
fn bottleneck(
    net: &Network,
    x: &Vec<u64>,
    path: &Vec<Step>,
    most: u64,
) -> (amount: u64)
    requires
        x@.len() == net.arcs@.len(),
        most > 0,
        forall|i: int|
            0 <= i < path@.len() ==> (#[trigger] path@[i]).arc < net.arcs@.len() && room(
                net@,
                ints(x@),
                path@[i],
            ) > 0,
    ensures
        0 < amount <= most,
        forall|i: int| 0 <= i < path@.len() ==> amount <= room(net@, ints(x@), #[trigger] path@[i]),
        amount == most || exists|i: int|
            0 <= i < path@.len() && amount == room(net@, ints(x@), #[trigger] path@[i]),
{
    let mut amount = most;
    let mut i: usize = 0;
    while i < path.len()
        invariant
            i <= path@.len(),
            x@.len() == net.arcs@.len(),
            0 < amount <= most,
            amount == most || exists|j: int|
                0 <= j < i && amount == room(net@, ints(x@), #[trigger] path@[j]),
            forall|j: int|
                0 <= j < path@.len() ==> (#[trigger] path@[j]).arc < net.arcs@.len() && room(
                    net@,
                    ints(x@),
                    path@[j],
                ) > 0,
            forall|j: int| 0 <= j < i ==> amount <= room(net@, ints(x@), #[trigger] path@[j]),
        decreases path@.len() - i,
    {
        let step = path[i];
        let arc = &net.arcs[step.arc];
        assert(net@.arcs[step.arc as int] == arc@);
        assert(room(net@, ints(x@), path@[i as int]) > 0);
        let here: u64 = if step.forward {
            arc.capacity - x[step.arc]
        } else {
            x[step.arc]
        };
        assert(here == room(net@, ints(x@), path@[i as int]));
        if here < amount {
            amount = here;
        }
        i = i + 1;
    }
    amount
}

/// What holds while an amount is carried along a walk, after its first `i`
/// steps have carried it: the flow is within the capacities; the excess of
/// every node is what it was, but for the node that the walk has come to,
/// which lacks the amount; the steps still to come have room for the amount;
/// and the prices are prices still.
pub open spec fn carrying(
    net: NetworkView,
    x: Seq<int>,
    excess: Seq<u64>,
    pot: Seq<u64>,
    price: Seq<int>,
    alive: Seq<bool>,
    path: Seq<Step>,
    amount: int,
    i: int,
) -> bool {
    &&& x.len() == net.arcs.len()
    &&& within_capacity(net, x)
    &&& prices(net, x, price)
    &&& forall|v: int|
        0 <= v < net.nodes - 1 ==> #[trigger] excess_at(net, x, v) == excess[v] - if v == cursor(
            net,
            path,
            i,
        ) {
            amount
        } else {
            0
        }
    &&& forall|j: int| i <= j < path.len() ==> amount <= room(net, x, #[trigger] path[j])
    &&& forall|a: int, forward: bool|
        0 <= a < net.arcs.len() ==> #[trigger] step_ready(net, x, pot, alive, a, forward)
}

/// One more step of the walk carries the amount.
proof fn lemma_carried(
    net: NetworkView,
    before: Seq<int>,
    old_x: Seq<int>,
    excess: Seq<u64>,
    old_pot: Seq<u64>,
    old_alive: Seq<bool>,
    pot: Seq<u64>,
    price: Seq<int>,
    s: Search,
    path: Seq<Step>,
    amount: int,
    i: int,
)
    requires
        network_wf(net),
        exists|count: int, top: int|
            labelled(net, old_x, excess, old_pot, old_alive, s, count, top),
        traced(net, s, path),
        tight(net, pot, s),
        forall|v: int| 0 <= v < net.nodes && #[trigger] s.done@[v] ==> price[v] == pot[v],
        pot.len() == net.nodes,
        price.len() == net.nodes,
        0 <= i < path.len(),
        0 < amount,
        carrying(net, before, excess, pot, price, s.done@, path, amount, i),
    ensures
        carrying(
            net,
            carry(before, path[i], amount),
            excess,
            pot,
            price,
            s.done@,
            path,
            amount,
            i + 1,
        ),
{
    let (count, top) = choose|count: int, top: int|
        labelled(net, old_x, excess, old_pot, old_alive, s, count, top);
    let step = path[i];
    let a = step.arc as int;
    let after = carry(before, step, amount);
    lemma_walk_descends(net, old_x, excess, old_pot, old_alive, s, count, top, path, i, i + 1);
    assert(on_walk(net, s, path, i));
    let to = cursor(net, path, i);
    let from = cursor(net, path, i + 1);
    assert(from == step_from(net, a, step.forward));
    assert(to == step_to(net, a, step.forward));
    assert(0 <= from < net.nodes && 0 <= to < net.nodes);
    assert(label_ok(net, old_x, excess, old_pot, old_alive, s, count, top, to));
    assert(last_step_ok(net, old_x, excess, old_pot, s, to));
    assert(s.done@[from] && s.done@[to]);
    // The step costs nothing, so its arc may carry anything.
    assert(step_cost(net, ints(pot), a, step.forward) == 0);
    assert(reduced_cost(net.arcs[a], price) == 0);
    assert(amount <= room(net, before, path[i]));
    assert forall|b: int| 0 <= b < after.len() implies 0 <= #[trigger] after[b]
        <= net.arcs[b].capacity by {
        assert(0 <= before[b] <= net.arcs[b].capacity);
    }
    assert forall|b: int| 0 <= b < net.arcs.len() implies {
        &&& after[b] < (#[trigger] net.arcs[b]).capacity ==> reduced_cost(net.arcs[b], price) >= 0
        &&& after[b] > 0 ==> reduced_cost(net.arcs[b], price) <= 0
    } by {
        if b != a {
            assert(after[b] == before[b]);
        }
    }
    assert forall|v: int| 0 <= v < net.nodes - 1 implies #[trigger] excess_at(net, after, v)
        == excess[v] - if v == cursor(net, path, i + 1) {
        amount
    } else {
        0
    } by {
        lemma_carry_excess(net, before, step, amount, v);
        assert(excess_at(net, before, v) == excess[v] - if v == cursor(net, path, i) {
            amount
        } else {
            0
        });
    }
    assert forall|j: int| i + 1 <= j < path.len() implies amount <= room(
        net,
        after,
        #[trigger] path[j],
    ) by {
        assert(amount <= room(net, before, path[j]));
        lemma_walk_descends(net, old_x, excess, old_pot, old_alive, s, count, top, path, i, j);
        lemma_walk_descends(net, old_x, excess, old_pot, old_alive, s, count, top, path, j, j + 1);
        assert(cursor(net, path, j) != cursor(net, path, i));
        if path[j].arc == step.arc {
            assert(path[j].forward != step.forward);
        }
    }
    assert forall|b: int, forward: bool| 0 <= b < net.arcs.len() implies #[trigger] step_ready(
        net,
        after,
        pot,
        s.done@,
        b,
        forward,
    ) by {
        assert(step_ready(net, before, pot, s.done@, b, forward));
        if b != a {
            assert(after[b] == before[b]);
        }
    }
}

/// Carries an amount along a walk.
fn carry_along(
    net: &Network,
    x: &mut Vec<u64>,
    path: &Vec<Step>,
    amount: u64,
    Ghost(old_x): Ghost<Seq<int>>,
    Ghost(excess): Ghost<Seq<u64>>,
    Ghost(old_pot): Ghost<Seq<u64>>,
    Ghost(old_alive): Ghost<Seq<bool>>,
    Ghost(pot): Ghost<Seq<u64>>,
    Ghost(price): Ghost<Seq<int>>,
    Ghost(s): Ghost<Search>,
)
    requires
        network_wf(net@),
        exists|count: int, top: int|
            labelled(net@, old_x, excess, old_pot, old_alive, s, count, top),
        traced(net@, s, path@),
        tight(net@, pot, s),
        forall|v: int| 0 <= v < net.nodes && #[trigger] s.done@[v] ==> price[v] == pot[v],
        pot.len() == net.nodes,
        price.len() == net.nodes,
        0 < amount,
        carrying(net@, ints(old(x)@), excess, pot, price, s.done@, path@, amount as int, 0),
    ensures
        carrying(
            net@,
            ints(final(x)@),
            excess,
            pot,
            price,
            s.done@,
            path@,
            amount as int,
            path@.len() as int,
        ),
{
    let mut i: usize = 0;
    while i < path.len()
        invariant
            i <= path@.len(),
            network_wf(net@),
            exists|count: int, top: int|
                labelled(net@, old_x, excess, old_pot, old_alive, s, count, top),
            traced(net@, s, path@),
            tight(net@, pot, s),
            forall|v: int| 0 <= v < net.nodes && #[trigger] s.done@[v] ==> price[v] == pot[v],
            pot.len() == net.nodes,
            price.len() == net.nodes,
            0 < amount,
            carrying(net@, ints(x@), excess, pot, price, s.done@, path@, amount as int, i as int),
        decreases path@.len() - i,
    {
        let step = path[i];
        let ghost before = ints(x@);
        proof {
            lemma_carried(
                net@,
                before,
                old_x,
                excess,
                old_pot,
                old_alive,
                pot,
                price,
                s,
                path@,
                amount as int,
                i as int,
            );
            let (count, top) = choose|count: int, top: int|
                labelled(net@, old_x, excess, old_pot, old_alive, s, count, top);
            lemma_walk_descends(
                net@,
                old_x,
                excess,
                old_pot,
                old_alive,
                s,
                count,
                top,
                path@,
                i as int,
                i + 1,
            );
            assert(amount <= room(net@, before, path@[i as int]));
            assert(0 <= before[step.arc as int] <= net@.arcs[step.arc as int].capacity);
            lemma_far();
        }
        let carried: u64 = if step.forward {
            x[step.arc] + amount
        } else {
            x[step.arc] - amount
        };
        x[step.arc] = carried;
        assert(ints(x@) =~= carry(before, step, amount as int));
        i = i + 1;
    }
}

/// Where no step that can carry more leads out of a set of nodes, every arc
/// that leaves the set is full and every arc that enters it is empty, so
/// that the flow out of the set is the capacity of the arcs that leave it.
proof fn lemma_closed_set_flow(net: NetworkView, x: Seq<int>, inside: Seq<bool>, k: int)
    requires
        network_wf(net),
        within_capacity(net, x),
        inside.len() == net.nodes,
        0 <= k <= net.arcs.len(),
        forall|a: int, forward: bool|
            0 <= a < net.arcs.len() && #[trigger] has_room(net, x, a, forward) && inside[step_from(
                net,
                a,
                forward,
            )] ==> inside[step_to(net, a, forward)],
    ensures
        weighted(net.arcs, x, membership(inside), k) == cut_capacity(net.arcs, inside, k),
    decreases k,
{
    if k > 0 {
        lemma_closed_set_flow(net, x, inside, k - 1);
        let a = k - 1;
        let arc = net.arcs[a];
        let w = membership(inside);
        assert(0 <= x[a] <= arc.capacity);
        assert(0 <= arc.tail < net.nodes && 0 <= arc.head < net.nodes);
        if inside[arc.tail] && !inside[arc.head] {
            assert(!has_room(net, x, a, true));
            assert((w[arc.tail] - w[arc.head]) * x[a] == arc.capacity) by (nonlinear_arith)
                requires
                    w[arc.tail] - w[arc.head] == 1,
                    x[a] == arc.capacity,
            ;
        } else if !inside[arc.tail] && inside[arc.head] {
            assert(!has_room(net, x, a, false));
            assert((w[arc.tail] - w[arc.head]) * x[a] == 0) by (nonlinear_arith)
                requires
                    x[a] == 0,
            ;
        } else {
            assert((w[arc.tail] - w[arc.head]) * x[a] == 0) by (nonlinear_arith)
                requires
                    w[arc.tail] - w[arc.head] == 0,
            ;
        }
    }
}

/// What the first `m` nodes of a set send on is no more than what they
/// supply, and less by the excess of any one of them.
proof fn lemma_excess_stays_inside(
    net: NetworkView,
    x: Seq<int>,
    inside: Seq<bool>,
    source: int,
    m: int,
)
    requires
        0 <= m <= net.nodes - 1,
        inside.len() == net.nodes,
        0 <= source < net.nodes - 1,
        inside[source],
        forall|v: int| 0 <= v < net.nodes - 1 ==> #[trigger] excess_at(net, x, v) >= 0,
    ensures
        weighted_outflow(net.arcs, x, membership(inside), net.arcs.len() as int, m)
            <= weighted_supply(net.supply, membership(inside), m) - if source < m {
            excess_at(net, x, source)
        } else {
            0
        },
    decreases m,
{
    if m > 0 {
        lemma_excess_stays_inside(net, x, inside, source, m - 1);
        let v = m - 1;
        let w = membership(inside);
        let out = outflow(net.arcs, x, v, net.arcs.len() as int);
        assert(excess_at(net, x, v) >= 0);
        assert(w[v] * out == w[v] * net.supply[v] - w[v] * excess_at(net, x, v))
            by (nonlinear_arith)
            requires
                out == net.supply[v] - excess_at(net, x, v),
        ;
        assert(w[v] * excess_at(net, x, v) >= if v == source {
            excess_at(net, x, source)
        } else {
            0
        }) by (nonlinear_arith)
            requires
                excess_at(net, x, v) >= 0,
                0 <= w[v] <= 1,
                v == source ==> w[v] == 1,
        ;
    }
}

/// A search that leaves a node with an excess and does not reach the sink
/// shows that the network has no feasible flow.
proof fn lemma_no_way(
    net: NetworkView,
    x: Seq<u64>,
    excess: Seq<u64>,
    pot: Seq<u64>,
    price: Seq<int>,
    alive: Seq<bool>,
    s: Search,
    source: int,
)
    requires
        balanced(net, x, excess, pot, price, alive),
        searched(net, ints(x), excess, pot, alive, s),
        !s.done@[sink_of(net)],
        0 <= source < net.nodes - 1,
        excess[source] > 0,
    ensures
        !solvable(net),
{
    let xv = ints(x);
    let inside = s.done@;
    let w = membership(inside);
    let k = net.arcs.len() as int;
    let (count, top) = choose|count: int, top: int|
        labelled(net, xv, excess, pot, alive, s, count, top);
    assert(label_ok(net, xv, excess, pot, alive, s, count, top, source));
    assert(inside[source]);
    assert forall|a: int, forward: bool|
        0 <= a < net.arcs.len() && #[trigger] has_room(net, xv, a, forward) && inside[step_from(
            net,
            a,
            forward,
        )] implies inside[step_to(net, a, forward)] by {
        assert(step_settled(net, xv, pot, s, -1, 0, a, forward));
        assert(0 <= step_to(net, a, forward) < net.nodes);
    }
    lemma_closed_set_flow(net, xv, inside, k);
    lemma_weighted_by_nodes(net.arcs, xv, w, net.nodes, k);
    assert(w[net.nodes - 1] * outflow(net.arcs, xv, net.nodes - 1, k) == 0) by (nonlinear_arith)
        requires
            w[net.nodes - 1] == 0,
    ;
    assert forall|v: int| 0 <= v < net.nodes - 1 implies #[trigger] excess_at(net, xv, v) >= 0 by {
        assert(excess[v] == excess_at(net, xv, v));
    }
    lemma_excess_stays_inside(net, xv, inside, source, net.nodes - 1);
    assert(excess_at(net, xv, source) == excess[source]);
    assert(cut_capacity(net.arcs, inside, k) < supply_inside(net.supply, inside, net.nodes - 1));
    if solvable(net) {
        let y = choose|y: Seq<int>| feasible(net, y);
        lemma_cut_bounds_supply(net, y, inside);
    }
}

/// Where no arc carries anything, nothing leaves or enters a node.
proof fn lemma_outflow_of_nothing(arcs: Seq<ArcView>, x: Seq<int>, v: int, k: int)
    requires
        0 <= k <= x.len(),
        forall|a: int| 0 <= a < x.len() ==> #[trigger] x[a] == 0,
    ensures
        outflow(arcs, x, v, k) == 0,
    decreases k,
{
    if k > 0 {
        lemma_outflow_of_nothing(arcs, x, v, k - 1);
    }
}

/// A list of as many zeros as asked for.
fn zeros(len: usize) -> (v: Vec<u64>)
    ensures
        v@.len() == len,
        forall|i: int| 0 <= i < len ==> #[trigger] v@[i] == 0,
{
    let mut v: Vec<u64> = Vec::new();
    let mut i: usize = 0;
    while i < len
        invariant
            i <= len,
            v@.len() == i,
            forall|j: int| 0 <= j < i ==> #[trigger] v@[j] == 0,
        decreases len - i,
    {
        v.push(0);
        i = i + 1;
    }
    v
}

/// A copy of a list of numbers.
fn copy_of(values: &Vec<u64>) -> (v: Vec<u64>)
    ensures
        v@ == values@,
{
    let mut v: Vec<u64> = Vec::new();
    let mut i: usize = 0;
    while i < values.len()
        invariant
            i <= values@.len(),
            v@.len() == i,
            forall|j: int| 0 <= j < i ==> #[trigger] v@[j] == values@[j],
        decreases values@.len() - i,
    {
        v.push(values[i]);
        i = i + 1;
    }
    assert(v@ =~= values@);
    v
}

/// The flow that carries nothing is within the capacities, leaves every node
/// its supply as excess, and has the prices that are nothing everywhere.
proof fn lemma_nothing_balanced(net: NetworkView, x: Seq<u64>, excess: Seq<u64>, pot: Seq<u64>)
    requires
        network_wf(net),
        x.len() == net.arcs.len(),
        forall|a: int| 0 <= a < x.len() ==> #[trigger] x[a] == 0,
        ints(excess) == net.supply,
        pot.len() == net.nodes,
        forall|v: int| 0 <= v < pot.len() ==> #[trigger] pot[v] == 0,
    ensures
        balanced(net, x, excess, pot, ints(pot), Seq::new(net.nodes as nat, |v: int| true)),
{
    lemma_far();
    let xv = ints(x);
    let alive = Seq::new(net.nodes as nat, |v: int| true);
    assert(excess.len() == net.supply.len());
    assert forall|v: int| 0 <= v < net.nodes - 1 implies excess[v] == #[trigger] excess_at(
        net,
        xv,
        v,
    ) by {
        lemma_outflow_of_nothing(net.arcs, xv, v, net.arcs.len() as int);
        assert(ints(excess)[v] == net.supply[v]);
    }
    assert forall|v: int| 0 <= v < net.nodes implies #[trigger] node_ready(
        net,
        excess,
        pot,
        alive,
        v,
    ) by {}
    assert forall|a: int, forward: bool| 0 <= a < net.arcs.len() implies #[trigger] step_ready(
        net,
        xv,
        pot,
        alive,
        a,
        forward,
    ) by {
        assert(0 <= net.arcs[a].tail < net.nodes && 0 <= net.arcs[a].head < net.nodes);
        assert(xv[a] == 0);
    }
    assert forall|a: int| 0 <= a < net.arcs.len() implies {
        &&& xv[a] < (#[trigger] net.arcs[a]).capacity ==> reduced_cost(net.arcs[a], ints(pot)) >= 0
        &&& xv[a] > 0 ==> reduced_cost(net.arcs[a], ints(pot)) <= 0
    } by {
        assert(0 <= net.arcs[a].tail < net.nodes && 0 <= net.arcs[a].head < net.nodes);
        assert(xv[a] == 0);
    }
    assert forall|a: int| 0 <= a < xv.len() implies 0 <= #[trigger] xv[a]
        <= net.arcs[a].capacity by {
        assert(xv[a] == 0);
    }
}

/// The minimum-cost flow of a network: a feasible flow that no feasible flow
/// undercuts, or nothing where the network has no feasible flow.
pub fn min_cost_flow(net: &Network) -> (r: Option<Vec<u64>>)
    requires
        network_wf(net@),
    ensures
        r is Some == solvable(net@),
        r is Some ==> optimal(net@, ints(r->0@)),
{
    let mut x = zeros(net.arcs.len());
    let mut excess = copy_of(&net.supply);
    let mut pot = zeros(net.nodes);
    let ghost mut price = ints(pot@);
    let ghost mut alive = Seq::new(net.nodes as nat, |v: int| true);
    proof {
        lemma_nothing_balanced(net@, x@, excess@, pot@);
    }
    loop
        invariant
            network_wf(net@),
            balanced(net@, x@, excess@, pot@, price, alive),
        ensures
            r_is(net@, x@, excess@, pot@, price, alive),
        decreases total(excess@),
    {
        let source = match find_excess(&excess) {
            Some(v) => v,
            None => {
                break ;
            },
        };
        let s = search(net, &x, &excess, &pot, Ghost(alive));
        if !s.done[net.nodes - 1] {
            proof {
                lemma_no_way(net@, x@, excess@, pot@, price, alive, s, source as int);
            }
            return None;
        }
        let (path, start) = trace(
            net,
            &s,
            Ghost(ints(x@)),
            Ghost(excess@),
            Ghost(pot@),
            Ghost(alive),
        );
        let ghost old_pot = pot@;
        let ghost old_alive = alive;
        let ghost old_x = ints(x@);
        proof {
            lemma_repriced(net@, x@, excess@, pot@, price, alive, s);
            lemma_far();
            let (count, top) = choose|count: int, top: int|
                labelled(net@, ints(x@), excess@, pot@, alive, s, count, top);
            assert forall|v: int| 0 <= v < s.done@.len() && #[trigger] s.done@[v] implies pot@[v]
                + s.dist@[v] <= u64::MAX by {
                lemma_reach_bound(net@, ints(x@), excess@, pot@, alive, s, count, top, v);
            }
            assert forall|i: int| 0 <= i < path@.len() implies (#[trigger] path@[i]).arc
                < net.arcs@.len() && room(net@, ints(x@), path@[i]) > 0 by {
                lemma_walk_descends(
                    net@,
                    ints(x@),
                    excess@,
                    pot@,
                    alive,
                    s,
                    count,
                    top,
                    path@,
                    i,
                    i + 1,
                );
            }
        }
        reprice(&mut pot, &s);
        proof {
            price = new_prices(price, old_pot, s);
            alive = s.done@;
        }
        let amount = bottleneck(net, &x, &path, excess[start]);
        proof {
            assert(carrying(net@, ints(x@), excess@, pot@, price, alive, path@, amount as int, 0));
        }
        carry_along(
            net,
            &mut x,
            &path,
            amount,
            Ghost(old_x),
            Ghost(excess@),
            Ghost(old_pot),
            Ghost(old_alive),
            Ghost(pot@),
            Ghost(price),
            Ghost(s),
        );
        let ghost before = excess@;
        let left: u64 = excess[start] - amount;
        excess[start] = left;
        proof {
            lemma_total_update(before, start as int, amount);
            assert(excess@ =~= before.update(start as int, (before[start as int] - amount) as u64));
            assert forall|v: int| 0 <= v < net@.nodes implies #[trigger] node_ready(
                net@,
                excess@,
                pot@,
                alive,
                v,
            ) by {
                assert(node_ready(net@, before, pot@, alive, v));
            }
            assert forall|v: int|
                0 <= v < net@.nodes - 1 implies excess@[v] == #[trigger] excess_at(
                net@,
                ints(x@),
                v,
            ) by {}
        }
    }
    proof {
        assert forall|v: int| 0 <= v < net@.nodes - 1 implies #[trigger] excess_at(
            net@,
            ints(x@),
            v,
        ) == 0 by {
            assert(excess@[v] == 0);
        }
        lemma_priced_flow_is_optimal(net@, ints(x@), price);
    }
    Some(x)
}

/// What the search for a flow ends on when no node has an excess left.
pub open spec fn r_is(
    net: NetworkView,
    x: Seq<u64>,
    excess: Seq<u64>,
    pot: Seq<u64>,
    price: Seq<int>,
    alive: Seq<bool>,
) -> bool {
    &&& balanced(net, x, excess, pot, price, alive)
    &&& forall|v: int| 0 <= v < excess.len() ==> #[trigger] excess[v] == 0
}

} // verus!
