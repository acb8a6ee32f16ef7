//! The search for a cheapest way to send supply on: shortest distances over
//! the arcs that have room, from every node with an excess at once.

use crate::solver::network::{limit, network_wf, node_limit, reduced_cost, ArcView, NetworkView};
use vstd::prelude::*;

verus! {

/// An arc of a flow network.
#[derive(Clone, Copy, Debug, PartialEq, Eq)]
pub struct FlowArc {
    pub tail: usize,
    pub head: usize,
    pub capacity: u64,
    pub cost: u64,
}

impl View for FlowArc {
    type V = ArcView;

    open spec fn view(&self) -> ArcView {
        ArcView {
            tail: self.tail as int,
            head: self.head as int,
            capacity: self.capacity as int,
            cost: self.cost as int,
        }
    }
}

/// A flow network. The last node is the sink.
#[derive(Clone, Debug, PartialEq, Eq)]
pub struct Network {
    pub nodes: usize,
    pub arcs: Vec<FlowArc>,
    pub supply: Vec<u64>,
}

/// A list of numbers as mathematical integers.
pub open spec fn ints(s: Seq<u64>) -> Seq<int> {
    s.map_values(|f: u64| f as int)
}

impl View for Network {
    type V = NetworkView;

    open spec fn view(&self) -> NetworkView {
        NetworkView {
            nodes: self.nodes as int,
            arcs: self.arcs@.map_values(|a: FlowArc| a@),
            supply: ints(self.supply@),
        }
    }
}

/// One step of a walk: along an arc, or against it.
#[derive(Clone, Copy, Debug, PartialEq, Eq)]
pub struct Step {
    pub arc: usize,
    pub forward: bool,
}

/// Whether a step can carry more: an arc along its direction while it has
/// room, and against it while it carries something.
pub open spec fn has_room(net: NetworkView, x: Seq<int>, a: int, forward: bool) -> bool {
    if forward {
        x[a] < net.arcs[a].capacity
    } else {
        x[a] > 0
    }
}

/// Where a step starts.
pub open spec fn step_from(net: NetworkView, a: int, forward: bool) -> int {
    if forward {
        net.arcs[a].tail
    } else {
        net.arcs[a].head
    }
}

/// Where a step ends.
pub open spec fn step_to(net: NetworkView, a: int, forward: bool) -> int {
    if forward {
        net.arcs[a].head
    } else {
        net.arcs[a].tail
    }
}

/// What a step costs under potentials: the reduced cost of its arc along
/// the arc, and the negative of it against the arc.
pub open spec fn step_cost(net: NetworkView, potential: Seq<int>, a: int, forward: bool) -> int {
    if forward {
        reduced_cost(net.arcs[a], potential)
    } else {
        -reduced_cost(net.arcs[a], potential)
    }
}

/// The distance of a node that was not reached.
pub const UNREACHED: u64 = u64::MAX;

/// The greatest distance that a search can find.
pub open spec fn far() -> int {
    node_limit() * limit()
}

/// What a search found.
pub struct Search {
    /// The distance of every node, `UNREACHED` for the nodes not reached.
    pub dist: Vec<u64>,
    /// Whether a node was reached.
    pub done: Vec<bool>,
    /// The last step of a cheapest walk to every node that was reached, none
    /// for the nodes where such a walk starts.
    pub pred: Vec<Option<Step>>,
    /// The place of every node that was reached among those reached.
    pub order: Vec<usize>,
}

/// Whether a node is fit for a search: one still in play has a potential
/// that leaves room for a step, and one with an excess is in play at
/// potential nothing.
pub open spec fn node_ready(
    net: NetworkView,
    excess: Seq<u64>,
    pot: Seq<u64>,
    alive: Seq<bool>,
    v: int,
) -> bool {
    &&& alive[v] ==> pot[v] <= far() - limit()
    &&& v < net.nodes - 1 && excess[v] > 0 ==> alive[v] && pot[v] == 0
}

/// Whether a step is fit for a search: one that can carry more and starts at
/// a node in play ends at a node in play, at no negative cost.
pub open spec fn step_ready(
    net: NetworkView,
    x: Seq<int>,
    pot: Seq<u64>,
    alive: Seq<bool>,
    a: int,
    forward: bool,
) -> bool {
    has_room(net, x, a, forward) && alive[step_from(net, a, forward)] ==> alive[step_to(
        net,
        a,
        forward,
    )] && step_cost(net, ints(pot), a, forward) >= 0
}

/// What a search works on: a flow over the arcs of a network, with the
/// excess of every node, and potentials under which no step that can carry
/// more, and that starts at a node still in play, has a negative cost.
pub open spec fn searchable(
    net: NetworkView,
    x: Seq<int>,
    excess: Seq<u64>,
    pot: Seq<u64>,
    alive: Seq<bool>,
) -> bool {
    &&& network_wf(net)
    &&& x.len() == net.arcs.len()
    &&& excess.len() == net.nodes - 1
    &&& pot.len() == net.nodes
    &&& alive.len() == net.nodes
    &&& forall|v: int| 0 <= v < net.nodes ==> #[trigger] node_ready(net, excess, pot, alive, v)
    &&& forall|a: int, forward: bool|
        0 <= a < net.arcs.len() ==> #[trigger] step_ready(net, x, pot, alive, a, forward)
}

/// Whether a step is accounted for: if it can carry more and starts at a
/// node that was reached, it ends at a node whose distance is no more than
/// the distance of its start and its own cost. A step from the node `busy`
/// is asked this only if its arc comes before `k`.
pub open spec fn step_settled(
    net: NetworkView,
    x: Seq<int>,
    pot: Seq<u64>,
    s: Search,
    busy: int,
    k: int,
    a: int,
    forward: bool,
) -> bool {
    has_room(net, x, a, forward) && s.done@[step_from(net, a, forward)] && (step_from(
        net,
        a,
        forward,
    ) != busy || a < k) ==> {
        &&& s.dist@[step_to(net, a, forward)] != UNREACHED
        &&& s.dist@[step_to(net, a, forward)] <= s.dist@[step_from(net, a, forward)] + step_cost(
            net,
            ints(pot),
            a,
            forward,
        )
    }
}

/// Whether the steps from the nodes that were reached are accounted for.
pub open spec fn settled(
    net: NetworkView,
    x: Seq<int>,
    pot: Seq<u64>,
    s: Search,
    busy: int,
    k: int,
) -> bool {
    forall|a: int, forward: bool|
        0 <= a < net.arcs.len() ==> #[trigger] step_settled(net, x, pot, s, busy, k, a, forward)
}

/// What holds of the last step to a node with a distance: it can carry
/// more, it ends at the node, it starts at a node that was reached earlier,
/// and the distance of the node is that of the start and the cost of the
/// step. A node without a last step has an excess and distance nothing.
pub open spec fn last_step_ok(
    net: NetworkView,
    x: Seq<int>,
    excess: Seq<u64>,
    pot: Seq<u64>,
    s: Search,
    v: int,
) -> bool {
    match s.pred@[v] {
        None => v < net.nodes - 1 && excess[v] > 0 && s.dist@[v] == 0,
        Some(step) => {
            &&& step.arc < net.arcs.len()
            &&& has_room(net, x, step.arc as int, step.forward)
            &&& step_to(net, step.arc as int, step.forward) == v
            &&& s.done@[step_from(net, step.arc as int, step.forward)]
            &&& s.done@[v] ==> s.order@[step_from(net, step.arc as int, step.forward)]
                < s.order@[v]
            &&& s.dist@[v] == s.dist@[step_from(net, step.arc as int, step.forward)] + step_cost(
                net,
                ints(pot),
                step.arc as int,
                step.forward,
            )
        },
    }
}

/// What holds of the label of one node while a search runs and when it is
/// over. `count` nodes were reached so far, the last of them at distance
/// `top`.
pub open spec fn label_ok(
    net: NetworkView,
    x: Seq<int>,
    excess: Seq<u64>,
    pot: Seq<u64>,
    alive: Seq<bool>,
    s: Search,
    count: int,
    top: int,
    v: int,
) -> bool {
    &&& s.done@[v] ==> s.dist@[v] != UNREACHED
    &&& v < net.nodes - 1 && excess[v] > 0 ==> s.dist@[v] == 0
    &&& s.dist@[v] != UNREACHED ==> {
        &&& alive[v]
        &&& if s.done@[v] {
            &&& s.order@[v] < count
            &&& s.dist@[v] + pot[v] <= s.order@[v] * limit()
            &&& s.dist@[v] <= top
        } else {
            &&& s.dist@[v] + pot[v] <= count * limit()
            &&& top <= s.dist@[v]
        }
        &&& last_step_ok(net, x, excess, pot, s, v)
    }
}

/// What holds of the labels of a search while it runs and when it is over.
pub open spec fn labelled(
    net: NetworkView,
    x: Seq<int>,
    excess: Seq<u64>,
    pot: Seq<u64>,
    alive: Seq<bool>,
    s: Search,
    count: int,
    top: int,
) -> bool {
    &&& s.dist@.len() == net.nodes
    &&& s.done@.len() == net.nodes
    &&& s.pred@.len() == net.nodes
    &&& s.order@.len() == net.nodes
    &&& 0 <= count <= net.nodes
    &&& 0 <= top
    &&& forall|v: int|
        0 <= v < net.nodes ==> #[trigger] label_ok(net, x, excess, pot, alive, s, count, top, v)
}

/// Whether every node with a distance was reached.
pub open spec fn all_reached(net: NetworkView, s: Search) -> bool {
    forall|v: int| 0 <= v < net.nodes && !(#[trigger] s.done@[v]) ==> s.dist@[v] == UNREACHED
}

/// What a finished search has found: the labels hold, every step from a
/// node that was reached is accounted for, and every node with a distance
/// was reached.
pub open spec fn searched(
    net: NetworkView,
    x: Seq<int>,
    excess: Seq<u64>,
    pot: Seq<u64>,
    alive: Seq<bool>,
    s: Search,
) -> bool {
    &&& exists|count: int, top: int| labelled(net, x, excess, pot, alive, s, count, top)
    &&& settled(net, x, pot, s, -1, 0)
    &&& all_reached(net, s)
}

/// The number of nodes not reached yet.
pub open spec fn open_nodes(done: Seq<bool>) -> nat
    decreases done.len(),
{
    if done.len() == 0 {
        0
    } else {
        open_nodes(done.drop_last()) + if done.last() {
            0nat
        } else {
            1nat
        }
    }
}

/// Reaching an open node leaves one open node less.
proof fn lemma_open_nodes_close(done: Seq<bool>, v: int)
    requires
        0 <= v < done.len(),
        !done[v],
    ensures
        open_nodes(done.update(v, true)) + 1 == open_nodes(done),
    decreases done.len(),
{
    let after = done.update(v, true);
    if v == done.len() - 1 {
        assert(after.drop_last() =~= done.drop_last());
    } else {
        assert(after.drop_last() =~= done.drop_last().update(v, true));
        lemma_open_nodes_close(done.drop_last(), v);
    }
}

/// No more nodes are open than there are.
proof fn lemma_open_nodes_bound(done: Seq<bool>)
    ensures
        open_nodes(done) <= done.len(),
    decreases done.len(),
{
    if done.len() > 0 {
        lemma_open_nodes_bound(done.drop_last());
    }
}

/// The open node with the least distance, if any node with a distance is
/// open.
fn pick(dist: &Vec<u64>, done: &Vec<bool>) -> (r: Option<usize>)
    requires
        dist@.len() == done@.len(),
    ensures
        match r {
            Some(u) => {
                &&& u < dist@.len()
                &&& !done@[u as int]
                &&& dist@[u as int] != UNREACHED
                &&& forall|v: int|
                    0 <= v < dist@.len() && !(#[trigger] done@[v]) ==> dist@[u as int] <= dist@[v]
            },
            None => forall|v: int|
                0 <= v < dist@.len() && !(#[trigger] done@[v]) ==> dist@[v] == UNREACHED,
        },
{
    let mut best: Option<usize> = None;
    let mut v: usize = 0;
    while v < dist.len()
        invariant
            v <= dist@.len(),
            dist@.len() == done@.len(),
            match best {
                Some(u) => {
                    &&& u < v
                    &&& !done@[u as int]
                    &&& dist@[u as int] != UNREACHED
                    &&& forall|w: int|
                        0 <= w < v && !(#[trigger] done@[w]) ==> dist@[u as int] <= dist@[w]
                },
                None => forall|w: int|
                    0 <= w < v && !(#[trigger] done@[w]) ==> dist@[w] == UNREACHED,
            },
        decreases dist@.len() - v,
    {
        if !done[v] && dist[v] != UNREACHED {
            let better = match best {
                Some(u) => dist[v] < dist[u],
                None => true,
            };
            if better {
                best = Some(v);
            }
        }
        v = v + 1;
    }
    best
}

/// The labels of a search before it has reached anything: the nodes with an
/// excess at distance nothing, every other node unreached.
fn start(net: &Network, excess: &Vec<u64>) -> (s: Search)
    requires
        network_wf(net@),
        excess@.len() == net.nodes - 1,
    ensures
        s.dist@.len() == net.nodes,
        s.done@.len() == net.nodes,
        s.pred@.len() == net.nodes,
        s.order@.len() == net.nodes,
        forall|v: int| 0 <= v < net.nodes ==> !(#[trigger] s.done@[v]) && s.pred@[v] is None,
        forall|v: int|
            0 <= v < net.nodes ==> #[trigger] s.dist@[v] == if v < net.nodes - 1 && excess@[v] > 0 {
                0
            } else {
                UNREACHED
            },
{
    let mut dist: Vec<u64> = Vec::new();
    let mut done: Vec<bool> = Vec::new();
    let mut pred: Vec<Option<Step>> = Vec::new();
    let mut order: Vec<usize> = Vec::new();
    let mut v: usize = 0;
    while v < net.nodes
        invariant
            v <= net.nodes,
            excess@.len() == net.nodes - 1,
            dist@.len() == v,
            done@.len() == v,
            pred@.len() == v,
            order@.len() == v,
            forall|w: int| 0 <= w < v ==> !(#[trigger] done@[w]) && pred@[w] is None,
            forall|w: int|
                0 <= w < v ==> #[trigger] dist@[w] == if w < net.nodes - 1 && excess@[w] > 0 {
                    0
                } else {
                    UNREACHED
                },
        decreases net.nodes - v,
    {
        let first = v < net.nodes - 1 && excess[v] > 0;
        dist.push(
            if first {
                0
            } else {
                UNREACHED
            },
        );
        done.push(false);
        pred.push(None);
        order.push(0);
        v = v + 1;
    }
    Search { dist, done, pred, order }
}

/// Marks the open node `u` as reached.
fn close(s: &mut Search, u: usize, count: usize)
    requires
        u < old(s).done@.len(),
        u < old(s).order@.len(),
    ensures
        final(s).dist@ == old(s).dist@,
        final(s).pred@ == old(s).pred@,
        final(s).done@ == old(s).done@.update(u as int, true),
        final(s).order@ == old(s).order@.update(u as int, count),
{
    s.done[u] = true;
    s.order[u] = count;
}

/// Gives the node `w` a distance and a last step.
fn label(s: &mut Search, w: usize, reach: u64, step: Step)
    requires
        w < old(s).dist@.len(),
        w < old(s).pred@.len(),
    ensures
        final(s).dist@ == old(s).dist@.update(w as int, reach),
        final(s).pred@ == old(s).pred@.update(w as int, Some(step)),
        final(s).done@ == old(s).done@,
        final(s).order@ == old(s).order@,
{
    s.dist[w] = reach;
    s.pred[w] = Some(step);
}

/// Whether `after` is `before` with the step along or against arc `a` from
/// the node `u` taken into account: where the step can carry more and
/// reaches its end at a distance less than the end has, the end has it now,
/// with this step as its last; nothing else has changed.
pub open spec fn relaxes(
    net: NetworkView,
    x: Seq<int>,
    pot: Seq<u64>,
    before: Search,
    after: Search,
    u: int,
    a: int,
    forward: bool,
) -> bool {
    let w = step_to(net, a, forward);
    let reach = before.dist@[u] + step_cost(net, ints(pot), a, forward);
    &&& after.done@ == before.done@
    &&& after.order@ == before.order@
    &&& if has_room(net, x, a, forward) && step_from(net, a, forward) == u && reach
        < before.dist@[w] {
        &&& after.dist@.len() == before.dist@.len()
        &&& after.dist@[w] == reach
        &&& after.dist@ == before.dist@.update(w, after.dist@[w])
        &&& after.pred@ == before.pred@.update(w, Some(Step { arc: a as usize, forward }))
    } else {
        &&& after.dist@ == before.dist@
        &&& after.pred@ == before.pred@
    }
}

/// Taking a step into account keeps the labels in order.
proof fn lemma_relaxed(
    net: NetworkView,
    x: Seq<int>,
    excess: Seq<u64>,
    pot: Seq<u64>,
    alive: Seq<bool>,
    before: Search,
    after: Search,
    count: int,
    top: int,
    u: int,
    a: int,
    forward: bool,
)
    requires
        searchable(net, x, excess, pot, alive),
        labelled(net, x, excess, pot, alive, before, count, top),
        0 <= u < net.nodes,
        0 <= a < net.arcs.len() <= usize::MAX,
        before.done@[u],
        before.dist@[u] == top,
        relaxes(net, x, pot, before, after, u, a, forward),
    ensures
        labelled(net, x, excess, pot, alive, after, count, top),
        after.done@[u],
        after.dist@[u] == top,
        forall|v: int| 0 <= v < net.nodes ==> #[trigger] after.dist@[v] <= before.dist@[v],
        forall|v: int|
            0 <= v < net.nodes && before.done@[v] ==> #[trigger] after.dist@[v] == before.dist@[v],
{
    let w = step_to(net, a, forward);
    let reach = before.dist@[u] + step_cost(net, ints(pot), a, forward);
    assert(label_ok(net, x, excess, pot, alive, before, count, top, u));
    if has_room(net, x, a, forward) && step_from(net, a, forward) == u && reach < before.dist@[w] {
        assert(step_ready(net, x, pot, alive, a, forward));
        assert(0 <= w < net.nodes);
        assert(label_ok(net, x, excess, pot, alive, before, count, top, w));
        assert(!before.done@[w]);
        assert(reach + pot[w] <= count * limit()) by {
            assert(before.order@[u] * limit() + limit() <= count * limit()) by (nonlinear_arith)
                requires
                    before.order@[u] + 1 <= count,
                    limit() >= 0,
            ;
            assert(0 <= net.arcs[a].cost <= limit());
        }
        assert forall|v: int| 0 <= v < net.nodes implies #[trigger] label_ok(
            net,
            x,
            excess,
            pot,
            alive,
            after,
            count,
            top,
            v,
        ) by {
            assert(label_ok(net, x, excess, pot, alive, before, count, top, v));
            if v != w {
                if before.dist@[v] != UNREACHED {
                    if let Some(step) = before.pred@[v] {
                        let f = step_from(net, step.arc as int, step.forward);
                        assert(f != w);
                    }
                }
            }
        }
    } else {
        assert forall|v: int| 0 <= v < net.nodes implies #[trigger] label_ok(
            net,
            x,
            excess,
            pot,
            alive,
            after,
            count,
            top,
            v,
        ) by {
            assert(label_ok(net, x, excess, pot, alive, before, count, top, v));
        }
    }
}

/// Once both steps over arc `a` from the node `u` are taken into account,
/// the steps from `u` are accounted for as far as arc `a` and one more.
proof fn lemma_settle_arc(
    net: NetworkView,
    x: Seq<int>,
    pot: Seq<u64>,
    before: Search,
    between: Search,
    after: Search,
    u: int,
    a: int,
)
    requires
        0 <= u < net.nodes,
        0 <= a < net.arcs.len(),
        network_wf(net),
        before.dist@.len() == net.nodes,
        before.done@.len() == net.nodes,
        settled(net, x, pot, before, u, a),
        relaxes(net, x, pot, before, between, u, a, true),
        relaxes(net, x, pot, between, after, u, a, false),
        before.done@[u],
        forall|forward: bool|
            has_room(net, x, a, forward) && step_from(net, a, forward) == u ==> before.dist@[u]
                + #[trigger] step_cost(net, ints(pot), a, forward) < UNREACHED,
        forall|v: int| 0 <= v < net.nodes ==> #[trigger] between.dist@[v] <= before.dist@[v],
        forall|v: int| 0 <= v < net.nodes ==> #[trigger] after.dist@[v] <= between.dist@[v],
        forall|v: int|
            0 <= v < net.nodes && before.done@[v] ==> #[trigger] between.dist@[v]
                == before.dist@[v],
        forall|v: int|
            0 <= v < net.nodes && before.done@[v] ==> #[trigger] after.dist@[v] == between.dist@[v],
    ensures
        settled(net, x, pot, after, u, a + 1),
{
    assert forall|b: int, forward: bool| 0 <= b < net.arcs.len() implies #[trigger] step_settled(
        net,
        x,
        pot,
        after,
        u,
        a + 1,
        b,
        forward,
    ) by {
        let f = step_from(net, b, forward);
        let t = step_to(net, b, forward);
        assert(0 <= f < net.nodes && 0 <= t < net.nodes);
        if has_room(net, x, b, forward) && after.done@[f] && (f != u || b < a + 1) {
            assert(after.dist@[f] == between.dist@[f]);
            assert(between.dist@[f] == before.dist@[f]);
            assert(after.dist@[t] <= between.dist@[t]);
            assert(between.dist@[t] <= before.dist@[t]);
            if f != u || b < a {
                assert(step_settled(net, x, pot, before, u, a, b, forward));
            } else {
                assert(b == a);
                assert(before.dist@[u] + step_cost(net, ints(pot), a, forward) < UNREACHED);
                if forward {
                    assert(between.dist@[t] <= before.dist@[u] + step_cost(
                        net,
                        ints(pot),
                        a,
                        true,
                    ));
                } else {
                    assert(between.dist@[u] == before.dist@[u]);
                    assert(after.dist@[t] <= between.dist@[u] + step_cost(
                        net,
                        ints(pot),
                        a,
                        false,
                    ));
                }
            }
        }
    }
}

/// Searches the cheapest walks from the nodes with an excess over the steps
/// that can carry more.
pub fn search(
    net: &Network,
    x: &Vec<u64>,
    excess: &Vec<u64>,
    pot: &Vec<u64>,
    Ghost(alive): Ghost<Seq<bool>>,
) -> (s: Search)
    requires
        searchable(net@, ints(x@), excess@, pot@, alive),
    ensures
        searched(net@, ints(x@), excess@, pot@, alive, s),
{
    let n = net.nodes;
    let m = net.arcs.len();
    let ghost netv = net@;
    let ghost xv = ints(x@);
    let mut s = start(net, excess);
    let mut count: usize = 0;
    let mut top: u64 = 0;
    proof {
        lemma_open_nodes_bound(s.done@);
        assert forall|v: int| 0 <= v < netv.nodes implies #[trigger] label_ok(
            netv,
            xv,
            excess@,
            pot@,
            alive,
            s,
            0,
            0,
            v,
        ) by {
            assert(node_ready(netv, excess@, pot@, alive, v));
            assert(s.dist@[v] == if v < netv.nodes - 1 && excess@[v] > 0 {
                0
            } else {
                UNREACHED
            });
            assert(!s.done@[v]);
            assert(s.pred@[v] is None);
        }
        assert forall|a: int, forward: bool|
            0 <= a < netv.arcs.len() implies #[trigger] step_settled(
            netv,
            xv,
            pot@,
            s,
            -1,
            0,
            a,
            forward,
        ) by {
            assert(!s.done@[step_from(netv, a, forward)]);
        }
    }
    loop
        invariant
            n == net.nodes,
            m == net.arcs@.len(),
            netv == net@,
            xv == ints(x@),
            searchable(netv, xv, excess@, pot@, alive),
            labelled(netv, xv, excess@, pot@, alive, s, count as int, top as int),
            settled(netv, xv, pot@, s, -1, 0),
            count + open_nodes(s.done@) <= n,
        ensures
            labelled(netv, xv, excess@, pot@, alive, s, count as int, top as int),
            settled(netv, xv, pot@, s, -1, 0),
            all_reached(netv, s),
        decreases open_nodes(s.done@),
    {
        let u = match pick(&s.dist, &s.done) {
            Some(u) => u,
            None => {
                break ;
            },
        };
        let ghost before = s;
        proof {
            lemma_open_nodes_close(s.done@, u as int);
        }
        let ghost old_top = top;
        top = s.dist[u];
        close(&mut s, u, count);
        count = count + 1;
        proof {
            lemma_closed(
                netv,
                xv,
                excess@,
                pot@,
                alive,
                before,
                s,
                count as int - 1,
                old_top as int,
                u as int,
            );
            assert forall|a: int, forward: bool|
            0 <= a < netv.arcs.len() implies #[trigger] step_settled(
                netv,
                xv,
                pot@,
                s,
                u as int,
                0,
                a,
                forward,
            ) by {
                assert(step_settled(netv, xv, pot@, before, -1, 0, a, forward));
            }
        }
        let mut a: usize = 0;
        while a < m
            invariant
                a <= m,
                u < n,
                n == net.nodes,
                m == net.arcs@.len(),
                netv == net@,
                xv == ints(x@),
                searchable(netv, xv, excess@, pot@, alive),
                labelled(netv, xv, excess@, pot@, alive, s, count as int, top as int),
                settled(netv, xv, pot@, s, u as int, a as int),
                s.done@[u as int],
                s.dist@[u as int] == top,
                s.done@ == before.done@.update(u as int, true),
            decreases m - a,
        {
            let arc = &net.arcs[a];
            let ghost previous = s;
            proof {
                assert(netv.arcs[a as int] == arc@);
                assert(label_ok(
                    netv,
                    xv,
                    excess@,
                    pot@,
                    alive,
                    s,
                    count as int,
                    top as int,
                    u as int,
                ));
                assert(s.order@[u as int] * limit() <= (node_limit() - 1) * limit())
                    by (nonlinear_arith)
                    requires
                        s.order@[u as int] <= node_limit() - 1,
                        limit() >= 0,
                ;
                assert(step_ready(netv, xv, pot@, alive, a as int, true));
                assert(step_ready(netv, xv, pot@, alive, a as int, false));
                assert(node_ready(netv, excess@, pot@, alive, arc.head as int));
                assert(node_ready(netv, excess@, pot@, alive, arc.tail as int));
            }
            if arc.tail == u && x[a] < arc.capacity {
                let w = arc.head;
                assert(has_room(netv, xv, a as int, true));
                let reach: u64 = s.dist[u] + pot[u] + arc.cost - pot[w];
                if reach < s.dist[w] {
                    label(&mut s, w, reach, Step { arc: a, forward: true });
                }
            }
            let ghost between = s;
            proof {
                assert(relaxes(netv, xv, pot@, previous, between, u as int, a as int, true));
                lemma_relaxed(
                    netv,
                    xv,
                    excess@,
                    pot@,
                    alive,
                    previous,
                    between,
                    count as int,
                    top as int,
                    u as int,
                    a as int,
                    true,
                );
            }
            if arc.head == u && x[a] > 0 {
                let w = arc.tail;
                assert(has_room(netv, xv, a as int, false));
                let reach: u64 = s.dist[u] + pot[u] - arc.cost - pot[w];
                if reach < s.dist[w] {
                    label(&mut s, w, reach, Step { arc: a, forward: false });
                }
            }
            proof {
                assert(relaxes(netv, xv, pot@, between, s, u as int, a as int, false));
                lemma_relaxed(
                    netv,
                    xv,
                    excess@,
                    pot@,
                    alive,
                    between,
                    s,
                    count as int,
                    top as int,
                    u as int,
                    a as int,
                    false,
                );
                assert forall|forward: bool|
                    has_room(netv, xv, a as int, forward) && step_from(netv, a as int, forward)
                        == u implies previous.dist@[u as int] + #[trigger] step_cost(
                    netv,
                    ints(pot@),
                    a as int,
                    forward,
                ) < UNREACHED by {
                    assert(step_ready(netv, xv, pot@, alive, a as int, forward));
                }
                lemma_settle_arc(netv, xv, pot@, previous, between, s, u as int, a as int);
            }
            a = a + 1;
        }
        proof {
            assert forall|a: int, forward: bool|
            0 <= a < netv.arcs.len() implies #[trigger] step_settled(
                netv,
                xv,
                pot@,
                s,
                -1,
                0,
                a,
                forward,
            ) by {
                assert(step_settled(netv, xv, pot@, s, u as int, m as int, a, forward));
            }
        }
    }
    s
}

/// Marking the open node with the least distance as reached keeps the labels
/// in order.
proof fn lemma_closed(
    net: NetworkView,
    x: Seq<int>,
    excess: Seq<u64>,
    pot: Seq<u64>,
    alive: Seq<bool>,
    before: Search,
    after: Search,
    count: int,
    top: int,
    u: int,
)
    requires
        network_wf(net),
        labelled(net, x, excess, pot, alive, before, count, top),
        0 <= u < net.nodes,
        count < net.nodes,
        count <= usize::MAX,
        !before.done@[u],
        before.dist@[u] != UNREACHED,
        forall|v: int|
            0 <= v < net.nodes && !(#[trigger] before.done@[v]) ==> before.dist@[u]
                <= before.dist@[v],
        after.dist@ == before.dist@,
        after.pred@ == before.pred@,
        after.done@ == before.done@.update(u, true),
        after.order@ == before.order@.update(u, count as usize),
    ensures
        labelled(net, x, excess, pot, alive, after, count + 1, before.dist@[u] as int),
{
    assert(label_ok(net, x, excess, pot, alive, before, count, top, u));
    assert forall|v: int| 0 <= v < net.nodes implies #[trigger] label_ok(
        net,
        x,
        excess,
        pot,
        alive,
        after,
        count + 1,
        before.dist@[u] as int,
        v,
    ) by {
        assert(label_ok(net, x, excess, pot, alive, before, count, top, v));
        if before.dist@[v] != UNREACHED {
            assert(count * limit() <= (count + 1) * limit()) by (nonlinear_arith)
                requires
                    limit() >= 0,
            ;
            if let Some(step) = before.pred@[v] {
                let f = step_from(net, step.arc as int, step.forward);
                assert(0 <= f < net.nodes);
                assert(label_ok(net, x, excess, pot, alive, before, count, top, f));
                assert(f != u);
            }
            if !before.done@[v] {
                assert(before.dist@[u] <= before.dist@[v]);
            }
        }
    }
}

} // verus!
