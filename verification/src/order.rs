//! The order in which the nodes of a graph are updated.
//!
//! A node is updated after the nodes that feed it. Among the nodes that
//! could come next the one created first comes first. Where wires run in a
//! circle no node of the circle can come after all that feed it; the order
//! then goes on with the node created first among those not yet placed.

use vstd::prelude::*;
use crate::graph::{find_node, lemma_position_of, Connection, Graph, Node, NodeId};

verus! {

/// Whether a wire runs from the node named `from` to the node named `to`.
pub open spec fn feeds(wires: Seq<Connection>, from: NodeId, to: NodeId) -> bool {
    wires.contains(Connection { from, to })
}

/// Whether the node at `j` is not placed yet.
pub open spec fn is_open(nodes: Seq<Node>, placed: Seq<int>, j: int) -> bool {
    0 <= j < nodes.len() && !placed.contains(j)
}

/// Whether every node that feeds the node at `j` is placed.
pub open spec fn is_ready(nodes: Seq<Node>, wires: Seq<Connection>, placed: Seq<int>, j: int) -> bool {
    forall|i: int|
        0 <= i < nodes.len() && #[trigger] feeds(wires, nodes[i].id, nodes[j].id)
            ==> placed.contains(i)
}

/// Whether some node can be placed after all that feed it.
pub open spec fn some_ready(nodes: Seq<Node>, wires: Seq<Connection>, placed: Seq<int>) -> bool {
    exists|c: int| is_open(nodes, placed, c) && #[trigger] is_ready(nodes, wires, placed, c)
}

/// Whether the node at `j` is the one to place after `placed`: the first
/// open node that is ready, or the first open node where none is ready.
pub open spec fn is_next(nodes: Seq<Node>, wires: Seq<Connection>, placed: Seq<int>, j: int) -> bool {
    &&& is_open(nodes, placed, j)
    &&& if some_ready(nodes, wires, placed) {
        &&& is_ready(nodes, wires, placed, j)
        &&& forall|c: int|
            0 <= c < j && is_open(nodes, placed, c) ==> !#[trigger] is_ready(nodes, wires, placed, c)
    } else {
        forall|c: int| 0 <= c < j ==> #[trigger] placed.contains(c)
    }
}

/// Whether `order` is the update order of the graph: it places every node,
/// and each place holds the node that is next after the places before it.
pub open spec fn is_update_order(nodes: Seq<Node>, wires: Seq<Connection>, order: Seq<int>) -> bool {
    &&& order.len() == nodes.len()
    &&& forall|k: int|
        0 <= k < order.len() ==> is_next(nodes, wires, order.take(k), #[trigger] order[k])
}

/// The positions in `order`, as integers.
pub open spec fn positions(order: Seq<usize>) -> Seq<int> {
    Seq::new(order.len(), |k: int| order[k] as int)
}

/// How many entries of `done` are set.
pub open spec fn count_set(done: Seq<bool>) -> nat
    decreases done.len(),
{
    if done.len() == 0 {
        0
    } else {
        count_set(done.drop_last()) + if done.last() { 1nat } else { 0nat }
    }
}

/// No more entries are set than there are, and all are set only where none
/// is clear.
proof fn lemma_count_set_bound(done: Seq<bool>)
    ensures
        count_set(done) <= done.len(),
        (exists|i: int| 0 <= i < done.len() && !done[i]) ==> count_set(done) < done.len(),
        (forall|i: int| 0 <= i < done.len() ==> done[i]) ==> count_set(done) == done.len(),
    decreases done.len(),
{
    if done.len() > 0 {
        let front = done.drop_last();
        lemma_count_set_bound(front);
        if exists|i: int| 0 <= i < done.len() && !done[i] {
            let i = choose|i: int| 0 <= i < done.len() && !done[i];
            if i < front.len() {
                assert(!front[i]);
            }
        }
        if forall|i: int| 0 <= i < done.len() ==> done[i] {
            assert forall|i: int| 0 <= i < front.len() implies front[i] by {
                assert(done[i]);
            }
        }
    }
}

/// Setting a clear entry sets one entry more.
proof fn lemma_count_set_update(done: Seq<bool>, j: int)
    requires
        0 <= j < done.len(),
        !done[j],
    ensures
        count_set(done.update(j, true)) == count_set(done) + 1,
    decreases done.len(),
{
    let after = done.update(j, true);
    if j == done.len() - 1 {
        assert(after.drop_last() =~= done.drop_last());
    } else {
        assert(after.drop_last() =~= done.drop_last().update(j, true));
        lemma_count_set_update(done.drop_last(), j);
    }
}

/// Whether `done` marks exactly the placed nodes.
pub open spec fn marks(done: Seq<bool>, placed: Seq<int>) -> bool {
    forall|i: int| 0 <= i < done.len() ==> #[trigger] done[i] == placed.contains(i)
}

/// Whether every node that feeds the node at `j` is placed.
fn node_is_ready(
    nodes: &Vec<Node>,
    wires: &Vec<Connection>,
    done: &Vec<bool>,
    j: usize,
    Ghost(placed): Ghost<Seq<int>>,
) -> (r: bool)
    requires
        j < nodes@.len(),
        done@.len() == nodes@.len(),
        marks(done@, placed),
        forall|a: int, b: int|
            0 <= a < b < nodes@.len() ==> (#[trigger] nodes@[a]).id != (#[trigger] nodes@[b]).id,
    ensures
        r == is_ready(nodes@, wires@, placed, j as int),
{
    let to = nodes[j].id;
    let mut k: usize = 0;
    while k < wires.len()
        invariant
            k <= wires@.len(),
            j < nodes@.len(),
            to == nodes@[j as int].id,
            done@.len() == nodes@.len(),
            marks(done@, placed),
            forall|a: int, b: int|
                0 <= a < b < nodes@.len() ==> (#[trigger] nodes@[a]).id != (#[trigger] nodes@[b]).id,
            forall|w: int, i: int|
                0 <= w < k && 0 <= i < nodes@.len() && #[trigger] wires@[w] == (Connection {
                    from: (#[trigger] nodes@[i]).id,
                    to,
                }) ==> placed.contains(i),
        decreases wires@.len() - k,
    {
        let wire = wires[k];
        if wire.to == to {
            proof {
                lemma_position_of(nodes@, wire.from);
            }
            if let Some(i) = find_node(nodes, wire.from) {
                if !done[i] {
                    proof {
                        assert(wires@[k as int] == Connection { from: nodes@[i as int].id, to });
                        assert(feeds(wires@, nodes@[i as int].id, nodes@[j as int].id));
                    }
                    return false;
                }
            }
        }
        k = k + 1;
    }
    proof {
        assert forall|i: int|
            0 <= i < nodes@.len() && #[trigger] feeds(
                wires@,
                nodes@[i].id,
                nodes@[j as int].id,
            ) implies placed.contains(i) by {
            let wire = Connection { from: nodes@[i].id, to };
            let w = choose|w: int| 0 <= w < wires@.len() && wires@[w] == wire;
            assert(wires@[w] == Connection { from: nodes@[i].id, to });
        }
    }
    true
}

/// The places before `k` in two update orders of one graph hold the same
/// nodes.
proof fn lemma_same_prefix(
    nodes: Seq<Node>,
    wires: Seq<Connection>,
    a: Seq<int>,
    b: Seq<int>,
    k: int,
)
    requires
        is_update_order(nodes, wires, a),
        is_update_order(nodes, wires, b),
        0 <= k <= nodes.len(),
    ensures
        a.take(k) == b.take(k),
    decreases k,
{
    if k == 0 {
        assert(a.take(0) =~= b.take(0));
    } else {
        lemma_same_prefix(nodes, wires, a, b, k - 1);
        let placed = a.take(k - 1);
        let x = a[k - 1];
        let y = b[k - 1];
        assert(is_next(nodes, wires, placed, x));
        assert(is_next(nodes, wires, placed, y));
        if some_ready(nodes, wires, placed) {
            assert(is_ready(nodes, wires, placed, x));
            assert(is_ready(nodes, wires, placed, y));
        } else {
            if x < y {
                assert(placed.contains(x));
            }
            if y < x {
                assert(placed.contains(y));
            }
        }
        assert(x == y);
        assert(a.take(k) =~= a.take(k - 1).push(x));
        assert(b.take(k) =~= b.take(k - 1).push(y));
    }
}

/// A graph has one update order only: the order is decided by the wires and
/// by the order in which the nodes were created.
pub proof fn lemma_update_order_unique(
    nodes: Seq<Node>,
    wires: Seq<Connection>,
    a: Seq<int>,
    b: Seq<int>,
)
    requires
        is_update_order(nodes, wires, a),
        is_update_order(nodes, wires, b),
    ensures
        a == b,
{
    lemma_same_prefix(nodes, wires, a, b, nodes.len() as int);
    assert(a.take(a.len() as int) =~= a);
    assert(b.take(b.len() as int) =~= b);
}

/// The marks of the nodes that the first `k` places of an update order hold.
spec fn marks_of(n: nat, order: Seq<int>, k: int) -> Seq<bool> {
    Seq::new(n, |i: int| order.take(k).contains(i))
}

/// The first `k` places of an update order hold `k` nodes.
proof fn lemma_places_count(nodes: Seq<Node>, wires: Seq<Connection>, order: Seq<int>, k: int)
    requires
        is_update_order(nodes, wires, order),
        0 <= k <= nodes.len(),
    ensures
        count_set(marks_of(nodes.len(), order, k)) == k,
    decreases k,
{
    let n = nodes.len();
    if k == 0 {
        assert forall|i: int| 0 <= i < n implies !#[trigger] marks_of(n, order, 0)[i] by {}
        lemma_count_clear(marks_of(n, order, 0));
    } else {
        lemma_places_count(nodes, wires, order, k - 1);
        let before = marks_of(n, order, k - 1);
        let x = order[k - 1];
        assert(is_next(nodes, wires, order.take(k - 1), x));
        lemma_count_set_update(before, x);
        assert(order.take(k) =~= order.take(k - 1).push(x));
        let shorter = order.take(k - 1);
        let longer = order.take(k);
        assert forall|i: int| 0 <= i < n implies marks_of(n, order, k)[i] == before.update(
            x,
            true,
        )[i] by {
            if i == x {
                assert(longer[k - 1] == x);
            } else if shorter.contains(i) {
                let at = choose|at: int| 0 <= at < shorter.len() && shorter[at] == i;
                assert(longer[at] == i);
            } else if longer.contains(i) {
                let at = choose|at: int| 0 <= at < longer.len() && longer[at] == i;
                assert(shorter[at] == i);
            }
        }
        assert(marks_of(n, order, k) =~= before.update(x, true));
    }
}

/// Where no entry is set, none is counted.
proof fn lemma_count_clear(done: Seq<bool>)
    requires
        forall|i: int| 0 <= i < done.len() ==> !#[trigger] done[i],
    ensures
        count_set(done) == 0,
    decreases done.len(),
{
    if done.len() > 0 {
        let front = done.drop_last();
        assert forall|i: int| 0 <= i < front.len() implies !#[trigger] front[i] by {
            assert(!done[i]);
        }
        lemma_count_clear(front);
        assert(!done[done.len() - 1]);
    }
}

/// An update order holds every node exactly once.
pub proof fn lemma_update_order_places_each_once(
    nodes: Seq<Node>,
    wires: Seq<Connection>,
    order: Seq<int>,
)
    requires
        is_update_order(nodes, wires, order),
    ensures
        order.len() == nodes.len(),
        forall|k: int| 0 <= k < order.len() ==> 0 <= #[trigger] order[k] < nodes.len(),
        forall|p: int, q: int| 0 <= p < q < order.len() ==> order[p] != order[q],
        forall|i: int| 0 <= i < nodes.len() ==> #[trigger] order.contains(i),
{
    let n = nodes.len();
    assert forall|k: int| 0 <= k < order.len() implies 0 <= #[trigger] order[k] < nodes.len() by {
        assert(is_next(nodes, wires, order.take(k), order[k]));
    }
    assert forall|p: int, q: int| 0 <= p < q < order.len() implies order[p] != order[q] by {
        assert(is_next(nodes, wires, order.take(q), order[q]));
        assert(order.take(q)[p] == order[p]);
    }
    lemma_places_count(nodes, wires, order, n as int);
    lemma_count_set_bound(marks_of(n, order, n as int));
    assert(order.take(n as int) =~= order);
    assert forall|i: int| 0 <= i < nodes.len() implies #[trigger] order.contains(i) by {
        if !order.contains(i) {
            assert(!marks_of(n, order, n as int)[i]);
        }
    }
}

/// Among the open nodes before `upto` one has the lowest rank.
proof fn lemma_lowest_open(nodes: Seq<Node>, placed: Seq<int>, rank: spec_fn(int) -> int, upto: int)
    requires
        0 <= upto <= nodes.len(),
        exists|c: int| 0 <= c < upto && is_open(nodes, placed, c),
    ensures
        exists|m: int|
            0 <= m < upto && is_open(nodes, placed, m) && forall|c: int|
                0 <= c < upto && is_open(nodes, placed, c) ==> rank(m) <= #[trigger] rank(c),
    decreases upto,
{
    let last = upto - 1;
    if exists|c: int| 0 <= c < last && is_open(nodes, placed, c) {
        lemma_lowest_open(nodes, placed, rank, last);
        let m = choose|m: int|
            0 <= m < last && is_open(nodes, placed, m) && forall|c: int|
                0 <= c < last && is_open(nodes, placed, c) ==> rank(m) <= #[trigger] rank(c);
        if is_open(nodes, placed, last) && rank(last) < rank(m) {
            assert(forall|c: int|
                0 <= c < upto && is_open(nodes, placed, c) ==> rank(last) <= #[trigger] rank(c));
        } else {
            assert(forall|c: int|
                0 <= c < upto && is_open(nodes, placed, c) ==> rank(m) <= #[trigger] rank(c));
        }
    } else {
        assert(is_open(nodes, placed, last));
        assert(forall|c: int|
            0 <= c < upto && is_open(nodes, placed, c) ==> rank(last) <= #[trigger] rank(c));
    }
}

/// Whether `rank` grows along every wire. Such a rank exists exactly where
/// no wires run in a circle.
pub open spec fn grows_along_wires(nodes: Seq<Node>, wires: Seq<Connection>, rank: spec_fn(int) -> int) -> bool {
    forall|a: int, b: int|
        0 <= a < nodes.len() && 0 <= b < nodes.len() && #[trigger] feeds(
            wires,
            nodes[a].id,
            nodes[b].id,
        ) ==> rank(a) < rank(b)
}

/// Where a rank grows along every wire, an open node of lowest rank is
/// ready.
proof fn lemma_lowest_is_ready(
    nodes: Seq<Node>,
    wires: Seq<Connection>,
    placed: Seq<int>,
    rank: spec_fn(int) -> int,
    m: int,
)
    requires
        grows_along_wires(nodes, wires, rank),
        is_open(nodes, placed, m),
        forall|c: int| 0 <= c < nodes.len() && is_open(nodes, placed, c) ==> rank(m) <= #[trigger] rank(c),
    ensures
        is_ready(nodes, wires, placed, m),
{
    assert forall|a: int|
        0 <= a < nodes.len() && #[trigger] feeds(wires, nodes[a].id, nodes[m].id) implies placed.contains(
        a,
    ) by {
        if !placed.contains(a) {
            assert(is_open(nodes, placed, a));
            assert(rank(m) <= rank(a));
            assert(rank(a) < rank(m));
        }
    }
}

/// Where a rank grows along every wire, some open node is ready as long as
/// one is open.
proof fn lemma_some_ready(
    nodes: Seq<Node>,
    wires: Seq<Connection>,
    placed: Seq<int>,
    rank: spec_fn(int) -> int,
    j: int,
)
    requires
        grows_along_wires(nodes, wires, rank),
        is_open(nodes, placed, j),
    ensures
        some_ready(nodes, wires, placed),
{
    lemma_lowest_open(nodes, placed, rank, nodes.len() as int);
    let m = choose|m: int|
        0 <= m < nodes.len() && is_open(nodes, placed, m) && forall|c: int|
            0 <= c < nodes.len() && is_open(nodes, placed, c) ==> rank(m) <= #[trigger] rank(c);
    lemma_lowest_is_ready(nodes, wires, placed, rank, m);
}

/// Where no wires run in a circle, an update order places every node after
/// the nodes that feed it: if a wire runs from the node at `i` to the node
/// at `j`, the order holds `i` before `j`.
pub proof fn lemma_update_order_follows_wires(
    nodes: Seq<Node>,
    wires: Seq<Connection>,
    order: Seq<int>,
    rank: spec_fn(int) -> int,
    i: int,
    j: int,
)
    requires
        is_update_order(nodes, wires, order),
        grows_along_wires(nodes, wires, rank),
        0 <= i < nodes.len(),
        0 <= j < nodes.len(),
        feeds(wires, nodes[i].id, nodes[j].id),
    ensures
        exists|p: int, q: int| 0 <= p < q < order.len() && order[p] == i && order[q] == j,
{
    lemma_update_order_places_each_once(nodes, wires, order);
    assert(order.contains(j));
    let q = choose|q: int| 0 <= q < order.len() && order[q] == j;
    let placed = order.take(q);
    assert(is_next(nodes, wires, placed, j));
    lemma_some_ready(nodes, wires, placed, rank, j);
    assert(is_ready(nodes, wires, placed, j));
    assert(placed.contains(i));
    let p = choose|p: int| 0 <= p < placed.len() && placed[p] == i;
    assert(order[p] == i);
}

/// As many clear marks as there are nodes.
fn clear_marks(n: usize) -> (done: Vec<bool>)
    ensures
        done@.len() == n,
        forall|i: int| 0 <= i < n ==> !#[trigger] done@[i],
        count_set(done@) == 0,
{
    let mut done: Vec<bool> = Vec::new();
    while done.len() < n
        invariant
            done@.len() <= n,
            forall|i: int| 0 <= i < done@.len() ==> !#[trigger] done@[i],
            count_set(done@) == 0,
        decreases n - done@.len(),
    {
        proof {
            assert(done@.push(false).drop_last() =~= done@);
        }
        done.push(false);
    }
    done
}

/// The first open node and the first open node that is ready.
fn scan_open(
    nodes: &Vec<Node>,
    wires: &Vec<Connection>,
    done: &Vec<bool>,
    Ghost(placed): Ghost<Seq<int>>,
) -> (r: (Option<usize>, Option<usize>))
    requires
        done@.len() == nodes@.len(),
        marks(done@, placed),
        forall|a: int, b: int|
            0 <= a < b < nodes@.len() ==> (#[trigger] nodes@[a]).id != (#[trigger] nodes@[b]).id,
    ensures
        match r.0 {
            Some(o) => is_open(nodes@, placed, o as int) && forall|c: int|
                0 <= c < o ==> #[trigger] placed.contains(c),
            None => forall|c: int| 0 <= c < nodes@.len() ==> #[trigger] placed.contains(c),
        },
        match r.1 {
            Some(p) => is_open(nodes@, placed, p as int) && is_ready(nodes@, wires@, placed, p as int)
                && forall|c: int|
                0 <= c < p && is_open(nodes@, placed, c) ==> !#[trigger] is_ready(
                    nodes@,
                    wires@,
                    placed,
                    c,
                ),
            None => forall|c: int|
                0 <= c < nodes@.len() && is_open(nodes@, placed, c) ==> !#[trigger] is_ready(
                    nodes@,
                    wires@,
                    placed,
                    c,
                ),
        },
{
    let mut first_open: Option<usize> = None;
    let mut first_ready: Option<usize> = None;
    let mut j: usize = 0;
    while j < nodes.len()
        invariant
            j <= nodes@.len(),
            done@.len() == nodes@.len(),
            marks(done@, placed),
            forall|a: int, b: int|
                0 <= a < b < nodes@.len() ==> (#[trigger] nodes@[a]).id != (#[trigger] nodes@[b]).id,
            match first_open {
                Some(o) => is_open(nodes@, placed, o as int) && forall|c: int|
                    0 <= c < o ==> #[trigger] placed.contains(c),
                None => forall|c: int| 0 <= c < j ==> #[trigger] placed.contains(c),
            },
            match first_ready {
                Some(p) => is_open(nodes@, placed, p as int) && is_ready(
                    nodes@,
                    wires@,
                    placed,
                    p as int,
                ) && forall|c: int|
                    0 <= c < p && is_open(nodes@, placed, c) ==> !#[trigger] is_ready(
                        nodes@,
                        wires@,
                        placed,
                        c,
                    ),
                None => forall|c: int|
                    0 <= c < j && is_open(nodes@, placed, c) ==> !#[trigger] is_ready(
                        nodes@,
                        wires@,
                        placed,
                        c,
                    ),
            },
        decreases nodes@.len() - j,
    {
        if !done[j] {
            if first_open.is_none() {
                first_open = Some(j);
            }
            if first_ready.is_none() && node_is_ready(nodes, wires, done, j, Ghost(placed)) {
                first_ready = Some(j);
            }
        }
        j = j + 1;
    }
    (first_open, first_ready)
}

/// The order in which the nodes are updated, as positions among `nodes`.
pub fn update_order(nodes: &Vec<Node>, wires: &Vec<Connection>) -> (order: Vec<usize>)
    requires
        forall|a: int, b: int|
            0 <= a < b < nodes@.len() ==> (#[trigger] nodes@[a]).id != (#[trigger] nodes@[b]).id,
    ensures
        is_update_order(nodes@, wires@, positions(order@)),
{
    let n = nodes.len();
    let mut done = clear_marks(n);
    let mut order: Vec<usize> = Vec::new();
    loop
        invariant
            n == nodes@.len(),
            done@.len() == n,
            forall|a: int, b: int|
                0 <= a < b < nodes@.len() ==> (#[trigger] nodes@[a]).id != (#[trigger] nodes@[b]).id,
            marks(done@, positions(order@)),
            count_set(done@) == order@.len(),
            forall|k: int|
                0 <= k < order@.len() ==> is_next(
                    nodes@,
                    wires@,
                    positions(order@).take(k),
                    #[trigger] positions(order@)[k],
                ),
        ensures
            order@.len() == n,
        decreases n - order@.len(),
    {
        let ghost placed = positions(order@);
        let (first_open, first_ready) = scan_open(nodes, wires, &done, Ghost(placed));
        let pick = match first_ready {
            Some(p) => p,
            None => match first_open {
                Some(o) => o,
                None => {
                    proof {
                        lemma_count_set_bound(done@);
                    }
                    break ;
                },
            },
        };
        proof {
            lemma_count_set_bound(done@);
            lemma_count_set_update(done@, pick as int);
            assert(is_next(nodes@, wires@, placed, pick as int));
        }
        done[pick] = true;
        order.push(pick);
        proof {
            let after = positions(order@);
            assert(after.take(placed.len() as int) =~= placed);
            assert(after =~= placed.push(pick as int));
            assert forall|i: int| 0 <= i < done@.len() implies #[trigger] done@[i] == after.contains(
                i,
            ) by {
                if i == pick {
                    assert(after[placed.len() as int] == i);
                } else if placed.contains(i) {
                    let at = choose|at: int| 0 <= at < placed.len() && placed[at] == i;
                    assert(after[at] == i);
                } else if after.contains(i) {
                    let at = choose|at: int| 0 <= at < after.len() && after[at] == i;
                    assert(placed[at] == i);
                }
            }
            assert forall|k: int| 0 <= k < order@.len() implies is_next(
                nodes@,
                wires@,
                after.take(k),
                #[trigger] after[k],
            ) by {
                if k < placed.len() {
                    assert(after.take(k) =~= placed.take(k));
                    assert(after[k] == placed[k]);
                }
            }
        }
    }
    order
}

impl Graph {
    /// The order in which the nodes of the graph are updated.
    pub fn update_order(&self) -> (order: Vec<usize>)
        requires
            self.wf(),
        ensures
            is_update_order(self.nodes@, self.connections@, positions(order@)),
    {
        update_order(&self.nodes, &self.connections)
    }
}

} // verus!
