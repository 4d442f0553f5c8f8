//! Topological ordering of a dataflow graph by Kahn's algorithm.
//!
//! Nodes are the numbers below a node count, edges are pairs of nodes. The
//! order is the one in which a first-in-first-out queue releases the nodes:
//! first the nodes without incoming edge, by rising number; then each node as
//! soon as the last of its predecessors has been released, the edges of the
//! released node being followed in the order in which they are listed.
use vstd::prelude::*;

verus! {

/// An edge `(from, to)` as a pair of mathematical integers.
pub open spec fn edge_at(edges: Seq<(usize, usize)>, k: int) -> (int, int) {
    (edges[k].0 as int, edges[k].1 as int)
}

/// Whether both ends of every edge are nodes.
pub open spec fn edges_valid(n: int, edges: Seq<(usize, usize)>) -> bool {
    forall|k: int| 0 <= k < edges.len() ==> (#[trigger] edges[k]).0 < n && edges[k].1 < n
}

/// The number of incoming edges of each node, counted over the first `k`
/// edges.
pub open spec fn degrees_upto(n: int, edges: Seq<(usize, usize)>, k: int) -> Seq<int>
    decreases k,
{
    if k <= 0 {
        Seq::new(n as nat, |v: int| 0int)
    } else {
        let before = degrees_upto(n, edges, k - 1);
        let to = edge_at(edges, k - 1).1;
        if 0 <= to < before.len() {
            before.update(to, before[to] + 1)
        } else {
            before
        }
    }
}

/// The nodes below `v` that have no incoming edge, by rising number.
pub open spec fn sources_upto(degree: Seq<int>, v: int) -> Seq<int>
    decreases v,
{
    if v <= 0 {
        Seq::empty()
    } else if 0 <= v - 1 < degree.len() && degree[v - 1] == 0 {
        sources_upto(degree, v - 1).push(v - 1)
    } else {
        sources_upto(degree, v - 1)
    }
}

/// The state of Kahn's algorithm.
pub struct Kahn {
    /// For each node, the number of incoming edges from nodes that have not
    /// been released yet.
    pub degree: Seq<int>,
    /// For each node, the length of the longest path that is known to end
    /// at it.
    pub level: Seq<int>,
    /// The nodes in the order in which they entered the queue.
    pub queue: Seq<int>,
    /// The number of nodes that have left the queue.
    pub released: int,
}

impl Kahn {
    /// The state before any node is released.
    pub open spec fn start(n: int, edges: Seq<(usize, usize)>) -> Kahn {
        let degree = degrees_upto(n, edges, edges.len() as int);
        Kahn {
            degree,
            level: Seq::new(n as nat, |v: int| 0int),
            queue: sources_upto(degree, n),
            released: 0,
        }
    }

    /// The state after the edge `(from, to)` has been followed from the node
    /// `head`, which is being released: `to` has one incoming edge less to
    /// wait for, and enters the queue where that was the last. An edge that
    /// does not leave `head` changes nothing, nor does one that comes back
    /// to `head` or enters a node that waits for no edge.
    pub open spec fn follow(self, head: int, edge: (int, int)) -> Kahn {
        let to = edge.1;
        if edge.0 == head && to != head && 0 <= to < self.degree.len() && 0 <= to
            < self.level.len() && 0 <= head < self.level.len() && self.degree[to] > 0 {
            let degree = self.degree.update(to, self.degree[to] - 1);
            let reached = self.level[head] + 1;
            let level = self.level.update(
                to,
                if self.level[to] < reached {
                    reached
                } else {
                    self.level[to]
                },
            );
            Kahn {
                degree,
                level,
                queue: if degree[to] == 0 {
                    self.queue.push(to)
                } else {
                    self.queue
                },
                released: self.released,
            }
        } else {
            self
        }
    }

    /// The state after the first `k` edges have been followed from `head`.
    pub open spec fn follow_upto(self, head: int, edges: Seq<(usize, usize)>, k: int) -> Kahn
        decreases k,
    {
        if k <= 0 {
            self
        } else {
            self.follow_upto(head, edges, k - 1).follow(head, edge_at(edges, k - 1))
        }
    }

    /// Whether a node waits in the queue.
    pub open spec fn pending(self) -> bool {
        0 <= self.released < self.queue.len()
    }

    /// The state after the next node has been released; the state itself
    /// where the queue is empty.
    pub open spec fn release(self, edges: Seq<(usize, usize)>) -> Kahn {
        if self.pending() {
            let head = self.queue[self.released];
            let after = self.follow_upto(head, edges, edges.len() as int);
            Kahn { released: self.released + 1, ..after }
        } else {
            self
        }
    }

    /// The state after `steps` releases.
    pub open spec fn run(n: int, edges: Seq<(usize, usize)>, steps: int) -> Kahn
        decreases steps,
    {
        if steps <= 0 {
            Kahn::start(n, edges)
        } else {
            Kahn::run(n, edges, steps - 1).release(edges)
        }
    }

    /// The released nodes in order, each with its level.
    pub open spec fn output(self) -> Seq<(int, int)> {
        Seq::new(
            if self.released >= 0 {
                self.released as nat
            } else {
                0
            },
            |i: int| (self.queue[i], self.level[self.queue[i]]),
        )
    }
}

/// The topological order of the graph with `n` nodes and the given edges, as
/// Kahn's algorithm finds it, each node with its level: the length of the
/// longest path that ends at it. There is none where an edge has an end that
/// is no node, or where some node is never released, which is the case
/// exactly where the graph has a cycle.
pub open spec fn spec_topo(n: int, edges: Seq<(usize, usize)>) -> Option<Seq<(int, int)>> {
    let last = Kahn::run(n, edges, n);
    if edges_valid(n, edges) && last.released == n {
        Some(last.output())
    } else {
        None
    }
}

/// The pairs of an executable order, as mathematical integers.
pub open spec fn order_view(order: Seq<(usize, usize)>) -> Seq<(int, int)> {
    Seq::new(order.len(), |i: int| (order[i].0 as int, order[i].1 as int))
}

/// Once the queue is empty, further releases change nothing.
proof fn lemma_run_stuck(n: int, edges: Seq<(usize, usize)>, i: int, j: int)
    requires
        0 <= i <= j,
        !Kahn::run(n, edges, i).pending(),
    ensures
        Kahn::run(n, edges, j) == Kahn::run(n, edges, i),
    decreases j - i,
{
    if i < j {
        lemma_run_stuck(n, edges, i, j - 1);
    }
}

/// Whether every edge has both ends among the `n` nodes.
fn check_edges(n: usize, edges: &Vec<(usize, usize)>) -> (ok: bool)
    ensures
        ok == edges_valid(n as int, edges@),
{
    let mut k: usize = 0;
    while k < edges.len()
        invariant
            k <= edges.len(),
            forall|j: int| 0 <= j < k ==> (#[trigger] edges@[j]).0 < n && edges@[j].1 < n,
        decreases edges.len() - k,
    {
        if edges[k].0 >= n || edges[k].1 >= n {
            return false;
        }
        k = k + 1;
    }
    true
}

/// Computes a topological order of the nodes `0..n` by Kahn's algorithm.
///
/// Gives the nodes in order, each with its level, or nothing where the graph
/// is no directed acyclic graph over these nodes.
pub fn topo(n: usize, edges: &Vec<(usize, usize)>) -> (res: Option<Vec<(usize, usize)>>)
    ensures
        res is Some <==> spec_topo(n as int, edges@) is Some,
        res matches Some(order) ==> spec_topo(n as int, edges@) == Some(order_view(order@)),
{
    if !check_edges(n, edges) {
        return None;
    }
    let ghost m = edges@.len() as int;
    // Count the incoming edges of every node.
    let mut degree: Vec<usize> = Vec::new();
    let mut level: Vec<usize> = Vec::new();
    let mut v: usize = 0;
    while v < n
        invariant
            v <= n,
            degree@.len() == v,
            level@.len() == v,
            forall|j: int| 0 <= j < v ==> degree@[j] == 0 && level@[j] == 0,
        decreases n - v,
    {
        degree.push(0);
        level.push(0);
        v = v + 1;
    }
    let mut k: usize = 0;
    while k < edges.len()
        invariant
            k <= edges.len(),
            edges_valid(n as int, edges@),
            degree@.len() == n,
            degrees_upto(n as int, edges@, k as int).len() == n,
            forall|j: int|
                0 <= j < n ==> #[trigger] degree@[j] as int == degrees_upto(
                    n as int,
                    edges@,
                    k as int,
                )[j],
            forall|j: int| 0 <= j < n ==> #[trigger] degree@[j] <= k,
        decreases edges.len() - k,
    {
        let to: usize = edges[k].1;
        assert(edges@[k as int].1 < n);
        degree[to] = degree[to] + 1;
        k = k + 1;
    }
    // The queue starts with the nodes that nothing leads to.
    let mut queue: Vec<usize> = Vec::new();
    let ghost degree0 = degrees_upto(n as int, edges@, m);
    let mut v: usize = 0;
    while v < n
        invariant
            v <= n,
            degree@.len() == n,
            degree0.len() == n,
            forall|j: int| 0 <= j < n ==> #[trigger] degree@[j] as int == degree0[j],
            queue@.len() == sources_upto(degree0, v as int).len(),
            queue@.len() <= v,
            forall|j: int|
                0 <= j < queue@.len() ==> #[trigger] queue@[j] as int == sources_upto(
                    degree0,
                    v as int,
                )[j],
            forall|j: int| 0 <= j < queue@.len() ==> #[trigger] queue@[j] < n,
        decreases n - v,
    {
        if degree[v] == 0 {
            queue.push(v);
        }
        v = v + 1;
    }
    let mut released: usize = 0;
    let ghost mut st = Kahn::start(n as int, edges@);
    proof {
        assert(st.degree =~= Seq::new(n as nat, |j: int| degree@[j] as int));
        assert(st.queue =~= Seq::new(queue@.len(), |j: int| queue@[j] as int));
        assert(st.level =~= Seq::new(n as nat, |j: int| level@[j] as int));
    }
    while released < queue.len() && released < n
        invariant
            released <= n,
            released <= queue@.len(),
            edges_valid(n as int, edges@),
            m == edges@.len(),
            st == Kahn::run(n as int, edges@, released as int),
            st.released == released,
            degree@.len() == n,
            level@.len() == n,
            st.degree =~= Seq::new(n as nat, |j: int| degree@[j] as int),
            st.level =~= Seq::new(n as nat, |j: int| level@[j] as int),
            st.queue =~= Seq::new(queue@.len(), |j: int| queue@[j] as int),
            forall|j: int| 0 <= j < queue@.len() ==> #[trigger] queue@[j] < n,
            forall|j: int| 0 <= j < n ==> #[trigger] level@[j] <= released,
        decreases n - released,
    {
        let head: usize = queue[released];
        let reached: usize = level[head] + 1;
        let ghost before = st;
        let mut k: usize = 0;
        while k < edges.len()
            invariant
                k <= edges.len(),
                released < n,
                released < queue@.len(),
                head < n,
                edges_valid(n as int, edges@),
                reached == level@[head as int] + 1,
                reached == before.level[head as int] + 1,
                reached <= released + 1,
                st == before.follow_upto(head as int, edges@, k as int),
                degree@.len() == n,
                level@.len() == n,
                st.degree =~= Seq::new(n as nat, |j: int| degree@[j] as int),
                st.level =~= Seq::new(n as nat, |j: int| level@[j] as int),
                st.queue =~= Seq::new(queue@.len(), |j: int| queue@[j] as int),
                st.released == released,
                forall|j: int| 0 <= j < queue@.len() ==> #[trigger] queue@[j] < n,
                forall|j: int| 0 <= j < n ==> #[trigger] level@[j] <= released + 1,
            decreases edges.len() - k,
        {
            let from: usize = edges[k].0;
            let to: usize = edges[k].1;
            assert(edges@[k as int].0 < n && edges@[k as int].1 < n);
            let ghost prev = st;
            proof {
                st = prev.follow(head as int, edge_at(edges@, k as int));
            }
            if from == head && to != head && degree[to] > 0 {
                degree[to] = degree[to] - 1;
                if level[to] < reached {
                    level[to] = reached;
                }
                if degree[to] == 0 {
                    queue.push(to);
                }
            }
            k = k + 1;
        }
        released = released + 1;
        proof {
            st = Kahn { released: released as int, ..st };
            assert(before.release(edges@) == st);
        }
    }
    if released < n {
        proof {
            lemma_run_stuck(n as int, edges@, released as int, n as int);
        }
        return None;
    }
    let mut order: Vec<(usize, usize)> = Vec::new();
    let mut i: usize = 0;
    while i < n
        invariant
            i <= n,
            n <= queue@.len(),
            level@.len() == n,
            order@.len() == i,
            forall|j: int| 0 <= j < queue@.len() ==> #[trigger] queue@[j] < n,
            forall|j: int|
                0 <= j < i ==> #[trigger] order@[j] == (queue@[j], level@[queue@[j] as int]),
        decreases n - i,
    {
        let node: usize = queue[i];
        order.push((node, level[node]));
        i = i + 1;
    }
    assert(order_view(order@) =~= st.output());
    Some(order)
}

} // verus!
