//! What Kahn's algorithm guarantees: the order that it gives is a
//! topological order, and it gives one exactly where the graph has one.
use vstd::prelude::*;
use crate::framework::topo::{degrees_upto, edge_at, edges_valid, sources_upto, spec_topo, Kahn};

verus! {

/// Whether the edge `j` still holds its target back: its source is neither
/// among the nodes `done`, which have been released, nor is it the node
/// `head`, which is being released and has followed its first `k` edges,
/// with `j` among them.
pub open spec fn live(edges: Seq<(usize, usize)>, done: Seq<int>, head: int, k: int, j: int) -> bool {
    !done.contains(edges[j].0 as int) && !(edges[j].0 as int == head && j < k)
}

/// The number of live edges into `v` among the first `m` edges.
pub open spec fn waiting(
    edges: Seq<(usize, usize)>,
    done: Seq<int>,
    head: int,
    k: int,
    v: int,
    m: int,
) -> int
    decreases m,
{
    if m <= 0 {
        0
    } else {
        waiting(edges, done, head, k, v, m - 1) + (if edges[m - 1].1 as int == v && live(
            edges,
            done,
            head,
            k,
            m - 1,
        ) {
            1int
        } else {
            0
        })
    }
}

/// Whether `u` stands in `queue` before position `p`.
pub open spec fn earlier(queue: Seq<int>, p: int, u: int) -> bool {
    exists|q: int| 0 <= q < p && q < queue.len() && queue[q] == u
}

/// No live edge leads into a node exactly where its count of waiting edges
/// is zero; the count is never negative.
pub proof fn lemma_waiting_zero(
    edges: Seq<(usize, usize)>,
    done: Seq<int>,
    head: int,
    k: int,
    v: int,
    m: int,
)
    requires
        0 <= m <= edges.len(),
    ensures
        waiting(edges, done, head, k, v, m) >= 0,
        waiting(edges, done, head, k, v, m) == 0 <==> (forall|j: int|
            0 <= j < m && edges[j].1 as int == v ==> !live(edges, done, head, k, j)),
    decreases m,
{
    if m > 0 {
        lemma_waiting_zero(edges, done, head, k, v, m - 1);
        if waiting(edges, done, head, k, v, m) == 0 {
            assert forall|j: int| 0 <= j < m && edges[j].1 as int == v implies !live(
                edges,
                done,
                head,
                k,
                j,
            ) by {
                if j < m - 1 {
                }
            }
        }
    }
}

/// Two counts agree where the same edges are live.
pub proof fn lemma_waiting_same(
    edges: Seq<(usize, usize)>,
    done: Seq<int>,
    head: int,
    k: int,
    done2: Seq<int>,
    head2: int,
    k2: int,
    v: int,
    m: int,
)
    requires
        0 <= m <= edges.len(),
        forall|j: int|
            0 <= j < m ==> live(edges, done, head, k, j) == live(edges, done2, head2, k2, j),
    ensures
        waiting(edges, done, head, k, v, m) == waiting(edges, done2, head2, k2, v, m),
    decreases m,
{
    if m > 0 {
        lemma_waiting_same(edges, done, head, k, done2, head2, k2, v, m - 1);
    }
}

/// Following the edge `k` from the head takes one from the count of the
/// edge's target, and leaves every other count as it is.
pub proof fn lemma_waiting_follow(
    edges: Seq<(usize, usize)>,
    done: Seq<int>,
    head: int,
    k: int,
    v: int,
    m: int,
)
    requires
        0 <= k < edges.len(),
        0 <= m <= edges.len(),
    ensures
        waiting(edges, done, head, k + 1, v, m) == waiting(edges, done, head, k, v, m) - (if k < m
            && edges[k].0 as int == head && edges[k].1 as int == v && !done.contains(head) {
            1int
        } else {
            0
        }),
    decreases m,
{
    if m > 0 {
        lemma_waiting_follow(edges, done, head, k, v, m - 1);
    }
}

/// The degrees with which the algorithm starts count the edges into each
/// node.
pub proof fn lemma_degrees_count(n: int, edges: Seq<(usize, usize)>, m: int, v: int)
    requires
        0 <= m <= edges.len(),
        0 <= v < n,
        edges_valid(n, edges),
    ensures
        degrees_upto(n, edges, m).len() == n,
        degrees_upto(n, edges, m)[v] == waiting(edges, Seq::<int>::empty(), -1, 0, v, m),
    decreases m,
{
    if m > 0 {
        lemma_degrees_count(n, edges, m - 1, v);
        let to = edge_at(edges, m - 1).1;
        assert(edges[m - 1].1 < n);
        assert(live(edges, Seq::<int>::empty(), -1, 0, m - 1));
    }
}

/// The nodes with which the queue starts are the nodes without incoming
/// edge, each once, by rising number.
pub proof fn lemma_sources(degree: Seq<int>, m: int)
    requires
        0 <= m <= degree.len(),
    ensures
        forall|i: int|
            0 <= i < sources_upto(degree, m).len() ==> 0 <= #[trigger] sources_upto(degree, m)[i]
                < m,
        forall|i: int, j: int|
            0 <= i < j < sources_upto(degree, m).len() ==> sources_upto(degree, m)[i]
                < sources_upto(degree, m)[j],
        forall|v: int|
            0 <= v < m ==> (degree[v] == 0 <==> #[trigger] sources_upto(degree, m).contains(v)),
    decreases m,
{
    if m > 0 {
        lemma_sources(degree, m - 1);
        let before = sources_upto(degree, m - 1);
        let now = sources_upto(degree, m);
        if degree[m - 1] == 0 {
            assert(now == before.push(m - 1));
            assert(now[before.len() as int] == m - 1);
            assert forall|v: int| 0 <= v < m implies (degree[v] == 0 <==> #[trigger] now.contains(
                v,
            )) by {
                if v < m - 1 {
                    if before.contains(v) {
                        let i = choose|i: int| 0 <= i < before.len() && before[i] == v;
                        assert(now[i] == v);
                    }
                    if now.contains(v) {
                        let i = choose|i: int| 0 <= i < now.len() && now[i] == v;
                        assert(before[i] == v);
                    }
                }
            }
        } else {
            assert(now == before);
            assert forall|v: int| 0 <= v < m implies (degree[v] == 0 <==> #[trigger] now.contains(
                v,
            )) by {
                if v == m - 1 && now.contains(v) {
                    let i = choose|i: int| 0 <= i < now.len() && now[i] == v;
                    assert(now[i] < m - 1);
                }
            }
        }
    }
}

/// What holds of the state of the algorithm at every moment. `head` is the
/// node that is being released, of which the first `k` edges have been
/// followed; between two releases there is no such node, and `head` is -1.
pub open spec fn inv(n: int, edges: Seq<(usize, usize)>, st: Kahn, head: int, k: int) -> bool {
    let done = st.queue.take(st.released);
    &&& st.degree.len() == n
    &&& st.level.len() == n
    &&& 0 <= st.released <= st.queue.len()
    &&& forall|i: int| 0 <= i < st.queue.len() ==> 0 <= #[trigger] st.queue[i] < n
    &&& st.queue.no_duplicates()
    &&& forall|v: int|
        0 <= v < n ==> #[trigger] st.degree[v] == waiting(
            edges,
            done,
            head,
            k,
            v,
            edges.len() as int,
        )
    &&& forall|v: int| 0 <= v < n ==> (st.degree[v] == 0 <==> #[trigger] st.queue.contains(v))
    &&& forall|p: int, j: int|
        0 <= p < st.queue.len() && 0 <= j < edges.len() && (#[trigger] edges[j]).1 as int
            == #[trigger] st.queue[p] ==> earlier(st.queue, p, edges[j].0 as int)
}

/// The degrees with which the algorithm starts are as many as the nodes.
proof fn lemma_degrees_len(n: int, edges: Seq<(usize, usize)>, m: int)
    requires
        0 <= n,
        0 <= m <= edges.len(),
    ensures
        degrees_upto(n, edges, m).len() == n,
    decreases m,
{
    if m > 0 {
        lemma_degrees_len(n, edges, m - 1);
    }
}

/// The invariant holds when the algorithm starts.
proof fn lemma_start(n: int, edges: Seq<(usize, usize)>)
    requires
        0 <= n,
        edges_valid(n, edges),
    ensures
        inv(n, edges, Kahn::start(n, edges), -1, 0),
{
    let st = Kahn::start(n, edges);
    let m = edges.len() as int;
    let done = st.queue.take(st.released);
    assert(done =~= Seq::<int>::empty());
    lemma_degrees_len(n, edges, m);
    lemma_sources(st.degree, n);
    assert forall|v: int| 0 <= v < n implies #[trigger] st.degree[v] == waiting(
        edges,
        done,
        -1,
        0,
        v,
        m,
    ) by {
        lemma_degrees_count(n, edges, m, v);
    }
    assert forall|p: int, j: int|
        0 <= p < st.queue.len() && 0 <= j < edges.len() && (#[trigger] edges[j]).1 as int
            == #[trigger] st.queue[p] implies earlier(st.queue, p, edges[j].0 as int) by {
        let v = st.queue[p];
        assert(st.queue.contains(v));
        lemma_waiting_zero(edges, done, -1, 0, v, m);
        assert(live(edges, done, -1, 0, j));
    }
}

/// The invariant holds after one more edge has been followed from the
/// head.
proof fn lemma_follow(n: int, edges: Seq<(usize, usize)>, st: Kahn, k: int)
    requires
        edges_valid(n, edges),
        0 <= k < edges.len(),
        0 <= st.released < st.queue.len(),
        inv(n, edges, st, st.queue[st.released], k),
    ensures
        ({
            let next = st.follow(st.queue[st.released], edge_at(edges, k));
            &&& inv(n, edges, next, st.queue[st.released], k + 1)
            &&& next.released == st.released
            &&& next.queue.len() >= st.queue.len()
            &&& next.queue.take(st.queue.len() as int) == st.queue
        }),
{
    let r = st.released;
    let h = st.queue[r];
    let m = edges.len() as int;
    let done = st.queue.take(r);
    let from = edges[k].0 as int;
    let to = edges[k].1 as int;
    let next = st.follow(h, edge_at(edges, k));
    assert(edges[k].0 < n && edges[k].1 < n);
    assert(!done.contains(h)) by {
        if done.contains(h) {
            let q = choose|q: int| 0 <= q < done.len() && done[q] == h;
            assert(st.queue[q] == h);
        }
    }
    assert forall|v: int| 0 <= v < n implies waiting(edges, done, h, k + 1, v, m) == waiting(
        edges,
        done,
        h,
        k,
        v,
        m,
    ) - (if from == h && to == v {
        1int
    } else {
        0
    }) by {
        lemma_waiting_follow(edges, done, h, k, v, m);
    }
    if from == h {
        assert(live(edges, done, h, k, k));
        lemma_waiting_zero(edges, done, h, k, to, m);
        assert(st.degree[to] > 0);
        assert(st.queue.contains(h));
        assert(to != h);
        assert(!st.queue.contains(to));
        assert(next.degree[to] == st.degree[to] - 1);
        if next.degree[to] == 0 {
            assert(next.queue == st.queue.push(to));
            assert(next.queue.take(st.queue.len() as int) =~= st.queue);
            assert(next.queue.take(r) =~= done);
            assert(next.queue.no_duplicates());
            assert forall|v: int| 0 <= v < n implies (next.degree[v] == 0
                <==> #[trigger] next.queue.contains(v)) by {
                if v == to {
                    assert(next.queue[st.queue.len() as int] == to);
                } else {
                    if st.queue.contains(v) {
                        let i = choose|i: int| 0 <= i < st.queue.len() && st.queue[i] == v;
                        assert(next.queue[i] == v);
                    }
                    if next.queue.contains(v) {
                        let i = choose|i: int| 0 <= i < next.queue.len() && next.queue[i] == v;
                        assert(st.queue[i] == v);
                    }
                }
            }
            assert forall|p: int, j: int|
                0 <= p < next.queue.len() && 0 <= j < edges.len() && (#[trigger] edges[j]).1 as int
                    == #[trigger] next.queue[p] implies earlier(
                next.queue,
                p,
                edges[j].0 as int,
            ) by {
                if p < st.queue.len() {
                    assert(st.queue[p] == next.queue[p]);
                    let q = choose|q: int|
                        0 <= q < p && q < st.queue.len() && st.queue[q] == edges[j].0 as int;
                    assert(next.queue[q] == edges[j].0 as int);
                } else {
                    lemma_waiting_zero(edges, done, h, k + 1, to, m);
                    assert(!live(edges, done, h, k + 1, j));
                    let u = edges[j].0 as int;
                    if done.contains(u) {
                        let q = choose|q: int| 0 <= q < done.len() && done[q] == u;
                        assert(next.queue[q] == u);
                    } else {
                        assert(u == h);
                        assert(next.queue[r] == u);
                    }
                }
            }
        } else {
            assert(next.queue == st.queue);
            assert(next.queue.take(st.queue.len() as int) =~= st.queue);
        }
    } else {
        assert(next == st);
        assert(next.queue.take(st.queue.len() as int) =~= st.queue);
    }
}

/// The invariant holds while the edges are followed from the head.
proof fn lemma_follow_upto(n: int, edges: Seq<(usize, usize)>, st: Kahn, k: int)
    requires
        edges_valid(n, edges),
        0 <= k <= edges.len(),
        0 <= st.released < st.queue.len(),
        inv(n, edges, st, st.queue[st.released], 0),
    ensures
        ({
            let next = st.follow_upto(st.queue[st.released], edges, k);
            &&& inv(n, edges, next, st.queue[st.released], k)
            &&& next.released == st.released
            &&& next.queue.len() >= st.queue.len()
            &&& next.queue.take(st.queue.len() as int) == st.queue
        }),
    decreases k,
{
    if k > 0 {
        lemma_follow_upto(n, edges, st, k - 1);
        let h = st.queue[st.released];
        let mid = st.follow_upto(h, edges, k - 1);
        assert(mid.queue[st.released] == mid.queue.take(st.queue.len() as int)[st.released]);
        lemma_follow(n, edges, mid, k - 1);
        let next = mid.follow(h, edge_at(edges, k - 1));
        assert(next.queue.take(st.queue.len() as int) =~= mid.queue.take(
            st.queue.len() as int,
        )) by {
            assert(next.queue.take(mid.queue.len() as int) == mid.queue);
            assert forall|i: int| 0 <= i < st.queue.len() implies next.queue[i] == mid.queue[i] by {
                assert(next.queue.take(mid.queue.len() as int)[i] == mid.queue[i]);
            }
        }
    } else {
        assert(st.queue.take(st.queue.len() as int) =~= st.queue);
    }
}

/// The invariant holds after a release.
proof fn lemma_release(n: int, edges: Seq<(usize, usize)>, st: Kahn)
    requires
        edges_valid(n, edges),
        inv(n, edges, st, -1, 0),
    ensures
        inv(n, edges, st.release(edges), -1, 0),
        st.pending() ==> st.release(edges).released == st.released + 1,
        !st.pending() ==> st.release(edges) == st,
{
    if st.pending() {
        let r = st.released;
        let h = st.queue[r];
        let m = edges.len() as int;
        let done = st.queue.take(r);
        assert forall|v: int| 0 <= v < n implies #[trigger] st.degree[v] == waiting(
            edges,
            done,
            h,
            0,
            v,
            m,
        ) by {
            lemma_waiting_same(edges, done, -1, 0, done, h, 0, v, m);
        }
        assert(inv(n, edges, st, h, 0));
        lemma_follow_upto(n, edges, st, m);
        let after = st.follow_upto(h, edges, m);
        let next = st.release(edges);
        assert(next == Kahn { released: r + 1, ..after });
        assert(after.queue[r] == after.queue.take(st.queue.len() as int)[r]);
        let after_done = after.queue.take(r);
        assert(after_done =~= done) by {
            assert forall|i: int| 0 <= i < r implies after.queue[i] == st.queue[i] by {
                assert(after.queue.take(st.queue.len() as int)[i] == st.queue[i]);
            }
        }
        let done2 = next.queue.take(r + 1);
        assert(done2 =~= done.push(h));
        assert forall|v: int| 0 <= v < n implies #[trigger] next.degree[v] == waiting(
            edges,
            done2,
            -1,
            0,
            v,
            m,
        ) by {
            assert forall|j: int| 0 <= j < m implies live(edges, done, h, m, j) == live(
                edges,
                done2,
                -1,
                0,
                j,
            ) by {
                let u = edges[j].0 as int;
                if done2.contains(u) {
                    let q = choose|q: int| 0 <= q < done2.len() && done2[q] == u;
                    if q < r {
                        assert(done[q] == u);
                    }
                }
                if done.contains(u) {
                    let q = choose|q: int| 0 <= q < done.len() && done[q] == u;
                    assert(done2[q] == u);
                }
                if u == h {
                    assert(done2[r] == u);
                }
            }
            lemma_waiting_same(edges, done, h, m, done2, -1, 0, v, m);
        }
    }
}

/// The invariant holds after any number of releases.
pub proof fn lemma_run(n: int, edges: Seq<(usize, usize)>, i: int)
    requires
        0 <= n,
        edges_valid(n, edges),
    ensures
        inv(n, edges, Kahn::run(n, edges, i), -1, 0),
        i >= 0 ==> Kahn::run(n, edges, i).released <= i,
        i >= 0 && Kahn::run(n, edges, i).released < i ==> !Kahn::run(n, edges, i).pending(),
    decreases i,
{
    if i <= 0 {
        lemma_start(n, edges);
    } else {
        lemma_run(n, edges, i - 1);
        lemma_release(n, edges, Kahn::run(n, edges, i - 1));
    }
}

/// Whether `order` is a topological order of the graph: it holds each of the
/// `n` nodes once, and the source of every edge stands before the target of
/// the edge.
pub open spec fn is_topological_order(n: int, edges: Seq<(usize, usize)>, order: Seq<int>) -> bool {
    &&& order.len() == n
    &&& forall|i: int| 0 <= i < order.len() ==> 0 <= #[trigger] order[i] < n
    &&& order.no_duplicates()
    &&& forall|p: int, j: int|
        0 <= p < order.len() && 0 <= j < edges.len() && (#[trigger] edges[j]).1 as int
            == #[trigger] order[p] ==> earlier(order, p, edges[j].0 as int)
}

/// The nodes of an order with levels.
pub open spec fn nodes_of(order: Seq<(int, int)>) -> Seq<int> {
    Seq::new(order.len(), |i: int| order[i].0)
}

/// An order that holds `n` different nodes below `n` holds every node.
pub proof fn lemma_order_covers(n: int, order: Seq<int>, v: int)
    requires
        order.len() == n,
        forall|i: int| 0 <= i < order.len() ==> 0 <= #[trigger] order[i] < n,
        order.no_duplicates(),
        0 <= v < n,
    ensures
        order.contains(v),
{
    let all = vstd::set_lib::set_int_range(0, n);
    vstd::set_lib::lemma_int_range(0, n);
    order.unique_seq_to_set();
    vstd::seq_lib::seq_to_set_is_finite(order);
    assert(order.to_set().subset_of(all)) by {
        assert forall|x: int| order.to_set().contains(x) implies all.contains(x) by {
            let i = choose|i: int| 0 <= i < order.len() && order[i] == x;
            assert(0 <= order[i] < n);
        }
    }
    vstd::set_lib::lemma_subset_equality(order.to_set(), all);
    assert(all.contains(v));
    assert(order.to_set().contains(v));
}

/// The order that Kahn's algorithm gives is a topological order: every node
/// stands in it exactly once, and every edge leads from an earlier node to a
/// later one.
pub proof fn lemma_topo_is_topological(n: int, edges: Seq<(usize, usize)>)
    requires
        0 <= n,
        spec_topo(n, edges) is Some,
    ensures
        is_topological_order(n, edges, nodes_of(spec_topo(n, edges)->0)),
        forall|v: int| 0 <= v < n ==> nodes_of(spec_topo(n, edges)->0).contains(v),
{
    let last = Kahn::run(n, edges, n);
    let order = nodes_of(last.output());
    lemma_run(n, edges, n);
    assert(order =~= last.queue.take(n));
    assert forall|p: int, j: int|
        0 <= p < order.len() && 0 <= j < edges.len() && (#[trigger] edges[j]).1 as int
            == #[trigger] order[p] implies earlier(order, p, edges[j].0 as int) by {
        assert(last.queue[p] == order[p]);
        let q = choose|q: int|
            0 <= q < p && q < last.queue.len() && last.queue[q] == edges[j].0 as int;
        assert(order[q] == edges[j].0 as int);
    }
    assert forall|v: int| 0 <= v < n implies order.contains(v) by {
        lemma_order_covers(n, order, v);
    }
}

/// Where the algorithm is stuck, every node of a topological order up to
/// position `p` has been released.
proof fn lemma_stuck_prefix(
    n: int,
    edges: Seq<(usize, usize)>,
    st: Kahn,
    order: Seq<int>,
    p: int,
)
    requires
        edges_valid(n, edges),
        inv(n, edges, st, -1, 0),
        st.released == st.queue.len(),
        is_topological_order(n, edges, order),
        0 <= p < order.len(),
    ensures
        st.queue.contains(order[p]),
    decreases p,
{
    let v = order[p];
    let m = edges.len() as int;
    let done = st.queue.take(st.released);
    assert(done =~= st.queue);
    if !st.queue.contains(v) {
        assert(st.degree[v] != 0);
        lemma_waiting_zero(edges, done, -1, 0, v, m);
        let j = choose|j: int|
            0 <= j < m && edges[j].1 as int == v && live(edges, done, -1, 0, j);
        let u = edges[j].0 as int;
        assert(earlier(order, p, edges[j].0 as int));
        let q = choose|q: int| 0 <= q < p && q < order.len() && order[q] == u;
        lemma_stuck_prefix(n, edges, st, order, q);
    }
}

/// Kahn's algorithm gives an order wherever the graph has a topological
/// order: it gives none only where the graph has a cycle, or where an edge
/// has an end that is no node.
pub proof fn lemma_topo_finds_an_order(n: int, edges: Seq<(usize, usize)>, order: Seq<int>)
    requires
        0 <= n,
        edges_valid(n, edges),
        is_topological_order(n, edges, order),
    ensures
        spec_topo(n, edges) is Some,
{
    let last = Kahn::run(n, edges, n);
    lemma_run(n, edges, n);
    if last.released < n {
        assert(!last.pending());
        assert(last.released == last.queue.len());
        assert forall|x: int| order.to_set().contains(x) implies last.queue.to_set().contains(
            x,
        ) by {
            let p = choose|p: int| 0 <= p < order.len() && order[p] == x;
            lemma_stuck_prefix(n, edges, last, order, p);
        }
        order.unique_seq_to_set();
        last.queue.lemma_cardinality_of_set();
        vstd::seq_lib::seq_to_set_is_finite(last.queue);
        vstd::set_lib::lemma_len_subset(order.to_set(), last.queue.to_set());
        assert(false);
    }
}

/// A graph has a topological order exactly where Kahn's algorithm gives
/// one.
pub proof fn lemma_topo_decides(n: int, edges: Seq<(usize, usize)>)
    requires
        0 <= n,
        edges_valid(n, edges),
    ensures
        spec_topo(n, edges) is Some <==> exists|order: Seq<int>|
            is_topological_order(n, edges, order),
{
    if spec_topo(n, edges) is Some {
        lemma_topo_is_topological(n, edges);
        assert(is_topological_order(n, edges, nodes_of(spec_topo(n, edges)->0)));
    }
    if exists|order: Seq<int>| is_topological_order(n, edges, order) {
        let order = choose|order: Seq<int>| is_topological_order(n, edges, order);
        lemma_topo_finds_an_order(n, edges, order);
    }
}

} // verus!
