//! What the evaluation order of a dataflow graph guarantees: every unit and
//! every signal is run exactly once in a cycle, and the stage registers are
//! run last.
use vstd::prelude::*;
use crate::framework::names::{lemma_position, position, Name};
use crate::framework::propagate::{
    entry_names, first_repeat_upto, is_stage_entry, scheduled_upto, selected_upto, stages_last,
    Graph,
};
use crate::framework::topo::spec_topo;
use crate::framework::topo_laws::{lemma_topo_is_topological, nodes_of};

verus! {

/// What an added edge leaves as it is.
pub open spec fn same_but_edges(g: Graph, h: Graph) -> bool {
    &&& h.runnable == g.runnable
    &&& h.unit_nodes == g.unit_nodes
    &&& h.stage_units == g.stage_units
    &&& h.input_ports == g.input_ports
    &&& h.deps == g.deps
    &&& h.rev_deps == g.rev_deps
    &&& h.abbrs == g.abbrs
    &&& h.output_prefix == g.output_prefix
    &&& h.input_prefix == g.input_prefix
}

/// A graph with one more node hangs together as before.
proof fn lemma_with_node(g: Graph, name: Name)
    requires
        g.wf(),
    ensures
        g.with_node(name).wf(),
        same_but_edges(g, g.with_node(name)),
        g.with_node(name).edges == g.edges,
        g.with_node(name).nodes.contains(name),
        position(g.with_node(name).nodes, name) < g.with_node(name).nodes.len(),
        forall|x: Name| g.nodes.contains(x) ==> g.with_node(name).nodes.contains(x),
        g.with_node(name).nodes.len() >= g.nodes.len(),
{
    let h = g.with_node(name);
    if !g.nodes.contains(name) {
        assert(h.nodes == g.nodes.push(name));
        assert(h.nodes[g.nodes.len() as int] == name);
        assert forall|x: Name| g.nodes.contains(x) implies h.nodes.contains(x) by {
            let i = choose|i: int| 0 <= i < g.nodes.len() && g.nodes[i] == x;
            assert(h.nodes[i] == x);
        }
        assert forall|k: int| 0 <= k < h.runnable.len() implies h.nodes.contains(
            (#[trigger] h.runnable[k]).1,
        ) by {
            assert(g.nodes.contains(g.runnable[k].1));
        }
    }
    lemma_position(h.nodes, name);
}

/// A graph with one more edge hangs together as before.
proof fn lemma_with_edge(g: Graph, from: Name, to: Name)
    requires
        g.wf(),
    ensures
        g.with_edge(from, to).wf(),
        same_but_edges(g, g.with_edge(from, to)),
{
    lemma_with_node(g, from);
    let mid = g.with_node(from);
    lemma_with_node(mid, to);
    let h = mid.with_node(to);
    lemma_position(h.nodes, from);
    lemma_position(h.nodes, to);
    assert(mid.nodes.contains(from));
    assert(h.nodes.contains(from));
}

/// A graph with the edges of a signal's reads hangs together as before.
proof fn lemma_with_reads(g: Graph, signal: Name, reads: Seq<Name>, k: int)
    requires
        g.wf(),
    ensures
        g.with_reads(signal, reads, k).wf(),
        same_but_edges(g, g.with_reads(signal, reads, k)),
    decreases k,
{
    if k > 0 {
        lemma_with_reads(g, signal, reads, k - 1);
        let mid = g.with_reads(signal, reads, k - 1);
        if mid.links(signal, reads[k - 1]) {
            lemma_with_edge(mid, reads[k - 1], signal);
        }
    }
}

/// A graph with the edges of its signals' reads hangs together as before.
proof fn lemma_with_deps(g: Graph, k: int)
    requires
        g.wf(),
    ensures
        g.with_deps(k).wf(),
        same_but_edges(g, g.with_deps(k)),
    decreases k,
{
    if k > 0 {
        lemma_with_deps(g, k - 1);
        let mid = g.with_deps(k - 1);
        lemma_with_reads(
            mid,
            g.deps[k - 1].0,
            crate::framework::propagate::expanded_all(g.deps[k - 1].1, g.abbrs),
            g.deps[k - 1].1.len() as int,
        );
    }
}

/// A graph with the edges to its signals' destinations hangs together as
/// before.
proof fn lemma_with_dests(g: Graph, k: int)
    requires
        g.wf(),
    ensures
        g.with_dests(k).wf(),
        same_but_edges(g, g.with_dests(k)),
    decreases k,
{
    if k > 0 {
        lemma_with_dests(g, k - 1);
        let mid = g.with_dests(k - 1);
        let signal = g.rev_deps[k - 1].0;
        let dest = crate::framework::propagate::expanded(g.rev_deps[k - 1].1, g.abbrs);
        if mid.links(signal, dest) {
            lemma_with_edge(mid, signal, dest);
        }
    }
}

/// A graph with all edges of its signals hangs together as before, and has
/// the units and signals that it had.
pub proof fn lemma_with_all_deps(g: Graph)
    requires
        g.wf(),
    ensures
        g.with_all_deps().wf(),
        same_but_edges(g, g.with_all_deps()),
{
    lemma_with_deps(g, g.deps.len() as int);
    let mid = g.with_deps(g.deps.len() as int);
    lemma_with_dests(mid, mid.rev_deps.len() as int);
}

/// Where no name occurs twice among the first `k`, the first `k` names
/// differ from each other.
pub proof fn lemma_no_repeat(list: Seq<Name>, k: int)
    requires
        0 <= k <= list.len(),
        first_repeat_upto(list, k) == k,
    ensures
        forall|i: int, j: int| 0 <= i < j < k ==> list[i] != list[j],
    decreases k,
{
    if k > 0 {
        assert(first_repeat_upto(list, k - 1) == k - 1);
        lemma_no_repeat(list, k - 1);
        lemma_position(list, list[k - 1]);
        assert(position(list, list[k - 1]) >= k - 1);
    }
}

/// Whether the names of the entries differ from each other.
pub open spec fn names_differ(order: Seq<(bool, Name)>) -> bool {
    forall|a: int, b: int| 0 <= a < b < order.len() ==> order[a].1 != order[b].1
}

/// Whether `entry` is the unit or signal of one of the first `k` nodes of a
/// topological order.
pub open spec fn scheduled_for(
    levels: Seq<(int, int)>,
    nodes: Seq<Name>,
    runnable: Seq<(bool, Name)>,
    k: int,
    entry: (bool, Name),
) -> bool {
    exists|q: int, i: int|
        0 <= q < k && 0 <= i < runnable.len() && #[trigger] runnable[i] == entry && runnable[i].1
            == nodes[(#[trigger] levels[q]).0]
}

/// Whether `entry` is one of the first `k` entries of `order`, and a stage
/// register or not as `stage` tells.
pub open spec fn picked_from(
    order: Seq<(bool, Name)>,
    stage_units: Seq<Name>,
    stage: bool,
    k: int,
    entry: (bool, Name),
) -> bool {
    exists|q: int|
        0 <= q < k && #[trigger] order[q] == entry && is_stage_entry(order[q], stage_units)
            == stage
}

/// Whether `a` stands before `b` among the first `k` entries of `order`.
pub open spec fn in_this_order(
    order: Seq<(bool, Name)>,
    k: int,
    a: (bool, Name),
    b: (bool, Name),
) -> bool {
    exists|qa: int, qb: int|
        0 <= qa < qb < k && #[trigger] order[qa] == a && #[trigger] order[qb] == b
}

/// What holds of the units and signals that are scheduled for the first `k`
/// nodes of a topological order.
proof fn lemma_scheduled(
    levels: Seq<(int, int)>,
    nodes: Seq<Name>,
    runnable: Seq<(bool, Name)>,
    k: int,
)
    requires
        0 <= k <= levels.len(),
        forall|i: int| 0 <= i < levels.len() ==> 0 <= (#[trigger] levels[i]).0 < nodes.len(),
        forall|i: int, j: int| 0 <= i < j < levels.len() ==> levels[i].0 != levels[j].0,
        nodes.no_duplicates(),
        names_differ(runnable),
    ensures
        ({
            let sched = scheduled_upto(levels, nodes, runnable, k);
            &&& forall|x: int|
                0 <= x < sched.len() ==> scheduled_for(
                    levels,
                    nodes,
                    runnable,
                    k,
                    #[trigger] sched[x],
                )
            &&& names_differ(sched)
            &&& forall|q: int, i: int|
                0 <= q < k && 0 <= i < runnable.len() && (#[trigger] runnable[i]).1 == nodes[(
                #[trigger] levels[q]).0] ==> sched.contains(runnable[i])
        }),
    decreases k,
{
    if k > 0 {
        lemma_scheduled(levels, nodes, runnable, k - 1);
        let before = scheduled_upto(levels, nodes, runnable, k - 1);
        let sched = scheduled_upto(levels, nodes, runnable, k);
        let node = levels[k - 1].0;
        let name = nodes[node];
        let names = entry_names(runnable);
        let at = position(names, name);
        lemma_position(names, name);
        if at < runnable.len() {
            assert(sched == before.push(runnable[at]));
            assert(names[at] == name);
            assert(runnable[at].1 == name);
            assert forall|x: int| 0 <= x < sched.len() implies scheduled_for(
                levels,
                nodes,
                runnable,
                k,
                #[trigger] sched[x],
            ) by {
                if x < before.len() {
                    assert(scheduled_for(levels, nodes, runnable, k - 1, before[x]));
                    let (q, i) = choose|q: int, i: int|
                        0 <= q < k - 1 && 0 <= i < runnable.len() && #[trigger] runnable[i]
                            == before[x] && runnable[i].1 == nodes[(#[trigger] levels[q]).0];
                    assert(runnable[i] == sched[x] && runnable[i].1 == nodes[levels[q].0]);
                } else {
                    assert(runnable[at] == sched[x] && runnable[at].1 == nodes[levels[k - 1].0]);
                }
            }
            assert forall|a: int, b: int| 0 <= a < b < sched.len() implies sched[a].1
                != sched[b].1 by {
                if b == before.len() {
                    assert(scheduled_for(levels, nodes, runnable, k - 1, before[a]));
                    let (q, i) = choose|q: int, i: int|
                        0 <= q < k - 1 && 0 <= i < runnable.len() && #[trigger] runnable[i]
                            == before[a] && runnable[i].1 == nodes[(#[trigger] levels[q]).0];
                    assert(levels[q].0 != levels[k - 1].0);
                    assert(nodes[levels[q].0] != nodes[node]);
                }
            }
            assert forall|q: int, i: int|
                0 <= q < k && 0 <= i < runnable.len() && (#[trigger] runnable[i]).1 == nodes[(
                #[trigger] levels[q]).0] implies sched.contains(runnable[i]) by {
                if q < k - 1 {
                    let x = choose|x: int| 0 <= x < before.len() && before[x] == runnable[i];
                    assert(sched[x] == runnable[i]);
                } else {
                    assert(names[i] == name);
                    if i != at {
                        if i < at {
                            assert(runnable[i].1 != runnable[at].1);
                        } else {
                            assert(runnable[at].1 != runnable[i].1);
                        }
                    }
                    assert(sched[before.len() as int] == runnable[i]);
                }
            }
        } else {
            assert(sched == before);
            assert forall|x: int| 0 <= x < sched.len() implies scheduled_for(
                levels,
                nodes,
                runnable,
                k,
                #[trigger] sched[x],
            ) by {
                assert(scheduled_for(levels, nodes, runnable, k - 1, before[x]));
                let (q, i) = choose|q: int, i: int|
                    0 <= q < k - 1 && 0 <= i < runnable.len() && #[trigger] runnable[i]
                        == before[x] && runnable[i].1 == nodes[(#[trigger] levels[q]).0];
                assert(runnable[i] == sched[x] && runnable[i].1 == nodes[levels[q].0]);
            }
            assert forall|q: int, i: int|
                0 <= q < k && 0 <= i < runnable.len() && (#[trigger] runnable[i]).1 == nodes[(
                #[trigger] levels[q]).0] implies sched.contains(runnable[i]) by {
                if q == k - 1 {
                    assert(names[i] == name);
                    assert(names.contains(name));
                }
            }
        }
    }
}

/// What holds of the entries that are selected from the first `k` entries
/// of an order.
proof fn lemma_selected(order: Seq<(bool, Name)>, stage_units: Seq<Name>, stage: bool, k: int)
    requires
        0 <= k <= order.len(),
    ensures
        ({
            let sel = selected_upto(order, stage_units, stage, k);
            &&& forall|x: int|
                0 <= x < sel.len() ==> picked_from(order, stage_units, stage, k, #[trigger] sel[x])
            &&& forall|a: int, b: int|
                0 <= a < b < sel.len() ==> in_this_order(
                    order,
                    k,
                    #[trigger] sel[a],
                    #[trigger] sel[b],
                )
            &&& forall|q: int|
                0 <= q < k && is_stage_entry(#[trigger] order[q], stage_units) == stage
                    ==> sel.contains(order[q])
        }),
    decreases k,
{
    if k > 0 {
        lemma_selected(order, stage_units, stage, k - 1);
        let before = selected_upto(order, stage_units, stage, k - 1);
        let sel = selected_upto(order, stage_units, stage, k);
        if is_stage_entry(order[k - 1], stage_units) == stage {
            assert(sel == before.push(order[k - 1]));
            assert forall|x: int| 0 <= x < sel.len() implies picked_from(
                order,
                stage_units,
                stage,
                k,
                #[trigger] sel[x],
            ) by {
                if x < before.len() {
                    assert(picked_from(order, stage_units, stage, k - 1, before[x]));
                    let q = choose|q: int|
                        0 <= q < k - 1 && #[trigger] order[q] == before[x] && is_stage_entry(
                            order[q],
                            stage_units,
                        ) == stage;
                    assert(order[q] == sel[x]);
                } else {
                    assert(order[k - 1] == sel[x]);
                }
            }
            assert forall|a: int, b: int| 0 <= a < b < sel.len() implies in_this_order(
                order,
                k,
                #[trigger] sel[a],
                #[trigger] sel[b],
            ) by {
                if b < before.len() {
                    assert(in_this_order(order, k - 1, before[a], before[b]));
                    let (qa, qb) = choose|qa: int, qb: int|
                        0 <= qa < qb < k - 1 && #[trigger] order[qa] == before[a]
                            && #[trigger] order[qb] == before[b];
                    assert(order[qa] == sel[a] && order[qb] == sel[b]);
                } else {
                    assert(picked_from(order, stage_units, stage, k - 1, before[a]));
                    let qa = choose|q: int|
                        0 <= q < k - 1 && #[trigger] order[q] == before[a] && is_stage_entry(
                            order[q],
                            stage_units,
                        ) == stage;
                    assert(order[qa] == sel[a] && order[k - 1] == sel[b]);
                }
            }
            assert forall|q: int|
                0 <= q < k && is_stage_entry(#[trigger] order[q], stage_units)
                    == stage implies sel.contains(order[q]) by {
                if q < k - 1 {
                    let x = choose|x: int| 0 <= x < before.len() && before[x] == order[q];
                    assert(sel[x] == order[q]);
                } else {
                    assert(sel[before.len() as int] == order[q]);
                }
            }
        } else {
            assert(sel == before);
            assert forall|x: int| 0 <= x < sel.len() implies picked_from(
                order,
                stage_units,
                stage,
                k,
                #[trigger] sel[x],
            ) by {
                assert(picked_from(order, stage_units, stage, k - 1, before[x]));
                let q = choose|q: int|
                    0 <= q < k - 1 && #[trigger] order[q] == before[x] && is_stage_entry(
                        order[q],
                        stage_units,
                    ) == stage;
                assert(order[q] == sel[x]);
            }
            assert forall|a: int, b: int| 0 <= a < b < sel.len() implies in_this_order(
                order,
                k,
                #[trigger] sel[a],
                #[trigger] sel[b],
            ) by {
                assert(in_this_order(order, k - 1, before[a], before[b]));
                let (qa, qb) = choose|qa: int, qb: int|
                    0 <= qa < qb < k - 1 && #[trigger] order[qa] == before[a]
                        && #[trigger] order[qb] == before[b];
                assert(order[qa] == sel[a] && order[qb] == sel[b]);
            }
        }
    }
}

/// Moving the stage registers to the end keeps every entry, keeps the names
/// different, and leaves no stage register before another entry.
proof fn lemma_stages_last(order: Seq<(bool, Name)>, stage_units: Seq<Name>)
    requires
        names_differ(order),
    ensures
        ({
            let moved = stages_last(order, stage_units);
            &&& forall|x: (bool, Name)| moved.contains(x) <==> order.contains(x)
            &&& names_differ(moved)
            &&& forall|p: int, q: int|
                0 <= p < q < moved.len() && is_stage_entry(moved[p], stage_units)
                    ==> is_stage_entry(moved[q], stage_units)
        }),
{
    let n = order.len() as int;
    let first = selected_upto(order, stage_units, false, n);
    let last = selected_upto(order, stage_units, true, n);
    let moved = stages_last(order, stage_units);
    lemma_selected(order, stage_units, false, n);
    lemma_selected(order, stage_units, true, n);
    assert(moved == first + last);
    assert forall|x: (bool, Name)| moved.contains(x) <==> order.contains(x) by {
        if moved.contains(x) {
            let i = choose|i: int| 0 <= i < moved.len() && moved[i] == x;
            if i < first.len() {
                assert(first[i] == x);
                assert(picked_from(order, stage_units, false, n, first[i]));
            } else {
                assert(last[i - first.len()] == x);
                assert(picked_from(order, stage_units, true, n, last[i - first.len()]));
            }
        }
        if order.contains(x) {
            let q = choose|q: int| 0 <= q < order.len() && order[q] == x;
            if is_stage_entry(order[q], stage_units) {
                let i = choose|i: int| 0 <= i < last.len() && last[i] == order[q];
                assert(moved[first.len() + i] == x);
            } else {
                let i = choose|i: int| 0 <= i < first.len() && first[i] == order[q];
                assert(moved[i] == x);
            }
        }
    }
    assert forall|a: int, b: int| 0 <= a < b < moved.len() implies moved[a].1 != moved[b].1 by {
        if b < first.len() {
            assert(in_this_order(order, n, first[a], first[b]));
            let (qa, qb) = choose|qa: int, qb: int|
                0 <= qa < qb < n && #[trigger] order[qa] == first[a] && #[trigger] order[qb]
                    == first[b];
        } else if a >= first.len() {
            assert(in_this_order(order, n, last[a - first.len()], last[b - first.len()]));
            let (qa, qb) = choose|qa: int, qb: int|
                0 <= qa < qb < n && #[trigger] order[qa] == last[a - first.len()]
                    && #[trigger] order[qb] == last[b - first.len()];
        } else {
            assert(picked_from(order, stage_units, false, n, first[a]));
            assert(picked_from(order, stage_units, true, n, last[b - first.len()]));
            let qa = choose|q: int|
                0 <= q < n && #[trigger] order[q] == first[a] && is_stage_entry(
                    order[q],
                    stage_units,
                ) == false;
            let qb = choose|q: int|
                0 <= q < n && #[trigger] order[q] == last[b - first.len()] && is_stage_entry(
                    order[q],
                    stage_units,
                ) == true;
            if qa < qb {
                assert(order[qa].1 != order[qb].1);
            } else if qb < qa {
                assert(order[qb].1 != order[qa].1);
            }
        }
    }
    assert forall|p: int, q: int|
        0 <= p < q < moved.len() && is_stage_entry(
            moved[p],
            stage_units,
        ) implies is_stage_entry(moved[q], stage_units) by {
        if p < first.len() {
            assert(picked_from(order, stage_units, false, n, first[p]));
            let qa = choose|qa: int|
                0 <= qa < n && #[trigger] order[qa] == first[p] && is_stage_entry(
                    order[qa],
                    stage_units,
                ) == false;
        }
        assert(picked_from(order, stage_units, true, n, last[q - first.len()]));
        let qb = choose|qb: int|
            0 <= qb < n && #[trigger] order[qb] == last[q - first.len()] && is_stage_entry(
                order[qb],
                stage_units,
            ) == true;
    }
}

/// The evaluation order runs every unit and every signal exactly once in a
/// cycle, so that every signal has one producer, and runs the stage
/// registers last: where a graph that hangs together has an evaluation
/// order, the order holds every unit and signal of the graph and nothing
/// else, no name stands in it twice, and no stage register stands before an
/// entry of another kind.
pub proof fn lemma_order_runs_everything_once(g: Graph)
    requires
        g.wf(),
        g.spec_build() is Ok,
    ensures
        ({
            let order = g.spec_build()->Ok_0;
            &&& forall|x: (bool, Name)| order.contains(x) <==> g.runnable.contains(x)
            &&& names_differ(order)
            &&& forall|p: int, q: int|
                0 <= p < q < order.len() && is_stage_entry(order[p], g.stage_units)
                    ==> is_stage_entry(order[q], g.stage_units)
        }),
{
    let names = entry_names(g.runnable);
    let h = g.with_all_deps();
    lemma_with_all_deps(g);
    lemma_no_repeat(names, names.len() as int);
    assert(names_differ(g.runnable)) by {
        assert forall|a: int, b: int| 0 <= a < b < g.runnable.len() implies g.runnable[a].1
            != g.runnable[b].1 by {
            assert(names[a] != names[b]);
        }
    }
    let n = h.nodes.len() as int;
    let levels = spec_topo(n, h.edges)->0;
    lemma_topo_is_topological(n, h.edges);
    let nodes = nodes_of(levels);
    assert forall|i: int| 0 <= i < levels.len() implies 0 <= (#[trigger] levels[i]).0 < n by {
        assert(nodes[i] == levels[i].0);
    }
    assert forall|i: int, j: int| 0 <= i < j < levels.len() implies levels[i].0
        != levels[j].0 by {
        assert(nodes[i] == levels[i].0 && nodes[j] == levels[j].0);
    }
    lemma_scheduled(levels, h.nodes, h.runnable, levels.len() as int);
    let sched = scheduled_upto(levels, h.nodes, h.runnable, levels.len() as int);
    lemma_stages_last(sched, h.stage_units);
    let order = stages_last(sched, h.stage_units);
    assert(order == g.spec_build()->Ok_0);
    assert forall|x: (bool, Name)| order.contains(x) <==> g.runnable.contains(x) by {
        if order.contains(x) {
            assert(sched.contains(x));
            let p = choose|p: int| 0 <= p < sched.len() && sched[p] == x;
            assert(scheduled_for(levels, h.nodes, h.runnable, levels.len() as int, sched[p]));
            let (q, i) = choose|q: int, i: int|
                0 <= q < levels.len() && 0 <= i < h.runnable.len() && #[trigger] h.runnable[i]
                    == sched[p] && h.runnable[i].1 == h.nodes[(#[trigger] levels[q]).0];
            assert(g.runnable[i] == x);
        }
        if g.runnable.contains(x) {
            let i = choose|i: int| 0 <= i < g.runnable.len() && g.runnable[i] == x;
            assert(h.nodes.contains(h.runnable[i].1));
            let at = choose|at: int| 0 <= at < h.nodes.len() && h.nodes[at] == h.runnable[i].1;
            assert(nodes.contains(at));
            let q = choose|q: int| 0 <= q < nodes.len() && nodes[q] == at;
            assert(levels[q].0 == at);
            assert(sched.contains(h.runnable[i]));
        }
    }
}

/// Building twice from the same description gives the same result: two
/// builders that hold the same nodes, edges, units and signals come to the
/// same nodes, the same edges and the same evaluation order, or fail for
/// the same reason.
pub proof fn lemma_same_description_same_order(
    a: crate::framework::propagate::PropOrderBuilder,
    b: crate::framework::propagate::PropOrderBuilder,
)
    requires
        a@ == b@,
    ensures
        a@.with_all_deps().nodes == b@.with_all_deps().nodes,
        a@.with_all_deps().edges == b@.with_all_deps().edges,
        a@.spec_build() == b@.spec_build(),
{
}

} // verus!
