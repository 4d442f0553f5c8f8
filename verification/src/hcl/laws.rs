//! What holds of every description: its dataflow graph and its evaluation
//! order are determined by what it says.
use vstd::prelude::*;
use crate::framework::order_laws::lemma_no_repeat;
use crate::framework::propagate::{entry_names, Graph};
use crate::framework::schema::Slot;
use crate::hcl::syntax::{
    case_shapes, dest_shapes, signal_shapes, CaseShape, SourceShape, Term,
};
use crate::hcl::{case_refs_upto, signal_names, Case, Expr, HclData, SignalDest, SignalSource};

verus! {

impl Term {
    /// The signals that the expression reads, in the order in which they
    /// stand in it.
    pub open spec fn refs(self) -> Seq<Slot>
        decreases self, 0int,
    {
        match self {
            Term::Const(_) => Seq::empty(),
            Term::Ref(slot) => seq![slot],
            Term::Not(a) => a.refs(),
            Term::And(a, b) => a.refs() + b.refs(),
            Term::Or(a, b) => a.refs() + b.refs(),
            Term::Eq(a, b) => a.refs() + b.refs(),
            Term::Ne(a, b) => a.refs() + b.refs(),
            Term::In(a, list) => a.refs() + Term::refs_upto(list, list.len() as int),
        }
    }

    /// The signals that the first `k` expressions of a list read.
    pub open spec fn refs_upto(list: Seq<Term>, k: int) -> Seq<Slot>
        decreases list, k,
    {
        if k <= 0 || k > list.len() {
            Seq::empty()
        } else {
            Term::refs_upto(list, k - 1) + list[k - 1].refs()
        }
    }
}

/// The first `k` shapes of a list are the shapes of its first `k`
/// expressions.
pub proof fn lemma_shapes_upto(list: Vec<Expr>, k: int)
    requires
        0 <= k <= list@.len(),
    ensures
        Expr::shapes_upto(list, k).len() == k,
        forall|i: int| 0 <= i < k
            ==> Expr::shapes_upto(list, k)[i] == (#[trigger] list@[i]).shape(),
    decreases k,
{
    if k > 0 {
        lemma_shapes_upto(list, k - 1);
    }
}

/// What an expression reads can be told from its shape.
pub proof fn lemma_expr_refs(e: Expr)
    ensures
        e.refs() == e.shape().refs(),
    decreases e, 1int,
{
    match e {
        Expr::Const(_) => {},
        Expr::Ref(_) => {},
        Expr::Not(a) => {
            lemma_expr_refs(*a);
        },
        Expr::And(a, b) => {
            lemma_expr_refs(*a);
            lemma_expr_refs(*b);
        },
        Expr::Or(a, b) => {
            lemma_expr_refs(*a);
            lemma_expr_refs(*b);
        },
        Expr::Eq(a, b) => {
            lemma_expr_refs(*a);
            lemma_expr_refs(*b);
        },
        Expr::Ne(a, b) => {
            lemma_expr_refs(*a);
            lemma_expr_refs(*b);
        },
        Expr::In(a, list) => {
            lemma_expr_refs(*a);
            lemma_list_refs(list, list@.len() as int);
            lemma_shapes_upto(list, list@.len() as int);
        },
    }
}

/// What the first expressions of a list read can be told from their shapes.
pub proof fn lemma_list_refs(list: Vec<Expr>, k: int)
    requires
        0 <= k <= list@.len(),
    ensures
        Expr::refs_upto(list, k) == Term::refs_upto(Expr::shapes(list), k),
    decreases list, k,
{
    lemma_shapes_upto(list, list@.len() as int);
    if k > 0 {
        lemma_list_refs(list, k - 1);
        vstd::std_specs::vec::axiom_vec_index_decreases(list, k - 1);
        lemma_expr_refs(list@[k - 1]);
    }
}

/// The signals that the first `k` cases read.
pub open spec fn shape_refs_upto(cases: Seq<CaseShape>, k: int) -> Seq<Slot>
    decreases k,
{
    if k <= 0 || k > cases.len() {
        Seq::empty()
    } else {
        shape_refs_upto(cases, k - 1) + (cases[k - 1].condition.refs() + cases[k - 1].value.refs())
    }
}

impl SourceShape {
    /// The signals that the source reads.
    pub open spec fn refs(self) -> Seq<Slot> {
        match self {
            SourceShape::Switch(cases) => shape_refs_upto(cases, cases.len() as int),
            SourceShape::Expr(_, e) => e.refs(),
        }
    }
}

/// What the first cases of a list read can be told from their shapes.
pub proof fn lemma_case_refs(cases: Seq<Case>, k: int)
    requires
        0 <= k <= cases.len(),
    ensures
        case_refs_upto(cases, k) == shape_refs_upto(case_shapes(cases), k),
    decreases k,
{
    if k > 0 {
        lemma_case_refs(cases, k - 1);
        lemma_expr_refs(cases[k - 1].condition);
        lemma_expr_refs(cases[k - 1].value);
    }
}

/// What a source reads can be told from its shape.
pub proof fn lemma_source_refs(source: SignalSource)
    ensures
        source.refs() == source.shape().refs(),
{
    match source {
        SignalSource::Switch(switch) => {
            lemma_case_refs(switch.0@, switch.0@.len() as int);
        },
        SignalSource::Expr(e) => {
            lemma_expr_refs(e.expr);
        },
    }
}

/// Whether two descriptions say the same of the same hardware.
pub open spec fn say_the_same(a: HclData, b: HclData) -> bool {
    a.hardware == b.hardware && a.outline() == b.outline()
}

/// Two descriptions that say the same give every slot the same name.
pub proof fn lemma_slot_names(a: HclData, b: HclData, slot: Slot)
    requires
        say_the_same(a, b),
    ensures
        a.spec_slot_name(slot) == b.spec_slot_name(slot),
{
    match slot {
        Slot::Inter(i) => {
            assert(a.outline().signals.len() == a.intermediate_signals@.len());
            assert(b.outline().signals.len() == b.intermediate_signals@.len());
            if i < a.intermediate_signals@.len() {
                assert(a.outline().signals[i as int].name == a.intermediate_signals@[i as int].name@);
                assert(b.outline().signals[i as int].name == b.intermediate_signals@[i as int].name@);
            }
        },
        _ => {},
    }
}

/// Two descriptions that say the same give the same names to the nodes of
/// the same slots.
pub proof fn lemma_node_names(a: HclData, b: HclData, slots: Seq<Slot>, k: int)
    requires
        say_the_same(a, b),
    ensures
        a.node_names_upto(slots, k) == b.node_names_upto(slots, k),
    decreases k,
{
    if 0 < k <= slots.len() {
        lemma_node_names(a, b, slots, k - 1);
        lemma_slot_names(a, b, slots[k - 1]);
    }
}

/// Two descriptions that say the same add the same edges for destinations
/// of the same shapes.
pub proof fn lemma_driven(
    a: HclData,
    b: HclData,
    g: Graph,
    signal: Seq<char>,
    here: Seq<SignalDest>,
    there: Seq<SignalDest>,
    k: int,
)
    requires
        say_the_same(a, b),
        dest_shapes(here) == dest_shapes(there),
    ensures
        a.with_driven_upto(g, signal, here, k) == b.with_driven_upto(g, signal, there, k),
    decreases k,
{
    assert(here.len() == dest_shapes(here).len());
    assert(there.len() == dest_shapes(there).len());
    if 0 < k <= here.len() {
        lemma_driven(a, b, g, signal, here, there, k - 1);
        assert(dest_shapes(here)[k - 1].dest == here[k - 1].dest);
        assert(dest_shapes(there)[k - 1].dest == there[k - 1].dest);
        lemma_slot_names(a, b, here[k - 1].dest);
    }
}

/// Two descriptions that say the same add the same to a graph for their
/// first `k` signals.
pub proof fn lemma_signals(a: HclData, b: HclData, g: Graph, k: int)
    requires
        say_the_same(a, b),
    ensures
        a.with_signals_upto(g, k) == b.with_signals_upto(g, k),
    decreases k,
{
    let here = a.intermediate_signals@;
    let there = b.intermediate_signals@;
    assert(here.len() == signal_shapes(here).len());
    assert(there.len() == signal_shapes(there).len());
    if 0 < k <= here.len() {
        lemma_signals(a, b, g, k - 1);
        let x = here[k - 1];
        let y = there[k - 1];
        assert(signal_shapes(here)[k - 1] == x.shape());
        assert(signal_shapes(there)[k - 1] == y.shape());
        lemma_source_refs(x.source);
        lemma_source_refs(y.source);
        let refs = x.source.refs();
        lemma_node_names(a, b, refs, refs.len() as int);
        lemma_driven(
            a,
            b,
            a.with_signals_upto(g, k - 1).with_update(
                x.name@,
                a.node_names_upto(refs, refs.len() as int),
            ),
            x.name@,
            x.destinations@,
            y.destinations@,
            x.destinations@.len() as int,
        );
        assert(x.destinations@.len() == dest_shapes(x.destinations@).len());
        assert(y.destinations@.len() == dest_shapes(y.destinations@).len());
    }
}

/// Reading the same text twice gives the same circuit: two descriptions
/// that say the same of the same hardware, and hold no name that stands for
/// nothing, have the same dataflow graph, with the same nodes and the same
/// edges, and the same evaluation order, or lack one for the same reason.
pub proof fn lemma_same_text_same_order(a: HclData, b: HclData)
    requires
        say_the_same(a, b),
        a.unresolved@.len() == 0,
        b.unresolved@.len() == 0,
    ensures
        a.graph() == b.graph(),
        a.spec_order() == b.spec_order(),
{
    let here = a.intermediate_signals@;
    let there = b.intermediate_signals@;
    assert(here.len() == signal_shapes(here).len());
    assert(there.len() == signal_shapes(there).len());
    assert(signal_names(here) =~= signal_names(there)) by {
        assert forall|i: int| 0 <= i < here.len() implies here[i].name@ == there[i].name@ by {
            assert(signal_shapes(here)[i] == here[i].shape());
            assert(signal_shapes(there)[i] == there[i].shape());
        }
    }
    let g = a.hardware.setup(
        Graph {
            runnable: Seq::empty(),
            unit_nodes: Seq::empty(),
            nodes: Seq::empty(),
            edges: Seq::empty(),
            stage_units: Seq::empty(),
            input_ports: Seq::empty(),
            deps: Seq::empty(),
            rev_deps: Seq::empty(),
            abbrs: Seq::empty(),
            output_prefix: crate::hcl::output_prefix(),
            input_prefix: crate::hcl::input_prefix(),
        },
    );
    lemma_signals(a, b, g, here.len() as int);
}

/// What a signal drives adds nothing that is evaluated.
pub proof fn lemma_driven_entries(
    hcl: HclData,
    g: Graph,
    signal: Seq<char>,
    dests: Seq<SignalDest>,
    k: int,
)
    ensures
        hcl.with_driven_upto(g, signal, dests, k).runnable == g.runnable,
    decreases k,
{
    if 0 < k <= dests.len() {
        lemma_driven_entries(hcl, g, signal, dests, k - 1);
    }
}

/// The first `k` signals of a description are evaluated in their order,
/// behind what the graph evaluated before.
pub proof fn lemma_signal_entries(hcl: HclData, g: Graph, k: int)
    requires
        0 <= k <= hcl.intermediate_signals@.len(),
    ensures
        hcl.with_signals_upto(g, k).runnable == g.runnable + Seq::new(
            k as nat,
            |i: int| (false, hcl.intermediate_signals@[i].name@),
        ),
    decreases k,
{
    let entries = |i: int| (false, hcl.intermediate_signals@[i].name@);
    if k > 0 {
        lemma_signal_entries(hcl, g, k - 1);
        let def = hcl.intermediate_signals@[k - 1];
        let refs = def.source.refs();
        let before = hcl.with_signals_upto(g, k - 1);
        let with = before.with_update(def.name@, hcl.node_names_upto(refs, refs.len() as int));
        lemma_driven_entries(
            hcl,
            with,
            def.name@,
            def.destinations@,
            def.destinations@.len() as int,
        );
        assert(with.runnable == before.runnable.push((false, def.name@)));
        assert(g.runnable + Seq::new(k as nat, entries) =~= (g.runnable + Seq::new(
            (k - 1) as nat,
            entries,
        )).push((false, def.name@)));
    } else {
        assert(g.runnable + Seq::new(0nat, entries) =~= g.runnable);
    }
}

/// Every signal has one producer: where the dataflow graph of a description
/// has an evaluation order, no two signals of the description share a name.
pub proof fn lemma_one_producer(hcl: HclData)
    requires
        hcl.graph().spec_build() is Ok,
    ensures
        signal_names(hcl.intermediate_signals@).no_duplicates(),
{
    let base = hcl.hardware.setup(
        Graph {
            runnable: Seq::empty(),
            unit_nodes: Seq::empty(),
            nodes: Seq::empty(),
            edges: Seq::empty(),
            stage_units: Seq::empty(),
            input_ports: Seq::empty(),
            deps: Seq::empty(),
            rev_deps: Seq::empty(),
            abbrs: Seq::empty(),
            output_prefix: crate::hcl::output_prefix(),
            input_prefix: crate::hcl::input_prefix(),
        },
    );
    let n = hcl.intermediate_signals@.len() as int;
    lemma_signal_entries(hcl, base, n);
    let names = entry_names(hcl.graph().runnable);
    lemma_no_repeat(names, names.len() as int);
    let m = base.runnable.len() as int;
    assert forall|i: int, j: int| 0 <= i < n && 0 <= j < n && i != j implies signal_names(
        hcl.intermediate_signals@,
    )[i] != signal_names(hcl.intermediate_signals@)[j] by {
        assert(names[m + i] == hcl.intermediate_signals@[i].name@);
        assert(names[m + j] == hcl.intermediate_signals@[j].name@);
        if i < j {
            assert(names[m + i] != names[m + j]);
        } else {
            assert(names[m + j] != names[m + i]);
        }
    }
}

} // verus!
