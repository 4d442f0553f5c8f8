//! The dataflow graph of an architecture and the order in which its units
//! and signals are evaluated within one cycle.
use vstd::prelude::*;
use crate::framework::names::{find_name, has_name, join, names_of, position, qualified, Name};
use crate::framework::topo::{order_view, spec_topo, topo};

verus! {

/// Why no evaluation order could be built.
#[derive(Debug, PartialEq, Eq)]
pub enum BuildError {
    /// Two units, two signals, or a unit and a signal share this name.
    DuplicateName(String),
    /// The dataflow graph has a cycle.
    NotDag,
    /// Nothing drives this input of a functional unit.
    MissingInput(String),
}

/// A build error as plain values.
pub enum Failure {
    DuplicateName(Name),
    NotDag,
    MissingInput(Name),
}

impl View for BuildError {
    type V = Failure;

    open spec fn view(&self) -> Failure {
        match self {
            BuildError::DuplicateName(name) => Failure::DuplicateName(name@),
            BuildError::NotDag => Failure::NotDag,
            BuildError::MissingInput(name) => Failure::MissingInput(name@),
        }
    }
}

/// The order in which units and signals are evaluated within one cycle: each
/// entry holds whether it is a unit, and its name.
#[derive(Debug)]
pub struct PropOrder {
    pub order: Vec<(bool, String)>,
}

/// The entries of an order as plain values.
pub open spec fn order_names(order: Seq<(bool, String)>) -> Seq<(bool, Name)> {
    Seq::new(order.len(), |i: int| (order[i].0, order[i].1@))
}

impl View for PropOrder {
    type V = Seq<(bool, Name)>;

    open spec fn view(&self) -> Seq<(bool, Name)> {
        order_names(self.order@)
    }
}

/// Collects the nodes and edges of a dataflow graph.
///
/// Nodes are units, the ports `unit.field` of units, the fields of stage
/// registers as they stand at the start of a cycle (`prefix.stage.field` with
/// the output prefix) and as they are driven for the next one (with the
/// input prefix), and signals.
pub struct PropOrderBuilder {
    /// The units and signals, in the order in which they were added.
    runnable_nodes: Vec<(bool, String)>,
    unit_nodes: Vec<String>,
    /// All nodes, each once, in the order in which they were first named.
    nodes: Vec<String>,
    /// The edges, as positions in `nodes`.
    edges: Vec<(usize, usize)>,
    /// The units that are stage registers.
    stage_units: Vec<String>,
    /// The input ports of functional units, as positions in `nodes`.
    input_ports: Vec<usize>,
    /// Each signal with the names that its source reads.
    deps: Vec<(String, Vec<String>)>,
    /// Each signal with a destination that it drives.
    rev_deps: Vec<(String, String)>,
    /// The abbreviations of stage outputs: pairs of the full name and the
    /// abbreviation that stands for it.
    abbrs: Vec<(String, String)>,
    output_prefix: String,
    input_prefix: String,
}

/// A builder as plain values.
pub struct Graph {
    pub runnable: Seq<(bool, Name)>,
    pub unit_nodes: Seq<Name>,
    pub nodes: Seq<Name>,
    pub edges: Seq<(usize, usize)>,
    pub stage_units: Seq<Name>,
    pub input_ports: Seq<usize>,
    pub deps: Seq<(Name, Seq<Name>)>,
    pub rev_deps: Seq<(Name, Name)>,
    pub abbrs: Seq<(Name, Name)>,
    pub output_prefix: Name,
    pub input_prefix: Name,
}

/// The dependency lists of a builder as plain values.
pub open spec fn deps_view(deps: Seq<(String, Vec<String>)>) -> Seq<(Name, Seq<Name>)> {
    Seq::new(deps.len(), |i: int| (deps[i].0@, names_of(deps[i].1@)))
}

/// The destinations of a builder as plain values.
pub open spec fn rev_deps_view(rev_deps: Seq<(String, String)>) -> Seq<(Name, Name)> {
    Seq::new(rev_deps.len(), |i: int| (rev_deps[i].0@, rev_deps[i].1@))
}

impl View for PropOrderBuilder {
    type V = Graph;

    closed spec fn view(&self) -> Graph {
        Graph {
            runnable: order_names(self.runnable_nodes@),
            unit_nodes: names_of(self.unit_nodes@),
            nodes: names_of(self.nodes@),
            edges: self.edges@,
            stage_units: names_of(self.stage_units@),
            input_ports: self.input_ports@,
            deps: deps_view(self.deps@),
            rev_deps: rev_deps_view(self.rev_deps@),
            abbrs: rev_deps_view(self.abbrs@),
            output_prefix: self.output_prefix@,
            input_prefix: self.input_prefix@,
        }
    }
}

/// What the regular expression `pattern` makes of `text` when each of its
/// matches is replaced by `replacement`; nothing where `pattern` is no
/// regular expression.
pub uninterp spec fn regex_replaced(text: Seq<char>, pattern: Seq<char>, replacement: Seq<char>) -> Option<Seq<char>>;

/// The pattern that matches `abbr` as a whole word.
pub open spec fn word_pattern(abbr: Name) -> Name {
    "\\b"@ + abbr + "\\b"@
}

/// The name with the first `k` abbreviations written out: wherever an
/// abbreviation stands in it as a whole word, the full name stands
/// instead. An abbreviation that gives no pattern is passed over.
pub open spec fn expanded_upto(name: Name, abbrs: Seq<(Name, Name)>, k: int) -> Name
    decreases k,
{
    if k <= 0 || k > abbrs.len() {
        name
    } else {
        let before = expanded_upto(name, abbrs, k - 1);
        match regex_replaced(before, word_pattern(abbrs[k - 1].1), abbrs[k - 1].0) {
            Some(after) => after,
            None => before,
        }
    }
}

/// The name with all abbreviations written out.
pub open spec fn expanded(name: Name, abbrs: Seq<(Name, Name)>) -> Name {
    expanded_upto(name, abbrs, abbrs.len() as int)
}

/// The names with all abbreviations written out.
pub open spec fn expanded_all(names: Seq<Name>, abbrs: Seq<(Name, Name)>) -> Seq<Name> {
    Seq::new(names.len(), |i: int| expanded(names[i], abbrs))
}

/// Calls `regex::Regex::new` on `pattern` and, where that gives a regular
/// expression, `Regex::replace_all` on `text` with `replacement`. The
/// result is what the regex crate returns for these three texts, or
/// nothing where it refuses the pattern; nothing more is claimed of it.
#[verifier::external_body]
fn regex_replace_all(text: &str, pattern: &str, replacement: &str) -> (res: Option<String>)
    ensures
        match res {
            Some(after) => regex_replaced(text@, pattern@, replacement@) == Some(after@),
            None => regex_replaced(text@, pattern@, replacement@) is None,
        },
{
    match regex::Regex::new(pattern) {
        Ok(re) => Some(re.replace_all(text, replacement).to_string()),
        Err(_) => None,
    }
}

/// Writes the abbreviations in a name out.
pub fn replace_abbr(abbrs: &Vec<(String, String)>, name: &str) -> (full: String)
    ensures
        full@ == expanded(name@, rev_deps_view(abbrs@)),
{
    let mut full: String = name.to_owned();
    let mut k: usize = 0;
    while k < abbrs.len()
        invariant
            k <= abbrs@.len(),
            full@ == expanded_upto(name@, rev_deps_view(abbrs@), k as int),
        decreases abbrs@.len() - k,
    {
        proof {
            reveal_strlit("\\b");
        }
        let pattern: String = "\\b".to_owned().concat(abbrs[k].1.as_str()).concat("\\b");
        match regex_replace_all(full.as_str(), pattern.as_str(), abbrs[k].0.as_str()) {
            Some(after) => {
                full = after;
            },
            None => {},
        }
        k = k + 1;
    }
    full
}

impl Graph {
    /// Whether the graph hangs together: no node stands twice among the
    /// nodes, the edges and the input ports speak of nodes that exist, and
    /// every unit and signal is a node.
    pub open spec fn wf(self) -> bool {
        &&& self.nodes.no_duplicates()
        &&& forall|k: int|
            0 <= k < self.edges.len() ==> (#[trigger] self.edges[k]).0 < self.nodes.len()
                && self.edges[k].1 < self.nodes.len()
        &&& forall|k: int|
            0 <= k < self.input_ports.len() ==> #[trigger] self.input_ports[k] < self.nodes.len()
        &&& forall|k: int|
            0 <= k < self.runnable.len() ==> self.nodes.contains((#[trigger] self.runnable[k]).1)
    }

    /// The graph with `name` among its nodes.
    pub open spec fn with_node(self, name: Name) -> Graph {
        if self.nodes.contains(name) {
            self
        } else {
            Graph { nodes: self.nodes.push(name), ..self }
        }
    }

    /// The graph with the edge from `from` to `to`, and with both among its
    /// nodes.
    pub open spec fn with_edge(self, from: Name, to: Name) -> Graph {
        let g = self.with_node(from).with_node(to);
        Graph {
            edges: g.edges.push(
                (position(g.nodes, from) as usize, position(g.nodes, to) as usize),
            ),
            ..g
        }
    }

    /// The graph with the unit `unit` as a node that can be run.
    pub open spec fn with_unit(self, unit: Name) -> Graph {
        let g = self.with_node(unit);
        Graph {
            runnable: g.runnable.push((true, unit)),
            unit_nodes: g.unit_nodes.push(unit),
            ..g
        }
    }

    /// The graph with the input port `unit.field`, which leads to the unit.
    pub open spec fn with_unit_input(self, unit: Name, field: Name) -> Graph {
        let g = self.with_edge(qualified(unit, field), unit);
        Graph {
            input_ports: g.input_ports.push(position(g.nodes, qualified(unit, field)) as usize),
            ..g
        }
    }

    /// The graph with the output port `unit.field`, to which the unit leads.
    pub open spec fn with_unit_output(self, unit: Name, field: Name) -> Graph {
        self.with_edge(unit, qualified(unit, field))
    }

    /// The graph with the field `field` of the stage register `unit`: a node
    /// for its value at the start of a cycle, and a node for the value that
    /// is driven into it, which leads to the unit.
    pub open spec fn with_unit_stage(self, unit: Name, field: Name) -> Graph {
        let name = qualified(unit, field);
        let g = self.with_node(qualified(self.output_prefix, name)).with_edge(
            qualified(self.input_prefix, name),
            unit,
        );
        if g.stage_units.contains(unit) {
            g
        } else {
            Graph { stage_units: g.stage_units.push(unit), ..g }
        }
    }

    /// The graph with the signal `name`, whose source reads `deps`.
    pub open spec fn with_update(self, name: Name, deps: Seq<Name>) -> Graph {
        let g = self.with_node(name);
        Graph {
            runnable: g.runnable.push((false, name)),
            deps: g.deps.push((name, deps)),
            ..g
        }
    }

    /// The graph in which the signal `name` drives `dest`.
    pub open spec fn with_rev_deps(self, name: Name, dest: Name) -> Graph {
        Graph { rev_deps: self.rev_deps.push((name, dest)), ..self }
    }

    /// The graph in which `abbr` stands for `origin` in the names that
    /// signals read and drive.
    pub open spec fn with_stage_output(self, origin: Name, abbr: Name) -> Graph {
        Graph { abbrs: self.abbrs.push((origin, abbr)), ..self }
    }

    /// Whether a name that a signal reads or drives gives an edge: it names
    /// a node that is neither the signal itself nor a whole unit.
    pub open spec fn links(self, signal: Name, other: Name) -> bool {
        self.nodes.contains(other) && other != signal && !self.unit_nodes.contains(other)
    }

    /// The graph with the edges that the first `k` names read by the signal
    /// `signal` give: from each name to the signal.
    pub open spec fn with_reads(self, signal: Name, reads: Seq<Name>, k: int) -> Graph
        decreases k,
    {
        if k <= 0 {
            self
        } else {
            let g = self.with_reads(signal, reads, k - 1);
            if g.links(signal, reads[k - 1]) {
                g.with_edge(reads[k - 1], signal)
            } else {
                g
            }
        }
    }

    /// The graph with the edges of the first `k` signals' reads.
    pub open spec fn with_deps(self, k: int) -> Graph
        decreases k,
    {
        if k <= 0 {
            self
        } else {
            let g = self.with_deps(k - 1);
            g.with_reads(
                self.deps[k - 1].0,
                expanded_all(self.deps[k - 1].1, self.abbrs),
                self.deps[k - 1].1.len() as int,
            )
        }
    }

    /// The graph with the edges of the first `k` destinations: from the
    /// signal to what it drives.
    pub open spec fn with_dests(self, k: int) -> Graph
        decreases k,
    {
        if k <= 0 {
            self
        } else {
            let g = self.with_dests(k - 1);
            let signal = self.rev_deps[k - 1].0;
            let dest = expanded(self.rev_deps[k - 1].1, self.abbrs);
            if g.links(signal, dest) {
                g.with_edge(signal, dest)
            } else {
                g
            }
        }
    }

    /// The graph with all edges that its signals give.
    pub open spec fn with_all_deps(self) -> Graph {
        let g = self.with_deps(self.deps.len() as int);
        g.with_dests(g.rev_deps.len() as int)
    }
}

/// The names of the entries of an order.
pub open spec fn entry_names(order: Seq<(bool, Name)>) -> Seq<Name> {
    Seq::new(order.len(), |i: int| order[i].1)
}

/// The position of the first of the first `k` names that occurred before, or
/// `k` where each of them is new.
pub open spec fn first_repeat_upto(list: Seq<Name>, k: int) -> int
    decreases k,
{
    if k <= 0 {
        0
    } else {
        let before = first_repeat_upto(list, k - 1);
        if before < k - 1 {
            before
        } else if 0 <= k - 1 < list.len() && position(list, list[k - 1]) < k - 1 {
            k - 1
        } else {
            k
        }
    }
}

/// Whether one of the first `k` edges leads to the node `to`.
pub open spec fn driven_upto(edges: Seq<(usize, usize)>, to: usize, k: int) -> bool
    decreases k,
{
    if k <= 0 {
        false
    } else {
        driven_upto(edges, to, k - 1) || (0 <= k - 1 < edges.len() && edges[k - 1].1 == to)
    }
}

/// The position of the first of the first `k` input ports that no edge leads
/// to, or `k` where each of them is driven.
pub open spec fn first_undriven_upto(
    ports: Seq<usize>,
    edges: Seq<(usize, usize)>,
    k: int,
) -> int
    decreases k,
{
    if k <= 0 {
        0
    } else {
        let before = first_undriven_upto(ports, edges, k - 1);
        if before < k - 1 {
            before
        } else if 0 <= k - 1 < ports.len() && !driven_upto(
            edges,
            ports[k - 1],
            edges.len() as int,
        ) {
            k - 1
        } else {
            k
        }
    }
}

/// The units and signals among the first `k` nodes of a topological order,
/// in that order.
pub open spec fn scheduled_upto(
    levels: Seq<(int, int)>,
    nodes: Seq<Name>,
    runnable: Seq<(bool, Name)>,
    k: int,
) -> Seq<(bool, Name)>
    decreases k,
{
    if k <= 0 {
        Seq::empty()
    } else {
        let before = scheduled_upto(levels, nodes, runnable, k - 1);
        let node = levels[k - 1].0;
        if 0 <= node < nodes.len() {
            let at = position(entry_names(runnable), nodes[node]);
            if at < runnable.len() {
                before.push(runnable[at])
            } else {
                before
            }
        } else {
            before
        }
    }
}

/// Whether an entry of an order is a stage register.
pub open spec fn is_stage_entry(entry: (bool, Name), stage_units: Seq<Name>) -> bool {
    entry.0 && stage_units.contains(entry.1)
}

/// Those of the first `k` entries of `order` that are stage registers
/// (`stage` true) or that are not (`stage` false), in their order.
pub open spec fn selected_upto(
    order: Seq<(bool, Name)>,
    stage_units: Seq<Name>,
    stage: bool,
    k: int,
) -> Seq<(bool, Name)>
    decreases k,
{
    if k <= 0 {
        Seq::empty()
    } else {
        let before = selected_upto(order, stage_units, stage, k - 1);
        if is_stage_entry(order[k - 1], stage_units) == stage {
            before.push(order[k - 1])
        } else {
            before
        }
    }
}

/// The order with its stage registers moved to the end; otherwise the
/// entries keep their order.
pub open spec fn stages_last(order: Seq<(bool, Name)>, stage_units: Seq<Name>) -> Seq<
    (bool, Name),
> {
    selected_upto(order, stage_units, false, order.len() as int) + selected_upto(
        order,
        stage_units,
        true,
        order.len() as int,
    )
}

impl Graph {
    /// The evaluation order of the graph, or the reason why it has none.
    ///
    /// A name that two units or signals share is reported first; then a
    /// cycle; then an input port of a functional unit that nothing drives.
    /// Otherwise the order holds the units and signals in the topological
    /// order of the graph, with the stage registers moved to the end.
    pub open spec fn spec_build(self) -> Result<Seq<(bool, Name)>, Failure> {
        let names = entry_names(self.runnable);
        let repeat = first_repeat_upto(names, names.len() as int);
        let g = self.with_all_deps();
        let undriven = first_undriven_upto(g.input_ports, g.edges, g.input_ports.len() as int);
        if repeat < names.len() {
            Err(Failure::DuplicateName(names[repeat]))
        } else {
            match spec_topo(g.nodes.len() as int, g.edges) {
                None => Err(Failure::NotDag),
                Some(levels) => {
                    if undriven < g.input_ports.len() {
                        Err(Failure::MissingInput(g.nodes[g.input_ports[undriven] as int]))
                    } else {
                        Ok(
                            stages_last(
                                scheduled_upto(levels, g.nodes, g.runnable, levels.len() as int),
                                g.stage_units,
                            ),
                        )
                    }
                },
            }
        }
    }
}

impl PropOrderBuilder {
    /// A builder without nodes. The prefixes tell the two nodes of a stage
    /// field apart.
    pub fn new(output_prefix: &str, input_prefix: &str) -> (builder: PropOrderBuilder)
        ensures
            builder@.wf(),
            builder@ == (Graph {
                runnable: Seq::empty(),
                unit_nodes: Seq::empty(),
                nodes: Seq::empty(),
                edges: Seq::empty(),
                stage_units: Seq::empty(),
                input_ports: Seq::empty(),
                deps: Seq::empty(),
                rev_deps: Seq::empty(),
                abbrs: Seq::empty(),
                output_prefix: output_prefix@,
                input_prefix: input_prefix@,
            }),
    {
        let builder = PropOrderBuilder {
            runnable_nodes: Vec::new(),
            unit_nodes: Vec::new(),
            nodes: Vec::new(),
            edges: Vec::new(),
            stage_units: Vec::new(),
            input_ports: Vec::new(),
            deps: Vec::new(),
            rev_deps: Vec::new(),
            abbrs: Vec::new(),
            output_prefix: output_prefix.to_owned(),
            input_prefix: input_prefix.to_owned(),
        };
        assert(builder@.runnable =~= Seq::empty());
        assert(builder@.unit_nodes =~= Seq::empty());
        assert(builder@.nodes =~= Seq::empty());
        assert(builder@.stage_units =~= Seq::empty());
        assert(builder@.deps =~= Seq::empty());
        assert(builder@.rev_deps =~= Seq::empty());
        assert(builder@.abbrs =~= Seq::empty());
        builder
    }

    /// Lets `abbr` stand for `origin`, the full name of a stage output, in
    /// the names that signals read and drive: when the edges of the signals
    /// are made, every whole word `abbr` in such a name is replaced by
    /// `origin`.
    pub fn add_stage_output(&mut self, origin: &str, abbr: &str)
        requires
            old(self)@.wf(),
        ensures
            final(self)@.wf(),
            final(self)@ == old(self)@.with_stage_output(origin@, abbr@),
    {
        self.abbrs.push((origin.to_owned(), abbr.to_owned()));
        assert(self@.edges == old(self)@.edges);
        assert(self@.input_ports == old(self)@.input_ports);
        assert(self@.nodes =~= old(self)@.nodes);
        assert(self@.runnable =~= old(self)@.runnable);
        assert(self@.unit_nodes =~= old(self)@.unit_nodes);
        assert(self@.stage_units =~= old(self)@.stage_units);
        assert(self@.deps =~= old(self)@.deps);
        assert(self@.rev_deps =~= old(self)@.rev_deps);
        assert(self@.abbrs =~= old(self)@.abbrs.push((origin@, abbr@)));
    }

    /// Makes `name` a node, and gives its position among the nodes.
    fn add_node(&mut self, name: &str) -> (at: usize)
        requires
            old(self)@.wf(),
        ensures
            final(self)@.wf(),
            final(self)@ == old(self)@.with_node(name@),
            at == position(final(self)@.nodes, name@),
            at < final(self)@.nodes.len(),
            final(self)@.nodes[at as int] == name@,
            forall|x: Name| old(self)@.nodes.contains(x) ==> final(self)@.nodes.contains(x),
    {
        let at: usize = find_name(&self.nodes, name);
        proof {
            crate::framework::names::lemma_position(old(self)@.nodes, name@);
        }
        if at == self.nodes.len() {
            self.nodes.push(name.to_owned());
            proof {
                let before = old(self)@.nodes;
                let after = self@.nodes;
                assert(after =~= before.push(name@));
                crate::framework::names::lemma_position(after, name@);
                assert(after[at as int] == name@);
                assert forall|j: int| 0 <= j < at implies after[j] != name@ by {
                    assert(after[j] == before[j]);
                }
                assert forall|x: Name| before.contains(x) implies after.contains(x) by {
                    let i = choose|i: int| 0 <= i < before.len() && before[i] == x;
                    assert(after[i] == x);
                }
                assert(after.no_duplicates());
            }
        }
        assert(self@.edges == old(self)@.edges);
        assert(self@.input_ports == old(self)@.input_ports);
        assert(self@.runnable =~= old(self)@.runnable);
        assert(self@.unit_nodes =~= old(self)@.unit_nodes);
        assert(self@.stage_units =~= old(self)@.stage_units);
        assert(self@.deps =~= old(self)@.deps);
        assert(self@.rev_deps =~= old(self)@.rev_deps);
        assert(self@.abbrs =~= old(self)@.abbrs);
        at
    }

    /// Adds the edge from `from` to `to`, making both nodes.
    fn add_edge(&mut self, from: &str, to: &str)
        requires
            old(self)@.wf(),
        ensures
            final(self)@.wf(),
            final(self)@.nodes.contains(from@),
            final(self)@.nodes.contains(to@),
            final(self)@ == old(self)@.with_edge(from@, to@),
    {
        let a: usize = self.add_node(from);
        let ghost mid = self@;
        let b: usize = self.add_node(to);
        proof {
            let nodes = self@.nodes;
            crate::framework::names::lemma_position(nodes, from@);
            crate::framework::names::lemma_position(mid.nodes, from@);
            assert(nodes[a as int] == from@);
            assert(position(nodes, from@) == a) by {
                assert forall|j: int| 0 <= j < a implies nodes[j] != from@ by {
                    assert(nodes[j] == mid.nodes[j]);
                }
            }
        }
        let ghost nodes = self@.nodes;
        self.edges.push((a, b));
        assert(self@.nodes == nodes);
        assert(self@.input_ports == old(self)@.input_ports);
        assert(self@.nodes[a as int] == from@);
        assert(self@.nodes[b as int] == to@);
        assert(self@.runnable =~= old(self)@.runnable);
        assert(self@.unit_nodes =~= old(self)@.unit_nodes);
        assert(self@.stage_units =~= old(self)@.stage_units);
        assert(self@.deps =~= old(self)@.deps);
        assert(self@.rev_deps =~= old(self)@.rev_deps);
        assert(self@.abbrs =~= old(self)@.abbrs);
    }

    /// Records that the signal `name` drives `dest`.
    pub fn add_rev_deps(&mut self, name: &str, dest: &str)
        requires
            old(self)@.wf(),
        ensures
            final(self)@.wf(),
            final(self)@ == old(self)@.with_rev_deps(name@, dest@),
    {
        self.rev_deps.push((name.to_owned(), dest.to_owned()));
        assert(self@.edges == old(self)@.edges);
        assert(self@.input_ports == old(self)@.input_ports);
        assert(self@.nodes.len() == old(self)@.nodes.len());
        assert(self@.runnable =~= old(self)@.runnable);
        assert(self@.unit_nodes =~= old(self)@.unit_nodes);
        assert(self@.nodes =~= old(self)@.nodes);
        assert(self@.stage_units =~= old(self)@.stage_units);
        assert(self@.deps =~= old(self)@.deps);
        assert(self@.rev_deps =~= old(self)@.rev_deps.push((name@, dest@)));
        assert(self@.abbrs =~= old(self)@.abbrs);
    }

    /// Adds the unit `unit_name`.
    pub fn add_unit_node(&mut self, unit_name: &str)
        requires
            old(self)@.wf(),
        ensures
            final(self)@.wf(),
            final(self)@ == old(self)@.with_unit(unit_name@),
    {
        let at: usize = self.add_node(unit_name);
        let ghost mid = self@;
        self.runnable_nodes.push((true, unit_name.to_owned()));
        self.unit_nodes.push(unit_name.to_owned());
        assert(self@.runnable =~= mid.runnable.push((true, unit_name@)));
        assert(self@.unit_nodes =~= mid.unit_nodes.push(unit_name@));
        assert(self@.nodes =~= mid.nodes);
        assert(self@.stage_units =~= mid.stage_units);
        assert(self@.deps =~= mid.deps);
        assert(self@.rev_deps =~= mid.rev_deps);
        assert(self@.abbrs =~= mid.abbrs);
    }

    /// Adds the input port `unit_name.field_name`.
    pub fn add_unit_input(&mut self, unit_name: &str, field_name: &str)
        requires
            old(self)@.wf(),
        ensures
            final(self)@.wf(),
            final(self)@ == old(self)@.with_unit_input(unit_name@, field_name@),
    {
        let full_name: String = join(unit_name, field_name);
        self.add_edge(full_name.as_str(), unit_name);
        let ghost mid = self@;
        let at: usize = find_name(&self.nodes, full_name.as_str());
        self.input_ports.push(at);
        assert(self@.edges == mid.edges);
        assert(self@.nodes.len() == mid.nodes.len());
        assert(self@.runnable =~= mid.runnable);
        assert(self@.unit_nodes =~= mid.unit_nodes);
        assert(self@.nodes =~= mid.nodes);
        assert(self@.stage_units =~= mid.stage_units);
        assert(self@.deps =~= mid.deps);
        assert(self@.rev_deps =~= mid.rev_deps);
        assert(self@.abbrs =~= mid.abbrs);
    }

    /// Adds the output port `unit_name.field_name`.
    pub fn add_unit_output(&mut self, unit_name: &str, field_name: &str)
        requires
            old(self)@.wf(),
        ensures
            final(self)@.wf(),
            final(self)@ == old(self)@.with_unit_output(unit_name@, field_name@),
    {
        let full_name: String = join(unit_name, field_name);
        self.add_edge(unit_name, full_name.as_str());
    }

    /// Adds the field `field_name` of the stage register `unit_name`. Stage
    /// registers hand the values that a cycle drove into them on to the next
    /// cycle, and run at the end of the order.
    pub fn add_unit_stage(&mut self, unit_name: &str, field_name: &str)
        requires
            old(self)@.wf(),
        ensures
            final(self)@.wf(),
            final(self)@ == old(self)@.with_unit_stage(unit_name@, field_name@),
    {
        let name: String = join(unit_name, field_name);
        let out_name: String = join(self.output_prefix.as_str(), name.as_str());
        let in_name: String = join(self.input_prefix.as_str(), name.as_str());
        let at: usize = self.add_node(out_name.as_str());
        self.add_edge(in_name.as_str(), unit_name);
        let ghost mid = self@;
        if !has_name(&self.stage_units, unit_name) {
            self.stage_units.push(unit_name.to_owned());
            assert(self@.stage_units =~= mid.stage_units.push(unit_name@));
        }
        assert(self@.edges == mid.edges);
        assert(self@.input_ports == mid.input_ports);
        assert(self@.nodes.len() == mid.nodes.len());
        assert(self@.runnable =~= mid.runnable);
        assert(self@.unit_nodes =~= mid.unit_nodes);
        assert(self@.nodes =~= mid.nodes);
        assert(self@.deps =~= mid.deps);
        assert(self@.rev_deps =~= mid.rev_deps);
        assert(self@.abbrs =~= mid.abbrs);
    }

    /// Adds the signal `name`, whose source reads the names in `deps`.
    pub fn add_update(&mut self, name: &str, deps: Vec<String>)
        requires
            old(self)@.wf(),
        ensures
            final(self)@.wf(),
            final(self)@ == old(self)@.with_update(name@, names_of(deps@)),
    {
        let at: usize = self.add_node(name);
        let ghost mid = self@;
        self.runnable_nodes.push((false, name.to_owned()));
        self.deps.push((name.to_owned(), deps));
        assert(self@.runnable =~= mid.runnable.push((false, name@)));
        assert(self@.unit_nodes =~= mid.unit_nodes);
        assert(self@.nodes =~= mid.nodes);
        assert(self@.stage_units =~= mid.stage_units);
        assert(self@.deps =~= mid.deps.push((name@, names_of(deps@))));
        assert(self@.rev_deps =~= mid.rev_deps);
        assert(self@.abbrs =~= mid.abbrs);
    }

    /// Whether a name that the signal `signal` reads or drives gives an edge.
    fn links(&self, signal: &String, other: &String) -> (res: bool)
        ensures
            res == self@.links(signal@, other@),
    {
        has_name(&self.nodes, other.as_str()) && !(*other == *signal) && !has_name(
            &self.unit_nodes,
            other.as_str(),
        )
    }

    /// Adds the edges that the signals give: into each signal from what its
    /// source reads, and from each signal to what it drives.
    fn init_deps(&mut self)
        requires
            old(self)@.wf(),
        ensures
            final(self)@.wf(),
            final(self)@ == old(self)@.with_all_deps(),
    {
        let mut i: usize = 0;
        while i < self.deps.len()
            invariant
                i <= self@.deps.len(),
                self@.wf(),
                self@ == old(self)@.with_deps(i as int),
                self@.deps == old(self)@.deps,
                self@.abbrs == old(self)@.abbrs,
            decreases self@.deps.len() - i,
        {
            let signal: String = self.deps[i].0.clone();
            let ghost start = self@;
            let ghost reads = expanded_all(start.deps[i as int].1, start.abbrs);
            let count: usize = self.deps[i].1.len();
            let mut j: usize = 0;
            while j < count
                invariant
                    j <= count,
                    self@.wf(),
                    i < self@.deps.len(),
                    count == reads.len(),
                    signal@ == start.deps[i as int].0,
                    reads == expanded_all(start.deps[i as int].1, start.abbrs),
                    self@.deps == start.deps,
                    self@.abbrs == start.abbrs,
                    self@ == start.with_reads(signal@, reads, j as int),
                decreases count - j,
            {
                let other: String = replace_abbr(&self.abbrs, self.deps[i].1[j].as_str());
                assert(other@ == reads[j as int]);
                if self.links(&signal, &other) {
                    self.add_edge(other.as_str(), signal.as_str());
                }
                j = j + 1;
            }
            i = i + 1;
        }
        let ghost mid = self@;
        let mut k: usize = 0;
        while k < self.rev_deps.len()
            invariant
                k <= self@.rev_deps.len(),
                self@.wf(),
                self@.rev_deps == mid.rev_deps,
                self@.abbrs == mid.abbrs,
                self@ == mid.with_dests(k as int),
            decreases self@.rev_deps.len() - k,
        {
            let signal: String = self.rev_deps[k].0.clone();
            let dest: String = replace_abbr(&self.abbrs, self.rev_deps[k].1.as_str());
            assert(mid.rev_deps[k as int].0 == signal@);
            assert(dest@ == expanded(mid.rev_deps[k as int].1, mid.abbrs));
            if self.links(&signal, &dest) {
                self.add_edge(signal.as_str(), dest.as_str());
            }
            k = k + 1;
        }
    }

    /// Computes the evaluation order of the graph.
    ///
    /// The order holds every unit and signal once, each after everything
    /// that leads to it, but for the stage registers, which stand at the
    /// end. There is none where two of them share a name, where the graph has
    /// a cycle, or where nothing drives an input of a functional unit.
    pub fn build(self) -> (res: Result<PropOrder, BuildError>)
        requires
            self@.wf(),
        ensures
            match res {
                Ok(order) => self@.spec_build() == Ok::<Seq<(bool, Name)>, Failure>(order@),
                Err(e) => self@.spec_build() == Err::<Seq<(bool, Name)>, Failure>(e@),
            },
    {
        let mut this = self;
        let names: Vec<String> = entry_name_list(&this.runnable_nodes);
        let repeat: usize = first_repeat(&names);
        if repeat < names.len() {
            return Err(BuildError::DuplicateName(names[repeat].clone()));
        }
        this.init_deps();
        match topo(this.nodes.len(), &this.edges) {
            None => Err(BuildError::NotDag),
            Some(levels) => {
                let undriven: usize = first_undriven(&this.input_ports, &this.edges);
                if undriven < this.input_ports.len() {
                    let port: usize = this.input_ports[undriven];
                    Err(BuildError::MissingInput(this.nodes[port].clone()))
                } else {
                    let found: Vec<(bool, String)> = schedule(
                        &levels,
                        &this.nodes,
                        &this.runnable_nodes,
                    );
                    Ok(PropOrder { order: move_stages_last(found, &this.stage_units) })
                }
            },
        }
    }
}

/// The names of the entries of a list of units and signals.
fn entry_name_list(list: &Vec<(bool, String)>) -> (names: Vec<String>)
    ensures
        names_of(names@) == entry_names(order_names(list@)),
{
    let mut names: Vec<String> = Vec::new();
    let mut i: usize = 0;
    while i < list.len()
        invariant
            i <= list@.len(),
            names@.len() == i,
            forall|j: int| 0 <= j < i ==> (#[trigger] names@[j])@ == list@[j].1@,
        decreases list@.len() - i,
    {
        names.push(list[i].1.clone());
        i = i + 1;
    }
    assert(names_of(names@) =~= entry_names(order_names(list@)));
    names
}

/// Once a repeated name has been found, looking further finds the same.
proof fn lemma_first_repeat_rest(list: Seq<Name>, k: int, m: int)
    requires
        0 < k <= m,
        first_repeat_upto(list, k) < k,
    ensures
        first_repeat_upto(list, m) == first_repeat_upto(list, k),
    decreases m - k,
{
    if k < m {
        lemma_first_repeat_rest(list, k, m - 1);
    }
}

/// The position of the first name that occurred before, or the length of the
/// list where no name occurs twice.
fn first_repeat(names: &Vec<String>) -> (at: usize)
    ensures
        at == first_repeat_upto(names_of(names@), names@.len() as int),
        at <= names@.len(),
{
    let mut j: usize = 0;
    while j < names.len()
        invariant
            j <= names@.len(),
            first_repeat_upto(names_of(names@), j as int) == j,
        decreases names@.len() - j,
    {
        if find_name(names, names[j].as_str()) < j {
            proof {
                lemma_first_repeat_rest(names_of(names@), j as int + 1, names@.len() as int);
            }
            return j;
        }
        j = j + 1;
    }
    j
}

/// Whether an edge leads to the node `to`.
fn is_driven(edges: &Vec<(usize, usize)>, to: usize) -> (driven: bool)
    ensures
        driven == driven_upto(edges@, to, edges@.len() as int),
{
    let mut k: usize = 0;
    while k < edges.len()
        invariant
            k <= edges@.len(),
            !driven_upto(edges@, to, k as int),
        decreases edges@.len() - k,
    {
        if edges[k].1 == to {
            proof {
                lemma_driven_rest(edges@, to, k as int + 1, edges@.len() as int);
            }
            return true;
        }
        k = k + 1;
    }
    false
}

/// An edge that was found stays found.
proof fn lemma_driven_rest(edges: Seq<(usize, usize)>, to: usize, k: int, m: int)
    requires
        0 <= k <= m,
        driven_upto(edges, to, k),
    ensures
        driven_upto(edges, to, m),
    decreases m - k,
{
    if k < m {
        lemma_driven_rest(edges, to, k, m - 1);
    }
}

/// Once an undriven port has been found, looking further finds the same.
proof fn lemma_first_undriven_rest(
    ports: Seq<usize>,
    edges: Seq<(usize, usize)>,
    k: int,
    m: int,
)
    requires
        0 < k <= m,
        first_undriven_upto(ports, edges, k) < k,
    ensures
        first_undriven_upto(ports, edges, m) == first_undriven_upto(ports, edges, k),
    decreases m - k,
{
    if k < m {
        lemma_first_undriven_rest(ports, edges, k, m - 1);
    }
}

/// The position of the first input port that no edge leads to, or the number
/// of ports where each is driven.
fn first_undriven(ports: &Vec<usize>, edges: &Vec<(usize, usize)>) -> (at: usize)
    ensures
        at == first_undriven_upto(ports@, edges@, ports@.len() as int),
        at <= ports@.len(),
{
    let mut j: usize = 0;
    while j < ports.len()
        invariant
            j <= ports@.len(),
            first_undriven_upto(ports@, edges@, j as int) == j,
        decreases ports@.len() - j,
    {
        if !is_driven(edges, ports[j]) {
            proof {
                lemma_first_undriven_rest(ports@, edges@, j as int + 1, ports@.len() as int);
            }
            return j;
        }
        j = j + 1;
    }
    j
}

/// The units and signals among the nodes of a topological order, in that
/// order.
fn schedule(
    levels: &Vec<(usize, usize)>,
    nodes: &Vec<String>,
    runnable: &Vec<(bool, String)>,
) -> (found: Vec<(bool, String)>)
    ensures
        order_names(found@) == scheduled_upto(
            order_view(levels@),
            names_of(nodes@),
            order_names(runnable@),
            levels@.len() as int,
        ),
{
    let names: Vec<String> = entry_name_list(runnable);
    assert(names_of(names@).len() == entry_names(order_names(runnable@)).len());
    let mut found: Vec<(bool, String)> = Vec::new();
    let mut k: usize = 0;
    while k < levels.len()
        invariant
            k <= levels@.len(),
            names_of(names@) == entry_names(order_names(runnable@)),
            names@.len() == runnable@.len(),
            order_names(found@) == scheduled_upto(
                order_view(levels@),
                names_of(nodes@),
                order_names(runnable@),
                k as int,
            ),
        decreases levels@.len() - k,
    {
        let node: usize = levels[k].0;
        let ghost before = order_names(found@);
        if node < nodes.len() {
            let at: usize = find_name(&names, nodes[node].as_str());
            if at < runnable.len() {
                found.push((runnable[at].0, runnable[at].1.clone()));
                assert(order_names(found@) =~= before.push(order_names(runnable@)[at as int]));
            }
        }
        k = k + 1;
    }
    found
}

/// Moves the stage registers of an order to its end.
fn move_stages_last(order: Vec<(bool, String)>, stage_units: &Vec<String>) -> (moved: Vec<
    (bool, String),
>)
    ensures
        order_names(moved@) == stages_last(order_names(order@), names_of(stage_units@)),
{
    let ghost all = order_names(order@);
    let ghost stages = names_of(stage_units@);
    let mut moved: Vec<(bool, String)> = Vec::new();
    let mut k: usize = 0;
    while k < order.len()
        invariant
            k <= order@.len(),
            all == order_names(order@),
            stages == names_of(stage_units@),
            order_names(moved@) == selected_upto(all, stages, false, k as int),
        decreases order@.len() - k,
    {
        let ghost before = order_names(moved@);
        if !(order[k].0 && has_name(stage_units, order[k].1.as_str())) {
            moved.push((order[k].0, order[k].1.clone()));
            assert(order_names(moved@) =~= before.push(all[k as int]));
        }
        k = k + 1;
    }
    let ghost first = order_names(moved@);
    let mut k: usize = 0;
    while k < order.len()
        invariant
            k <= order@.len(),
            all == order_names(order@),
            stages == names_of(stage_units@),
            order_names(moved@) == first + selected_upto(all, stages, true, k as int),
        decreases order@.len() - k,
    {
        let ghost before = order_names(moved@);
        if order[k].0 && has_name(stage_units, order[k].1.as_str()) {
            moved.push((order[k].0, order[k].1.clone()));
            assert(order_names(moved@) =~= before.push(all[k as int]));
        }
        k = k + 1;
    }
    moved
}

/// The tunnels that fired within one cycle: the tags that an architecture
/// attaches to cases, sources and destinations to have them drawn. It has no
/// effect on the simulation.
#[derive(Debug)]
pub struct Tracer {
    pub tunnel: Vec<String>,
}

impl View for Tracer {
    type V = Seq<Name>;

    open spec fn view(&self) -> Seq<Name> {
        names_of(self.tunnel@)
    }
}

/// The tunnels after `name` has fired: each tunnel stands once, in the order
/// in which it first fired.
pub open spec fn triggered(tunnels: Seq<Name>, name: Name) -> Seq<Name> {
    if tunnels.contains(name) {
        tunnels
    } else {
        tunnels.push(name)
    }
}

impl Default for Tracer {
    fn default() -> (tracer: Tracer)
        ensures
            tracer@ == Seq::<Name>::empty(),
    {
        let tracer = Tracer { tunnel: Vec::new() };
        assert(tracer@ =~= Seq::<Name>::empty());
        tracer
    }
}

impl Tracer {
    /// Records that the tunnel `name` fired.
    pub fn trigger_tunnel(&mut self, name: &str)
        ensures
            final(self)@ == triggered(old(self)@, name@),
    {
        if has_name(&self.tunnel, name) {
            return ;
        }
        self.tunnel.push(name.to_owned());
        assert(self@ =~= old(self)@.push(name@));
    }
}

} // verus!
