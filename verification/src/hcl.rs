//! The hardware control language: the description of an architecture's
//! signals, from which the circuit of the architecture is built.
//!
//! A description is read from its text ([`HclData::parse`], whose grammar is
//! in [`syntax`]) or made by calls ([`HclData::new`], [`HclData::declare`],
//! [`HclData::define`], [`HclData::drive`]). [`HclData::build`] computes the
//! evaluation order of the dataflow graph that it describes.
use vstd::prelude::*;

pub mod laws;
pub mod lexer;
pub mod syntax;

use crate::framework::circuit::{update_names, PropCircuit};
use crate::framework::names::{join, lemma_position, names_of, position, qualified, Name};
use crate::framework::propagate::{
    triggered, BuildError, Failure, Graph, PropOrderBuilder, Tracer,
};
use crate::framework::schema::{
    field_names, find_field, find_stage, find_unit, stage_names, unit_names, Hardware,
    Signals, Slot, Wires,
};
use crate::framework::units::{find_port_name, names_of_ports, Port};
use crate::signal::{SigType, Value};

verus! {

/// An expression over signals and constants.
#[derive(Debug)]
pub enum Expr {
    /// A constant.
    Const(Value),
    /// The value of a signal.
    Ref(Slot),
    /// Whether the operand is not true.
    Not(Box<Expr>),
    /// Whether both operands are true.
    And(Box<Expr>, Box<Expr>),
    /// Whether one of the operands is true.
    Or(Box<Expr>, Box<Expr>),
    /// Whether both operands have the same value; numbers of different
    /// widths have the same value where they are the same number.
    Eq(Box<Expr>, Box<Expr>),
    /// Whether the operands differ in value.
    Ne(Box<Expr>, Box<Expr>),
    /// Whether the first operand has the value of one of the others.
    In(Box<Expr>, Vec<Expr>),
}

impl Expr {
    /// The value of the expression on the given signals.
    pub open spec fn eval(self, wires: Wires) -> Value
        decreases self,
    {
        match self {
            Expr::Const(v) => v,
            Expr::Ref(slot) => wires.get(slot),
            Expr::Not(a) => Value::Bool(!a.eval(wires).truth()),
            Expr::And(a, b) => Value::Bool(a.eval(wires).truth() && b.eval(wires).truth()),
            Expr::Or(a, b) => Value::Bool(a.eval(wires).truth() || b.eval(wires).truth()),
            Expr::Eq(a, b) => Value::Bool(a.eval(wires).equals(b.eval(wires))),
            Expr::Ne(a, b) => Value::Bool(!a.eval(wires).equals(b.eval(wires))),
            Expr::In(a, list) => Value::Bool(
                exists|i: int|
                    0 <= i < list@.len() && a.eval(wires).equals((#[trigger] list@[i]).eval(wires)),
            ),
        }
    }

    /// The signals that the expression reads, in the order in which they
    /// stand in it; a signal that it reads twice stands twice.
    pub open spec fn refs(self) -> Seq<Slot>
        decreases self, 0int,
    {
        match self {
            Expr::Const(_) => Seq::empty(),
            Expr::Ref(slot) => seq![slot],
            Expr::Not(a) => a.refs(),
            Expr::And(a, b) => a.refs() + b.refs(),
            Expr::Or(a, b) => a.refs() + b.refs(),
            Expr::Eq(a, b) => a.refs() + b.refs(),
            Expr::Ne(a, b) => a.refs() + b.refs(),
            Expr::In(a, list) => a.refs() + Expr::refs_upto(list, list@.len() as int),
        }
    }

    /// The signals that the first `k` expressions of a list read.
    pub open spec fn refs_upto(list: Vec<Expr>, k: int) -> Seq<Slot>
        decreases list, k,
    {
        if k <= 0 || k > list@.len() {
            Seq::empty()
        } else {
            Expr::refs_upto(list, k - 1) + list@[k - 1].refs()
        }
    }

    /// Collects the signals that the expression reads.
    #[verifier::loop_isolation(false)]
    pub fn lvalues(&self) -> (slots: Vec<Slot>)
        ensures
            slots@ == self.refs(),
        decreases self,
    {
        match self {
            Expr::Const(_) => Vec::new(),
            Expr::Ref(slot) => {
                let mut slots: Vec<Slot> = Vec::new();
                slots.push(*slot);
                slots
            },
            Expr::Not(a) => a.lvalues(),
            Expr::And(a, b) => {
                let mut slots: Vec<Slot> = a.lvalues();
                let mut more: Vec<Slot> = b.lvalues();
                slots.append(&mut more);
                slots
            },
            Expr::Or(a, b) => {
                let mut slots: Vec<Slot> = a.lvalues();
                let mut more: Vec<Slot> = b.lvalues();
                slots.append(&mut more);
                slots
            },
            Expr::Eq(a, b) => {
                let mut slots: Vec<Slot> = a.lvalues();
                let mut more: Vec<Slot> = b.lvalues();
                slots.append(&mut more);
                slots
            },
            Expr::Ne(a, b) => {
                let mut slots: Vec<Slot> = a.lvalues();
                let mut more: Vec<Slot> = b.lvalues();
                slots.append(&mut more);
                slots
            },
            Expr::In(a, list) => {
                let mut slots: Vec<Slot> = a.lvalues();
                let mut i: usize = 0;
                while i < list.len()
                    invariant
                        i <= list@.len(),
                        *self == Expr::In(*a, *list),
                        slots@ == a.refs() + Expr::refs_upto(*list, i as int),
                    decreases list@.len() - i,
                {
                    proof {
                        vstd::std_specs::vec::axiom_vec_index_decreases(*list, i as int);
                    }
                    let mut more: Vec<Slot> = list[i].lvalues();
                    slots.append(&mut more);
                    i = i + 1;
                }
                slots
            },
        }
    }

    /// Evaluates the expression on the given signals.
    #[verifier::loop_isolation(false)]
    pub fn evaluate(&self, signals: &Signals) -> (v: Value)
        ensures
            v == self.eval(signals@),
        decreases self,
    {
        match self {
            Expr::Const(v) => *v,
            Expr::Ref(slot) => signals.get(*slot),
            Expr::Not(a) => Value::Bool(!a.evaluate(signals).is_true()),
            Expr::And(a, b) => {
                let x: bool = a.evaluate(signals).is_true();
                let y: bool = b.evaluate(signals).is_true();
                Value::Bool(x && y)
            },
            Expr::Or(a, b) => {
                let x: bool = a.evaluate(signals).is_true();
                let y: bool = b.evaluate(signals).is_true();
                Value::Bool(x || y)
            },
            Expr::Eq(a, b) => {
                let x: Value = a.evaluate(signals);
                let y: Value = b.evaluate(signals);
                Value::Bool(x.is_equal(&y))
            },
            Expr::Ne(a, b) => {
                let x: Value = a.evaluate(signals);
                let y: Value = b.evaluate(signals);
                Value::Bool(!x.is_equal(&y))
            },
            Expr::In(a, list) => {
                let x: Value = a.evaluate(signals);
                let mut i: usize = 0;
                while i < list.len()
                    invariant
                        i <= list@.len(),
                        *self == Expr::In(*a, *list),
                        x == a.eval(signals@),
                        forall|j: int| 0 <= j < i
                            ==> !x.equals((#[trigger] list@[j]).eval(signals@)),
                    decreases list@.len() - i,
                {
                    proof {
                        vstd::std_specs::vec::axiom_vec_index_decreases(*list, i as int);
                    }
                    let y: Value = list[i].evaluate(signals);
                    if x.is_equal(&y) {
                        return Value::Bool(true);
                    }
                    i = i + 1;
                }
                Value::Bool(false)
            },
        }
    }
}

/// A tunnel tag as plain values.
pub open spec fn tag(tunnel: Option<String>) -> Option<Name> {
    match tunnel {
        Some(name) => Some(name@),
        None => None,
    }
}

/// The tunnels after a tag, if there is one, has fired.
pub open spec fn fired(tunnels: Seq<Name>, tunnel: Option<Name>) -> Seq<Name> {
    match tunnel {
        Some(name) => triggered(tunnels, name),
        None => tunnels,
    }
}

/// Fires the tunnel of a tag, if there is one.
fn fire(tracer: &mut Tracer, tunnel: &Option<String>)
    ensures
        final(tracer)@ == fired(old(tracer)@, tag(*tunnel)),
{
    match tunnel {
        Some(name) => {
            tracer.trigger_tunnel(name.as_str());
        },
        None => {},
    }
}

/// One case of a case table: where the condition holds, the signal takes the
/// value. For instance, `imem.error : NOP`.
#[derive(Debug)]
pub struct Case {
    pub tunnel: Option<String>,
    pub condition: Expr,
    pub value: Expr,
}

impl Case {
    /// The signals that the case reads: those of its condition, then those
    /// of its value.
    pub open spec fn refs(self) -> Seq<Slot> {
        self.condition.refs() + self.value.refs()
    }

    /// Collects the signals that the case reads.
    pub fn lvalues(&self) -> (slots: Vec<Slot>)
        ensures
            slots@ == self.refs(),
    {
        let mut slots: Vec<Slot> = self.condition.lvalues();
        let mut more: Vec<Slot> = self.value.lvalues();
        slots.append(&mut more);
        slots
    }
}

/// A case table: a multiplexer that gives the value of the first case whose
/// condition holds.
#[derive(Debug)]
pub struct SignalSwitch(pub Vec<Case>);

/// The position of the first of the first `k` cases whose condition holds,
/// or `k` where none of them does.
pub open spec fn first_case_upto(cases: Seq<Case>, wires: Wires, k: int) -> int
    decreases k,
{
    if k <= 0 {
        0
    } else {
        let before = first_case_upto(cases, wires, k - 1);
        if before < k - 1 {
            before
        } else if 0 <= k - 1 < cases.len() && cases[k - 1].condition.eval(wires).truth() {
            k - 1
        } else {
            k
        }
    }
}

/// The signals that the first `k` cases read.
pub open spec fn case_refs_upto(cases: Seq<Case>, k: int) -> Seq<Slot>
    decreases k,
{
    if k <= 0 || k > cases.len() {
        Seq::empty()
    } else {
        case_refs_upto(cases, k - 1) + cases[k - 1].refs()
    }
}

/// Once a case has been chosen, looking further chooses the same.
proof fn lemma_first_case_rest(cases: Seq<Case>, wires: Wires, k: int, m: int)
    requires
        0 < k <= m,
        first_case_upto(cases, wires, k) < k,
    ensures
        first_case_upto(cases, wires, m) == first_case_upto(cases, wires, k),
    decreases m - k,
{
    if k < m {
        lemma_first_case_rest(cases, wires, k, m - 1);
    }
}

/// A source that is a single expression.
#[derive(Debug)]
pub struct SignalSourceExpr {
    pub tunnel: Option<String>,
    pub expr: Expr,
}

/// Where a signal takes its value from.
#[derive(Debug)]
pub enum SignalSource {
    Switch(SignalSwitch),
    Expr(SignalSourceExpr),
}

impl SignalSource {
    /// The signals that the source reads.
    pub open spec fn refs(self) -> Seq<Slot> {
        match self {
            SignalSource::Switch(switch) => case_refs_upto(switch.0@, switch.0@.len() as int),
            SignalSource::Expr(source) => source.expr.refs(),
        }
    }

    /// The value that the source gives on the given signals, if it gives
    /// one: a case table in which no condition holds gives none.
    pub open spec fn value(self, wires: Wires) -> Option<Value> {
        match self {
            SignalSource::Switch(switch) => {
                let at = first_case_upto(switch.0@, wires, switch.0@.len() as int);
                if at < switch.0@.len() {
                    Some(switch.0@[at].value.eval(wires))
                } else {
                    None
                }
            },
            SignalSource::Expr(source) => Some(source.expr.eval(wires)),
        }
    }

    /// The tunnel that the source fires on the given signals: that of the
    /// chosen case, or that of the expression.
    pub open spec fn tunnel(self, wires: Wires) -> Option<Name> {
        match self {
            SignalSource::Switch(switch) => {
                let at = first_case_upto(switch.0@, wires, switch.0@.len() as int);
                if at < switch.0@.len() {
                    tag(switch.0@[at].tunnel)
                } else {
                    None
                }
            },
            SignalSource::Expr(source) => tag(source.tunnel),
        }
    }

    /// Collects the signals that the source reads.
    pub fn lvalues(&self) -> (slots: Vec<Slot>)
        ensures
            slots@ == self.refs(),
    {
        match self {
            SignalSource::Switch(switch) => {
                let mut slots: Vec<Slot> = Vec::new();
                let mut i: usize = 0;
                while i < switch.0.len()
                    invariant
                        i <= switch.0@.len(),
                        slots@ == case_refs_upto(switch.0@, i as int),
                    decreases switch.0@.len() - i,
                {
                    let mut more: Vec<Slot> = switch.0[i].lvalues();
                    slots.append(&mut more);
                    i = i + 1;
                }
                slots
            },
            SignalSource::Expr(source) => source.expr.lvalues(),
        }
    }

    /// Evaluates the source: gives its value, if it has one, and fires its
    /// tunnel.
    #[verifier::loop_isolation(false)]
    pub fn evaluate(&self, signals: &Signals, tracer: &mut Tracer) -> (v: Option<Value>)
        ensures
            v == self.value(signals@),
            final(tracer)@ == fired(old(tracer)@, self.tunnel(signals@)),
    {
        match self {
            SignalSource::Switch(switch) => {
                let mut i: usize = 0;
                while i < switch.0.len()
                    invariant
                        i <= switch.0@.len(),
                        tracer@ == old(tracer)@,
                        first_case_upto(switch.0@, signals@, i as int) == i,
                    decreases switch.0@.len() - i,
                {
                    if switch.0[i].condition.evaluate(signals).is_true() {
                        proof {
                            lemma_first_case_rest(
                                switch.0@,
                                signals@,
                                i as int + 1,
                                switch.0@.len() as int,
                            );
                        }
                        fire(tracer, &switch.0[i].tunnel);
                        return Some(switch.0[i].value.evaluate(signals));
                    }
                    i = i + 1;
                }
                None
            },
            SignalSource::Expr(source) => {
                fire(tracer, &source.tunnel);
                Some(source.expr.evaluate(signals))
            },
        }
    }
}

/// A destination that a signal drives: an input port of a unit, a stage
/// field for the next cycle, or another signal.
#[derive(Debug)]
pub struct SignalDest {
    pub tunnel: Option<String>,
    pub dest: Slot,
}

/// The signals after the first `k` destinations have been driven with `v`.
pub open spec fn dests_upto(dests: Seq<SignalDest>, wires: Wires, v: Value, k: int) -> Wires
    decreases k,
{
    if k <= 0 || k > dests.len() {
        wires
    } else {
        dests_upto(dests, wires, v, k - 1).set(dests[k - 1].dest, v)
    }
}

/// The tunnels after those of the first `k` destinations have fired.
pub open spec fn dest_tunnels_upto(dests: Seq<SignalDest>, tunnels: Seq<Name>, k: int) -> Seq<
    Name,
>
    decreases k,
{
    if k <= 0 || k > dests.len() {
        tunnels
    } else {
        fired(dest_tunnels_upto(dests, tunnels, k - 1), tag(dests[k - 1].tunnel))
    }
}

/// The definition of a signal: its name and type, its source, and the
/// destinations that it drives.
#[derive(Debug)]
pub struct SignalDef {
    /// The name of the signal.
    pub name: String,
    /// The type of the signal.
    pub typ: SigType,
    pub source: SignalSource,
    pub destinations: Vec<SignalDest>,
}

impl SignalDef {
    /// The value that the signal, which stands at position `index` among
    /// the intermediate signals, takes on the given signals: what its source
    /// gives, as a signal of its type carries it. Where the source gives
    /// nothing, as a case table does in which no condition holds, the signal
    /// keeps the value that it has.
    pub open spec fn value(self, index: usize, wires: Wires) -> Value {
        match self.source.value(wires) {
            Some(v) => v.spec_coerce(self.typ),
            None => wires.get(Slot::Inter(index)),
        }
    }

    /// The signals after the update of this signal, which stands at
    /// position `index` among the intermediate signals: the signal has its
    /// new value, and so has each of its destinations.
    pub open spec fn updated(self, index: usize, wires: Wires) -> Wires {
        let v = self.value(index, wires);
        dests_upto(
            self.destinations@,
            wires.set(Slot::Inter(index), v),
            wires.set(Slot::Inter(index), v).get(Slot::Inter(index)),
            self.destinations@.len() as int,
        )
    }

    /// The tunnels after the update of this signal: the tunnel of its source
    /// has fired and, where the source has one, those of its destinations.
    pub open spec fn traced(self, wires: Wires, tunnels: Seq<Name>) -> Seq<Name> {
        let after = fired(tunnels, self.source.tunnel(wires));
        if self.source.tunnel(wires) is Some {
            dest_tunnels_upto(self.destinations@, after, self.destinations@.len() as int)
        } else {
            after
        }
    }

    /// Updates the signal, which stands at position `index` among the
    /// intermediate signals: evaluates its source and drives the signal and
    /// its destinations.
    pub fn update(&self, index: usize, signals: &mut Signals, tracer: &mut Tracer)
        ensures
            final(signals)@ == self.updated(index, old(signals)@),
            final(tracer)@ == self.traced(old(signals)@, old(tracer)@),
    {
        let ghost tunnel = self.source.tunnel(signals@);
        let got: Option<Value> = self.source.evaluate(signals, tracer);
        let has_tunnel_input: bool = self.source_has_tunnel(signals);
        let v: Value = match got {
            Some(v) => v.coerce(self.typ),
            None => signals.get(Slot::Inter(index)),
        };
        signals.set(Slot::Inter(index), v);
        let stored: Value = signals.get(Slot::Inter(index));
        let ghost start = signals@;
        let ghost fired_source = tracer@;
        let mut k: usize = 0;
        while k < self.destinations.len()
            invariant
                k <= self.destinations@.len(),
                signals@ == dests_upto(self.destinations@, start, stored, k as int),
                has_tunnel_input ==> tracer@ == dest_tunnels_upto(
                    self.destinations@,
                    fired_source,
                    k as int,
                ),
                !has_tunnel_input ==> tracer@ == fired_source,
            decreases self.destinations@.len() - k,
        {
            signals.set(self.destinations[k].dest, stored);
            if has_tunnel_input {
                fire(tracer, &self.destinations[k].tunnel);
            }
            k = k + 1;
        }
    }

    /// Whether the source fires a tunnel on the given signals.
    #[verifier::loop_isolation(false)]
    fn source_has_tunnel(&self, signals: &Signals) -> (has: bool)
        ensures
            has == (self.source.tunnel(signals@) is Some),
    {
        match &self.source {
            SignalSource::Switch(switch) => {
                let mut i: usize = 0;
                while i < switch.0.len()
                    invariant
                        i <= switch.0@.len(),
                        first_case_upto(switch.0@, signals@, i as int) == i,
                    decreases switch.0@.len() - i,
                {
                    if switch.0[i].condition.evaluate(signals).is_true() {
                        proof {
                            lemma_first_case_rest(
                                switch.0@,
                                signals@,
                                i as int + 1,
                                switch.0@.len() as int,
                            );
                        }
                        return switch.0[i].tunnel.is_some();
                    }
                    i = i + 1;
                }
                false
            },
            SignalSource::Expr(source) => source.tunnel.is_some(),
        }
    }
}

/// The names under which an architecture reads its stage registers as a
/// cycle found them: pairs of a stage and its alias. In an expression the
/// alias stands for the fields at the start of the cycle, the stage's own
/// name for the fields that the cycle drives.
#[derive(Debug)]
pub struct StageAlias(pub Vec<(String, String)>);

/// The aliases of a list.
pub open spec fn alias_names(aliases: Seq<(String, String)>) -> Seq<Name> {
    Seq::new(aliases.len(), |i: int| aliases[i].1@)
}

/// The stages that the aliases of a list stand for.
pub open spec fn aliased_names(aliases: Seq<(String, String)>) -> Seq<Name> {
    Seq::new(aliases.len(), |i: int| aliases[i].0@)
}

/// The names of the signals of a list.
pub open spec fn signal_names(signals: Seq<SignalDef>) -> Seq<Name> {
    Seq::new(signals.len(), |i: int| signals[i].name@)
}

/// The prefix of the nodes that stand for stage fields as a cycle found
/// them.
pub open spec fn output_prefix() -> Name {
    "prev"@
}

/// The prefix of the nodes that stand for stage fields as a cycle drives
/// them.
pub open spec fn input_prefix() -> Name {
    "next"@
}

/// Why an architecture could not be built from its description.
#[derive(Debug, PartialEq, Eq)]
pub enum HclError {
    /// The description uses this name, which names nothing.
    Unresolved(String),
    /// The signal that is named as program counter does not exist.
    MissingProgramCounter,
    /// The signal that is named as termination signal does not exist.
    MissingTermination,
    /// The dataflow graph has no evaluation order.
    Build(BuildError),
    /// The text of the description holds a character that is not ASCII.
    NotAscii,
    /// The statement that begins in this line, counted from one, cannot be
    /// read.
    Syntax(usize),
    /// The statement that begins in this line, counted from one, uses a
    /// name that names nothing, or drives what cannot be driven.
    UnknownName(usize),
}

/// A description error as plain values.
pub enum HclFailure {
    Unresolved(Name),
    MissingProgramCounter,
    MissingTermination,
    Build(Failure),
    NotAscii,
    Syntax(int),
    UnknownName(int),
}

impl View for HclError {
    type V = HclFailure;

    open spec fn view(&self) -> HclFailure {
        match self {
            HclError::Unresolved(name) => HclFailure::Unresolved(name@),
            HclError::MissingProgramCounter => HclFailure::MissingProgramCounter,
            HclError::MissingTermination => HclFailure::MissingTermination,
            HclError::Build(e) => HclFailure::Build(e@),
            HclError::NotAscii => HclFailure::NotAscii,
            HclError::Syntax(line) => HclFailure::Syntax(*line as int),
            HclError::UnknownName(line) => HclFailure::UnknownName(*line as int),
        }
    }
}

/// An architecture that is ready to run: its hardware, its circuit, and the
/// positions of the signals that hold the program counter and that tell
/// whether the program has ended.
#[derive(Debug)]
pub struct Architecture {
    pub hardware: Hardware,
    pub circuit: PropCircuit,
    pub program_counter: usize,
    pub termination: usize,
}

/// The description of an architecture in the hardware control language.
#[derive(Debug)]
pub struct HclData {
    pub hardware: Hardware,
    /// The name of the signal that holds the program counter.
    pub program_counter: String,
    /// The name of the boolean signal that tells whether the program has
    /// ended.
    pub termination: String,
    pub stage_alias: StageAlias,
    pub intermediate_signals: Vec<SignalDef>,
    /// The names that were used and name nothing, in the order of their
    /// use.
    pub unresolved: Vec<String>,
}

/// The position of the signal named `name`, or the number of signals where
/// there is none.
pub fn find_signal(signals: &Vec<SignalDef>, name: &str) -> (at: usize)
    ensures
        at == position(signal_names(signals@), name@),
        at <= signals@.len(),
        at < signals@.len() <==> signal_names(signals@).contains(name@),
        at < signals@.len() ==> signals@[at as int].name@ == name@,
{
    let key: String = name.to_owned();
    let ghost names = signal_names(signals@);
    let mut i: usize = 0;
    while i < signals.len()
        invariant
            i <= signals@.len(),
            key@ == name@,
            names == signal_names(signals@),
            crate::framework::names::position_upto(names, name@, i as int) == i,
        decreases signals@.len() - i,
    {
        if signals[i].name == key {
            proof {
                assert(names[i as int] == name@);
                crate::framework::names::lemma_position_rest(
                    names,
                    name@,
                    i as int + 1,
                    names.len() as int,
                );
                crate::framework::names::lemma_position(names, name@);
            }
            return i;
        }
        i = i + 1;
    }
    proof {
        crate::framework::names::lemma_position(names, name@);
    }
    i
}

/// The position of the alias `name`, or the number of aliases where there is
/// none.
pub fn find_alias(aliases: &Vec<(String, String)>, name: &str) -> (at: usize)
    ensures
        at == position(alias_names(aliases@), name@),
        at <= aliases@.len(),
{
    let key: String = name.to_owned();
    let ghost names = alias_names(aliases@);
    let mut i: usize = 0;
    while i < aliases.len()
        invariant
            i <= aliases@.len(),
            key@ == name@,
            names == alias_names(aliases@),
            crate::framework::names::position_upto(names, name@, i as int) == i,
        decreases aliases@.len() - i,
    {
        if aliases[i].1 == key {
            proof {
                assert(names[i as int] == name@);
                crate::framework::names::lemma_position_rest(
                    names,
                    name@,
                    i as int + 1,
                    names.len() as int,
                );
            }
            return i;
        }
        i = i + 1;
    }
    i
}

/// What the names of a description can stand for: the hardware, the aliases
/// of its stages with the stages that they stand for, and the names of its
/// signals.
pub struct Scope {
    pub hardware: Hardware,
    pub aliases: Seq<Name>,
    pub aliased: Seq<Name>,
    pub signals: Seq<Name>,
}

impl Scope {
    /// The field `field` of the stage at position `stage`, on the side that
    /// `prev` tells.
    pub open spec fn stage_slot(self, stage: int, field: Name, prev: bool) -> Option<Slot> {
        if 0 <= stage < self.hardware.stages@.len() {
            let at = position(field_names(self.hardware.stages@[stage].fields@), field);
            if at < self.hardware.stages@[stage].fields@.len() {
                if prev {
                    Some(Slot::Prev(stage as usize, at as usize))
                } else {
                    Some(Slot::Next(stage as usize, at as usize))
                }
            } else {
                None
            }
        } else {
            None
        }
    }

    /// The port `field` of the unit at position `unit`: an output of the
    /// unit, or else an input.
    pub open spec fn port_slot(self, unit: int, field: Name) -> Option<Slot> {
        if 0 <= unit < self.hardware.units@.len() {
            let kind = self.hardware.units@[unit].kind;
            let out = position(names_of_ports(kind.spec_outputs()), field);
            let inp = position(names_of_ports(kind.spec_inputs()), field);
            if out < kind.spec_outputs().len() {
                Some(Slot::UnitOut(unit as usize, out as usize))
            } else if inp < kind.spec_inputs().len() {
                Some(Slot::UnitIn(unit as usize, inp as usize))
            } else {
                None
            }
        } else {
            None
        }
    }

    /// What the qualified name `head.field` stands for: where `head` is the
    /// alias of a stage, the field as the cycle found it; else, where `head`
    /// is a stage, the field as the cycle drives it; else, where `head` is a
    /// unit, the port of that name. Any other name stands for nothing.
    pub open spec fn resolve(self, head: Name, field: Name) -> Option<Slot> {
        let alias = position(self.aliases, head);
        let stage = position(stage_names(self.hardware.stages@), head);
        let unit = position(unit_names(self.hardware.units@), head);
        if alias < self.aliases.len() && alias < self.aliased.len() {
            self.stage_slot(
                position(stage_names(self.hardware.stages@), self.aliased[alias]),
                field,
                true,
            )
        } else if stage < self.hardware.stages@.len() {
            self.stage_slot(stage, field, false)
        } else {
            self.port_slot(unit, field)
        }
    }

    /// What the bare name `name` stands for: the intermediate signal of that
    /// name, if there is one.
    pub open spec fn resolve_signal(self, name: Name) -> Option<Slot> {
        let at = position(self.signals, name);
        if at < self.signals.len() {
            Some(Slot::Inter(at as usize))
        } else {
            None
        }
    }
}

impl HclData {
    /// What the names of the description can stand for.
    pub open spec fn scope(&self) -> Scope {
        Scope {
            hardware: self.hardware,
            aliases: alias_names(self.stage_alias.0@),
            aliased: aliased_names(self.stage_alias.0@),
            signals: signal_names(self.intermediate_signals@),
        }
    }

    /// The field `field` of the stage at position `stage`, on the side that
    /// `prev` tells.
    pub open spec fn spec_stage_slot(&self, stage: int, field: Name, prev: bool) -> Option<Slot> {
        self.scope().stage_slot(stage, field, prev)
    }

    /// What the qualified name `head.field` stands for.
    pub open spec fn spec_resolve(&self, head: Name, field: Name) -> Option<Slot> {
        self.scope().resolve(head, field)
    }

    /// What the bare name `name` stands for.
    pub open spec fn spec_resolve_signal(&self, name: Name) -> Option<Slot> {
        self.scope().resolve_signal(name)
    }

    /// The name of the node that stands for a slot, if the description has
    /// such a slot.
    pub open spec fn spec_slot_name(&self, slot: Slot) -> Option<Name> {
        match slot {
            Slot::Inter(i) => if i < self.intermediate_signals@.len() {
                Some(self.intermediate_signals@[i as int].name@)
            } else {
                None
            },
            Slot::UnitIn(u, k) => if u < self.hardware.units@.len() && k
                < self.hardware.units@[u as int].kind.spec_inputs().len() {
                Some(
                    qualified(
                        self.hardware.units@[u as int].name@,
                        self.hardware.units@[u as int].kind.spec_inputs()[k as int].0,
                    ),
                )
            } else {
                None
            },
            Slot::UnitOut(u, k) => if u < self.hardware.units@.len() && k
                < self.hardware.units@[u as int].kind.spec_outputs().len() {
                Some(
                    qualified(
                        self.hardware.units@[u as int].name@,
                        self.hardware.units@[u as int].kind.spec_outputs()[k as int].0,
                    ),
                )
            } else {
                None
            },
            Slot::Prev(s, f) => if s < self.hardware.stages@.len() && f
                < self.hardware.stages@[s as int].fields@.len() {
                Some(
                    qualified(
                        output_prefix(),
                        qualified(
                            self.hardware.stages@[s as int].name@,
                            self.hardware.stages@[s as int].fields@[f as int].name@,
                        ),
                    ),
                )
            } else {
                None
            },
            Slot::Next(s, f) => if s < self.hardware.stages@.len() && f
                < self.hardware.stages@[s as int].fields@.len() {
                Some(
                    qualified(
                        input_prefix(),
                        qualified(
                            self.hardware.stages@[s as int].name@,
                            self.hardware.stages@[s as int].fields@[f as int].name@,
                        ),
                    ),
                )
            } else {
                None
            },
        }
    }

    /// A description without signals for the given hardware. The two names
    /// say which signal holds the program counter and which tells that the
    /// program has ended.
    pub fn new(hardware: Hardware, program_counter: &str, termination: &str) -> (hcl: HclData)
        ensures
            hcl.hardware == hardware,
            hcl.program_counter@ == program_counter@,
            hcl.termination@ == termination@,
            hcl.stage_alias.0@.len() == 0,
            hcl.intermediate_signals@.len() == 0,
            hcl.unresolved@.len() == 0,
    {
        HclData {
            hardware,
            program_counter: program_counter.to_owned(),
            termination: termination.to_owned(),
            stage_alias: StageAlias(Vec::new()),
            intermediate_signals: Vec::new(),
            unresolved: Vec::new(),
        }
    }

    /// Lets `alias` stand for the fields of the stage `stage` as a cycle
    /// found them.
    pub fn alias(&mut self, alias: &str, stage: &str)
        ensures
            final(self).hardware == old(self).hardware,
            final(self).program_counter == old(self).program_counter,
            final(self).termination == old(self).termination,
            final(self).intermediate_signals == old(self).intermediate_signals,
            final(self).unresolved == old(self).unresolved,
            final(self).stage_alias.0@.len() == old(self).stage_alias.0@.len() + 1,
            final(self).stage_alias.0@[old(self).stage_alias.0@.len() as int].0@ == stage@,
            final(self).stage_alias.0@[old(self).stage_alias.0@.len() as int].1@ == alias@,
            forall|i: int|
                0 <= i < old(self).stage_alias.0@.len()
                    ==> final(self).stage_alias.0@[i] == old(self).stage_alias.0@[i],
    {
        self.stage_alias.0.push((stage.to_owned(), alias.to_owned()));
    }

    /// Resolves the qualified name `head.field`.
    pub fn resolve(&self, head: &str, field: &str) -> (slot: Option<Slot>)
        ensures
            slot == self.spec_resolve(head@, field@),
    {
        let alias: usize = find_alias(&self.stage_alias.0, head);
        if alias < self.stage_alias.0.len() {
            let stage: usize = find_stage(&self.hardware.stages, self.stage_alias.0[alias].0.as_str());
            return self.stage_slot(stage, field, true);
        }
        let stage: usize = find_stage(&self.hardware.stages, head);
        if stage < self.hardware.stages.len() {
            return self.stage_slot(stage, field, false);
        }
        let unit: usize = find_unit(&self.hardware.units, head);
        if unit < self.hardware.units.len() {
            let kind = self.hardware.units[unit].kind;
            let outputs: Vec<Port> = kind.outputs();
            let out: usize = find_port_name(&outputs, field);
            if out < outputs.len() {
                return Some(Slot::UnitOut(unit, out));
            }
            let inputs: Vec<Port> = kind.inputs();
            let inp: usize = find_port_name(&inputs, field);
            if inp < inputs.len() {
                return Some(Slot::UnitIn(unit, inp));
            }
        }
        None
    }

    /// The field `field` of the stage at position `stage`.
    fn stage_slot(&self, stage: usize, field: &str, prev: bool) -> (slot: Option<Slot>)
        ensures
            slot == self.spec_stage_slot(stage as int, field@, prev),
    {
        if stage < self.hardware.stages.len() {
            let at: usize = find_field(&self.hardware.stages[stage].fields, field);
            if at < self.hardware.stages[stage].fields.len() {
                if prev {
                    return Some(Slot::Prev(stage, at));
                } else {
                    return Some(Slot::Next(stage, at));
                }
            }
        }
        None
    }

    /// Resolves the bare name `name`.
    pub fn resolve_signal(&self, name: &str) -> (slot: Option<Slot>)
        ensures
            slot == self.spec_resolve_signal(name@),
    {
        let at: usize = find_signal(&self.intermediate_signals, name);
        if at < self.intermediate_signals.len() {
            Some(Slot::Inter(at))
        } else {
            None
        }
    }

    /// The name of the node that stands for a slot.
    pub fn slot_name(&self, slot: Slot) -> (name: Option<String>)
        ensures
            name is Some <==> self.spec_slot_name(slot) is Some,
            name matches Some(n) ==> self.spec_slot_name(slot) == Some(n@),
    {
        proof {
            reveal_strlit("prev");
            reveal_strlit("next");
        }
        match slot {
            Slot::Inter(i) => {
                if i < self.intermediate_signals.len() {
                    Some(self.intermediate_signals[i].name.clone())
                } else {
                    None
                }
            },
            Slot::UnitIn(u, k) => {
                if u < self.hardware.units.len() {
                    let ports: Vec<Port> = self.hardware.units[u].kind.inputs();
                    assert(crate::framework::units::ports_view(ports@).len() == ports@.len());
                    if k < ports.len() {
                        assert(crate::framework::units::ports_view(ports@)[k as int].0
                            == ports@[k as int].name@);
                        return Some(
                            join(self.hardware.units[u].name.as_str(), ports[k].name.as_str()),
                        );
                    }
                }
                None
            },
            Slot::UnitOut(u, k) => {
                if u < self.hardware.units.len() {
                    let ports: Vec<Port> = self.hardware.units[u].kind.outputs();
                    assert(crate::framework::units::ports_view(ports@).len() == ports@.len());
                    if k < ports.len() {
                        assert(crate::framework::units::ports_view(ports@)[k as int].0
                            == ports@[k as int].name@);
                        return Some(
                            join(self.hardware.units[u].name.as_str(), ports[k].name.as_str()),
                        );
                    }
                }
                None
            },
            Slot::Prev(s, f) => {
                if s < self.hardware.stages.len() {
                    if f < self.hardware.stages[s].fields.len() {
                        let name: String = join(
                            self.hardware.stages[s].name.as_str(),
                            self.hardware.stages[s].fields[f].name.as_str(),
                        );
                        return Some(join("prev", name.as_str()));
                    }
                }
                None
            },
            Slot::Next(s, f) => {
                if s < self.hardware.stages.len() {
                    if f < self.hardware.stages[s].fields.len() {
                        let name: String = join(
                            self.hardware.stages[s].name.as_str(),
                            self.hardware.stages[s].fields[f].name.as_str(),
                        );
                        return Some(join("next", name.as_str()));
                    }
                }
                None
            },
        }
    }
}

impl Expr {
    /// The constant `b`.
    pub fn flag(b: bool) -> (e: Expr)
        ensures
            e == Expr::Const(Value::Bool(b)),
    {
        Expr::Const(Value::Bool(b))
    }

    /// The constant byte `x`.
    pub fn byte(x: u8) -> (e: Expr)
        ensures
            e == Expr::Const(Value::U8(x)),
    {
        Expr::Const(Value::U8(x))
    }

    /// The constant word `x`.
    pub fn word(x: u64) -> (e: Expr)
        ensures
            e == Expr::Const(Value::U64(x)),
    {
        Expr::Const(Value::U64(x))
    }

    /// The constant status `s`.
    pub fn status(s: crate::isa::Stat) -> (e: Expr)
        ensures
            e == Expr::Const(Value::Stat(s)),
    {
        Expr::Const(Value::Stat(s))
    }

    /// Whether `self` is not true.
    pub fn negate(self) -> (e: Expr)
        ensures
            e == Expr::Not(Box::new(self)),
    {
        Expr::Not(Box::new(self))
    }

    /// Whether `self` and `other` are true.
    pub fn both(self, other: Expr) -> (e: Expr)
        ensures
            e == Expr::And(Box::new(self), Box::new(other)),
    {
        Expr::And(Box::new(self), Box::new(other))
    }

    /// Whether `self` or `other` is true.
    pub fn either(self, other: Expr) -> (e: Expr)
        ensures
            e == Expr::Or(Box::new(self), Box::new(other)),
    {
        Expr::Or(Box::new(self), Box::new(other))
    }

    /// Whether `self` and `other` have the same value.
    pub fn equals(self, other: Expr) -> (e: Expr)
        ensures
            e == Expr::Eq(Box::new(self), Box::new(other)),
    {
        Expr::Eq(Box::new(self), Box::new(other))
    }

    /// Whether `self` and `other` differ in value.
    pub fn differs(self, other: Expr) -> (e: Expr)
        ensures
            e == Expr::Ne(Box::new(self), Box::new(other)),
    {
        Expr::Ne(Box::new(self), Box::new(other))
    }

    /// Whether `self` has the value of one of the expressions in `list`.
    pub fn among(self, list: Vec<Expr>) -> (e: Expr)
        ensures
            e == Expr::In(Box::new(self), list),
    {
        Expr::In(Box::new(self), list)
    }

    /// Whether `self` is one of the bytes in `codes`.
    pub fn among_bytes(self, codes: &[u8]) -> (e: Expr)
        ensures
            e matches Expr::In(a, list) && *a == self && list@.len() == codes@.len() && forall|
                i: int,
            |
                0 <= i < codes@.len() ==> #[trigger] list@[i] == Expr::Const(Value::U8(codes@[i])),
    {
        let mut list: Vec<Expr> = Vec::new();
        let mut i: usize = 0;
        while i < codes.len()
            invariant
                i <= codes@.len(),
                list@.len() == i,
                forall|j: int|
                    0 <= j < i ==> #[trigger] list@[j] == Expr::Const(Value::U8(codes@[j])),
            decreases codes@.len() - i,
        {
            list.push(Expr::Const(Value::U8(codes[i])));
            i = i + 1;
        }
        Expr::In(Box::new(self), list)
    }
}

impl SignalSource {
    /// The source that is the single expression `expr`.
    pub fn of(expr: Expr) -> (source: SignalSource)
        ensures
            source == SignalSource::Expr(SignalSourceExpr { tunnel: None, expr }),
    {
        SignalSource::Expr(SignalSourceExpr { tunnel: None, expr })
    }

    /// A case table without cases.
    pub fn switch() -> (source: SignalSource)
        ensures
            source matches SignalSource::Switch(s) && s.0@.len() == 0,
    {
        SignalSource::Switch(SignalSwitch(Vec::new()))
    }

    /// Adds a case to a case table, after the cases that it has. A source
    /// that is an expression becomes a table whose first case is that
    /// expression, which always holds.
    pub fn case(self, condition: Expr, value: Expr) -> (source: SignalSource)
        ensures
            source is Switch,
            self matches SignalSource::Switch(old) ==> source matches SignalSource::Switch(new)
                && new.0@.len() == old.0@.len() + 1 && new.0@[old.0@.len() as int] == (Case {
                tunnel: None,
                condition,
                value,
            }) && forall|i: int| 0 <= i < old.0@.len() ==> new.0@[i] == old.0@[i],
    {
        self.tagged_case(None, condition, value)
    }

    /// Adds a case with a tunnel tag to a case table.
    pub fn tagged_case(self, tunnel: Option<String>, condition: Expr, value: Expr) -> (source:
        SignalSource)
        ensures
            source is Switch,
            self matches SignalSource::Switch(old) ==> source matches SignalSource::Switch(new)
                && new.0@.len() == old.0@.len() + 1 && new.0@[old.0@.len() as int] == (Case {
                tunnel,
                condition,
                value,
            }) && forall|i: int| 0 <= i < old.0@.len() ==> new.0@[i] == old.0@[i],
    {
        let mut cases: Vec<Case> = match self {
            SignalSource::Switch(switch) => switch.0,
            SignalSource::Expr(source) => {
                let mut cases: Vec<Case> = Vec::new();
                cases.push(
                    Case {
                        tunnel: source.tunnel,
                        condition: Expr::Const(Value::Bool(true)),
                        value: source.expr,
                    },
                );
                cases
            },
        };
        cases.push(Case { tunnel, condition, value });
        SignalSource::Switch(SignalSwitch(cases))
    }
}

impl HclData {
    /// Declares the signal `name` of type `typ`. Until it is defined, it has
    /// a case table without cases as its source, and so keeps the value that
    /// it has: at first the default of its type.
    pub fn declare(&mut self, name: &str, typ: SigType)
        ensures
            final(self).hardware == old(self).hardware,
            final(self).program_counter == old(self).program_counter,
            final(self).termination == old(self).termination,
            final(self).stage_alias == old(self).stage_alias,
            final(self).unresolved == old(self).unresolved,
            final(self).intermediate_signals@.len() == old(self).intermediate_signals@.len() + 1,
            forall|i: int|
                0 <= i < old(self).intermediate_signals@.len()
                    ==> final(self).intermediate_signals@[i] == old(self).intermediate_signals@[i],
            ({
                let def = final(self).intermediate_signals@[old(self).intermediate_signals@.len() as int];
                &&& def.name@ == name@
                &&& def.typ == typ
                &&& def.destinations@.len() == 0
                &&& def.source matches SignalSource::Switch(s) && s.0@.len() == 0
            }),
    {
        self.intermediate_signals.push(
            SignalDef {
                name: name.to_owned(),
                typ,
                source: SignalSource::Switch(SignalSwitch(Vec::new())),
                destinations: Vec::new(),
            },
        );
    }

    /// Notes that `name` was used and names nothing.
    fn miss(&mut self, name: String)
        ensures
            final(self).hardware == old(self).hardware,
            final(self).program_counter == old(self).program_counter,
            final(self).termination == old(self).termination,
            final(self).stage_alias == old(self).stage_alias,
            final(self).intermediate_signals == old(self).intermediate_signals,
            final(self).unresolved@ == old(self).unresolved@.push(name),
    {
        self.unresolved.push(name);
    }

    /// The expression that reads the signal `name`. Where there is no such
    /// signal, the name is noted as unresolved and the expression is the
    /// constant `false`.
    pub fn sig(&mut self, name: &str) -> (e: Expr)
        ensures
            final(self).hardware == old(self).hardware,
            final(self).program_counter == old(self).program_counter,
            final(self).termination == old(self).termination,
            final(self).stage_alias == old(self).stage_alias,
            final(self).intermediate_signals == old(self).intermediate_signals,
            match old(self).spec_resolve_signal(name@) {
                Some(slot) => e == Expr::Ref(slot)
                    && final(self).unresolved == old(self).unresolved,
                None => e == Expr::Const(Value::Bool(false))
                    && final(self).unresolved@.len() == old(self).unresolved@.len() + 1
                    && final(self).unresolved@.last()@ == name@,
            },
    {
        match self.resolve_signal(name) {
            Some(slot) => Expr::Ref(slot),
            None => {
                self.miss(name.to_owned());
                Expr::Const(Value::Bool(false))
            },
        }
    }

    /// The expression that reads `head.field`. Where the name stands for
    /// nothing, it is noted as unresolved and the expression is the constant
    /// `false`.
    pub fn get(&mut self, head: &str, field: &str) -> (e: Expr)
        ensures
            final(self).hardware == old(self).hardware,
            final(self).program_counter == old(self).program_counter,
            final(self).termination == old(self).termination,
            final(self).stage_alias == old(self).stage_alias,
            final(self).intermediate_signals == old(self).intermediate_signals,
            match old(self).spec_resolve(head@, field@) {
                Some(slot) => e == Expr::Ref(slot)
                    && final(self).unresolved == old(self).unresolved,
                None => e == Expr::Const(Value::Bool(false))
                    && final(self).unresolved@.len() == old(self).unresolved@.len() + 1
                    && final(self).unresolved@.last()@ == qualified(
                    head@,
                    field@,
                ),
            },
    {
        match self.resolve(head, field) {
            Some(slot) => Expr::Ref(slot),
            None => {
                self.miss(join(head, field));
                Expr::Const(Value::Bool(false))
            },
        }
    }

    /// Gives the signal `name` its source. Where there is no such signal,
    /// the name is noted as unresolved.
    pub fn define(&mut self, name: &str, source: SignalSource)
        ensures
            final(self).hardware == old(self).hardware,
            final(self).program_counter == old(self).program_counter,
            final(self).termination == old(self).termination,
            final(self).stage_alias == old(self).stage_alias,
            final(self).intermediate_signals@.len() == old(self).intermediate_signals@.len(),
            signal_names(final(self).intermediate_signals@) == signal_names(
                old(self).intermediate_signals@,
            ),
            ({
                let at = position(signal_names(old(self).intermediate_signals@), name@);
                if at < old(self).intermediate_signals@.len() {
                    &&& final(self).unresolved == old(self).unresolved
                    &&& final(self).intermediate_signals@[at].source == source
                    &&& final(self).intermediate_signals@[at].typ == old(self).intermediate_signals@[at].typ
                    &&& final(self).intermediate_signals@[at].destinations == old(self).intermediate_signals@[at].destinations
                    &&& forall|i: int|
                        0 <= i < old(self).intermediate_signals@.len() && i != at
                            ==> final(self).intermediate_signals@[i] == old(self).intermediate_signals@[i]
                } else {
                    &&& final(self).intermediate_signals == old(self).intermediate_signals
                    &&& final(self).unresolved@.len() == old(self).unresolved@.len() + 1
                    &&& final(self).unresolved@.last()@ == name@
                }
            }),
    {
        let at: usize = find_signal(&self.intermediate_signals, name);
        if at < self.intermediate_signals.len() {
            self.intermediate_signals[at].source = source;
            assert(signal_names(self.intermediate_signals@) =~= signal_names(
                old(self).intermediate_signals@,
            ));
        } else {
            self.miss(name.to_owned());
        }
    }

    /// Lets the signal `name` drive `head.field`: an input port of a unit or
    /// a field of a stage for the next cycle. A name that stands for no
    /// signal, or for nothing that can be driven, is noted as unresolved.
    pub fn drive(&mut self, name: &str, head: &str, field: &str)
        ensures
            final(self).hardware == old(self).hardware,
            final(self).program_counter == old(self).program_counter,
            final(self).termination == old(self).termination,
            final(self).stage_alias == old(self).stage_alias,
            final(self).intermediate_signals@.len() == old(self).intermediate_signals@.len(),
            signal_names(final(self).intermediate_signals@) == signal_names(
                old(self).intermediate_signals@,
            ),
            ({
                let at = position(signal_names(old(self).intermediate_signals@), name@);
                let slot = old(self).spec_resolve(head@, field@);
                if at < old(self).intermediate_signals@.len() && (slot matches Some(
                    Slot::UnitIn(_, _),
                ) || slot matches Some(Slot::Next(_, _))) {
                    &&& final(self).unresolved == old(self).unresolved
                    &&& final(self).intermediate_signals@[at].source == old(self).intermediate_signals@[at].source
                    &&& final(self).intermediate_signals@[at].typ == old(self).intermediate_signals@[at].typ
                    &&& final(self).intermediate_signals@[at].destinations@ == old(self).intermediate_signals@[at].destinations@.push(
                        SignalDest { tunnel: None, dest: slot->0 },
                    )
                    &&& forall|i: int|
                        0 <= i < old(self).intermediate_signals@.len() && i != at
                            ==> final(self).intermediate_signals@[i] == old(self).intermediate_signals@[i]
                } else {
                    &&& final(self).intermediate_signals == old(self).intermediate_signals
                    &&& final(self).unresolved@.len() == old(self).unresolved@.len() + 1
                }
            }),
    {
        self.drive_tagged(name, head, field, None);
    }

    /// Lets the signal `name` drive `head.field`, with a tunnel tag.
    pub fn drive_tagged(&mut self, name: &str, head: &str, field: &str, tunnel: Option<String>)
        ensures
            final(self).hardware == old(self).hardware,
            final(self).program_counter == old(self).program_counter,
            final(self).termination == old(self).termination,
            final(self).stage_alias == old(self).stage_alias,
            final(self).intermediate_signals@.len() == old(self).intermediate_signals@.len(),
            signal_names(final(self).intermediate_signals@) == signal_names(
                old(self).intermediate_signals@,
            ),
            ({
                let at = position(signal_names(old(self).intermediate_signals@), name@);
                let slot = old(self).spec_resolve(head@, field@);
                if at < old(self).intermediate_signals@.len() && (slot matches Some(
                    Slot::UnitIn(_, _),
                ) || slot matches Some(Slot::Next(_, _))) {
                    &&& final(self).unresolved == old(self).unresolved
                    &&& final(self).intermediate_signals@[at].source == old(self).intermediate_signals@[at].source
                    &&& final(self).intermediate_signals@[at].typ == old(self).intermediate_signals@[at].typ
                    &&& final(self).intermediate_signals@[at].destinations@ == old(self).intermediate_signals@[at].destinations@.push(
                        SignalDest { tunnel, dest: slot->0 },
                    )
                    &&& forall|i: int|
                        0 <= i < old(self).intermediate_signals@.len() && i != at
                            ==> final(self).intermediate_signals@[i] == old(self).intermediate_signals@[i]
                } else {
                    &&& final(self).intermediate_signals == old(self).intermediate_signals
                    &&& final(self).unresolved@.len() == old(self).unresolved@.len() + 1
                }
            }),
    {
        let at: usize = find_signal(&self.intermediate_signals, name);
        if at >= self.intermediate_signals.len() {
            self.miss(name.to_owned());
            return ;
        }
        match self.resolve(head, field) {
            Some(Slot::UnitIn(u, k)) => {
                self.intermediate_signals[at].destinations.push(
                    SignalDest { tunnel, dest: Slot::UnitIn(u, k) },
                );
                assert(signal_names(self.intermediate_signals@) =~= signal_names(
                    old(self).intermediate_signals@,
                ));
            },
            Some(Slot::Next(s, f)) => {
                self.intermediate_signals[at].destinations.push(
                    SignalDest { tunnel, dest: Slot::Next(s, f) },
                );
                assert(signal_names(self.intermediate_signals@) =~= signal_names(
                    old(self).intermediate_signals@,
                ));
            },
            _ => {
                self.miss(join(head, field));
            },
        }
    }
}

impl HclData {
    /// The names of the nodes of the first `k` of the given slots; a slot
    /// that the description does not have is passed over.
    pub open spec fn node_names_upto(&self, slots: Seq<Slot>, k: int) -> Seq<Name>
        decreases k,
    {
        if k <= 0 || k > slots.len() {
            Seq::empty()
        } else {
            match self.spec_slot_name(slots[k - 1]) {
                Some(name) => self.node_names_upto(slots, k - 1).push(name),
                None => self.node_names_upto(slots, k - 1),
            }
        }
    }

    /// The graph in which the signal `signal` drives the first `k` of the
    /// given destinations.
    pub open spec fn with_driven_upto(
        &self,
        g: Graph,
        signal: Name,
        dests: Seq<SignalDest>,
        k: int,
    ) -> Graph
        decreases k,
    {
        if k <= 0 || k > dests.len() {
            g
        } else {
            match self.spec_slot_name(dests[k - 1].dest) {
                Some(name) => self.with_driven_upto(g, signal, dests, k - 1).with_rev_deps(
                    signal,
                    name,
                ),
                None => self.with_driven_upto(g, signal, dests, k - 1),
            }
        }
    }

    /// The graph with the first `k` signals: each reads what its source
    /// reads, and drives its destinations.
    pub open spec fn with_signals_upto(&self, g: Graph, k: int) -> Graph
        decreases k,
    {
        if k <= 0 || k > self.intermediate_signals@.len() {
            g
        } else {
            let def = self.intermediate_signals@[k - 1];
            let refs = def.source.refs();
            self.with_driven_upto(
                self.with_signals_upto(g, k - 1).with_update(
                    def.name@,
                    self.node_names_upto(refs, refs.len() as int),
                ),
                def.name@,
                def.destinations@,
                def.destinations@.len() as int,
            )
        }
    }

    /// The dataflow graph of the description: the hardware with its ports
    /// and stage fields, and the signals with what they read and drive.
    pub open spec fn graph(&self) -> Graph {
        self.with_signals_upto(
            self.hardware.setup(
                Graph {
                    runnable: Seq::empty(),
                    unit_nodes: Seq::empty(),
                    nodes: Seq::empty(),
                    edges: Seq::empty(),
                    stage_units: Seq::empty(),
                    input_ports: Seq::empty(),
                    deps: Seq::empty(),
                    rev_deps: Seq::empty(),
                    abbrs: Seq::empty(),
                    output_prefix: output_prefix(),
                    input_prefix: input_prefix(),
                },
            ),
            self.intermediate_signals@.len() as int,
        )
    }

    /// What building the description gives, but for the circuit itself: the
    /// evaluation order, or the first reason why there is none. A name that
    /// stands for nothing is reported first, then a missing program counter,
    /// then a missing termination signal, then what the dataflow graph
    /// lacks.
    pub open spec fn spec_order(&self) -> Result<Seq<(bool, Name)>, HclFailure> {
        if self.unresolved@.len() > 0 {
            Err(HclFailure::Unresolved(self.unresolved@[0]@))
        } else if !signal_names(self.intermediate_signals@).contains(self.program_counter@) {
            Err(HclFailure::MissingProgramCounter)
        } else if !signal_names(self.intermediate_signals@).contains(self.termination@) {
            Err(HclFailure::MissingTermination)
        } else {
            match self.graph().spec_build() {
                Ok(order) => Ok(order),
                Err(e) => Err(HclFailure::Build(e)),
            }
        }
    }

    /// The names of the nodes of the given slots.
    fn node_names(&self, slots: &Vec<Slot>) -> (names: Vec<String>)
        ensures
            names_of(names@) == self.node_names_upto(slots@, slots@.len() as int),
    {
        let mut names: Vec<String> = Vec::new();
        let mut k: usize = 0;
        while k < slots.len()
            invariant
                k <= slots@.len(),
                names_of(names@) == self.node_names_upto(slots@, k as int),
            decreases slots@.len() - k,
        {
            let ghost before = names_of(names@);
            match self.slot_name(slots[k]) {
                Some(name) => {
                    names.push(name);
                    assert(names_of(names@) =~= before.push(name@));
                },
                None => {},
            }
            k = k + 1;
        }
        names
    }

    /// Whether `res` is what building the description gives: the
    /// architecture with the evaluation order of the description, the
    /// updates of its signals and the positions of the two signals that a
    /// simulator watches, or the first reason why there is none.
    pub open spec fn builds(self, res: Result<Architecture, HclError>) -> bool {
        match res {
            Ok(arch) => {
                &&& self.spec_order() == Ok::<Seq<(bool, Name)>, HclFailure>(
                    arch.circuit.order@,
                )
                &&& arch.hardware == self.hardware
                &&& arch.circuit.updates.updates@.len() == self.intermediate_signals@.len()
                &&& forall|i: int|
                    0 <= i < self.intermediate_signals@.len() ==> (
                    #[trigger] arch.circuit.updates.updates@[i]).0@
                        == self.intermediate_signals@[i].name@
                        && arch.circuit.updates.updates@[i].1 == self.intermediate_signals@[i]
                &&& update_names(arch.circuit.updates.updates@).no_duplicates()
                &&& arch.program_counter == position(
                    signal_names(self.intermediate_signals@),
                    self.program_counter@,
                )
                &&& arch.termination == position(
                    signal_names(self.intermediate_signals@),
                    self.termination@,
                )
                &&& self.graph().wf()
                &&& crate::framework::order_laws::names_differ(arch.circuit.order@)
                &&& forall|x: (bool, Name)|
                    arch.circuit.order@.contains(x) <==> self.graph().runnable.contains(x)
                &&& forall|p: int, q: int|
                    0 <= p < q < arch.circuit.order@.len()
                        && crate::framework::propagate::is_stage_entry(
                        arch.circuit.order@[p],
                        self.graph().stage_units,
                    ) ==> crate::framework::propagate::is_stage_entry(
                        arch.circuit.order@[q],
                        self.graph().stage_units,
                    )
            },
            Err(e) => self.spec_order() == Err::<Seq<(bool, Name)>, HclFailure>(e@),
        }
    }

    /// Builds the architecture that the description describes: computes the
    /// evaluation order of its dataflow graph and makes the updates of its
    /// signals the updates of the circuit.
    pub fn build(self) -> (res: Result<Architecture, HclError>)
        ensures
            self.builds(res),
    {
        if self.unresolved.len() > 0 {
            return Err(HclError::Unresolved(self.unresolved[0].clone()));
        }
        let program_counter: usize = find_signal(
            &self.intermediate_signals,
            self.program_counter.as_str(),
        );
        if program_counter >= self.intermediate_signals.len() {
            return Err(HclError::MissingProgramCounter);
        }
        let termination: usize = find_signal(&self.intermediate_signals, self.termination.as_str());
        if termination >= self.intermediate_signals.len() {
            return Err(HclError::MissingTermination);
        }
        proof {
            reveal_strlit("prev");
            reveal_strlit("next");
        }
        let mut builder = PropOrderBuilder::new("prev", "next");
        self.hardware.hardware_setup(&mut builder);
        let ghost base = builder@;
        let mut k: usize = 0;
        while k < self.intermediate_signals.len()
            invariant
                k <= self.intermediate_signals@.len(),
                builder@.wf(),
                builder@ == self.with_signals_upto(base, k as int),
            decreases self.intermediate_signals@.len() - k,
        {
            let def = &self.intermediate_signals[k];
            let refs: Vec<Slot> = def.source.lvalues();
            let deps: Vec<String> = self.node_names(&refs);
            builder.add_update(def.name.as_str(), deps);
            let ghost start = builder@;
            let mut d: usize = 0;
            while d < def.destinations.len()
                invariant
                    d <= def.destinations@.len(),
                    builder@.wf(),
                    builder@ == self.with_driven_upto(
                        start,
                        def.name@,
                        def.destinations@,
                        d as int,
                    ),
                decreases def.destinations@.len() - d,
            {
                match self.slot_name(def.destinations[d].dest) {
                    Some(name) => {
                        builder.add_rev_deps(def.name.as_str(), name.as_str());
                    },
                    None => {},
                }
                d = d + 1;
            }
            k = k + 1;
        }
        let ghost graph = builder@;
        match builder.build() {
            Err(e) => Err(HclError::Build(e)),
            Ok(order) => {
                proof {
                    crate::framework::order_laws::lemma_order_runs_everything_once(graph);
                }
                let HclData { hardware, intermediate_signals, .. } = self;
                let mut signals: Vec<SignalDef> = intermediate_signals;
                let mut circuit = PropCircuit::new(order);
                let ghost all = signals@;
                proof {
                    crate::hcl::laws::lemma_one_producer(self);
                }
                while signals.len() > 0
                    invariant
                        circuit.order == order,
                        signal_names(all).no_duplicates(),
                        update_names(circuit.updates.updates@).no_duplicates(),
                        circuit.updates.updates@.len() + signals@.len() == all.len(),
                        forall|i: int|
                            0 <= i < circuit.updates.updates@.len() ==> (
                            #[trigger] circuit.updates.updates@[i]).0@ == all[i].name@
                                && circuit.updates.updates@[i].1 == all[i],
                        forall|i: int|
                            0 <= i < signals@.len() ==> #[trigger] signals@[i] == all[
                                circuit.updates.updates@.len() + i],
                    decreases signals@.len(),
                {
                    let def: SignalDef = signals.remove(0);
                    let name: String = def.name.clone();
                    proof {
                        let done = circuit.updates.updates@.len() as int;
                        let names = update_names(circuit.updates.updates@);
                        lemma_position(names, name@);
                        if names.contains(name@) {
                            let j = choose|j: int| 0 <= j < names.len() && names[j] == name@;
                            assert(signal_names(all)[j] == signal_names(all)[done]);
                        }
                    }
                    circuit.add_update(name.as_str(), def);
                }
                Ok(Architecture { hardware, circuit, program_counter, termination })
            },
        }
    }
}

} // verus!
