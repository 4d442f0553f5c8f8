//! The circuit of an architecture: the updates of its signals and the order
//! of evaluation, and the propagator that carries the signals of one cycle
//! through them.
use vstd::prelude::*;
use crate::framework::names::{lemma_position, position, Name};
use crate::framework::propagate::{PropOrder, Tracer};
use crate::framework::schema::{latch, latched, rows_view, Signals, StageField, Wires};
use crate::framework::units::{unit_outputs, unit_state, Machine, UnitKind, Units};
use crate::hcl::SignalDef;
use crate::signal::Value;

verus! {

/// The updates of the signals of an architecture, each under the name of its
/// signal. The update at position `i` is that of the intermediate signal
/// `i`.
#[derive(Debug)]
pub struct PropUpdates {
    pub updates: Vec<(String, SignalDef)>,
}

/// The names of the updates.
pub open spec fn update_names(updates: Seq<(String, SignalDef)>) -> Seq<Name> {
    Seq::new(updates.len(), |i: int| updates[i].0@)
}

/// The combinational logic of an architecture: the updates of its signals
/// and the order in which units and signals are evaluated.
#[derive(Debug)]
pub struct PropCircuit {
    pub updates: PropUpdates,
    pub order: PropOrder,
}

impl PropCircuit {
    /// A circuit with the given order and no updates yet.
    pub fn new(order: PropOrder) -> (circuit: PropCircuit)
        ensures
            circuit.order == order,
            circuit.updates.updates@.len() == 0,
            update_names(circuit.updates.updates@).no_duplicates(),
    {
        PropCircuit { updates: PropUpdates { updates: Vec::new() }, order }
    }

    /// Binds an update to the name of its signal. An update reads outputs of
    /// units, stage fields and other signals, and drives its signal, inputs
    /// of units and stage fields for the next cycle.
    ///
    /// A name has one update: where the name has an update already, the new
    /// one takes its place; else it is the update of the next signal. The
    /// other updates and the order stay as they are.
    pub fn add_update(&mut self, name: &str, update: SignalDef)
        ensures
            final(self).order == old(self).order,
            ({
                let before = old(self).updates.updates@;
                let after = final(self).updates.updates@;
                let at = position(update_names(before), name@);
                &&& after.len() == (if at < before.len() {
                    before.len()
                } else {
                    before.len() + 1
                })
                &&& after[at].0@ == name@
                &&& after[at].1 == update
                &&& forall|i: int| 0 <= i < before.len() && i != at ==> after[i] == before[i]
                &&& position(update_names(after), name@) == at
                &&& update_names(before).no_duplicates() ==> update_names(after).no_duplicates()
                    && forall|i: int|
                    0 <= i < after.len() && (#[trigger] after[i]).0@ == name@ ==> i == at
            }),
    {
        let at: usize = find_update(&self.updates.updates, name);
        let ghost before = self.updates.updates@;
        let ghost given = name@;
        proof {
            lemma_position(update_names(before), name@);
        }
        if at < self.updates.updates.len() {
            self.updates.updates[at] = (name.to_owned(), update);
            assert(update_names(self.updates.updates@) =~= update_names(before));
            proof {
                let after = self.updates.updates@;
                if update_names(before).no_duplicates() {
                    assert forall|i: int|
                        0 <= i < after.len() && (#[trigger] after[i]).0@ == given implies i
                        == at by {
                        assert(update_names(after)[i] == update_names(after)[at as int]);
                    }
                }
            }
        } else {
            self.updates.updates.push((name.to_owned(), update));
            let ghost after = self.updates.updates@;
            proof {
                assert(update_names(after) =~= update_names(before).push(name@));
                lemma_position(update_names(after), name@);
                assert(update_names(after)[at as int] == name@);
                if update_names(before).no_duplicates() {
                    assert forall|i: int, j: int|
                        0 <= i < update_names(after).len() && 0 <= j < update_names(after).len()
                            && i != j implies update_names(after)[i] != update_names(after)[j] by {
                        if i < before.len() && j < before.len() {
                            assert(update_names(before)[i] != update_names(before)[j]);
                        } else if i < before.len() {
                            assert(update_names(before)[i] != name@);
                        } else {
                            assert(update_names(before)[j] != name@);
                        }
                    }
                    assert forall|i: int|
                        0 <= i < after.len() && (#[trigger] after[i]).0@ == given implies i
                        == at by {
                        assert(update_names(after)[i] == update_names(after)[at as int]);
                    }
                }
            }
        }
    }
}

/// The signals after the functional unit at position `unit` has run: its
/// outputs are what a unit of kind `kind` gives for its inputs. Where the
/// records have no such unit, nothing changes.
pub open spec fn unit_ran(wires: Wires, machine: Machine, unit: int, kind: UnitKind) -> Wires {
    if 0 <= unit < wires.unit_in.len() && unit < wires.unit_out.len() {
        Wires {
            unit_out: wires.unit_out.update(
                unit,
                unit_outputs(kind, wires.unit_in[unit], machine),
            ),
            ..wires
        }
    } else {
        wires
    }
}

/// The state of the machine after the functional unit at position `unit`
/// has run.
pub open spec fn machine_ran(wires: Wires, machine: Machine, unit: int, kind: UnitKind) -> Machine {
    if 0 <= unit < wires.unit_in.len() && unit < wires.unit_out.len() {
        unit_state(kind, wires.unit_in[unit], machine)
    } else {
        machine
    }
}

/// The signals after the stage register at position `stage` has applied its
/// controls, or nothing where it is bubbled and stalled at once. Where the
/// records have no such stage, nothing changes.
pub open spec fn stage_ran(wires: Wires, stage: int, fields: Seq<StageField>) -> Option<Wires> {
    if 0 <= stage < wires.cur_state.len() && stage < wires.nex_state.len() {
        match latched(fields, wires.cur_state[stage], wires.nex_state[stage]) {
            Some(row) => Some(Wires { nex_state: wires.nex_state.update(stage, row), ..wires }),
            None => None,
        }
    } else {
        Some(wires)
    }
}

/// The signals after the update at position `index` has run. Where there is
/// no such update, nothing changes.
pub open spec fn update_ran(updates: Seq<(String, SignalDef)>, wires: Wires, index: int) -> Wires {
    if 0 <= index < updates.len() {
        updates[index].1.updated(index as usize, wires)
    } else {
        wires
    }
}

/// The tunnels after the update at position `index` has run.
pub open spec fn update_traced(
    updates: Seq<(String, SignalDef)>,
    wires: Wires,
    tunnels: Seq<Name>,
    index: int,
) -> Seq<Name> {
    if 0 <= index < updates.len() {
        updates[index].1.traced(wires, tunnels)
    } else {
        tunnels
    }
}

/// Carries the signals of one cycle through the circuit.
pub struct Propagator<'a> {
    pub signals: Signals,
    pub updates: &'a PropUpdates,
    pub tracer: Tracer,
}

impl PropUpdates {
    /// A propagator that starts from the given signals, with no tunnel
    /// fired.
    pub fn make_propagator<'a>(&'a self, signals: Signals) -> (propagator: Propagator<'a>)
        ensures
            propagator.signals == signals,
            propagator.updates == self,
            propagator.tracer@ == Seq::<Name>::empty(),
    {
        Propagator { signals, updates: self, tracer: Tracer::default() }
    }
}

impl<'a> Propagator<'a> {
    /// Runs the update at position `index`. The answer is whether there is
    /// one.
    pub fn run_update(&mut self, index: usize) -> (found: bool)
        ensures
            found == (index < old(self).updates.updates@.len()),
            final(self).updates == old(self).updates,
            final(self).signals@ == update_ran(
                old(self).updates.updates@,
                old(self).signals@,
                index as int,
            ),
            final(self).tracer@ == update_traced(
                old(self).updates.updates@,
                old(self).signals@,
                old(self).tracer@,
                index as int,
            ),
    {
        if index < self.updates.updates.len() {
            self.updates.updates[index].1.update(index, &mut self.signals, &mut self.tracer);
            true
        } else {
            false
        }
    }

    /// Runs the update of the signal `name`. The answer is whether there is
    /// one.
    pub fn run_combinatorial_logic(&mut self, name: &str) -> (found: bool)
        ensures
            found == update_names(old(self).updates.updates@).contains(name@),
            final(self).updates == old(self).updates,
            final(self).signals@ == update_ran(
                old(self).updates.updates@,
                old(self).signals@,
                crate::framework::names::position(update_names(old(self).updates.updates@), name@),
            ),
            final(self).tracer@ == update_traced(
                old(self).updates.updates@,
                old(self).signals@,
                old(self).tracer@,
                crate::framework::names::position(update_names(old(self).updates.updates@), name@),
            ),
    {
        let index: usize = find_update(&self.updates.updates, name);
        proof {
            crate::framework::names::lemma_position(update_names(self.updates.updates@), name@);
        }
        self.run_update(index)
    }

    /// Runs the functional unit at position `unit` as a unit of kind `kind`:
    /// it reads its inputs and gives its outputs, and may change the state
    /// of the machine.
    pub fn run_unit(&mut self, units: &mut Units, unit: usize, kind: UnitKind)
        ensures
            final(self).updates == old(self).updates,
            final(self).tracer == old(self).tracer,
            final(self).signals@ == unit_ran(old(self).signals@, old(units)@, unit as int, kind),
            final(units)@ == machine_ran(old(self).signals@, old(units)@, unit as int, kind),
    {
        if unit < self.signals.unit_in.len() && unit < self.signals.unit_out.len() {
            let outs: Vec<Value> = units.run(kind, &self.signals.unit_in[unit]);
            self.signals.unit_out[unit] = outs;
            assert(rows_view(self.signals.unit_out@) =~= rows_view(
                old(self).signals.unit_out@,
            ).update(unit as int, outs@));
        }
    }

    /// Lets the stage register at position `stage` apply its controls. The
    /// answer is whether it could: a stage that is bubbled and stalled at
    /// once cannot, and the signals stay as they are.
    pub fn run_stage(&mut self, stage: usize, fields: &Vec<StageField>) -> (done: bool)
        ensures
            final(self).updates == old(self).updates,
            final(self).tracer == old(self).tracer,
            done == (stage_ran(old(self).signals@, stage as int, fields@) is Some),
            done ==> Some(final(self).signals@) == stage_ran(
                old(self).signals@,
                stage as int,
                fields@,
            ),
            !done ==> final(self).signals@ == old(self).signals@,
    {
        if stage < self.signals.cur_state.len() && stage < self.signals.nex_state.len() {
            match latch(fields, &self.signals.cur_state[stage], &self.signals.nex_state[stage]) {
                Some(row) => {
                    self.signals.nex_state[stage] = row;
                    assert(rows_view(self.signals.nex_state@) =~= rows_view(
                        old(self).signals.nex_state@,
                    ).update(stage as int, row@));
                    true
                },
                None => false,
            }
        } else {
            true
        }
    }

    /// The current signals.
    pub fn signals(&self) -> (signals: &Signals)
        ensures
            *signals == self.signals,
    {
        &self.signals
    }

    /// Takes the outputs of all units over from a record.
    pub fn update_from_unit_out(&mut self, unit_out: Vec<Vec<Value>>)
        ensures
            final(self).updates == old(self).updates,
            final(self).tracer == old(self).tracer,
            final(self).signals@ == (Wires { unit_out: rows_view(unit_out@), ..old(self).signals@ }),
    {
        self.signals.unit_out = unit_out;
    }

    /// Ends the cycle: gives the signals and the tunnels that fired.
    pub fn finalize(self) -> (res: (Signals, Tracer))
        ensures
            res.0 == self.signals,
            res.1 == self.tracer,
    {
        (self.signals, self.tracer)
    }
}

/// The position of the update named `name`, or the number of updates where
/// there is none.
pub fn find_update(updates: &Vec<(String, SignalDef)>, name: &str) -> (at: usize)
    ensures
        at == crate::framework::names::position(update_names(updates@), name@),
        at <= updates@.len(),
{
    let key: String = name.to_owned();
    let ghost names = update_names(updates@);
    let mut i: usize = 0;
    while i < updates.len()
        invariant
            i <= updates@.len(),
            key@ == name@,
            names == update_names(updates@),
            crate::framework::names::position_upto(names, name@, i as int) == i,
        decreases updates@.len() - i,
    {
        if updates[i].0 == key {
            proof {
                assert(names[i as int] == name@);
                crate::framework::names::lemma_position_rest(
                    names,
                    name@,
                    i as int + 1,
                    names.len() as int,
                );
            }
            return i;
        }
        i = i + 1;
    }
    i
}

} // verus!
