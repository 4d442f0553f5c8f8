//! The simulator driver: it owns the signals and the state of a machine and
//! runs the circuit of an architecture cycle by cycle.
use vstd::prelude::*;
use crate::framework::circuit::{
    machine_ran, stage_ran, unit_ran, update_ran, update_traced, PropCircuit, Propagator,
};
use crate::framework::names::{names_of, position, Name};
use crate::framework::propagate::Tracer;
use crate::framework::schema::{
    default_fields, default_row, field_defaults, find_stage, find_unit, port_defaults, rows_view,
    stage_names, unit_names, Hardware, Signals, Wires,
};
use crate::framework::units::{Machine, Port, Units};
use crate::framework::MemData;
use crate::hcl::{signal_names, Architecture, SignalDef};
use crate::isa::Stat;
use crate::signal::{SigType, Value};
use crate::utils::{show_bytes, show_value, shown_bytes_upto, shown_value};

verus! {

/// One entry of the evaluation order, by position: a functional unit, a
/// stage register, or the update of a signal.
#[derive(Debug, Clone, Copy, PartialEq, Eq, Structural)]
pub enum Step {
    Unit(usize),
    Stage(usize),
    Update(usize),
    /// An entry whose name names nothing; it does nothing.
    Idle,
}

/// Where a simulator stands within a cycle.
#[derive(Debug, Clone, Copy, PartialEq, Eq, Structural)]
pub enum CpuStatus {
    /// The stage registers hold the state for a cycle that has not been
    /// computed yet.
    CycleStart,
    /// The signals of the cycle have been propagated; the stage registers
    /// have not taken their next state yet.
    CycleEnd,
}

/// A fatal error of the simulation.
#[derive(Debug, PartialEq, Eq)]
pub enum SimError {
    /// The stage register of this name was bubbled and stalled at once.
    BubbleAndStall(String),
}

/// What a cycle has come to: the signals, the state of the machine, the
/// tunnels that fired, and the stage register that was bubbled and stalled
/// at once, if there was one. Once a stage has clashed, the cycle is over.
pub struct Cycle {
    pub wires: Wires,
    pub machine: Machine,
    pub tunnels: Seq<Name>,
    pub clash: Option<int>,
}

/// The cycle after one step of the evaluation order.
pub open spec fn step_ran(
    hardware: Hardware,
    updates: Seq<(String, SignalDef)>,
    step: Step,
    c: Cycle,
) -> Cycle {
    if c.clash is Some {
        c
    } else {
        match step {
            Step::Unit(u) => if u < hardware.units@.len() {
                Cycle {
                    wires: unit_ran(c.wires, c.machine, u as int, hardware.units@[u as int].kind),
                    machine: machine_ran(
                        c.wires,
                        c.machine,
                        u as int,
                        hardware.units@[u as int].kind,
                    ),
                    ..c
                }
            } else {
                c
            },
            Step::Stage(s) => if s < hardware.stages@.len() {
                match stage_ran(c.wires, s as int, hardware.stages@[s as int].fields@) {
                    Some(wires) => Cycle { wires, ..c },
                    None => Cycle { clash: Some(s as int), ..c },
                }
            } else {
                c
            },
            Step::Update(i) => Cycle {
                wires: update_ran(updates, c.wires, i as int),
                tunnels: update_traced(updates, c.wires, c.tunnels, i as int),
                ..c
            },
            Step::Idle => c,
        }
    }
}

/// The cycle after the first `k` steps of a plan.
pub open spec fn plan_ran_upto(
    hardware: Hardware,
    updates: Seq<(String, SignalDef)>,
    plan: Seq<Step>,
    c: Cycle,
    k: int,
) -> Cycle
    decreases k,
{
    if k <= 0 || k > plan.len() {
        c
    } else {
        step_ran(hardware, updates, plan[k - 1], plan_ran_upto(hardware, updates, plan, c, k - 1))
    }
}

/// The step that an entry of the evaluation order stands for: a functional
/// unit or a stage register by the position of its name among the units or
/// stages, an update by the position of its name among the signals.
pub open spec fn step_of(
    hardware: Hardware,
    updates: Seq<(String, SignalDef)>,
    entry: (bool, Name),
) -> Step {
    let unit = position(unit_names(hardware.units@), entry.1);
    let stage = position(stage_names(hardware.stages@), entry.1);
    let update = position(crate::framework::circuit::update_names(updates), entry.1);
    if entry.0 {
        if unit < hardware.units@.len() {
            Step::Unit(unit as usize)
        } else if stage < hardware.stages@.len() {
            Step::Stage(stage as usize)
        } else {
            Step::Idle
        }
    } else if update < updates.len() {
        Step::Update(update as usize)
    } else {
        Step::Idle
    }
}

/// The signals of a machine before its first cycle: every port and signal
/// at the default of its type, every stage field at its own default.
pub open spec fn fresh_wires(hardware: Hardware, updates: Seq<(String, SignalDef)>) -> Wires {
    Wires {
        unit_in: Seq::new(
            hardware.units@.len(),
            |u: int| port_defaults(hardware.units@[u].kind.spec_inputs()),
        ),
        unit_out: Seq::new(
            hardware.units@.len(),
            |u: int| port_defaults(hardware.units@[u].kind.spec_outputs()),
        ),
        inter: Seq::new(updates.len(), |i: int| Value::spec_default_of(updates[i].1.typ)),
        cur_state: Seq::new(
            hardware.stages@.len(),
            |s: int| field_defaults(hardware.stages@[s].fields@),
        ),
        nex_state: Seq::new(
            hardware.stages@.len(),
            |s: int| field_defaults(hardware.stages@[s].fields@),
        ),
    }
}

/// A copy of a record of records.
pub fn copy_rows(rows: &Vec<Vec<Value>>) -> (copy: Vec<Vec<Value>>)
    ensures
        rows_view(copy@) == rows_view(rows@),
{
    let mut copy: Vec<Vec<Value>> = Vec::new();
    let mut i: usize = 0;
    while i < rows.len()
        invariant
            i <= rows@.len(),
            copy@.len() == i,
            forall|j: int| 0 <= j < i ==> (#[trigger] copy@[j])@ == rows@[j]@,
        decreases rows@.len() - i,
    {
        let mut row: Vec<Value> = Vec::new();
        let mut k: usize = 0;
        while k < rows[i].len()
            invariant
                i < rows@.len(),
                k <= rows@[i as int]@.len(),
                row@.len() == k,
                forall|j: int| 0 <= j < k ==> #[trigger] row@[j] == rows@[i as int]@[j],
            decreases rows@[i as int]@.len() - k,
        {
            row.push(rows[i][k]);
            k = k + 1;
        }
        assert(row@ =~= rows@[i as int]@);
        copy.push(row);
        i = i + 1;
    }
    assert(rows_view(copy@) =~= rows_view(rows@));
    copy
}

/// The pipeline simulator. A processor is made of stage registers and of
/// combinational logic between them.
///
/// - Combinational logic leads from the stage registers as a cycle finds
///   them, through unit inputs, signals and unit outputs, to the state that
///   is driven for the next cycle.
/// - The clock tick takes that state, as the stage controls allow, over into
///   the stage registers.
pub struct PipeSim {
    pub circuit: PropCircuit,
    pub hardware: Hardware,
    /// The evaluation order of the circuit, by positions.
    pub plan: Vec<Step>,
    /// The position of the signal that holds the program counter.
    pub program_counter: usize,
    /// The position of the signal that tells that the program has ended.
    pub termination: usize,
    pub signals: Signals,
    pub units: Units,
    /// Whether the program has ended.
    pub terminate: bool,
    /// Whether the caller wants the state printed after each cycle.
    pub tty_out: bool,
    pub cycle_count: u64,
    /// The tunnels that fired in the last cycle.
    pub tracer: Tracer,
    pub status: CpuStatus,
}

impl PipeSim {
    /// Whether the simulator is as it is set up for an architecture on the
    /// given memory: it holds the circuit, every signal has its default,
    /// the registers and the condition codes are cleared, and no cycle has
    /// run.
    pub open spec fn set_up(self, arch: Architecture, memory: Seq<u8>, tty_out: bool) -> bool {
        &&& self.circuit == arch.circuit
        &&& self.hardware == arch.hardware
        &&& self.program_counter == arch.program_counter
        &&& self.termination == arch.termination
        &&& self.plan@.len() == arch.circuit.order@.len()
        &&& forall|k: int|
            0 <= k < self.plan@.len() ==> #[trigger] self.plan@[k] == step_of(
                arch.hardware,
                arch.circuit.updates.updates@,
                arch.circuit.order@[k],
            )
        &&& self.signals@ == fresh_wires(arch.hardware, arch.circuit.updates.updates@)
        &&& self.units@.mem == memory
        &&& self.units@.regs == Seq::new(16, |i: int| 0u64)
        &&& !self.units@.cc.sf && !self.units@.cc.of && !self.units@.cc.zf
        &&& !self.terminate
        &&& self.tty_out == tty_out
        &&& self.cycle_count == 0
        &&& self.tracer@ == Seq::<Name>::empty()
        &&& self.status == CpuStatus::CycleStart
    }

    /// Sets up the simulator of an architecture on the given memory.
    pub fn new(arch: Architecture, memory: MemData, tty_out: bool) -> (sim: PipeSim)
        ensures
            sim.set_up(arch, memory@, tty_out),
    {
        let Architecture { hardware, circuit, program_counter, termination } = arch;
        let mut plan: Vec<Step> = Vec::new();
        let mut k: usize = 0;
        while k < circuit.order.order.len()
            invariant
                k <= circuit.order.order@.len(),
                plan@.len() == k,
                forall|j: int|
                    0 <= j < k ==> #[trigger] plan@[j] == step_of(
                        hardware,
                        circuit.updates.updates@,
                        circuit.order@[j],
                    ),
            decreases circuit.order.order@.len() - k,
        {
            let is_unit: bool = circuit.order.order[k].0;
            let name = circuit.order.order[k].1.as_str();
            assert(circuit.order@[k as int] == (is_unit, name@));
            let step: Step = if is_unit {
                let unit: usize = find_unit(&hardware.units, name);
                let stage: usize = find_stage(&hardware.stages, name);
                if unit < hardware.units.len() {
                    Step::Unit(unit)
                } else if stage < hardware.stages.len() {
                    Step::Stage(stage)
                } else {
                    Step::Idle
                }
            } else {
                let update: usize = crate::framework::circuit::find_update(
                    &circuit.updates.updates,
                    name,
                );
                if update < circuit.updates.updates.len() {
                    Step::Update(update)
                } else {
                    Step::Idle
                }
            };
            plan.push(step);
            k = k + 1;
        }
        let mut unit_in: Vec<Vec<Value>> = Vec::new();
        let mut unit_out: Vec<Vec<Value>> = Vec::new();
        let mut u: usize = 0;
        while u < hardware.units.len()
            invariant
                u <= hardware.units@.len(),
                unit_in@.len() == u,
                unit_out@.len() == u,
                forall|j: int|
                    0 <= j < u ==> (#[trigger] unit_in@[j])@ == port_defaults(
                        hardware.units@[j].kind.spec_inputs(),
                    ),
                forall|j: int|
                    0 <= j < u ==> (#[trigger] unit_out@[j])@ == port_defaults(
                        hardware.units@[j].kind.spec_outputs(),
                    ),
            decreases hardware.units@.len() - u,
        {
            let inputs: Vec<Port> = hardware.units[u].kind.inputs();
            let outputs: Vec<Port> = hardware.units[u].kind.outputs();
            unit_in.push(default_row(&inputs));
            unit_out.push(default_row(&outputs));
            u = u + 1;
        }
        let mut inter: Vec<Value> = Vec::new();
        let mut i: usize = 0;
        while i < circuit.updates.updates.len()
            invariant
                i <= circuit.updates.updates@.len(),
                inter@.len() == i,
                forall|j: int|
                    0 <= j < i ==> #[trigger] inter@[j] == Value::spec_default_of(
                        circuit.updates.updates@[j].1.typ,
                    ),
            decreases circuit.updates.updates@.len() - i,
        {
            inter.push(Value::default_of(circuit.updates.updates[i].1.typ));
            i = i + 1;
        }
        let mut cur_state: Vec<Vec<Value>> = Vec::new();
        let mut nex_state: Vec<Vec<Value>> = Vec::new();
        let mut s: usize = 0;
        while s < hardware.stages.len()
            invariant
                s <= hardware.stages@.len(),
                cur_state@.len() == s,
                nex_state@.len() == s,
                forall|j: int|
                    0 <= j < s ==> (#[trigger] cur_state@[j])@ == field_defaults(
                        hardware.stages@[j].fields@,
                    ),
                forall|j: int|
                    0 <= j < s ==> (#[trigger] nex_state@[j])@ == field_defaults(
                        hardware.stages@[j].fields@,
                    ),
            decreases hardware.stages@.len() - s,
        {
            cur_state.push(default_fields(&hardware.stages[s].fields));
            nex_state.push(default_fields(&hardware.stages[s].fields));
            s = s + 1;
        }
        let signals = Signals { unit_in, unit_out, inter, cur_state, nex_state };
        proof {
            let fresh = fresh_wires(hardware, circuit.updates.updates@);
            assert(signals@.unit_in =~= fresh.unit_in);
            assert(signals@.unit_out =~= fresh.unit_out);
            assert(signals@.inter =~= fresh.inter);
            assert(signals@.cur_state =~= fresh.cur_state);
            assert(signals@.nex_state =~= fresh.nex_state);
        }
        PipeSim {
            circuit,
            hardware,
            plan,
            program_counter,
            termination,
            signals,
            units: Units::init(memory),
            terminate: false,
            tty_out,
            cycle_count: 0,
            tracer: Tracer::default(),
            status: CpuStatus::CycleStart,
        }
    }
}

/// Signals without any record: no unit has inputs or outputs in them, and
/// they hold no signal and no stage.
fn no_signals() -> (signals: Signals)
    ensures
        signals@ == (Wires {
            unit_in: Seq::empty(),
            unit_out: Seq::empty(),
            inter: Seq::empty(),
            cur_state: Seq::empty(),
            nex_state: Seq::empty(),
        }),
{
    let signals = Signals {
        unit_in: Vec::new(),
        unit_out: Vec::new(),
        inter: Vec::new(),
        cur_state: Vec::new(),
        nex_state: Vec::new(),
    };
    assert(signals@.unit_in =~= Seq::<Seq<Value>>::empty());
    assert(signals@.unit_out =~= Seq::<Seq<Value>>::empty());
    assert(signals@.cur_state =~= Seq::<Seq<Value>>::empty());
    assert(signals@.nex_state =~= Seq::<Seq<Value>>::empty());
    signals
}

/// The name of a formatted field of a stage, with its value.
#[derive(Debug)]
pub struct StageInfo {
    /// The name of the stage.
    pub name: String,
    /// Each field of the stage, by name, with its value.
    pub signals: Vec<(String, Value)>,
}

/// The two basic operations of a simulator, and what can be read from it.
/// Within a cycle the signals are propagated through the combinational
/// logic; at its end the stage registers take their next state.
pub trait CpuSim {
    /// Lets the stage registers take the state that the last propagation
    /// left for them. It is meant to follow `propagate_signals`.
    fn initiate_next_cycle(&mut self);

    /// Propagates the signals through the combinational logic, and notes
    /// whether the program has ended. It fails where a stage register is
    /// bubbled and stalled at once.
    fn propagate_signals(&mut self) -> Result<(), SimError>;

    /// The current program counter.
    fn program_counter(&self) -> u64;

    /// Whether the program has ended.
    fn is_terminate(&self) -> bool;

    /// The number of cycles that have been propagated.
    fn cycle_count(&self) -> u64;

    /// The registers with their values.
    fn registers(&self) -> Vec<(u8, u64)>;

    /// The stages with the fields that they hold.
    fn get_stage_info(&self) -> Vec<StageInfo>;

    /// One cycle: propagates the signals and, unless the program has ended,
    /// lets the stage registers take their next state.
    fn step(&mut self) -> Result<(), SimError>;
}

impl PipeSim {
    /// The cycle that a propagation starts from: the state that is driven
    /// for the stage registers starts as the state that they hold, and no
    /// tunnel has fired.
    pub open spec fn cycle_start(&self) -> Cycle {
        Cycle {
            wires: Wires { nex_state: self.signals@.cur_state, ..self.signals@ },
            machine: self.units@,
            tunnels: Seq::empty(),
            clash: None,
        }
    }

    /// The cycle that a propagation ends with.
    pub open spec fn cycle_end(&self) -> Cycle {
        plan_ran_upto(
            self.hardware,
            self.circuit.updates.updates@,
            self.plan@,
            self.cycle_start(),
            self.plan@.len() as int,
        )
    }

    /// Whether the termination signal is set on the given signals.
    pub open spec fn ends_on(&self, wires: Wires) -> bool {
        wires.get(crate::framework::schema::Slot::Inter(self.termination)).truth()
    }

    /// The value of the intermediate signal `name`, if the architecture has
    /// such a signal.
    pub fn signal(&self, name: &str) -> (v: Option<Value>)
        ensures
            ({
                let at = position(
                    crate::framework::circuit::update_names(self.circuit.updates.updates@),
                    name@,
                );
                if at < self.circuit.updates.updates@.len() && at < self.signals@.inter.len() {
                    v == Some(self.signals@.inter[at])
                } else {
                    v is None
                }
            }),
    {
        let at: usize = crate::framework::circuit::find_update(&self.circuit.updates.updates, name);
        if at < self.circuit.updates.updates.len() && at < self.signals.inter.len() {
            Some(self.signals.inter[at])
        } else {
            None
        }
    }

    /// The memory of the machine.
    pub fn mem(&self) -> (mem: &MemData)
        ensures
            mem@ == self.units@.mem,
    {
        &self.units.mem
    }

    /// Runs the evaluation order once. The answer is the position of the
    /// stage register that was bubbled and stalled at once, if there was
    /// one.
    fn update(&mut self) -> (clash: Option<usize>)
        ensures
            final(self).circuit == old(self).circuit,
            final(self).hardware == old(self).hardware,
            final(self).plan == old(self).plan,
            final(self).program_counter == old(self).program_counter,
            final(self).termination == old(self).termination,
            final(self).terminate == old(self).terminate,
            final(self).tty_out == old(self).tty_out,
            final(self).cycle_count == old(self).cycle_count,
            final(self).status == old(self).status,
            final(self).signals@ == old(self).cycle_end().wires,
            final(self).units@ == old(self).cycle_end().machine,
            final(self).tracer@ == old(self).cycle_end().tunnels,
            clash is Some <==> old(self).cycle_end().clash is Some,
            clash matches Some(s) ==> old(self).cycle_end().clash == Some(s as int)
                && s < old(self).hardware.stages@.len(),
    {
        let mut signals: Signals = no_signals();
        core::mem::swap(&mut self.signals, &mut signals);
        signals.nex_state = copy_rows(&signals.cur_state);
        let ghost start = old(self).cycle_start();
        assert(signals@ == start.wires);
        let mut propagator: Propagator = self.circuit.updates.make_propagator(signals);
        let mut clash: Option<usize> = None;
        let mut k: usize = 0;
        while k < self.plan.len() && clash.is_none()
            invariant
                k <= self.plan@.len(),
                self.circuit == old(self).circuit,
                self.hardware == old(self).hardware,
                self.plan == old(self).plan,
                self.program_counter == old(self).program_counter,
                self.termination == old(self).termination,
                self.terminate == old(self).terminate,
                self.tty_out == old(self).tty_out,
                self.cycle_count == old(self).cycle_count,
                self.status == old(self).status,
                propagator.updates == &self.circuit.updates,
                clash matches Some(s) ==> s < self.hardware.stages@.len(),
                plan_ran_upto(self.hardware, self.circuit.updates.updates@, self.plan@, start, k as int)
                    == (Cycle {
                    wires: propagator.signals@,
                    machine: self.units@,
                    tunnels: propagator.tracer@,
                    clash: match clash {
                        Some(s) => Some(s as int),
                        None => None,
                    },
                }),
            decreases self.plan@.len() - k,
        {
            match self.plan[k] {
                Step::Unit(u) => {
                    if u < self.hardware.units.len() {
                        propagator.run_unit(&mut self.units, u, self.hardware.units[u].kind);
                    }
                },
                Step::Stage(s) => {
                    if s < self.hardware.stages.len() {
                        if !propagator.run_stage(s, &self.hardware.stages[s].fields) {
                            clash = Some(s);
                        }
                    }
                },
                Step::Update(i) => {
                    let found: bool = propagator.run_update(i);
                },
                Step::Idle => {},
            }
            k = k + 1;
        }
        proof {
            lemma_clash_stays(
                self.hardware,
                self.circuit.updates.updates@,
                self.plan@,
                start,
                k as int,
                self.plan@.len() as int,
            );
        }
        let (signals, tracer) = propagator.finalize();
        self.signals = signals;
        self.tracer = tracer;
        clash
    }
}

/// After a stage has clashed, the rest of the plan changes nothing.
pub proof fn lemma_clash_stays(
    hardware: Hardware,
    updates: Seq<(String, SignalDef)>,
    plan: Seq<Step>,
    c: Cycle,
    k: int,
    m: int,
)
    requires
        0 <= k <= m <= plan.len(),
        k == m || plan_ran_upto(hardware, updates, plan, c, k).clash is Some,
    ensures
        plan_ran_upto(hardware, updates, plan, c, m) == plan_ran_upto(hardware, updates, plan, c, k),
    decreases m - k,
{
    if k < m {
        lemma_clash_stays(hardware, updates, plan, c, k, m - 1);
    }
}

/// Whether a list holds the values of a record, each with the name that the
/// hardware gives its field: as many as there are fields and values.
pub open spec fn shows_fields(
    list: Seq<(String, Value)>,
    fields: Seq<crate::framework::schema::StageField>,
    row: Seq<Value>,
) -> bool {
    &&& list.len() == (if fields.len() <= row.len() {
        fields.len()
    } else {
        row.len()
    })
    &&& forall|i: int|
        0 <= i < list.len() ==> (#[trigger] list[i]).0@ == fields[i].name@ && list[i].1 == row[i]
}

/// The stage fields of a record, each with the name that the hardware gives
/// it.
fn stage_fields(fields: &Vec<crate::framework::schema::StageField>, row: &Vec<Value>) -> (list:
    Vec<(String, Value)>)
    ensures
        shows_fields(list@, fields@, row@),
{
    let mut list: Vec<(String, Value)> = Vec::new();
    let mut i: usize = 0;
    while i < fields.len() && i < row.len()
        invariant
            i <= fields@.len(),
            i <= row@.len(),
            list@.len() == i,
            forall|j: int|
                0 <= j < i ==> (#[trigger] list@[j]).0@ == fields@[j].name@ && list@[j].1
                    == row@[j],
        decreases fields@.len() - i,
    {
        list.push((fields[i].name.clone(), row[i]));
        i = i + 1;
    }
    list
}

/// The status that the last of the first `k` signals of type status shows,
/// if there is such a signal.
pub open spec fn last_status_upto(
    updates: Seq<(String, SignalDef)>,
    inter: Seq<Value>,
    k: int,
) -> Option<Stat>
    decreases k,
{
    if k <= 0 || k > updates.len() {
        None
    } else if updates[k - 1].1.typ == SigType::Stat && k - 1 < inter.len() {
        Some(inter[k - 1].stat())
    } else {
        last_status_upto(updates, inter, k - 1)
    }
}

impl PipeSim {
    /// The status of the processor: what the last signal of type status in
    /// the description shows, if the description has one. In the
    /// descriptions that follow the instruction set this is the status of
    /// the instruction that completes.
    pub open spec fn spec_status(&self) -> Option<Stat> {
        last_status_upto(
            self.circuit.updates.updates@,
            self.signals@.inter,
            self.circuit.updates.updates@.len() as int,
        )
    }

    /// The status of the processor.
    pub fn status(&self) -> (stat: Option<Stat>)
        ensures
            stat == self.spec_status(),
    {
        let mut stat: Option<Stat> = None;
        let mut k: usize = 0;
        while k < self.circuit.updates.updates.len()
            invariant
                k <= self.circuit.updates.updates@.len(),
                stat == last_status_upto(
                    self.circuit.updates.updates@,
                    self.signals@.inter,
                    k as int,
                ),
            decreases self.circuit.updates.updates@.len() - k,
        {
            let is_status: bool = match self.circuit.updates.updates[k].1.typ {
                SigType::Stat => true,
                _ => false,
            };
            if is_status && k < self.signals.inter.len() {
                stat = Some(self.signals.inter[k].as_stat());
            }
            k = k + 1;
        }
        stat
    }
}

/// The text of a value as the state of a stage shows it: `true` or `false`
/// for a boolean, `0x` and hexadecimal digits for a number, the name of a
/// status, the three flags of the condition codes, and the bytes of a fetched
/// instruction, two digits each.
pub open spec fn spec_field_text(v: Value) -> Seq<char> {
    match v {
        Value::Bool(b) => flag_text(b),
        Value::U8(x) => shown_value(x as u64),
        Value::U64(x) => shown_value(x),
        Value::Stat(s) => match s {
            Stat::Aok => "aok"@,
            Stat::Bub => "bub"@,
            Stat::Hlt => "hlt"@,
            Stat::Adr => "adr"@,
            Stat::Ins => "ins"@,
        },
        Value::Cc(cc) => "sf "@ + flag_text(cc.sf) + " of "@ + flag_text(cc.of) + " zf "@
            + flag_text(cc.zf),
        Value::Align(bytes) => shown_bytes_upto(bytes@, 9),
    }
}

/// The text of a flag.
pub open spec fn flag_text(b: bool) -> Seq<char> {
    if b {
        "true"@
    } else {
        "false"@
    }
}

/// The text of a flag.
fn show_flag(b: bool) -> (text: &'static str)
    ensures
        text@ == flag_text(b),
{
    if b {
        "true"
    } else {
        "false"
    }
}

/// The text of a value as the state of a stage shows it.
pub fn field_text(v: &Value) -> (text: String)
    ensures
        text@ == spec_field_text(*v),
{
    match v {
        Value::Bool(b) => show_flag(*b).to_owned(),
        Value::U8(x) => show_value(*x as u64),
        Value::U64(x) => show_value(*x),
        Value::Stat(s) => s.name().to_owned(),
        Value::Cc(cc) => "sf ".to_owned().concat(show_flag(cc.sf)).concat(" of ").concat(
            show_flag(cc.of),
        ).concat(" zf ").concat(show_flag(cc.zf)),
        Value::Align(bytes) => show_bytes(vstd::array::array_as_slice(bytes)),
    }
}

/// A stage register with the texts of its fields.
#[derive(Debug)]
pub struct StageText {
    /// The name of the stage.
    pub name: String,
    /// Each field of the stage, by name, with the text of its value.
    pub signals: Vec<(String, String)>,
}

/// Whether a list holds the texts of the values of a record, each with the
/// name that the hardware gives its field.
pub open spec fn shows_texts(
    list: Seq<(String, String)>,
    fields: Seq<crate::framework::schema::StageField>,
    row: Seq<Value>,
) -> bool {
    &&& list.len() == (if fields.len() <= row.len() {
        fields.len()
    } else {
        row.len()
    })
    &&& forall|i: int|
        0 <= i < list.len() ==> (#[trigger] list[i]).0@ == fields[i].name@ && list[i].1@
            == spec_field_text(row[i])
}

impl PipeSim {
    /// The stage registers with the texts of the fields that they hold, in
    /// the order of the hardware.
    pub fn stage_info(&self) -> (list: Vec<StageText>)
        ensures
            list@.len() == (if self.hardware.stages@.len() <= self.signals.cur_state@.len() {
                self.hardware.stages@.len()
            } else {
                self.signals.cur_state@.len()
            }),
            forall|s: int|
                0 <= s < list@.len() ==> (#[trigger] list@[s]).name@
                    == self.hardware.stages@[s].name@ && shows_texts(
                    list@[s].signals@,
                    self.hardware.stages@[s].fields@,
                    self.signals.cur_state@[s]@,
                ),
    {
        let info: Vec<StageInfo> = self.get_stage_info();
        let mut list: Vec<StageText> = Vec::new();
        let mut s: usize = 0;
        while s < info.len()
            invariant
                s <= info@.len(),
                list@.len() == s,
                info@.len() == (if self.hardware.stages@.len() <= self.signals.cur_state@.len() {
                    self.hardware.stages@.len()
                } else {
                    self.signals.cur_state@.len()
                }),
                forall|j: int|
                    0 <= j < info@.len() ==> (#[trigger] info@[j]).name@
                        == self.hardware.stages@[j].name@ && shows_fields(
                        info@[j].signals@,
                        self.hardware.stages@[j].fields@,
                        self.signals.cur_state@[j]@,
                    ),
                forall|j: int|
                    0 <= j < s ==> (#[trigger] list@[j]).name@ == self.hardware.stages@[j].name@
                        && shows_texts(
                        list@[j].signals@,
                        self.hardware.stages@[j].fields@,
                        self.signals.cur_state@[j]@,
                    ),
            decreases info@.len() - s,
        {
            let stage: &StageInfo = &info[s];
            let mut texts: Vec<(String, String)> = Vec::new();
            let mut i: usize = 0;
            while i < stage.signals.len()
                invariant
                    i <= stage.signals@.len(),
                    texts@.len() == i,
                    forall|j: int|
                        0 <= j < i ==> (#[trigger] texts@[j]).0@ == stage.signals@[j].0@
                            && texts@[j].1@ == spec_field_text(stage.signals@[j].1),
                decreases stage.signals@.len() - i,
            {
                texts.push((stage.signals[i].0.clone(), field_text(&stage.signals[i].1)));
                i = i + 1;
            }
            list.push(StageText { name: stage.name.clone(), signals: texts });
            s = s + 1;
        }
        list
    }
}

impl CpuSim for PipeSim {
    /// Lets the stage registers take the state that the last propagation
    /// left for them. Nothing else changes.
    fn initiate_next_cycle(&mut self)
        ensures
            final(self).signals@ == (Wires {
                cur_state: old(self).signals@.nex_state,
                ..old(self).signals@
            }),
            final(self).units == old(self).units,
            final(self).circuit == old(self).circuit,
            final(self).hardware == old(self).hardware,
            final(self).plan == old(self).plan,
            final(self).program_counter == old(self).program_counter,
            final(self).termination == old(self).termination,
            final(self).terminate == old(self).terminate,
            final(self).tty_out == old(self).tty_out,
            final(self).cycle_count == old(self).cycle_count,
            final(self).tracer == old(self).tracer,
            final(self).status == CpuStatus::CycleStart,
    {
        self.signals.cur_state = copy_rows(&self.signals.nex_state);
        self.status = CpuStatus::CycleStart;
    }

    /// Propagates the signals through the circuit: runs every unit and every
    /// update once, in the evaluation order, and the stage registers last.
    /// Then it counts the cycle, and notes that the program has ended where
    /// the termination signal is set.
    ///
    /// It fails where a stage register is bubbled and stalled at once; the
    /// cycle is then not counted.
    fn propagate_signals(&mut self) -> (res: Result<(), SimError>)
        ensures
            final(self).circuit == old(self).circuit,
            final(self).hardware == old(self).hardware,
            final(self).plan == old(self).plan,
            final(self).program_counter == old(self).program_counter,
            final(self).termination == old(self).termination,
            final(self).tty_out == old(self).tty_out,
            final(self).signals@ == old(self).cycle_end().wires,
            final(self).units@ == old(self).cycle_end().machine,
            final(self).tracer@ == old(self).cycle_end().tunnels,
            res is Err <==> old(self).cycle_end().clash is Some,
            res matches Err(SimError::BubbleAndStall(name)) ==> old(self).cycle_end().clash
                matches Some(s) && 0 <= s < old(self).hardware.stages@.len()
                    && name@ == old(self).hardware.stages@[s].name@,
            res is Ok ==> final(self).status == CpuStatus::CycleEnd && final(self).cycle_count
                == (if old(self).cycle_count < u64::MAX {
                old(self).cycle_count + 1
            } else {
                u64::MAX as int
            }) && final(self).terminate == (old(self).terminate || old(self).ends_on(
                old(self).cycle_end().wires,
            )),
            res is Err ==> final(self).status == old(self).status && final(self).cycle_count
                == old(self).cycle_count && final(self).terminate == old(self).terminate,
    {
        match self.update() {
            Some(stage) => Err(
                SimError::BubbleAndStall(self.hardware.stages[stage].name.clone()),
            ),
            None => {
                if self.cycle_count < u64::MAX {
                    self.cycle_count = self.cycle_count + 1;
                }
                if self.signals.get(crate::framework::schema::Slot::Inter(self.termination)).is_true() {
                    self.terminate = true;
                }
                self.status = CpuStatus::CycleEnd;
                Ok(())
            },
        }
    }

    /// The value of the signal that the architecture names as its program
    /// counter.
    fn program_counter(&self) -> (pc: u64)
        ensures
            pc == self.signals@.get(
                crate::framework::schema::Slot::Inter(self.program_counter),
            ).word(),
    {
        self.signals.get(crate::framework::schema::Slot::Inter(self.program_counter)).as_u64()
    }

    fn is_terminate(&self) -> (b: bool)
        ensures
            b == self.terminate,
    {
        self.terminate
    }

    fn cycle_count(&self) -> (n: u64)
        ensures
            n == self.cycle_count,
    {
        self.cycle_count
    }

    /// The registers with their values, by rising register code.
    fn registers(&self) -> (list: Vec<(u8, u64)>)
        ensures
            list@.len() == 15,
            forall|i: int| 0 <= i < 15 ==> #[trigger] list@[i] == (i as u8, self.units@.regs[i]),
    {
        self.units.registers()
    }

    /// The stage registers with the fields that they hold, in the order of
    /// the hardware.
    fn get_stage_info(&self) -> (list: Vec<StageInfo>)
        ensures
            list@.len() == (if self.hardware.stages@.len() <= self.signals.cur_state@.len() {
                self.hardware.stages@.len()
            } else {
                self.signals.cur_state@.len()
            }),
            forall|s: int|
                0 <= s < list@.len() ==> (#[trigger] list@[s]).name@
                    == self.hardware.stages@[s].name@ && shows_fields(
                    list@[s].signals@,
                    self.hardware.stages@[s].fields@,
                    self.signals.cur_state@[s]@,
                ),
    {
        let mut list: Vec<StageInfo> = Vec::new();
        let mut s: usize = 0;
        while s < self.hardware.stages.len() && s < self.signals.cur_state.len()
            invariant
                s <= self.hardware.stages@.len(),
                s <= self.signals.cur_state@.len(),
                list@.len() == s,
                forall|j: int|
                    0 <= j < s ==> (#[trigger] list@[j]).name@ == self.hardware.stages@[j].name@
                        && shows_fields(
                        list@[j].signals@,
                        self.hardware.stages@[j].fields@,
                        self.signals.cur_state@[j]@,
                    ),
            decreases self.hardware.stages@.len() - s,
        {
            list.push(
                StageInfo {
                    name: self.hardware.stages[s].name.clone(),
                    signals: stage_fields(
                        &self.hardware.stages[s].fields,
                        &self.signals.cur_state[s],
                    ),
                },
            );
            s = s + 1;
        }
        list
    }

    /// One cycle: propagates the signals and, unless the program has ended,
    /// lets the stage registers take their next state.
    fn step(&mut self) -> (res: Result<(), SimError>)
        ensures
            is_step(*old(self), *final(self), res),
    {
        match self.propagate_signals() {
            Err(e) => Err(e),
            Ok(()) => {
                if !self.is_terminate() {
                    self.initiate_next_cycle();
                }
                Ok(())
            },
        }
    }
}

/// A set of hardware units: it is set up from a memory and shows its
/// registers.
pub trait HardwareUnits: Sized {
    /// Sets the units up on the given memory.
    fn init(memory: MemData) -> Self;

    /// The registers with their values, by rising register code.
    fn registers(&self) -> Vec<(u8, u64)>;
}

impl HardwareUnits for Units {
    fn init(memory: MemData) -> (units: Units)
        ensures
            units@.mem == memory@,
            units@.regs == Seq::new(16, |i: int| 0u64),
            units@.cc == (crate::isa::ConditionCode { sf: false, of: false, zf: false }),
    {
        Units::init(memory)
    }

    fn registers(&self) -> (list: Vec<(u8, u64)>)
        ensures
            list@.len() == 15,
            forall|i: int| 0 <= i < 15 ==> #[trigger] list@[i] == (i as u8, self@.regs[i]),
    {
        Units::registers(self)
    }
}

/// The cycle that begins with the given signals and machine.
pub open spec fn cycle_of(sim: PipeSim, wires: Wires, machine: Machine) -> Cycle {
    plan_ran_upto(
        sim.hardware,
        sim.circuit.updates.updates@,
        sim.plan@,
        Cycle {
            wires: Wires { nex_state: wires.cur_state, ..wires },
            machine,
            tunnels: Seq::empty(),
            clash: None,
        },
        sim.plan@.len() as int,
    )
}

/// Whether two simulators run the same circuit.
pub open spec fn same_circuit(a: PipeSim, b: PipeSim) -> bool {
    &&& a.hardware == b.hardware
    &&& a.circuit == b.circuit
    &&& a.plan == b.plan
    &&& a.termination == b.termination
    &&& a.program_counter == b.program_counter
}

/// The number of cycles that a simulator shows after `cycles` more cycles:
/// the count stops at the largest number that it can hold.
pub open spec fn counted(before: u64, cycles: nat) -> int {
    if before + cycles <= u64::MAX {
        before + cycles
    } else {
        u64::MAX as int
    }
}

/// Whether `after` and `res` are what one more cycle of the simulator
/// `before` gives: the stage registers take the state that was driven for
/// them, and the signals are propagated from there. The cycle fails where a
/// stage register is bubbled and stalled at once, and is then not counted.
pub open spec fn is_next_cycle(before: PipeSim, after: PipeSim, res: Result<(), SimError>) -> bool {
    let c = cycle_of(
        before,
        Wires { cur_state: before.signals@.nex_state, ..before.signals@ },
        before.units@,
    );
    &&& same_circuit(after, before)
    &&& after.tty_out == before.tty_out
    &&& after.signals@ == c.wires
    &&& after.units@ == c.machine
    &&& after.tracer@ == c.tunnels
    &&& match c.clash {
        Some(stage) => after.terminate == before.terminate && after.cycle_count
            == before.cycle_count && after.status == CpuStatus::CycleStart && 0 <= stage
            < before.hardware.stages@.len() && (res matches Err(SimError::BubbleAndStall(name))
            && name@ == before.hardware.stages@[stage].name@),
        None => res is Ok && after.terminate == (before.terminate || before.ends_on(c.wires))
            && after.cycle_count == counted(before.cycle_count, 1) && after.status
            == CpuStatus::CycleEnd,
    }
}

/// Whether `after` and `res` are what one step of the simulator `before`
/// gives: the signals are propagated through the circuit and, unless the
/// program has ended or the cycle has failed, the stage registers take
/// their next state.
pub open spec fn is_step(before: PipeSim, after: PipeSim, res: Result<(), SimError>) -> bool {
    let end = before.cycle_end();
    &&& same_circuit(after, before)
    &&& after.tty_out == before.tty_out
    &&& after.units@ == end.machine
    &&& after.tracer@ == end.tunnels
    &&& match end.clash {
        Some(stage) => after.signals@ == end.wires && after.cycle_count == before.cycle_count
            && after.terminate == before.terminate && after.status == before.status && 0 <= stage
            < before.hardware.stages@.len() && (res matches Err(SimError::BubbleAndStall(name))
            && name@ == before.hardware.stages@[stage].name@),
        None => res is Ok && after.terminate == (before.terminate || before.ends_on(end.wires))
            && after.cycle_count == counted(before.cycle_count, 1) && after.signals@ == (
        if after.terminate {
            end.wires
        } else {
            Wires { cur_state: end.wires.nex_state, ..end.wires }
        }) && after.status == (if after.terminate {
            CpuStatus::CycleEnd
        } else {
            CpuStatus::CycleStart
        }),
    }
}

/// Whether the controls of a stage register, the last two of the fields
/// that a cycle drives, are both set.
pub open spec fn bubbled_and_stalled(next: Seq<Value>) -> bool {
    next.len() >= 2 && next[next.len() - 2].truth() && next[next.len() - 1].truth()
}

/// In every cycle that comes to its end, no stage register is bubbled and
/// stalled at once: where a cycle ends without a clash, each stage register
/// of the plan found at most one of its two controls set when its turn
/// came.
pub proof fn lemma_controls_exclude_each_other(
    hardware: Hardware,
    updates: Seq<(String, SignalDef)>,
    plan: Seq<Step>,
    start: Cycle,
    k: int,
)
    requires
        0 <= k < plan.len(),
        plan_ran_upto(hardware, updates, plan, start, plan.len() as int).clash is None,
    ensures
        ({
            let before = plan_ran_upto(hardware, updates, plan, start, k);
            plan[k] matches Step::Stage(s) ==> (s < hardware.stages@.len() && s
                < before.wires.cur_state.len() && s < before.wires.nex_state.len()
                ==> !bubbled_and_stalled(before.wires.nex_state[s as int]))
        }),
{
    let before = plan_ran_upto(hardware, updates, plan, start, k);
    let after = plan_ran_upto(hardware, updates, plan, start, k + 1);
    if after.clash is Some {
        lemma_clash_stays(hardware, updates, plan, start, k + 1, plan.len() as int);
    }
}

} // verus!
