//! What holds of every cycle of every circuit: where the state of the
//! machine can change, and what a unit shows in the step in which it runs.
use vstd::prelude::*;
use crate::framework::circuit::{machine_ran, unit_ran};
use crate::framework::schema::Hardware;
use crate::framework::sim::{plan_ran_upto, step_ran, Cycle, Step};
use crate::framework::units::{input, unit_outputs, unit_state, UnitKind};
use crate::framework::{in_range, MEM_SIZE};
use crate::hcl::SignalDef;
use crate::isa::reg_code::RNONE;
use crate::signal::Value;

verus! {

/// Whether a step runs the unit at position `u`, which is of kind `kind`, on
/// the given cycle: the step names the unit, the hardware and the signals
/// have it, and no stage has clashed before.
pub open spec fn runs(hardware: Hardware, step: Step, c: Cycle, u: usize, kind: UnitKind) -> bool {
    &&& step == Step::Unit(u)
    &&& u < hardware.units@.len()
    &&& u < c.wires.unit_in.len()
    &&& u < c.wires.unit_out.len()
    &&& hardware.units@[u as int].kind == kind
    &&& c.clash is None
}

/// Whether a step stores to the memory: it runs a data memory whose write
/// control is set and whose address lies inside the memory.
pub open spec fn stores(hardware: Hardware, step: Step, c: Cycle) -> bool {
    exists|u: usize|
        #![trigger c.wires.unit_in[u as int]]
        runs(hardware, step, c, u, UnitKind::DataMemory) && in_range(
            input(c.wires.unit_in[u as int], 0).word(),
        ) && input(c.wires.unit_in[u as int], 3).truth()
}

/// Whether a step writes a register: it runs a register file, or the write
/// half of one, with a destination that is a register.
pub open spec fn writes_register(hardware: Hardware, step: Step, c: Cycle) -> bool {
    exists|u: usize|
        #![trigger c.wires.unit_in[u as int]]
        (runs(hardware, step, c, u, UnitKind::RegisterFile) && (input(
            c.wires.unit_in[u as int],
            2,
        ).byte() < RNONE || input(c.wires.unit_in[u as int], 3).byte() < RNONE)) || (runs(
            hardware,
            step,
            c,
            u,
            UnitKind::RegisterFileWrite,
        ) && (input(c.wires.unit_in[u as int], 0).byte() < RNONE || input(c.wires.unit_in[u as int], 1).byte()
            < RNONE))
}

/// A memory access in a step of a cycle: the step in which a data memory
/// runs shows an error exactly where the eight bytes from its address on do
/// not all lie inside the memory, and then leaves the memory as it was,
/// whatever its controls say.
pub proof fn lemma_step_memory_access(
    hardware: Hardware,
    updates: Seq<(String, SignalDef)>,
    step: Step,
    c: Cycle,
    u: usize,
)
    requires
        runs(hardware, step, c, u, UnitKind::DataMemory),
    ensures
        ({
            let addr = input(c.wires.unit_in[u as int], 0).word();
            let after = step_ran(hardware, updates, step, c);
            &&& after.wires.unit_out[u as int][1] == Value::Bool(!(addr + 8 <= MEM_SIZE))
            &&& !(addr + 8 <= MEM_SIZE) ==> after.machine == c.machine
            &&& after.clash is None
        }),
{
    let ins = c.wires.unit_in[u as int];
    crate::framework::units::lemma_memory_access(ins, c.machine);
    assert(unit_ran(c.wires, c.machine, u as int, UnitKind::DataMemory).unit_out[u as int] == unit_outputs(
        UnitKind::DataMemory,
        ins,
        c.machine,
    ));
    assert(machine_ran(c.wires, c.machine, u as int, UnitKind::DataMemory) == unit_state(
        UnitKind::DataMemory,
        ins,
        c.machine,
    ));
}

/// A step that does not store leaves the memory as it was.
pub proof fn lemma_step_keeps_memory(
    hardware: Hardware,
    updates: Seq<(String, SignalDef)>,
    step: Step,
    c: Cycle,
)
    requires
        !stores(hardware, step, c),
    ensures
        step_ran(hardware, updates, step, c).machine.mem == c.machine.mem,
{
    match step {
        Step::Unit(u) => {
            if c.clash is None && u < hardware.units@.len() {
                if u < c.wires.unit_in.len() && u < c.wires.unit_out.len()
                    && hardware.units@[u as int].kind == UnitKind::DataMemory {
                    assert(runs(hardware, step, c, u, UnitKind::DataMemory));
                    let ins = c.wires.unit_in[u as int];
                    assert(!(in_range(input(ins, 0).word()) && input(ins, 3).truth()));
                }
            }
        },
        _ => {},
    }
}

/// The memory changes only where a data memory stores: a cycle in which no
/// step stores leaves the memory as it found it.
pub proof fn lemma_cycle_keeps_memory(
    hardware: Hardware,
    updates: Seq<(String, SignalDef)>,
    plan: Seq<Step>,
    start: Cycle,
    k: int,
)
    requires
        0 <= k <= plan.len(),
        forall|j: int|
            0 <= j < k ==> !stores(
                hardware,
                #[trigger] plan[j],
                plan_ran_upto(hardware, updates, plan, start, j),
            ),
    ensures
        plan_ran_upto(hardware, updates, plan, start, k).machine.mem == start.machine.mem,
    decreases k,
{
    if k > 0 {
        lemma_cycle_keeps_memory(hardware, updates, plan, start, k - 1);
        let before = plan_ran_upto(hardware, updates, plan, start, k - 1);
        assert(!stores(hardware, plan[k - 1], before));
        lemma_step_keeps_memory(hardware, updates, plan[k - 1], before);
    }
}

/// A step that writes no register leaves the registers as they were. So
/// does, in particular, a register file both of whose destinations are
/// `RNONE`, whatever values stand at its write ports.
pub proof fn lemma_step_keeps_registers(
    hardware: Hardware,
    updates: Seq<(String, SignalDef)>,
    step: Step,
    c: Cycle,
)
    requires
        !writes_register(hardware, step, c),
    ensures
        step_ran(hardware, updates, step, c).machine.regs == c.machine.regs,
{
    match step {
        Step::Unit(u) => {
            if c.clash is None && u < hardware.units@.len() && u < c.wires.unit_in.len() && u
                < c.wires.unit_out.len() {
                let ins = c.wires.unit_in[u as int];
                let kind = hardware.units@[u as int].kind;
                if kind == UnitKind::RegisterFile {
                    assert(runs(hardware, step, c, u, UnitKind::RegisterFile));
                    assert(!(input(ins, 2).byte() < RNONE || input(ins, 3).byte() < RNONE));
                } else if kind == UnitKind::RegisterFileWrite {
                    assert(runs(hardware, step, c, u, UnitKind::RegisterFileWrite));
                    assert(!(input(ins, 0).byte() < RNONE || input(ins, 1).byte() < RNONE));
                }
            }
        },
        _ => {},
    }
}

/// The registers change only where a register file writes a register: a
/// cycle in which every register file that runs has `RNONE` as both of its
/// destinations leaves all sixteen registers as it found them.
pub proof fn lemma_cycle_keeps_registers(
    hardware: Hardware,
    updates: Seq<(String, SignalDef)>,
    plan: Seq<Step>,
    start: Cycle,
    k: int,
)
    requires
        0 <= k <= plan.len(),
        forall|j: int|
            0 <= j < k ==> !writes_register(
                hardware,
                #[trigger] plan[j],
                plan_ran_upto(hardware, updates, plan, start, j),
            ),
    ensures
        plan_ran_upto(hardware, updates, plan, start, k).machine.regs == start.machine.regs,
    decreases k,
{
    if k > 0 {
        lemma_cycle_keeps_registers(hardware, updates, plan, start, k - 1);
        let before = plan_ran_upto(hardware, updates, plan, start, k - 1);
        assert(!writes_register(hardware, plan[k - 1], before));
        lemma_step_keeps_registers(hardware, updates, plan[k - 1], before);
    }
}

/// Write before read in a step of a cycle: where the register file of the
/// pipelined organisation runs with a register as its E destination, that
/// register as its A source and another M destination, its A output in the
/// same step is the value at its E port, and the register holds it
/// afterwards.
pub proof fn lemma_step_register_fence(
    hardware: Hardware,
    updates: Seq<(String, SignalDef)>,
    step: Step,
    c: Cycle,
    u: usize,
)
    requires
        runs(hardware, step, c, u, UnitKind::RegisterFile),
        c.machine.regs.len() == 16,
        input(c.wires.unit_in[u as int], 2).byte() < RNONE,
        input(c.wires.unit_in[u as int], 0).byte() == input(c.wires.unit_in[u as int], 2).byte(),
        input(c.wires.unit_in[u as int], 3).byte() != input(c.wires.unit_in[u as int], 2).byte(),
    ensures
        ({
            let ins = c.wires.unit_in[u as int];
            let after = step_ran(hardware, updates, step, c);
            &&& after.wires.unit_out[u as int][0] == Value::U64(input(ins, 4).word())
            &&& after.machine.regs[input(ins, 2).byte() as int] == input(ins, 4).word()
        }),
{
    let ins = c.wires.unit_in[u as int];
    assert(unit_ran(c.wires, c.machine, u as int, UnitKind::RegisterFile).unit_out[u as int] == unit_outputs(
        UnitKind::RegisterFile,
        ins,
        c.machine,
    ));
    assert(machine_ran(c.wires, c.machine, u as int, UnitKind::RegisterFile) == unit_state(
        UnitKind::RegisterFile,
        ins,
        c.machine,
    ));
}

/// The single-cycle register file reads what the cycle found: where the
/// read half runs before the write half, its outputs are the registers as
/// they were, and a register that the write half writes shows its new value
/// to a read in a later cycle only.
pub proof fn lemma_step_read_half(
    hardware: Hardware,
    updates: Seq<(String, SignalDef)>,
    step: Step,
    c: Cycle,
    u: usize,
)
    requires
        runs(hardware, step, c, u, UnitKind::RegisterFileRead),
        input(c.wires.unit_in[u as int], 0).byte() < RNONE,
    ensures
        ({
            let ins = c.wires.unit_in[u as int];
            let after = step_ran(hardware, updates, step, c);
            &&& after.wires.unit_out[u as int][0] == Value::U64(
                c.machine.regs[input(ins, 0).byte() as int],
            )
            &&& after.machine == c.machine
        }),
{
    let ins = c.wires.unit_in[u as int];
    assert(unit_ran(c.wires, c.machine, u as int, UnitKind::RegisterFileRead).unit_out[u as int]
        == unit_outputs(UnitKind::RegisterFileRead, ins, c.machine));
    assert(machine_ran(c.wires, c.machine, u as int, UnitKind::RegisterFileRead) == unit_state(
        UnitKind::RegisterFileRead,
        ins,
        c.machine,
    ));
}

} // verus!
