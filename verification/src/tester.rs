//! Checks of an architecture against the reference interpreter.
use vstd::prelude::*;

pub mod inst;

use crate::architectures::{create_sim, is_sim, spec_arch_names, CreateError};
use crate::assembler::{assemble, is_assembly, AsmError, AssembleOption, Object, ObjectExt};
use crate::framework::MemData;
use crate::framework::names::Name;
use crate::framework::schema::Wires;
use crate::framework::sim::{
    counted, cycle_of, same_circuit, CpuSim, CpuStatus, PipeSim, SimError,
};
use crate::framework::units::Machine;
use crate::framework::MEM_SIZE;
use crate::isa::interp::{simulate, IsaError, IsaState, StandardResult};
use crate::isa::ConditionCode;

verus! {

/// The number of cycles after which a simulation is given up.
pub const MAX_CYCLES: u64 = 3_000_000;

/// Why a check failed.
#[derive(Debug, PartialEq, Eq)]
pub enum TestError {
    /// The program could not be assembled.
    Assemble(AsmError),
    /// The reference interpreter gave up.
    Reference(IsaError),
    /// The simulator could not be set up.
    Create(CreateError),
    /// The simulation failed.
    Sim(SimError),
    /// The simulation has not ended within `MAX_CYCLES` cycles.
    CycleLimit,
    /// A register differs from the reference.
    RegisterMismatch { code: u8, expected: u64, found: u64 },
    /// The byte of memory at this address differs from the reference.
    MemoryMismatch { addr: usize },
    /// The program of the check named `name` has left `found` in the
    /// register that it is about, and not `expected`.
    WrongResult { name: String, source: String, expected: u64, found: u64 },
    /// The program of the check of this name could not be made.
    Template(String),
}

/// The least register code below `k` whose register differs, or `k`.
pub open spec fn first_register_mismatch_upto(a: Seq<u64>, b: Seq<u64>, k: int) -> int
    decreases k,
{
    if k <= 0 {
        0
    } else {
        let before = first_register_mismatch_upto(a, b, k - 1);
        if before < k - 1 {
            before
        } else if a[k - 1] != b[k - 1] {
            k - 1
        } else {
            k
        }
    }
}

/// The least address below `k` whose byte differs, or `k`.
pub open spec fn first_memory_mismatch_upto(a: Seq<u8>, b: Seq<u8>, k: int) -> int
    decreases k,
{
    if k <= 0 {
        0
    } else {
        let before = first_memory_mismatch_upto(a, b, k - 1);
        if before < k - 1 {
            before
        } else if a[k - 1] != b[k - 1] {
            k - 1
        } else {
            k
        }
    }
}

/// A mismatch that was found stays the first.
proof fn lemma_register_mismatch_rest(a: Seq<u64>, b: Seq<u64>, k: int, m: int)
    requires
        0 < k <= m,
        first_register_mismatch_upto(a, b, k) < k,
    ensures
        first_register_mismatch_upto(a, b, m) == first_register_mismatch_upto(a, b, k),
    decreases m - k,
{
    if k < m {
        lemma_register_mismatch_rest(a, b, k, m - 1);
    }
}

/// A mismatch that was found stays the first.
proof fn lemma_memory_mismatch_rest(a: Seq<u8>, b: Seq<u8>, k: int, m: int)
    requires
        0 < k <= m,
        first_memory_mismatch_upto(a, b, k) < k,
    ensures
        first_memory_mismatch_upto(a, b, m) == first_memory_mismatch_upto(a, b, k),
    decreases m - k,
{
    if k < m {
        lemma_memory_mismatch_rest(a, b, k, m - 1);
    }
}

/// Whether `res` is what comparing a simulation with the reference gives:
/// the first register that differs, else the first byte of memory that
/// differs, else success.
pub open spec fn is_comparison(
    sim: PipeSim,
    answer: StandardResult,
    res: Result<(), TestError>,
) -> bool {
    let reg = first_register_mismatch_upto(answer.regs@, sim.units@.regs, 15);
    let byte = first_memory_mismatch_upto(answer.bin@, sim.units@.mem, MEM_SIZE as int);
    if reg < 15 {
        res == Err::<(), TestError>(
            TestError::RegisterMismatch {
                code: reg as u8,
                expected: answer.regs@[reg],
                found: sim.units@.regs[reg],
            },
        )
    } else if byte < MEM_SIZE {
        res == Err::<(), TestError>(TestError::MemoryMismatch { addr: byte as usize })
    } else {
        res is Ok
    }
}

/// Compares the state in which a simulation ended with the state in which
/// the reference interpreter ended: the fifteen registers, then the
/// memory. The first difference is reported.
pub fn compare(sim: &PipeSim, answer: &StandardResult) -> (res: Result<(), TestError>)
    ensures
        is_comparison(*sim, *answer, res),
{
    let mut code: u8 = 0;
    while code < 15
        invariant
            code <= 15,
            first_register_mismatch_upto(answer.regs@, sim.units@.regs, code as int) == code,
        decreases 15 - code,
    {
        let expected: u64 = answer.regs[code as usize];
        let found: u64 = sim.units.regs[code as usize];
        if expected != found {
            proof {
                lemma_register_mismatch_rest(answer.regs@, sim.units@.regs, code as int + 1, 15);
            }
            return Err(TestError::RegisterMismatch { code, expected, found });
        }
        code = code + 1;
    }
    let ours = sim.units.mem.read();
    let theirs = answer.bin.read();
    let mut addr: usize = 0;
    while addr < MEM_SIZE
        invariant
            addr <= MEM_SIZE,
            ours@ == sim.units@.mem,
            theirs@ == answer.bin@,
            ours@.len() == MEM_SIZE,
            theirs@.len() == MEM_SIZE,
            first_register_mismatch_upto(answer.regs@, sim.units@.regs, 15) == 15,
            first_memory_mismatch_upto(answer.bin@, sim.units@.mem, addr as int) == addr,
        decreases MEM_SIZE - addr,
    {
        if ours[addr] != theirs[addr] {
            proof {
                lemma_memory_mismatch_rest(
                    answer.bin@,
                    sim.units@.mem,
                    addr as int + 1,
                    MEM_SIZE as int,
                );
            }
            return Err(TestError::MemoryMismatch { addr });
        }
        addr = addr + 1;
    }
    Ok(())
}

/// How a run ended.
pub enum RunEnd {
    /// The termination signal was set.
    Ended,
    /// The stage register at this position was bubbled and stalled at once.
    Clash(int),
    /// The cycles that were allowed were used up.
    Limit,
}

/// What a run has come to: the signals, the state of the machine, the
/// tunnels of the last cycle, where the simulator stands, the number of
/// cycles that were counted, and how the run ended.
pub struct Run {
    pub wires: Wires,
    pub machine: Machine,
    pub tunnels: Seq<Name>,
    pub status: CpuStatus,
    pub cycles: nat,
    pub end: RunEnd,
}

/// What running the circuit of `sim` for at most `fuel` cycles more comes
/// to: cycle follows cycle, each beginning with the stage registers in the
/// state that the one before has driven, until a cycle sets the termination
/// signal or fails. A cycle that fails is not counted.
pub open spec fn spec_run(sim: PipeSim, at: Run, fuel: nat) -> Run
    decreases fuel,
{
    if fuel == 0 {
        Run { end: RunEnd::Limit, ..at }
    } else {
        let c = cycle_of(sim, at.wires, at.machine);
        match c.clash {
            Some(stage) => Run {
                wires: c.wires,
                machine: c.machine,
                tunnels: c.tunnels,
                end: RunEnd::Clash(stage),
                ..at
            },
            None => if sim.ends_on(c.wires) {
                Run {
                    wires: c.wires,
                    machine: c.machine,
                    tunnels: c.tunnels,
                    status: CpuStatus::CycleEnd,
                    cycles: at.cycles + 1,
                    end: RunEnd::Ended,
                }
            } else {
                spec_run(
                    sim,
                    Run {
                        wires: Wires { cur_state: c.wires.nex_state, ..c.wires },
                        machine: c.machine,
                        tunnels: c.tunnels,
                        status: CpuStatus::CycleStart,
                        cycles: at.cycles + 1,
                        end: RunEnd::Limit,
                    },
                    (fuel - 1) as nat,
                )
            },
        }
    }
}

/// Where a simulator stands, as the beginning of a run.
pub open spec fn start_of(sim: PipeSim, cycles: nat) -> Run {
    Run {
        wires: sim.signals@,
        machine: sim.units@,
        tunnels: sim.tracer@,
        status: sim.status,
        cycles,
        end: RunEnd::Limit,
    }
}

/// Whether `end` and `res` are what running the simulator `start` to its
/// end gives. A simulator whose program has ended is left as it is. Any
/// other runs for `MAX_CYCLES` cycles at most: the run ends well where a
/// cycle sets the termination signal, and fails where a stage register is
/// bubbled and stalled at once or where the cycles are used up.
pub open spec fn is_end(start: PipeSim, end: PipeSim, res: Result<(), TestError>) -> bool {
    &&& same_circuit(end, start)
    &&& end.tty_out == start.tty_out
    &&& start.terminate ==> res is Ok && end == start
    &&& !start.terminate ==> ({
        let run = spec_run(start, start_of(start, 0), MAX_CYCLES as nat);
        &&& end.signals@ == run.wires
        &&& end.units@ == run.machine
        &&& end.tracer@ == run.tunnels
        &&& end.status == run.status
        &&& end.cycle_count == counted(start.cycle_count, run.cycles)
        &&& match run.end {
            RunEnd::Ended => res is Ok && end.terminate,
            RunEnd::Clash(stage) => !end.terminate && 0 <= stage < start.hardware.stages@.len()
                && (res matches Err(TestError::Sim(SimError::BubbleAndStall(name))) && name@
                == start.hardware.stages@[stage].name@),
            RunEnd::Limit => !end.terminate && res == Err::<(), TestError>(
                TestError::CycleLimit,
            ),
        }
    })
}

/// Runs a simulator until its program has ended, for `MAX_CYCLES` cycles at
/// most. A simulator whose program has ended already is left as it is.
pub fn run_to_end(sim: &mut PipeSim) -> (res: Result<(), TestError>)
    ensures
        is_end(*old(sim), *final(sim), res),
{
    let mut cycles: u64 = 0;
    while !sim.is_terminate()
        invariant
            cycles <= MAX_CYCLES,
            same_circuit(*sim, *old(sim)),
            sim.tty_out == old(sim).tty_out,
            old(sim).terminate ==> *sim == *old(sim),
            !old(sim).terminate && !sim.terminate ==> spec_run(
                *old(sim),
                start_of(*old(sim), 0),
                MAX_CYCLES as nat,
            ) == spec_run(*old(sim), start_of(*sim, cycles as nat), (MAX_CYCLES - cycles) as nat)
                && sim.cycle_count == counted(old(sim).cycle_count, cycles as nat),
            !old(sim).terminate && sim.terminate ==> ({
                let run = spec_run(*old(sim), start_of(*old(sim), 0), MAX_CYCLES as nat);
                &&& run.end is Ended
                &&& sim.signals@ == run.wires
                &&& sim.units@ == run.machine
                &&& sim.tracer@ == run.tunnels
                &&& sim.status == run.status
                &&& sim.cycle_count == counted(old(sim).cycle_count, run.cycles)
            }),
        decreases MAX_CYCLES - cycles,
    {
        if cycles >= MAX_CYCLES {
            return Err(TestError::CycleLimit);
        }
        assert(cycle_of(*old(sim), sim.signals@, sim.units@) == sim.cycle_end());
        match sim.step() {
            Err(e) => {
                return Err(TestError::Sim(e));
            },
            Ok(()) => {},
        }
        cycles = cycles + 1;
    }
    Ok(())
}

/// Checks one architecture.
#[derive(Debug)]
pub struct SimTester {
    pub arch: String,
}

impl SimTester {
    /// A tester of the architecture `arch`, if there is such an
    /// architecture.
    pub fn new(arch: &str) -> (tester: Option<SimTester>)
        ensures
            tester is Some <==> spec_arch_names().contains(arch@),
            tester matches Some(t) ==> t.arch@ == arch@,
    {
        let names = crate::architectures::arch_names();
        let mut i: usize = 0;
        while i < names.len()
            invariant
                i <= names@.len(),
                names@.len() == 4,
                forall|j: int| 0 <= j < 4 ==> (#[trigger] names@[j])@ == spec_arch_names()[j],
                forall|j: int| 0 <= j < i ==> spec_arch_names()[j] != arch@,
            decreases names@.len() - i,
        {
            if crate::framework::names::same_name(names[i], arch) {
                assert(spec_arch_names()[i as int] == arch@);
                return Some(SimTester { arch: arch.to_owned() });
            }
            i = i + 1;
        }
        None
    }

    /// Assembles a program and runs it on the architecture until it ends.
    /// A program that cannot be assembled is refused with the error of the
    /// assembler.
    pub fn simulate(&self, src: &str) -> (res: Result<PipeSim, TestError>)
        ensures
            is_simulation(self.arch@, src@, res),
            res matches Ok(sim) ==> sim.terminate && !sim.tty_out,
    {
        let assembled = assemble(src, AssembleOption::default().set_verbose(false));
        let ghost given = assembled;
        let res = match assembled {
            Ok(obj) => run_image(self.arch.as_str(), obj.obj.init_mem()),
            Err(e) => Err(TestError::Assemble(e)),
        };
        assert(is_assembly(src@, given) && match given {
            Ok(obj) => is_run(self.arch@, obj.obj.binary@, res),
            Err(e) => res == Err::<PipeSim, TestError>(TestError::Assemble(e)),
        });
        res
    }

    /// Checks the architecture on a program: the registers and the memory
    /// with which the simulation ends must be those with which the
    /// reference interpreter ends.
    pub fn test_isa(&self, src: &str) -> (res: Result<(), TestError>)
        ensures
            is_test(self.arch@, src@, res),
    {
        let assembled = assemble(src, AssembleOption::default().set_verbose(false));
        let ghost given = assembled;
        let res = match assembled {
            Ok(obj) => check_image(self.arch.as_str(), &obj.obj),
            Err(e) => Err(TestError::Assemble(e)),
        };
        assert(is_assembly(src@, given) && match given {
            Ok(obj) => is_check(self.arch@, obj.obj.binary@, res),
            Err(e) => res == Err::<(), TestError>(TestError::Assemble(e)),
        });
        res
    }
}

/// Whether `res` is what running the image of a program on the architecture
/// named `arch` gives: the simulator in which the run has ended, or the
/// error of the architecture or of the run.
pub open spec fn is_run(arch: Name, image: Seq<u8>, res: Result<PipeSim, TestError>) -> bool {
    exists|made: Result<PipeSim, CreateError>|
        is_sim(arch, image, false, made) && match made {
            Ok(start) => exists|end: PipeSim, ran: Result<(), TestError>|
                is_end(start, end, ran) && match ran {
                    Ok(_) => res == Ok::<PipeSim, TestError>(end),
                    Err(e) => res == Err::<PipeSim, TestError>(e),
                },
            Err(e) => res == Err::<PipeSim, TestError>(TestError::Create(e)),
        }
}

/// Whether `res` is what assembling a program and running it on the
/// architecture named `arch` gives.
pub open spec fn is_simulation(arch: Name, src: Seq<char>, res: Result<PipeSim, TestError>) -> bool {
    exists|assembled: Result<ObjectExt, AsmError>|
        is_assembly(src, assembled) && match assembled {
            Ok(obj) => is_run(arch, obj.obj.binary@, res),
            Err(e) => res == Err::<PipeSim, TestError>(TestError::Assemble(e)),
        }
}

/// Runs the image of a program on the architecture named `arch`.
pub fn run_image(arch: &str, image: MemData) -> (res: Result<PipeSim, TestError>)
    ensures
        is_run(arch@, image@, res),
        res matches Ok(sim) ==> sim.terminate && !sim.tty_out,
{
    let made = create_sim(arch, image, false);
    let ghost given = made;
    match made {
        Err(e) => {
            let res = Err(TestError::Create(e));
            assert(is_sim(arch@, image@, false, given) && res == Err::<PipeSim, TestError>(
                TestError::Create(e),
            ));
            res
        },
        Ok(sim) => {
            let mut sim = sim;
            let ghost start = sim;
            let ran = run_to_end(&mut sim);
            let ghost end = sim;
            let res = match ran {
                Ok(()) => Ok(sim),
                Err(e) => Err(e),
            };
            assert(is_end(start, end, ran) && match ran {
                Ok(_) => res == Ok::<PipeSim, TestError>(end),
                Err(e) => res == Err::<PipeSim, TestError>(e),
            });
            assert(is_sim(arch@, image@, false, given));
            res
        },
    }
}

/// The state in which the reference interpreter begins to run an image.
pub open spec fn reference_start(image: Seq<u8>) -> IsaState {
    IsaState {
        mem: image,
        regs: Seq::new(16, |i: int| 0u64),
        cc: ConditionCode { sf: false, of: false, zf: false },
        pc: 0,
    }
}

/// Whether `res` is what checking the architecture named `arch` on the
/// image of a program gives. The reference interpreter runs the image for
/// `MAX_CYCLES` instructions at most; where it gives up, so does the check.
/// Else the architecture runs the image, and where its run ends, the state
/// in which it ends is compared with the state of the reference.
pub open spec fn is_check(arch: Name, image: Seq<u8>, res: Result<(), TestError>) -> bool {
    match crate::isa::interp::spec_run(reference_start(image), MAX_CYCLES as nat, 0) {
        Err(e) => res == Err::<(), TestError>(TestError::Reference(e)),
        Ok((state, count)) => exists|ran: Result<PipeSim, TestError>|
            is_run(arch, image, ran) && match ran {
                Err(e) => res == Err::<(), TestError>(e),
                Ok(sim) => exists|answer: StandardResult|
                    answer@ == state && is_comparison(sim, answer, res),
            },
    }
}

/// Whether `res` is what assembling a program and checking the architecture
/// named `arch` on it gives.
pub open spec fn is_test(arch: Name, src: Seq<char>, res: Result<(), TestError>) -> bool {
    exists|assembled: Result<ObjectExt, AsmError>|
        is_assembly(src, assembled) && match assembled {
            Ok(obj) => is_check(arch, obj.obj.binary@, res),
            Err(e) => res == Err::<(), TestError>(TestError::Assemble(e)),
        }
}

/// Checks the architecture named `arch` on the image of a program.
pub fn check_image(arch: &str, obj: &Object) -> (res: Result<(), TestError>)
    ensures
        is_check(arch@, obj.binary@, res),
{
    let answer = match simulate(obj.init_mem(), MAX_CYCLES) {
        Ok(answer) => answer,
        Err(e) => {
            return Err(TestError::Reference(e));
        },
    };
    let ran = run_image(arch, obj.init_mem());
    let ghost given = ran;
    match ran {
        Err(e) => {
            assert(is_run(arch@, obj.binary@, given));
            Err(e)
        },
        Ok(sim) => {
            let res = compare(&sim, &answer);
            assert(answer@ == crate::isa::interp::spec_run(
                reference_start(obj.binary@),
                MAX_CYCLES as nat,
                0,
            )->Ok_0.0 && is_comparison(sim, answer, res));
            assert(is_run(arch@, obj.binary@, given));
            res
        },
    }
}

} // verus!
