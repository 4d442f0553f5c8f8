//! The reference interpreter: it executes machine code instruction by
//! instruction, as the instruction set defines it. The architectures are
//! checked against it.
use vstd::prelude::*;
use crate::framework::{in_range, MemData, MEM_SIZE};
use crate::hardware::{register_read, register_write, spec_register_read, spec_register_write};
use crate::isa::decode::{decode, spec_decode, spec_length, Decoded};
use crate::isa::inst_code::{
    CALL, CMOVX, HALT, IOPQ, IRMOVQ, JX, MRMOVQ, NOP, OPQ, POPQ, PUSHQ, RET, RMMOVQ,
};
use crate::isa::reg_code::{RNONE, RSP};
use crate::isa::{
    arithmetic_compute, spec_arithmetic, wrapping_difference, wrapping_sum, ConditionCode, RegFile,
};
use crate::utils::{le_bytes, le_u64};

verus! {

/// Why the interpreter gave up.
#[derive(Debug, Clone, Copy, PartialEq, Eq, Structural)]
pub enum IsaError {
    /// The function code does not go with the instruction code.
    InvalidIfun { icode: u8, ifun: u8 },
    /// The register byte names a register where the instruction has none.
    InvalidRegister(u8),
    /// An instruction or a word lies outside the memory.
    InvalidAddress(u64),
    /// The instruction code names no instruction.
    UnknownIcode(u8),
    /// The program has not halted within the given number of instructions.
    StepLimit,
}

/// The state of the machine as the instruction set sees it.
pub struct IsaState {
    pub mem: Seq<u8>,
    pub regs: Seq<u64>,
    pub cc: ConditionCode,
    pub pc: u64,
}

/// What the execution of one instruction leads to.
pub enum Outcome {
    /// The next state.
    Next(IsaState),
    /// The instruction was `halt`.
    Halt,
    Fault(IsaError),
}

/// The word at `addr`.
pub open spec fn word_at(mem: Seq<u8>, addr: u64) -> u64 {
    le_u64(mem.subrange(addr as int, addr as int + 8)) as u64
}

/// The memory with `val` stored at `addr`.
pub open spec fn stored(mem: Seq<u8>, addr: u64, val: u64) -> Seq<u8> {
    mem.subrange(0, addr as int) + le_bytes(val) + mem.subrange(addr as int + 8, MEM_SIZE as int)
}

/// What the instruction `d` at `s.pc` leads to from the state `s`. The
/// register code `RNONE` names no register: what an instruction reads from
/// it is 0, and what it writes to it is discarded.
pub open spec fn spec_execute(s: IsaState, d: Decoded) -> Outcome {
    let next = wrapping_sum(s.pc, spec_length(d.icode) as u64);
    let bad_ifun = Outcome::Fault(IsaError::InvalidIfun { icode: d.icode, ifun: d.ifun });
    let rsp = s.regs[RSP as int];
    if d.icode == HALT {
        if d.ifun != 0 {
            bad_ifun
        } else {
            Outcome::Halt
        }
    } else if d.icode == NOP {
        if d.ifun != 0 {
            bad_ifun
        } else {
            Outcome::Next(IsaState { pc: next, ..s })
        }
    } else if d.icode == CMOVX {
        Outcome::Next(
            IsaState {
                regs: if s.cc.spec_test(d.ifun) {
                    spec_register_write(s.regs, d.rb, spec_register_read(s.regs, d.ra))
                } else {
                    s.regs
                },
                pc: next,
                ..s
            },
        )
    } else if d.icode == IRMOVQ {
        if d.ifun != 0 {
            bad_ifun
        } else if d.ra != RNONE {
            Outcome::Fault(IsaError::InvalidRegister(d.ra))
        } else {
            Outcome::Next(IsaState { regs: spec_register_write(s.regs, d.rb, d.valc), pc: next, ..s })
        }
    } else if d.icode == RMMOVQ {
        let addr = wrapping_sum(spec_register_read(s.regs, d.rb), d.valc);
        if d.ifun != 0 {
            bad_ifun
        } else if !in_range(addr) {
            Outcome::Fault(IsaError::InvalidAddress(addr))
        } else {
            Outcome::Next(IsaState { mem: stored(s.mem, addr, spec_register_read(s.regs, d.ra)), pc: next, ..s })
        }
    } else if d.icode == MRMOVQ {
        let addr = wrapping_sum(spec_register_read(s.regs, d.rb), d.valc);
        if d.ifun != 0 {
            bad_ifun
        } else if !in_range(addr) {
            Outcome::Fault(IsaError::InvalidAddress(addr))
        } else {
            Outcome::Next(
                IsaState { regs: spec_register_write(s.regs, d.ra, word_at(s.mem, addr)), pc: next, ..s },
            )
        }
    } else if d.icode == OPQ {
        match spec_arithmetic(spec_register_read(s.regs, d.ra), spec_register_read(s.regs, d.rb), d.ifun) {
            None => bad_ifun,
            Some(e) => Outcome::Next(
                IsaState {
                    regs: spec_register_write(s.regs, d.rb, e),
                    cc: ConditionCode::flags_of(spec_register_read(s.regs, d.ra), spec_register_read(s.regs, d.rb), e, d.ifun),
                    pc: next,
                    ..s
                },
            ),
        }
    } else if d.icode == JX {
        Outcome::Next(
            IsaState {
                pc: if s.cc.spec_test(d.ifun) {
                    d.valc
                } else {
                    next
                },
                ..s
            },
        )
    } else if d.icode == CALL {
        let top = wrapping_difference(8, rsp);
        if d.ifun != 0 {
            bad_ifun
        } else if !in_range(top) {
            Outcome::Fault(IsaError::InvalidAddress(top))
        } else {
            Outcome::Next(
                IsaState {
                    mem: stored(s.mem, top, next),
                    regs: s.regs.update(RSP as int, top),
                    pc: d.valc,
                    ..s
                },
            )
        }
    } else if d.icode == RET {
        if d.ifun != 0 {
            bad_ifun
        } else if !in_range(rsp) {
            Outcome::Fault(IsaError::InvalidAddress(rsp))
        } else {
            Outcome::Next(
                IsaState {
                    regs: s.regs.update(RSP as int, wrapping_sum(rsp, 8)),
                    pc: word_at(s.mem, rsp),
                    ..s
                },
            )
        }
    } else if d.icode == PUSHQ {
        let top = wrapping_difference(8, rsp);
        if d.ifun != 0 {
            bad_ifun
        } else if !in_range(top) {
            Outcome::Fault(IsaError::InvalidAddress(top))
        } else {
            Outcome::Next(
                IsaState {
                    mem: stored(s.mem, top, spec_register_read(s.regs, d.ra)),
                    regs: s.regs.update(RSP as int, top),
                    pc: next,
                    ..s
                },
            )
        }
    } else if d.icode == POPQ {
        if d.ifun != 0 {
            bad_ifun
        } else if !in_range(rsp) {
            Outcome::Fault(IsaError::InvalidAddress(rsp))
        } else {
            Outcome::Next(
                IsaState {
                    regs: spec_register_write(
                        s.regs.update(RSP as int, wrapping_sum(rsp, 8)),
                        d.ra,
                        word_at(s.mem, rsp),
                    ),
                    pc: next,
                    ..s
                },
            )
        }
    } else if d.icode == IOPQ {
        if d.ra != RNONE {
            Outcome::Fault(IsaError::InvalidRegister(d.ra))
        } else {
            match spec_arithmetic(d.valc, spec_register_read(s.regs, d.rb), d.ifun) {
                None => bad_ifun,
                Some(e) => Outcome::Next(
                    IsaState {
                        regs: spec_register_write(s.regs, d.rb, e),
                        cc: ConditionCode::flags_of(d.valc, spec_register_read(s.regs, d.rb), e, d.ifun),
                        pc: next,
                        ..s
                    },
                ),
            }
        }
    } else {
        Outcome::Fault(IsaError::UnknownIcode(d.icode))
    }
}

/// What the instruction at `s.pc` leads to.
pub open spec fn spec_step(s: IsaState) -> Outcome {
    match spec_decode(s.mem, s.pc) {
        None => Outcome::Fault(IsaError::InvalidAddress(s.pc)),
        Some(d) => spec_execute(s, d),
    }
}

/// The state in which the program halts when it starts from `s`, with the
/// number of instructions that it executes, the `halt` and `done` earlier
/// ones included; or the fault that ends it. A program that has not halted
/// after `fuel` instructions is given up.
pub open spec fn spec_run(s: IsaState, fuel: nat, done: nat) -> Result<(IsaState, nat), IsaError>
    decreases fuel,
{
    if fuel == 0 {
        Err(IsaError::StepLimit)
    } else {
        match spec_step(s) {
            Outcome::Halt => Ok((s, done + 1)),
            Outcome::Fault(e) => Err(e),
            Outcome::Next(next) => spec_run(next, (fuel - 1) as nat, done + 1),
        }
    }
}

/// The result of running machine code on the instruction set.
pub struct StandardResult {
    pub bin: MemData,
    pub cc: ConditionCode,
    pub regs: RegFile,
    pub pc: u64,
    pub n_insts: u64,
}

impl View for StandardResult {
    type V = IsaState;

    open spec fn view(&self) -> IsaState {
        IsaState { mem: self.bin@, regs: self.regs@, cc: self.cc, pc: self.pc }
    }
}

/// What one step of the interpreter came to.
#[derive(Debug, Clone, Copy, PartialEq, Eq, Structural)]
pub enum Stepped {
    Next,
    Halt,
    Fault(IsaError),
}

/// Executes the instruction at the program counter. The state is changed
/// only where the answer is `Next`.
pub fn step(state: &mut StandardResult) -> (out: Stepped)
    ensures
        final(state).n_insts == old(state).n_insts,
        match spec_step(old(state)@) {
            Outcome::Next(next) => out == Stepped::Next && final(state)@ == next,
            Outcome::Halt => out == Stepped::Halt && final(state)@ == old(state)@,
            Outcome::Fault(e) => out == Stepped::Fault(e) && final(state)@ == old(state)@,
        },
{
    let size: usize = state.bin.size();
    let d: Decoded = match decode(state.bin.read(), state.pc) {
        None => {
            return Stepped::Fault(IsaError::InvalidAddress(state.pc));
        },
        Some(d) => d,
    };
    let next: u64 = crate::isa::decode::length(d.icode).wrapping_add(state.pc);
    let bad_ifun = Stepped::Fault(IsaError::InvalidIfun { icode: d.icode, ifun: d.ifun });
    let rsp: u64 = state.regs[RSP as usize];
    if d.icode == HALT {
        if d.ifun != 0 {
            return bad_ifun;
        }
        Stepped::Halt
    } else if d.icode == NOP {
        if d.ifun != 0 {
            return bad_ifun;
        }
        state.pc = next;
        Stepped::Next
    } else if d.icode == CMOVX {
        if state.cc.test(d.ifun) {
            let val: u64 = register_read(&state.regs, d.ra);
            register_write(&mut state.regs, d.rb, val);
        }
        state.pc = next;
        Stepped::Next
    } else if d.icode == IRMOVQ {
        if d.ifun != 0 {
            return bad_ifun;
        }
        if d.ra != RNONE {
            return Stepped::Fault(IsaError::InvalidRegister(d.ra));
        }
        register_write(&mut state.regs, d.rb, d.valc);
        state.pc = next;
        Stepped::Next
    } else if d.icode == RMMOVQ {
        if d.ifun != 0 {
            return bad_ifun;
        }
        let addr: u64 = d.valc.wrapping_add(register_read(&state.regs, d.rb));
        let val: u64 = register_read(&state.regs, d.ra);
        if !state.bin.store(addr, val) {
            return Stepped::Fault(IsaError::InvalidAddress(addr));
        }
        state.pc = next;
        Stepped::Next
    } else if d.icode == MRMOVQ {
        if d.ifun != 0 {
            return bad_ifun;
        }
        let addr: u64 = d.valc.wrapping_add(register_read(&state.regs, d.rb));
        match state.bin.load(addr) {
            None => Stepped::Fault(IsaError::InvalidAddress(addr)),
            Some(val) => {
                register_write(&mut state.regs, d.ra, val);
                state.pc = next;
                Stepped::Next
            },
        }
    } else if d.icode == OPQ {
        let va: u64 = register_read(&state.regs, d.ra);
        let vb: u64 = register_read(&state.regs, d.rb);
        match arithmetic_compute(va, vb, d.ifun) {
            None => bad_ifun,
            Some(e) => {
                state.cc.set(va, vb, e, d.ifun);
                register_write(&mut state.regs, d.rb, e);
                state.pc = next;
                Stepped::Next
            },
        }
    } else if d.icode == JX {
        if state.cc.test(d.ifun) {
            state.pc = d.valc;
        } else {
            state.pc = next;
        }
        Stepped::Next
    } else if d.icode == CALL {
        if d.ifun != 0 {
            return bad_ifun;
        }
        let top: u64 = rsp.wrapping_sub(8);
        if !state.bin.store(top, next) {
            return Stepped::Fault(IsaError::InvalidAddress(top));
        }
        state.regs[RSP as usize] = top;
        state.pc = d.valc;
        Stepped::Next
    } else if d.icode == RET {
        if d.ifun != 0 {
            return bad_ifun;
        }
        match state.bin.load(rsp) {
            None => Stepped::Fault(IsaError::InvalidAddress(rsp)),
            Some(val) => {
                state.regs[RSP as usize] = rsp.wrapping_add(8);
                state.pc = val;
                Stepped::Next
            },
        }
    } else if d.icode == PUSHQ {
        if d.ifun != 0 {
            return bad_ifun;
        }
        let top: u64 = rsp.wrapping_sub(8);
        let val: u64 = register_read(&state.regs, d.ra);
        if !state.bin.store(top, val) {
            return Stepped::Fault(IsaError::InvalidAddress(top));
        }
        state.regs[RSP as usize] = top;
        state.pc = next;
        Stepped::Next
    } else if d.icode == POPQ {
        if d.ifun != 0 {
            return bad_ifun;
        }
        match state.bin.load(rsp) {
            None => Stepped::Fault(IsaError::InvalidAddress(rsp)),
            Some(val) => {
                state.regs[RSP as usize] = rsp.wrapping_add(8);
                register_write(&mut state.regs, d.ra, val);
                state.pc = next;
                Stepped::Next
            },
        }
    } else if d.icode == IOPQ {
        if d.ra != RNONE {
            return Stepped::Fault(IsaError::InvalidRegister(d.ra));
        }
        let vb: u64 = register_read(&state.regs, d.rb);
        match arithmetic_compute(d.valc, vb, d.ifun) {
            None => bad_ifun,
            Some(e) => {
                state.cc.set(d.valc, vb, e, d.ifun);
                register_write(&mut state.regs, d.rb, e);
                state.pc = next;
                Stepped::Next
            },
        }
    } else {
        Stepped::Fault(IsaError::UnknownIcode(d.icode))
    }
}

/// Executes machine code as the instruction set defines it, from address 0,
/// with all registers at zero and all flags cleared, until it halts. It
/// supports the immediate arithmetic of the extended instruction set.
///
/// A program that has not halted after `max_insts` instructions is given
/// up.
#[verifier::loop_isolation(false)]
pub fn simulate(bin: MemData, max_insts: u64) -> (res: Result<StandardResult, IsaError>)
    ensures
        match res {
            Ok(end) => spec_run(
                IsaState {
                    mem: bin@,
                    regs: Seq::new(16, |i: int| 0u64),
                    cc: ConditionCode { sf: false, of: false, zf: false },
                    pc: 0,
                },
                max_insts as nat,
                0,
            ) == Ok::<(IsaState, nat), IsaError>((end@, end.n_insts as nat)),
            Err(e) => spec_run(
                IsaState {
                    mem: bin@,
                    regs: Seq::new(16, |i: int| 0u64),
                    cc: ConditionCode { sf: false, of: false, zf: false },
                    pc: 0,
                },
                max_insts as nat,
                0,
            ) == Err::<(IsaState, nat), IsaError>(e),
        },
{
    let mut state = StandardResult {
        bin,
        cc: ConditionCode { sf: false, of: false, zf: false },
        regs: [0u64; 16],
        pc: 0,
        n_insts: 0,
    };
    let ghost start = state@;
    assert(start.regs =~= Seq::new(16, |i: int| 0u64));
    while state.n_insts < max_insts
        invariant
            state.n_insts <= max_insts,
            spec_run(start, max_insts as nat, 0) == spec_run(
                state@,
                (max_insts - state.n_insts) as nat,
                state.n_insts as nat,
            ),
        decreases max_insts - state.n_insts,
    {
        match step(&mut state) {
            Stepped::Halt => {
                state.n_insts = state.n_insts + 1;
                return Ok(state);
            },
            Stepped::Fault(e) => {
                return Err(e);
            },
            Stepped::Next => {
                state.n_insts = state.n_insts + 1;
            },
        }
    }
    Err(IsaError::StepLimit)
}

} // verus!
