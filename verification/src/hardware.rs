//! The functional units that the built-in architectures are made of. Each
//! unit is a function from its inputs, and from the state that the machine
//! owns, to its outputs; only the register file, the condition-code register
//! and the data memory change state.
use vstd::prelude::*;
use crate::framework::{in_range, MemData, MEM_SIZE};
use crate::isa::{arithmetic_compute, spec_arithmetic, wrapping_sum, ConditionCode, RegFile};
use crate::isa::reg_code::RNONE;
use crate::utils::{get_u64, le_bytes, le_u64};

verus! {

/// The constant -8 as a 64-bit word: what `call` and `pushq` add to the
/// stack pointer.
pub const NEG_8: u64 = 0xffff_ffff_ffff_fff8;

/// What the instruction memory hands out for one address.
#[derive(Debug, Clone, Copy)]
pub struct Fetched {
    /// The ten bytes from the address on do not all lie inside the memory.
    pub error: bool,
    pub icode: u8,
    pub ifun: u8,
    /// The nine bytes that follow the first byte of the instruction.
    pub align: [u8; 9],
}

/// Whether an instruction can be fetched at `pc`: the ten bytes from `pc` on
/// lie inside the memory.
pub open spec fn fetchable(pc: u64) -> bool {
    pc + 10 <= MEM_SIZE
}

/// The instruction memory. Out of range it reports an error and gives zero
/// for the other outputs.
pub fn instruction_memory(mem: &MemData, pc: u64) -> (out: Fetched)
    ensures
        out.error == !fetchable(pc),
        fetchable(pc) ==> out.icode == mem@[pc as int] / 16 && out.ifun == mem@[pc as int] % 16
            && out.align@ == mem@.subrange(pc as int + 1, pc as int + 10),
        !fetchable(pc) ==> out.icode == 0 && out.ifun == 0 && out.align@ == Seq::new(
            9,
            |i: int| 0u8,
        ),
{
    let mut align: [u8; 9] = [0u8; 9];
    if pc > (MEM_SIZE - 10) as u64 {
        assert(align@ =~= Seq::new(9, |i: int| 0u8));
        return Fetched { error: true, icode: 0, ifun: 0, align };
    }
    let bytes = mem.read();
    let at: usize = pc as usize;
    let first: u8 = bytes[at];
    let mut i: usize = 0;
    while i < 9
        invariant
            i <= 9,
            at + 10 <= MEM_SIZE,
            bytes@.len() == MEM_SIZE,
            forall|j: int| 0 <= j < i ==> align@[j] == bytes@[at + 1 + j],
        decreases 9 - i,
    {
        align[i] = bytes[at + 1 + i];
        i = i + 1;
    }
    assert(align@ =~= bytes@.subrange(at + 1, at + 10));
    Fetched { error: false, icode: first / 16, ifun: first % 16, align }
}

/// The instruction memory of the byte scanner: the two halves of the byte at
/// `pc` as `(lower, higher, error)`. Out of range it reports an error and
/// gives zero for both halves.
pub fn nibble_memory(mem: &MemData, pc: u64) -> (out: (u8, u8, bool))
    ensures
        out.2 == (pc >= MEM_SIZE),
        pc < MEM_SIZE ==> out.0 == mem@[pc as int] % 16 && out.1 == mem@[pc as int] / 16,
        pc >= MEM_SIZE ==> out.0 == 0 && out.1 == 0,
{
    if pc >= MEM_SIZE as u64 {
        return (0, 0, true);
    }
    let bytes = mem.read();
    let b: u8 = bytes[pc as usize];
    (b % 16, b / 16, false)
}

/// The register ids and the constant word of an instruction, as
/// `(ra, rb, valc)`. With `need_regids` the first byte holds the two ids and
/// the word follows it; without, both ids are `RNONE` and the word starts at
/// the first byte.
pub fn align_split(need_regids: bool, align: &[u8; 9]) -> (out: (u8, u8, u64))
    ensures
        need_regids ==> out.0 == align@[0] / 16 && out.1 == align@[0] % 16 && out.2 == le_u64(
            align@.subrange(1, 9),
        ),
        !need_regids ==> out.0 == RNONE && out.1 == RNONE && out.2 == le_u64(
            align@.subrange(0, 8),
        ),
{
    let bytes = vstd::array::array_as_slice(align);
    if need_regids {
        let ids: u8 = align[0];
        let rest = vstd::slice::slice_subrange(bytes, 1, 9);
        (ids / 16, ids % 16, get_u64(rest))
    } else {
        let rest = vstd::slice::slice_subrange(bytes, 0, 8);
        (RNONE, RNONE, get_u64(rest))
    }
}

/// The length in bytes of an instruction with or without a register byte and
/// a constant word.
pub open spec fn instruction_length(need_valc: bool, need_regids: bool) -> u64 {
    (1 + (if need_regids { 1int } else { 0 }) + (if need_valc { 8int } else { 0 })) as u64
}

/// The address of the instruction that follows the one at `old_pc`. The
/// adder is 64 bits wide: past the largest address it wraps around.
pub fn pc_increment(need_valc: bool, need_regids: bool, old_pc: u64) -> (new_pc: u64)
    ensures
        new_pc == wrapping_sum(old_pc, instruction_length(need_valc, need_regids)),
{
    let mut len: u64 = 1;
    if need_regids {
        len = len + 1;
    }
    if need_valc {
        len = len + 8;
    }
    len.wrapping_add(old_pc)
}

/// What a read port of the register file shows for the register `src`: the
/// register's value, or 0 where `src` names no register.
pub open spec fn spec_register_read(regs: Seq<u64>, src: u8) -> u64 {
    if src < RNONE {
        regs[src as int]
    } else {
        0
    }
}

/// The register file after a write port has stored `val` to `dst`. A write
/// to `RNONE`, or to a code that names no register, leaves it unchanged.
pub open spec fn spec_register_write(regs: Seq<u64>, dst: u8, val: u64) -> Seq<u64> {
    if dst < RNONE {
        regs.update(dst as int, val)
    } else {
        regs
    }
}

/// One read port of the register file.
pub fn register_read(regs: &RegFile, src: u8) -> (val: u64)
    ensures
        val == spec_register_read(regs@, src),
{
    if src < RNONE {
        regs[src as usize]
    } else {
        0
    }
}

/// One write port of the register file.
pub fn register_write(regs: &mut RegFile, dst: u8, val: u64)
    ensures
        final(regs)@ == spec_register_write(old(regs)@, dst, val),
        dst == RNONE ==> *final(regs) == *old(regs),
{
    if dst < RNONE {
        regs[dst as usize] = val;
    }
    assert(dst == RNONE ==> *regs =~= *old(regs));
}

/// The register file after both write ports have stored: first the E port,
/// then the M port, which wins where both name the same register.
pub open spec fn spec_register_write_both(
    regs: Seq<u64>,
    dste: u8,
    dstm: u8,
    vale: u64,
    valm: u64,
) -> Seq<u64> {
    spec_register_write(spec_register_write(regs, dste, vale), dstm, valm)
}

/// The write half of the single-cycle register file.
pub fn register_file_write(regs: &mut RegFile, dste: u8, dstm: u8, vale: u64, valm: u64)
    ensures
        final(regs)@ == spec_register_write_both(old(regs)@, dste, dstm, vale, valm),
{
    register_write(regs, dste, vale);
    register_write(regs, dstm, valm);
}

/// The read half of the single-cycle register file, as `(vala, valb)`. It
/// shows what the registers held when the cycle began.
pub fn register_file_read(regs: &RegFile, srca: u8, srcb: u8) -> (out: (u64, u64))
    ensures
        out.0 == spec_register_read(regs@, srca),
        out.1 == spec_register_read(regs@, srcb),
{
    (register_read(regs, srca), register_read(regs, srcb))
}

/// The register file of the pipelined organisation, as `(vala, valb)`. It
/// writes before it reads, so that a value written in a cycle is read in the
/// same cycle.
pub fn register_file(
    regs: &mut RegFile,
    srca: u8,
    srcb: u8,
    dste: u8,
    dstm: u8,
    vale: u64,
    valm: u64,
) -> (out: (u64, u64))
    ensures
        final(regs)@ == spec_register_write_both(old(regs)@, dste, dstm, vale, valm),
        out.0 == spec_register_read(final(regs)@, srca),
        out.1 == spec_register_read(final(regs)@, srcb),
{
    register_file_write(regs, dste, dstm, vale, valm);
    register_file_read(regs, srca, srcb)
}

/// What the arithmetic-logic unit puts out: the result of the operation, or
/// 0 for a function code that names no operation.
pub open spec fn spec_alu(a: u64, b: u64, fun: u8) -> u64 {
    match spec_arithmetic(a, b, fun) {
        Some(e) => e,
        None => 0,
    }
}

/// The arithmetic-logic unit.
pub fn alu(a: u64, b: u64, fun: u8) -> (e: u64)
    ensures
        e == spec_alu(a, b, fun),
{
    match arithmetic_compute(a, b, fun) {
        Some(e) => e,
        None => 0,
    }
}

/// The condition-code register after a cycle: the flags of the operation
/// where `set_cc` asks for them, the flags it held otherwise.
pub open spec fn spec_register_cc(
    cc: ConditionCode,
    set_cc: bool,
    a: u64,
    b: u64,
    e: u64,
    opfun: u8,
) -> ConditionCode {
    if set_cc {
        ConditionCode::flags_of(a, b, e, opfun)
    } else {
        cc
    }
}

/// The condition-code register. It puts out the flags that it holds after
/// the update.
pub fn register_cc(cc: &mut ConditionCode, set_cc: bool, a: u64, b: u64, e: u64, opfun: u8) -> (out:
    ConditionCode)
    ensures
        *final(cc) == spec_register_cc(*old(cc), set_cc, a, b, e, opfun),
        out == *final(cc),
{
    if set_cc {
        cc.set(a, b, e, opfun);
    }
    *cc
}

/// The unit that decides conditional moves and jumps.
pub fn condition(condfun: u8, cc: ConditionCode) -> (cnd: bool)
    ensures
        cnd == cc.spec_test(condfun),
{
    cc.test(condfun)
}

/// The memory after the data memory has run: with the word stored where a
/// write was asked for at an address in range, unchanged otherwise.
pub open spec fn spec_data_memory_after(
    mem: Seq<u8>,
    addr: u64,
    datain: u64,
    write: bool,
) -> Seq<u8> {
    if in_range(addr) && write {
        mem.subrange(0, addr as int) + le_bytes(datain) + mem.subrange(
            addr as int + 8,
            MEM_SIZE as int,
        )
    } else {
        mem
    }
}

/// The word that the data memory puts out: the word at `addr` where a read,
/// and no write, was asked for at an address in range; 0 otherwise.
pub open spec fn spec_data_memory_out(mem: Seq<u8>, addr: u64, read: bool, write: bool) -> u64 {
    if in_range(addr) && read && !write {
        le_u64(mem.subrange(addr as int, addr as int + 8)) as u64
    } else {
        0
    }
}

/// The data memory, as `(dataout, error)`. An address whose eight bytes do
/// not all lie inside the memory gives an error and leaves the memory as it
/// was. A write takes precedence over a read.
pub fn data_memory(mem: &mut MemData, addr: u64, datain: u64, read: bool, write: bool) -> (out: (
    u64,
    bool,
))
    ensures
        out.1 == !in_range(addr),
        out.0 == spec_data_memory_out(old(mem)@, addr, read, write),
        final(mem)@ == spec_data_memory_after(old(mem)@, addr, datain, write),
        out.1 ==> final(mem)@ == old(mem)@,
{
    if addr > (MEM_SIZE - 8) as u64 {
        return (0, true);
    }
    if write {
        let done: bool = mem.store(addr, datain);
        (0, false)
    } else if read {
        match mem.load(addr) {
            Some(val) => (val, false),
            None => (0, false),
        }
    } else {
        (0, false)
    }
}

/// A value that a write port stored is what a read port shows afterwards,
/// and a write to `RNONE` changes nothing.
pub proof fn lemma_register_write_read(regs: Seq<u64>, dst: u8, val: u64, src: u8)
    requires
        regs.len() == 16,
    ensures
        dst < RNONE && src == dst ==> spec_register_read(
            spec_register_write(regs, dst, val),
            src,
        ) == val,
        src != dst ==> spec_register_read(spec_register_write(regs, dst, val), src)
            == spec_register_read(regs, src),
        spec_register_write(regs, RNONE, val) == regs,
{
}

} // verus!
