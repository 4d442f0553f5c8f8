//! The layout of instructions in memory.
//!
//! The first byte of an instruction holds the instruction code in its high
//! half and the function code in its low half. Where the instruction has
//! register operands, the second byte holds `rA` in its high half and `rB` in
//! its low half. Where it has a constant word, the word follows in
//! little-endian order.
use vstd::prelude::*;
use crate::isa::inst_code::{
    CALL, CMOVX, HALT, IOPQ, IRMOVQ, JX, MRMOVQ, NOP, OPQ, POPQ, PUSHQ, RET, RMMOVQ,
};
use crate::isa::reg_code::RNONE;
use crate::utils::le_u64;

verus! {

/// Whether an instruction with this code has a register byte.
pub open spec fn spec_has_regids(icode: u8) -> bool {
    icode == CMOVX || icode == OPQ || icode == PUSHQ || icode == POPQ || icode == IRMOVQ || icode
        == RMMOVQ || icode == MRMOVQ || icode == IOPQ
}

/// Whether an instruction with this code has a constant word.
pub open spec fn spec_has_valc(icode: u8) -> bool {
    icode == IRMOVQ || icode == RMMOVQ || icode == MRMOVQ || icode == JX || icode == CALL || icode
        == IOPQ
}

/// The length in bytes of an instruction with this code. A code that names
/// no instruction counts as one byte.
pub open spec fn spec_length(icode: u8) -> int {
    1 + (if spec_has_regids(icode) {
        1int
    } else {
        0
    }) + (if spec_has_valc(icode) {
        8int
    } else {
        0
    })
}

/// Whether an instruction with this code has a register byte.
pub fn has_regids(icode: u8) -> (b: bool)
    ensures
        b == spec_has_regids(icode),
{
    icode == CMOVX || icode == OPQ || icode == PUSHQ || icode == POPQ || icode == IRMOVQ || icode
        == RMMOVQ || icode == MRMOVQ || icode == IOPQ
}

/// Whether an instruction with this code has a constant word.
pub fn has_valc(icode: u8) -> (b: bool)
    ensures
        b == spec_has_valc(icode),
{
    icode == IRMOVQ || icode == RMMOVQ || icode == MRMOVQ || icode == JX || icode == CALL || icode
        == IOPQ
}

/// The length in bytes of an instruction with this code.
pub fn length(icode: u8) -> (len: u64)
    ensures
        len == spec_length(icode),
        1 <= len <= 10,
{
    let mut len: u64 = 1;
    if has_regids(icode) {
        len = len + 1;
    }
    if has_valc(icode) {
        len = len + 8;
    }
    len
}

/// The fields of an instruction as they stand in memory.
#[derive(Debug, Clone, Copy, PartialEq, Eq, Structural)]
pub struct Decoded {
    pub icode: u8,
    pub ifun: u8,
    /// The first register, or `RNONE` where the instruction has no register
    /// byte.
    pub ra: u8,
    /// The second register, or `RNONE` where the instruction has no register
    /// byte.
    pub rb: u8,
    /// The constant word, or 0 where the instruction has none.
    pub valc: u64,
}

/// The instruction at `pc`, or nothing where its bytes do not all lie
/// inside the memory.
pub open spec fn spec_decode(mem: Seq<u8>, pc: u64) -> Option<Decoded> {
    if pc >= mem.len() {
        None
    } else {
        let icode = mem[pc as int] / 16;
        let ifun = mem[pc as int] % 16;
        let word_at = pc + (if spec_has_regids(icode) {
            2int
        } else {
            1
        });
        if pc + spec_length(icode) > mem.len() {
            None
        } else {
            Some(
                Decoded {
                    icode,
                    ifun,
                    ra: if spec_has_regids(icode) {
                        mem[pc + 1] / 16
                    } else {
                        RNONE
                    },
                    rb: if spec_has_regids(icode) {
                        mem[pc + 1] % 16
                    } else {
                        RNONE
                    },
                    valc: if spec_has_valc(icode) {
                        le_u64(mem.subrange(word_at, word_at + 8)) as u64
                    } else {
                        0
                    },
                },
            )
        }
    }
}

/// Decodes the instruction at `pc`.
pub fn decode(mem: &Vec<u8>, pc: u64) -> (res: Option<Decoded>)
    ensures
        res == spec_decode(mem@, pc),
{
    let size: usize = mem.len();
    if pc >= size as u64 {
        return None;
    }
    let at: usize = pc as usize;
    let first: u8 = mem[at];
    let icode: u8 = first / 16;
    let ifun: u8 = first % 16;
    let len: u64 = length(icode);
    if len as usize > size - at {
        return None;
    }
    let mut ra: u8 = RNONE;
    let mut rb: u8 = RNONE;
    let mut word_at: usize = at + 1;
    if has_regids(icode) {
        ra = mem[at + 1] / 16;
        rb = mem[at + 1] % 16;
        word_at = at + 2;
    }
    let mut valc: u64 = 0;
    if has_valc(icode) {
        let word = vstd::slice::slice_subrange(mem.as_slice(), word_at, word_at + 8);
        valc = crate::utils::get_u64(word);
    }
    Some(Decoded { icode, ifun, ra, rb, valc })
}

} // verus!
