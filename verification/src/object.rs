//! Instructions as the assembler knows them, and their binary form.
use vstd::prelude::*;
use crate::framework::names::{names_of, position, Name};
use crate::isa::decode::{spec_has_regids, spec_has_valc, spec_length, Decoded};
use crate::isa::inst_code;
use crate::utils::{byte_of, le_byte, le_bytes};

verus! {

/// The registers, and `RNONE` for "no register".
#[derive(Debug, Clone, Copy, PartialEq, Eq, Structural)]
pub enum Reg {
    RAX,
    RCX,
    RDX,
    RBX,
    RSP,
    RBP,
    RSI,
    RDI,
    R8,
    R9,
    R10,
    R11,
    R12,
    R13,
    R14,
    RNONE,
}

impl Reg {
    /// The code of the register.
    pub open spec fn spec_code(self) -> u8 {
        match self {
            Reg::RAX => 0,
            Reg::RCX => 1,
            Reg::RDX => 2,
            Reg::RBX => 3,
            Reg::RSP => 4,
            Reg::RBP => 5,
            Reg::RSI => 6,
            Reg::RDI => 7,
            Reg::R8 => 8,
            Reg::R9 => 9,
            Reg::R10 => 10,
            Reg::R11 => 11,
            Reg::R12 => 12,
            Reg::R13 => 13,
            Reg::R14 => 14,
            Reg::RNONE => 15,
        }
    }

    /// The code of the register.
    pub fn code(self) -> (c: u8)
        ensures
            c == self.spec_code(),
            c < 16,
    {
        match self {
            Reg::RAX => 0,
            Reg::RCX => 1,
            Reg::RDX => 2,
            Reg::RBX => 3,
            Reg::RSP => 4,
            Reg::RBP => 5,
            Reg::RSI => 6,
            Reg::RDI => 7,
            Reg::R8 => 8,
            Reg::R9 => 9,
            Reg::R10 => 10,
            Reg::R11 => 11,
            Reg::R12 => 12,
            Reg::R13 => 13,
            Reg::R14 => 14,
            Reg::RNONE => 15,
        }
    }

    /// The register with the given code, if the code is one.
    pub fn from_code(code: u8) -> (reg: Option<Reg>)
        ensures
            reg is Some <==> code < 16,
            reg matches Some(r) ==> r.spec_code() == code,
    {
        match code {
            0 => Some(Reg::RAX),
            1 => Some(Reg::RCX),
            2 => Some(Reg::RDX),
            3 => Some(Reg::RBX),
            4 => Some(Reg::RSP),
            5 => Some(Reg::RBP),
            6 => Some(Reg::RSI),
            7 => Some(Reg::RDI),
            8 => Some(Reg::R8),
            9 => Some(Reg::R9),
            10 => Some(Reg::R10),
            11 => Some(Reg::R11),
            12 => Some(Reg::R12),
            13 => Some(Reg::R13),
            14 => Some(Reg::R14),
            15 => Some(Reg::RNONE),
            _ => None,
        }
    }
}

/// The conditions of conditional moves and jumps.
#[derive(Debug, Clone, Copy, PartialEq, Eq, Structural)]
pub enum CondFn {
    /// Always: `jmp` and `rrmovq`.
    YES,
    LE,
    L,
    E,
    NE,
    GE,
    G,
}

impl CondFn {
    /// The code of the condition.
    pub open spec fn spec_code(self) -> u8 {
        match self {
            CondFn::YES => 0,
            CondFn::LE => 1,
            CondFn::L => 2,
            CondFn::E => 3,
            CondFn::NE => 4,
            CondFn::GE => 5,
            CondFn::G => 6,
        }
    }

    /// The code of the condition.
    pub fn code(self) -> (c: u8)
        ensures
            c == self.spec_code(),
            c < 7,
    {
        match self {
            CondFn::YES => 0,
            CondFn::LE => 1,
            CondFn::L => 2,
            CondFn::E => 3,
            CondFn::NE => 4,
            CondFn::GE => 5,
            CondFn::G => 6,
        }
    }

    /// The condition with the given code, if the code is one.
    pub fn from_code(code: u8) -> (cond: Option<CondFn>)
        ensures
            cond is Some <==> code < 7,
            cond matches Some(c) ==> c.spec_code() == code,
    {
        match code {
            0 => Some(CondFn::YES),
            1 => Some(CondFn::LE),
            2 => Some(CondFn::L),
            3 => Some(CondFn::E),
            4 => Some(CondFn::NE),
            5 => Some(CondFn::GE),
            6 => Some(CondFn::G),
            _ => None,
        }
    }
}

/// The operations of the arithmetic-logic unit.
#[derive(Debug, Clone, Copy, PartialEq, Eq, Structural)]
pub enum OpFn {
    ADD,
    SUB,
    AND,
    XOR,
}

impl OpFn {
    /// The code of the operation.
    pub open spec fn spec_code(self) -> u8 {
        match self {
            OpFn::ADD => 0,
            OpFn::SUB => 1,
            OpFn::AND => 2,
            OpFn::XOR => 3,
        }
    }

    /// The code of the operation.
    pub fn code(self) -> (c: u8)
        ensures
            c == self.spec_code(),
            c < 4,
    {
        match self {
            OpFn::ADD => 0,
            OpFn::SUB => 1,
            OpFn::AND => 2,
            OpFn::XOR => 3,
        }
    }

    /// The operation with the given code, if the code is one.
    pub fn from_code(code: u8) -> (op: Option<OpFn>)
        ensures
            op is Some <==> code < 4,
            op matches Some(o) ==> o.spec_code() == code,
    {
        match code {
            0 => Some(OpFn::ADD),
            1 => Some(OpFn::SUB),
            2 => Some(OpFn::AND),
            3 => Some(OpFn::XOR),
            _ => None,
        }
    }
}

/// A memory operand: a base register with an optional displacement.
#[derive(Debug, Clone, Copy, PartialEq, Eq, Structural)]
pub struct Addr(pub Option<u64>, pub Reg);

impl Addr {
    /// The displacement; 0 where none is written.
    pub open spec fn displacement(self) -> u64 {
        match self.0 {
            Some(d) => d,
            None => 0,
        }
    }
}

/// An immediate value: a number, or a label that stands for its address.
#[derive(Debug, Clone, PartialEq, Eq)]
pub enum Imm {
    Num(i64),
    Label(String),
}

/// The instructions. While a program is assembled its immediates are
/// numbers or labels; in the end they are words.
#[derive(Debug, Clone, PartialEq, Eq)]
pub enum Inst<ImmType> {
    HALT,
    NOP,
    /// `rrmovq rA, rB` and `cmovXX rA, rB`
    CMOVX(CondFn, Reg, Reg),
    /// `irmovq V, rB`
    IRMOVQ(Reg, ImmType),
    /// `rmmovq rA, D(rB)`
    RMMOVQ(Reg, Addr),
    /// `mrmovq D(rB), rA`
    MRMOVQ(Addr, Reg),
    OPQ(OpFn, Reg, Reg),
    JX(CondFn, ImmType),
    CALL(ImmType),
    RET,
    PUSHQ(Reg),
    POPQ(Reg),
    /// `iaddq V, rB` and the like
    IOPQ(OpFn, ImmType, Reg),
}

impl<ImmType> Inst<ImmType> {
    /// The instruction code.
    pub open spec fn spec_icode(self) -> u8 {
        match self {
            Inst::HALT => inst_code::HALT,
            Inst::NOP => inst_code::NOP,
            Inst::CMOVX(_, _, _) => inst_code::CMOVX,
            Inst::IRMOVQ(_, _) => inst_code::IRMOVQ,
            Inst::RMMOVQ(_, _) => inst_code::RMMOVQ,
            Inst::MRMOVQ(_, _) => inst_code::MRMOVQ,
            Inst::OPQ(_, _, _) => inst_code::OPQ,
            Inst::JX(_, _) => inst_code::JX,
            Inst::CALL(_) => inst_code::CALL,
            Inst::RET => inst_code::RET,
            Inst::PUSHQ(_) => inst_code::PUSHQ,
            Inst::POPQ(_) => inst_code::POPQ,
            Inst::IOPQ(_, _, _) => inst_code::IOPQ,
        }
    }

    /// The instruction code.
    pub fn icode(&self) -> (c: u8)
        ensures
            c == self.spec_icode(),
    {
        match self {
            Inst::HALT => inst_code::HALT,
            Inst::NOP => inst_code::NOP,
            Inst::CMOVX(_, _, _) => inst_code::CMOVX,
            Inst::IRMOVQ(_, _) => inst_code::IRMOVQ,
            Inst::RMMOVQ(_, _) => inst_code::RMMOVQ,
            Inst::MRMOVQ(_, _) => inst_code::MRMOVQ,
            Inst::OPQ(_, _, _) => inst_code::OPQ,
            Inst::JX(_, _) => inst_code::JX,
            Inst::CALL(_) => inst_code::CALL,
            Inst::RET => inst_code::RET,
            Inst::PUSHQ(_) => inst_code::PUSHQ,
            Inst::POPQ(_) => inst_code::POPQ,
            Inst::IOPQ(_, _, _) => inst_code::IOPQ,
        }
    }

    /// The length of the instruction in bytes.
    pub fn len(&self) -> (n: usize)
        ensures
            n == spec_length(self.spec_icode()),
            1 <= n <= 10,
    {
        match self {
            Inst::HALT => 1,
            Inst::RET => 1,
            Inst::NOP => 1,
            Inst::OPQ(_, _, _) => 2,
            Inst::CMOVX(_, _, _) => 2,
            Inst::PUSHQ(_) => 2,
            Inst::POPQ(_) => 2,
            Inst::JX(_, _) => 9,
            Inst::CALL(_) => 9,
            Inst::IRMOVQ(_, _) => 10,
            Inst::RMMOVQ(_, _) => 10,
            Inst::MRMOVQ(_, _) => 10,
            Inst::IOPQ(_, _, _) => 10,
        }
    }
}

impl Inst<u64> {
    /// The fields of the instruction as they stand in memory.
    pub open spec fn fields(self) -> Decoded {
        let icode = self.spec_icode();
        match self {
            Inst::HALT => Decoded { icode, ifun: 0, ra: 15, rb: 15, valc: 0 },
            Inst::NOP => Decoded { icode, ifun: 0, ra: 15, rb: 15, valc: 0 },
            Inst::RET => Decoded { icode, ifun: 0, ra: 15, rb: 15, valc: 0 },
            Inst::CMOVX(c, ra, rb) => Decoded {
                icode,
                ifun: c.spec_code(),
                ra: ra.spec_code(),
                rb: rb.spec_code(),
                valc: 0,
            },
            Inst::IRMOVQ(rb, v) => Decoded { icode, ifun: 0, ra: 15, rb: rb.spec_code(), valc: v },
            Inst::RMMOVQ(ra, addr) => Decoded {
                icode,
                ifun: 0,
                ra: ra.spec_code(),
                rb: addr.1.spec_code(),
                valc: addr.displacement(),
            },
            Inst::MRMOVQ(addr, ra) => Decoded {
                icode,
                ifun: 0,
                ra: ra.spec_code(),
                rb: addr.1.spec_code(),
                valc: addr.displacement(),
            },
            Inst::OPQ(op, ra, rb) => Decoded {
                icode,
                ifun: op.spec_code(),
                ra: ra.spec_code(),
                rb: rb.spec_code(),
                valc: 0,
            },
            Inst::JX(c, dest) => Decoded { icode, ifun: c.spec_code(), ra: 15, rb: 15, valc: dest },
            Inst::CALL(dest) => Decoded { icode, ifun: 0, ra: 15, rb: 15, valc: dest },
            Inst::PUSHQ(ra) => Decoded { icode, ifun: 0, ra: ra.spec_code(), rb: 15, valc: 0 },
            Inst::POPQ(ra) => Decoded { icode, ifun: 0, ra: ra.spec_code(), rb: 15, valc: 0 },
            Inst::IOPQ(op, v, rb) => Decoded {
                icode,
                ifun: op.spec_code(),
                ra: 15,
                rb: rb.spec_code(),
                valc: v,
            },
        }
    }

    /// The fields of the instruction as they stand in memory.
    pub fn to_fields(&self) -> (d: Decoded)
        ensures
            d == self.fields(),
            d.icode < 16,
            d.ifun < 16,
            d.ra < 16,
            d.rb < 16,
    {
        let icode: u8 = self.icode();
        match self {
            Inst::HALT => Decoded { icode, ifun: 0, ra: 15, rb: 15, valc: 0 },
            Inst::NOP => Decoded { icode, ifun: 0, ra: 15, rb: 15, valc: 0 },
            Inst::RET => Decoded { icode, ifun: 0, ra: 15, rb: 15, valc: 0 },
            Inst::CMOVX(c, ra, rb) => Decoded {
                icode,
                ifun: c.code(),
                ra: ra.code(),
                rb: rb.code(),
                valc: 0,
            },
            Inst::IRMOVQ(rb, v) => Decoded { icode, ifun: 0, ra: 15, rb: rb.code(), valc: *v },
            Inst::RMMOVQ(ra, addr) => Decoded {
                icode,
                ifun: 0,
                ra: ra.code(),
                rb: addr.1.code(),
                valc: match addr.0 {
                    Some(d) => d,
                    None => 0,
                },
            },
            Inst::MRMOVQ(addr, ra) => Decoded {
                icode,
                ifun: 0,
                ra: ra.code(),
                rb: addr.1.code(),
                valc: match addr.0 {
                    Some(d) => d,
                    None => 0,
                },
            },
            Inst::OPQ(op, ra, rb) => Decoded {
                icode,
                ifun: op.code(),
                ra: ra.code(),
                rb: rb.code(),
                valc: 0,
            },
            Inst::JX(c, dest) => Decoded { icode, ifun: c.code(), ra: 15, rb: 15, valc: *dest },
            Inst::CALL(dest) => Decoded { icode, ifun: 0, ra: 15, rb: 15, valc: *dest },
            Inst::PUSHQ(ra) => Decoded { icode, ifun: 0, ra: ra.code(), rb: 15, valc: 0 },
            Inst::POPQ(ra) => Decoded { icode, ifun: 0, ra: ra.code(), rb: 15, valc: 0 },
            Inst::IOPQ(op, v, rb) => Decoded {
                icode,
                ifun: op.code(),
                ra: 15,
                rb: rb.code(),
                valc: *v,
            },
        }
    }
}

/// The bytes that spell the fields of an instruction: the byte with the two
/// codes; the register byte, where the instruction has one; the constant
/// word in little-endian order, where it has one.
pub open spec fn spec_encode(d: Decoded) -> Seq<u8> {
    seq![(d.icode * 16 + d.ifun) as u8] + (if spec_has_regids(d.icode) {
        seq![(d.ra * 16 + d.rb) as u8]
    } else {
        Seq::empty()
    }) + (if spec_has_valc(d.icode) {
        le_bytes(d.valc)
    } else {
        Seq::empty()
    })
}

/// Spells the fields of an instruction in bytes.
pub fn encode_fields(d: Decoded) -> (bytes: Vec<u8>)
    requires
        d.icode < 16,
        d.ifun < 16,
        d.ra < 16,
        d.rb < 16,
    ensures
        bytes@ == spec_encode(d),
        bytes@.len() == spec_length(d.icode),
{
    let mut bytes: Vec<u8> = Vec::new();
    bytes.push(d.icode * 16 + d.ifun);
    if crate::isa::decode::has_regids(d.icode) {
        bytes.push(d.ra * 16 + d.rb);
    }
    if crate::isa::decode::has_valc(d.icode) {
        let ghost before = bytes@;
        let mut i: usize = 0;
        while i < 8
            invariant
                i <= 8,
                bytes@.len() == before.len() + i,
                forall|j: int| 0 <= j < before.len() ==> bytes@[j] == before[j],
                forall|j: int| 0 <= j < i ==> bytes@[before.len() + j] == le_byte(d.valc, j),
            decreases 8 - i,
        {
            bytes.push(byte_of(d.valc, i));
            i = i + 1;
        }
        assert(bytes@ =~= before + le_bytes(d.valc));
    }
    assert(bytes@ =~= spec_encode(d));
    bytes
}

impl Inst<u64> {
    /// The binary form of the instruction.
    pub fn encode(&self) -> (bytes: Vec<u8>)
        ensures
            bytes@ == spec_encode(self.fields()),
            bytes@.len() == spec_length(self.spec_icode()),
    {
        encode_fields(self.to_fields())
    }
}

/// Decoding reverses encoding: where the bytes of an instruction stand at
/// `pc`, the instruction that is decoded there has the fields that were
/// encoded.
pub proof fn lemma_decode_encode(mem: Seq<u8>, pc: u64, d: Decoded)
    requires
        d.icode < 16,
        d.ifun < 16,
        d.ra < 16,
        d.rb < 16,
        !spec_has_regids(d.icode) ==> d.ra == 15 && d.rb == 15,
        !spec_has_valc(d.icode) ==> d.valc == 0,
        pc + spec_length(d.icode) <= mem.len(),
        mem.subrange(pc as int, pc + spec_length(d.icode)) == spec_encode(d),
    ensures
        crate::isa::decode::spec_decode(mem, pc) == Some(d),
{
    let code = spec_encode(d);
    let len = spec_length(d.icode);
    let part = mem.subrange(pc as int, pc + len);
    assert(part[0] == mem[pc as int]);
    assert(code[0] == (d.icode * 16 + d.ifun) as u8);
    let first = mem[pc as int];
    assert(first / 16 == d.icode && first % 16 == d.ifun);
    if spec_has_regids(d.icode) {
        assert(part[1] == mem[pc + 1]);
        assert(code[1] == (d.ra * 16 + d.rb) as u8);
    }
    if spec_has_valc(d.icode) {
        let at: int = pc + (if spec_has_regids(d.icode) {
            2int
        } else {
            1
        });
        let word = mem.subrange(at, at + 8);
        assert(word =~= le_bytes(d.valc)) by {
            assert forall|j: int| 0 <= j < 8 implies word[j] == le_bytes(d.valc)[j] by {
                assert(word[j] == mem[at + j]);
                assert(part[at - pc + j] == mem[at + j]);
                assert(code[at - pc + j] == le_bytes(d.valc)[j]);
            }
        }
        crate::utils::lemma_le_round_trip(d.valc);
    }
}

/// Encoding then decoding an instruction is the identity: where the binary
/// form of an instruction stands at `pc`, decoding at `pc` gives its fields.
pub proof fn lemma_instruction_round_trip(mem: Seq<u8>, pc: u64, inst: Inst<u64>)
    requires
        pc + spec_length(inst.spec_icode()) <= mem.len(),
        mem.subrange(pc as int, pc + spec_length(inst.spec_icode())) == spec_encode(inst.fields()),
    ensures
        crate::isa::decode::spec_decode(mem, pc) == Some(inst.fields()),
{
    lemma_decode_encode(mem, pc, inst.fields());
}

impl Addr {
    /// The operand with its displacement written out.
    pub open spec fn normal(self) -> Addr {
        Addr(Some(self.displacement()), self.1)
    }
}

impl Inst<u64> {
    /// The instruction with the displacement of its memory operand written
    /// out: a displacement that is left out is zero.
    pub open spec fn normal(self) -> Inst<u64> {
        match self {
            Inst::RMMOVQ(ra, addr) => Inst::RMMOVQ(ra, addr.normal()),
            Inst::MRMOVQ(addr, ra) => Inst::MRMOVQ(addr.normal(), ra),
            _ => self,
        }
    }
}

impl Decoded {
    /// The instruction that has these fields, if there is one: the codes
    /// must go together, and the register byte must hold `RNONE` where the
    /// instruction has one register only.
    pub fn to_inst(&self) -> (inst: Option<Inst<u64>>)
        ensures
            inst matches Some(i) ==> i.fields() == *self && i.normal() == i,
            forall|i: Inst<u64>| #[trigger] i.fields() == *self ==> inst == Some(i.normal()),
    {
        let ra = match Reg::from_code(self.ra) {
            Some(r) => r,
            None => {
                return None;
            },
        };
        let rb = match Reg::from_code(self.rb) {
            Some(r) => r,
            None => {
                return None;
            },
        };
        let code: u8 = self.icode;
        let plain: bool = self.ifun == 0;
        let no_regs: bool = self.ra == 15 && self.rb == 15;
        if code == inst_code::HALT {
            if plain && no_regs && self.valc == 0 {
                Some(Inst::HALT)
            } else {
                None
            }
        } else if code == inst_code::NOP {
            if plain && no_regs && self.valc == 0 {
                Some(Inst::NOP)
            } else {
                None
            }
        } else if code == inst_code::RET {
            if plain && no_regs && self.valc == 0 {
                Some(Inst::RET)
            } else {
                None
            }
        } else if code == inst_code::CMOVX {
            match CondFn::from_code(self.ifun) {
                Some(c) => if self.valc == 0 {
                    Some(Inst::CMOVX(c, ra, rb))
                } else {
                    None
                },
                None => None,
            }
        } else if code == inst_code::IRMOVQ {
            if plain && self.ra == 15 {
                Some(Inst::IRMOVQ(rb, self.valc))
            } else {
                None
            }
        } else if code == inst_code::RMMOVQ {
            if plain {
                Some(Inst::RMMOVQ(ra, Addr(Some(self.valc), rb)))
            } else {
                None
            }
        } else if code == inst_code::MRMOVQ {
            if plain {
                Some(Inst::MRMOVQ(Addr(Some(self.valc), rb), ra))
            } else {
                None
            }
        } else if code == inst_code::OPQ {
            match OpFn::from_code(self.ifun) {
                Some(op) => if self.valc == 0 {
                    Some(Inst::OPQ(op, ra, rb))
                } else {
                    None
                },
                None => None,
            }
        } else if code == inst_code::JX {
            match CondFn::from_code(self.ifun) {
                Some(c) => if no_regs {
                    Some(Inst::JX(c, self.valc))
                } else {
                    None
                },
                None => None,
            }
        } else if code == inst_code::CALL {
            if plain && no_regs {
                Some(Inst::CALL(self.valc))
            } else {
                None
            }
        } else if code == inst_code::PUSHQ {
            if plain && self.rb == 15 && self.valc == 0 {
                Some(Inst::PUSHQ(ra))
            } else {
                None
            }
        } else if code == inst_code::POPQ {
            if plain && self.rb == 15 && self.valc == 0 {
                Some(Inst::POPQ(ra))
            } else {
                None
            }
        } else if code == inst_code::IOPQ {
            match OpFn::from_code(self.ifun) {
                Some(op) => if self.ra == 15 {
                    Some(Inst::IOPQ(op, self.valc, rb))
                } else {
                    None
                },
                None => None,
            }
        } else {
            None
        }
    }
}

} // verus!
