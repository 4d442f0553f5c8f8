//! The five-stage pipelined organisation: fetch, decode, execute, memory and
//! write back, with forwarding, a load/use interlock, recovery from
//! mispredicted branches and stalling while a `ret` passes through. A jump
//! is predicted as not taken: the instructions behind it are fetched, and
//! where the jump is taken they are squashed by two bubbles.
use vstd::prelude::*;
use crate::architectures::hardware_pipe::{unit_layout, units};
use crate::architectures::CpuArch;
use crate::framework::schema::{Hardware, Layout, StageDecl, StageLayout};
use crate::hcl::{Architecture, HclData, HclError};
use crate::isa::inst_code::NOP;
use crate::isa::reg_code::RNONE;
use crate::isa::Stat;
use crate::signal::Value;

verus! {

/// The hardware of the pipelined organisation, as plain values.
pub open spec fn layout() -> Layout {
    let f = StageLayout::new("f"@)
        .with_field("pred_pc"@, Value::U64(0));
    let d = StageLayout::new("d"@)
        .with_field("stat"@, Value::Stat(Stat::Bub))
        .with_field("icode"@, Value::U8(NOP))
        .with_field("ifun"@, Value::U8(0))
        .with_field("ra"@, Value::U8(RNONE))
        .with_field("rb"@, Value::U8(RNONE))
        .with_field("valc"@, Value::U64(0))
        .with_field("valp"@, Value::U64(0));
    let e = StageLayout::new("e"@)
        .with_field("stat"@, Value::Stat(Stat::Bub))
        .with_field("icode"@, Value::U8(NOP))
        .with_field("ifun"@, Value::U8(0))
        .with_field("vala"@, Value::U64(0))
        .with_field("valb"@, Value::U64(0))
        .with_field("valc"@, Value::U64(0))
        .with_field("dste"@, Value::U8(RNONE))
        .with_field("dstm"@, Value::U8(RNONE))
        .with_field("srca"@, Value::U8(RNONE))
        .with_field("srcb"@, Value::U8(RNONE));
    let m = StageLayout::new("m"@)
        .with_field("stat"@, Value::Stat(Stat::Bub))
        .with_field("icode"@, Value::U8(NOP))
        .with_field("cnd"@, Value::Bool(false))
        .with_field("vale"@, Value::U64(0))
        .with_field("vala"@, Value::U64(0))
        .with_field("dste"@, Value::U8(RNONE))
        .with_field("dstm"@, Value::U8(RNONE));
    let w = StageLayout::new("w"@)
        .with_field("stat"@, Value::Stat(Stat::Bub))
        .with_field("icode"@, Value::U8(NOP))
        .with_field("vale"@, Value::U64(0))
        .with_field("valm"@, Value::U64(0))
        .with_field("dste"@, Value::U8(RNONE))
        .with_field("dstm"@, Value::U8(RNONE));
    unit_layout()
        .with_stage(f)
        .with_stage(d)
        .with_stage(e)
        .with_stage(m)
        .with_stage(w)
}

/// The hardware of the pipelined organisation: its units and its five stage
/// registers. The defaults of a stage are what it holds as a bubble.
pub fn hardware() -> (hw: Hardware)
    ensures
        hw.wf(),
        hw@ == layout(),
{
    // The fetch stage is never bubbled.
    let f = StageDecl::new("f").field("pred_pc", Value::U64(0));
    let d = StageDecl::new("d").field("stat", Value::Stat(Stat::Bub)).field(
        "icode",
        Value::U8(NOP),
    ).field("ifun", Value::U8(0)).field("ra", Value::U8(RNONE)).field(
        "rb",
        Value::U8(RNONE),
    ).field("valc", Value::U64(0)).field("valp", Value::U64(0));
    let e = StageDecl::new("e").field("stat", Value::Stat(Stat::Bub)).field(
        "icode",
        Value::U8(NOP),
    ).field("ifun", Value::U8(0)).field("vala", Value::U64(0)).field(
        "valb",
        Value::U64(0),
    ).field("valc", Value::U64(0)).field("dste", Value::U8(RNONE)).field(
        "dstm",
        Value::U8(RNONE),
    ).field("srca", Value::U8(RNONE)).field("srcb", Value::U8(RNONE));
    let m = StageDecl::new("m").field("stat", Value::Stat(Stat::Bub)).field(
        "icode",
        Value::U8(NOP),
    ).field("cnd", Value::Bool(false)).field("vale", Value::U64(0)).field(
        "vala",
        Value::U64(0),
    ).field("dste", Value::U8(RNONE)).field("dstm", Value::U8(RNONE));
    let w = StageDecl::new("w").field("stat", Value::Stat(Stat::Bub)).field(
        "icode",
        Value::U8(NOP),
    ).field("vale", Value::U64(0)).field("valm", Value::U64(0)).field(
        "dste",
        Value::U8(RNONE),
    ).field("dstm", Value::U8(RNONE));
    units().stage(f).stage(d).stage(e).stage(m).stage(w)
}

/// The text of the description.
pub const SOURCE: &'static str = "
#![hardware = hardware_pipe]
#![program_counter = f_pc]
#![termination = prog_term]
#![stage_alias(F => f, D => d, E => e, M => m, W => w)]

:==============================: Fetch Stage :================================:

// What address is the instruction fetched at? Behind a jump that is
// taken, at its target, which the adder has passed on; behind a ret, at
// the address from the stack; else at the predicted address.
u64 f_pc = [
    M.icode == JX && M.cnd : M.vale;
    W.icode == RET : W.valm;
    1 : F.pred_pc;
] -> (imem.pc, pc_inc.old_pc);

// The instruction code; a fetch that fails reads as a nop.
u8 f_icode = [
    imem.error : NOP;
    1 : imem.icode;
] -> d.icode;

// The function code.
u8 f_ifun = [
    imem.error : 0xf;
    1 : imem.ifun;
] -> d.ifun;

// Is the instruction code one of the instruction set?
bool instr_valid = f_icode in { NOP, HALT, CMOVX, IRMOVQ, RMMOVQ,
    MRMOVQ, OPQ, JX, CALL, RET, PUSHQ, POPQ };

// The status of the fetched instruction.
Stat f_stat = [
    imem.error : Adr;
    !instr_valid : Ins;
    f_icode == HALT : Hlt;
    1 : Aok;
] -> d.stat;

// Does the instruction carry a byte of register numbers?
bool need_regids = f_icode in { CMOVX, OPQ, PUSHQ, POPQ, IRMOVQ, RMMOVQ, MRMOVQ }
    -> (pc_inc.need_regids, ialign.need_regids);

// Does the instruction carry a constant word?
bool need_valc = f_icode in { IRMOVQ, RMMOVQ, MRMOVQ, JX, CALL } -> pc_inc.need_valc;

u64 f_valp = pc_inc.new_pc -> d.valp;

[u8; 9] f_align = imem.align -> ialign.align;

u64 f_valc = ialign.valc -> d.valc;

u8 f_ra = ialign.ra -> d.ra;

u8 f_rb = ialign.rb -> d.rb;

// The predicted address of the next instruction: a call goes to its
// target, and a jump is predicted as not taken.
u64 f_pred_pc = [
    f_icode == CALL : f_valc;
    1 : f_valp;
] -> f.pred_pc;

:=======================: Decode and Write Back Stage :========================:

// Which register is read as source A?
u8 d_srca = [
    D.icode in { CMOVX, RMMOVQ, OPQ, PUSHQ } : D.ra;
    D.icode in { POPQ, RET } : RSP;
    1 : RNONE;
] -> (reg_file.srca, e.srca);

// Which register is read as source B?
u8 d_srcb = [
    D.icode in { OPQ, RMMOVQ, MRMOVQ } : D.rb;
    D.icode in { PUSHQ, POPQ, CALL, RET } : RSP;
    1 : RNONE;
] -> (reg_file.srcb, e.srcb);

// Which register takes the result of the adder?
u8 d_dste = [
    D.icode in { CMOVX, IRMOVQ, OPQ } : D.rb;
    D.icode in { PUSHQ, POPQ, CALL, RET } : RSP;
    1 : RNONE;
] -> e.dste;

// Which register takes the value from memory?
u8 d_dstm = [
    D.icode in { MRMOVQ, POPQ } : D.ra;
    1 : RNONE;
] -> e.dstm;

u64 d_rvala = reg_file.vala;

u64 d_rvalb = reg_file.valb;

// Value A, forwarded from the later stages where one of them is about
// to write the register.
u64 d_vala = [
    D.icode == CALL : D.valp;
    d_srca == e_dste : e_vale;
    d_srca == M.dstm : m_valm;
    d_srca == M.dste : M.vale;
    d_srca == W.dstm : W.valm;
    d_srca == W.dste : W.vale;
    1 : d_rvala;
] -> e.vala;

// Value B, forwarded in the same way.
u64 d_valb = [
    d_srcb == e_dste : e_vale;
    d_srcb == M.dstm : m_valm;
    d_srcb == M.dste : M.vale;
    d_srcb == W.dstm : W.valm;
    d_srcb == W.dste : W.vale;
    1 : d_rvalb;
] -> e.valb;

u64 d_valc = D.valc -> e.valc;

u8 d_icode = D.icode -> e.icode;

u8 d_ifun = D.ifun -> e.ifun;

Stat d_stat = D.stat -> e.stat;

:==============================: Execute Stage :===============================:

// The first input of the adder.
u64 alua = [
    E.icode in { CMOVX, OPQ } : E.vala;
    E.icode in { IRMOVQ, RMMOVQ, MRMOVQ, JX } : E.valc;
    E.icode in { CALL, PUSHQ } : NEG_8;
    E.icode in { RET, POPQ } : 8;
    1 : 0;
] -> (alu.a, reg_cc.a);

// The second input of the adder.
u64 alub = [
    E.icode in { RMMOVQ, MRMOVQ, OPQ, CALL, PUSHQ, RET, POPQ } : E.valb;
    E.icode in { CMOVX, IRMOVQ, JX } : 0;
    1 : 0;
] -> (alu.b, reg_cc.b);

// The operation of the adder.
u8 alufun = [
    E.icode == OPQ : E.ifun;
    1 : ADD;
] -> (alu.fun, reg_cc.opfun);

// Are the condition codes updated? Not once an exception is on its
// way out.
bool set_cc = E.icode == OPQ &&
    !(m_stat in { Adr, Ins, Hlt }) && !(W.stat in { Adr, Ins, Hlt }) -> reg_cc.set_cc;

u64 e_vale = alu.e -> (reg_cc.e, m.vale);

ConditionCode cc = reg_cc.cc -> cond.cc;

u8 e_ifun = E.ifun -> cond.condfun;

bool e_cnd = cond.cnd -> m.cnd;

u64 e_vala = E.vala -> m.vala;

// A conditional move that is not taken writes no register.
u8 e_dste = [
    E.icode == CMOVX && !e_cnd : RNONE;
    1 : E.dste;
] -> m.dste;

u8 e_dstm = E.dstm -> m.dstm;

u8 e_icode = E.icode -> m.icode;

Stat e_stat = E.stat -> m.stat;

:===============================: Memory Stage :===============================:

// The address that is read or written.
u64 mem_addr = [
    M.icode in { RMMOVQ, PUSHQ, CALL, MRMOVQ } : M.vale;
    M.icode in { POPQ, RET } : M.vala;
] -> dmem.addr;

// Is memory read?
bool mem_read = M.icode in { MRMOVQ, POPQ, RET } -> dmem.read;

// Is memory written?
bool mem_write = M.icode in { RMMOVQ, PUSHQ, CALL } -> dmem.write;

u64 mem_data = M.vala -> dmem.datain;

// The status behind the memory access.
Stat m_stat = [
    dmem.error : Adr;
    1 : M.stat;
] -> w.stat;

u8 m_icode = M.icode -> w.icode;

u64 m_valm = dmem.dataout -> w.valm;

u64 m_vale = M.vale -> w.vale;

u8 m_dste = M.dste -> w.dste;

u8 m_dstm = M.dstm -> w.dstm;

:=============================: Write Back Stage :=============================:

u8 w_dste = W.dste -> reg_file.dste;

u64 w_vale = W.vale -> reg_file.vale;

u8 w_dstm = W.dstm -> reg_file.dstm;

u64 w_valm = W.valm -> reg_file.valm;

// The status of the processor; a bubble counts as Aok.
Stat prog_stat = [
    W.stat == Bub : Aok;
    1 : W.stat;
];

// Any status but Aok ends the program.
bool prog_term = [
    prog_stat in { Aok, Bub } : false;
    1 : true
];

:========================: Pipeline Register Control :=========================:

bool f_bubble = false -> f.bubble;

// The fetch stage waits for a load that the next instruction uses,
// and while a ret passes through the pipeline.
bool f_stall =
    E.icode in { MRMOVQ, POPQ } && E.dstm in { d_srca, d_srcb } ||
    RET in { D.icode, E.icode, M.icode } -> f.stall;

// The decode stage waits for a load that its instruction uses.
bool d_stall =
    E.icode in { MRMOVQ, POPQ } && E.dstm in { d_srca, d_srcb } -> d.stall;

// The decode stage is emptied behind a mispredicted branch, and
// while a ret passes through, unless it has to wait.
bool d_bubble =
    (E.icode == JX && e_cnd) ||
    !(E.icode in { MRMOVQ, POPQ } && E.dstm in { d_srca, d_srcb }) &&
      RET in { D.icode, E.icode, M.icode } -> d.bubble;

bool e_stall = false -> e.stall;

// The execute stage is emptied behind a mispredicted branch and
// in front of an instruction that waits for a load.
bool e_bubble =
    (E.icode == JX && e_cnd) ||
    E.icode in { MRMOVQ, POPQ } && E.dstm in { d_srca, d_srcb } -> e.bubble;

bool m_stall = false -> m.stall;

// Behind an exception nothing reaches memory any more.
bool m_bubble =
    m_stat in { Adr, Ins, Hlt } || W.stat in { Adr, Ins, Hlt } -> m.bubble;

// An exception stays in the last stage.
bool w_stall = W.stat in { Adr, Ins, Hlt } -> w.stall;

bool w_bubble = false -> w.bubble;
";

/// Whether `res` is what the text of the description says on the hardware:
/// the description that the grammar finds in the text, or the error that it
/// finds.
pub open spec fn is_description(res: Result<HclData, HclError>) -> bool {
    exists|hw: Hardware| hw@ == layout() && hw.wf() && HclData::read_from(SOURCE@, hw, res)
}

/// Whether `res` is what building the description gives.
pub open spec fn is_circuit(res: Result<Architecture, HclError>) -> bool {
    exists|read: Result<HclData, HclError>|
        is_description(read) && match read {
            Ok(hcl) => hcl.builds(res),
            Err(e) => res == Err::<Architecture, HclError>(e),
        }
}

/// The description of the pipelined organisation, read from its text.
pub fn description() -> (res: Result<HclData, HclError>)
    ensures
        is_description(res),
        res matches Ok(hcl) ==> hcl.hardware.wf(),
{
    let hw = hardware();
    let ghost given = hw;
    let res = HclData::parse(SOURCE, hw);
    assert(given@ == layout() && given.wf() && HclData::read_from(SOURCE@, given, res));
    res
}

/// The pipelined organisation.
#[derive(Debug)]
pub struct Arch;

impl CpuArch for Arch {
    fn build_circuit() -> (res: Result<Architecture, HclError>)
        ensures
            is_circuit(res),
    {
        let read = description();
        let ghost given = read;
        let res = match read {
            Ok(hcl) => hcl.build(),
            Err(e) => Err(e),
        };
        assert(is_description(given) && match given {
            Ok(hcl) => hcl.builds(res),
            Err(e) => res == Err::<Architecture, HclError>(e),
        });
        res
    }
}

} // verus!
