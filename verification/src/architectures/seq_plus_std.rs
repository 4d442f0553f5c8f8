//! The sequential organisation with the program counter computed at the
//! start of the cycle: the stage register holds what the last instruction
//! left behind, and the address of the next one is selected from it.
use vstd::prelude::*;
use crate::architectures::hardware_seq::{unit_layout, units};
use crate::architectures::CpuArch;
use crate::framework::schema::{Hardware, Layout, StageDecl, StageLayout};
use crate::hcl::{Architecture, HclData, HclError};
use crate::isa::inst_code::NOP;
use crate::signal::Value;

verus! {

/// The hardware of the organisation, as plain values.
pub open spec fn layout() -> Layout {
    let s = StageLayout::new("s"@)
        .with_field("icode"@, Value::U8(NOP))
        .with_field("valc"@, Value::U64(0))
        .with_field("valm"@, Value::U64(0))
        .with_field("valp"@, Value::U64(0))
        .with_field("cnd"@, Value::Bool(false));
    unit_layout()
        .with_stage(s)
}

/// The hardware of the organisation: the units of the sequential one, and a
/// stage register that holds what the last instruction left behind.
pub fn hardware() -> (hw: Hardware)
    ensures
        hw.wf(),
        hw@ == layout(),
{
    units().stage(
        StageDecl::new("s").field("icode", Value::U8(NOP)).field("valc", Value::U64(0)).field(
            "valm",
            Value::U64(0),
        ).field("valp", Value::U64(0)).field("cnd", Value::Bool(false)),
    )
}

/// The text of the description.
pub const SOURCE: &'static str = "
#![hardware = hardware_seq]
#![program_counter = pc]
#![termination = prog_term]
#![stage_alias(S => s)]

:==============================: Fetch Stage :================================:

// The address of the instruction.
u64 pc = [
    S.icode == CALL : S.valc;
    S.icode == JX && S.cnd : S.valc;
    S.icode == RET : S.valm;
    true : S.valp;
] -> (imem.pc, pc_inc.old_pc);

// The instruction code; a fetch that fails reads as a nop.
u8 icode = [
    imem.error : NOP;
    true : imem.icode;
] -> s.icode;

// The function code.
u8 ifun = [
    imem.error : 0;
    true : imem.ifun;
] -> cond.condfun;

// Is the instruction code one of the instruction set?
bool instr_valid = icode in
    { NOP, HALT, CMOVX, IRMOVQ, RMMOVQ, MRMOVQ,
    OPQ, JX, CALL, RET, PUSHQ, POPQ };

// Does the instruction carry a byte of register numbers?
bool need_regids = icode in { CMOVX, OPQ, PUSHQ, POPQ, IRMOVQ, RMMOVQ, MRMOVQ }
    -> (pc_inc.need_regids, ialign.need_regids);

// Does the instruction carry a constant word?
bool need_valc = icode in { IRMOVQ, RMMOVQ, MRMOVQ, JX, CALL } -> pc_inc.need_valc;

[u8; 9] align = imem.align -> ialign.align;

u64 valc = ialign.valc -> s.valc;

u64 valp = pc_inc.new_pc -> s.valp;

:=============================: Decode Stage :==============================:

// Which register is read as source A?
u8 srca = [
    icode in { CMOVX, RMMOVQ, OPQ, PUSHQ } : ialign.ra;
    icode in { POPQ, RET } : RSP;
    true : RNONE;
] -> reg_read.srca;

// Which register is read as source B?
u8 srcb = [
    icode in { OPQ, RMMOVQ, MRMOVQ } : ialign.rb;
    icode in { PUSHQ, POPQ, CALL, RET } : RSP;
    true : RNONE;
] -> reg_read.srcb;

// Which register takes the result of the adder? None, where a
// conditional move is not taken.
u8 dste = [
    icode in { CMOVX } && cnd : ialign.rb;
    icode in { IRMOVQ, OPQ } : ialign.rb;
    icode in { PUSHQ, POPQ, CALL, RET } : RSP;
    true : RNONE;
] -> reg_write.dste;

// Which register takes the value from memory?
u8 dstm = [
    icode in { MRMOVQ, POPQ } : ialign.ra;
    true : RNONE;
] -> reg_write.dstm;

:==============================: Execute Stage :===============================:

// The first input of the adder.
u64 alua = [
    icode in { CMOVX, OPQ } : reg_read.vala;
    icode in { IRMOVQ, RMMOVQ, MRMOVQ } : ialign.valc;
    icode in { CALL, PUSHQ } : NEG_8;
    icode in { RET, POPQ } : 8;
] -> (alu.a, reg_cc.a);

// The second input of the adder.
u64 alub = [
    icode in { RMMOVQ, MRMOVQ, OPQ, CALL,
              PUSHQ, RET, POPQ } : reg_read.valb;
    icode in { CMOVX, IRMOVQ } : 0;
] -> (alu.b, reg_cc.b);

// The operation of the adder.
u8 alufun = [
    icode == OPQ : ifun;
    true : ADD;
] -> (alu.fun, reg_cc.opfun);

// Are the condition codes updated?
bool set_cc = icode in { OPQ } -> reg_cc.set_cc;

u64 vale = alu.e -> (reg_cc.e, reg_write.vale);

ConditionCode cc = reg_cc.cc -> cond.cc;

bool cnd = cond.cnd -> s.cnd;

:===============================: Memory Stage :===============================:

// Is memory read?
bool mem_read = icode in { MRMOVQ, POPQ, RET } -> dmem.read;

// Is memory written?
bool mem_write = icode in { RMMOVQ, PUSHQ, CALL } -> dmem.write;

// The address that is read or written.
u64 mem_addr = [
    icode in { RMMOVQ, PUSHQ, CALL, MRMOVQ } : vale;
    icode in { POPQ, RET } : reg_read.vala;
] -> dmem.addr;

// The word that is written.
u64 mem_data = [
    icode in { RMMOVQ, PUSHQ } : reg_read.vala;
    icode == CALL : valp;
] -> dmem.datain;

u64 valm = dmem.dataout -> (reg_write.valm, s.valm);

// The status of the instruction.
Stat stat = [
    imem.error || dmem.error : Adr;
    !instr_valid : Ins;
    icode == HALT : Hlt;
    true : Aok;
];

// Any status but Aok ends the program.
bool prog_term = stat in { Hlt, Adr, Ins };
";

/// Whether `res` is what the text of the description says on the hardware:
/// the description that the grammar finds in the text, or the error that it
/// finds.
pub open spec fn is_description(res: Result<HclData, HclError>) -> bool {
    exists|hw: Hardware| hw@ == layout() && hw.wf() && HclData::read_from(SOURCE@, hw, res)
}

/// Whether `res` is what building the description gives.
pub open spec fn is_circuit(res: Result<Architecture, HclError>) -> bool {
    exists|read: Result<HclData, HclError>|
        is_description(read) && match read {
            Ok(hcl) => hcl.builds(res),
            Err(e) => res == Err::<Architecture, HclError>(e),
        }
}

/// The description of the organisation, read from its text.
pub fn description() -> (res: Result<HclData, HclError>)
    ensures
        is_description(res),
        res matches Ok(hcl) ==> hcl.hardware.wf(),
{
    let hw = hardware();
    let ghost given = hw;
    let res = HclData::parse(SOURCE, hw);
    assert(given@ == layout() && given.wf() && HclData::read_from(SOURCE@, given, res));
    res
}

/// The sequential organisation with the program counter computed first.
#[derive(Debug)]
pub struct Arch;

impl CpuArch for Arch {
    fn build_circuit() -> (res: Result<Architecture, HclError>)
        ensures
            is_circuit(res),
    {
        let read = description();
        let ghost given = read;
        let res = match read {
            Ok(hcl) => hcl.build(),
            Err(e) => Err(e),
        };
        assert(is_description(given) && match given {
            Ok(hcl) => hcl.builds(res),
            Err(e) => res == Err::<Architecture, HclError>(e),
        });
        res
    }
}

} // verus!
