//! The units of the pipelined organisation. It differs from the sequential
//! one in the register file only, which here is a single unit that writes
//! before it reads.
use vstd::prelude::*;
use crate::framework::schema::{Hardware, Layout};
use crate::framework::units::UnitKind;

verus! {

/// The functional units of the pipelined organisation, as plain values.
pub open spec fn unit_layout() -> Layout {
    Layout::new()
        .with_unit("imem"@, UnitKind::InstructionMemory)
        .with_unit("ialign"@, UnitKind::Align)
        .with_unit("pc_inc"@, UnitKind::PcIncrement)
        .with_unit("reg_file"@, UnitKind::RegisterFile)
        .with_unit("alu"@, UnitKind::Alu)
        .with_unit("reg_cc"@, UnitKind::RegisterCc)
        .with_unit("cond"@, UnitKind::Condition)
        .with_unit("dmem"@, UnitKind::DataMemory)
}

/// The functional units of the pipelined organisation.
pub fn units() -> (hw: Hardware)
    ensures
        hw.wf(),
        hw.stages@.len() == 0,
        hw.units@.len() == 8,
        hw@ == unit_layout(),
{
    Hardware::new().unit("imem", UnitKind::InstructionMemory).unit("ialign", UnitKind::Align).unit(
        "pc_inc",
        UnitKind::PcIncrement,
    ).unit("reg_file", UnitKind::RegisterFile).unit("alu", UnitKind::Alu).unit(
        "reg_cc",
        UnitKind::RegisterCc,
    ).unit("cond", UnitKind::Condition).unit("dmem", UnitKind::DataMemory)
}

} // verus!
