//! The units of the sequential organisation. Its register file is split
//! into a unit that reads and a unit that writes; both work on the same
//! registers.
use vstd::prelude::*;
use crate::framework::schema::{Hardware, Layout};
use crate::framework::units::UnitKind;

verus! {

/// The functional units of the sequential organisation, as plain values.
pub open spec fn unit_layout() -> Layout {
    Layout::new()
        .with_unit("imem"@, UnitKind::InstructionMemory)
        .with_unit("ialign"@, UnitKind::Align)
        .with_unit("pc_inc"@, UnitKind::PcIncrement)
        .with_unit("reg_read"@, UnitKind::RegisterFileRead)
        .with_unit("reg_write"@, UnitKind::RegisterFileWrite)
        .with_unit("alu"@, UnitKind::Alu)
        .with_unit("reg_cc"@, UnitKind::RegisterCc)
        .with_unit("cond"@, UnitKind::Condition)
        .with_unit("dmem"@, UnitKind::DataMemory)
}

/// The functional units of the sequential organisation.
pub fn units() -> (hw: Hardware)
    ensures
        hw.wf(),
        hw.stages@.len() == 0,
        hw.units@.len() == 9,
        hw@ == unit_layout(),
{
    Hardware::new().unit("imem", UnitKind::InstructionMemory).unit("ialign", UnitKind::Align).unit(
        "pc_inc",
        UnitKind::PcIncrement,
    ).unit("reg_read", UnitKind::RegisterFileRead).unit(
        "reg_write",
        UnitKind::RegisterFileWrite,
    ).unit("alu", UnitKind::Alu).unit("reg_cc", UnitKind::RegisterCc).unit(
        "cond",
        UnitKind::Condition,
    ).unit("dmem", UnitKind::DataMemory)
}

} // verus!
