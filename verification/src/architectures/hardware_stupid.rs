//! The units of the byte scanner: a memory that hands out the two halves of
//! a byte, and an adder.
use vstd::prelude::*;
use crate::framework::schema::{Hardware, Layout, StageDecl, StageLayout};
use crate::framework::units::UnitKind;
use crate::signal::Value;

verus! {

/// The hardware of the byte scanner, as plain values.
pub open spec fn layout() -> Layout {
    let f = StageLayout::new("f"@)
        .with_field("pc"@, Value::U64(0));
    Layout::new()
        .with_unit("imem"@, UnitKind::NibbleMemory)
        .with_unit("alu"@, UnitKind::Alu)
        .with_stage(f)
}

/// The hardware of the byte scanner: its two units and its one stage
/// register, which holds the address of the current byte.
pub fn hardware() -> (hw: Hardware)
    ensures
        hw.wf(),
        hw.stages@.len() == 1,
        hw.units@.len() == 2,
        hw@ == layout(),
{
    Hardware::new().unit("imem", UnitKind::NibbleMemory).unit("alu", UnitKind::Alu).stage(
        StageDecl::new("f").field("pc", Value::U64(0)),
    )
}

} // verus!
