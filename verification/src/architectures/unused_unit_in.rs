//! A description that is no architecture: it leaves inputs of a unit
//! without a signal that drives them.
use vstd::prelude::*;
use crate::architectures::hardware_stupid::{hardware, layout};
use crate::architectures::CpuArch;
use crate::framework::schema::Hardware;
use crate::hcl::{Architecture, HclData, HclError};

verus! {

/// The text of the description.
pub const SOURCE: &'static str = "
#![hardware = hardware_stupid]
#![program_counter = pc]
#![termination = term]
#![stage_alias(F => f)]

u64 pc = F.pc -> imem.pc;
u8 icode = imem.higher;

// The adder has three inputs, and only this one is driven.
u64 alua = F.pc -> alu.a;

bool term = icode == 0;
";

/// Whether `res` is what the text of the description says on the hardware:
/// the description that the grammar finds in the text, or the error that it
/// finds.
pub open spec fn is_description(res: Result<HclData, HclError>) -> bool {
    exists|hw: Hardware| hw@ == layout() && hw.wf() && HclData::read_from(SOURCE@, hw, res)
}

/// Whether `res` is what building the description gives.
pub open spec fn is_circuit(res: Result<Architecture, HclError>) -> bool {
    exists|read: Result<HclData, HclError>|
        is_description(read) && match read {
            Ok(hcl) => hcl.builds(res),
            Err(e) => res == Err::<Architecture, HclError>(e),
        }
}

/// A description that drives one of the three inputs of the adder only.
pub fn description() -> (res: Result<HclData, HclError>)
    ensures
        is_description(res),
        res matches Ok(hcl) ==> hcl.hardware.wf(),
{
    let hw = hardware();
    let ghost given = hw;
    let res = HclData::parse(SOURCE, hw);
    assert(given@ == layout() && given.wf() && HclData::read_from(SOURCE@, given, res));
    res
}

/// The description with the undriven inputs.
#[derive(Debug)]
pub struct Arch;

impl CpuArch for Arch {
    fn build_circuit() -> (res: Result<Architecture, HclError>)
        ensures
            is_circuit(res),
    {
        let read = description();
        let ghost given = read;
        let res = match read {
            Ok(hcl) => hcl.build(),
            Err(e) => Err(e),
        };
        assert(is_description(given) && match given {
            Ok(hcl) => hcl.builds(res),
            Err(e) => res == Err::<Architecture, HclError>(e),
        });
        res
    }
}

} // verus!
