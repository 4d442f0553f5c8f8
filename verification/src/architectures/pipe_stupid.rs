//! An architecture that scans the memory byte by byte and ends at the first
//! byte whose higher half is zero, which is the code of `halt`. It does not
//! follow the instruction set; it shows the smallest circuit that runs.
use vstd::prelude::*;
use crate::architectures::hardware_stupid::{hardware, layout};
use crate::architectures::CpuArch;
use crate::framework::schema::Hardware;
use crate::hcl::{Architecture, HclData, HclError};

verus! {

/// The text of the description.
pub const SOURCE: &'static str = "
#![hardware = hardware_stupid]
#![program_counter = pc]
#![termination = term]

// The stage is named f; F stands for what it holds when a cycle begins.
#![stage_alias(F => f)]

:==============================: Fetch :================================:

// The address in F selects the current byte.
u64 pc = F.pc -> imem.pc;

// The higher half of the byte is the instruction code.
u8 icode = imem.higher;

// The next address cannot be written as F.pc + 1: the language has no
// arithmetic. The adder does it.
u64 alua = F.pc -> alu.a;
u64 alub = 1 -> alu.b;
u8 alufun = ADD -> alu.fun;
u64 next_pc = #[tunnel(next)] alu.e -> f.pc;

// A zero code ends the program.
bool term = icode == 0;
";

/// Whether `res` is what the text of the description says on the hardware:
/// the description that the grammar finds in the text, or the error that it
/// finds.
pub open spec fn is_description(res: Result<HclData, HclError>) -> bool {
    exists|hw: Hardware| hw@ == layout() && hw.wf() && HclData::read_from(SOURCE@, hw, res)
}

/// Whether `res` is what building the description gives.
pub open spec fn is_circuit(res: Result<Architecture, HclError>) -> bool {
    exists|read: Result<HclData, HclError>|
        is_description(read) && match read {
            Ok(hcl) => hcl.builds(res),
            Err(e) => res == Err::<Architecture, HclError>(e),
        }
}

/// The description of the byte scanner.
pub fn description() -> (res: Result<HclData, HclError>)
    ensures
        is_description(res),
        res matches Ok(hcl) ==> hcl.hardware.wf(),
{
    let hw = hardware();
    let ghost given = hw;
    let res = HclData::parse(SOURCE, hw);
    assert(given@ == layout() && given.wf() && HclData::read_from(SOURCE@, given, res));
    res
}

/// The byte scanner.
#[derive(Debug)]
pub struct Arch;

impl CpuArch for Arch {
    fn build_circuit() -> (res: Result<Architecture, HclError>)
        ensures
            is_circuit(res),
    {
        let read = description();
        let ghost given = read;
        let res = match read {
            Ok(hcl) => hcl.build(),
            Err(e) => Err(e),
        };
        assert(is_description(given) && match given {
            Ok(hcl) => hcl.builds(res),
            Err(e) => res == Err::<Architecture, HclError>(e),
        });
        res
    }
}

} // verus!
