//! A description that is no architecture: two of its signals depend on each
//! other.
use vstd::prelude::*;
use crate::architectures::hardware_stupid::{hardware, layout};
use crate::architectures::CpuArch;
use crate::framework::schema::Hardware;
use crate::hcl::{Architecture, HclData, HclError};

verus! {

/// The text of the description.
pub const SOURCE: &'static str = "
#![hardware = hardware_stupid]
#![program_counter = a]
#![termination = term]
#![stage_alias(F => f)]

u64 pc = F.pc -> imem.pc;

// Each of the two signals is computed from the other.
u64 a = b -> alu.a;
u64 b = a -> alu.b;

u8 alufun = ADD -> alu.fun;
bool term = a == b;
";

/// Whether `res` is what the text of the description says on the hardware:
/// the description that the grammar finds in the text, or the error that it
/// finds.
pub open spec fn is_description(res: Result<HclData, HclError>) -> bool {
    exists|hw: Hardware| hw@ == layout() && hw.wf() && HclData::read_from(SOURCE@, hw, res)
}

/// Whether `res` is what building the description gives.
pub open spec fn is_circuit(res: Result<Architecture, HclError>) -> bool {
    exists|read: Result<HclData, HclError>|
        is_description(read) && match read {
            Ok(hcl) => hcl.builds(res),
            Err(e) => res == Err::<Architecture, HclError>(e),
        }
}

/// A description with a cyclic dataflow: `a` is `b` and `b` is `a`.
pub fn description() -> (res: Result<HclData, HclError>)
    ensures
        is_description(res),
        res matches Ok(hcl) ==> hcl.hardware.wf(),
{
    let hw = hardware();
    let ghost given = hw;
    let res = HclData::parse(SOURCE, hw);
    assert(given@ == layout() && given.wf() && HclData::read_from(SOURCE@, given, res));
    res
}

/// The description with the cyclic dataflow.
#[derive(Debug)]
pub struct Arch;

impl CpuArch for Arch {
    fn build_circuit() -> (res: Result<Architecture, HclError>)
        ensures
            is_circuit(res),
    {
        let read = description();
        let ghost given = read;
        let res = match read {
            Ok(hcl) => hcl.build(),
            Err(e) => Err(e),
        };
        assert(is_description(given) && match given {
            Ok(hcl) => hcl.builds(res),
            Err(e) => res == Err::<Architecture, HclError>(e),
        });
        res
    }
}

} // verus!
