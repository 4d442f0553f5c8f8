//! The architectures that come with the simulator, and the hardware that
//! they are made of.
use vstd::prelude::*;

pub mod hardware_pipe;
pub mod hardware_seq;
pub mod hardware_stupid;
pub mod pipe_invalid;
pub mod pipe_std;
pub mod pipe_stupid;
pub mod seq_plus_std;
pub mod seq_std;
pub mod unused_unit_in;

use crate::framework::names::Name;
use crate::framework::sim::PipeSim;
use crate::framework::MemData;
use crate::hcl::{Architecture, HclError};

verus! {

/// An architecture: it builds its circuit from its description.
pub trait CpuArch {
    /// Builds the circuit of the architecture, or tells why its description
    /// describes none.
    fn build_circuit() -> Result<Architecture, HclError>;
}

/// The names of the architectures that can be run.
pub open spec fn spec_arch_names() -> Seq<Name> {
    seq!["seq_std"@, "seq_plus_std"@, "pipe_std"@, "pipe_stupid"@]
}

/// The names of the architectures that can be run.
pub fn arch_names() -> (names: Vec<&'static str>)
    ensures
        names@.len() == 4,
        forall|i: int| 0 <= i < 4 ==> (#[trigger] names@[i])@ == spec_arch_names()[i],
{
    let mut names: Vec<&'static str> = Vec::new();
    names.push("seq_std");
    names.push("seq_plus_std");
    names.push("pipe_std");
    names.push("pipe_stupid");
    names
}

/// Why no simulator could be set up.
#[derive(Debug, PartialEq, Eq)]
pub enum CreateError {
    /// No architecture has this name.
    UnknownArchitecture(String),
    /// The description of the architecture describes none.
    Invalid(HclError),
}

/// Whether `res` is what building the architecture named `kind` gives: the
/// circuit that its description describes, or the reason why it describes
/// none.
pub open spec fn is_circuit_of(kind: Name, res: Result<Architecture, HclError>) -> bool {
    if kind == "seq_std"@ {
        seq_std::is_circuit(res)
    } else if kind == "seq_plus_std"@ {
        seq_plus_std::is_circuit(res)
    } else if kind == "pipe_std"@ {
        pipe_std::is_circuit(res)
    } else if kind == "pipe_stupid"@ {
        pipe_stupid::is_circuit(res)
    } else {
        false
    }
}

/// Whether `res` is what asking for the architecture named `kind` gives:
/// its circuit, or the error that tells that no architecture has this name
/// or that its description describes no circuit.
pub open spec fn is_arch(kind: Name, res: Result<Architecture, CreateError>) -> bool {
    if spec_arch_names().contains(kind) {
        exists|built: Result<Architecture, HclError>|
            is_circuit_of(kind, built) && match built {
                Ok(arch) => res == Ok::<Architecture, CreateError>(arch),
                Err(e) => res == Err::<Architecture, CreateError>(CreateError::Invalid(e)),
            }
    } else {
        res matches Err(CreateError::UnknownArchitecture(name)) && name@ == kind
    }
}

/// Builds the circuit of the architecture named `kind`.
pub fn build_arch(kind: &str) -> (res: Result<Architecture, CreateError>)
    ensures
        is_arch(kind@, res),
{
    let built = if crate::framework::names::same_name(kind, "seq_std") {
        seq_std::Arch::build_circuit()
    } else if crate::framework::names::same_name(kind, "seq_plus_std") {
        seq_plus_std::Arch::build_circuit()
    } else if crate::framework::names::same_name(kind, "pipe_std") {
        pipe_std::Arch::build_circuit()
    } else if crate::framework::names::same_name(kind, "pipe_stupid") {
        pipe_stupid::Arch::build_circuit()
    } else {
        return Err(CreateError::UnknownArchitecture(kind.to_owned()));
    };
    let ghost given = built;
    let res = match built {
        Ok(arch) => Ok(arch),
        Err(e) => Err(CreateError::Invalid(e)),
    };
    assert(is_circuit_of(kind@, given) && match given {
        Ok(arch) => res == Ok::<Architecture, CreateError>(arch),
        Err(e) => res == Err::<Architecture, CreateError>(CreateError::Invalid(e)),
    });
    res
}

/// Whether `res` is what setting a simulator of the architecture named
/// `kind` up gives: the simulator of its circuit before the first cycle, on
/// the given memory, or the error of the architecture.
pub open spec fn is_sim(
    kind: Name,
    memory: Seq<u8>,
    tty_out: bool,
    res: Result<PipeSim, CreateError>,
) -> bool {
    exists|made: Result<Architecture, CreateError>|
        is_arch(kind, made) && match made {
            Ok(arch) => res matches Ok(sim) && sim.set_up(arch, memory, tty_out),
            Err(e) => res == Err::<PipeSim, CreateError>(e),
        }
}

/// Sets up the simulator of the architecture named `kind` on the given
/// memory.
pub fn create_sim(kind: &str, memory: MemData, tty_out: bool) -> (res: Result<
    PipeSim,
    CreateError,
>)
    ensures
        is_sim(kind@, memory@, tty_out, res),
        !spec_arch_names().contains(kind@) ==> (res matches Err(
            CreateError::UnknownArchitecture(name),
        ) && name@ == kind@),
        spec_arch_names().contains(kind@) ==> !(res matches Err(
            CreateError::UnknownArchitecture(_),
        )),
        res matches Ok(sim) ==> (sim.units@.mem == memory@ && sim.cycle_count == 0
            && !sim.terminate && sim.tty_out == tty_out),
{
    let made = build_arch(kind);
    let ghost given = made;
    let res = match made {
        Ok(arch) => Ok(PipeSim::new(arch, memory, tty_out)),
        Err(e) => Err(e),
    };
    assert(is_arch(kind@, given) && match given {
        Ok(arch) => res matches Ok(sim) && sim.set_up(arch, memory@, tty_out),
        Err(e) => res == Err::<PipeSim, CreateError>(e),
    });
    res
}

} // verus!
