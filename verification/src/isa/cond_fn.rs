//! Function codes of conditional moves and jumps.
use vstd::prelude::*;

verus! {

/// Always true: `jmp` and `rrmovq`.
pub const YES: u8 = 0;
pub const LE: u8 = 1;
pub const L: u8 = 2;
pub const E: u8 = 3;
pub const NE: u8 = 4;
pub const GE: u8 = 5;
pub const G: u8 = 6;

/// The name of a condition function code.
pub open spec fn spec_name_of(code: u8) -> Seq<char> {
    if code == YES {
        "YES"@
    } else if code == LE {
        "LE"@
    } else if code == L {
        "L"@
    } else if code == E {
        "E"@
    } else if code == NE {
        "NE"@
    } else if code == GE {
        "GE"@
    } else if code == G {
        "G"@
    } else {
        "no name"@
    }
}

pub fn name_of(code: u8) -> (name: &'static str)
    ensures
        name@ == spec_name_of(code),
{
    if code == YES {
        "YES"
    } else if code == LE {
        "LE"
    } else if code == L {
        "L"
    } else if code == E {
        "E"
    } else if code == NE {
        "NE"
    } else if code == GE {
        "GE"
    } else if code == G {
        "G"
    } else {
        "no name"
    }
}

} // verus!
