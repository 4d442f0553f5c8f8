//! Function codes of the arithmetic-logic unit.
use vstd::prelude::*;

verus! {

pub const ADD: u8 = 0;
pub const SUB: u8 = 1;
pub const AND: u8 = 2;
pub const XOR: u8 = 3;

/// The name of an arithmetic function code.
pub open spec fn spec_name_of(code: u8) -> Seq<char> {
    if code == ADD {
        "ADD"@
    } else if code == SUB {
        "SUB"@
    } else if code == AND {
        "AND"@
    } else if code == XOR {
        "XOR"@
    } else {
        "no name"@
    }
}

pub fn name_of(code: u8) -> (name: &'static str)
    ensures
        name@ == spec_name_of(code),
{
    if code == ADD {
        "ADD"
    } else if code == SUB {
        "SUB"
    } else if code == AND {
        "AND"
    } else if code == XOR {
        "XOR"
    } else {
        "no name"
    }
}

} // verus!
