//! Register codes: one nibble each, with `RNONE` standing for "no register".
use vstd::prelude::*;

verus! {

pub const RAX: u8 = 0;
pub const RCX: u8 = 1;
pub const RDX: u8 = 2;
pub const RBX: u8 = 3;
pub const RSP: u8 = 4;
pub const RBP: u8 = 5;
pub const RSI: u8 = 6;
pub const RDI: u8 = 7;
pub const R8: u8 = 8;
pub const R9: u8 = 9;
pub const R10: u8 = 0xa;
pub const R11: u8 = 0xb;
pub const R12: u8 = 0xc;
pub const R13: u8 = 0xd;
pub const R14: u8 = 0xe;
/// The sentinel: reads of it give 0, writes to it are discarded.
pub const RNONE: u8 = 0xf;

/// The name of a register code.
pub open spec fn spec_name_of(code: u8) -> Seq<char> {
    if code == RAX {
        "RAX"@
    } else if code == RCX {
        "RCX"@
    } else if code == RDX {
        "RDX"@
    } else if code == RBX {
        "RBX"@
    } else if code == RSP {
        "RSP"@
    } else if code == RBP {
        "RBP"@
    } else if code == RSI {
        "RSI"@
    } else if code == RDI {
        "RDI"@
    } else if code == R8 {
        "R8"@
    } else if code == R9 {
        "R9"@
    } else if code == R10 {
        "R10"@
    } else if code == R11 {
        "R11"@
    } else if code == R12 {
        "R12"@
    } else if code == R13 {
        "R13"@
    } else if code == R14 {
        "R14"@
    } else if code == RNONE {
        "RNONE"@
    } else {
        "no name"@
    }
}

pub fn name_of(code: u8) -> (name: &'static str)
    ensures
        name@ == spec_name_of(code),
{
    if code == RAX {
        "RAX"
    } else if code == RCX {
        "RCX"
    } else if code == RDX {
        "RDX"
    } else if code == RBX {
        "RBX"
    } else if code == RSP {
        "RSP"
    } else if code == RBP {
        "RBP"
    } else if code == RSI {
        "RSI"
    } else if code == RDI {
        "RDI"
    } else if code == R8 {
        "R8"
    } else if code == R9 {
        "R9"
    } else if code == R10 {
        "R10"
    } else if code == R11 {
        "R11"
    } else if code == R12 {
        "R12"
    } else if code == R13 {
        "R13"
    } else if code == R14 {
        "R14"
    } else if code == RNONE {
        "RNONE"
    } else {
        "no name"
    }
}

} // verus!
