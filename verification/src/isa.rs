//! Instruction set definition for the Y86-64 architecture: the code tables,
//! the arithmetic-logic operations, the condition codes and the processor
//! status.
use vstd::prelude::*;

pub mod cond_fn;
pub mod decode;
pub mod inst_code;
pub mod interp;
pub mod op_code;
pub mod reg_code;

pub use interp::{simulate, IsaError, StandardResult};

verus! {

/// Sixteen 64-bit registers, indexed by register code.
pub type RegFile = [u64; 16];

/// The sign bit of a 64-bit word, read as a two's complement number.
pub open spec fn is_negative(x: u64) -> bool {
    x >= 0x8000_0000_0000_0000
}

/// The sum of two words, reduced to 64 bits.
pub open spec fn wrapping_sum(a: u64, b: u64) -> u64 {
    if a + b > u64::MAX {
        (a + b - 0x1_0000_0000_0000_0000) as u64
    } else {
        (a + b) as u64
    }
}

/// The difference `b - a` of two words, reduced to 64 bits.
pub open spec fn wrapping_difference(a: u64, b: u64) -> u64 {
    if b - a < 0 {
        (b - a + 0x1_0000_0000_0000_0000) as u64
    } else {
        (b - a) as u64
    }
}

/// Result of the arithmetic-logic operation selected by `op`, or `None` for a
/// code that names no operation. The second operand is the left-hand side:
/// subtraction computes `b - a`.
pub open spec fn spec_arithmetic(a: u64, b: u64, op: u8) -> Option<u64> {
    if op == op_code::ADD {
        Some(wrapping_sum(a, b))
    } else if op == op_code::SUB {
        Some(wrapping_difference(a, b))
    } else if op == op_code::XOR {
        Some(b ^ a)
    } else if op == op_code::AND {
        Some(b & a)
    } else {
        None
    }
}

/// Applies the arithmetic-logic operation `op` to `b` and `a`.
pub fn arithmetic_compute(a: u64, b: u64, op: u8) -> (res: Option<u64>)
    ensures
        res == spec_arithmetic(a, b, op),
{
    if op == op_code::ADD {
        Some(b.wrapping_add(a))
    } else if op == op_code::SUB {
        Some(b.wrapping_sub(a))
    } else if op == op_code::XOR {
        Some(b ^ a)
    } else if op == op_code::AND {
        Some(b & a)
    } else {
        None
    }
}

/// The condition codes: sign, overflow and zero flag.
#[derive(Debug, Clone, Copy, PartialEq, Eq, Structural)]
pub struct ConditionCode {
    pub sf: bool,
    pub of: bool,
    pub zf: bool,
}

impl Default for ConditionCode {
    fn default() -> (cc: ConditionCode)
        ensures
            cc == (ConditionCode { sf: false, of: false, zf: false }),
    {
        ConditionCode { sf: false, of: false, zf: false }
    }
}

impl ConditionCode {
    /// Whether the flags satisfy the condition function `cfn`. A code that
    /// names no condition is satisfied by no flags.
    pub open spec fn spec_test(self, cfn: u8) -> bool {
        if cfn == cond_fn::YES {
            true
        } else if cfn == cond_fn::E {
            self.zf
        } else if cfn == cond_fn::NE {
            !self.zf
        } else if cfn == cond_fn::L {
            self.sf != self.of
        } else if cfn == cond_fn::LE {
            self.zf || self.sf != self.of
        } else if cfn == cond_fn::GE {
            self.sf == self.of
        } else if cfn == cond_fn::G {
            !self.zf && self.sf == self.of
        } else {
            false
        }
    }

    /// The flags that the operation `opfun` on `a` and `b` with result `e`
    /// leaves behind: the sign of the result, whether it is zero, and whether
    /// the signed addition `b + a` or subtraction `b - a` overflowed.
    pub open spec fn flags_of(a: u64, b: u64, e: u64, opfun: u8) -> ConditionCode {
        ConditionCode {
            sf: is_negative(e),
            zf: e == 0,
            of: if opfun == op_code::ADD {
                is_negative(a) == is_negative(b) && is_negative(a) != is_negative(e)
            } else if opfun == op_code::SUB {
                is_negative(a) != is_negative(b) && is_negative(b) != is_negative(e)
            } else {
                false
            },
        }
    }

    /// Tests the flags against the condition function `cfn`.
    pub fn test(self, cfn: u8) -> (res: bool)
        ensures
            res == self.spec_test(cfn),
    {
        let ConditionCode { sf, zf, of } = self;
        if cfn == cond_fn::YES {
            true
        } else if cfn == cond_fn::E {
            zf
        } else if cfn == cond_fn::NE {
            !zf
        } else if cfn == cond_fn::L {
            sf ^ of
        } else if cfn == cond_fn::LE {
            zf || (sf ^ of)
        } else if cfn == cond_fn::GE {
            !(sf ^ of)
        } else if cfn == cond_fn::G {
            !zf && !(sf ^ of)
        } else {
            false
        }
    }

    /// Replaces the flags by those of the operation `opfun` on `a` and `b`
    /// with result `e`.
    pub fn set(&mut self, a: u64, b: u64, e: u64, opfun: u8)
        ensures
            *final(self) == ConditionCode::flags_of(a, b, e, opfun),
    {
        let sign: u64 = e >> 63;
        let add_overflow: u64 = (!(a ^ b) & (a ^ e)) >> 63;
        let sub_overflow: u64 = ((a ^ b) & (b ^ e)) >> 63;
        proof {
            assert((e >> 63 != 0) == (e >= 0x8000_0000_0000_0000)) by (bit_vector);
            assert(((!(a ^ b) & (a ^ e)) >> 63 != 0) == ((a >= 0x8000_0000_0000_0000) == (b
                >= 0x8000_0000_0000_0000) && (a >= 0x8000_0000_0000_0000) != (e
                >= 0x8000_0000_0000_0000))) by (bit_vector);
            assert((((a ^ b) & (b ^ e)) >> 63 != 0) == ((a >= 0x8000_0000_0000_0000) != (b
                >= 0x8000_0000_0000_0000) && (b >= 0x8000_0000_0000_0000) != (e
                >= 0x8000_0000_0000_0000))) by (bit_vector);
        }
        *self = ConditionCode {
            sf: sign != 0,
            zf: e == 0,
            of: if opfun == op_code::ADD {
                add_overflow != 0
            } else if opfun == op_code::SUB {
                sub_overflow != 0
            } else {
                false
            },
        };
    }
}

/// Processor status, of the whole machine or of one pipeline stage.
#[derive(Debug, Clone, Copy, PartialEq, Eq, Structural)]
pub enum Stat {
    /// Everything is fine.
    Aok,
    /// The stage holds a bubble, which executes as a `nop`.
    Bub,
    /// A `halt` instruction was fetched.
    Hlt,
    /// An instruction or data address was out of range.
    Adr,
    /// An invalid instruction code was fetched.
    Ins,
}

impl Default for Stat {
    fn default() -> (s: Stat)
        ensures
            s == Stat::Aok,
    {
        Stat::Aok
    }
}

impl Stat {
    /// The number that stands for the status.
    pub open spec fn spec_code(self) -> u8 {
        match self {
            Stat::Aok => 0,
            Stat::Bub => 1,
            Stat::Hlt => 2,
            Stat::Adr => 3,
            Stat::Ins => 4,
        }
    }

    /// The number that stands for the status.
    pub fn code(self) -> (c: u8)
        ensures
            c == self.spec_code(),
    {
        match self {
            Stat::Aok => 0,
            Stat::Bub => 1,
            Stat::Hlt => 2,
            Stat::Adr => 3,
            Stat::Ins => 4,
        }
    }

    /// Whether the status ends the program: a halt or a fault.
    pub open spec fn spec_is_exception(self) -> bool {
        self == Stat::Hlt || self == Stat::Adr || self == Stat::Ins
    }

    /// Whether the status ends the program: a halt or a fault.
    pub fn is_exception(self) -> (b: bool)
        ensures
            b == self.spec_is_exception(),
    {
        match self {
            Stat::Hlt => true,
            Stat::Adr => true,
            Stat::Ins => true,
            _ => false,
        }
    }

    /// The lower-case three-letter name of the status.
    pub fn name(self) -> (name: &'static str)
        ensures
            name@ == match self {
                Stat::Aok => "aok"@,
                Stat::Bub => "bub"@,
                Stat::Hlt => "hlt"@,
                Stat::Adr => "adr"@,
                Stat::Ins => "ins"@,
            },
    {
        match self {
            Stat::Aok => "aok",
            Stat::Bub => "bub",
            Stat::Hlt => "hlt",
            Stat::Adr => "adr",
            Stat::Ins => "ins",
        }
    }
}

} // verus!
