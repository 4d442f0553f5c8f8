//! The values that travel on the wires of a simulated processor, and records
//! of such values.
use vstd::prelude::*;
use crate::isa::{ConditionCode, Stat};

verus! {

/// The type of a signal.
#[derive(Debug, Clone, Copy, PartialEq, Eq, Structural)]
pub enum SigType {
    Bool,
    U8,
    U64,
    Stat,
    Cc,
    /// The nine bytes that follow the first byte of an instruction.
    Align,
}

/// The value of a signal.
#[derive(Debug, Clone, Copy, PartialEq, Eq)]
pub enum Value {
    Bool(bool),
    U8(u8),
    U64(u64),
    Stat(Stat),
    Cc(ConditionCode),
    Align([u8; 9]),
}

/// Whether two runs of instruction bytes are equal.
pub fn same_bytes(a: &[u8; 9], b: &[u8; 9]) -> (eq: bool)
    ensures
        eq == (*a == *b),
{
    let mut i: usize = 0;
    while i < 9
        invariant
            i <= 9,
            forall|j: int| 0 <= j < i ==> a[j] == b[j],
        decreases 9 - i,
    {
        if a[i] != b[i] {
            assert(a@[i as int] != b@[i as int]);
            return false;
        }
        i = i + 1;
    }
    assert(*a =~= *b);
    true
}

impl Value {
    /// The type that the value belongs to.
    pub open spec fn spec_type_of(self) -> SigType {
        match self {
            Value::Bool(_) => SigType::Bool,
            Value::U8(_) => SigType::U8,
            Value::U64(_) => SigType::U64,
            Value::Stat(_) => SigType::Stat,
            Value::Cc(_) => SigType::Cc,
            Value::Align(_) => SigType::Align,
        }
    }

    /// The type that the value belongs to.
    pub fn type_of(&self) -> (ty: SigType)
        ensures
            ty == self.spec_type_of(),
    {
        match self {
            Value::Bool(_) => SigType::Bool,
            Value::U8(_) => SigType::U8,
            Value::U64(_) => SigType::U64,
            Value::Stat(_) => SigType::Stat,
            Value::Cc(_) => SigType::Cc,
            Value::Align(_) => SigType::Align,
        }
    }

    /// The value that a signal of type `ty` has before anything drives it:
    /// `false`, zero, `Aok`, cleared flags, nine zero bytes.
    pub open spec fn spec_default_of(ty: SigType) -> Value {
        match ty {
            SigType::Bool => Value::Bool(false),
            SigType::U8 => Value::U8(0),
            SigType::U64 => Value::U64(0),
            SigType::Stat => Value::Stat(Stat::Aok),
            SigType::Cc => Value::Cc(ConditionCode { sf: false, of: false, zf: false }),
            SigType::Align => Value::Align([0u8, 0u8, 0u8, 0u8, 0u8, 0u8, 0u8, 0u8, 0u8]),
        }
    }

    /// The value that a signal of type `ty` has before anything drives it.
    pub fn default_of(ty: SigType) -> (v: Value)
        ensures
            v == Value::spec_default_of(ty),
            v.spec_type_of() == ty,
    {
        match ty {
            SigType::Bool => Value::Bool(false),
            SigType::U8 => Value::U8(0),
            SigType::U64 => Value::U64(0),
            SigType::Stat => Value::Stat(Stat::Aok),
            SigType::Cc => Value::Cc(ConditionCode { sf: false, of: false, zf: false }),
            SigType::Align => Value::Align([0u8, 0u8, 0u8, 0u8, 0u8, 0u8, 0u8, 0u8, 0u8]),
        }
    }

    /// Whether the value counts as true where a condition is expected: a
    /// boolean that is true, or a number that is not zero.
    pub open spec fn truth(self) -> bool {
        match self {
            Value::Bool(b) => b,
            Value::U8(x) => x != 0,
            Value::U64(x) => x != 0,
            _ => false,
        }
    }

    /// Whether the value counts as true where a condition is expected.
    pub fn is_true(&self) -> (b: bool)
        ensures
            b == self.truth(),
    {
        match self {
            Value::Bool(b) => *b,
            Value::U8(x) => *x != 0,
            Value::U64(x) => *x != 0,
            _ => false,
        }
    }

    /// The number that the value stands for on a 64-bit wire: the number
    /// itself, 1 or 0 for a boolean, 0 for a value that is no number.
    pub open spec fn word(self) -> u64 {
        match self {
            Value::Bool(b) => if b { 1 } else { 0 },
            Value::U8(x) => x as u64,
            Value::U64(x) => x,
            _ => 0,
        }
    }

    /// The number that the value stands for on a 64-bit wire.
    pub fn as_u64(&self) -> (w: u64)
        ensures
            w == self.word(),
    {
        match self {
            Value::Bool(b) => if *b { 1 } else { 0 },
            Value::U8(x) => *x as u64,
            Value::U64(x) => *x,
            _ => 0,
        }
    }

    /// The number that the value stands for on an 8-bit wire: the low byte of
    /// its word.
    pub open spec fn byte(self) -> u8 {
        (self.word() % 0x100) as u8
    }

    /// The number that the value stands for on an 8-bit wire.
    pub fn as_u8(&self) -> (b: u8)
        ensures
            b == self.byte(),
    {
        let w: u64 = self.as_u64();
        (w % 0x100) as u8
    }

    /// The status that the value stands for; `Aok` for a value that is none.
    pub open spec fn stat(self) -> Stat {
        match self {
            Value::Stat(s) => s,
            _ => Stat::Aok,
        }
    }

    /// The status that the value stands for.
    pub fn as_stat(&self) -> (s: Stat)
        ensures
            s == self.stat(),
    {
        match self {
            Value::Stat(s) => *s,
            _ => Stat::Aok,
        }
    }

    /// The condition codes that the value stands for; cleared flags for a
    /// value that holds none.
    pub open spec fn cc(self) -> ConditionCode {
        match self {
            Value::Cc(c) => c,
            _ => ConditionCode { sf: false, of: false, zf: false },
        }
    }

    /// The condition codes that the value stands for.
    pub fn as_cc(&self) -> (c: ConditionCode)
        ensures
            c == self.cc(),
    {
        match self {
            Value::Cc(c) => *c,
            _ => ConditionCode { sf: false, of: false, zf: false },
        }
    }

    /// The instruction bytes that the value stands for; nine zero bytes for
    /// a value that holds none.
    pub open spec fn align(self) -> [u8; 9] {
        match self {
            Value::Align(a) => a,
            _ => [0u8, 0u8, 0u8, 0u8, 0u8, 0u8, 0u8, 0u8, 0u8],
        }
    }

    /// The instruction bytes that the value stands for.
    pub fn as_align(&self) -> (a: [u8; 9])
        ensures
            a == self.align(),
    {
        match self {
            Value::Align(a) => *a,
            _ => [0u8, 0u8, 0u8, 0u8, 0u8, 0u8, 0u8, 0u8, 0u8],
        }
    }

    /// The value as a signal of type `ty` carries it: unchanged where it has
    /// that type; a number or boolean narrowed or widened to a number or
    /// boolean type; the type's default otherwise.
    pub open spec fn spec_coerce(self, ty: SigType) -> Value {
        if self.spec_type_of() == ty {
            self
        } else {
            match ty {
                SigType::Bool => Value::Bool(self.truth()),
                SigType::U8 => Value::U8(self.byte()),
                SigType::U64 => Value::U64(self.word()),
                _ => Value::spec_default_of(ty),
            }
        }
    }

    /// The value as a signal of type `ty` carries it.
    pub fn coerce(&self, ty: SigType) -> (v: Value)
        ensures
            v == self.spec_coerce(ty),
            v.spec_type_of() == ty,
    {
        if self.type_of() == ty {
            *self
        } else {
            match ty {
                SigType::Bool => Value::Bool(self.is_true()),
                SigType::U8 => Value::U8(self.as_u8()),
                SigType::U64 => Value::U64(self.as_u64()),
                _ => Value::default_of(ty),
            }
        }
    }

    /// Whether the value is a number: a byte or a word.
    pub open spec fn is_number(self) -> bool {
        self is U8 || self is U64
    }

    /// Whether two values are equal: two numbers are equal where they are
    /// the same number, whatever their widths; any other two values are
    /// equal where they are the same value of the same type.
    pub open spec fn equals(self, other: Value) -> bool {
        if self.is_number() && other.is_number() {
            self.word() == other.word()
        } else {
            self == other
        }
    }

    /// Whether two values are equal.
    pub fn is_equal(&self, other: &Value) -> (eq: bool)
        ensures
            eq == self.equals(*other),
    {
        match (self, other) {
            (Value::U8(a), Value::U64(b)) => *a as u64 == *b,
            (Value::U64(a), Value::U8(b)) => *a == *b as u64,
            _ => self.same(other),
        }
    }

    /// Whether two values are the same value of the same type.
    pub fn same(&self, other: &Value) -> (eq: bool)
        ensures
            eq == (*self == *other),
    {
        match (self, other) {
            (Value::Bool(a), Value::Bool(b)) => *a == *b,
            (Value::U8(a), Value::U8(b)) => *a == *b,
            (Value::U64(a), Value::U64(b)) => *a == *b,
            (Value::Stat(a), Value::Stat(b)) => *a == *b,
            (Value::Cc(a), Value::Cc(b)) => *a == *b,
            (Value::Align(a), Value::Align(b)) => same_bytes(a, b),
            _ => false,
        }
    }
}

} // verus!
