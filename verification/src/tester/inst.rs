//! Checks of single instructions: short programs around one instruction,
//! each with the value that it must leave in a register. The program of a
//! check is made from the program of its family, in which names in braces
//! stand for what differs from check to check.
use vstd::prelude::*;
use crate::framework::names::{names_of, Name};
use crate::framework::sim::PipeSim;
use crate::isa::{op_code, reg_code, spec_arithmetic};
use crate::tester::{is_simulation, SimTester, TestError};

verus! {

/// The three values that the programs compute with, by position.
pub open spec fn spec_val(i: int) -> u64 {
    if i == 0 {
        0x100
    } else if i == 1 {
        0x020
    } else {
        0x004
    }
}

/// The three values that the programs compute with, by position.
pub fn val(i: usize) -> (res: u64)
    ensures
        res == spec_val(i as int),
{
    if i == 0 {
        0x100
    } else if i == 1 {
        0x020
    } else {
        0x004
    }
}

/// The three values as they stand in a program.
pub open spec fn spec_val_text(i: int) -> Seq<char> {
    if i == 0 {
        "256"@
    } else if i == 1 {
        "32"@
    } else {
        "4"@
    }
}

/// The three values as they stand in a program.
pub fn val_text(i: usize) -> (res: &'static str)
    ensures
        res@ == spec_val_text(i as int),
{
    if i == 0 {
        "256"
    } else if i == 1 {
        "32"
    } else {
        "4"
    }
}

/// The three registers that the programs use, by position.
pub open spec fn spec_reg_name(i: int) -> Seq<char> {
    if i == 0 {
        "%rdx"@
    } else if i == 1 {
        "%rbx"@
    } else {
        "%rsp"@
    }
}

/// The three registers that the programs use, by position.
pub fn reg_name(i: usize) -> (res: &'static str)
    ensures
        res@ == spec_reg_name(i as int),
{
    if i == 0 {
        "%rdx"
    } else if i == 1 {
        "%rbx"
    } else {
        "%rsp"
    }
}

/// The codes of the three registers.
pub open spec fn spec_reg_code(i: int) -> u8 {
    if i == 0 {
        reg_code::RDX
    } else if i == 1 {
        reg_code::RBX
    } else {
        reg_code::RSP
    }
}

/// The codes of the three registers.
pub fn reg_code_of(i: usize) -> (res: u8)
    ensures
        res == spec_reg_code(i as int),
{
    if i == 0 {
        reg_code::RDX
    } else if i == 1 {
        reg_code::RBX
    } else {
        reg_code::RSP
    }
}

/// The four operations on two registers, by position.
pub open spec fn spec_op_name(i: int) -> Seq<char> {
    if i == 0 {
        "addq"@
    } else if i == 1 {
        "subq"@
    } else if i == 2 {
        "andq"@
    } else {
        "xorq"@
    }
}

/// The four operations on two registers, by position.
pub fn op_name(i: usize) -> (res: &'static str)
    ensures
        res@ == spec_op_name(i as int),
{
    if i == 0 {
        "addq"
    } else if i == 1 {
        "subq"
    } else if i == 2 {
        "andq"
    } else {
        "xorq"
    }
}

/// The four operations on a constant and a register, by position.
pub open spec fn spec_iop_name(i: int) -> Seq<char> {
    if i == 0 {
        "iaddq"@
    } else if i == 1 {
        "isubq"@
    } else if i == 2 {
        "iandq"@
    } else {
        "ixorq"@
    }
}

/// The four operations on a constant and a register, by position.
pub fn iop_name(i: usize) -> (res: &'static str)
    ensures
        res@ == spec_iop_name(i as int),
{
    if i == 0 {
        "iaddq"
    } else if i == 1 {
        "isubq"
    } else if i == 2 {
        "iandq"
    } else {
        "ixorq"
    }
}

/// The codes of the four operations.
pub open spec fn spec_op_code(i: int) -> u8 {
    if i == 0 {
        op_code::ADD
    } else if i == 1 {
        op_code::SUB
    } else if i == 2 {
        op_code::AND
    } else {
        op_code::XOR
    }
}

/// The codes of the four operations.
pub fn op_code_of(i: usize) -> (res: u8)
    ensures
        res == spec_op_code(i as int),
{
    if i == 0 {
        op_code::ADD
    } else if i == 1 {
        op_code::SUB
    } else if i == 2 {
        op_code::AND
    } else {
        op_code::XOR
    }
}

/// The seven conditional moves, by the code of their condition.
pub open spec fn spec_move_name(i: int) -> Seq<char> {
    if i == 0 {
        "rrmovq"@
    } else if i == 1 {
        "cmovle"@
    } else if i == 2 {
        "cmovl"@
    } else if i == 3 {
        "cmove"@
    } else if i == 4 {
        "cmovne"@
    } else if i == 5 {
        "cmovge"@
    } else {
        "cmovg"@
    }
}

/// The seven conditional moves, by the code of their condition.
pub fn move_name(i: usize) -> (res: &'static str)
    ensures
        res@ == spec_move_name(i as int),
{
    if i == 0 {
        "rrmovq"
    } else if i == 1 {
        "cmovle"
    } else if i == 2 {
        "cmovl"
    } else if i == 3 {
        "cmove"
    } else if i == 4 {
        "cmovne"
    } else if i == 5 {
        "cmovge"
    } else {
        "cmovg"
    }
}

/// The seven jumps, by the code of their condition.
pub open spec fn spec_jump_name(i: int) -> Seq<char> {
    if i == 0 {
        "jmp"@
    } else if i == 1 {
        "jle"@
    } else if i == 2 {
        "jl"@
    } else if i == 3 {
        "je"@
    } else if i == 4 {
        "jne"@
    } else if i == 5 {
        "jge"@
    } else {
        "jg"@
    }
}

/// The seven jumps, by the code of their condition.
pub fn jump_name(i: usize) -> (res: &'static str)
    ensures
        res@ == spec_jump_name(i as int),
{
    if i == 0 {
        "jmp"
    } else if i == 1 {
        "jle"
    } else if i == 2 {
        "jl"
    } else if i == 3 {
        "je"
    } else if i == 4 {
        "jne"
    } else if i == 5 {
        "jge"
    } else {
        "jg"
    }
}

/// Whether the condition with the code `cond` holds of `b` compared with
/// `a`.
pub open spec fn spec_holds(cond: int, b: u64, a: u64) -> bool {
    if cond == 0 {
        true
    } else if cond == 1 {
        b <= a
    } else if cond == 2 {
        b < a
    } else if cond == 3 {
        b == a
    } else if cond == 4 {
        b != a
    } else if cond == 5 {
        b >= a
    } else {
        b > a
    }
}

/// Whether a condition holds of `b` compared with `a`.
pub fn holds(cond: usize, b: u64, a: u64) -> (res: bool)
    ensures
        res == spec_holds(cond as int, b, a),
{
    if cond == 0 {
        true
    } else if cond == 1 {
        b <= a
    } else if cond == 2 {
        b < a
    } else if cond == 3 {
        b == a
    } else if cond == 4 {
        b != a
    } else if cond == 5 {
        b >= a
    } else {
        b > a
    }
}

/// What an operation leaves in its second operand `b`.
pub open spec fn spec_result(op: u8, a: u64, b: u64) -> u64 {
    match spec_arithmetic(a, b, op) {
        Some(e) => e,
        None => 0,
    }
}

/// What an operation leaves in its second operand.
pub fn result(op: u8, a: u64, b: u64) -> (e: u64)
    ensures
        e == spec_result(op, a, b),
{
    match crate::isa::arithmetic_compute(a, b, op) {
        Some(e) => e,
        None => 0,
    }
}

/// The kinds of instructions that are checked.
#[derive(Debug, Clone, Copy, PartialEq, Eq, Structural)]
pub enum Family {
    /// An operation on two registers, with every operation and every pair
    /// of the three registers.
    Opq,
    /// An operation on a constant and a register, with every operation.
    Iopq,
    /// A conditional move, with every condition and every one of the three
    /// values.
    Cmov,
    /// A jump, with every condition and every one of the three values.
    Jm,
}

impl Family {
    /// The number of checks of the family.
    pub open spec fn spec_count(self) -> int {
        match self {
            Family::Opq => 36,
            Family::Iopq => 4,
            Family::Cmov => 21,
            Family::Jm => 21,
        }
    }

    /// The number of checks of the family.
    pub fn count(self) -> (n: usize)
        ensures
            n == self.spec_count(),
    {
        match self {
            Family::Opq => 36,
            Family::Iopq => 4,
            Family::Cmov => 21,
            Family::Jm => 21,
        }
    }
}

/// A check: its name, the program, the register that the program is about,
/// and the value that the register must hold when the program has ended.
#[derive(Debug)]
pub struct TestCase {
    pub name: String,
    pub source: String,
    pub reg: u8,
    pub expected: u64,
}

/// A check as plain values.
pub struct CaseView {
    pub name: Name,
    pub source: Seq<char>,
    pub reg: u8,
    pub expected: u64,
}

impl View for TestCase {
    type V = CaseView;

    open spec fn view(&self) -> CaseView {
        CaseView {
            name: self.name@,
            source: self.source@,
            reg: self.reg,
            expected: self.expected,
        }
    }
}

/// An operation on two registers, between two rows of five `nop`.
pub const OPQ_PROGRAM: &'static str = "irmovq ${vala}, {ra}
irmovq ${valb}, {rb}
nop
nop
nop
nop
nop
{inst} {ra}, {rb}
nop
nop
nop
nop
nop
halt
";

/// An operation on a constant and a register.
pub const IOPQ_PROGRAM: &'static str = "irmovq ${valb}, %rdx
nop
nop
nop
nop
nop
{inst} {vala}, %rdx
nop
nop
nop
nop
nop
halt
";

/// A conditional move behind a comparison of two values.
pub const CMOV_PROGRAM: &'static str = "irmovq ${vala}, %rdi
irmovq ${valb}, %rsi
xorq %rdx, %rdx
subq %rdi, %rsi
{inst} %rdi, %rdx
halt
";

/// A jump over a move, behind a comparison of two values.
pub const JM_PROGRAM: &'static str = "irmovq ${vala}, %rdi
irmovq ${valb}, %rsi
xorq %rdx, %rdx
subq %rdi, %rsi
{inst} L1
rrmovq %rdi, %rdx
L1:
halt
";

impl Family {
    /// The program of the checks of the family, with names in braces where
    /// the values of a check go.
    pub open spec fn spec_template(self) -> Seq<char> {
        match self {
            Family::Opq => OPQ_PROGRAM@,
            Family::Iopq => IOPQ_PROGRAM@,
            Family::Cmov => CMOV_PROGRAM@,
            Family::Jm => JM_PROGRAM@,
        }
    }

    /// The program of the checks of the family.
    pub fn template(self) -> (text: &'static str)
        ensures
            text@ == self.spec_template(),
    {
        match self {
            Family::Opq => OPQ_PROGRAM,
            Family::Iopq => IOPQ_PROGRAM,
            Family::Cmov => CMOV_PROGRAM,
            Family::Jm => JM_PROGRAM,
        }
    }

    /// The names that stand in braces in the program of the family.
    pub open spec fn spec_names(self) -> Seq<Name> {
        match self {
            Family::Opq => seq!["vala"@, "valb"@, "inst"@, "ra"@, "rb"@],
            _ => seq!["vala"@, "valb"@, "inst"@],
        }
    }

    /// The names that stand in braces in the program of the family.
    pub fn names(self) -> (list: Vec<String>)
        ensures
            names_of(list@) == self.spec_names(),
    {
        let mut list: Vec<String> = Vec::new();
        list.push("vala".to_owned());
        list.push("valb".to_owned());
        list.push("inst".to_owned());
        match self {
            Family::Opq => {
                list.push("ra".to_owned());
                list.push("rb".to_owned());
            },
            _ => {},
        }
        assert(names_of(list@) =~= self.spec_names());
        list
    }

    /// The texts that the check at position `n` puts for the names, in the
    /// order of the names. The operations on two registers come operation
    /// by operation, and for each operation first register by first
    /// register; the moves and jumps come condition by condition, each with
    /// every one of the three values as the second.
    pub open spec fn spec_values(self, n: int) -> Seq<Name> {
        match self {
            Family::Opq => seq![
                spec_val_text(0),
                spec_val_text(1),
                spec_op_name(n / 9),
                spec_reg_name(n / 3 % 3),
                spec_reg_name(n % 3),
            ],
            Family::Iopq => seq![spec_val_text(0), spec_val_text(1), spec_iop_name(n)],
            Family::Cmov => seq![spec_val_text(1), spec_val_text(n % 3), spec_move_name(n / 3)],
            Family::Jm => seq![spec_val_text(1), spec_val_text(n % 3), spec_jump_name(n / 3)],
        }
    }

    /// The texts that the check at position `n` puts for the names.
    pub fn values(self, n: usize) -> (list: Vec<String>)
        ensures
            names_of(list@) == self.spec_values(n as int),
    {
        let mut list: Vec<String> = Vec::new();
        match self {
            Family::Opq => {
                list.push(val_text(0).to_owned());
                list.push(val_text(1).to_owned());
                list.push(op_name(n / 9).to_owned());
                list.push(reg_name(n / 3 % 3).to_owned());
                list.push(reg_name(n % 3).to_owned());
            },
            Family::Iopq => {
                list.push(val_text(0).to_owned());
                list.push(val_text(1).to_owned());
                list.push(iop_name(n).to_owned());
            },
            Family::Cmov => {
                list.push(val_text(1).to_owned());
                list.push(val_text(n % 3).to_owned());
                list.push(move_name(n / 3).to_owned());
            },
            Family::Jm => {
                list.push(val_text(1).to_owned());
                list.push(val_text(n % 3).to_owned());
                list.push(jump_name(n / 3).to_owned());
            },
        }
        assert(names_of(list@) =~= self.spec_values(n as int));
        list
    }

    /// The name of the check at position `n`.
    pub open spec fn spec_label(self, n: int) -> Name {
        match self {
            Family::Opq => "opq-"@ + spec_op_name(n / 9) + "-"@ + spec_reg_name(n / 3 % 3) + "-"@
                + spec_reg_name(n % 3),
            Family::Iopq => "iopq-"@ + spec_iop_name(n),
            Family::Cmov => "cmov-"@ + spec_move_name(n / 3),
            Family::Jm => "jm-"@ + spec_jump_name(n / 3),
        }
    }

    /// The name of the check at position `n`.
    pub fn label(self, n: usize) -> (name: String)
        ensures
            name@ == self.spec_label(n as int),
    {
        match self {
            Family::Opq => "opq-".to_owned().concat(op_name(n / 9)).concat("-").concat(
                reg_name(n / 3 % 3),
            ).concat("-").concat(reg_name(n % 3)),
            Family::Iopq => "iopq-".to_owned().concat(iop_name(n)),
            Family::Cmov => "cmov-".to_owned().concat(move_name(n / 3)),
            Family::Jm => "jm-".to_owned().concat(jump_name(n / 3)),
        }
    }

    /// The register that the check at position `n` is about: the second
    /// operand of an operation on two registers, else `%rdx`.
    pub open spec fn spec_reg(self, n: int) -> u8 {
        match self {
            Family::Opq => spec_reg_code(n % 3),
            _ => reg_code::RDX,
        }
    }

    /// The register that the check at position `n` is about.
    pub fn reg(self, n: usize) -> (code: u8)
        ensures
            code == self.spec_reg(n as int),
            code < 16,
    {
        match self {
            Family::Opq => reg_code_of(n % 3),
            _ => reg_code::RDX,
        }
    }

    /// The value that the register must hold when the program of the check
    /// at position `n` has ended. An operation leaves its result in its
    /// second operand; where both operands are one register, that register
    /// holds the second value when the operation begins. A conditional move
    /// takes the first value to a cleared register where the condition holds
    /// of the second value compared with the first; a jump passes over such
    /// a move where the condition holds.
    pub open spec fn spec_expected(self, n: int) -> u64 {
        match self {
            Family::Opq => spec_result(
                spec_op_code(n / 9),
                if n / 3 % 3 == n % 3 {
                    spec_val(1)
                } else {
                    spec_val(0)
                },
                spec_val(1),
            ),
            Family::Iopq => spec_result(spec_op_code(n), spec_val(0), spec_val(1)),
            Family::Cmov => if spec_holds(n / 3, spec_val(n % 3), spec_val(1)) {
                spec_val(1)
            } else {
                0
            },
            Family::Jm => if spec_holds(n / 3, spec_val(n % 3), spec_val(1)) {
                0
            } else {
                spec_val(1)
            },
        }
    }

    /// The value that the register must hold at the end.
    pub fn expected(self, n: usize) -> (v: u64)
        ensures
            v == self.spec_expected(n as int),
    {
        match self {
            Family::Opq => {
                let first: u64 = if n / 3 % 3 == n % 3 { val(1) } else { val(0) };
                result(op_code_of(n / 9), first, val(1))
            },
            Family::Iopq => result(op_code_of(n), val(0), val(1)),
            Family::Cmov => if holds(n / 3, val(n % 3), val(1)) { val(1) } else { 0 },
            Family::Jm => if holds(n / 3, val(n % 3), val(1)) { 0 } else { val(1) },
        }
    }
}

/// Whether a text is the program of one of the families.
pub open spec fn is_template(text: Seq<char>) -> bool {
    text == Family::Opq.spec_template() || text == Family::Iopq.spec_template() || text
        == Family::Cmov.spec_template() || text == Family::Jm.spec_template()
}

/// What `interpolator::format` makes of a text when it puts each value for
/// the name at the same position, where the name stands in braces; nothing
/// where it refuses the text or lacks a value.
pub uninterp spec fn interpolated(text: Seq<char>, names: Seq<Seq<char>>, values: Seq<Seq<char>>) -> Option<Seq<char>>;

/// Calls `interpolator::format` on a text, with a context that gives each
/// name the value at the same position, to be shown as it is. The result is
/// what the crate returns, or nothing where it returns an error; nothing more
/// is claimed of it. A format specification behind a colon in braces can make
/// the crate index past the end of the text: the call is made on the
/// programs of the families only, which hold none.
#[verifier::external_body]
fn interpolate(text: &str, names: &Vec<String>, values: &Vec<String>) -> (res: Option<String>)
    requires
        is_template(text@),
    ensures
        match res {
            Some(made) => interpolated(text@, names_of(names@), names_of(values@)) == Some(made@),
            None => interpolated(text@, names_of(names@), names_of(values@)) is None,
        },
{
    let context: std::collections::HashMap<&str, interpolator::Formattable> = names.iter().zip(
        values.iter(),
    ).map(|(name, value)| (name.as_str(), interpolator::Formattable::display(value))).collect();
    match interpolator::format(text, &context) {
        Ok(made) => Some(made),
        Err(_) => None,
    }
}

impl Family {
    /// The check at position `n` of the family, if its program can be
    /// made: its program is the program of the family with the values of
    /// the check put for the names.
    pub open spec fn spec_case(self, n: int) -> Option<CaseView> {
        match interpolated(self.spec_template(), self.spec_names(), self.spec_values(n)) {
            Some(source) => Some(
                CaseView {
                    name: self.spec_label(n),
                    source,
                    reg: self.spec_reg(n),
                    expected: self.spec_expected(n),
                },
            ),
            None => None,
        }
    }

    /// The check at position `n` of the family.
    pub fn case(self, n: usize) -> (case: Option<TestCase>)
        ensures
            match self.spec_case(n as int) {
                Some(shape) => case matches Some(c) && c@ == shape && c.reg < 16,
                None => case is None,
            },
    {
        let names = self.names();
        let values = self.values(n);
        match interpolate(self.template(), &names, &values) {
            Some(source) => Some(
                TestCase {
                    name: self.label(n),
                    source,
                    reg: self.reg(n),
                    expected: self.expected(n),
                },
            ),
            None => None,
        }
    }
}

/// Whether `res` is what the check `case` gives for the simulator in which
/// its program has ended: success where the register holds the expected
/// value, else the check with what was expected and what was found.
pub open spec fn is_verdict(case: CaseView, sim: PipeSim, res: Result<(), TestError>) -> bool {
    let found = sim.units@.regs[case.reg as int];
    if found == case.expected {
        res is Ok
    } else {
        res matches Err(TestError::WrongResult { name, source, expected, found: got }) && name@
            == case.name && source@ == case.source && expected == case.expected && got == found
    }
}

/// Looks for the expected value of a check in the simulator in which its
/// program has ended.
pub fn verdict(case: TestCase, sim: &PipeSim) -> (res: Result<(), TestError>)
    requires
        case.reg < 16,
    ensures
        is_verdict(case@, *sim, res),
{
    let found: u64 = sim.units.regs[case.reg as usize];
    if found == case.expected {
        Ok(())
    } else {
        Err(
            TestError::WrongResult {
                name: case.name,
                source: case.source,
                expected: case.expected,
                found,
            },
        )
    }
}

/// Whether `res` is what the checks of a family from position `k` on give
/// on the architecture named `arch`: the checks run in their order, and the
/// first whose program cannot be made, fails, or leaves another value than
/// expected decides.
pub open spec fn is_checks_from(arch: Name, family: Family, k: int, res: Result<(), TestError>) -> bool
    decreases family.spec_count() - k,
{
    if k < 0 || k >= family.spec_count() {
        res is Ok
    } else {
        match family.spec_case(k) {
            None => res matches Err(TestError::Template(name)) && name@ == family.spec_label(k),
            Some(case) => exists|ran: Result<PipeSim, TestError>|
                is_simulation(arch, case.source, ran) && match ran {
                    Err(e) => res == Err::<(), TestError>(e),
                    Ok(sim) => if sim.units@.regs[case.reg as int] == case.expected {
                        is_checks_from(arch, family, k + 1, res)
                    } else {
                        is_verdict(case, sim, res)
                    },
                },
        }
    }
}

impl SimTester {
    /// Runs the checks of a family from position `k` on.
    pub fn check_from(&self, family: Family, k: usize) -> (res: Result<(), TestError>)
        ensures
            is_checks_from(self.arch@, family, k as int, res),
        decreases family.spec_count() - k,
    {
        if k >= family.count() {
            return Ok(());
        }
        let case = match family.case(k) {
            Some(case) => case,
            None => {
                return Err(TestError::Template(family.label(k)));
            },
        };
        let ghost shape = case@;
        let ran = self.simulate(case.source.as_str());
        let ghost given = ran;
        let res = match ran {
            Err(e) => Err(e),
            Ok(sim) => {
                let found: u64 = sim.units.regs[case.reg as usize];
                if found == case.expected {
                    self.check_from(family, k + 1)
                } else {
                    verdict(case, &sim)
                }
            },
        };
        assert(is_simulation(self.arch@, shape.source, given) && match given {
            Err(e) => res == Err::<(), TestError>(e),
            Ok(sim) => if sim.units@.regs[shape.reg as int] == shape.expected {
                is_checks_from(self.arch@, family, k + 1, res)
            } else {
                is_verdict(shape, sim, res)
            },
        });
        res
    }

    /// Checks the operations on two registers.
    pub fn test_opq(&self) -> (res: Result<(), TestError>)
        ensures
            is_checks_from(self.arch@, Family::Opq, 0, res),
    {
        self.check_from(Family::Opq, 0)
    }

    /// Checks the operations on a constant and a register.
    pub fn test_iopq(&self) -> (res: Result<(), TestError>)
        ensures
            is_checks_from(self.arch@, Family::Iopq, 0, res),
    {
        self.check_from(Family::Iopq, 0)
    }

    /// Checks the conditional moves.
    pub fn test_cmov(&self) -> (res: Result<(), TestError>)
        ensures
            is_checks_from(self.arch@, Family::Cmov, 0, res),
    {
        self.check_from(Family::Cmov, 0)
    }

    /// Checks the jumps.
    pub fn test_jm(&self) -> (res: Result<(), TestError>)
        ensures
            is_checks_from(self.arch@, Family::Jm, 0, res),
    {
        self.check_from(Family::Jm, 0)
    }
}

} // verus!
