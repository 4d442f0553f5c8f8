//! The statements of an assembly source.
//!
//! A line holds at most one statement: a label `name:`, an instruction, or
//! one of the directives `.pos`, `.align` and `.quad`. Operands are
//! registers `%rax` to `%r14`, immediates `$number`, `number` or `label`,
//! and memory operands `displacement(register)`, whose displacement may be
//! left out. Numbers are decimal, or hexadecimal with the prefix `0x`.
use vstd::prelude::*;
use crate::assembler::lexer::{
    code_end, find_code_end, lines_from, spans_view, split_lines, split_tokens, tokens_from, Span,
};
use crate::assembler::{AsmError, SourceLine, Statement};
use crate::framework::names::Name;
use crate::object::{Addr, CondFn, Imm, Inst, OpFn, Reg};
use crate::text::{
    ascii_bytes, bytes_of, parse_hex, parse_number, parse_signed, spec_hex, spec_number,
    spec_signed,
};

verus! {

/// An immediate as plain values.
pub enum ImmView {
    Num(i64),
    Label(Name),
}

/// A statement as plain values.
pub enum StatementView {
    Label(Name),
    Inst(Inst<ImmView>),
    Pos(u64),
    Align(u64),
    Quad(ImmView),
}

/// An immediate as plain values.
pub open spec fn imm_view(imm: Imm) -> ImmView {
    match imm {
        Imm::Num(n) => ImmView::Num(n),
        Imm::Label(l) => ImmView::Label(l@),
    }
}

/// An instruction as plain values.
pub open spec fn inst_view(inst: Inst<Imm>) -> Inst<ImmView> {
    match inst {
        Inst::HALT => Inst::HALT,
        Inst::NOP => Inst::NOP,
        Inst::CMOVX(c, ra, rb) => Inst::CMOVX(c, ra, rb),
        Inst::IRMOVQ(rb, v) => Inst::IRMOVQ(rb, imm_view(v)),
        Inst::RMMOVQ(ra, addr) => Inst::RMMOVQ(ra, addr),
        Inst::MRMOVQ(addr, ra) => Inst::MRMOVQ(addr, ra),
        Inst::OPQ(op, ra, rb) => Inst::OPQ(op, ra, rb),
        Inst::JX(c, v) => Inst::JX(c, imm_view(v)),
        Inst::CALL(v) => Inst::CALL(imm_view(v)),
        Inst::RET => Inst::RET,
        Inst::PUSHQ(ra) => Inst::PUSHQ(ra),
        Inst::POPQ(ra) => Inst::POPQ(ra),
        Inst::IOPQ(op, v, rb) => Inst::IOPQ(op, imm_view(v), rb),
    }
}

/// The statement of a line as plain values.
pub open spec fn line_view(statement: Option<Statement>) -> Option<StatementView> {
    match statement {
        None => None,
        Some(Statement::Label(l)) => Some(StatementView::Label(l@)),
        Some(Statement::Inst(inst)) => Some(StatementView::Inst(inst_view(inst))),
        Some(Statement::Pos(n)) => Some(StatementView::Pos(n)),
        Some(Statement::Align(n)) => Some(StatementView::Align(n)),
        Some(Statement::Quad(imm)) => Some(StatementView::Quad(imm_view(imm))),
    }
}

/// The bytes of a token.
pub open spec fn word(text: Seq<u8>, span: (int, int)) -> Seq<u8> {
    text.subrange(span.0, span.1)
}

/// Whether the bytes spell the given word.
pub open spec fn spells(bytes: Seq<u8>, lit: Seq<char>) -> bool {
    vstd::utf8::is_ascii_chars(lit) && bytes == bytes_of(lit)
}

/// Whether the bytes of `text` in `span` spell `lit`.
#[verifier::loop_isolation(false)]
fn word_is(text: &[u8], span: Span, lit: &str) -> (same: bool)
    requires
        span.0 <= span.1 <= text@.len(),
    ensures
        same == spells(word(text@, (span.0 as int, span.1 as int)), lit@),
{
    let bytes: Vec<u8> = match ascii_bytes(lit) {
        Some(bytes) => bytes,
        None => {
            return false;
        },
    };
    let ghost w = word(text@, (span.0 as int, span.1 as int));
    if bytes.len() != span.1 - span.0 {
        return false;
    }
    let mut i: usize = 0;
    while i < bytes.len()
        invariant
            i <= bytes@.len(),
            span.0 <= span.1 <= text@.len(),
            bytes@.len() == span.1 - span.0,
            w == word(text@, (span.0 as int, span.1 as int)),
            forall|j: int| 0 <= j < i ==> w[j] == bytes@[j],
        decreases bytes@.len() - i,
    {
        if text[span.0 + i] != bytes[i] {
            assert(w[i as int] != bytes@[i as int]);
            return false;
        }
        i = i + 1;
    }
    assert(w =~= bytes@);
    true
}

/// The register that the bytes name.
pub open spec fn spec_reg(w: Seq<u8>) -> Option<Reg> {
    if spells(w, "%rax"@) {
        Some(Reg::RAX)
    } else if spells(w, "%rcx"@) {
        Some(Reg::RCX)
    } else if spells(w, "%rdx"@) {
        Some(Reg::RDX)
    } else if spells(w, "%rbx"@) {
        Some(Reg::RBX)
    } else if spells(w, "%rsp"@) {
        Some(Reg::RSP)
    } else if spells(w, "%rbp"@) {
        Some(Reg::RBP)
    } else if spells(w, "%rsi"@) {
        Some(Reg::RSI)
    } else if spells(w, "%rdi"@) {
        Some(Reg::RDI)
    } else if spells(w, "%r8"@) {
        Some(Reg::R8)
    } else if spells(w, "%r9"@) {
        Some(Reg::R9)
    } else if spells(w, "%r10"@) {
        Some(Reg::R10)
    } else if spells(w, "%r11"@) {
        Some(Reg::R11)
    } else if spells(w, "%r12"@) {
        Some(Reg::R12)
    } else if spells(w, "%r13"@) {
        Some(Reg::R13)
    } else if spells(w, "%r14"@) {
        Some(Reg::R14)
    } else {
        None
    }
}

/// Reads a register.
fn parse_reg(text: &[u8], span: Span) -> (reg: Option<Reg>)
    requires
        span.0 <= span.1 <= text@.len(),
    ensures
        reg == spec_reg(word(text@, (span.0 as int, span.1 as int))),
{
    if word_is(text, span, "%rax") {
        Some(Reg::RAX)
    } else if word_is(text, span, "%rcx") {
        Some(Reg::RCX)
    } else if word_is(text, span, "%rdx") {
        Some(Reg::RDX)
    } else if word_is(text, span, "%rbx") {
        Some(Reg::RBX)
    } else if word_is(text, span, "%rsp") {
        Some(Reg::RSP)
    } else if word_is(text, span, "%rbp") {
        Some(Reg::RBP)
    } else if word_is(text, span, "%rsi") {
        Some(Reg::RSI)
    } else if word_is(text, span, "%rdi") {
        Some(Reg::RDI)
    } else if word_is(text, span, "%r8") {
        Some(Reg::R8)
    } else if word_is(text, span, "%r9") {
        Some(Reg::R9)
    } else if word_is(text, span, "%r10") {
        Some(Reg::R10)
    } else if word_is(text, span, "%r11") {
        Some(Reg::R11)
    } else if word_is(text, span, "%r12") {
        Some(Reg::R12)
    } else if word_is(text, span, "%r13") {
        Some(Reg::R13)
    } else if word_is(text, span, "%r14") {
        Some(Reg::R14)
    } else {
        None
    }
}

/// The condition of the conditional move that the bytes name.
pub open spec fn spec_cond_move(w: Seq<u8>) -> Option<CondFn> {
    if spells(w, "rrmovq"@) {
        Some(CondFn::YES)
    } else if spells(w, "cmovle"@) {
        Some(CondFn::LE)
    } else if spells(w, "cmovl"@) {
        Some(CondFn::L)
    } else if spells(w, "cmove"@) {
        Some(CondFn::E)
    } else if spells(w, "cmovne"@) {
        Some(CondFn::NE)
    } else if spells(w, "cmovge"@) {
        Some(CondFn::GE)
    } else if spells(w, "cmovg"@) {
        Some(CondFn::G)
    } else {
        None
    }
}

/// Reads the name of a conditional move.
fn parse_cond_move(text: &[u8], span: Span) -> (cond: Option<CondFn>)
    requires
        span.0 <= span.1 <= text@.len(),
    ensures
        cond == spec_cond_move(word(text@, (span.0 as int, span.1 as int))),
{
    if word_is(text, span, "rrmovq") {
        Some(CondFn::YES)
    } else if word_is(text, span, "cmovle") {
        Some(CondFn::LE)
    } else if word_is(text, span, "cmovl") {
        Some(CondFn::L)
    } else if word_is(text, span, "cmove") {
        Some(CondFn::E)
    } else if word_is(text, span, "cmovne") {
        Some(CondFn::NE)
    } else if word_is(text, span, "cmovge") {
        Some(CondFn::GE)
    } else if word_is(text, span, "cmovg") {
        Some(CondFn::G)
    } else {
        None
    }
}

/// The condition of the jump that the bytes name.
pub open spec fn spec_jump(w: Seq<u8>) -> Option<CondFn> {
    if spells(w, "jmp"@) {
        Some(CondFn::YES)
    } else if spells(w, "jle"@) {
        Some(CondFn::LE)
    } else if spells(w, "jl"@) {
        Some(CondFn::L)
    } else if spells(w, "je"@) {
        Some(CondFn::E)
    } else if spells(w, "jne"@) {
        Some(CondFn::NE)
    } else if spells(w, "jge"@) {
        Some(CondFn::GE)
    } else if spells(w, "jg"@) {
        Some(CondFn::G)
    } else {
        None
    }
}

/// Reads the name of a jump.
fn parse_jump(text: &[u8], span: Span) -> (cond: Option<CondFn>)
    requires
        span.0 <= span.1 <= text@.len(),
    ensures
        cond == spec_jump(word(text@, (span.0 as int, span.1 as int))),
{
    if word_is(text, span, "jmp") {
        Some(CondFn::YES)
    } else if word_is(text, span, "jle") {
        Some(CondFn::LE)
    } else if word_is(text, span, "jl") {
        Some(CondFn::L)
    } else if word_is(text, span, "je") {
        Some(CondFn::E)
    } else if word_is(text, span, "jne") {
        Some(CondFn::NE)
    } else if word_is(text, span, "jge") {
        Some(CondFn::GE)
    } else if word_is(text, span, "jg") {
        Some(CondFn::G)
    } else {
        None
    }
}

/// The operation that the bytes name.
pub open spec fn spec_op(w: Seq<u8>) -> Option<OpFn> {
    if spells(w, "addq"@) {
        Some(OpFn::ADD)
    } else if spells(w, "subq"@) {
        Some(OpFn::SUB)
    } else if spells(w, "andq"@) {
        Some(OpFn::AND)
    } else if spells(w, "xorq"@) {
        Some(OpFn::XOR)
    } else {
        None
    }
}

/// Reads the name of an operation.
fn parse_op(text: &[u8], span: Span) -> (op: Option<OpFn>)
    requires
        span.0 <= span.1 <= text@.len(),
    ensures
        op == spec_op(word(text@, (span.0 as int, span.1 as int))),
{
    if word_is(text, span, "addq") {
        Some(OpFn::ADD)
    } else if word_is(text, span, "subq") {
        Some(OpFn::SUB)
    } else if word_is(text, span, "andq") {
        Some(OpFn::AND)
    } else if word_is(text, span, "xorq") {
        Some(OpFn::XOR)
    } else {
        None
    }
}

/// The operation with an immediate operand that the bytes name.
pub open spec fn spec_iop(w: Seq<u8>) -> Option<OpFn> {
    if spells(w, "iaddq"@) {
        Some(OpFn::ADD)
    } else if spells(w, "isubq"@) {
        Some(OpFn::SUB)
    } else if spells(w, "iandq"@) {
        Some(OpFn::AND)
    } else if spells(w, "ixorq"@) {
        Some(OpFn::XOR)
    } else {
        None
    }
}

/// Reads the name of an operation with an immediate operand.
fn parse_iop(text: &[u8], span: Span) -> (op: Option<OpFn>)
    requires
        span.0 <= span.1 <= text@.len(),
    ensures
        op == spec_iop(word(text@, (span.0 as int, span.1 as int))),
{
    if word_is(text, span, "iaddq") {
        Some(OpFn::ADD)
    } else if word_is(text, span, "isubq") {
        Some(OpFn::SUB)
    } else if word_is(text, span, "iandq") {
        Some(OpFn::AND)
    } else if word_is(text, span, "ixorq") {
        Some(OpFn::XOR)
    } else {
        None
    }
}

/// Whether a byte can begin a name: a letter, an underscore or a dot.
pub open spec fn begins_name(b: u8) -> bool {
    (65 <= b <= 90) || (97 <= b <= 122) || b == 95 || b == 46
}

/// Whether a byte can stand in a name: a letter, a digit, an underscore or
/// a dot.
pub open spec fn continues_name(b: u8) -> bool {
    begins_name(b) || (48 <= b <= 57)
}

/// Whether the bytes are a name.
pub open spec fn is_name(w: Seq<u8>) -> bool {
    w.len() > 0 && begins_name(w[0]) && forall|i: int| 0 < i < w.len() ==> continues_name(w[i])
}

/// Whether the bytes of `text` in `span` are a name.
fn check_name(text: &[u8], span: Span) -> (ok: bool)
    requires
        span.0 <= span.1 <= text@.len(),
    ensures
        ok == is_name(word(text@, (span.0 as int, span.1 as int))),
{
    let ghost w = word(text@, (span.0 as int, span.1 as int));
    if span.0 == span.1 {
        return false;
    }
    let b: u8 = text[span.0];
    assert(w[0] == b);
    if !((65 <= b && b <= 90) || (97 <= b && b <= 122) || b == 95 || b == 46) {
        return false;
    }
    let mut i: usize = span.0 + 1;
    while i < span.1
        invariant
            span.0 < i <= span.1,
            span.1 <= text@.len(),
            w == word(text@, (span.0 as int, span.1 as int)),
            forall|j: int| 0 < j < i - span.0 ==> continues_name(w[j]),
        decreases span.1 - i,
    {
        let c: u8 = text[i];
        assert(w[i - span.0] == c);
        if !((65 <= c && c <= 90) || (97 <= c && c <= 122) || c == 95 || c == 46 || (48 <= c && c
            <= 57)) {
            return false;
        }
        i = i + 1;
    }
    true
}

/// The address that the bytes spell: an unsigned decimal number, or a
/// hexadecimal number with the prefix `0x`.
pub open spec fn spec_address(w: Seq<u8>) -> Option<u64> {
    match spec_number(w, 10) {
        Some(v) => if v <= u64::MAX {
            Some(v as u64)
        } else {
            None
        },
        None => spec_hex(w, u64::MAX),
    }
}

/// The number that the bytes spell: a signed decimal number, or a
/// hexadecimal number with the prefix `0x`, which stands for the signed
/// number with the same 64 bits.
pub open spec fn spec_value(w: Seq<u8>) -> Option<i64> {
    match spec_signed(w) {
        Some(v) => Some(v),
        None => match spec_hex(w, u64::MAX) {
            Some(v) => Some(v as i64),
            None => None,
        },
    }
}

/// Reads an address.
pub fn parse_address(text: &[u8], span: Span) -> (res: Option<u64>)
    requires
        span.0 <= span.1 <= text@.len(),
    ensures
        res == spec_address(word(text@, (span.0 as int, span.1 as int))),
{
    let w = vstd::slice::slice_subrange(text, span.0, span.1);
    match parse_number(w, 10, u64::MAX) {
        Some(v) => Some(v),
        None => {
            proof {
                if spec_number(w@, 10) is Some {
                    crate::text::lemma_decimal_is_no_hex(w@);
                }
            }
            parse_hex(w, u64::MAX)
        },
    }
}

/// Reads a number.
fn parse_value(text: &[u8], from: usize, to: usize) -> (res: Option<i64>)
    requires
        from <= to <= text@.len(),
    ensures
        res == spec_value(text@.subrange(from as int, to as int)),
{
    let w = vstd::slice::slice_subrange(text, from, to);
    match parse_signed(w) {
        Some(v) => Some(v),
        None => match parse_hex(w, u64::MAX) {
            Some(v) => Some(v as i64),
            None => None,
        },
    }
}

/// The immediate that a token spells: a number behind a `$`, a number, or
/// a name, which is a label.
pub open spec fn spec_imm(text: Seq<u8>, chars: Seq<char>, span: (int, int)) -> Option<ImmView> {
    let w = word(text, span);
    if w.len() > 0 && w[0] == 36 {
        match spec_value(text.subrange(span.0 + 1, span.1)) {
            Some(v) => Some(ImmView::Num(v)),
            None => None,
        }
    } else {
        match spec_value(w) {
            Some(v) => Some(ImmView::Num(v)),
            None => if is_name(w) {
                Some(ImmView::Label(chars.subrange(span.0, span.1)))
            } else {
                None
            },
        }
    }
}

/// Reads an immediate.
fn parse_imm(src: &str, text: &[u8], span: Span) -> (res: Option<Imm>)
    requires
        src.is_ascii(),
        text@ == bytes_of(src@),
        span.0 <= span.1 <= text@.len(),
    ensures
        match spec_imm(text@, src@, (span.0 as int, span.1 as int)) {
            Some(v) => res matches Some(imm) && imm_view(imm) == v,
            None => res is None,
        },
{
    let ghost w = word(text@, (span.0 as int, span.1 as int));
    if span.0 < span.1 && text[span.0] == 36 {
        assert(w[0] == 36);
        match parse_value(text, span.0 + 1, span.1) {
            Some(v) => Some(Imm::Num(v)),
            None => None,
        }
    } else {
        assert(span.0 < span.1 ==> w[0] == text@[span.0 as int]);
        match parse_value(text, span.0, span.1) {
            Some(v) => Some(Imm::Num(v)),
            None => {
                if check_name(text, span) {
                    Some(Imm::Label(src.substring_ascii(span.0, span.1).to_owned()))
                } else {
                    None
                }
            },
        }
    }
}

/// The memory operand that the tokens from `at` on spell: `( register )`
/// where `with_disp` is false, `displacement ( register )` where it is
/// true.
pub open spec fn spec_addr(text: Seq<u8>, tokens: Seq<(int, int)>, at: int, with_disp: bool) -> Option<
    Addr,
> {
    let open = if with_disp {
        at + 1
    } else {
        at
    };
    if spells(word(text, tokens[open]), "("@) && spells(word(text, tokens[open + 2]), ")"@) {
        match spec_reg(word(text, tokens[open + 1])) {
            Some(rb) => if with_disp {
                match spec_value(word(text, tokens[at])) {
                    Some(d) => Some(Addr(Some(d as u64), rb)),
                    None => None,
                }
            } else {
                Some(Addr(None, rb))
            },
            None => None,
        }
    } else {
        None
    }
}

/// The statement that a single token spells.
pub open spec fn spec_single(text: Seq<u8>, tokens: Seq<(int, int)>) -> Option<StatementView> {
    let head = word(text, tokens[0]);
    if spells(head, "halt"@) {
        Some(StatementView::Inst(Inst::HALT))
    } else if spells(head, "nop"@) {
        Some(StatementView::Inst(Inst::NOP))
    } else if spells(head, "ret"@) {
        Some(StatementView::Inst(Inst::RET))
    } else {
        None
    }
}

/// The statement that two tokens spell: a label, a jump, a call, a push
/// or pop, or a directive.
pub open spec fn spec_pair(text: Seq<u8>, chars: Seq<char>, tokens: Seq<(int, int)>) -> Option<
    StatementView,
> {
    let head = word(text, tokens[0]);
    let imm = spec_imm(text, chars, tokens[1]);
    let reg = spec_reg(word(text, tokens[1]));
    let num = spec_address(word(text, tokens[1]));
    if spells(word(text, tokens[1]), ":"@) {
        if is_name(head) {
            Some(StatementView::Label(chars.subrange(tokens[0].0, tokens[0].1)))
        } else {
            None
        }
    } else if spec_jump(head) is Some {
        match imm {
            Some(v) => Some(StatementView::Inst(Inst::JX(spec_jump(head)->0, v))),
            None => None,
        }
    } else if spells(head, "call"@) {
        match imm {
            Some(v) => Some(StatementView::Inst(Inst::CALL(v))),
            None => None,
        }
    } else if spells(head, "pushq"@) {
        match reg {
            Some(r) => Some(StatementView::Inst(Inst::PUSHQ(r))),
            None => None,
        }
    } else if spells(head, "popq"@) {
        match reg {
            Some(r) => Some(StatementView::Inst(Inst::POPQ(r))),
            None => None,
        }
    } else if spells(head, ".pos"@) {
        match num {
            Some(v) => Some(StatementView::Pos(v)),
            None => None,
        }
    } else if spells(head, ".align"@) {
        match num {
            Some(v) => Some(StatementView::Align(v)),
            None => None,
        }
    } else if spells(head, ".quad"@) {
        match imm {
            Some(v) => Some(StatementView::Quad(v)),
            None => None,
        }
    } else {
        None
    }
}

/// The statement that three tokens spell: a move between registers, an
/// operation, or a move or an operation with an immediate.
pub open spec fn spec_triple(text: Seq<u8>, chars: Seq<char>, tokens: Seq<(int, int)>) -> Option<
    StatementView,
> {
    let head = word(text, tokens[0]);
    let first = spec_reg(word(text, tokens[1]));
    let second = spec_reg(word(text, tokens[2]));
    let imm = spec_imm(text, chars, tokens[1]);
    if spec_cond_move(head) is Some {
        match (first, second) {
            (Some(ra), Some(rb)) => Some(
                StatementView::Inst(Inst::CMOVX(spec_cond_move(head)->0, ra, rb)),
            ),
            _ => None,
        }
    } else if spec_op(head) is Some {
        match (first, second) {
            (Some(ra), Some(rb)) => Some(StatementView::Inst(Inst::OPQ(spec_op(head)->0, ra, rb))),
            _ => None,
        }
    } else if spells(head, "irmovq"@) {
        match (imm, second) {
            (Some(v), Some(rb)) => Some(StatementView::Inst(Inst::IRMOVQ(rb, v))),
            _ => None,
        }
    } else if spec_iop(head) is Some {
        match (imm, second) {
            (Some(v), Some(rb)) => Some(StatementView::Inst(Inst::IOPQ(spec_iop(head)->0, v, rb))),
            _ => None,
        }
    } else {
        None
    }
}

/// The statement that five or six tokens spell: a move to or from memory.
pub open spec fn spec_memory(text: Seq<u8>, tokens: Seq<(int, int)>) -> Option<StatementView> {
    let n = tokens.len();
    let head = word(text, tokens[0]);
    if spells(head, "rmmovq"@) {
        match (spec_reg(word(text, tokens[1])), spec_addr(text, tokens, 2, n == 6)) {
            (Some(ra), Some(addr)) => Some(StatementView::Inst(Inst::RMMOVQ(ra, addr))),
            _ => None,
        }
    } else if spells(head, "mrmovq"@) {
        match (spec_addr(text, tokens, 1, n == 6), spec_reg(word(text, tokens[n - 1]))) {
            (Some(addr), Some(ra)) => Some(StatementView::Inst(Inst::MRMOVQ(addr, ra))),
            _ => None,
        }
    } else {
        None
    }
}

/// The statement that the tokens of a line spell, if they spell one. A
/// line without tokens has no statement.
pub open spec fn spec_statement(text: Seq<u8>, chars: Seq<char>, tokens: Seq<(int, int)>) -> Option<
    Option<StatementView>,
> {
    let n = tokens.len();
    let found = if n == 1 {
        spec_single(text, tokens)
    } else if n == 2 {
        spec_pair(text, chars, tokens)
    } else if n == 3 {
        spec_triple(text, chars, tokens)
    } else if n == 5 || n == 6 {
        spec_memory(text, tokens)
    } else {
        None
    };
    if n == 0 {
        Some(None)
    } else {
        match found {
            Some(st) => Some(Some(st)),
            None => None,
        }
    }
}

/// A statement as plain values.
pub open spec fn statement_view(statement: Statement) -> StatementView {
    match statement {
        Statement::Label(l) => StatementView::Label(l@),
        Statement::Inst(inst) => StatementView::Inst(inst_view(inst)),
        Statement::Pos(n) => StatementView::Pos(n),
        Statement::Align(n) => StatementView::Align(n),
        Statement::Quad(imm) => StatementView::Quad(imm_view(imm)),
    }
}

/// The result of reading a statement as plain values.
pub open spec fn read_as(res: Option<Statement>, spec: Option<StatementView>) -> bool {
    match spec {
        Some(v) => res matches Some(st) && statement_view(st) == v,
        None => res is None,
    }
}

/// Whether every token lies inside the text.
pub open spec fn tokens_inside(tokens: Seq<Span>, len: int) -> bool {
    forall|i: int| 0 <= i < tokens.len() ==> (#[trigger] tokens[i]).0 <= tokens[i].1 <= len
}

/// Reads a memory operand.
fn parse_addr(text: &[u8], tokens: &Vec<Span>, at: usize, with_disp: bool) -> (res: Option<Addr>)
    requires
        tokens_inside(tokens@, text@.len() as int),
        at + 3 + (if with_disp {
            1int
        } else {
            0
        }) <= tokens@.len(),
    ensures
        res == spec_addr(text@, spans_view(tokens@), at as int, with_disp),
{
    let n: usize = tokens.len();
    let open: usize = if with_disp { at + 1 } else { at };
    if word_is(text, tokens[open], "(") && word_is(text, tokens[open + 2], ")") {
        match parse_reg(text, tokens[open + 1]) {
            Some(rb) => if with_disp {
                match parse_value(text, tokens[at].0, tokens[at].1) {
                    Some(d) => Some(Addr(Some(d as u64), rb)),
                    None => None,
                }
            } else {
                Some(Addr(None, rb))
            },
            None => None,
        }
    } else {
        None
    }
}

/// Reads the statement that a single token spells.
fn parse_single(text: &[u8], tokens: &Vec<Span>) -> (res: Option<Statement>)
    requires
        tokens_inside(tokens@, text@.len() as int),
        tokens@.len() == 1,
    ensures
        read_as(res, spec_single(text@, spans_view(tokens@))),
{
    let head: Span = tokens[0];
    if word_is(text, head, "halt") {
        Some(Statement::Inst(Inst::HALT))
    } else if word_is(text, head, "nop") {
        Some(Statement::Inst(Inst::NOP))
    } else if word_is(text, head, "ret") {
        Some(Statement::Inst(Inst::RET))
    } else {
        None
    }
}

/// Reads the statement that two tokens spell.
fn parse_pair(src: &str, text: &[u8], tokens: &Vec<Span>) -> (res: Option<Statement>)
    requires
        src.is_ascii(),
        text@ == bytes_of(src@),
        tokens_inside(tokens@, text@.len() as int),
        tokens@.len() == 2,
    ensures
        read_as(res, spec_pair(text@, src@, spans_view(tokens@))),
{
    let head: Span = tokens[0];
    let t: Span = tokens[1];
    if word_is(text, t, ":") {
        if check_name(text, head) {
            Some(Statement::Label(src.substring_ascii(head.0, head.1).to_owned()))
        } else {
            None
        }
    } else if let Some(c) = parse_jump(text, head) {
        match parse_imm(src, text, t) {
            Some(v) => Some(Statement::Inst(Inst::JX(c, v))),
            None => None,
        }
    } else if word_is(text, head, "call") {
        match parse_imm(src, text, t) {
            Some(v) => Some(Statement::Inst(Inst::CALL(v))),
            None => None,
        }
    } else if word_is(text, head, "pushq") {
        match parse_reg(text, t) {
            Some(r) => Some(Statement::Inst(Inst::PUSHQ(r))),
            None => None,
        }
    } else if word_is(text, head, "popq") {
        match parse_reg(text, t) {
            Some(r) => Some(Statement::Inst(Inst::POPQ(r))),
            None => None,
        }
    } else if word_is(text, head, ".pos") {
        match parse_address(text, t) {
            Some(v) => Some(Statement::Pos(v)),
            None => None,
        }
    } else if word_is(text, head, ".align") {
        match parse_address(text, t) {
            Some(v) => Some(Statement::Align(v)),
            None => None,
        }
    } else if word_is(text, head, ".quad") {
        match parse_imm(src, text, t) {
            Some(v) => Some(Statement::Quad(v)),
            None => None,
        }
    } else {
        None
    }
}

/// Reads the statement that three tokens spell.
fn parse_triple(src: &str, text: &[u8], tokens: &Vec<Span>) -> (res: Option<Statement>)
    requires
        src.is_ascii(),
        text@ == bytes_of(src@),
        tokens_inside(tokens@, text@.len() as int),
        tokens@.len() == 3,
    ensures
        read_as(res, spec_triple(text@, src@, spans_view(tokens@))),
{
    let head: Span = tokens[0];
    if let Some(c) = parse_cond_move(text, head) {
        match (parse_reg(text, tokens[1]), parse_reg(text, tokens[2])) {
            (Some(ra), Some(rb)) => Some(Statement::Inst(Inst::CMOVX(c, ra, rb))),
            _ => None,
        }
    } else if let Some(op) = parse_op(text, head) {
        match (parse_reg(text, tokens[1]), parse_reg(text, tokens[2])) {
            (Some(ra), Some(rb)) => Some(Statement::Inst(Inst::OPQ(op, ra, rb))),
            _ => None,
        }
    } else if word_is(text, head, "irmovq") {
        match (parse_imm(src, text, tokens[1]), parse_reg(text, tokens[2])) {
            (Some(v), Some(rb)) => Some(Statement::Inst(Inst::IRMOVQ(rb, v))),
            _ => None,
        }
    } else if let Some(op) = parse_iop(text, head) {
        match (parse_imm(src, text, tokens[1]), parse_reg(text, tokens[2])) {
            (Some(v), Some(rb)) => Some(Statement::Inst(Inst::IOPQ(op, v, rb))),
            _ => None,
        }
    } else {
        None
    }
}

/// Reads the statement that five or six tokens spell.
fn parse_memory(text: &[u8], tokens: &Vec<Span>) -> (res: Option<Statement>)
    requires
        tokens_inside(tokens@, text@.len() as int),
        tokens@.len() == 5 || tokens@.len() == 6,
    ensures
        read_as(res, spec_memory(text@, spans_view(tokens@))),
{
    let n: usize = tokens.len();
    let head: Span = tokens[0];
    if word_is(text, head, "rmmovq") {
        match (parse_reg(text, tokens[1]), parse_addr(text, tokens, 2, n == 6)) {
            (Some(ra), Some(addr)) => Some(Statement::Inst(Inst::RMMOVQ(ra, addr))),
            _ => None,
        }
    } else if word_is(text, head, "mrmovq") {
        match (parse_addr(text, tokens, 1, n == 6), parse_reg(text, tokens[n - 1])) {
            (Some(addr), Some(ra)) => Some(Statement::Inst(Inst::MRMOVQ(addr, ra))),
            _ => None,
        }
    } else {
        None
    }
}

/// Reads the statement that the tokens of a line spell. The outer result
/// tells whether they spell one.
fn parse_statement(src: &str, text: &[u8], tokens: &Vec<Span>) -> (res: Option<Option<Statement>>)
    requires
        src.is_ascii(),
        text@ == bytes_of(src@),
        tokens_inside(tokens@, text@.len() as int),
    ensures
        match spec_statement(text@, src@, spans_view(tokens@)) {
            Some(v) => res matches Some(st) && line_view(st) == v,
            None => res is None,
        },
{
    let n: usize = tokens.len();
    if n == 0 {
        return Some(None);
    }
    let found: Option<Statement> = if n == 1 {
        parse_single(text, tokens)
    } else if n == 2 {
        parse_pair(src, text, tokens)
    } else if n == 3 {
        parse_triple(src, text, tokens)
    } else if n == 5 || n == 6 {
        parse_memory(text, tokens)
    } else {
        None
    };
    match found {
        Some(st) => Some(Some(st)),
        None => None,
    }
}

/// The statement of the line in `line`, if the line spells one: what its
/// tokens spell, the comment left aside.
pub open spec fn spec_line(text: Seq<u8>, chars: Seq<char>, line: (int, int)) -> Option<
    Option<StatementView>,
> {
    spec_statement(text, chars, tokens_from(text, line.0, code_end(text, line.0, line.1)))
}

/// The position of the first of the first `k` lines that spells no
/// statement, or `k` where each of them spells one.
pub open spec fn first_bad_upto(
    text: Seq<u8>,
    chars: Seq<char>,
    lines: Seq<(int, int)>,
    k: int,
) -> int
    decreases k,
{
    if k <= 0 {
        0
    } else {
        let before = first_bad_upto(text, chars, lines, k - 1);
        if before < k - 1 {
            before
        } else if 0 <= k - 1 < lines.len() && spec_line(text, chars, lines[k - 1]) is None {
            k - 1
        } else {
            k
        }
    }
}

/// Once a bad line has been found, looking further finds the same.
proof fn lemma_first_bad_rest(
    text: Seq<u8>,
    chars: Seq<char>,
    lines: Seq<(int, int)>,
    k: int,
    m: int,
)
    requires
        0 < k <= m,
        first_bad_upto(text, chars, lines, k) < k,
    ensures
        first_bad_upto(text, chars, lines, m) == first_bad_upto(text, chars, lines, k),
    decreases m - k,
{
    if k < m {
        lemma_first_bad_rest(text, chars, lines, k, m - 1);
    }
}

/// Whether `parsed` holds the lines of the text `chars`: every line with
/// the statement that it spells and with its text.
pub open spec fn well_read(chars: Seq<char>, parsed: Seq<SourceLine>) -> bool {
    let text = bytes_of(chars);
    let lines = lines_from(text, 0);
    &&& parsed.len() == lines.len()
    &&& forall|i: int|
        0 <= i < lines.len() ==> Some(line_view((#[trigger] parsed[i]).statement)) == spec_line(
            text,
            chars,
            lines[i],
        ) && parsed[i].text@ == chars.subrange(lines[i].0, lines[i].1)
}

/// The first line of the text `chars` that spells no statement, if there
/// is one.
pub open spec fn first_bad_line(chars: Seq<char>) -> Option<int> {
    let text = bytes_of(chars);
    let lines = lines_from(text, 0);
    let bad = first_bad_upto(text, chars, lines, lines.len() as int);
    if bad < lines.len() {
        Some(bad)
    } else {
        None
    }
}

/// The parser of assembly sources.
#[derive(Debug, Clone, Copy)]
pub struct Y86AsmParser;

impl Y86AsmParser {
    /// Reads the lines of an assembly source. The source must be ASCII
    /// text. The answer holds every line with its statement and its text,
    /// or the first line that spells no statement.
    pub fn parse(src: &str) -> (res: Result<Vec<SourceLine>, AsmError>)
        ensures
            !src.is_ascii() ==> res == Err::<Vec<SourceLine>, AsmError>(AsmError::NotAscii),
            src.is_ascii() ==> match first_bad_line(src@) {
                Some(bad) => res matches Err(AsmError::Syntax(line)) && line == bad,
                None => res matches Ok(parsed) && well_read(src@, parsed@),
            },
    {
        let bytes: Vec<u8> = match ascii_bytes(src) {
            Some(bytes) => bytes,
            None => {
                return Err(AsmError::NotAscii);
            },
        };
        let text = bytes.as_slice();
        let lines: Vec<Span> = split_lines(text);
        let ghost all = lines_from(text@, 0);
        let mut parsed: Vec<SourceLine> = Vec::new();
        let mut k: usize = 0;
        while k < lines.len()
            invariant
                k <= lines@.len(),
                src.is_ascii(),
                text@ == bytes_of(src@),
                all == lines_from(text@, 0),
                spans_view(lines@) == all,
                forall|i: int|
                    0 <= i < lines@.len() ==> (#[trigger] lines@[i]).0 <= lines@[i].1
                        <= text@.len(),
                first_bad_upto(text@, src@, all, k as int) == k,
                parsed@.len() == k,
                forall|i: int|
                    0 <= i < k ==> Some(line_view((#[trigger] parsed@[i]).statement)) == spec_line(
                        text@,
                        src@,
                        all[i],
                    ) && parsed@[i].text@ == src@.subrange(all[i].0, all[i].1),
            decreases lines@.len() - k,
        {
            let line: Span = lines[k];
            assert(all[k as int] == (line.0 as int, line.1 as int));
            let end: usize = find_code_end(text, line.0, line.1);
            let tokens: Vec<Span> = split_tokens(text, line.0, end);
            match parse_statement(src, text, &tokens) {
                None => {
                    proof {
                        lemma_first_bad_rest(text@, src@, all, k as int + 1, all.len() as int);
                    }
                    return Err(AsmError::Syntax(k));
                },
                Some(statement) => {
                    parsed.push(
                        SourceLine {
                            statement,
                            text: src.substring_ascii(line.0, line.1).to_owned(),
                        },
                    );
                },
            }
            k = k + 1;
        }
        Ok(parsed)
    }
}

/// Reads the lines of an assembly source.
pub fn parse(src: &str) -> (res: Result<Vec<SourceLine>, AsmError>)
    ensures
        !src.is_ascii() ==> res == Err::<Vec<SourceLine>, AsmError>(AsmError::NotAscii),
        src.is_ascii() ==> match first_bad_line(src@) {
            Some(bad) => res matches Err(AsmError::Syntax(line)) && line == bad,
            None => res matches Ok(parsed) && well_read(src@, parsed@),
        },
{
    Y86AsmParser::parse(src)
}

} // verus!
