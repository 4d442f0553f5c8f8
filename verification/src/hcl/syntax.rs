//! The grammar of a description.
//!
//! A description is a list of attributes and signal definitions:
//!
//! ```text
//! #![hardware = <path>]
//! #![program_counter = <signal>]
//! #![termination = <signal>]
//! #![stage_alias(<alias> => <stage>, ...)]
//! <type> <signal> = <source> [ -> <dest> | -> (<dest>, ...) ];
//! ```
//!
//! A type is one of `bool`, `u8`, `u64`, `Stat`, `ConditionCode` and
//! `[u8; 9]`. A source is an expression, or a list of cases in square
//! brackets, each `condition : value` and closed by a semicolon. A
//! destination is the input of a unit, the field of a stage or a signal. A
//! case, an expression that is a source, and a destination may carry a tag
//! `#[tunnel(name)]`.
//!
//! In an expression, `||` binds weakest, then `&&`, then `==`, `!=` and
//! `in { ... }`, then `!`. An operand is a number, a named constant, the
//! name of a signal, a qualified name `head.field`, or an expression in
//! parentheses.
use vstd::prelude::*;
use crate::assembler::lexer::{spans_view, Span};
use crate::assembler::parser::{parse_address, spec_address, word};
use crate::framework::names::{same_name, Name};
use crate::framework::schema::{Hardware, Slot};
use crate::hardware::NEG_8;
use crate::hcl::lexer::{split, tokens_from};
use crate::hcl::{
    tag, Case, Expr, HclData, HclError, HclFailure, Scope, SignalDef, SignalDest, SignalSource,
    SignalSourceExpr, SignalSwitch, StageAlias,
};
use crate::isa::{inst_code, op_code, reg_code, Stat};
use crate::signal::{SigType, Value};
use crate::text::{ascii_bytes, bytes_of};

verus! {

/// A text with its bytes and its tokens.
pub struct Script {
    pub chars: Seq<char>,
    pub text: Seq<u8>,
    pub tokens: Seq<(int, int)>,
}

impl Script {
    /// Whether there is a token at position `i`.
    pub open spec fn has(self, i: int) -> bool {
        0 <= i < self.tokens.len()
    }

    /// The bytes of the token at position `i`.
    pub open spec fn bytes(self, i: int) -> Seq<u8> {
        word(self.text, self.tokens[i])
    }

    /// The token at position `i` as a name.
    pub open spec fn name(self, i: int) -> Name {
        self.chars.subrange(self.tokens[i].0, self.tokens[i].1)
    }

    /// Whether the token at position `i` is `lit`.
    pub open spec fn is(self, i: int, lit: Name) -> bool {
        self.has(i) && self.name(i) == lit
    }

    /// Whether the token at position `i` begins as a name does.
    pub open spec fn names(self, i: int) -> bool {
        self.has(i) && begins_name(self.bytes(i)[0])
    }

    /// Whether the token at position `i` begins as a name does and holds no
    /// dot.
    pub open spec fn plain(self, i: int) -> bool {
        self.names(i) && dot_at(self.bytes(i), 0) == self.bytes(i).len()
    }
}

/// A text that is being read: the text, its bytes and its tokens.
pub struct Source<'a> {
    pub src: &'a str,
    pub text: &'a [u8],
    pub tokens: &'a Vec<Span>,
}

impl<'a> View for Source<'a> {
    type V = Script;

    open spec fn view(&self) -> Script {
        Script { chars: self.src@, text: self.text@, tokens: spans_view(self.tokens@) }
    }
}

impl<'a> Source<'a> {
    /// Whether the bytes are those of the text, and the tokens lie in it.
    pub open spec fn wf(&self) -> bool {
        &&& self.src.is_ascii()
        &&& self.text@ == bytes_of(self.src@)
        &&& forall|i: int|
            0 <= i < self.tokens@.len() ==> (#[trigger] self.tokens@[i]).0 < self.tokens@[i].1
                <= self.text@.len()
    }

    /// The token at position `i` as a name.
    fn name(&self, i: usize) -> (name: &'a str)
        requires
            self.wf(),
            i < self.tokens@.len(),
        ensures
            name@ == self@.name(i as int),
    {
        let span: Span = self.tokens[i];
        self.src.substring_ascii(span.0, span.1)
    }

    /// Whether the token at position `i` is `lit`.
    fn is(&self, i: usize, lit: &str) -> (same: bool)
        requires
            self.wf(),
        ensures
            same == self@.is(i as int, lit@),
            same ==> i < self.tokens@.len() <= usize::MAX,
    {
        i < self.tokens.len() && same_name(self.name(i), lit)
    }
}

/// The value of a named constant: the code of an instruction, of a register
/// or of an operation, a status, `NEG_8`, `true` or `false`.
pub open spec fn spec_constant(name: Name) -> Option<Value> {
    if name == "HALT"@ {
        Some(Value::U8(inst_code::HALT))
    } else if name == "NOP"@ {
        Some(Value::U8(inst_code::NOP))
    } else if name == "CMOVX"@ {
        Some(Value::U8(inst_code::CMOVX))
    } else if name == "IRMOVQ"@ {
        Some(Value::U8(inst_code::IRMOVQ))
    } else if name == "RMMOVQ"@ {
        Some(Value::U8(inst_code::RMMOVQ))
    } else if name == "MRMOVQ"@ {
        Some(Value::U8(inst_code::MRMOVQ))
    } else if name == "OPQ"@ {
        Some(Value::U8(inst_code::OPQ))
    } else if name == "JX"@ {
        Some(Value::U8(inst_code::JX))
    } else if name == "CALL"@ {
        Some(Value::U8(inst_code::CALL))
    } else if name == "RET"@ {
        Some(Value::U8(inst_code::RET))
    } else if name == "PUSHQ"@ {
        Some(Value::U8(inst_code::PUSHQ))
    } else if name == "POPQ"@ {
        Some(Value::U8(inst_code::POPQ))
    } else if name == "IOPQ"@ {
        Some(Value::U8(inst_code::IOPQ))
    } else if name == "RAX"@ {
        Some(Value::U8(reg_code::RAX))
    } else if name == "RCX"@ {
        Some(Value::U8(reg_code::RCX))
    } else if name == "RDX"@ {
        Some(Value::U8(reg_code::RDX))
    } else if name == "RBX"@ {
        Some(Value::U8(reg_code::RBX))
    } else if name == "RSP"@ {
        Some(Value::U8(reg_code::RSP))
    } else if name == "RBP"@ {
        Some(Value::U8(reg_code::RBP))
    } else if name == "RSI"@ {
        Some(Value::U8(reg_code::RSI))
    } else if name == "RDI"@ {
        Some(Value::U8(reg_code::RDI))
    } else if name == "R8"@ {
        Some(Value::U8(reg_code::R8))
    } else if name == "R9"@ {
        Some(Value::U8(reg_code::R9))
    } else if name == "R10"@ {
        Some(Value::U8(reg_code::R10))
    } else if name == "R11"@ {
        Some(Value::U8(reg_code::R11))
    } else if name == "R12"@ {
        Some(Value::U8(reg_code::R12))
    } else if name == "R13"@ {
        Some(Value::U8(reg_code::R13))
    } else if name == "R14"@ {
        Some(Value::U8(reg_code::R14))
    } else if name == "RNONE"@ {
        Some(Value::U8(reg_code::RNONE))
    } else if name == "ADD"@ {
        Some(Value::U8(op_code::ADD))
    } else if name == "SUB"@ {
        Some(Value::U8(op_code::SUB))
    } else if name == "AND"@ {
        Some(Value::U8(op_code::AND))
    } else if name == "XOR"@ {
        Some(Value::U8(op_code::XOR))
    } else if name == "Aok"@ {
        Some(Value::Stat(Stat::Aok))
    } else if name == "Bub"@ {
        Some(Value::Stat(Stat::Bub))
    } else if name == "Hlt"@ {
        Some(Value::Stat(Stat::Hlt))
    } else if name == "Adr"@ {
        Some(Value::Stat(Stat::Adr))
    } else if name == "Ins"@ {
        Some(Value::Stat(Stat::Ins))
    } else if name == "NEG_8"@ {
        Some(Value::U64(NEG_8))
    } else if name == "true"@ {
        Some(Value::Bool(true))
    } else if name == "false"@ {
        Some(Value::Bool(false))
    } else {
        None
    }
}

/// The value of a named constant.
pub fn constant(name: &str) -> (v: Option<Value>)
    ensures
        v == spec_constant(name@),
{
    if same_name(name, "HALT") {
        Some(Value::U8(inst_code::HALT))
    } else if same_name(name, "NOP") {
        Some(Value::U8(inst_code::NOP))
    } else if same_name(name, "CMOVX") {
        Some(Value::U8(inst_code::CMOVX))
    } else if same_name(name, "IRMOVQ") {
        Some(Value::U8(inst_code::IRMOVQ))
    } else if same_name(name, "RMMOVQ") {
        Some(Value::U8(inst_code::RMMOVQ))
    } else if same_name(name, "MRMOVQ") {
        Some(Value::U8(inst_code::MRMOVQ))
    } else if same_name(name, "OPQ") {
        Some(Value::U8(inst_code::OPQ))
    } else if same_name(name, "JX") {
        Some(Value::U8(inst_code::JX))
    } else if same_name(name, "CALL") {
        Some(Value::U8(inst_code::CALL))
    } else if same_name(name, "RET") {
        Some(Value::U8(inst_code::RET))
    } else if same_name(name, "PUSHQ") {
        Some(Value::U8(inst_code::PUSHQ))
    } else if same_name(name, "POPQ") {
        Some(Value::U8(inst_code::POPQ))
    } else if same_name(name, "IOPQ") {
        Some(Value::U8(inst_code::IOPQ))
    } else if same_name(name, "RAX") {
        Some(Value::U8(reg_code::RAX))
    } else if same_name(name, "RCX") {
        Some(Value::U8(reg_code::RCX))
    } else if same_name(name, "RDX") {
        Some(Value::U8(reg_code::RDX))
    } else if same_name(name, "RBX") {
        Some(Value::U8(reg_code::RBX))
    } else if same_name(name, "RSP") {
        Some(Value::U8(reg_code::RSP))
    } else if same_name(name, "RBP") {
        Some(Value::U8(reg_code::RBP))
    } else if same_name(name, "RSI") {
        Some(Value::U8(reg_code::RSI))
    } else if same_name(name, "RDI") {
        Some(Value::U8(reg_code::RDI))
    } else if same_name(name, "R8") {
        Some(Value::U8(reg_code::R8))
    } else if same_name(name, "R9") {
        Some(Value::U8(reg_code::R9))
    } else if same_name(name, "R10") {
        Some(Value::U8(reg_code::R10))
    } else if same_name(name, "R11") {
        Some(Value::U8(reg_code::R11))
    } else if same_name(name, "R12") {
        Some(Value::U8(reg_code::R12))
    } else if same_name(name, "R13") {
        Some(Value::U8(reg_code::R13))
    } else if same_name(name, "R14") {
        Some(Value::U8(reg_code::R14))
    } else if same_name(name, "RNONE") {
        Some(Value::U8(reg_code::RNONE))
    } else if same_name(name, "ADD") {
        Some(Value::U8(op_code::ADD))
    } else if same_name(name, "SUB") {
        Some(Value::U8(op_code::SUB))
    } else if same_name(name, "AND") {
        Some(Value::U8(op_code::AND))
    } else if same_name(name, "XOR") {
        Some(Value::U8(op_code::XOR))
    } else if same_name(name, "Aok") {
        Some(Value::Stat(Stat::Aok))
    } else if same_name(name, "Bub") {
        Some(Value::Stat(Stat::Bub))
    } else if same_name(name, "Hlt") {
        Some(Value::Stat(Stat::Hlt))
    } else if same_name(name, "Adr") {
        Some(Value::Stat(Stat::Adr))
    } else if same_name(name, "Ins") {
        Some(Value::Stat(Stat::Ins))
    } else if same_name(name, "NEG_8") {
        Some(Value::U64(NEG_8))
    } else if same_name(name, "true") {
        Some(Value::Bool(true))
    } else if same_name(name, "false") {
        Some(Value::Bool(false))
    } else {
        None
    }
}

/// An expression as plain values.
pub enum Term {
    Const(Value),
    Ref(Slot),
    Not(Box<Term>),
    And(Box<Term>, Box<Term>),
    Or(Box<Term>, Box<Term>),
    Eq(Box<Term>, Box<Term>),
    Ne(Box<Term>, Box<Term>),
    In(Box<Term>, Seq<Term>),
}

impl Expr {
    /// The expression as plain values.
    pub open spec fn shape(self) -> Term
        decreases self, 0int,
    {
        match self {
            Expr::Const(v) => Term::Const(v),
            Expr::Ref(slot) => Term::Ref(slot),
            Expr::Not(a) => Term::Not(Box::new(a.shape())),
            Expr::And(a, b) => Term::And(Box::new(a.shape()), Box::new(b.shape())),
            Expr::Or(a, b) => Term::Or(Box::new(a.shape()), Box::new(b.shape())),
            Expr::Eq(a, b) => Term::Eq(Box::new(a.shape()), Box::new(b.shape())),
            Expr::Ne(a, b) => Term::Ne(Box::new(a.shape()), Box::new(b.shape())),
            Expr::In(a, list) => Term::In(
                Box::new(a.shape()),
                Expr::shapes_upto(list, list@.len() as int),
            ),
        }
    }

    /// The first `k` expressions of a list as plain values.
    pub open spec fn shapes_upto(list: Vec<Expr>, k: int) -> Seq<Term>
        decreases list, k,
    {
        if k <= 0 || k > list@.len() {
            Seq::empty()
        } else {
            Expr::shapes_upto(list, k - 1).push(list@[k - 1].shape())
        }
    }

    /// The expressions of a list as plain values.
    pub open spec fn shapes(list: Vec<Expr>) -> Seq<Term> {
        Expr::shapes_upto(list, list@.len() as int)
    }
}

/// The shapes of the first expressions of a list depend on those
/// expressions alone.
pub proof fn lemma_shapes_prefix(list: Vec<Expr>, longer: Vec<Expr>, k: int)
    requires
        0 <= k <= list@.len() <= longer@.len(),
        forall|i: int| 0 <= i < list@.len() ==> list@[i] == longer@[i],
    ensures
        Expr::shapes_upto(longer, k) == Expr::shapes_upto(list, k),
    decreases k,
{
    if k > 0 {
        lemma_shapes_prefix(list, longer, k - 1);
    }
}

/// Whether a byte can begin a name: a letter or an underscore.
pub open spec fn begins_name(b: u8) -> bool {
    (65 <= b <= 90) || (97 <= b <= 122) || b == 95
}

/// The position of the first dot of a word from `k` on, or the length of the
/// word where there is none.
pub open spec fn dot_at(w: Seq<u8>, k: int) -> int
    decreases w.len() - k,
{
    if k < 0 || k >= w.len() {
        w.len() as int
    } else if w[k] == 46 {
        k
    } else {
        dot_at(w, k + 1)
    }
}

/// Finds the first dot of the token at position `i`, or its end.
fn find_dot(source: &Source, i: usize) -> (at: usize)
    requires
        source.wf(),
        i < source.tokens@.len(),
    ensures
        source.tokens@[i as int].0 <= at <= source.tokens@[i as int].1,
        at - source.tokens@[i as int].0 == dot_at(source@.bytes(i as int), 0),
{
    let span: Span = source.tokens[i];
    let ghost w = source@.bytes(i as int);
    let mut k: usize = span.0;
    while k < span.1 && source.text[k] != 46
        invariant
            span.0 <= k <= span.1 <= source.text@.len(),
            w == source.text@.subrange(span.0 as int, span.1 as int),
            dot_at(w, 0) == dot_at(w, k - span.0),
        decreases span.1 - k,
    {
        assert(w[k - span.0] == source.text@[k as int]);
        k = k + 1;
    }
    assert(k < span.1 ==> w[k - span.0] == source.text@[k as int]);
    k
}

/// What a name stands for in an expression. On the first reading of a
/// text, while its signals are still unknown (`bound` is false), every name
/// stands for the first signal.
pub open spec fn spec_name(s: Script, scope: Scope, bound: bool, i: int) -> Option<Slot> {
    let t = s.tokens[i];
    let d = t.0 + dot_at(s.bytes(i), 0);
    if !begins_name(s.bytes(i)[0]) {
        None
    } else if !bound {
        Some(Slot::Inter(0))
    } else if d < t.1 {
        scope.resolve(s.chars.subrange(t.0, d), s.chars.subrange(d + 1, t.1))
    } else {
        scope.resolve_signal(s.name(i))
    }
}

/// Resolves the name at position `i`.
fn read_name(source: &Source, hcl: &HclData, bound: bool, i: usize) -> (slot: Option<Slot>)
    requires
        source.wf(),
        i < source.tokens@.len(),
    ensures
        slot == spec_name(source@, hcl.scope(), bound, i as int),
{
    let span: Span = source.tokens[i];
    let b: u8 = source.text[span.0];
    assert(source@.bytes(i as int)[0] == b);
    if !((65 <= b && b <= 90) || (97 <= b && b <= 122) || b == 95) {
        return None;
    }
    if !bound {
        return Some(Slot::Inter(0));
    }
    let d: usize = find_dot(source, i);
    if d < span.1 {
        let head = source.src.substring_ascii(span.0, d);
        let field = source.src.substring_ascii(d + 1, span.1);
        hcl.resolve(head, field)
    } else {
        hcl.resolve_signal(source.name(i))
    }
}

/// The operand that the token at position `i` spells: a number, a named
/// constant, or a name that stands for a signal.
pub open spec fn spec_atom(s: Script, scope: Scope, bound: bool, i: int) -> Option<Term> {
    if !s.has(i) {
        None
    } else {
        match spec_address(s.bytes(i)) {
            Some(n) => Some(Term::Const(Value::U64(n))),
            None => match spec_constant(s.name(i)) {
                Some(v) => Some(Term::Const(v)),
                None => match spec_name(s, scope, bound, i) {
                    Some(slot) => Some(Term::Ref(slot)),
                    None => None,
                },
            },
        }
    }
}

/// Whether an expression was read as the grammar says.
pub open spec fn read_as(res: Option<Expr>, spec: Option<Term>) -> bool {
    match spec {
        Some(t) => res matches Some(e) && e.shape() == t,
        None => res is None,
    }
}

/// Whether an expression was read as the grammar says, up to the same
/// token, which lies behind `i`.
pub open spec fn reads(res: Option<(Expr, usize)>, spec: Option<(Term, int)>, i: int, len: int) -> bool {
    match spec {
        Some((t, j)) => res matches Some((e, k)) && e.shape() == t && k == j && i < k <= len,
        None => res is None,
    }
}

/// Reads an operand of one token.
fn read_atom(source: &Source, hcl: &HclData, bound: bool, i: usize) -> (res: Option<Expr>)
    requires
        source.wf(),
    ensures
        read_as(res, spec_atom(source@, hcl.scope(), bound, i as int)),
{
    if i >= source.tokens.len() {
        return None;
    }
    match parse_address(source.text, source.tokens[i]) {
        Some(n) => Some(Expr::Const(Value::U64(n))),
        None => match constant(source.name(i)) {
            Some(v) => Some(Expr::Const(v)),
            None => match read_name(source, hcl, bound, i) {
                Some(slot) => Some(Expr::Ref(slot)),
                None => None,
            },
        },
    }
}

/// An operand: an expression in parentheses, or a single token.
pub open spec fn spec_primary(s: Script, scope: Scope, bound: bool, i: int) -> Option<(Term, int)>
    decreases s.tokens.len() - i, 1int,
{
    if !s.has(i) {
        None
    } else if s.is(i, "("@) {
        match spec_expr(s, scope, bound, i + 1) {
            Some((a, j)) => if s.is(j, ")"@) {
                Some((a, j + 1))
            } else {
                None
            },
            None => None,
        }
    } else {
        match spec_atom(s, scope, bound, i) {
            Some(t) => Some((t, i + 1)),
            None => None,
        }
    }
}

/// An operand behind any number of `!`.
pub open spec fn spec_unary(s: Script, scope: Scope, bound: bool, i: int) -> Option<(Term, int)>
    decreases s.tokens.len() - i, 2int,
{
    if !s.has(i) {
        None
    } else if s.is(i, "!"@) {
        match spec_unary(s, scope, bound, i + 1) {
            Some((a, j)) => Some((Term::Not(Box::new(a)), j)),
            None => None,
        }
    } else {
        spec_primary(s, scope, bound, i)
    }
}

/// The expressions of a list in braces, from position `i` on, behind those
/// that were read already; the list ends with `}`.
pub open spec fn spec_list(s: Script, scope: Scope, bound: bool, read: Seq<Term>, i: int) -> Option<
    (Seq<Term>, int),
>
    decreases s.tokens.len() - i, 7int,
{
    if !s.has(i) {
        None
    } else if s.is(i, "}"@) {
        Some((read, i + 1))
    } else {
        match spec_expr(s, scope, bound, i) {
            Some((t, j)) => if j <= i {
                None
            } else if s.is(j, ","@) {
                spec_list(s, scope, bound, read.push(t), j + 1)
            } else if s.is(j, "}"@) {
                Some((read.push(t), j + 1))
            } else {
                None
            },
            None => None,
        }
    }
}

/// A comparison: `a == b`, `a != b`, `a in { ... }`, or `a` alone.
pub open spec fn spec_comparison(s: Script, scope: Scope, bound: bool, i: int) -> Option<
    (Term, int),
>
    decreases s.tokens.len() - i, 3int,
{
    if !s.has(i) {
        None
    } else {
        match spec_unary(s, scope, bound, i) {
            Some((a, j)) => if j <= i {
                None
            } else if s.is(j, "=="@) {
                match spec_unary(s, scope, bound, j + 1) {
                    Some((b, k)) => Some((Term::Eq(Box::new(a), Box::new(b)), k)),
                    None => None,
                }
            } else if s.is(j, "!="@) {
                match spec_unary(s, scope, bound, j + 1) {
                    Some((b, k)) => Some((Term::Ne(Box::new(a), Box::new(b)), k)),
                    None => None,
                }
            } else if s.is(j, "in"@) {
                if s.is(j + 1, "{"@) {
                    match spec_list(s, scope, bound, Seq::empty(), j + 2) {
                        Some((list, k)) => Some((Term::In(Box::new(a), list), k)),
                        None => None,
                    }
                } else {
                    None
                }
            } else {
                Some((a, j))
            },
            None => None,
        }
    }
}

/// What follows a conjunction whose operands so far make up `a`.
pub open spec fn spec_and_rest(s: Script, scope: Scope, bound: bool, a: Term, i: int) -> Option<
    (Term, int),
>
    decreases s.tokens.len() - i, 0int,
{
    if s.is(i, "&&"@) {
        match spec_comparison(s, scope, bound, i + 1) {
            Some((b, j)) => if j <= i || j > s.tokens.len() {
                None
            } else {
                spec_and_rest(s, scope, bound, Term::And(Box::new(a), Box::new(b)), j)
            },
            None => None,
        }
    } else {
        Some((a, i))
    }
}

/// A conjunction: comparisons joined by `&&`.
pub open spec fn spec_and(s: Script, scope: Scope, bound: bool, i: int) -> Option<(Term, int)>
    decreases s.tokens.len() - i, 4int,
{
    if !s.has(i) {
        None
    } else {
        match spec_comparison(s, scope, bound, i) {
            Some((a, j)) => if j <= i || j > s.tokens.len() {
                None
            } else {
                spec_and_rest(s, scope, bound, a, j)
            },
            None => None,
        }
    }
}

/// What follows a disjunction whose operands so far make up `a`.
pub open spec fn spec_or_rest(s: Script, scope: Scope, bound: bool, a: Term, i: int) -> Option<
    (Term, int),
>
    decreases s.tokens.len() - i, 0int,
{
    if s.is(i, "||"@) {
        match spec_and(s, scope, bound, i + 1) {
            Some((b, j)) => if j <= i || j > s.tokens.len() {
                None
            } else {
                spec_or_rest(s, scope, bound, Term::Or(Box::new(a), Box::new(b)), j)
            },
            None => None,
        }
    } else {
        Some((a, i))
    }
}

/// An expression: conjunctions joined by `||`.
pub open spec fn spec_expr(s: Script, scope: Scope, bound: bool, i: int) -> Option<(Term, int)>
    decreases s.tokens.len() - i, 6int,
{
    if !s.has(i) {
        None
    } else {
        match spec_and(s, scope, bound, i) {
            Some((a, j)) => if j <= i || j > s.tokens.len() {
                None
            } else {
                spec_or_rest(s, scope, bound, a, j)
            },
            None => None,
        }
    }
}

/// Reads an operand.
fn read_primary(source: &Source, hcl: &HclData, bound: bool, i: usize) -> (res: Option<
    (Expr, usize),
>)
    requires
        source.wf(),
    ensures
        reads(
            res,
            spec_primary(source@, hcl.scope(), bound, i as int),
            i as int,
            source.tokens@.len() as int,
        ),
    decreases source.tokens@.len() - i, 1int,
{
    if i >= source.tokens.len() {
        return None;
    }
    if source.is(i, "(") {
        match read_expr(source, hcl, bound, i + 1) {
            Some((a, j)) => if source.is(j, ")") {
                Some((a, j + 1))
            } else {
                None
            },
            None => None,
        }
    } else {
        match read_atom(source, hcl, bound, i) {
            Some(e) => Some((e, i + 1)),
            None => None,
        }
    }
}

/// Reads an operand behind any number of `!`.
fn read_unary(source: &Source, hcl: &HclData, bound: bool, i: usize) -> (res: Option<
    (Expr, usize),
>)
    requires
        source.wf(),
    ensures
        reads(
            res,
            spec_unary(source@, hcl.scope(), bound, i as int),
            i as int,
            source.tokens@.len() as int,
        ),
    decreases source.tokens@.len() - i, 2int,
{
    if i >= source.tokens.len() {
        return None;
    }
    if source.is(i, "!") {
        match read_unary(source, hcl, bound, i + 1) {
            Some((a, j)) => Some((Expr::Not(Box::new(a)), j)),
            None => None,
        }
    } else {
        read_primary(source, hcl, bound, i)
    }
}

/// Reads the rest of a list in braces.
fn read_list(source: &Source, hcl: &HclData, bound: bool, read: Vec<Expr>, i: usize) -> (res:
    Option<(Vec<Expr>, usize)>)
    requires
        source.wf(),
    ensures
        match spec_list(source@, hcl.scope(), bound, Expr::shapes(read), i as int) {
            Some((list, j)) => res matches Some((v, k)) && Expr::shapes(v) == list && k == j && i
                < k <= source.tokens@.len(),
            None => res is None,
        },
    decreases source.tokens@.len() - i, 7int,
{
    if i >= source.tokens.len() {
        return None;
    }
    if source.is(i, "}") {
        return Some((read, i + 1));
    }
    match read_expr(source, hcl, bound, i) {
        Some((e, j)) => {
            let mut list: Vec<Expr> = read;
            let ghost shape = e.shape();
            list.push(e);
            proof {
                lemma_shapes_prefix(read, list, read@.len() as int);
                assert(Expr::shapes(list) == Expr::shapes(read).push(shape));
            }
            if source.is(j, ",") {
                read_list(source, hcl, bound, list, j + 1)
            } else if source.is(j, "}") {
                Some((list, j + 1))
            } else {
                None
            }
        },
        None => None,
    }
}

/// Reads a comparison.
fn read_comparison(source: &Source, hcl: &HclData, bound: bool, i: usize) -> (res: Option<
    (Expr, usize),
>)
    requires
        source.wf(),
    ensures
        reads(
            res,
            spec_comparison(source@, hcl.scope(), bound, i as int),
            i as int,
            source.tokens@.len() as int,
        ),
    decreases source.tokens@.len() - i, 3int,
{
    if i >= source.tokens.len() {
        return None;
    }
    match read_unary(source, hcl, bound, i) {
        Some((a, j)) => {
            if source.is(j, "==") {
                match read_unary(source, hcl, bound, j + 1) {
                    Some((b, k)) => Some((Expr::Eq(Box::new(a), Box::new(b)), k)),
                    None => None,
                }
            } else if source.is(j, "!=") {
                match read_unary(source, hcl, bound, j + 1) {
                    Some((b, k)) => Some((Expr::Ne(Box::new(a), Box::new(b)), k)),
                    None => None,
                }
            } else if source.is(j, "in") {
                if source.is(j + 1, "{") {
                    let none: Vec<Expr> = Vec::new();
                    assert(Expr::shapes(none) =~= Seq::<Term>::empty());
                    match read_list(source, hcl, bound, none, j + 2) {
                        Some((list, k)) => Some((Expr::In(Box::new(a), list), k)),
                        None => None,
                    }
                } else {
                    None
                }
            } else {
                Some((a, j))
            }
        },
        None => None,
    }
}

/// Reads what follows a conjunction.
fn read_and_rest(source: &Source, hcl: &HclData, bound: bool, a: Expr, i: usize) -> (res: Option<
    (Expr, usize),
>)
    requires
        source.wf(),
        i <= source.tokens@.len(),
    ensures
        match spec_and_rest(source@, hcl.scope(), bound, a.shape(), i as int) {
            Some((t, j)) => res matches Some((e, k)) && e.shape() == t && k == j && i <= k
                <= source.tokens@.len(),
            None => res is None,
        },
    decreases source.tokens@.len() - i, 0int,
{
    if source.is(i, "&&") {
        match read_comparison(source, hcl, bound, i + 1) {
            Some((b, j)) => read_and_rest(
                source,
                hcl,
                bound,
                Expr::And(Box::new(a), Box::new(b)),
                j,
            ),
            None => None,
        }
    } else {
        Some((a, i))
    }
}

/// Reads a conjunction.
fn read_and(source: &Source, hcl: &HclData, bound: bool, i: usize) -> (res: Option<(Expr, usize)>)
    requires
        source.wf(),
    ensures
        reads(
            res,
            spec_and(source@, hcl.scope(), bound, i as int),
            i as int,
            source.tokens@.len() as int,
        ),
    decreases source.tokens@.len() - i, 4int,
{
    if i >= source.tokens.len() {
        return None;
    }
    match read_comparison(source, hcl, bound, i) {
        Some((a, j)) => read_and_rest(source, hcl, bound, a, j),
        None => None,
    }
}

/// Reads what follows a disjunction.
fn read_or_rest(source: &Source, hcl: &HclData, bound: bool, a: Expr, i: usize) -> (res: Option<
    (Expr, usize),
>)
    requires
        source.wf(),
        i <= source.tokens@.len(),
    ensures
        match spec_or_rest(source@, hcl.scope(), bound, a.shape(), i as int) {
            Some((t, j)) => res matches Some((e, k)) && e.shape() == t && k == j && i <= k
                <= source.tokens@.len(),
            None => res is None,
        },
    decreases source.tokens@.len() - i, 0int,
{
    if source.is(i, "||") {
        match read_and(source, hcl, bound, i + 1) {
            Some((b, j)) => read_or_rest(source, hcl, bound, Expr::Or(Box::new(a), Box::new(b)), j),
            None => None,
        }
    } else {
        Some((a, i))
    }
}

/// Reads an expression.
fn read_expr(source: &Source, hcl: &HclData, bound: bool, i: usize) -> (res: Option<
    (Expr, usize),
>)
    requires
        source.wf(),
    ensures
        reads(
            res,
            spec_expr(source@, hcl.scope(), bound, i as int),
            i as int,
            source.tokens@.len() as int,
        ),
    decreases source.tokens@.len() - i, 6int,
{
    if i >= source.tokens.len() {
        return None;
    }
    match read_and(source, hcl, bound, i) {
        Some((a, j)) => read_or_rest(source, hcl, bound, a, j),
        None => None,
    }
}

impl<'a> Source<'a> {
    /// Whether the token at position `i` begins as a name does.
    fn names(&self, i: usize) -> (yes: bool)
        requires
            self.wf(),
        ensures
            yes == self@.names(i as int),
            yes ==> i < self.tokens@.len() <= usize::MAX,
    {
        if i >= self.tokens.len() {
            return false;
        }
        let b: u8 = self.text[self.tokens[i].0];
        assert(self@.bytes(i as int)[0] == b);
        (65 <= b && b <= 90) || (97 <= b && b <= 122) || b == 95
    }

    /// Whether the token at position `i` begins as a name does and holds no
    /// dot.
    fn plain(&self, i: usize) -> (yes: bool)
        requires
            self.wf(),
        ensures
            yes == self@.plain(i as int),
            yes ==> i < self.tokens@.len() <= usize::MAX,
    {
        self.names(i) && find_dot(self, i) == self.tokens[i].1
    }
}

/// A case as plain values.
pub struct CaseShape {
    pub tunnel: Option<Name>,
    pub condition: Term,
    pub value: Term,
}

/// A source as plain values.
pub enum SourceShape {
    Switch(Seq<CaseShape>),
    Expr(Option<Name>, Term),
}

/// A destination as plain values.
pub struct DestShape {
    pub tunnel: Option<Name>,
    pub dest: Slot,
}

/// The definition of a signal as plain values.
pub struct SignalShape {
    pub name: Name,
    pub typ: SigType,
    pub source: SourceShape,
    pub destinations: Seq<DestShape>,
}

impl Case {
    /// The case as plain values.
    pub open spec fn shape(self) -> CaseShape {
        CaseShape {
            tunnel: tag(self.tunnel),
            condition: self.condition.shape(),
            value: self.value.shape(),
        }
    }
}

/// The cases of a list as plain values.
pub open spec fn case_shapes(cases: Seq<Case>) -> Seq<CaseShape> {
    Seq::new(cases.len(), |i: int| cases[i].shape())
}

impl SignalSource {
    /// The source as plain values.
    pub open spec fn shape(self) -> SourceShape {
        match self {
            SignalSource::Switch(switch) => SourceShape::Switch(case_shapes(switch.0@)),
            SignalSource::Expr(e) => SourceShape::Expr(tag(e.tunnel), e.expr.shape()),
        }
    }
}

impl SignalDest {
    /// The destination as plain values.
    pub open spec fn shape(self) -> DestShape {
        DestShape { tunnel: tag(self.tunnel), dest: self.dest }
    }
}

/// The destinations of a list as plain values.
pub open spec fn dest_shapes(dests: Seq<SignalDest>) -> Seq<DestShape> {
    Seq::new(dests.len(), |i: int| dests[i].shape())
}

impl SignalDef {
    /// The definition as plain values.
    pub open spec fn shape(self) -> SignalShape {
        SignalShape {
            name: self.name@,
            typ: self.typ,
            source: self.source.shape(),
            destinations: dest_shapes(self.destinations@),
        }
    }
}

/// The definitions of a list as plain values.
pub open spec fn signal_shapes(signals: Seq<SignalDef>) -> Seq<SignalShape> {
    Seq::new(signals.len(), |i: int| signals[i].shape())
}

/// The tag `#[tunnel(name)]` at position `i`, if one stands there.
pub open spec fn spec_tunnel(s: Script, i: int) -> Option<(Option<Name>, int)> {
    if s.is(i, "#"@) {
        if s.is(i + 1, "["@) && s.is(i + 2, "tunnel"@) && s.is(i + 3, "("@) && s.names(i + 4)
            && s.is(i + 5, ")"@) && s.is(i + 6, "]"@) {
            Some((Some(s.name(i + 4)), i + 7))
        } else {
            None
        }
    } else {
        Some((None, i))
    }
}

/// Reads a tag, if one stands at position `i`.
fn read_tunnel(source: &Source, i: usize) -> (res: Option<(Option<String>, usize)>)
    requires
        source.wf(),
        i <= source.tokens@.len(),
    ensures
        match spec_tunnel(source@, i as int) {
            Some((t, j)) => res matches Some((found, k)) && tag(found) == t && k == j && i <= k
                <= source.tokens@.len(),
            None => res is None,
        },
{
    if source.is(i, "#") {
        if source.is(i + 1, "[") && source.is(i + 2, "tunnel") && source.is(i + 3, "(")
            && source.names(i + 4) && source.is(i + 5, ")") && source.is(i + 6, "]") {
            Some((Some(source.name(i + 4).to_owned()), i + 7))
        } else {
            None
        }
    } else {
        Some((None, i))
    }
}

/// A case: `condition : value`, behind its tag if it has one.
pub open spec fn spec_case(s: Script, scope: Scope, bound: bool, i: int) -> Option<
    (CaseShape, int),
> {
    match spec_tunnel(s, i) {
        Some((tunnel, j)) => match spec_expr(s, scope, bound, j) {
            Some((condition, k)) => if s.is(k, ":"@) {
                match spec_expr(s, scope, bound, k + 1) {
                    Some((value, m)) => Some((CaseShape { tunnel, condition, value }, m)),
                    None => None,
                }
            } else {
                None
            },
            None => None,
        },
        None => None,
    }
}

/// Reads a case.
fn read_case(source: &Source, hcl: &HclData, bound: bool, i: usize) -> (res: Option<
    (Case, usize),
>)
    requires
        source.wf(),
        i < source.tokens@.len(),
    ensures
        match spec_case(source@, hcl.scope(), bound, i as int) {
            Some((c, j)) => res matches Some((found, k)) && found.shape() == c && k == j && i < k
                <= source.tokens@.len(),
            None => res is None,
        },
{
    match read_tunnel(source, i) {
        Some((tunnel, j)) => match read_expr(source, hcl, bound, j) {
            Some((condition, k)) => if source.is(k, ":") {
                match read_expr(source, hcl, bound, k + 1) {
                    Some((value, m)) => Some((Case { tunnel, condition, value }, m)),
                    None => None,
                }
            } else {
                None
            },
            None => None,
        },
        None => None,
    }
}

/// The cases of a list in square brackets, from position `i` on, behind
/// those that were read already. A semicolon closes each case; behind the
/// last it may be left out.
pub open spec fn spec_cases(s: Script, scope: Scope, bound: bool, read: Seq<CaseShape>, i: int) -> Option<
    (Seq<CaseShape>, int),
>
    decreases s.tokens.len() - i,
{
    if !s.has(i) {
        None
    } else if s.is(i, "]"@) {
        Some((read, i + 1))
    } else {
        match spec_case(s, scope, bound, i) {
            Some((c, j)) => if j <= i || j > s.tokens.len() {
                None
            } else if s.is(j, ";"@) {
                spec_cases(s, scope, bound, read.push(c), j + 1)
            } else if s.is(j, "]"@) {
                Some((read.push(c), j + 1))
            } else {
                None
            },
            None => None,
        }
    }
}

/// Reads the rest of a list of cases.
fn read_cases(source: &Source, hcl: &HclData, bound: bool, read: Vec<Case>, i: usize) -> (res:
    Option<(Vec<Case>, usize)>)
    requires
        source.wf(),
    ensures
        match spec_cases(source@, hcl.scope(), bound, case_shapes(read@), i as int) {
            Some((list, j)) => res matches Some((v, k)) && case_shapes(v@) == list && k == j && i
                < k <= source.tokens@.len(),
            None => res is None,
        },
    decreases source.tokens@.len() - i,
{
    if i >= source.tokens.len() {
        return None;
    }
    if source.is(i, "]") {
        return Some((read, i + 1));
    }
    match read_case(source, hcl, bound, i) {
        Some((c, j)) => {
            let mut list: Vec<Case> = read;
            let ghost shape = c.shape();
            list.push(c);
            assert(case_shapes(list@) =~= case_shapes(read@).push(shape));
            if source.is(j, ";") {
                read_cases(source, hcl, bound, list, j + 1)
            } else if source.is(j, "]") {
                Some((list, j + 1))
            } else {
                None
            }
        },
        None => None,
    }
}

/// A source: a list of cases in square brackets, or an expression behind
/// its tag if it has one.
pub open spec fn spec_source(s: Script, scope: Scope, bound: bool, i: int) -> Option<
    (SourceShape, int),
> {
    if s.is(i, "["@) {
        match spec_cases(s, scope, bound, Seq::empty(), i + 1) {
            Some((cases, j)) => Some((SourceShape::Switch(cases), j)),
            None => None,
        }
    } else {
        match spec_tunnel(s, i) {
            Some((tunnel, j)) => match spec_expr(s, scope, bound, j) {
                Some((e, k)) => Some((SourceShape::Expr(tunnel, e), k)),
                None => None,
            },
            None => None,
        }
    }
}

/// Reads a source.
fn read_source(source: &Source, hcl: &HclData, bound: bool, i: usize) -> (res: Option<
    (SignalSource, usize),
>)
    requires
        source.wf(),
        i <= source.tokens@.len(),
    ensures
        match spec_source(source@, hcl.scope(), bound, i as int) {
            Some((src, j)) => res matches Some((found, k)) && found.shape() == src && k == j && i
                < k <= source.tokens@.len(),
            None => res is None,
        },
{
    if source.is(i, "[") {
        let none: Vec<Case> = Vec::new();
        assert(case_shapes(none@) =~= Seq::<CaseShape>::empty());
        match read_cases(source, hcl, bound, none, i + 1) {
            Some((cases, j)) => Some((SignalSource::Switch(SignalSwitch(cases)), j)),
            None => None,
        }
    } else {
        match read_tunnel(source, i) {
            Some((tunnel, j)) => match read_expr(source, hcl, bound, j) {
                Some((expr, k)) => Some(
                    (SignalSource::Expr(SignalSourceExpr { tunnel, expr }), k),
                ),
                None => None,
            },
            None => None,
        }
    }
}

/// A destination: the input of a unit, the field of a stage for the next
/// cycle, or a signal, behind its tag if it has one.
pub open spec fn spec_dest(s: Script, scope: Scope, bound: bool, i: int) -> Option<
    (DestShape, int),
> {
    match spec_tunnel(s, i) {
        Some((tunnel, j)) => if s.has(j) {
            match spec_name(s, scope, bound, j) {
                Some(dest) => if !bound || dest is UnitIn || dest is Next || dest is Inter {
                    Some((DestShape { tunnel, dest }, j + 1))
                } else {
                    None
                },
                None => None,
            }
        } else {
            None
        },
        None => None,
    }
}

/// Reads a destination.
fn read_dest(source: &Source, hcl: &HclData, bound: bool, i: usize) -> (res: Option<
    (SignalDest, usize),
>)
    requires
        source.wf(),
        i <= source.tokens@.len(),
    ensures
        match spec_dest(source@, hcl.scope(), bound, i as int) {
            Some((d, j)) => res matches Some((found, k)) && found.shape() == d && k == j && i < k
                <= source.tokens@.len(),
            None => res is None,
        },
{
    match read_tunnel(source, i) {
        Some((tunnel, j)) => {
            if j >= source.tokens.len() {
                return None;
            }
            match read_name(source, hcl, bound, j) {
                Some(dest) => {
                    let driven: bool = match dest {
                        Slot::UnitIn(_, _) => true,
                        Slot::Next(_, _) => true,
                        Slot::Inter(_) => true,
                        _ => false,
                    };
                    if !bound || driven {
                        Some((SignalDest { tunnel, dest }, j + 1))
                    } else {
                        None
                    }
                },
                None => None,
            }
        },
        None => None,
    }
}

/// The destinations of a list in parentheses, from position `i` on, behind
/// those that were read already.
pub open spec fn spec_dest_list(s: Script, scope: Scope, bound: bool, read: Seq<DestShape>, i: int) -> Option<
    (Seq<DestShape>, int),
>
    decreases s.tokens.len() - i,
{
    if !s.has(i) {
        None
    } else if s.is(i, ")"@) {
        Some((read, i + 1))
    } else {
        match spec_dest(s, scope, bound, i) {
            Some((d, j)) => if j <= i || j > s.tokens.len() {
                None
            } else if s.is(j, ","@) {
                spec_dest_list(s, scope, bound, read.push(d), j + 1)
            } else if s.is(j, ")"@) {
                Some((read.push(d), j + 1))
            } else {
                None
            },
            None => None,
        }
    }
}

/// Reads the rest of a list of destinations.
fn read_dest_list(source: &Source, hcl: &HclData, bound: bool, read: Vec<SignalDest>, i: usize) -> (res:
    Option<(Vec<SignalDest>, usize)>)
    requires
        source.wf(),
    ensures
        match spec_dest_list(source@, hcl.scope(), bound, dest_shapes(read@), i as int) {
            Some((list, j)) => res matches Some((v, k)) && dest_shapes(v@) == list && k == j && i
                < k <= source.tokens@.len(),
            None => res is None,
        },
    decreases source.tokens@.len() - i,
{
    if i >= source.tokens.len() {
        return None;
    }
    if source.is(i, ")") {
        return Some((read, i + 1));
    }
    match read_dest(source, hcl, bound, i) {
        Some((d, j)) => {
            let mut list: Vec<SignalDest> = read;
            let ghost shape = d.shape();
            list.push(d);
            assert(dest_shapes(list@) =~= dest_shapes(read@).push(shape));
            if source.is(j, ",") {
                read_dest_list(source, hcl, bound, list, j + 1)
            } else if source.is(j, ")") {
                Some((list, j + 1))
            } else {
                None
            }
        },
        None => None,
    }
}

/// What a signal drives: nothing, `-> dest`, or `-> (dest, ...)`.
pub open spec fn spec_dests(s: Script, scope: Scope, bound: bool, i: int) -> Option<
    (Seq<DestShape>, int),
> {
    if s.is(i, "->"@) {
        if s.is(i + 1, "("@) {
            spec_dest_list(s, scope, bound, Seq::empty(), i + 2)
        } else {
            match spec_dest(s, scope, bound, i + 1) {
                Some((d, j)) => Some((seq![d], j)),
                None => None,
            }
        }
    } else {
        Some((Seq::empty(), i))
    }
}

/// Reads what a signal drives.
fn read_dests(source: &Source, hcl: &HclData, bound: bool, i: usize) -> (res: Option<
    (Vec<SignalDest>, usize),
>)
    requires
        source.wf(),
        i <= source.tokens@.len(),
    ensures
        match spec_dests(source@, hcl.scope(), bound, i as int) {
            Some((list, j)) => res matches Some((v, k)) && dest_shapes(v@) == list && k == j && i
                <= k <= source.tokens@.len(),
            None => res is None,
        },
{
    let mut none: Vec<SignalDest> = Vec::new();
    assert(dest_shapes(none@) =~= Seq::<DestShape>::empty());
    if source.is(i, "->") {
        if source.is(i + 1, "(") {
            read_dest_list(source, hcl, bound, none, i + 2)
        } else {
            match read_dest(source, hcl, bound, i + 1) {
                Some((d, j)) => {
                    let ghost shape = d.shape();
                    none.push(d);
                    assert(dest_shapes(none@) =~= seq![shape]);
                    Some((none, j))
                },
                None => None,
            }
        }
    } else {
        Some((none, i))
    }
}

/// The type at position `i`.
pub open spec fn spec_type(s: Script, i: int) -> Option<(SigType, int)> {
    if s.is(i, "bool"@) {
        Some((SigType::Bool, i + 1))
    } else if s.is(i, "u8"@) {
        Some((SigType::U8, i + 1))
    } else if s.is(i, "u64"@) {
        Some((SigType::U64, i + 1))
    } else if s.is(i, "Stat"@) {
        Some((SigType::Stat, i + 1))
    } else if s.is(i, "ConditionCode"@) {
        Some((SigType::Cc, i + 1))
    } else if s.is(i, "["@) && s.is(i + 1, "u8"@) && s.is(i + 2, ";"@) && s.is(i + 3, "9"@)
        && s.is(i + 4, "]"@) {
        Some((SigType::Align, i + 5))
    } else {
        None
    }
}

/// Reads a type.
fn read_type(source: &Source, i: usize) -> (res: Option<(SigType, usize)>)
    requires
        source.wf(),
    ensures
        match spec_type(source@, i as int) {
            Some((ty, j)) => res matches Some((found, k)) && found == ty && k == j && i < k
                <= source.tokens@.len(),
            None => res is None,
        },
{
    if source.is(i, "bool") {
        Some((SigType::Bool, i + 1))
    } else if source.is(i, "u8") {
        Some((SigType::U8, i + 1))
    } else if source.is(i, "u64") {
        Some((SigType::U64, i + 1))
    } else if source.is(i, "Stat") {
        Some((SigType::Stat, i + 1))
    } else if source.is(i, "ConditionCode") {
        Some((SigType::Cc, i + 1))
    } else if source.is(i, "[") && source.is(i + 1, "u8") && source.is(i + 2, ";") && source.is(
        i + 3,
        "9",
    ) && source.is(i + 4, "]") {
        Some((SigType::Align, i + 5))
    } else {
        None
    }
}

/// The definition of a signal: `type name = source destinations ;`.
pub open spec fn spec_signal(s: Script, scope: Scope, bound: bool, i: int) -> Option<
    (SignalShape, int),
> {
    match spec_type(s, i) {
        Some((typ, j)) => if s.plain(j) && s.is(j + 1, "="@) {
            match spec_source(s, scope, bound, j + 2) {
                Some((source, k)) => match spec_dests(s, scope, bound, k) {
                    Some((destinations, m)) => if s.is(m, ";"@) {
                        Some((SignalShape { name: s.name(j), typ, source, destinations }, m + 1))
                    } else {
                        None
                    },
                    None => None,
                },
                None => None,
            }
        } else {
            None
        },
        None => None,
    }
}

/// Reads the definition of a signal.
fn read_signal(source: &Source, hcl: &HclData, bound: bool, i: usize) -> (res: Option<
    (SignalDef, usize),
>)
    requires
        source.wf(),
    ensures
        match spec_signal(source@, hcl.scope(), bound, i as int) {
            Some((d, j)) => res matches Some((found, k)) && found.shape() == d && k == j && i < k
                <= source.tokens@.len(),
            None => res is None,
        },
{
    match read_type(source, i) {
        Some((typ, j)) => if source.plain(j) && source.is(j + 1, "=") {
            match read_source(source, hcl, bound, j + 2) {
                Some((src, k)) => match read_dests(source, hcl, bound, k) {
                    Some((destinations, m)) => if source.is(m, ";") {
                        let def = SignalDef {
                            name: source.name(j).to_owned(),
                            typ,
                            source: src,
                            destinations,
                        };
                        Some((def, m + 1))
                    } else {
                        None
                    },
                    None => None,
                },
                None => None,
            }
        } else {
            None
        },
        None => None,
    }
}

/// A statement as plain values. An alias stands as the pair of the stage
/// and its alias.
pub enum ItemShape {
    Hardware,
    ProgramCounter(Name),
    Termination(Name),
    Alias(Seq<(Name, Name)>),
    Signal(SignalShape),
}

/// A statement of a description.
pub enum Item {
    /// The attribute that names the hardware.
    Hardware,
    /// The attribute that names the signal that holds the program counter.
    ProgramCounter(String),
    /// The attribute that names the signal that ends the program.
    Termination(String),
    /// The attribute that gives stages their aliases: pairs of a stage and
    /// its alias.
    Alias(Vec<(String, String)>),
    /// The definition of a signal.
    Signal(SignalDef),
}

/// Pairs of names as plain values.
pub open spec fn pairs_view(pairs: Seq<(String, String)>) -> Seq<(Name, Name)> {
    Seq::new(pairs.len(), |i: int| (pairs[i].0@, pairs[i].1@))
}

impl Item {
    /// The statement as plain values.
    pub open spec fn shape(self) -> ItemShape {
        match self {
            Item::Hardware => ItemShape::Hardware,
            Item::ProgramCounter(name) => ItemShape::ProgramCounter(name@),
            Item::Termination(name) => ItemShape::Termination(name@),
            Item::Alias(pairs) => ItemShape::Alias(pairs_view(pairs@)),
            Item::Signal(def) => ItemShape::Signal(def.shape()),
        }
    }
}

/// The position of the first `]` from position `i` on, or the number of
/// tokens where there is none.
pub open spec fn close_at(s: Script, i: int) -> int
    decreases s.tokens.len() - i,
{
    if !s.has(i) {
        s.tokens.len() as int
    } else if s.is(i, "]"@) {
        i
    } else {
        close_at(s, i + 1)
    }
}

/// Finds the first `]` from position `i` on.
fn find_close(source: &Source, i: usize) -> (at: usize)
    requires
        source.wf(),
        i <= source.tokens@.len(),
    ensures
        at == close_at(source@, i as int),
        i <= at <= source.tokens@.len(),
{
    let mut k: usize = i;
    while k < source.tokens.len() && !source.is(k, "]")
        invariant
            source.wf(),
            i <= k <= source.tokens@.len(),
            close_at(source@, i as int) == close_at(source@, k as int),
        decreases source.tokens@.len() - k,
    {
        k = k + 1;
    }
    k
}

/// The aliases of a list in parentheses, `alias => stage` each, from
/// position `i` on, behind those that were read already.
pub open spec fn spec_aliases(s: Script, read: Seq<(Name, Name)>, i: int) -> Option<
    (Seq<(Name, Name)>, int),
>
    decreases s.tokens.len() - i,
{
    if !s.has(i) {
        None
    } else if s.is(i, ")"@) {
        Some((read, i + 1))
    } else if s.plain(i) && s.is(i + 1, "=>"@) && s.plain(i + 2) {
        if s.is(i + 3, ","@) {
            spec_aliases(s, read.push((s.name(i + 2), s.name(i))), i + 4)
        } else if s.is(i + 3, ")"@) {
            Some((read.push((s.name(i + 2), s.name(i))), i + 4))
        } else {
            None
        }
    } else {
        None
    }
}

/// Reads the rest of a list of aliases.
fn read_aliases(source: &Source, read: Vec<(String, String)>, i: usize) -> (res: Option<
    (Vec<(String, String)>, usize),
>)
    requires
        source.wf(),
    ensures
        match spec_aliases(source@, pairs_view(read@), i as int) {
            Some((list, j)) => res matches Some((v, k)) && pairs_view(v@) == list && k == j && i
                < k <= source.tokens@.len(),
            None => res is None,
        },
    decreases source.tokens@.len() - i,
{
    if i >= source.tokens.len() {
        return None;
    }
    if source.is(i, ")") {
        return Some((read, i + 1));
    }
    if source.plain(i) && source.is(i + 1, "=>") && source.plain(i + 2) {
        let mut list: Vec<(String, String)> = read;
        list.push((source.name(i + 2).to_owned(), source.name(i).to_owned()));
        assert(pairs_view(list@) =~= pairs_view(read@).push(
            (source@.name(i + 2), source@.name(i as int)),
        ));
        if source.is(i + 3, ",") {
            read_aliases(source, list, i + 4)
        } else if source.is(i + 3, ")") {
            Some((list, i + 4))
        } else {
            None
        }
    } else {
        None
    }
}

/// An attribute: `#![hardware = path]`, `#![program_counter = signal]`,
/// `#![termination = signal]` or `#![stage_alias(alias => stage, ...)]`.
pub open spec fn spec_attribute(s: Script, i: int) -> Option<(ItemShape, int)> {
    if !(s.is(i, "#"@) && s.is(i + 1, "!"@) && s.is(i + 2, "["@)) {
        None
    } else if s.is(i + 3, "hardware"@) && s.is(i + 4, "="@) {
        if s.has(close_at(s, i + 5)) {
            Some((ItemShape::Hardware, close_at(s, i + 5) + 1))
        } else {
            None
        }
    } else if s.is(i + 3, "program_counter"@) && s.is(i + 4, "="@) && s.plain(i + 5) && s.is(
        i + 6,
        "]"@,
    ) {
        Some((ItemShape::ProgramCounter(s.name(i + 5)), i + 7))
    } else if s.is(i + 3, "termination"@) && s.is(i + 4, "="@) && s.plain(i + 5) && s.is(
        i + 6,
        "]"@,
    ) {
        Some((ItemShape::Termination(s.name(i + 5)), i + 7))
    } else if s.is(i + 3, "stage_alias"@) && s.is(i + 4, "("@) {
        match spec_aliases(s, Seq::empty(), i + 5) {
            Some((pairs, j)) => if s.is(j, "]"@) {
                Some((ItemShape::Alias(pairs), j + 1))
            } else {
                None
            },
            None => None,
        }
    } else {
        None
    }
}

/// Whether a statement was read as the grammar says, up to the same token,
/// which lies behind `i`.
pub open spec fn item_reads(res: Option<(Item, usize)>, spec: Option<(ItemShape, int)>, i: int, len: int) -> bool {
    match spec {
        Some((t, j)) => res matches Some((e, k)) && e.shape() == t && k == j && i < k <= len,
        None => res is None,
    }
}

/// Reads an attribute.
fn read_attribute(source: &Source, i: usize) -> (res: Option<(Item, usize)>)
    requires
        source.wf(),
    ensures
        item_reads(res, spec_attribute(source@, i as int), i as int, source.tokens@.len() as int),
{
    if !(source.is(i, "#") && source.is(i + 1, "!") && source.is(i + 2, "[")) {
        return None;
    }
    if source.is(i + 3, "hardware") && source.is(i + 4, "=") {
        let end: usize = find_close(source, i + 5);
        if end < source.tokens.len() {
            Some((Item::Hardware, end + 1))
        } else {
            None
        }
    } else if source.is(i + 3, "program_counter") && source.is(i + 4, "=") && source.plain(i + 5)
        && source.is(i + 6, "]") {
        Some((Item::ProgramCounter(source.name(i + 5).to_owned()), i + 7))
    } else if source.is(i + 3, "termination") && source.is(i + 4, "=") && source.plain(i + 5)
        && source.is(i + 6, "]") {
        Some((Item::Termination(source.name(i + 5).to_owned()), i + 7))
    } else if source.is(i + 3, "stage_alias") && source.is(i + 4, "(") {
        let none: Vec<(String, String)> = Vec::new();
        assert(pairs_view(none@) =~= Seq::<(Name, Name)>::empty());
        match read_aliases(source, none, i + 5) {
            Some((pairs, j)) => if source.is(j, "]") {
                Some((Item::Alias(pairs), j + 1))
            } else {
                None
            },
            None => None,
        }
    } else {
        None
    }
}

/// A statement: an attribute, or the definition of a signal.
pub open spec fn spec_item(s: Script, scope: Scope, bound: bool, i: int) -> Option<
    (ItemShape, int),
> {
    if s.is(i, "#"@) {
        spec_attribute(s, i)
    } else {
        match spec_signal(s, scope, bound, i) {
            Some((def, j)) => Some((ItemShape::Signal(def), j)),
            None => None,
        }
    }
}

/// Reads a statement.
fn read_item(source: &Source, hcl: &HclData, bound: bool, i: usize) -> (res: Option<
    (Item, usize),
>)
    requires
        source.wf(),
    ensures
        item_reads(
            res,
            spec_item(source@, hcl.scope(), bound, i as int),
            i as int,
            source.tokens@.len() as int,
        ),
{
    if source.is(i, "#") {
        read_attribute(source, i)
    } else {
        match read_signal(source, hcl, bound, i) {
            Some((def, j)) => Some((Item::Signal(def), j)),
            None => None,
        }
    }
}

/// What a description says, as plain values.
pub struct Outline {
    pub program_counter: Option<Name>,
    pub termination: Option<Name>,
    /// Pairs of a stage and its alias.
    pub aliases: Seq<(Name, Name)>,
    pub signals: Seq<SignalShape>,
}

impl Outline {
    /// The description that says nothing.
    pub open spec fn blank() -> Outline {
        Outline {
            program_counter: None,
            termination: None,
            aliases: Seq::empty(),
            signals: Seq::empty(),
        }
    }

    /// The description with one more statement. A later attribute replaces
    /// an earlier one of the same kind, except that aliases add up.
    pub open spec fn with(self, item: ItemShape) -> Outline {
        match item {
            ItemShape::Hardware => self,
            ItemShape::ProgramCounter(name) => Outline {
                program_counter: Some(name),
                termination: self.termination,
                aliases: self.aliases,
                signals: self.signals,
            },
            ItemShape::Termination(name) => Outline {
                program_counter: self.program_counter,
                termination: Some(name),
                aliases: self.aliases,
                signals: self.signals,
            },
            ItemShape::Alias(pairs) => Outline {
                program_counter: self.program_counter,
                termination: self.termination,
                aliases: self.aliases + pairs,
                signals: self.signals,
            },
            ItemShape::Signal(def) => Outline {
                program_counter: self.program_counter,
                termination: self.termination,
                aliases: self.aliases,
                signals: self.signals.push(def),
            },
        }
    }

    /// What the names of the description can stand for on the given
    /// hardware.
    pub open spec fn scope(self, hardware: Hardware) -> Scope {
        Scope {
            hardware,
            aliases: Seq::new(self.aliases.len(), |i: int| self.aliases[i].1),
            aliased: Seq::new(self.aliases.len(), |i: int| self.aliases[i].0),
            signals: Seq::new(self.signals.len(), |i: int| self.signals[i].name),
        }
    }
}

/// A description while it is being read.
pub struct Draft {
    pub program_counter: Option<String>,
    pub termination: Option<String>,
    pub aliases: Vec<(String, String)>,
    pub signals: Vec<SignalDef>,
}

impl View for Draft {
    type V = Outline;

    open spec fn view(&self) -> Outline {
        Outline {
            program_counter: tag(self.program_counter),
            termination: tag(self.termination),
            aliases: pairs_view(self.aliases@),
            signals: signal_shapes(self.signals@),
        }
    }
}

impl Draft {
    /// The draft that says nothing.
    fn new() -> (draft: Draft)
        ensures
            draft@ == Outline::blank(),
    {
        let draft = Draft {
            program_counter: None,
            termination: None,
            aliases: Vec::new(),
            signals: Vec::new(),
        };
        assert(draft@.aliases =~= Seq::empty());
        assert(draft@.signals =~= Seq::empty());
        draft
    }

    /// Adds a statement.
    fn take(&mut self, item: Item)
        ensures
            final(self)@ == old(self)@.with(item.shape()),
    {
        match item {
            Item::Hardware => {},
            Item::ProgramCounter(name) => {
                self.program_counter = Some(name);
            },
            Item::Termination(name) => {
                self.termination = Some(name);
            },
            Item::Alias(pairs) => {
                let mut more: Vec<(String, String)> = pairs;
                self.aliases.append(&mut more);
                assert(pairs_view(self.aliases@) =~= pairs_view(old(self).aliases@) + pairs_view(
                    pairs@,
                ));
            },
            Item::Signal(def) => {
                let ghost shape = def.shape();
                self.signals.push(def);
                assert(signal_shapes(self.signals@) =~= signal_shapes(old(self).signals@).push(
                    shape,
                ));
            },
        }
    }
}

/// What the statements from position `i` on say, behind what was read
/// already; or the position of the first statement that cannot be read.
pub open spec fn spec_read(s: Script, scope: Scope, bound: bool, i: int, read: Outline) -> Result<
    Outline,
    int,
>
    decreases s.tokens.len() - i,
{
    if !s.has(i) {
        Ok(read)
    } else {
        match spec_item(s, scope, bound, i) {
            Some((item, j)) => if j <= i || j > s.tokens.len() {
                Err(i)
            } else {
                spec_read(s, scope, bound, j, read.with(item))
            },
            None => Err(i),
        }
    }
}

/// Reads the statements of a description.
fn read(source: &Source, hcl: &HclData, bound: bool) -> (res: Result<Draft, usize>)
    requires
        source.wf(),
    ensures
        match spec_read(source@, hcl.scope(), bound, 0, Outline::blank()) {
            Ok(outline) => res matches Ok(draft) && draft@ == outline,
            Err(at) => res matches Err(k) && k == at && k < source.tokens@.len(),
        },
{
    let mut draft = Draft::new();
    let mut i: usize = 0;
    while i < source.tokens.len()
        invariant
            source.wf(),
            i <= source.tokens@.len(),
            spec_read(source@, hcl.scope(), bound, 0, Outline::blank()) == spec_read(
                source@,
                hcl.scope(),
                bound,
                i as int,
                draft@,
            ),
        decreases source.tokens@.len() - i,
    {
        match read_item(source, hcl, bound, i) {
            Some((item, j)) => {
                draft.take(item);
                i = j;
            },
            None => {
                return Err(i);
            },
        }
    }
    Ok(draft)
}

/// The number of line ends among the first `k` bytes of a text.
pub open spec fn line_ends_upto(text: Seq<u8>, k: int) -> int
    decreases k,
{
    if k <= 0 || k > text.len() {
        0
    } else {
        line_ends_upto(text, k - 1) + if text[k - 1] == 10 {
            1int
        } else {
            0int
        }
    }
}

/// The line, counted from one, that the token at position `at` begins in.
pub open spec fn line_of(s: Script, at: int) -> int {
    line_ends_upto(s.text, s.tokens[at].0) + 1
}

/// Counts the line that a token begins in.
fn find_line(source: &Source, at: usize) -> (line: usize)
    requires
        source.wf(),
        at < source.tokens@.len(),
    ensures
        line == line_of(source@, at as int),
{
    let end: usize = source.tokens[at].0;
    let mut line: usize = 1;
    let mut k: usize = 0;
    while k < end
        invariant
            k <= end < source.text@.len(),
            line == line_ends_upto(source.text@, k as int) + 1,
            line <= k + 1,
        decreases end - k,
    {
        if source.text[k] == 10 {
            line = line + 1;
        }
        k = k + 1;
    }
    line
}

/// The tokens of a text.
pub open spec fn script_of(chars: Seq<char>) -> Script {
    Script { chars, text: bytes_of(chars), tokens: tokens_from(bytes_of(chars), 0) }
}

/// What a text describes on the given hardware.
///
/// The text is read twice. The first reading takes every name for a signal
/// and finds the aliases and the names of the signals; a statement that
/// cannot be read then is a syntax error. The second reading resolves the
/// names: a statement that cannot be read then uses a name that stands for
/// nothing. A description names the signal that holds the program counter
/// and the signal that ends the program.
pub open spec fn spec_parse(chars: Seq<char>, hardware: Hardware) -> Result<Outline, HclFailure> {
    let s = script_of(chars);
    if !vstd::utf8::is_ascii_chars(chars) {
        Err(HclFailure::NotAscii)
    } else {
        match spec_read(s, Outline::blank().scope(hardware), false, 0, Outline::blank()) {
            Err(at) => Err(HclFailure::Syntax(line_of(s, at))),
            Ok(first) => match spec_read(s, first.scope(hardware), true, 0, Outline::blank()) {
                Err(at) => Err(HclFailure::UnknownName(line_of(s, at))),
                Ok(outline) => if outline.program_counter is None {
                    Err(HclFailure::MissingProgramCounter)
                } else if outline.termination is None {
                    Err(HclFailure::MissingTermination)
                } else {
                    Ok(outline)
                },
            },
        }
    }
}

impl HclData {
    /// What the description says, as plain values.
    pub open spec fn outline(&self) -> Outline {
        Outline {
            program_counter: Some(self.program_counter@),
            termination: Some(self.termination@),
            aliases: pairs_view(self.stage_alias.0@),
            signals: signal_shapes(self.intermediate_signals@),
        }
    }

    /// Whether `res` is what reading `text` on the given hardware gives: the
    /// description that says what the grammar finds in the text, with no name
    /// left that stands for nothing, or the error that the grammar finds.
    pub open spec fn read_from(
        text: Seq<char>,
        hardware: Hardware,
        res: Result<HclData, HclError>,
    ) -> bool {
        match spec_parse(text, hardware) {
            Ok(outline) => res matches Ok(hcl) && hcl.hardware == hardware && hcl.outline()
                == outline && hcl.unresolved@.len() == 0,
            Err(failure) => res matches Err(e) && e@ == failure,
        }
    }

    /// Reads the description of an architecture on the given hardware from
    /// its text.
    pub fn parse(src: &str, hardware: Hardware) -> (res: Result<HclData, HclError>)
        ensures
            HclData::read_from(src@, hardware, res),
    {
        let bytes: Vec<u8> = match ascii_bytes(src) {
            Some(bytes) => bytes,
            None => {
                return Err(HclError::NotAscii);
            },
        };
        let tokens: Vec<Span> = split(bytes.as_slice());
        let source = Source { src, text: bytes.as_slice(), tokens: &tokens };
        assert(source@ == script_of(src@));
        let blank = HclData {
            hardware,
            program_counter: String::new(),
            termination: String::new(),
            stage_alias: StageAlias(Vec::new()),
            intermediate_signals: Vec::new(),
            unresolved: Vec::new(),
        };
        proof {
            let a = blank.scope();
            let b = Outline::blank().scope(hardware);
            assert(a.aliases =~= b.aliases);
            assert(a.aliased =~= b.aliased);
            assert(a.signals =~= b.signals);
        }
        let first: Draft = match read(&source, &blank, false) {
            Ok(draft) => draft,
            Err(at) => {
                return Err(HclError::Syntax(find_line(&source, at)));
            },
        };
        let ghost found = first@;
        let known = HclData {
            hardware: blank.hardware,
            program_counter: String::new(),
            termination: String::new(),
            stage_alias: StageAlias(first.aliases),
            intermediate_signals: first.signals,
            unresolved: Vec::new(),
        };
        proof {
            let a = known.scope();
            let b = found.scope(hardware);
            assert(a.aliases =~= b.aliases);
            assert(a.aliased =~= b.aliased);
            assert(a.signals =~= b.signals);
        }
        let second: Draft = match read(&source, &known, true) {
            Ok(draft) => draft,
            Err(at) => {
                return Err(HclError::UnknownName(find_line(&source, at)));
            },
        };
        let program_counter: String = match second.program_counter {
            Some(name) => name,
            None => {
                return Err(HclError::MissingProgramCounter);
            },
        };
        let termination: String = match second.termination {
            Some(name) => name,
            None => {
                return Err(HclError::MissingTermination);
            },
        };
        Ok(
            HclData {
                hardware: known.hardware,
                program_counter,
                termination,
                stage_alias: StageAlias(second.aliases),
                intermediate_signals: second.signals,
                unresolved: Vec::new(),
            },
        )
    }
}

} // verus!
