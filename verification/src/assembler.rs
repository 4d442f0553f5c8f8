//! The assembler: from the statements of a program to its memory image, its
//! labels and the address of every line.
use vstd::prelude::*;

pub mod lexer;
pub mod parser;

pub use parser::{parse, Y86AsmParser};

use crate::framework::names::Name;
use crate::framework::{MemData, MEM_SIZE};
use crate::isa::decode::spec_length;
use crate::object::{spec_encode, Addr, CondFn, Imm, Inst, OpFn, Reg};
use crate::utils::{byte_of, le_byte, le_bytes};

verus! {

/// The labels of a program with their addresses.
pub type SymbolMap = Vec<(String, u64)>;

/// The labels of a table.
pub open spec fn label_names(symbols: Seq<(String, u64)>) -> Seq<Name> {
    Seq::new(symbols.len(), |i: int| symbols[i].0@)
}

/// The address of the label `label`: that of its first entry in the table.
pub open spec fn spec_lookup(symbols: Seq<(String, u64)>, label: Name) -> Option<u64> {
    let at = crate::framework::names::position(label_names(symbols), label);
    if at < symbols.len() {
        Some(symbols[at].1)
    } else {
        None
    }
}

/// Looks a label up.
pub fn lookup(symbols: &Vec<(String, u64)>, label: &str) -> (addr: Option<u64>)
    ensures
        addr == spec_lookup(symbols@, label@),
{
    let key: String = label.to_owned();
    let ghost names = label_names(symbols@);
    let mut i: usize = 0;
    while i < symbols.len()
        invariant
            i <= symbols@.len(),
            key@ == label@,
            names == label_names(symbols@),
            crate::framework::names::position_upto(names, label@, i as int) == i,
        decreases symbols@.len() - i,
    {
        if symbols[i].0 == key {
            proof {
                assert(names[i as int] == label@);
                crate::framework::names::lemma_position_rest(
                    names,
                    label@,
                    i as int + 1,
                    names.len() as int,
                );
            }
            return Some(symbols[i].1);
        }
        i = i + 1;
    }
    None
}

/// Why a program could not be assembled.
#[derive(Debug, PartialEq, Eq)]
pub enum AsmError {
    /// The program uses this label and does not define it.
    UnknownLabel(String),
    /// The program defines this label twice.
    DuplicateLabel(String),
    /// The program reaches beyond the memory at this address.
    OutOfMemory(u64),
    /// An alignment that is no power of two.
    BadAlignment(u64),
    /// This line, counted from 0, is no statement.
    Syntax(usize),
    /// The source is no ASCII text.
    NotAscii,
}

/// An assembly error as plain values.
pub enum AsmFailure {
    UnknownLabel(Name),
    DuplicateLabel(Name),
    OutOfMemory(u64),
    BadAlignment(u64),
    Syntax(usize),
    NotAscii,
}

impl View for AsmError {
    type V = AsmFailure;

    open spec fn view(&self) -> AsmFailure {
        match self {
            AsmError::UnknownLabel(l) => AsmFailure::UnknownLabel(l@),
            AsmError::DuplicateLabel(l) => AsmFailure::DuplicateLabel(l@),
            AsmError::OutOfMemory(a) => AsmFailure::OutOfMemory(*a),
            AsmError::BadAlignment(n) => AsmFailure::BadAlignment(*n),
            AsmError::Syntax(line) => AsmFailure::Syntax(*line),
            AsmError::NotAscii => AsmFailure::NotAscii,
        }
    }
}

impl Imm {
    /// The word that the immediate stands for: the number, in two's
    /// complement, or the address of the label, if the table has it.
    pub open spec fn spec_desymbol(self, symbols: Seq<(String, u64)>) -> Option<u64> {
        match self {
            Imm::Num(n) => Some(n as u64),
            Imm::Label(label) => spec_lookup(symbols, label@),
        }
    }

    /// Replaces a label by its address.
    pub fn desymbol(&self, symbols: &Vec<(String, u64)>) -> (v: Option<u64>)
        ensures
            v == self.spec_desymbol(symbols@),
    {
        match self {
            Imm::Num(n) => Some(*n as u64),
            Imm::Label(label) => lookup(symbols, label.as_str()),
        }
    }
}

impl Inst<Imm> {
    /// The immediate of the instruction, if it has one.
    pub open spec fn immediate(self) -> Option<Imm> {
        match self {
            Inst::IRMOVQ(_, v) => Some(v),
            Inst::JX(_, v) => Some(v),
            Inst::CALL(v) => Some(v),
            Inst::IOPQ(_, v, _) => Some(v),
            _ => None,
        }
    }

    /// The instruction with the word `v` for its immediate.
    pub open spec fn with_word(self, v: u64) -> Inst<u64> {
        match self {
            Inst::HALT => Inst::HALT,
            Inst::NOP => Inst::NOP,
            Inst::CMOVX(c, ra, rb) => Inst::CMOVX(c, ra, rb),
            Inst::IRMOVQ(rb, _) => Inst::IRMOVQ(rb, v),
            Inst::RMMOVQ(ra, addr) => Inst::RMMOVQ(ra, addr),
            Inst::MRMOVQ(addr, ra) => Inst::MRMOVQ(addr, ra),
            Inst::OPQ(op, ra, rb) => Inst::OPQ(op, ra, rb),
            Inst::JX(c, _) => Inst::JX(c, v),
            Inst::CALL(_) => Inst::CALL(v),
            Inst::RET => Inst::RET,
            Inst::PUSHQ(ra) => Inst::PUSHQ(ra),
            Inst::POPQ(ra) => Inst::POPQ(ra),
            Inst::IOPQ(op, _, rb) => Inst::IOPQ(op, v, rb),
        }
    }

    /// The instruction with its label, if it has one, replaced by the
    /// label's address; nothing where the table lacks the label.
    pub open spec fn spec_desymbol(self, symbols: Seq<(String, u64)>) -> Option<Inst<u64>> {
        match self.immediate() {
            None => Some(self.with_word(0)),
            Some(imm) => match imm.spec_desymbol(symbols) {
                Some(v) => Some(self.with_word(v)),
                None => None,
            },
        }
    }

    /// Replaces the label of the instruction by its address.
    pub fn desymbol(&self, symbols: &Vec<(String, u64)>) -> (inst: Option<Inst<u64>>)
        ensures
            inst == self.spec_desymbol(symbols@),
    {
        match self {
            Inst::HALT => Some(Inst::HALT),
            Inst::NOP => Some(Inst::NOP),
            Inst::CMOVX(c, ra, rb) => Some(Inst::CMOVX(*c, *ra, *rb)),
            Inst::IRMOVQ(rb, v) => match v.desymbol(symbols) {
                Some(w) => Some(Inst::IRMOVQ(*rb, w)),
                None => None,
            },
            Inst::RMMOVQ(ra, addr) => Some(Inst::RMMOVQ(*ra, *addr)),
            Inst::MRMOVQ(addr, ra) => Some(Inst::MRMOVQ(*addr, *ra)),
            Inst::OPQ(op, ra, rb) => Some(Inst::OPQ(*op, *ra, *rb)),
            Inst::JX(c, v) => match v.desymbol(symbols) {
                Some(w) => Some(Inst::JX(*c, w)),
                None => None,
            },
            Inst::CALL(v) => match v.desymbol(symbols) {
                Some(w) => Some(Inst::CALL(w)),
                None => None,
            },
            Inst::RET => Some(Inst::RET),
            Inst::PUSHQ(ra) => Some(Inst::PUSHQ(*ra)),
            Inst::POPQ(ra) => Some(Inst::POPQ(*ra)),
            Inst::IOPQ(op, v, rb) => match v.desymbol(symbols) {
                Some(w) => Some(Inst::IOPQ(*op, w, *rb)),
                None => None,
            },
        }
    }
}

/// The memory with `bytes` written from `addr` on.
pub open spec fn patched(mem: Seq<u8>, addr: int, bytes: Seq<u8>) -> Seq<u8> {
    mem.subrange(0, addr) + bytes + mem.subrange(addr + bytes.len(), mem.len() as int)
}

/// An object file: the memory image of a program and its labels.
pub struct Object {
    pub binary: MemData,
    /// The labels with their addresses.
    pub symbols: Vec<(String, u64)>,
}

impl Default for Object {
    fn default() -> (obj: Object)
        ensures
            obj.binary@ == Seq::new(MEM_SIZE as nat, |i: int| 0u8),
            obj.symbols@.len() == 0,
    {
        Object { binary: MemData::zeroed(), symbols: Vec::new() }
    }
}

impl Object {
    /// Writes `bytes` into the image from `addr` on and reports success.
    /// Where they do not all fit into the memory, nothing is written.
    pub fn write_bytes(&mut self, addr: u64, bytes: &Vec<u8>) -> (done: bool)
        ensures
            final(self).symbols == old(self).symbols,
            done == (addr + bytes@.len() <= MEM_SIZE),
            done ==> final(self).binary@ == patched(old(self).binary@, addr as int, bytes@),
            !done ==> final(self).binary@ == old(self).binary@,
    {
        let size: usize = self.binary.size();
        if bytes.len() > size || addr > (size - bytes.len()) as u64 {
            return false;
        }
        let at: usize = addr as usize;
        let mut i: usize = 0;
        while i < bytes.len()
            invariant
                i <= bytes@.len(),
                at + bytes@.len() <= MEM_SIZE,
                self.symbols == old(self).symbols,
                self.binary@.len() == MEM_SIZE,
                old(self).binary@.len() == MEM_SIZE,
                forall|j: int|
                    0 <= j < MEM_SIZE ==> #[trigger] self.binary@[j] == (if at <= j < at + i {
                        bytes@[j - at]
                    } else {
                        old(self).binary@[j]
                    }),
            decreases bytes@.len() - i,
        {
            self.binary.write(at + i, bytes[i]);
            i = i + 1;
        }
        assert(self.binary@ =~= patched(old(self).binary@, addr as int, bytes@));
        true
    }

    /// Writes the lowest `sz` bytes of `data` in little-endian order into
    /// the image from `addr` on and reports success. Where they do not all
    /// fit into the memory, nothing is written.
    pub fn write_num_data(&mut self, addr: u64, sz: u8, data: u64) -> (done: bool)
        requires
            sz <= 8,
        ensures
            final(self).symbols == old(self).symbols,
            done == (addr + sz <= MEM_SIZE),
            done ==> final(self).binary@ == patched(
                old(self).binary@,
                addr as int,
                le_bytes(data).subrange(0, sz as int),
            ),
            !done ==> final(self).binary@ == old(self).binary@,
    {
        let mut bytes: Vec<u8> = Vec::new();
        let mut i: usize = 0;
        while i < sz as usize
            invariant
                i <= sz,
                sz <= 8,
                bytes@.len() == i,
                forall|j: int| 0 <= j < i ==> bytes@[j] == le_byte(data, j),
            decreases sz - i,
        {
            bytes.push(byte_of(data, i));
            i = i + 1;
        }
        assert(bytes@ =~= le_bytes(data).subrange(0, sz as int));
        self.write_bytes(addr, &bytes)
    }

    /// A memory with the image of the program.
    pub fn init_mem(&self) -> (mem: MemData)
        ensures
            mem@ == self.binary@,
    {
        self.binary.copy()
    }
}

/// One line of a program as the assembler sees it.
#[derive(Debug, Clone)]
pub struct SourceInfo {
    /// The address of the line; a line without statement has none.
    pub addr: Option<u64>,
    pub inst: Option<Inst<Imm>>,
    pub label: Option<String>,
    /// The width in bytes and the value of the data that the line defines.
    pub data: Option<(u8, Imm)>,
    /// The text of the line.
    pub src: String,
}

impl SourceInfo {
    /// The bytes that the line puts into the image, if it puts any: the
    /// binary form of its instruction or, where it has none, its data. A
    /// label that the table lacks is an error.
    pub open spec fn spec_bytes(self, symbols: Seq<(String, u64)>) -> Result<Seq<u8>, Name> {
        match self.inst {
            Some(inst) => match inst.spec_desymbol(symbols) {
                Some(i) => Ok(spec_encode(i.fields())),
                None => Err(inst.immediate()->0->Label_0@),
            },
            None => match self.data {
                Some((sz, imm)) => match imm.spec_desymbol(symbols) {
                    Some(v) => Ok(
                        le_bytes(v).subrange(
                            0,
                            if sz <= 8 {
                                sz as int
                            } else {
                                8
                            },
                        ),
                    ),
                    None => Err(imm->Label_0@),
                },
                None => Ok(Seq::empty()),
            },
        }
    }

    /// The image after the line has been written into it: with the bytes
    /// of the line at the address of the line. A line without address or
    /// without bytes changes nothing. A label that the table lacks is an
    /// error, and so are bytes that reach beyond the memory.
    pub open spec fn spec_written(self, symbols: Seq<(String, u64)>, mem: Seq<u8>) -> Result<
        Seq<u8>,
        AsmFailure,
    > {
        match self.addr {
            None => Ok(mem),
            Some(addr) => match self.spec_bytes(symbols) {
                Err(label) => Err(AsmFailure::UnknownLabel(label)),
                Ok(bytes) => if bytes.len() == 0 {
                    Ok(mem)
                } else if addr + bytes.len() <= MEM_SIZE {
                    Ok(patched(mem, addr as int, bytes))
                } else {
                    Err(AsmFailure::OutOfMemory(addr))
                },
            },
        }
    }

    /// Writes the line into the image of the object: its instruction in
    /// binary form or, where it has none, its data. After an error the
    /// image is as it was.
    pub fn write_object(&self, obj: &mut Object) -> (res: Result<(), AsmError>)
        ensures
            final(obj).symbols == old(obj).symbols,
            match self.spec_written(old(obj).symbols@, old(obj).binary@) {
                Ok(mem) => res is Ok && final(obj).binary@ == mem,
                Err(e) => res matches Err(err) && err@ == e && final(obj).binary@ == old(
                    obj,
                ).binary@,
            },
    {
        let size: usize = obj.binary.size();
        let addr: u64 = match self.addr {
            Some(addr) => addr,
            None => {
                return Ok(());
            },
        };
        match &self.inst {
            Some(inst) => {
                match inst.desymbol(&obj.symbols) {
                    Some(i) => {
                        let bytes: Vec<u8> = i.encode();
                        if obj.write_bytes(addr, &bytes) {
                            Ok(())
                        } else {
                            Err(AsmError::OutOfMemory(addr))
                        }
                    },
                    None => Err(AsmError::UnknownLabel(label_of(inst))),
                }
            },
            None => {
                match &self.data {
                    Some((sz, imm)) => {
                        match imm.desymbol(&obj.symbols) {
                            Some(v) => {
                                let width: u8 = if *sz <= 8 { *sz } else { 8 };
                                if width == 0 {
                                    Ok(())
                                } else if obj.write_num_data(addr, width, v) {
                                    Ok(())
                                } else {
                                    Err(AsmError::OutOfMemory(addr))
                                }
                            },
                            None => match imm {
                                Imm::Label(label) => Err(AsmError::UnknownLabel(label.clone())),
                                Imm::Num(_) => Ok(()),
                            },
                        }
                    },
                    None => Ok(()),
                }
            },
        }
    }
}

/// The label of an instruction; the empty name where it has none.
fn label_of(inst: &Inst<Imm>) -> (label: String)
    ensures
        inst.immediate() matches Some(Imm::Label(l)) ==> label@ == l@,
{
    match inst {
        Inst::IRMOVQ(_, Imm::Label(l)) => l.clone(),
        Inst::JX(_, Imm::Label(l)) => l.clone(),
        Inst::CALL(Imm::Label(l)) => l.clone(),
        Inst::IOPQ(_, Imm::Label(l), _) => l.clone(),
        _ => String::new(),
    }
}

/// An object file with the lines of its source.
pub struct ObjectExt {
    pub obj: Object,
    /// The lines of the program, each with its address.
    pub source: Vec<SourceInfo>,
}

/// A statement of a program.
#[derive(Debug, Clone, PartialEq, Eq)]
pub enum Statement {
    /// `name:` gives the current address a name.
    Label(String),
    Inst(Inst<Imm>),
    /// `.pos n` continues at the address `n`.
    Pos(u64),
    /// `.align n` continues at the next multiple of `n`, a power of two.
    Align(u64),
    /// `.quad v` defines a word of data.
    Quad(Imm),
}

/// A line of a program: its statement, if it has one, and its text.
#[derive(Debug, Clone)]
pub struct SourceLine {
    pub statement: Option<Statement>,
    pub text: String,
}

/// Whether `n` is a power of two.
pub open spec fn is_power_of_two(n: u64) -> bool {
    n != 0 && n & ((n - 1) as u64) == 0
}

/// The least multiple of `n` that is not below `addr`.
pub open spec fn aligned(addr: u64, n: u64) -> int {
    if n != 0 && addr % n > 0 {
        addr / n * n + n
    } else {
        addr as int
    }
}

/// Where a line stands and where the next one begins, for a line that
/// begins at `cur`: a label stands at `cur` and takes no room; an
/// instruction and a word of data stand at `cur` and take their length;
/// `.pos` and `.align` move to another address, and stand there; a line
/// without statement has no address.
pub open spec fn place(cur: u64, statement: Option<Statement>) -> Result<
    (Option<u64>, u64),
    AsmFailure,
> {
    match statement {
        None => Ok((None, cur)),
        Some(Statement::Label(_)) => Ok((Some(cur), cur)),
        Some(Statement::Inst(inst)) => if cur + spec_length(inst.spec_icode()) > u64::MAX {
            Err(AsmFailure::OutOfMemory(cur))
        } else {
            Ok((Some(cur), (cur + spec_length(inst.spec_icode())) as u64))
        },
        Some(Statement::Pos(n)) => Ok((Some(n), n)),
        Some(Statement::Quad(_)) => if cur + 8 > u64::MAX {
            Err(AsmFailure::OutOfMemory(cur))
        } else {
            Ok((Some(cur), (cur + 8) as u64))
        },
        Some(Statement::Align(n)) => if !is_power_of_two(n) {
            Err(AsmFailure::BadAlignment(n))
        } else if aligned(cur, n) > u64::MAX {
            Err(AsmFailure::OutOfMemory(cur))
        } else {
            Ok((Some(aligned(cur, n) as u64), aligned(cur, n) as u64))
        },
    }
}

/// The line as the assembler records it, standing at `addr`.
pub open spec fn recorded(line: SourceLine, addr: Option<u64>) -> SourceInfo {
    SourceInfo {
        addr,
        inst: match line.statement {
            Some(Statement::Inst(inst)) => Some(inst),
            _ => None,
        },
        label: match line.statement {
            Some(Statement::Label(label)) => Some(label),
            _ => None,
        },
        data: match line.statement {
            Some(Statement::Quad(imm)) => Some((8u8, imm)),
            _ => None,
        },
        src: line.text,
    }
}

/// The first `k` lines as the assembler records them, with the address at
/// which line `k` begins; or the first error of the layout. The first line
/// begins at address 0.
pub open spec fn placed_upto(lines: Seq<SourceLine>, k: int) -> Result<
    (Seq<SourceInfo>, u64),
    AsmFailure,
>
    decreases k,
{
    if k <= 0 || k > lines.len() {
        Ok((Seq::empty(), 0))
    } else {
        match placed_upto(lines, k - 1) {
            Err(e) => Err(e),
            Ok((infos, cur)) => match place(cur, lines[k - 1].statement) {
                Err(e) => Err(e),
                Ok((addr, next)) => Ok((infos.push(recorded(lines[k - 1], addr)), next)),
            },
        }
    }
}

/// The labels of the first `k` recorded lines with their addresses, in the
/// order of the lines; or the first label that is defined twice.
pub open spec fn symbols_upto(infos: Seq<SourceInfo>, k: int) -> Result<
    Seq<(String, u64)>,
    AsmFailure,
>
    decreases k,
{
    if k <= 0 || k > infos.len() {
        Ok(Seq::empty())
    } else {
        match symbols_upto(infos, k - 1) {
            Err(e) => Err(e),
            Ok(symbols) => match (infos[k - 1].label, infos[k - 1].addr) {
                (Some(label), Some(addr)) => if label_names(symbols).contains(label@) {
                    Err(AsmFailure::DuplicateLabel(label@))
                } else {
                    Ok(symbols.push((label, addr)))
                },
                _ => Ok(symbols),
            },
        }
    }
}

/// The image after the first `k` recorded lines have been written into a
/// memory of zero bytes; or the first error of a line.
pub open spec fn image_upto(infos: Seq<SourceInfo>, symbols: Seq<(String, u64)>, k: int) -> Result<
    Seq<u8>,
    AsmFailure,
>
    decreases k,
{
    if k <= 0 || k > infos.len() {
        Ok(Seq::new(MEM_SIZE as nat, |i: int| 0u8))
    } else {
        match image_upto(infos, symbols, k - 1) {
            Err(e) => Err(e),
            Ok(mem) => infos[k - 1].spec_written(symbols, mem),
        }
    }
}

/// What assembling the lines gives: the recorded lines, the labels and the
/// image; or the first error, where errors of the layout come before
/// labels that are defined twice, and those before errors of single lines.
pub open spec fn spec_assemble(lines: Seq<SourceLine>) -> Result<
    (Seq<SourceInfo>, Seq<(String, u64)>, Seq<u8>),
    AsmFailure,
> {
    match placed_upto(lines, lines.len() as int) {
        Err(e) => Err(e),
        Ok((infos, _)) => match symbols_upto(infos, infos.len() as int) {
            Err(e) => Err(e),
            Ok(symbols) => match image_upto(infos, symbols, infos.len() as int) {
                Err(e) => Err(e),
                Ok(mem) => Ok((infos, symbols, mem)),
            },
        },
    }
}

/// Places one line.
fn place_line(cur: u64, statement: &Option<Statement>) -> (res: Result<(Option<u64>, u64), AsmError>)
    ensures
        match place(cur, *statement) {
            Ok(p) => res == Ok::<(Option<u64>, u64), AsmError>(p),
            Err(e) => res matches Err(err) && err@ == e,
        },
{
    match statement {
        None => Ok((None, cur)),
        Some(Statement::Label(_)) => Ok((Some(cur), cur)),
        Some(Statement::Inst(inst)) => {
            let len: u64 = inst.len() as u64;
            if cur > u64::MAX - len {
                Err(AsmError::OutOfMemory(cur))
            } else {
                Ok((Some(cur), cur + len))
            }
        },
        Some(Statement::Pos(n)) => Ok((Some(*n), *n)),
        Some(Statement::Quad(_)) => {
            if cur > u64::MAX - 8 {
                Err(AsmError::OutOfMemory(cur))
            } else {
                Ok((Some(cur), cur + 8))
            }
        },
        Some(Statement::Align(n)) => {
            let n: u64 = *n;
            if n == 0 || n & (n - 1) != 0 {
                return Err(AsmError::BadAlignment(n));
            }
            if cur % n > 0 {
                let whole: u64 = cur / n;
                assert(whole * n <= cur) by (nonlinear_arith)
                    requires
                        whole == cur / n,
                        n > 0,
                ;
                let base: u64 = whole * n;
                if base > u64::MAX - n {
                    Err(AsmError::OutOfMemory(cur))
                } else {
                    Ok((Some(base + n), base + n))
                }
            } else {
                Ok((Some(cur), cur))
            }
        },
    }
}

/// Records a line that stands at `addr`.
fn record(line: SourceLine, addr: Option<u64>) -> (info: SourceInfo)
    ensures
        info == recorded(line, addr),
{
    let SourceLine { statement, text } = line;
    match statement {
        Some(Statement::Inst(inst)) => SourceInfo {
            addr,
            inst: Some(inst),
            label: None,
            data: None,
            src: text,
        },
        Some(Statement::Label(label)) => SourceInfo {
            addr,
            inst: None,
            label: Some(label),
            data: None,
            src: text,
        },
        Some(Statement::Quad(imm)) => SourceInfo {
            addr,
            inst: None,
            label: None,
            data: Some((8u8, imm)),
            src: text,
        },
        _ => SourceInfo { addr, inst: None, label: None, data: None, src: text },
    }
}

/// Assembles the lines of a program: places every line, collects the
/// labels, and writes instructions and data in binary form into a memory of
/// zero bytes.
#[verifier::loop_isolation(false)]
pub fn assemble_lines(lines: Vec<SourceLine>) -> (res: Result<ObjectExt, AsmError>)
    ensures
        assembled(lines@, res),
{
    let ghost all = lines@;
    let mut rest: Vec<SourceLine> = lines;
    let mut infos: Vec<SourceInfo> = Vec::new();
    let mut cur: u64 = 0;
    let count: usize = rest.len();
    let mut k: usize = 0;
    while k < count
        invariant
            k <= count,
            count == all.len(),
            rest@.len() == count - k,
            forall|j: int| 0 <= j < rest@.len() ==> rest@[j] == all[k + j],
            placed_upto(all, k as int) == Ok::<(Seq<SourceInfo>, u64), AsmFailure>((infos@, cur)),
        decreases count - k,
    {
        let line: SourceLine = rest.remove(0);
        match place_line(cur, &line.statement) {
            Err(e) => {
                proof {
                    lemma_placed_error_stays(all, k as int + 1, count as int);
                }
                return Err(e);
            },
            Ok((addr, next)) => {
                infos.push(record(line, addr));
                cur = next;
            },
        }
        k = k + 1;
    }
    let mut obj = Object::default();
    assert(obj.symbols@ =~= Seq::empty());
    let mut i: usize = 0;
    while i < infos.len()
        invariant
            i <= infos@.len(),
            obj.binary@ == Seq::new(MEM_SIZE as nat, |j: int| 0u8),
            symbols_upto(infos@, i as int) == Ok::<Seq<(String, u64)>, AsmFailure>(obj.symbols@),
        decreases infos@.len() - i,
    {
        match (&infos[i].label, infos[i].addr) {
            (Some(label), Some(addr)) => {
                if lookup(&obj.symbols, label.as_str()).is_some() {
                    proof {
                        crate::framework::names::lemma_position(
                            label_names(obj.symbols@),
                            label@,
                        );
                        lemma_symbols_error_stays(infos@, i as int + 1, infos@.len() as int);
                    }
                    return Err(AsmError::DuplicateLabel(label.clone()));
                }
                proof {
                    crate::framework::names::lemma_position(label_names(obj.symbols@), label@);
                }
                obj.symbols.push((label.clone(), addr));
            },
            _ => {},
        }
        i = i + 1;
    }
    let mut i: usize = 0;
    while i < infos.len()
        invariant
            i <= infos@.len(),
            symbols_upto(infos@, infos@.len() as int) == Ok::<Seq<(String, u64)>, AsmFailure>(
                obj.symbols@,
            ),
            image_upto(infos@, obj.symbols@, i as int) == Ok::<Seq<u8>, AsmFailure>(obj.binary@),
        decreases infos@.len() - i,
    {
        match infos[i].write_object(&mut obj) {
            Err(e) => {
                proof {
                    lemma_image_error_stays(infos@, obj.symbols@, i as int + 1, infos@.len() as int);
                }
                return Err(e);
            },
            Ok(()) => {},
        }
        i = i + 1;
    }
    Ok(ObjectExt { obj, source: infos })
}

/// An error of the layout stays the error of the layout.
proof fn lemma_placed_error_stays(lines: Seq<SourceLine>, k: int, m: int)
    requires
        0 <= k <= m <= lines.len(),
        placed_upto(lines, k) is Err,
    ensures
        placed_upto(lines, m) == placed_upto(lines, k),
    decreases m - k,
{
    if k < m {
        lemma_placed_error_stays(lines, k, m - 1);
    }
}

/// A label that is defined twice stays the error.
proof fn lemma_symbols_error_stays(infos: Seq<SourceInfo>, k: int, m: int)
    requires
        0 <= k <= m <= infos.len(),
        symbols_upto(infos, k) is Err,
    ensures
        symbols_upto(infos, m) == symbols_upto(infos, k),
    decreases m - k,
{
    if k < m {
        lemma_symbols_error_stays(infos, k, m - 1);
    }
}

/// An error of a line stays the error.
proof fn lemma_image_error_stays(
    infos: Seq<SourceInfo>,
    symbols: Seq<(String, u64)>,
    k: int,
    m: int,
)
    requires
        0 <= k <= m <= infos.len(),
        image_upto(infos, symbols, k) is Err,
    ensures
        image_upto(infos, symbols, m) == image_upto(infos, symbols, k),
    decreases m - k,
{
    if k < m {
        lemma_image_error_stays(infos, symbols, k, m - 1);
    }
}

/// How a program is assembled.
#[derive(Debug, Clone, Copy, PartialEq, Eq, Structural)]
pub struct AssembleOption {
    /// Whether the caller wants the statements reported while they are
    /// assembled.
    pub verbose: bool,
}

impl Default for AssembleOption {
    fn default() -> (option: AssembleOption)
        ensures
            !option.verbose,
    {
        AssembleOption { verbose: false }
    }
}

impl AssembleOption {
    /// The option with `verbose` set as given.
    pub fn set_verbose(self, verbose: bool) -> (option: AssembleOption)
        ensures
            option.verbose == verbose,
    {
        AssembleOption { verbose }
    }
}

/// Whether `res` is what assembling the lines gives.
pub open spec fn assembled(lines: Seq<SourceLine>, res: Result<ObjectExt, AsmError>) -> bool {
    match spec_assemble(lines) {
        Ok((infos, symbols, mem)) => res matches Ok(ext) && ext.source@ == infos
            && ext.obj.symbols@ == symbols && ext.obj.binary@ == mem,
        Err(e) => res matches Err(err) && err@ == e,
    }
}

/// Whether `res` is what assembling the text `src` gives: a text that is no
/// ASCII text is refused, and so is a text with a line that spells no
/// statement, by its first such line; any other text gives what assembling
/// its statements gives.
pub open spec fn is_assembly(src: Seq<char>, res: Result<ObjectExt, AsmError>) -> bool {
    if !vstd::utf8::is_ascii_chars(src) {
        res matches Err(AsmError::NotAscii)
    } else {
        match parser::first_bad_line(src) {
            Some(bad) => res matches Err(AsmError::Syntax(line)) && line == bad,
            None => exists|lines: Seq<SourceLine>|
                parser::well_read(src, lines) && assembled(lines, res),
        }
    }
}

/// Transforms assembly code into an object: reads the lines of the source,
/// then assembles them. A source that is no ASCII text is refused, and so
/// is a source with a line that spells no statement.
pub fn assemble(src: &str, option: AssembleOption) -> (res: Result<ObjectExt, AsmError>)
    ensures
        is_assembly(src@, res),
{
    match parser::parse(src) {
        Err(e) => Err(e),
        Ok(lines) => {
            let ghost read = lines@;
            let res = assemble_lines(lines);
            assert(parser::well_read(src@, read) && assembled(read, res));
            res
        },
    }
}

/// The `n` bytes of `mem` from `from` on, each in two hexadecimal digits.
pub open spec fn hex_bytes(mem: Seq<u8>, from: int, n: nat) -> Seq<char>
    decreases n,
{
    if n == 0 {
        Seq::empty()
    } else {
        hex_bytes(mem, from, (n - 1) as nat) + crate::utils::hex_text(mem[from + n - 1] as u64, 2)
    }
}

/// An address as an object listing shows it: `0x` and at least four
/// hexadecimal digits.
pub open spec fn listed_addr(addr: u64) -> Seq<char> {
    "0x"@ + crate::utils::hex_text(
        addr,
        if crate::utils::hex_width(addr) > 4 {
            crate::utils::hex_width(addr)
        } else {
            4
        },
    )
}

/// The number of bytes that a line shows in an object listing: the length
/// of its instruction or, where it has none, the width of its data, as far
/// as the bytes lie inside the memory.
pub open spec fn listed_len(info: SourceInfo) -> nat {
    let len: nat = match info.inst {
        Some(inst) => spec_length(inst.spec_icode()) as nat,
        None => match info.data {
            Some((sz, _)) => sz as nat,
            None => 0,
        },
    };
    match info.addr {
        Some(addr) => if addr + len <= MEM_SIZE && len <= 10 {
            len
        } else {
            0
        },
        None => 0,
    }
}

/// A line of an object listing: the address and the bytes of the line, in
/// a column of 29 characters, then a bar and the text of the line.
pub open spec fn listed_line(info: SourceInfo, mem: Seq<u8>) -> Seq<char> {
    (match info.addr {
        Some(addr) => listed_addr(addr) + ": "@ + hex_bytes(mem, addr as int, listed_len(info))
            + crate::utils::blanks((21 - 2 * listed_len(info)) as nat),
        None => crate::utils::blanks(29),
    }) + "| "@ + info.src@ + "\n"@
}

/// The first `k` lines of an object listing.
pub open spec fn listing_upto(infos: Seq<SourceInfo>, mem: Seq<u8>, k: int) -> Seq<char>
    decreases k,
{
    if k <= 0 || k > infos.len() {
        Seq::empty()
    } else {
        listing_upto(infos, mem, k - 1) + listed_line(infos[k - 1], mem)
    }
}

impl ObjectExt {
    /// The object as a listing: every line of the source with its address
    /// and with the bytes that it put into the image.
    pub fn to_yo(&self) -> (text: String)
        ensures
            text@ == listing_upto(self.source@, self.obj.binary@, self.source@.len() as int),
    {
        let mem = self.obj.binary.read();
        let mut text: String = String::new();
        let mut k: usize = 0;
        while k < self.source.len()
            invariant
                k <= self.source@.len(),
                mem@ == self.obj.binary@,
                mem@.len() == MEM_SIZE,
                text@ == listing_upto(self.source@, self.obj.binary@, k as int),
            decreases self.source@.len() - k,
        {
            let info = &self.source[k];
            let ghost before = text@;
            let mut line: String = String::new();
            match info.addr {
                Some(addr) => {
                    let width: usize = crate::utils::count_hex_digits(addr);
                    let digits: usize = if width > 4 { width } else { 4 };
                    line.append("0x");
                    line.append(crate::utils::hex_digits(addr, digits, 0).as_str());
                    line.append(": ");
                    let wanted: usize = match &info.inst {
                        Some(inst) => inst.len(),
                        None => match &info.data {
                            Some((sz, _)) => *sz as usize,
                            None => 0,
                        },
                    };
                    let len: usize = if wanted <= 10 && addr <= (MEM_SIZE - wanted) as u64 {
                        wanted
                    } else {
                        0
                    };
                    assert(len == listed_len(*info));
                    let ghost head = line@;
                    let mut i: usize = 0;
                    assert(line@ =~= head + hex_bytes(mem@, addr as int, 0));
                    while i < len
                        invariant
                            i <= len,
                            len <= 10,
                            len > 0 ==> addr + len <= MEM_SIZE,
                            mem@.len() == MEM_SIZE,
                            line@ == head + hex_bytes(mem@, addr as int, i as nat),
                        decreases len - i,
                    {
                        let b: u8 = mem[addr as usize + i];
                        line.append(crate::utils::hex_digits(b as u64, 2, 0).as_str());
                        i = i + 1;
                        assert(line@ =~= head + hex_bytes(mem@, addr as int, i as nat));
                    }
                    crate::utils::pad(&mut line, 21 - 2 * len);
                },
                None => {
                    crate::utils::pad(&mut line, 29);
                    assert(line@ =~= crate::utils::blanks(29));
                },
            }
            line.append("| ");
            line.append(info.src.as_str());
            line.append("\n");
            assert(line@ =~= listed_line(*info, mem@));
            text.append(line.as_str());
            k = k + 1;
        }
        text
    }
}

} // verus!
