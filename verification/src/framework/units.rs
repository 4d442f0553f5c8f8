//! The state that a machine owns across cycles, the kinds of functional
//! units, and the single entry through which the evaluation order runs them.
use vstd::prelude::*;
use crate::framework::names::Name;
use crate::framework::{in_range, MemData, MEM_SIZE};
use crate::hardware::{
    align_split, alu, condition, data_memory, fetchable, instruction_length, instruction_memory,
    nibble_memory, pc_increment, register_cc, register_file, register_file_read,
    register_file_write, spec_alu, spec_data_memory_after, spec_data_memory_out,
    spec_register_cc, spec_register_read, spec_register_write_both,
};
use crate::isa::reg_code::RNONE;
use crate::isa::{wrapping_sum, ConditionCode, RegFile};
use crate::signal::{SigType, Value};
use crate::utils::le_u64;

verus! {

/// The kinds of functional units.
#[derive(Debug, Clone, Copy, PartialEq, Eq, Structural)]
pub enum UnitKind {
    /// Input `pc`; outputs `error`, `icode`, `ifun`, `align`.
    InstructionMemory,
    /// Input `pc`; outputs `lower`, `higher`, `error`.
    NibbleMemory,
    /// Inputs `need_regids`, `align`; outputs `ra`, `rb`, `valc`.
    Align,
    /// Inputs `need_valc`, `need_regids`, `old_pc`; output `new_pc`.
    PcIncrement,
    /// Inputs `srca`, `srcb`, `dste`, `dstm`, `vale`, `valm`; outputs `vala`,
    /// `valb`. Writes before it reads.
    RegisterFile,
    /// Inputs `srca`, `srcb`; outputs `vala`, `valb`.
    RegisterFileRead,
    /// Inputs `dste`, `dstm`, `vale`, `valm`; no output.
    RegisterFileWrite,
    /// Inputs `a`, `b`, `fun`; output `e`.
    Alu,
    /// Inputs `set_cc`, `a`, `b`, `e`, `opfun`; output `cc`.
    RegisterCc,
    /// Inputs `condfun`, `cc`; output `cnd`.
    Condition,
    /// Inputs `addr`, `datain`, `read`, `write`; outputs `dataout`, `error`.
    DataMemory,
}

/// A port of a unit, or a field of a record: its name and its type.
#[derive(Debug)]
pub struct Port {
    pub name: String,
    pub ty: SigType,
}

impl View for Port {
    type V = (Name, SigType);

    open spec fn view(&self) -> (Name, SigType) {
        (self.name@, self.ty)
    }
}

/// The ports of a list as plain values.
pub open spec fn ports_view(ports: Seq<Port>) -> Seq<(Name, SigType)> {
    Seq::new(ports.len(), |i: int| ports[i]@)
}

/// Makes a port.
pub fn port(name: &str, ty: SigType) -> (p: Port)
    ensures
        p@ == (name@, ty),
{
    Port { name: name.to_owned(), ty }
}

/// The names of the ports of a list.
pub open spec fn names_of_ports(ports: Seq<(Name, SigType)>) -> Seq<Name> {
    Seq::new(ports.len(), |i: int| ports[i].0)
}

/// The position of the port named `name`, or the number of ports where
/// there is none.
pub fn find_port_name(ports: &Vec<Port>, name: &str) -> (at: usize)
    ensures
        at == crate::framework::names::position(names_of_ports(ports_view(ports@)), name@),
        at <= ports@.len(),
        at < ports@.len() ==> ports@[at as int].name@ == name@,
{
    let key: String = name.to_owned();
    let ghost names = names_of_ports(ports_view(ports@));
    let mut i: usize = 0;
    while i < ports.len()
        invariant
            i <= ports@.len(),
            key@ == name@,
            names == names_of_ports(ports_view(ports@)),
            crate::framework::names::position_upto(names, name@, i as int) == i,
        decreases ports@.len() - i,
    {
        if ports[i].name == key {
            proof {
                assert(names[i as int] == name@);
                crate::framework::names::lemma_position_rest(
                    names,
                    name@,
                    i as int + 1,
                    names.len() as int,
                );
            }
            return i;
        }
        i = i + 1;
    }
    i
}

impl UnitKind {
    /// The input ports of a unit of this kind, in the order in which `run`
    /// reads them.
    pub open spec fn spec_inputs(self) -> Seq<(Name, SigType)> {
        match self {
            UnitKind::InstructionMemory => seq![("pc"@, SigType::U64)],
            UnitKind::NibbleMemory => seq![("pc"@, SigType::U64)],
            UnitKind::Align => seq![("need_regids"@, SigType::Bool), ("align"@, SigType::Align)],
            UnitKind::PcIncrement => seq![
                ("need_valc"@, SigType::Bool),
                ("need_regids"@, SigType::Bool),
                ("old_pc"@, SigType::U64),
            ],
            UnitKind::RegisterFile => seq![
                ("srca"@, SigType::U8),
                ("srcb"@, SigType::U8),
                ("dste"@, SigType::U8),
                ("dstm"@, SigType::U8),
                ("vale"@, SigType::U64),
                ("valm"@, SigType::U64),
            ],
            UnitKind::RegisterFileRead => seq![("srca"@, SigType::U8), ("srcb"@, SigType::U8)],
            UnitKind::RegisterFileWrite => seq![
                ("dste"@, SigType::U8),
                ("dstm"@, SigType::U8),
                ("vale"@, SigType::U64),
                ("valm"@, SigType::U64),
            ],
            UnitKind::Alu => seq![
                ("a"@, SigType::U64),
                ("b"@, SigType::U64),
                ("fun"@, SigType::U8),
            ],
            UnitKind::RegisterCc => seq![
                ("set_cc"@, SigType::Bool),
                ("a"@, SigType::U64),
                ("b"@, SigType::U64),
                ("e"@, SigType::U64),
                ("opfun"@, SigType::U8),
            ],
            UnitKind::Condition => seq![("condfun"@, SigType::U8), ("cc"@, SigType::Cc)],
            UnitKind::DataMemory => seq![
                ("addr"@, SigType::U64),
                ("datain"@, SigType::U64),
                ("read"@, SigType::Bool),
                ("write"@, SigType::Bool),
            ],
        }
    }

    /// The output ports of a unit of this kind, in the order in which `run`
    /// gives them.
    pub open spec fn spec_outputs(self) -> Seq<(Name, SigType)> {
        match self {
            UnitKind::InstructionMemory => seq![
                ("error"@, SigType::Bool),
                ("icode"@, SigType::U8),
                ("ifun"@, SigType::U8),
                ("align"@, SigType::Align),
            ],
            UnitKind::NibbleMemory => seq![
                ("lower"@, SigType::U8),
                ("higher"@, SigType::U8),
                ("error"@, SigType::Bool),
            ],
            UnitKind::Align => seq![
                ("ra"@, SigType::U8),
                ("rb"@, SigType::U8),
                ("valc"@, SigType::U64),
            ],
            UnitKind::PcIncrement => seq![("new_pc"@, SigType::U64)],
            UnitKind::RegisterFile => seq![("vala"@, SigType::U64), ("valb"@, SigType::U64)],
            UnitKind::RegisterFileRead => seq![("vala"@, SigType::U64), ("valb"@, SigType::U64)],
            UnitKind::RegisterFileWrite => seq![],
            UnitKind::Alu => seq![("e"@, SigType::U64)],
            UnitKind::RegisterCc => seq![("cc"@, SigType::Cc)],
            UnitKind::Condition => seq![("cnd"@, SigType::Bool)],
            UnitKind::DataMemory => seq![("dataout"@, SigType::U64), ("error"@, SigType::Bool)],
        }
    }

    /// The input ports of a unit of this kind.
    pub fn inputs(self) -> (ports: Vec<Port>)
        ensures
            ports_view(ports@) == self.spec_inputs(),
    {
        let mut ports: Vec<Port> = Vec::new();
        match self {
            UnitKind::InstructionMemory => {
                ports.push(port("pc", SigType::U64));
            },
            UnitKind::NibbleMemory => {
                ports.push(port("pc", SigType::U64));
            },
            UnitKind::Align => {
                ports.push(port("need_regids", SigType::Bool));
                ports.push(port("align", SigType::Align));
            },
            UnitKind::PcIncrement => {
                ports.push(port("need_valc", SigType::Bool));
                ports.push(port("need_regids", SigType::Bool));
                ports.push(port("old_pc", SigType::U64));
            },
            UnitKind::RegisterFile => {
                ports.push(port("srca", SigType::U8));
                ports.push(port("srcb", SigType::U8));
                ports.push(port("dste", SigType::U8));
                ports.push(port("dstm", SigType::U8));
                ports.push(port("vale", SigType::U64));
                ports.push(port("valm", SigType::U64));
            },
            UnitKind::RegisterFileRead => {
                ports.push(port("srca", SigType::U8));
                ports.push(port("srcb", SigType::U8));
            },
            UnitKind::RegisterFileWrite => {
                ports.push(port("dste", SigType::U8));
                ports.push(port("dstm", SigType::U8));
                ports.push(port("vale", SigType::U64));
                ports.push(port("valm", SigType::U64));
            },
            UnitKind::Alu => {
                ports.push(port("a", SigType::U64));
                ports.push(port("b", SigType::U64));
                ports.push(port("fun", SigType::U8));
            },
            UnitKind::RegisterCc => {
                ports.push(port("set_cc", SigType::Bool));
                ports.push(port("a", SigType::U64));
                ports.push(port("b", SigType::U64));
                ports.push(port("e", SigType::U64));
                ports.push(port("opfun", SigType::U8));
            },
            UnitKind::Condition => {
                ports.push(port("condfun", SigType::U8));
                ports.push(port("cc", SigType::Cc));
            },
            UnitKind::DataMemory => {
                ports.push(port("addr", SigType::U64));
                ports.push(port("datain", SigType::U64));
                ports.push(port("read", SigType::Bool));
                ports.push(port("write", SigType::Bool));
            },
        }
        assert(ports_view(ports@) =~= self.spec_inputs());
        ports
    }

    /// The output ports of a unit of this kind.
    pub fn outputs(self) -> (ports: Vec<Port>)
        ensures
            ports_view(ports@) == self.spec_outputs(),
    {
        let mut ports: Vec<Port> = Vec::new();
        match self {
            UnitKind::InstructionMemory => {
                ports.push(port("error", SigType::Bool));
                ports.push(port("icode", SigType::U8));
                ports.push(port("ifun", SigType::U8));
                ports.push(port("align", SigType::Align));
            },
            UnitKind::NibbleMemory => {
                ports.push(port("lower", SigType::U8));
                ports.push(port("higher", SigType::U8));
                ports.push(port("error", SigType::Bool));
            },
            UnitKind::Align => {
                ports.push(port("ra", SigType::U8));
                ports.push(port("rb", SigType::U8));
                ports.push(port("valc", SigType::U64));
            },
            UnitKind::PcIncrement => {
                ports.push(port("new_pc", SigType::U64));
            },
            UnitKind::RegisterFile => {
                ports.push(port("vala", SigType::U64));
                ports.push(port("valb", SigType::U64));
            },
            UnitKind::RegisterFileRead => {
                ports.push(port("vala", SigType::U64));
                ports.push(port("valb", SigType::U64));
            },
            UnitKind::RegisterFileWrite => {},
            UnitKind::Alu => {
                ports.push(port("e", SigType::U64));
            },
            UnitKind::RegisterCc => {
                ports.push(port("cc", SigType::Cc));
            },
            UnitKind::Condition => {
                ports.push(port("cnd", SigType::Bool));
            },
            UnitKind::DataMemory => {
                ports.push(port("dataout", SigType::U64));
                ports.push(port("error", SigType::Bool));
            },
        }
        assert(ports_view(ports@) =~= self.spec_outputs());
        ports
    }
}

/// The state that a machine owns across cycles: the memory, the register
/// file and the condition codes. Several units work on each of them, one at
/// a time, in the order of the evaluation.
pub struct Units {
    pub mem: MemData,
    pub regs: RegFile,
    pub cc: ConditionCode,
}

/// The state of a machine as plain values.
pub struct Machine {
    pub mem: Seq<u8>,
    pub regs: Seq<u64>,
    pub cc: ConditionCode,
}

impl View for Units {
    type V = Machine;

    open spec fn view(&self) -> Machine {
        Machine { mem: self.mem@, regs: self.regs@, cc: self.cc }
    }
}

/// The value on input `k` of a unit; `false` where the list is too short.
pub open spec fn input(ins: Seq<Value>, k: int) -> Value {
    if 0 <= k < ins.len() {
        ins[k]
    } else {
        Value::Bool(false)
    }
}

/// The value on input `k` of a unit.
fn input_at(ins: &Vec<Value>, k: usize) -> (v: Value)
    ensures
        v == input(ins@, k as int),
{
    if k < ins.len() {
        ins[k]
    } else {
        Value::Bool(false)
    }
}

/// The nine bytes of `mem` from `at` on, as an array.
pub open spec fn nine_bytes(mem: Seq<u8>, at: int) -> [u8; 9] {
    [
        mem[at],
        mem[at + 1],
        mem[at + 2],
        mem[at + 3],
        mem[at + 4],
        mem[at + 5],
        mem[at + 6],
        mem[at + 7],
        mem[at + 8],
    ]
}

/// The outputs that a unit of kind `kind` gives in one run, from its inputs
/// `ins` and the state `before`.
pub open spec fn unit_outputs(kind: UnitKind, ins: Seq<Value>, before: Machine) -> Seq<Value> {
    match kind {
        UnitKind::InstructionMemory => {
            let pc = input(ins, 0).word();
            if fetchable(pc) {
                seq![
                    Value::Bool(false),
                    Value::U8(before.mem[pc as int] / 16),
                    Value::U8(before.mem[pc as int] % 16),
                    Value::Align(nine_bytes(before.mem, pc as int + 1)),
                ]
            } else {
                seq![
                    Value::Bool(true),
                    Value::U8(0),
                    Value::U8(0),
                    Value::Align([0u8, 0u8, 0u8, 0u8, 0u8, 0u8, 0u8, 0u8, 0u8]),
                ]
            }
        },
        UnitKind::NibbleMemory => {
            let pc = input(ins, 0).word();
            if pc < MEM_SIZE {
                seq![
                    Value::U8(before.mem[pc as int] % 16),
                    Value::U8(before.mem[pc as int] / 16),
                    Value::Bool(false),
                ]
            } else {
                seq![Value::U8(0), Value::U8(0), Value::Bool(true)]
            }
        },
        UnitKind::Align => {
            let bytes = input(ins, 1).align()@;
            if input(ins, 0).truth() {
                seq![
                    Value::U8(bytes[0] / 16),
                    Value::U8(bytes[0] % 16),
                    Value::U64(le_u64(bytes.subrange(1, 9)) as u64),
                ]
            } else {
                seq![
                    Value::U8(RNONE),
                    Value::U8(RNONE),
                    Value::U64(le_u64(bytes.subrange(0, 8)) as u64),
                ]
            }
        },
        UnitKind::PcIncrement => seq![
            Value::U64(
                wrapping_sum(
                    input(ins, 2).word(),
                    instruction_length(input(ins, 0).truth(), input(ins, 1).truth()),
                ),
            ),
        ],
        UnitKind::RegisterFile => {
            let regs = unit_state(kind, ins, before).regs;
            seq![
                Value::U64(spec_register_read(regs, input(ins, 0).byte())),
                Value::U64(spec_register_read(regs, input(ins, 1).byte())),
            ]
        },
        UnitKind::RegisterFileRead => seq![
            Value::U64(spec_register_read(before.regs, input(ins, 0).byte())),
            Value::U64(spec_register_read(before.regs, input(ins, 1).byte())),
        ],
        UnitKind::RegisterFileWrite => Seq::empty(),
        UnitKind::Alu => seq![
            Value::U64(spec_alu(input(ins, 0).word(), input(ins, 1).word(), input(ins, 2).byte())),
        ],
        UnitKind::RegisterCc => seq![Value::Cc(unit_state(kind, ins, before).cc)],
        UnitKind::Condition => seq![
            Value::Bool(input(ins, 1).cc().spec_test(input(ins, 0).byte())),
        ],
        UnitKind::DataMemory => seq![
            Value::U64(
                spec_data_memory_out(
                    before.mem,
                    input(ins, 0).word(),
                    input(ins, 2).truth(),
                    input(ins, 3).truth(),
                ),
            ),
            Value::Bool(!in_range(input(ins, 0).word())),
        ],
    }
}

/// The state that a unit of kind `kind` leaves behind after one run, from
/// its inputs `ins` and the state `before`. Only the register file, the
/// condition-code register and the data memory change it.
pub open spec fn unit_state(kind: UnitKind, ins: Seq<Value>, before: Machine) -> Machine {
    match kind {
        UnitKind::RegisterFile => Machine {
            regs: spec_register_write_both(
                before.regs,
                input(ins, 2).byte(),
                input(ins, 3).byte(),
                input(ins, 4).word(),
                input(ins, 5).word(),
            ),
            ..before
        },
        UnitKind::RegisterFileWrite => Machine {
            regs: spec_register_write_both(
                before.regs,
                input(ins, 0).byte(),
                input(ins, 1).byte(),
                input(ins, 2).word(),
                input(ins, 3).word(),
            ),
            ..before
        },
        UnitKind::RegisterCc => Machine {
            cc: spec_register_cc(
                before.cc,
                input(ins, 0).truth(),
                input(ins, 1).word(),
                input(ins, 2).word(),
                input(ins, 3).word(),
                input(ins, 4).byte(),
            ),
            ..before
        },
        UnitKind::DataMemory => Machine {
            mem: spec_data_memory_after(
                before.mem,
                input(ins, 0).word(),
                input(ins, 1).word(),
                input(ins, 3).truth(),
            ),
            ..before
        },
        _ => before,
    }
}

impl Units {
    /// The state of a machine that has just been loaded: the given memory,
    /// registers at zero, flags cleared.
    pub fn init(memory: MemData) -> (units: Units)
        ensures
            units@.mem == memory@,
            units@.regs == Seq::new(16, |i: int| 0u64),
            units@.cc == (ConditionCode { sf: false, of: false, zf: false }),
    {
        let units = Units {
            mem: memory,
            regs: [0u64; 16],
            cc: ConditionCode { sf: false, of: false, zf: false },
        };
        assert(units@.regs =~= Seq::new(16, |i: int| 0u64));
        units
    }

    /// The registers with their values, by rising register code; `RNONE` is
    /// no register.
    pub fn registers(&self) -> (list: Vec<(u8, u64)>)
        ensures
            list@.len() == 15,
            forall|i: int| 0 <= i < 15 ==> #[trigger] list@[i] == (i as u8, self@.regs[i]),
    {
        let mut list: Vec<(u8, u64)> = Vec::new();
        let mut i: u8 = 0;
        while i < RNONE
            invariant
                i <= RNONE,
                list@.len() == i,
                forall|j: int| 0 <= j < i ==> #[trigger] list@[j] == (j as u8, self@.regs[j]),
            decreases RNONE - i,
        {
            list.push((i, self.regs[i as usize]));
            i = i + 1;
        }
        list
    }

    /// Runs a unit of kind `kind` on the inputs `ins`, which stand in the
    /// order of the kind's input ports, and gives its outputs in the order of
    /// its output ports. A missing input counts as `false`; an input of
    /// another type than its port's counts as the number or truth value that
    /// it stands for.
    pub fn run(&mut self, kind: UnitKind, ins: &Vec<Value>) -> (outs: Vec<Value>)
        ensures
            outs@ == unit_outputs(kind, ins@, old(self)@),
            final(self)@ == unit_state(kind, ins@, old(self)@),
            outs@.len() == kind.spec_outputs().len(),
            forall|k: int|
                0 <= k < outs@.len() ==> (#[trigger] outs@[k]).spec_type_of()
                    == kind.spec_outputs()[k].1,
    {
        let mut outs: Vec<Value> = Vec::new();
        match kind {
            UnitKind::InstructionMemory => {
                let size: usize = self.mem.size();
                let got = instruction_memory(&self.mem, input_at(ins, 0).as_u64());
                outs.push(Value::Bool(got.error));
                outs.push(Value::U8(got.icode));
                outs.push(Value::U8(got.ifun));
                outs.push(Value::Align(got.align));
                proof {
                    let pc = input(ins@, 0).word();
                    if fetchable(pc) {
                        let at = pc as int + 1;
                        let lit = nine_bytes(self@.mem, at);
                        let sub = self@.mem.subrange(at, at + 9);
                        assert(got.align@ == sub);
                        assert(lit[0] == self@.mem[at] && sub[0] == self@.mem[at]);
                        assert(lit[1] == self@.mem[at + 1] && sub[1] == self@.mem[at + 1]);
                        assert(lit[2] == self@.mem[at + 2] && sub[2] == self@.mem[at + 2]);
                        assert(lit[3] == self@.mem[at + 3] && sub[3] == self@.mem[at + 3]);
                        assert(lit[4] == self@.mem[at + 4] && sub[4] == self@.mem[at + 4]);
                        assert(lit[5] == self@.mem[at + 5] && sub[5] == self@.mem[at + 5]);
                        assert(lit[6] == self@.mem[at + 6] && sub[6] == self@.mem[at + 6]);
                        assert(lit[7] == self@.mem[at + 7] && sub[7] == self@.mem[at + 7]);
                        assert(lit[8] == self@.mem[at + 8] && sub[8] == self@.mem[at + 8]);
                        assert(got.align =~= lit);
                    } else {
                        assert(got.align =~= [0u8, 0u8, 0u8, 0u8, 0u8, 0u8, 0u8, 0u8, 0u8]);
                    }
                }
            },
            UnitKind::NibbleMemory => {
                let got = nibble_memory(&self.mem, input_at(ins, 0).as_u64());
                outs.push(Value::U8(got.0));
                outs.push(Value::U8(got.1));
                outs.push(Value::Bool(got.2));
            },
            UnitKind::Align => {
                let bytes: [u8; 9] = input_at(ins, 1).as_align();
                let got = align_split(input_at(ins, 0).is_true(), &bytes);
                outs.push(Value::U8(got.0));
                outs.push(Value::U8(got.1));
                outs.push(Value::U64(got.2));
            },
            UnitKind::PcIncrement => {
                let new_pc: u64 = pc_increment(
                    input_at(ins, 0).is_true(),
                    input_at(ins, 1).is_true(),
                    input_at(ins, 2).as_u64(),
                );
                outs.push(Value::U64(new_pc));
            },
            UnitKind::RegisterFile => {
                let got = register_file(
                    &mut self.regs,
                    input_at(ins, 0).as_u8(),
                    input_at(ins, 1).as_u8(),
                    input_at(ins, 2).as_u8(),
                    input_at(ins, 3).as_u8(),
                    input_at(ins, 4).as_u64(),
                    input_at(ins, 5).as_u64(),
                );
                outs.push(Value::U64(got.0));
                outs.push(Value::U64(got.1));
            },
            UnitKind::RegisterFileRead => {
                let got = register_file_read(
                    &self.regs,
                    input_at(ins, 0).as_u8(),
                    input_at(ins, 1).as_u8(),
                );
                outs.push(Value::U64(got.0));
                outs.push(Value::U64(got.1));
            },
            UnitKind::RegisterFileWrite => {
                register_file_write(
                    &mut self.regs,
                    input_at(ins, 0).as_u8(),
                    input_at(ins, 1).as_u8(),
                    input_at(ins, 2).as_u64(),
                    input_at(ins, 3).as_u64(),
                );
            },
            UnitKind::Alu => {
                let e: u64 = alu(
                    input_at(ins, 0).as_u64(),
                    input_at(ins, 1).as_u64(),
                    input_at(ins, 2).as_u8(),
                );
                outs.push(Value::U64(e));
            },
            UnitKind::RegisterCc => {
                let cc = register_cc(
                    &mut self.cc,
                    input_at(ins, 0).is_true(),
                    input_at(ins, 1).as_u64(),
                    input_at(ins, 2).as_u64(),
                    input_at(ins, 3).as_u64(),
                    input_at(ins, 4).as_u8(),
                );
                outs.push(Value::Cc(cc));
            },
            UnitKind::Condition => {
                let cnd: bool = condition(input_at(ins, 0).as_u8(), input_at(ins, 1).as_cc());
                outs.push(Value::Bool(cnd));
            },
            UnitKind::DataMemory => {
                let got = data_memory(
                    &mut self.mem,
                    input_at(ins, 0).as_u64(),
                    input_at(ins, 1).as_u64(),
                    input_at(ins, 2).is_true(),
                    input_at(ins, 3).is_true(),
                );
                outs.push(Value::U64(got.0));
                outs.push(Value::Bool(got.1));
            },
        }
        assert(outs@ =~= unit_outputs(kind, ins@, old(self)@));
        outs
    }
}

/// An access to memory lies inside the memory, or it gives an error and
/// leaves the memory as it was: the data memory reports an error exactly
/// where the eight bytes from the address on do not all lie inside the
/// memory, and then neither stores nor loads.
pub proof fn lemma_memory_access(ins: Seq<Value>, before: Machine)
    ensures
        ({
            let addr = input(ins, 0).word();
            let outs = unit_outputs(UnitKind::DataMemory, ins, before);
            let after = unit_state(UnitKind::DataMemory, ins, before);
            &&& outs[1] == Value::Bool(!(addr + 8 <= MEM_SIZE))
            &&& !(addr + 8 <= MEM_SIZE) ==> after == before && outs[0] == Value::U64(0)
            &&& after.regs == before.regs && after.cc == before.cc
        }),
{
}

/// A write to `RNONE` leaves the register file unchanged: where both write
/// ports name `RNONE`, the state after the register file has run is the
/// state before.
pub proof fn lemma_write_to_rnone(vale: Value, valm: Value, srca: Value, srcb: Value, before: Machine)
    ensures
        unit_state(
            UnitKind::RegisterFileWrite,
            seq![Value::U8(RNONE), Value::U8(RNONE), vale, valm],
            before,
        ) == before,
        unit_state(
            UnitKind::RegisterFile,
            seq![srca, srcb, Value::U8(RNONE), Value::U8(RNONE), vale, valm],
            before,
        ) == before,
{
}

/// The fence between reads and writes of the register file.
///
/// In the sequential organisation the unit that reads shows a register as
/// it was before the unit that writes has run; what was written is read
/// once the write has run, which is in the next cycle. In the pipelined
/// organisation the one unit writes before it reads: what is written in a
/// cycle is read in the same cycle.
pub proof fn lemma_register_fence(dst: u8, val: u64, before: Machine)
    requires
        dst < RNONE,
        before.regs.len() == 16,
    ensures
        ({
            let write = seq![Value::U8(dst), Value::U8(RNONE), Value::U64(val), Value::U64(0)];
            let read = seq![Value::U8(dst), Value::U8(RNONE)];
            let after = unit_state(UnitKind::RegisterFileWrite, write, before);
            let both = seq![
                Value::U8(dst),
                Value::U8(RNONE),
                Value::U8(dst),
                Value::U8(RNONE),
                Value::U64(val),
                Value::U64(0),
            ];
            &&& unit_outputs(UnitKind::RegisterFileRead, read, before)[0] == Value::U64(
                before.regs[dst as int],
            )
            &&& unit_state(UnitKind::RegisterFileRead, read, before) == before
            &&& unit_outputs(UnitKind::RegisterFileRead, read, after)[0] == Value::U64(val)
            &&& unit_outputs(UnitKind::RegisterFile, both, before)[0] == Value::U64(val)
            &&& unit_state(UnitKind::RegisterFile, both, before) == after
        }),
{
}

} // verus!
