use y86_sim::debugger::{
    line_of_addr, show_stop, show_value, stop_after_cycle, Breakpoint, DebugSession,
    LaunchError, Refusal, Reply, Request, RunProgKind, ServerStatus, Stop, StopReason,
};
use y86_sim::framework::schema::{latch, StageDecl};
use y86_sim::framework::units::{UnitKind, Units};
use y86_sim::framework::sim::field_text;
use y86_sim::framework::{mem_diff, mem_last_word, MemData, MEM_SIZE};
use y86_sim::hardware::{
    align_split, alu, condition, data_memory, instruction_memory, nibble_memory, pc_increment,
    register_cc, register_file, register_file_read, register_file_write, register_read,
    register_write, NEG_8,
};
use y86_sim::isa::decode::{decode, length, Decoded};
use y86_sim::isa::interp::{step, Stepped};
use y86_sim::isa::{
    arithmetic_compute, cond_fn, inst_code, op_code, reg_code, simulate, ConditionCode, IsaError,
    Stat,
};
use y86_sim::object::{Addr, CondFn, Inst, OpFn, Reg};
use y86_sim::signal::{SigType, Value};
use y86_sim::utils::{
    byte_of, decimal_text, format_cc, format_ctrl, format_icode, format_reg_val, format_stat,
    get_u64, mtc, put_u64, show_bytes, Tone,
};

const MIN: u64 = 1 << 63;

#[test]
fn arithmetic() {
    assert_eq!(arithmetic_compute(3, 10, op_code::ADD), Some(13));
    assert_eq!(arithmetic_compute(3, 10, op_code::SUB), Some(7));
    assert_eq!(arithmetic_compute(10, 3, op_code::SUB), Some(-7i64 as u64));
    assert_eq!(arithmetic_compute(u64::MAX, 2, op_code::ADD), Some(1));
    assert_eq!(arithmetic_compute(0b1100, 0b1010, op_code::AND), Some(0b1000));
    assert_eq!(arithmetic_compute(0b1100, 0b1010, op_code::XOR), Some(0b0110));
    assert_eq!(arithmetic_compute(1, 2, 4), None);
    assert_eq!(arithmetic_compute(1, 2, 0xf), None);
    // The unit gives 0 for a function code that names no operation.
    assert_eq!(alu(1, 2, 4), 0);
    assert_eq!(alu(NEG_8, 0x200, op_code::ADD), 0x1f8);
    assert_eq!(NEG_8, -8i64 as u64);
}

fn flags(a: u64, b: u64, op: u8) -> (bool, bool, bool) {
    let e = arithmetic_compute(a, b, op).unwrap();
    let mut cc = ConditionCode::default();
    cc.set(a, b, e, op);
    (cc.sf, cc.of, cc.zf)
}

#[test]
fn condition_codes() {
    assert_eq!(flags(1, 2, op_code::ADD), (false, false, false));
    assert_eq!(flags(0, 0, op_code::ADD), (false, false, true));
    assert_eq!(flags(1, u64::MAX, op_code::ADD), (false, false, true));
    // Two positive numbers with a negative sum.
    assert_eq!(flags(1, MIN - 1, op_code::ADD), (true, true, false));
    // Two negative numbers with a positive sum.
    assert_eq!(flags(MIN, MIN, op_code::ADD), (false, true, true));
    assert_eq!(flags(u64::MAX, MIN, op_code::ADD), (false, true, false));
    // b - a: a positive number less a negative one, with a negative result.
    assert_eq!(flags(u64::MAX, MIN - 1, op_code::SUB), (true, true, false));
    assert_eq!(flags(1, MIN, op_code::SUB), (false, true, false));
    assert_eq!(flags(2, 1, op_code::SUB), (true, false, false));
    assert_eq!(flags(2, 2, op_code::SUB), (false, false, true));
    // The other operations never overflow.
    assert_eq!(flags(MIN, MIN, op_code::AND), (true, false, false));
    assert_eq!(flags(MIN, MIN, op_code::XOR), (false, false, true));
    let mut cc = ConditionCode::default();
    cc.set(MIN, MIN, 0, 7);
    assert_eq!(cc, ConditionCode { sf: false, of: false, zf: true });
}

#[test]
fn conditions() {
    // (sf, of, zf) and the conditions that hold of them.
    let table = [
        ((false, false, false), vec![cond_fn::YES, cond_fn::NE, cond_fn::GE, cond_fn::G]),
        ((false, false, true), vec![cond_fn::YES, cond_fn::LE, cond_fn::E, cond_fn::GE]),
        ((true, false, false), vec![cond_fn::YES, cond_fn::LE, cond_fn::L, cond_fn::NE]),
        ((false, true, false), vec![cond_fn::YES, cond_fn::LE, cond_fn::L, cond_fn::NE]),
        ((true, true, false), vec![cond_fn::YES, cond_fn::NE, cond_fn::GE, cond_fn::G]),
        ((true, true, true), vec![cond_fn::YES, cond_fn::LE, cond_fn::E, cond_fn::GE]),
    ];
    for ((sf, of, zf), holding) in table {
        let cc = ConditionCode { sf, of, zf };
        for cfn in 0..=15u8 {
            assert_eq!(cc.test(cfn), holding.contains(&cfn), "{cc:?} {cfn}");
            assert_eq!(condition(cfn, cc), cc.test(cfn));
        }
    }
}

#[test]
fn status() {
    assert_eq!(Stat::default(), Stat::Aok);
    let all = [Stat::Aok, Stat::Bub, Stat::Hlt, Stat::Adr, Stat::Ins];
    assert_eq!(all.map(|s| s.code()), [0, 1, 2, 3, 4]);
    assert_eq!(all.map(|s| s.name()), ["aok", "bub", "hlt", "adr", "ins"]);
    assert_eq!(all.map(|s| s.is_exception()), [false, false, true, true, true]);
    assert_eq!(inst_code::name_of(inst_code::IOPQ), "IOPQ");
    assert_eq!(inst_code::name_of(0xd), "no name");
    assert_eq!(reg_code::name_of(reg_code::RSP), "RSP");
    assert_eq!(reg_code::name_of(reg_code::RNONE), "RNONE");
    assert_eq!(reg_code::name_of(16), "no name");
    assert_eq!(op_code::name_of(op_code::XOR), "XOR");
    assert_eq!(cond_fn::name_of(cond_fn::GE), "GE");
}

#[test]
fn little_endian_words() {
    assert_eq!(get_u64(&[0x88, 0x77, 0x66, 0x55, 0x44, 0x33, 0x22, 0x11]), 0x1122334455667788);
    assert_eq!(get_u64(&[0x88, 0x77, 0x66, 0x55, 0x44, 0x33, 0x22, 0x11, 0xff]), 0x1122334455667788);
    assert_eq!(get_u64(&[0x34, 0x12]), 0x1234);
    assert_eq!(get_u64(&[]), 0);
    let mut bytes = [0xaau8; 10];
    put_u64(&mut bytes, 0x1122334455667788);
    assert_eq!(bytes, [0x88, 0x77, 0x66, 0x55, 0x44, 0x33, 0x22, 0x11, 0xaa, 0xaa]);
    let mut bytes = [0xaau8; 3];
    put_u64(&mut bytes, 0x1122334455667788);
    assert_eq!(bytes, [0x88, 0x77, 0x66]);
    assert_eq!(byte_of(0x1122334455667788, 6), 0x22);
    for val in [0, 1, 0xff00, u64::MAX, MIN, 0x0123456789abcdef] {
        let mut bytes = [0u8; 8];
        put_u64(&mut bytes, val);
        assert_eq!(get_u64(&bytes), val);
    }
    assert!(mtc(3, &[1, 2, 3]));
    assert!(!mtc(4, &[1, 2, 3]));
    assert!(!mtc(0, &[]));
}

#[test]
fn texts_of_the_state() {
    let shown = format_stat(Stat::Aok);
    assert_eq!((shown.tone, shown.text.as_str()), (Tone::Green, "aok"));
    let shown = format_stat(Stat::Bub);
    assert_eq!((shown.tone, shown.text.as_str()), (Tone::Gray, "bub"));
    let shown = format_stat(Stat::Hlt);
    assert_eq!((shown.tone, shown.text.as_str()), (Tone::GreenBold, "hlt"));
    let shown = format_stat(Stat::Adr);
    assert_eq!((shown.tone, shown.text.as_str()), (Tone::RedBold, "adr"));
    let shown = format_stat(Stat::Ins);
    assert_eq!((shown.tone, shown.text.as_str()), (Tone::RedBold, "ins"));
    let shown = format_cc(ConditionCode { sf: true, of: false, zf: true });
    let texts: Vec<(Tone, &str)> = shown.iter().map(|t| (t.tone, t.text.as_str())).collect();
    assert_eq!(
        texts,
        [
            (Tone::Plain, "sf "),
            (Tone::GreenBold, "true"),
            (Tone::Plain, "  of "),
            (Tone::Gray, "false"),
            (Tone::Plain, "  zf "),
            (Tone::GreenBold, "true"),
        ]
    );
    let shown = format_ctrl(true, false);
    assert_eq!((shown.tone, shown.text.as_str()), (Tone::RedBold, "Bubble"));
    let shown = format_ctrl(true, true);
    assert_eq!((shown.tone, shown.text.as_str()), (Tone::RedBold, "Bubble"));
    let shown = format_ctrl(false, true);
    assert_eq!((shown.tone, shown.text.as_str()), (Tone::RedBold, "Stall "));
    let shown = format_ctrl(false, false);
    assert_eq!((shown.tone, shown.text.as_str()), (Tone::Green, "Normal"));
    let shown = format_icode(inst_code::NOP);
    assert_eq!((shown.tone, shown.text.as_str()), (Tone::Gray, "NOP   "));
    let shown = format_icode(inst_code::IRMOVQ);
    assert_eq!((shown.tone, shown.text.as_str()), (Tone::Plain, "IRMOVQ"));
    let shown = format_icode(inst_code::JX);
    assert_eq!((shown.tone, shown.text.as_str()), (Tone::Plain, "JX    "));
    let shown = format_icode(0xf);
    assert_eq!((shown.tone, shown.text.as_str()), (Tone::Plain, "no name"));
    let texts = |val| -> Vec<(Tone, String)> {
        format_reg_val(val).into_iter().map(|t| (t.tone, t.text)).collect()
    };
    assert_eq!(
        texts(0),
        vec![(Tone::Gray, "0000000000000000".to_string()), (Tone::Bold, String::new())]
    );
    assert_eq!(
        texts(0xcba),
        vec![(Tone::Gray, "0000000000000".to_string()), (Tone::Bold, "cba".to_string())]
    );
    assert_eq!(
        texts(u64::MAX),
        vec![(Tone::Gray, String::new()), (Tone::Bold, "ffffffffffffffff".to_string())]
    );
    assert_eq!(show_value(0), "0x0");
    assert_eq!(show_value(0x1f0), "0x1f0");
    assert_eq!(show_value(u64::MAX), "0xffffffffffffffff");
}

fn memory(image: &[u8]) -> MemData {
    MemData::from_image(&image.to_vec()).unwrap()
}

#[test]
fn memory_image() {
    assert!(MemData::from_image(&vec![0; MEM_SIZE + 1]).is_none());
    let full = MemData::init(vec![7; MEM_SIZE]);
    assert_eq!(full.read()[MEM_SIZE - 1], 7);
    assert_eq!(full.size(), MEM_SIZE);
    let mut mem = memory(&[1, 2, 3]);
    assert_eq!(mem.read().len(), MEM_SIZE);
    assert_eq!(mem.read()[..4], [1, 2, 3, 0]);
    assert_eq!(mem.load(0), Some(0x030201));
    assert_eq!(mem.load(MEM_SIZE as u64 - 8), Some(0));
    assert_eq!(mem.load(MEM_SIZE as u64 - 7), None);
    assert_eq!(mem.load(u64::MAX), None);
    assert!(mem.store(MEM_SIZE as u64 - 8, 0x1122334455667788));
    assert_eq!(mem.load(MEM_SIZE as u64 - 8), Some(0x1122334455667788));
    assert_eq!(mem.read()[MEM_SIZE - 1], 0x11);
    let before = mem.read().clone();
    assert!(!mem.store(MEM_SIZE as u64 - 7, 5));
    assert!(!mem.store(u64::MAX - 2, 5));
    assert!(mem.read() == &before);
    mem.write(5, 9);
    assert_eq!(mem.read()[5], 9);
}

#[test]
fn fetch_units() {
    let mem = memory(&[0x30, 0xf2, 1, 2, 3, 4, 5, 6, 7, 8, 0x61]);
    let got = instruction_memory(&mem, 0);
    assert_eq!((got.error, got.icode, got.ifun), (false, 3, 0));
    assert_eq!(got.align, [0xf2, 1, 2, 3, 4, 5, 6, 7, 8]);
    let got = instruction_memory(&mem, 10);
    assert_eq!((got.error, got.icode, got.ifun), (false, 6, 1));
    let got = instruction_memory(&mem, MEM_SIZE as u64 - 10);
    assert!(!got.error);
    for pc in [MEM_SIZE as u64 - 9, MEM_SIZE as u64, u64::MAX] {
        let got = instruction_memory(&mem, pc);
        assert_eq!((got.error, got.icode, got.ifun, got.align), (true, 0, 0, [0; 9]));
    }
    assert_eq!(nibble_memory(&mem, 1), (0x2, 0xf, false));
    assert_eq!(nibble_memory(&mem, MEM_SIZE as u64 - 1), (0, 0, false));
    assert_eq!(nibble_memory(&mem, MEM_SIZE as u64), (0, 0, true));
    let align = [0xf2, 1, 2, 3, 4, 5, 6, 7, 8];
    assert_eq!(align_split(true, &align), (0xf, 0x2, 0x0807060504030201));
    assert_eq!(align_split(false, &align), (0xf, 0xf, 0x07060504030201f2));
    assert_eq!(pc_increment(false, false, 0x10), 0x11);
    assert_eq!(pc_increment(false, true, 0x10), 0x12);
    assert_eq!(pc_increment(true, false, 0x10), 0x19);
    assert_eq!(pc_increment(true, true, 0x10), 0x1a);
    assert_eq!(pc_increment(true, true, u64::MAX), 9);
}

#[test]
fn register_files() {
    let mut regs = [0u64; 16];
    register_write(&mut regs, 3, 30);
    register_write(&mut regs, reg_code::RNONE, 99);
    register_write(&mut regs, 16, 99);
    register_write(&mut regs, 255, 99);
    let mut expected = [0u64; 16];
    expected[3] = 30;
    assert_eq!(regs, expected);
    assert_eq!(register_read(&regs, 3), 30);
    assert_eq!(register_read(&regs, reg_code::RNONE), 0);
    assert_eq!(register_read(&regs, 200), 0);
    // The second port wins where both write the same register.
    register_file_write(&mut regs, 4, 4, 1, 2);
    assert_eq!(regs[4], 2);
    assert_eq!(register_file_read(&regs, 3, 4), (30, 2));
    // The read half shows what the registers held before a write of the
    // same cycle; the register file of the pipeline shows what is written.
    let before = regs;
    let read = register_file_read(&regs, 3, reg_code::RNONE);
    register_file_write(&mut regs, 3, reg_code::RNONE, 31, 0);
    assert_eq!(read, (30, 0));
    assert_eq!(register_file_read(&regs, 3, reg_code::RNONE), (31, 0));
    let mut piped = before;
    assert_eq!(register_file(&mut piped, 3, 4, 3, reg_code::RNONE, 31, 0), (31, 2));
    assert_eq!(piped, regs);
    let mut same = before;
    assert_eq!(register_file(&mut same, 3, 4, reg_code::RNONE, reg_code::RNONE, 31, 32), (30, 2));
    assert_eq!(same, before);
}

#[test]
fn condition_code_register_and_data_memory() {
    let mut cc = ConditionCode::default();
    assert_eq!(register_cc(&mut cc, false, 0, 0, 0, op_code::ADD), ConditionCode::default());
    let set = register_cc(&mut cc, true, 0, 0, 0, op_code::ADD);
    assert_eq!(set, ConditionCode { sf: false, of: false, zf: true });
    assert_eq!(register_cc(&mut cc, false, 1, 1, 2, op_code::ADD), set);
    assert_eq!(cc, set);

    let mut mem = memory(&[]);
    assert_eq!(data_memory(&mut mem, 0x10, 0xabcd, false, true), (0, false));
    assert_eq!(data_memory(&mut mem, 0x10, 0, true, false), (0xabcd, false));
    assert_eq!(data_memory(&mut mem, 0x10, 0, false, false), (0, false));
    // A write takes precedence.
    assert_eq!(data_memory(&mut mem, 0x10, 0x1234, true, true), (0, false));
    assert_eq!(mem.load(0x10), Some(0x1234));
    let last = MEM_SIZE as u64 - 8;
    assert_eq!(data_memory(&mut mem, last, 5, false, true), (0, false));
    assert_eq!(data_memory(&mut mem, last, 0, true, false), (5, false));
    let before = mem.read().clone();
    for addr in [last + 1, MEM_SIZE as u64, u64::MAX - 7, u64::MAX] {
        assert_eq!(data_memory(&mut mem, addr, 5, false, true), (0, true));
        assert_eq!(data_memory(&mut mem, addr, 5, true, false), (0, true));
        assert_eq!(data_memory(&mut mem, addr, 5, false, false), (0, true));
    }
    assert!(mem.read() == &before);
}

#[test]
fn units_by_kind() {
    let mut units = Units::init(memory(&[0x61, 0x23]));
    assert_eq!(units.registers(), (0..15u8).map(|c| (c, 0)).collect::<Vec<_>>());
    let out = units.run(UnitKind::InstructionMemory, &vec![Value::U64(0)]);
    assert_eq!(
        out,
        vec![
            Value::Bool(false),
            Value::U8(6),
            Value::U8(1),
            Value::Align([0x23, 0, 0, 0, 0, 0, 0, 0, 0]),
        ]
    );
    let out = units.run(UnitKind::Align, &vec![Value::Bool(true), out[3]]);
    assert_eq!(out, vec![Value::U8(2), Value::U8(3), Value::U64(0)]);
    let out = units.run(UnitKind::Alu, &vec![Value::U64(2), Value::U64(5), Value::U8(1)]);
    assert_eq!(out, vec![Value::U64(3)]);
    // A missing input is false, which is the number 0; a byte is a number.
    assert_eq!(units.run(UnitKind::Alu, &vec![Value::U8(2)]), vec![Value::U64(2)]);
    let write = vec![Value::U8(2), Value::U8(15), Value::U64(22), Value::U64(0)];
    assert_eq!(units.run(UnitKind::RegisterFileWrite, &write), vec![]);
    let read = units.run(UnitKind::RegisterFileRead, &vec![Value::U8(2), Value::U8(15)]);
    assert_eq!(read, vec![Value::U64(22), Value::U64(0)]);
    let both = vec![
        Value::U8(2),
        Value::U8(3),
        Value::U8(15),
        Value::U8(3),
        Value::U64(0),
        Value::U64(33),
    ];
    assert_eq!(units.run(UnitKind::RegisterFile, &both), vec![Value::U64(22), Value::U64(33)]);
    assert_eq!(units.regs[3], 33);
    let set = vec![Value::Bool(true), Value::U64(1), Value::U64(1), Value::U64(0), Value::U8(1)];
    let cc = units.run(UnitKind::RegisterCc, &set);
    assert_eq!(cc, vec![Value::Cc(ConditionCode { sf: false, of: false, zf: true })]);
    let cnd = units.run(UnitKind::Condition, &vec![Value::U8(cond_fn::E), cc[0]]);
    assert_eq!(cnd, vec![Value::Bool(true)]);
    let store = vec![Value::U64(8), Value::U64(77), Value::Bool(false), Value::Bool(true)];
    assert_eq!(units.run(UnitKind::DataMemory, &store), vec![Value::U64(0), Value::Bool(false)]);
    let load = vec![Value::U64(8), Value::U64(0), Value::Bool(true), Value::Bool(false)];
    assert_eq!(units.run(UnitKind::DataMemory, &load), vec![Value::U64(77), Value::Bool(false)]);
    let pc = units.run(
        UnitKind::PcIncrement,
        &vec![Value::Bool(true), Value::Bool(false), Value::U64(4)],
    );
    assert_eq!(pc, vec![Value::U64(13)]);
    assert_eq!(
        units.run(UnitKind::NibbleMemory, &vec![Value::U64(1)]),
        vec![Value::U8(3), Value::U8(2), Value::Bool(false)]
    );
    for kind in [UnitKind::Alu, UnitKind::DataMemory, UnitKind::RegisterFileWrite] {
        let outs = units.run(kind, &vec![]);
        assert_eq!(outs.len(), kind.outputs().len());
        for (out, port) in outs.iter().zip(kind.outputs()) {
            assert_eq!(out.type_of(), port.ty);
        }
    }
    assert_eq!(UnitKind::RegisterCc.inputs().len(), 5);
    assert_eq!(UnitKind::RegisterCc.inputs()[4].name, "opfun");
}

#[test]
fn values() {
    assert_eq!(Value::default_of(SigType::Stat), Value::Stat(Stat::Aok));
    assert_eq!(Value::default_of(SigType::Align), Value::Align([0; 9]));
    assert!(Value::U8(1).is_true() && Value::U64(7).is_true() && Value::Bool(true).is_true());
    assert!(!Value::U8(0).is_true() && !Value::Stat(Stat::Hlt).is_true());
    assert_eq!(Value::Bool(true).as_u64(), 1);
    assert_eq!(Value::U64(0x1ff).as_u8(), 0xff);
    assert_eq!(Value::U64(0x1ff).coerce(SigType::U8), Value::U8(0xff));
    assert_eq!(Value::U8(3).coerce(SigType::U64), Value::U64(3));
    assert_eq!(Value::U8(3).coerce(SigType::Bool), Value::Bool(true));
    assert_eq!(Value::U8(3).coerce(SigType::U8), Value::U8(3));
    assert_eq!(Value::U8(3).coerce(SigType::Stat), Value::Stat(Stat::Aok));
    assert_eq!(Value::Stat(Stat::Hlt).coerce(SigType::U64), Value::U64(0));
    assert!(Value::U8(3).same(&Value::U8(3)));
    assert!(!Value::U8(3).same(&Value::U64(3)));
    assert!(Value::Align([1; 9]).same(&Value::Align([1; 9])));
    assert!(!Value::Align([1; 9]).same(&Value::Align([1, 1, 1, 1, 1, 1, 1, 1, 2])));
    assert_eq!(Value::Cc(ConditionCode::default()).as_cc(), ConditionCode::default());
    assert_eq!(Value::U8(1).as_stat(), Stat::Aok);
}

#[test]
fn stage_latch() {
    let stage = StageDecl::new("d").field("icode", Value::U8(1)).field("valc", Value::U64(0));
    assert_eq!(stage.fields.len(), 4);
    let row = |icode, valc, bubble, stall| {
        vec![Value::U8(icode), Value::U64(valc), Value::Bool(bubble), Value::Bool(stall)]
    };
    let prev = row(2, 20, false, false);
    assert_eq!(latch(&stage.fields, &prev, &row(3, 30, false, false)), Some(row(3, 30, false, false)));
    assert_eq!(latch(&stage.fields, &prev, &row(3, 30, true, false)), Some(row(1, 0, true, false)));
    assert_eq!(latch(&stage.fields, &prev, &row(3, 30, false, true)), Some(row(2, 20, false, true)));
    assert_eq!(latch(&stage.fields, &prev, &row(3, 30, true, true)), None);
}

fn all_instructions() -> Vec<Inst<u64>> {
    let mut all = vec![Inst::HALT, Inst::NOP, Inst::RET];
    for c in [CondFn::YES, CondFn::LE, CondFn::L, CondFn::E, CondFn::NE, CondFn::GE, CondFn::G] {
        all.push(Inst::CMOVX(c, Reg::RAX, Reg::R14));
        all.push(Inst::JX(c, 0x1122334455667788));
    }
    for op in [OpFn::ADD, OpFn::SUB, OpFn::AND, OpFn::XOR] {
        all.push(Inst::OPQ(op, Reg::RSP, Reg::RBP));
        all.push(Inst::IOPQ(op, u64::MAX, Reg::RSI));
    }
    all.push(Inst::IRMOVQ(Reg::RDI, 0xff00));
    all.push(Inst::RMMOVQ(Reg::R8, Addr(Some(8), Reg::R9)));
    all.push(Inst::MRMOVQ(Addr(Some(u64::MAX), Reg::R10), Reg::R11));
    all.push(Inst::CALL(0x100));
    all.push(Inst::PUSHQ(Reg::R12));
    all.push(Inst::POPQ(Reg::R13));
    all
}

#[test]
fn encoding_then_decoding_is_the_identity() {
    for inst in all_instructions() {
        let bytes = inst.encode();
        assert_eq!(bytes.len(), inst.len(), "{inst:?}");
        assert_eq!(bytes.len() as u64, length(inst.icode()));
        assert_eq!(bytes[0], inst.icode() << 4 | inst.to_fields().ifun);
        let mut image = vec![0xeeu8; 3];
        image.extend(&bytes);
        let decoded = decode(&image, 3).unwrap();
        assert_eq!(decoded, inst.to_fields(), "{inst:?}");
        assert_eq!(decoded.to_inst(), Some(inst.clone()), "{inst:?}");
        // The instruction is cut off.
        image.pop();
        assert_eq!(decode(&image, 3), None);
    }
    assert_eq!(decode(&vec![0x00], 1), None);
    assert_eq!(Inst::IRMOVQ(Reg::RBX, 0x12u64).encode(), vec![0x30, 0xf3, 0x12, 0, 0, 0, 0, 0, 0, 0]);
    assert_eq!(Inst::<u64>::PUSHQ(Reg::RDX).encode(), vec![0xa0, 0x2f]);
    assert_eq!(Inst::JX(CondFn::G, 0x0102u64).encode(), vec![0x76, 0x02, 0x01, 0, 0, 0, 0, 0, 0]);
    assert_eq!(Inst::IOPQ(OpFn::XOR, 1u64, Reg::RAX).encode(), vec![0xc3, 0xf0, 1, 0, 0, 0, 0, 0, 0, 0]);
    // A displacement that is left out is zero.
    let plain = Inst::RMMOVQ(Reg::RAX, Addr(None, Reg::RBX));
    assert_eq!(plain.encode(), Inst::RMMOVQ(Reg::RAX, Addr(Some(0), Reg::RBX)).encode());
    assert_eq!(
        plain.to_fields().to_inst(),
        Some(Inst::RMMOVQ(Reg::RAX, Addr(Some(0), Reg::RBX)))
    );
    // Fields that belong to no instruction.
    let none = |icode, ifun, ra, rb| Decoded { icode, ifun, ra, rb, valc: 0 }.to_inst();
    assert_eq!(none(0, 1, 15, 15), None);
    assert_eq!(none(2, 7, 0, 0), None);
    assert_eq!(none(6, 4, 0, 0), None);
    assert_eq!(none(3, 0, 0, 0), None);
    assert_eq!(none(0xa, 0, 0, 0), None);
    assert_eq!(none(0xd, 0, 15, 15), None);
    assert_eq!(Reg::from_code(16), None);
    assert_eq!(Reg::from_code(4), Some(Reg::RSP));
    assert_eq!(CondFn::from_code(6), Some(CondFn::G));
    assert_eq!(OpFn::from_code(4), None);
}

#[test]
fn no_register_behind_rnone() {
    // `irmovq $7` with `RNONE` as its register, then `halt`: the write is
    // discarded.
    let image = [0x30, 0xff, 0x07, 0, 0, 0, 0, 0, 0, 0, 0x00];
    let end = simulate(memory(&image), 3_000_000).unwrap();
    assert_eq!(end.regs, [0u64; 16]);
    assert_eq!((end.pc, end.n_insts), (10, 2));
    assert_eq!(end.bin.read()[..], memory(&image).read()[..]);
    // `irmovq $5, %rax`, then `rrmovq` from `RNONE` to `%rax`: what is read
    // is 0. Then `addq %rax` to `RNONE`: the flags are set, no register is.
    let image =
        [0x30, 0xf0, 0x05, 0, 0, 0, 0, 0, 0, 0, 0x20, 0xf0, 0x60, 0x0f, 0x00];
    let end = simulate(memory(&image), 100).unwrap();
    assert_eq!(end.regs, [0u64; 16]);
    assert!(end.cc.zf);
    // `pushq` of `RNONE` stores 0, and `popq` to `RNONE` only moves the
    // stack pointer.
    let image = [
        0x30, 0xf4, 0x00, 0x01, 0, 0, 0, 0, 0, 0, // irmovq $0x100, %rsp
        0x30, 0xf0, 0x09, 0, 0, 0, 0, 0, 0, 0, // irmovq $9, %rax
        0x40, 0x04, 0xf8, 0xff, 0xff, 0xff, 0xff, 0xff, 0xff, 0xff, // rmmovq %rax, -8(%rsp)
        0xa0, 0xff, // pushq RNONE
        0xb0, 0xff, // popq RNONE
        0x00,
    ];
    let end = simulate(memory(&image), 100).unwrap();
    assert_eq!(end.regs[4], 0x100);
    assert_eq!(end.regs[15], 0);
    assert_eq!(get_u64(&end.bin.read()[0xf8..]), 0);
}

#[test]
fn faults_of_the_reference_interpreter() {
    let run = |image: &[u8]| simulate(memory(image), 1000).map(|end| (end.pc, end.n_insts));
    assert_eq!(run(&[0x00]), Ok((0, 1)));
    assert_eq!(run(&[0x10, 0x10, 0x00]), Ok((2, 3)));
    assert_eq!(run(&[0x01]).err(), Some(IsaError::InvalidIfun { icode: 0, ifun: 1 }));
    assert_eq!(run(&[0x11]).err(), Some(IsaError::InvalidIfun { icode: 1, ifun: 1 }));
    assert_eq!(run(&[0x64, 0x01]).err(), Some(IsaError::InvalidIfun { icode: 6, ifun: 4 }));
    assert_eq!(run(&[0x30, 0x01]).err(), Some(IsaError::InvalidRegister(0)));
    assert_eq!(run(&[0xc0, 0x21]).err(), Some(IsaError::InvalidRegister(2)));
    assert_eq!(run(&[0xd0]).err(), Some(IsaError::UnknownIcode(0xd)));
    assert_eq!(run(&[0xf0]).err(), Some(IsaError::UnknownIcode(0xf)));
    // A jump to itself never halts.
    assert_eq!(run(&[0x70, 0, 0, 0, 0, 0, 0, 0, 0]).err(), Some(IsaError::StepLimit));
    // A jump out of the memory.
    assert_eq!(
        run(&[0x70, 0, 0, 0x10, 0, 0, 0, 0, 0]).err(),
        Some(IsaError::InvalidAddress(0x100000))
    );
    // A store through a register that holds 0, with a displacement of -1.
    let image = [0x40, 0x01, 0xff, 0xff, 0xff, 0xff, 0xff, 0xff, 0xff, 0xff];
    assert_eq!(run(&image).err(), Some(IsaError::InvalidAddress(u64::MAX)));
    // `ret` and `popq` with the stack pointer at the end of the memory.
    let sp_at_end = [0x30, 0xf4, 0xf9, 0xff, 0x0f, 0, 0, 0, 0, 0];
    for op in [0x90, 0xb0] {
        let mut image = sp_at_end.to_vec();
        image.extend([op, 0x0f]);
        assert_eq!(run(&image).err(), Some(IsaError::InvalidAddress(0xffff9)));
    }
    // `call` and `pushq` without a stack.
    assert_eq!(run(&[0xa0, 0x0f]).err(), Some(IsaError::InvalidAddress(NEG_8)));
    assert_eq!(
        run(&[0x80, 0, 0, 0, 0, 0, 0, 0, 0]).err(),
        Some(IsaError::InvalidAddress(NEG_8))
    );
    assert!(simulate(memory(&[0x00]), 0).is_err());
}

#[test]
fn one_step_of_the_reference_interpreter() {
    let mut state = simulate(memory(&[0x00]), 1).unwrap();
    assert_eq!(step(&mut state), Stepped::Halt);
    assert_eq!((state.pc, state.n_insts), (0, 1));
    state.bin.store(0, 0x2161).then_some(()).unwrap();
    state.regs[1] = 5;
    state.regs[2] = 3;
    // subq %rdx, %rcx
    assert_eq!(step(&mut state), Stepped::Next);
    assert_eq!((state.pc, state.regs[1], state.regs[2]), (2, 2, 3));
    assert_eq!(state.cc, ConditionCode { sf: false, of: false, zf: false });
    state.pc = MEM_SIZE as u64;
    let before = (state.regs, state.cc, state.pc);
    assert_eq!(step(&mut state), Stepped::Fault(IsaError::InvalidAddress(MEM_SIZE as u64)));
    assert_eq!((state.regs, state.cc, state.pc), before);
}

const PROGRAM: &str = "irmovq $1, %rax\nloop:\naddq %rax, %rbx\nnop\njmp loop\n# end\n";

#[test]
fn requests_of_the_debugger() {
    let mut session = DebugSession::new();
    let ok = |reply| Ok((reply, ServerStatus::ServeReq));
    assert_eq!(session.handle_request(Request::Threads), ok(Reply::Threads));
    assert_eq!(session.handle_request(Request::Other), Err(Refusal::NotImplemented));
    assert_eq!(
        session.handle_request(Request::SetBreakpoints { same_source: true, lines: vec![1] }),
        Err(Refusal::NotLaunched)
    );
    assert_eq!(
        session.handle_request(Request::Variables { variables_reference: 1 }),
        Err(Refusal::NotLaunched)
    );
    assert_eq!(
        session.handle_request(Request::StackTrace { thread_id: 1, start_frame: 0 }),
        Err(Refusal::NotLaunched)
    );
    assert_eq!(session.advance(RunProgKind::Run), Ok(None));
    assert!(matches!(session.launch("foo", "pipe_std"), Err(LaunchError::Assemble(_))));
    assert!(matches!(session.launch(PROGRAM, "pipe"), Err(LaunchError::Create(_))));
    assert!(session.program.is_none());
    assert_eq!(session.launch(PROGRAM, "pipe_std"), Ok(()));

    assert_eq!(
        session.handle_request(Request::SetBreakpoints { same_source: false, lines: vec![1] }),
        Err(Refusal::SourceMismatch)
    );
    // Line 2 holds a label, line 6 a comment, line 7 does not exist.
    let lines = vec![3, 2, 6, 7, 0, -1, 5];
    let expected = vec![
        Breakpoint { line: 3, addr: Some(10) },
        Breakpoint { line: 2, addr: None },
        Breakpoint { line: 6, addr: None },
        Breakpoint { line: 7, addr: None },
        Breakpoint { line: 0, addr: None },
        Breakpoint { line: -1, addr: None },
        Breakpoint { line: 5, addr: Some(13) },
    ];
    assert_eq!(
        session.handle_request(Request::SetBreakpoints { same_source: true, lines }),
        ok(Reply::SetBreakpoints(expected.clone()))
    );
    assert_eq!(session.breakpoints, expected);
    assert_eq!(
        session.handle_request(Request::SetExceptionBreakpoints { plain: true }),
        ok(Reply::SetExceptionBreakpoints)
    );
    assert_eq!(
        session.handle_request(Request::SetExceptionBreakpoints { plain: false }),
        Err(Refusal::FiltersNotSupported)
    );
    assert_eq!(
        session.handle_request(Request::StackTrace { thread_id: 2, start_frame: 0 }),
        Err(Refusal::InvalidThread)
    );
    assert_eq!(
        session.handle_request(Request::StackTrace { thread_id: 1, start_frame: 1 }),
        ok(Reply::StackTrace(None))
    );
    assert_eq!(session.handle_request(Request::Scopes { frame_id: 1 }), ok(Reply::Scopes));
    assert_eq!(session.handle_request(Request::Scopes { frame_id: 0 }), Err(Refusal::InvalidFrame));
    assert_eq!(
        session.handle_request(Request::Variables { variables_reference: 0 }),
        Err(Refusal::InvalidVariables)
    );
    assert_eq!(
        session.handle_request(Request::Next { thread_id: 0 }),
        Err(Refusal::InvalidThread)
    );
    assert_eq!(
        session.handle_request(Request::Continue { thread_id: 0 }),
        Err(Refusal::InvalidThread)
    );
    assert_eq!(
        session.handle_request(Request::ConfigurationDone),
        Ok((Reply::ConfigurationDone, ServerStatus::RunProg(RunProgKind::Run)))
    );
    assert_eq!(
        session.handle_request(Request::Next { thread_id: 1 }),
        Ok((Reply::Next, ServerStatus::RunProg(RunProgKind::SingleStep)))
    );
    assert_eq!(
        session.handle_request(Request::Continue { thread_id: 1 }),
        Ok((Reply::Continue, ServerStatus::RunProg(RunProgKind::Run)))
    );
    // A request changes the status only through the caller.
    assert_eq!(session.status, ServerStatus::ServeReq);
}

#[test]
fn running_under_the_debugger() {
    let mut session = DebugSession::new();
    session.launch(PROGRAM, "pipe_std").unwrap();
    let lines = vec![3];
    session.handle_request(Request::SetBreakpoints { same_source: true, lines }).unwrap();
    session.status = ServerStatus::RunProg(RunProgKind::Run);
    // The first cycle fetches line 1; the second fetches line 3, where the
    // breakpoint stands.
    assert_eq!(session.advance(RunProgKind::Run), Ok(None));
    assert_eq!(session.status, ServerStatus::RunProg(RunProgKind::Run));
    let stop = Stop { reason: StopReason::Breakpoint, pc: 10, cycle_count: 2, breakpoint: Some(10) };
    assert_eq!(session.advance(RunProgKind::Run), Ok(Some(stop)));
    assert_eq!(session.status, ServerStatus::ServeReq);
    assert_eq!(
        session.handle_request(Request::StackTrace { thread_id: 1, start_frame: 0 }),
        Ok((Reply::StackTrace(Some(3)), ServerStatus::ServeReq))
    );
    // A single step stops after one cycle.
    let stop = Stop { reason: StopReason::Step, pc: 12, cycle_count: 3, breakpoint: None };
    assert_eq!(session.advance(RunProgKind::SingleStep), Ok(Some(stop)));
    // The program loops: the breakpoint is hit again and again.
    let mut hits = 0;
    for _ in 0..60 {
        if let Some(stop) = session.advance(RunProgKind::Run).unwrap() {
            assert_eq!((stop.reason, stop.pc), (StopReason::Breakpoint, 10));
            hits += 1;
        }
    }
    assert!(hits >= 10);
    let Ok((Reply::Variables(vars), _)) =
        session.handle_request(Request::Variables { variables_reference: 1 })
    else {
        panic!("no variables")
    };
    assert_eq!(vars.len(), 16);
    assert_eq!(vars[15], ("RNONE".to_string(), "0x0".to_string()));
    assert_eq!(vars[0], ("RAX".to_string(), "0x1".to_string()));
    assert_eq!(vars[3].0, "RBX");
    assert_ne!(vars[3].1, "0x0");
    assert_eq!(vars[14], ("R14".to_string(), "0x0".to_string()));
}

#[test]
fn pause_at_the_end_of_the_program() {
    let mut session = DebugSession::new();
    session.launch("    nop\n    halt\n", "seq_std").unwrap();
    session.status = ServerStatus::RunProg(RunProgKind::Run);
    assert_eq!(session.advance(RunProgKind::Run), Ok(None));
    assert_eq!(session.advance(RunProgKind::Run), Ok(None));
    let stop = Stop { reason: StopReason::Pause, pc: 1, cycle_count: 2, breakpoint: None };
    assert_eq!(session.advance(RunProgKind::Run), Ok(Some(stop)));
    assert_eq!(session.status, ServerStatus::ServeReq);
    // The text of the stop tells the status with which the program ended.
    assert_eq!(session.stop_text(stop), "pc = 0x1, cycle count = 2, status = hlt");
    assert_eq!(show_stop(stop, Some(Stat::Aok)), "pc = 0x1, cycle count = 2");
    assert_eq!(show_stop(stop, None), "pc = 0x1, cycle count = 2");
    let step = Stop { reason: StopReason::Step, pc: 0x1f, cycle_count: 120, breakpoint: None };
    assert_eq!(show_stop(step, Some(Stat::Adr)), "pc = 0x1f, cycle count = 120");
    assert_eq!(DebugSession::new().stop_text(step), "pc = 0x1f, cycle count = 120");
    assert_eq!(decimal_text(0), "0");
    assert_eq!(decimal_text(u64::MAX), "18446744073709551615");
    // A program that runs out of the memory ends with `adr`.
    let mut session = DebugSession::new();
    session.launch("    jmp 0x100000
", "pipe_std").unwrap();
    let mut stop = None;
    for _ in 0..20 {
        stop = session.advance(RunProgKind::Run).unwrap();
        if stop.is_some() {
            break;
        }
    }
    let stop = stop.unwrap();
    assert_eq!(stop.reason, StopReason::Pause);
    assert!(session.stop_text(stop).ends_with(", status = adr"));
    assert_eq!(session.advance(RunProgKind::SingleStep), Ok(Some(stop)));
}

#[test]
fn lines_and_breakpoints() {
    let source = y86_sim::assembler::assemble(PROGRAM, Default::default()).unwrap().source;
    assert_eq!(line_of_addr(&source, 0), 1);
    assert_eq!(line_of_addr(&source, 10), 3);
    assert_eq!(line_of_addr(&source, 13), 5);
    assert_eq!(line_of_addr(&source, 11), 0);
    assert_eq!(line_of_addr(&source, 22), 0);
    let breakpoints = vec![
        Breakpoint { line: 3, addr: None },
        Breakpoint { line: 0, addr: Some(0) },
        Breakpoint { line: 3, addr: Some(10) },
        Breakpoint { line: 3, addr: Some(11) },
    ];
    let stop = |reason, pc, breakpoint| Some(Stop { reason, pc, cycle_count: 9, breakpoint });
    assert_eq!(
        stop_after_cycle(&source, &breakpoints, RunProgKind::Run, 10, 9),
        stop(StopReason::Breakpoint, 10, Some(10))
    );
    assert_eq!(
        stop_after_cycle(&source, &breakpoints, RunProgKind::SingleStep, 10, 9),
        stop(StopReason::Breakpoint, 10, Some(10))
    );
    assert_eq!(stop_after_cycle(&source, &breakpoints, RunProgKind::Run, 12, 9), None);
    // An address that belongs to no line is at no breakpoint.
    assert_eq!(stop_after_cycle(&source, &breakpoints, RunProgKind::Run, 11, 9), None);
    assert_eq!(
        stop_after_cycle(&source, &breakpoints, RunProgKind::SingleStep, 11, 9),
        stop(StopReason::Step, 11, None)
    );
}

#[test]
fn words_that_differ() {
    let zeros = MemData::zeroed();
    assert_eq!(mem_diff(&zeros, &zeros), Vec::<usize>::new());
    assert_eq!(mem_last_word(&zeros), 0);
    let mut other = zeros.copy();
    other.write(0, 1);
    other.write(8 * 5 + 7, 2);
    other.write(8 * 5 + 2, 3);
    other.write(MEM_SIZE - 1, 4);
    assert_eq!(mem_diff(&zeros, &other), vec![0, 5, MEM_SIZE / 8 - 1]);
    assert_eq!(mem_diff(&other, &zeros), vec![0, 5, MEM_SIZE / 8 - 1]);
    assert_eq!(mem_last_word(&other), MEM_SIZE / 8 - 1);
    let mut third = zeros.copy();
    third.write(8 * 5 + 7, 2);
    assert_eq!(mem_last_word(&third), 5);
    assert_eq!(mem_diff(&third, &other), vec![0, 5, MEM_SIZE / 8 - 1]);
    third.write(8 * 5 + 2, 3);
    assert_eq!(mem_diff(&third, &other), vec![0, MEM_SIZE / 8 - 1]);
}

#[test]
fn texts_of_the_fields() {
    assert_eq!(field_text(&Value::Bool(true)), "true");
    assert_eq!(field_text(&Value::Bool(false)), "false");
    assert_eq!(field_text(&Value::U8(0)), "0x0");
    assert_eq!(field_text(&Value::U8(0xf)), "0xf");
    assert_eq!(field_text(&Value::U64(0xcba)), "0xcba");
    assert_eq!(field_text(&Value::U64(u64::MAX)), "0xffffffffffffffff");
    assert_eq!(field_text(&Value::Stat(Stat::Bub)), "bub");
    assert_eq!(field_text(&Value::Stat(Stat::Adr)), "adr");
    let cc = ConditionCode { sf: true, of: false, zf: true };
    assert_eq!(field_text(&Value::Cc(cc)), "sf true of false zf true");
    assert_eq!(
        field_text(&Value::Align([0x30, 0xf2, 1, 0, 0, 0, 0, 0, 0xab])),
        "30f2010000000000ab"
    );
    assert_eq!(show_bytes(&[0x0a, 0xff]), "0aff");
    assert_eq!(show_bytes(&[]), "");

    // The stages of the pipeline before the first cycle.
    let sim = y86_sim::architectures::create_sim("pipe_std", MemData::zeroed(), false).unwrap();
    let info = sim.stage_info();
    let names: Vec<&str> = info.iter().map(|s| s.name.as_str()).collect();
    assert_eq!(names, ["f", "d", "e", "m", "w"]);
    let d: Vec<(&str, &str)> =
        info[1].signals.iter().map(|(n, t)| (n.as_str(), t.as_str())).collect();
    assert_eq!(
        d,
        [
            ("stat", "bub"),
            ("icode", "0x1"),
            ("ifun", "0x0"),
            ("ra", "0xf"),
            ("rb", "0xf"),
            ("valc", "0x0"),
            ("valp", "0x0"),
            ("bubble", "false"),
            ("stall", "false"),
        ]
    );
}
