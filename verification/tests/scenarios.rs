use y86_sim::architectures::create_sim;
use y86_sim::assembler::{assemble_lines, lookup, ObjectExt, SourceLine, Statement};
use y86_sim::framework::sim::{CpuSim, PipeSim};
use y86_sim::framework::MEM_SIZE;
use y86_sim::isa::{simulate, Stat};
use y86_sim::object::{Addr, CondFn, Imm, Inst, OpFn, Reg};
use y86_sim::signal::Value;

fn inst(i: Inst<Imm>) -> SourceLine {
    SourceLine { statement: Some(Statement::Inst(i)), text: String::new() }
}

fn label(name: &str) -> SourceLine {
    SourceLine { statement: Some(Statement::Label(name.to_string())), text: String::new() }
}

fn directive(statement: Statement) -> SourceLine {
    SourceLine { statement: Some(statement), text: String::new() }
}

fn to(name: &str) -> Imm {
    Imm::Label(name.to_string())
}

/// Runs a program to its end and gives the simulator, with the number of
/// cycles in which each of the named signals was true.
fn run_counting(arch: &str, obj: &ObjectExt, watch: &[&str]) -> (PipeSim, Vec<u64>) {
    let mut sim = create_sim(arch, obj.obj.init_mem(), false).unwrap();
    let mut counts = vec![0u64; watch.len()];
    while !sim.is_terminate() {
        sim.step().unwrap();
        for (i, name) in watch.iter().enumerate() {
            if sim.signal(name) == Some(Value::Bool(true)) {
                counts[i] += 1;
            }
        }
        assert!(sim.cycle_count() < 100_000, "exceed maximum CPU cycle limit");
    }
    (sim, counts)
}

fn reg(sim: &PipeSim, r: Reg) -> u64 {
    let regs = sim.registers();
    assert_eq!(regs[r.code() as usize].0, r.code());
    regs[r.code() as usize].1
}

/// The status with which a program ended.
fn status(sim: &PipeSim) -> Stat {
    let stat = sim.signal("prog_stat").or(sim.signal("stat")).unwrap();
    stat.as_stat()
}

/// Checks an architecture against the reference interpreter.
fn agrees_with_reference(arch: &str, obj: &ObjectExt) {
    let answer = simulate(obj.obj.init_mem(), 3_000_000).unwrap();
    let (sim, _) = run_counting(arch, obj, &[]);
    for (code, value) in sim.registers() {
        assert_eq!(value, answer.regs[code as usize], "{arch}: register {code}");
    }
    assert!(sim.mem().read() == answer.bin.read(), "{arch}: memory mismatch");
}

const ARCHS: [&str; 3] = ["seq_std", "seq_plus_std", "pipe_std"];

fn rsum() -> ObjectExt {
    assemble_lines(vec![
        directive(Statement::Pos(0)),
        inst(Inst::IRMOVQ(Reg::RSP, to("stack"))),
        inst(Inst::IRMOVQ(Reg::RDI, to("ele1"))),
        inst(Inst::CALL(to("sum_list"))),
        inst(Inst::HALT),
        label("sum_list"),
        inst(Inst::PUSHQ(Reg::RBX)),
        inst(Inst::IRMOVQ(Reg::RAX, Imm::Num(0))),
        inst(Inst::CMOVX(CondFn::YES, Reg::RDI, Reg::RBX)),
        inst(Inst::OPQ(OpFn::AND, Reg::RDI, Reg::RBX)),
        inst(Inst::JX(CondFn::E, to("sum_list_ret"))),
        inst(Inst::MRMOVQ(Addr(None, Reg::RDI), Reg::RBX)),
        inst(Inst::OPQ(OpFn::ADD, Reg::RBX, Reg::RAX)),
        inst(Inst::MRMOVQ(Addr(Some(8), Reg::RDI), Reg::RDI)),
        inst(Inst::PUSHQ(Reg::RAX)),
        inst(Inst::CALL(to("sum_list"))),
        inst(Inst::POPQ(Reg::RBX)),
        inst(Inst::OPQ(OpFn::ADD, Reg::RBX, Reg::RAX)),
        label("sum_list_ret"),
        inst(Inst::POPQ(Reg::RBX)),
        inst(Inst::RET),
        directive(Statement::Align(8)),
        label("ele1"),
        directive(Statement::Quad(Imm::Num(0x00a))),
        directive(Statement::Quad(to("ele2"))),
        label("ele2"),
        directive(Statement::Quad(Imm::Num(0x0b0))),
        directive(Statement::Quad(to("ele3"))),
        label("ele3"),
        directive(Statement::Quad(Imm::Num(0xc00))),
        directive(Statement::Quad(Imm::Num(0))),
        directive(Statement::Pos(0x200)),
        label("stack"),
    ])
    .unwrap()
}

#[test]
fn recursive_sum_over_a_list() {
    let obj = rsum();
    let ele1 = lookup(&obj.obj.symbols, "ele1").unwrap() as usize;
    for arch in ARCHS {
        let (sim, _) = run_counting(arch, &obj, &[]);
        assert_eq!(reg(&sim, Reg::RAX), 0xcba, "{arch}");
        assert_eq!(status(&sim), Stat::Hlt, "{arch}");
        assert_eq!(sim.mem().read()[ele1], 0x0a, "{arch}");
        assert_eq!(sim.mem().read()[ele1], obj.obj.binary.read()[ele1], "{arch}");
        agrees_with_reference(arch, &obj);
    }
}

#[test]
fn test_hcl() {
    let obj = rsum();
    let mut pipe = create_sim("pipe_std", obj.obj.init_mem(), false).unwrap();
    while !pipe.is_terminate() {
        pipe.step().unwrap();
    }
    assert!(pipe.is_terminate());
}

#[test]
fn load_use_hazard() {
    let obj = assemble_lines(vec![
        inst(Inst::IRMOVQ(Reg::RDX, Imm::Num(0x5))),
        inst(Inst::IRMOVQ(Reg::RBX, to("addr"))),
        inst(Inst::RMMOVQ(Reg::RDX, Addr(None, Reg::RBX))),
        inst(Inst::MRMOVQ(Addr(None, Reg::RBX), Reg::RAX)),
        inst(Inst::OPQ(OpFn::ADD, Reg::RAX, Reg::RCX)),
        inst(Inst::HALT),
        directive(Statement::Pos(0x100)),
        label("addr"),
        directive(Statement::Quad(Imm::Num(0))),
    ])
    .unwrap();
    // The load is followed by its use: decode is stalled and a bubble is
    // put into execute for exactly one cycle.
    let (sim, counts) = run_counting("pipe_std", &obj, &["d_stall", "e_bubble", "f_stall"]);
    assert_eq!(reg(&sim, Reg::RCX), 0x5);
    assert_eq!(counts, vec![1, 1, 1]);
    for arch in ARCHS {
        agrees_with_reference(arch, &obj);
    }
}

fn branch(cond: CondFn) -> ObjectExt {
    assemble_lines(vec![
        inst(Inst::IRMOVQ(Reg::RAX, Imm::Num(1))),
        inst(Inst::IRMOVQ(Reg::RBX, Imm::Num(2))),
        inst(Inst::OPQ(OpFn::SUB, Reg::RAX, Reg::RBX)),
        inst(Inst::JX(cond, to("L"))),
        inst(Inst::IRMOVQ(Reg::RCX, Imm::Num(0x999))),
        label("L"),
        inst(Inst::HALT),
    ])
    .unwrap()
}

#[test]
fn taken_branch_skips_the_move() {
    let obj = branch(CondFn::NE);
    for arch in ARCHS {
        let (sim, _) = run_counting(arch, &obj, &[]);
        assert_eq!(reg(&sim, Reg::RCX), 0, "{arch}");
        assert_eq!(reg(&sim, Reg::RBX), 1, "{arch}");
        assert_eq!(status(&sim), Stat::Hlt, "{arch}");
        agrees_with_reference(arch, &obj);
    }
}

/// The status that a stage holds.
fn stage_stat(sim: &PipeSim, stage: &str) -> Stat {
    let info = sim.get_stage_info();
    let stage = info.iter().find(|s| s.name == stage).unwrap();
    stage.signals.iter().find(|(name, _)| name == "stat").unwrap().1.as_stat()
}

#[test]
fn mispredicted_branch() {
    // The jump is predicted as not taken and is taken: the two instructions
    // that were fetched behind it are squashed, by a bubble in decode and a
    // bubble in execute.
    let obj = branch(CondFn::NE);
    let (sim, counts) = run_counting("pipe_std", &obj, &["d_bubble", "e_bubble"]);
    assert_eq!(reg(&sim, Reg::RCX), 0);
    assert_eq!(counts, vec![1, 1]);
    assert_eq!(status(&sim), Stat::Hlt);

    // The two bubbles stand in D and E in the cycle after the one in which
    // the jump is resolved.
    let mut sim = create_sim("pipe_std", obj.obj.init_mem(), false).unwrap();
    while sim.signal("d_bubble") != Some(Value::Bool(true)) {
        sim.step().unwrap();
        assert!(!sim.is_terminate());
    }
    assert_eq!(sim.signal("e_bubble"), Some(Value::Bool(true)));
    assert_eq!(sim.signal("e_icode"), Some(Value::U8(7)));
    assert_eq!(sim.signal("e_cnd"), Some(Value::Bool(true)));
    // The move behind the jump is in D, and the `halt` behind it is being
    // fetched.
    assert_eq!(sim.signal("d_icode"), Some(Value::U8(3)));
    assert_eq!(sim.signal("f_icode"), Some(Value::U8(0)));
    // The stage registers have taken their state for the next cycle.
    assert_eq!(stage_stat(&sim, "d"), Stat::Bub);
    assert_eq!(stage_stat(&sim, "e"), Stat::Bub);
    // The fetch goes on at the target of the jump.
    sim.step().unwrap();
    assert_eq!(sim.program_counter(), lookup(&obj.obj.symbols, "L").unwrap());
    assert_eq!(sim.signal("d_bubble"), Some(Value::Bool(false)));
    assert_eq!(sim.signal("e_bubble"), Some(Value::Bool(false)));
}

#[test]
fn branch_that_is_not_taken() {
    // The prediction holds: nothing is squashed, and the move is made.
    let obj = branch(CondFn::E);
    let (sim, counts) = run_counting("pipe_std", &obj, &["d_bubble", "e_bubble"]);
    assert_eq!(reg(&sim, Reg::RCX), 0x999);
    assert_eq!(counts, vec![0, 0]);
    assert_eq!(status(&sim), Stat::Hlt);
    for arch in ARCHS {
        agrees_with_reference(arch, &obj);
    }
}

#[test]
fn ret_stalls_fetch() {
    let obj = assemble_lines(vec![
        inst(Inst::IRMOVQ(Reg::RSP, to("stack"))),
        inst(Inst::CALL(to("F"))),
        inst(Inst::HALT),
        label("F"),
        inst(Inst::RET),
        directive(Statement::Pos(0x100)),
        label("stack"),
    ])
    .unwrap();
    // Fetch is stalled for three cycles, while the `ret` passes through
    // decode, execute and memory; then the `halt` at the return address is
    // fetched.
    let mut sim = create_sim("pipe_std", obj.obj.init_mem(), false).unwrap();
    let mut stalls = Vec::new();
    let mut fetched = Vec::new();
    while !sim.is_terminate() {
        sim.step().unwrap();
        stalls.push(sim.signal("f_stall") == Some(Value::Bool(true)));
        fetched.push(sim.signal("f_icode").unwrap().as_u8());
    }
    let first = stalls.iter().position(|s| *s).unwrap();
    assert_eq!(stalls[first..first + 4], [true, true, true, false]);
    assert_eq!(fetched[first + 3], y86_sim::isa::inst_code::HALT);
    assert_eq!(sim.program_counter(), sim.signal("f_pc").unwrap().as_u64());
    assert_eq!(status(&sim), Stat::Hlt);
    assert_eq!(reg(&sim, Reg::RSP), 0x100);
    for arch in ARCHS {
        agrees_with_reference(arch, &obj);
    }
}

#[test]
fn call_without_a_stack_faults() {
    let obj = assemble_lines(vec![
        inst(Inst::CALL(to("F"))),
        inst(Inst::HALT),
        label("F"),
        inst(Inst::RET),
    ])
    .unwrap();
    for arch in ARCHS {
        let (sim, _) = run_counting(arch, &obj, &[]);
        assert_eq!(status(&sim), Stat::Adr, "{arch}");
        assert!(sim.mem().read() == obj.obj.binary.read(), "{arch}");
    }
}

#[test]
fn push_and_pop() {
    let obj = assemble_lines(vec![
        inst(Inst::IRMOVQ(Reg::RSP, to("stack"))),
        inst(Inst::IRMOVQ(Reg::RAX, Imm::Num(0x42))),
        inst(Inst::PUSHQ(Reg::RAX)),
        inst(Inst::POPQ(Reg::RBX)),
        inst(Inst::HALT),
        directive(Statement::Pos(0x100)),
        label("stack"),
    ])
    .unwrap();
    for arch in ARCHS {
        let (sim, _) = run_counting(arch, &obj, &[]);
        assert_eq!(reg(&sim, Reg::RBX), 0x42, "{arch}");
        assert_eq!(reg(&sim, Reg::RSP), 0x100, "{arch}");
        agrees_with_reference(arch, &obj);
    }
}

#[test]
fn conditional_move_not_taken() {
    let obj = assemble_lines(vec![
        inst(Inst::IRMOVQ(Reg::RAX, Imm::Num(1))),
        inst(Inst::IRMOVQ(Reg::RBX, Imm::Num(2))),
        inst(Inst::OPQ(OpFn::SUB, Reg::RAX, Reg::RBX)),
        inst(Inst::CMOVX(CondFn::E, Reg::RAX, Reg::RCX)),
        inst(Inst::HALT),
    ])
    .unwrap();
    for arch in ARCHS {
        let (sim, _) = run_counting(arch, &obj, &[]);
        assert_eq!(reg(&sim, Reg::RCX), 0, "{arch}");
        agrees_with_reference(arch, &obj);
    }
}

fn store_at(addr: u64) -> ObjectExt {
    assemble_lines(vec![
        inst(Inst::IRMOVQ(Reg::RAX, Imm::Num(0x1122334455667788))),
        inst(Inst::IRMOVQ(Reg::RBX, Imm::Num(addr as i64))),
        inst(Inst::RMMOVQ(Reg::RAX, Addr(None, Reg::RBX))),
        inst(Inst::HALT),
    ])
    .unwrap()
}

#[test]
fn store_to_the_last_eight_bytes() {
    let obj = store_at(MEM_SIZE as u64 - 8);
    for arch in ARCHS {
        let (sim, _) = run_counting(arch, &obj, &[]);
        assert_eq!(status(&sim), Stat::Hlt, "{arch}");
        assert_eq!(
            sim.mem().read()[MEM_SIZE - 8..],
            [0x88, 0x77, 0x66, 0x55, 0x44, 0x33, 0x22, 0x11],
            "{arch}"
        );
        agrees_with_reference(arch, &obj);
    }
}

#[test]
fn store_past_the_end_faults() {
    for addr in [MEM_SIZE as u64 - 7, MEM_SIZE as u64, u64::MAX - 3] {
        let obj = store_at(addr);
        for arch in ARCHS {
            let (sim, _) = run_counting(arch, &obj, &[]);
            assert_eq!(status(&sim), Stat::Adr, "{arch} at {addr:#x}");
            assert!(sim.mem().read() == obj.obj.binary.read(), "{arch} at {addr:#x}");
        }
        assert!(simulate(obj.obj.init_mem(), 100).is_err());
    }
}
