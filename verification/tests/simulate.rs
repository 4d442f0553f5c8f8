use y86_sim::architectures::{arch_names, create_sim};
use y86_sim::assembler::{assemble_lines, SourceLine, Statement};
use y86_sim::framework::sim::CpuSim;
use y86_sim::framework::MemData;
use y86_sim::object::{Imm, Inst, OpFn, Reg};

fn line(statement: Statement) -> SourceLine {
    SourceLine { statement: Some(statement), text: String::new() }
}

fn inst(i: Inst<Imm>) -> SourceLine {
    line(Statement::Inst(i))
}

fn run(arch: &str, lines: Vec<SourceLine>) -> Vec<(u8, u64)> {
    let obj = assemble_lines(lines).unwrap();
    let mut sim = create_sim(arch, obj.obj.init_mem(), false).unwrap();
    while !sim.is_terminate() {
        sim.step().unwrap();
        assert!(sim.cycle_count() < 100_000, "exceed maximum CPU cycle limit");
    }
    sim.registers()
}

#[test]
fn stupid_stops_at_the_first_zero_byte() {
    let mut image = vec![0x10u8, 0x20, 0x30, 0x00];
    image.resize(16, 0x10);
    let mem = MemData::from_image(&image).unwrap();
    let mut sim = create_sim("pipe_stupid", mem, false).unwrap();
    while !sim.is_terminate() {
        sim.step().unwrap();
    }
    assert_eq!(sim.program_counter(), 3);
    assert_eq!(sim.cycle_count(), 4);
}

#[test]
fn add_on_every_architecture() {
    for arch in ["seq_std", "seq_plus_std", "pipe_std"] {
        let regs = run(
            arch,
            vec![
                inst(Inst::IRMOVQ(Reg::RDX, Imm::Num(0x100))),
                inst(Inst::IRMOVQ(Reg::RBX, Imm::Num(0x020))),
                inst(Inst::OPQ(OpFn::ADD, Reg::RDX, Reg::RBX)),
                inst(Inst::HALT),
            ],
        );
        assert_eq!(regs[Reg::RBX.code() as usize], (3, 0x120), "{arch}");
        assert_eq!(regs[Reg::RDX.code() as usize], (2, 0x100), "{arch}");
    }
}

#[test]
fn names_of_architectures() {
    assert_eq!(arch_names(), vec!["seq_std", "seq_plus_std", "pipe_std", "pipe_stupid"]);
}
