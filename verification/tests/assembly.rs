use y86_sim::architectures::{create_sim, pipe_invalid, unused_unit_in, CpuArch, CreateError};
use y86_sim::assembler::{
    assemble, assemble_lines, lookup, parse, AsmError, AssembleOption, SourceLine, Statement,
    Y86AsmParser,
};
use y86_sim::framework::sim::CpuSim;
use y86_sim::framework::MEM_SIZE;
use y86_sim::object::{Addr, CondFn, Imm, Inst, OpFn, Reg};
use y86_sim::tester::inst::Family;
use y86_sim::tester::{check_image, run_image, run_to_end, SimTester, TestError};
use y86_sim::utils::parse_literal;

pub const RSUM_YS: &str = r#"
# a recursive sum over a linked list
    .pos 0 # start position
    irmovq stack, %rsp
    irmovq ele1, %rdi
    call sum_list
    halt

sum_list: # %rdi = ls
    pushq %rbx
    irmovq $0, %rax

    rrmovq %rdi, %rbx
    andq %rdi, %rbx
    je sum_list_ret
    
    mrmovq (%rdi), %rbx
    addq %rbx, %rax
    mrmovq 8(%rdi), %rdi

    pushq %rax
    call sum_list
    popq %rbx
    addq %rbx, %rax

    # jmp sum_list_while_cond
sum_list_ret:

    popq %rbx
    ret

    .align 8
ele1:
    .quad 0x00a
    .quad ele2
ele2:
    .quad 0x0b0
    .quad ele3
ele3:
    .quad 0xc00
    .quad 0

    .pos 0x200
stack: # start of stack
"#;

fn parse_rsum() {
    let lines = Y86AsmParser::parse(RSUM_YS).unwrap();
    // iterate all lines
    for line in lines.iter().filter(|l| l.statement.is_some()) {
        println!("{:?}", line);
    }
    assert_eq!(lines.len(), RSUM_YS.lines().count());
    assert_eq!(lines.iter().filter(|l| l.statement.is_some()).count(), 33);
    assert_eq!(lines[2].statement, Some(Statement::Pos(0)));
    assert_eq!(lines[2].text, "    .pos 0 # start position");
    assert_eq!(
        lines[3].statement,
        Some(Statement::Inst(Inst::IRMOVQ(Reg::RSP, Imm::Label("stack".to_string()))))
    );
    assert_eq!(lines[8].statement, Some(Statement::Label("sum_list".to_string())));
    let load = lines.iter().find(|l| l.text.contains("mrmovq 8(%rdi)")).unwrap();
    assert_eq!(
        load.statement,
        Some(Statement::Inst(Inst::MRMOVQ(Addr(Some(8), Reg::RDI), Reg::RDI)))
    );
}

#[test]
fn asm_test_parser() {
    parse_rsum();
}

#[test]
fn mod_test_parser() {
    parse_rsum();
}

#[test]
fn parse_test_parser() {
    parse_rsum();
    assert_eq!(parse(RSUM_YS).unwrap().len(), Y86AsmParser::parse(RSUM_YS).unwrap().len());
}

#[test]
fn lib_test_assemble() {
    let r = assemble(RSUM_YS, AssembleOption::default()).unwrap();
    println!("{:?}", &r.source);
    println!("{}", r.to_yo());
    let text = r.to_yo();
    let lines: Vec<&str> = text.lines().collect();
    assert_eq!(lines[0], "                             | ");
    assert_eq!(lines[2], "0x0000:                      |     .pos 0 # start position");
    assert_eq!(lines[3], "0x0000: 30f40002000000000000 |     irmovq stack, %rsp");
    assert_eq!(lines[4], "0x000a: 30f76000000000000000 |     irmovq ele1, %rdi");
    assert_eq!(lines[5], "0x0014: 801e00000000000000   |     call sum_list");
    assert_eq!(lines[6], "0x001d: 00                   |     halt");
    assert_eq!(lines[8], "0x001e:                      | sum_list: # %rdi = ls");
    assert_eq!(lines[9], "0x001e: a03f                 |     pushq %rbx");
    assert!(lines.contains(&"0x0060: 0a00000000000000     |     .quad 0x00a"));
    assert!(lines.contains(&"0x0078: 8000000000000000     |     .quad ele3"));
    assert!(lines.contains(&"0x0200:                      | stack: # start of stack"));
    assert_eq!(lookup(&r.obj.symbols, "stack"), Some(0x200));
    assert_eq!(lookup(&r.obj.symbols, "ele3"), Some(0x80));
    assert_eq!(lookup(&r.obj.symbols, "nowhere"), None);
}

#[test]
fn text_and_statements_assemble_alike() {
    let from_text = assemble(
        "irmovq $-1, %rax\nL: rmmovq %rax, 0x10(%rbx)\n",
        AssembleOption::default().set_verbose(true),
    );
    // A label shares no line with an instruction.
    assert_eq!(from_text.err(), Some(AsmError::Syntax(1)));
    let from_text =
        assemble("irmovq $-1, %rax\nL:\nrmmovq %rax, 0x10(%rbx)\njne L\n", AssembleOption::default())
            .unwrap();
    let line = |statement| SourceLine { statement: Some(statement), text: String::new() };
    let from_statements = assemble_lines(vec![
        line(Statement::Inst(Inst::IRMOVQ(Reg::RAX, Imm::Num(-1)))),
        line(Statement::Label("L".to_string())),
        line(Statement::Inst(Inst::RMMOVQ(Reg::RAX, Addr(Some(0x10), Reg::RBX)))),
        line(Statement::Inst(Inst::JX(CondFn::NE, Imm::Label("L".to_string())))),
    ])
    .unwrap();
    assert!(from_text.obj.binary.read() == from_statements.obj.binary.read());
    assert_eq!(
        from_text.obj.binary.read()[..29],
        [
            0x30, 0xf0, 0xff, 0xff, 0xff, 0xff, 0xff, 0xff, 0xff, 0xff, // irmovq
            0x40, 0x03, 0x10, 0, 0, 0, 0, 0, 0, 0, // rmmovq
            0x74, 0x0a, 0, 0, 0, 0, 0, 0, 0, // jne
        ]
    );
    assert_eq!(from_text.source[2].addr, Some(10));
    assert_eq!(from_text.obj.binary.read().len(), MEM_SIZE);
}

#[test]
fn errors_of_the_assembler() {
    let failure = |src: &str| assemble(src, AssembleOption::default()).err();
    assert_eq!(failure("halt\nfoo %rax\n"), Some(AsmError::Syntax(1)));
    assert_eq!(failure("irmovq $1, %r15\n"), Some(AsmError::Syntax(0)));
    assert_eq!(failure("# caf\u{e9}\nhalt\n"), Some(AsmError::NotAscii));
    assert_eq!(failure("jmp nowhere\n"), Some(AsmError::UnknownLabel("nowhere".to_string())));
    assert_eq!(failure(".quad nowhere\n"), Some(AsmError::UnknownLabel("nowhere".to_string())));
    assert_eq!(failure("a:\nnop\na:\n"), Some(AsmError::DuplicateLabel("a".to_string())));
    assert_eq!(failure(".align 3\n"), Some(AsmError::BadAlignment(3)));
    assert_eq!(failure(".align 0\n"), Some(AsmError::BadAlignment(0)));
    assert_eq!(failure(".pos 0xfffff\nnop\nnop\n"), Some(AsmError::OutOfMemory(0x100000)));
    assert_eq!(failure(".pos 0xffffffffffffffff\nirmovq $1, %rax\nnop\n"), Some(AsmError::OutOfMemory(u64::MAX)));
    assert_eq!(failure(".pos 1\n.align 8\nx:\n.pos 17\n.align 16\ny:"), None);
    let obj = assemble(".pos 1\n.align 8\nx:\n.pos 17\n.align 16\ny:", AssembleOption::default()).unwrap();
    assert_eq!(lookup(&obj.obj.symbols, "x"), Some(8));
    assert_eq!(lookup(&obj.obj.symbols, "y"), Some(32));
}

#[test]
fn numeric_literals() {
    assert_eq!(parse_literal("0"), Some(0));
    assert_eq!(parse_literal("42"), Some(42));
    assert_eq!(parse_literal("+42"), Some(42));
    assert_eq!(parse_literal("-8"), Some(0xffff_ffff_ffff_fff8));
    assert_eq!(parse_literal("8-"), Some(0xffff_ffff_ffff_fff8));
    assert_eq!(parse_literal("-8-"), Some(8));
    assert_eq!(parse_literal("0x10"), Some(16));
    assert_eq!(parse_literal("0xFf"), Some(255));
    assert_eq!(parse_literal("0x10-"), Some(0xffff_ffff_ffff_fff0));
    assert_eq!(parse_literal("0xffffffffffffffff"), Some(u64::MAX));
    assert_eq!(parse_literal("0x10000000000000000"), None);
    assert_eq!(parse_literal("9223372036854775807"), Some(i64::MAX as u64));
    assert_eq!(parse_literal("-9223372036854775808"), Some(1 << 63));
    assert_eq!(parse_literal("9223372036854775808"), None);
    assert_eq!(parse_literal(""), None);
    assert_eq!(parse_literal("-"), None);
    assert_eq!(parse_literal("0x"), None);
    assert_eq!(parse_literal("12a"), None);
    assert_eq!(parse_literal("\u{663}"), None);
}

#[allow(non_upper_case_globals)]
const vals: [i64; 3] = [0x100, 0x020, 0x004];

fn fill(source: &str, args: &[(&str, String)]) -> String {
    let mut text = source.to_string();
    for (name, value) in args {
        text = text.replace(&format!("{{{name}}}"), value);
    }
    text
}

#[test]
fn test_reg_op() {
    let insts = ["rrmovq", "addq", "subq", "andq", "xorq"];
    let regs = ["%rdx", "%rbx", "%rsp"];
    let source = r#"
        irmovq ${vala}, {ra}
        irmovq ${valb}, {rb}
        nop
        nop
        nop
        {inst} {ra}, {rb}
        nop
        nop
        halt
    "#;

    for inst in insts {
        for ra in regs {
            for rb in regs {
                let src = fill(
                    source,
                    &[
                        ("vala", vals[0].to_string()),
                        ("valb", vals[1].to_string()),
                        ("ra", ra.to_string()),
                        ("rb", rb.to_string()),
                        ("inst", inst.to_string()),
                    ],
                );
                let obj = assemble(&src, AssembleOption::default().set_verbose(false)).unwrap();
                for arch in ["seq_std", "seq_plus_std", "pipe_std"] {
                    let mut pipe = create_sim(arch, obj.obj.init_mem(), false).unwrap();
                    while !pipe.is_terminate() {
                        pipe.step().unwrap();
                    }
                    assert!(pipe.is_terminate(), "test failed: op-{inst}-{ra}-{rb}");
                }
            }
        }
    }
}

fn reg_of(name: &str) -> Reg {
    match name {
        "%rdx" => Reg::RDX,
        "%rbx" => Reg::RBX,
        "%rsp" => Reg::RSP,
        _ => unreachable!(),
    }
}

fn testers() -> Vec<SimTester> {
    ["seq_std", "seq_plus_std", "pipe_std"].iter().map(|a| SimTester::new(a).unwrap()).collect()
}

/// Runs a program on a tester, checks it against the reference, and gives
/// the value of a register.
fn result(tester: &SimTester, src: &str, reg: Reg) -> u64 {
    assert_eq!(tester.test_isa(src), Ok(()), "{}:\n{src}", tester.arch);
    let pipe = tester.simulate(src).unwrap();
    pipe.registers()[reg.code() as usize].1
}

#[test]
fn test_opq() {
    let insts = ["addq", "subq", "andq", "xorq"];
    let regs = ["%rdx", "%rbx", "%rsp"];
    let source = r#"
            irmovq ${vala}, {ra}
            irmovq ${valb}, {rb}
            nop
            nop
            nop
            nop
            nop
            {inst} {ra}, {rb}
            nop
            nop
            nop
            nop
            nop
            halt
        "#;

    fn eval(inst: &str, ra: &str, rb: &str) -> i64 {
        if ra != rb {
            match inst {
                "addq" => vals[1] + vals[0],
                "subq" => vals[1] - vals[0],
                "andq" => vals[1] & vals[0],
                "xorq" => vals[1] ^ vals[0],
                _ => unreachable!(),
            }
        } else {
            match inst {
                "addq" => vals[1] + vals[1],
                "subq" => vals[1] - vals[1],
                "andq" => vals[1] & vals[1],
                "xorq" => vals[1] ^ vals[1],
                _ => unreachable!(),
            }
        }
    }

    for tester in testers() {
        for inst in insts {
            for ra in regs {
                for rb in regs {
                    let src = fill(
                        source,
                        &[
                            ("vala", vals[0].to_string()),
                            ("valb", vals[1].to_string()),
                            ("ra", ra.to_string()),
                            ("rb", rb.to_string()),
                            ("inst", inst.to_string()),
                        ],
                    );
                    let answer = eval(inst, ra, rb) as u64;
                    let got = result(&tester, &src, reg_of(rb));
                    assert_eq!(got, answer, "test failed: opq-{inst}-{ra}-{rb}");
                }
            }
        }
    }
}

#[test]
fn test_iopq() {
    let insts = ["iaddq", "isubq", "iandq", "ixorq"];
    let source = r#"
            irmovq ${valb}, %rdx
            nop
            nop
            nop
            nop
            nop
            {inst} {vala}, %rdx
            nop
            nop
            nop
            nop
            nop
            halt
        "#;

    fn eval(inst: &str) -> i64 {
        match inst {
            "iaddq" => vals[1] + vals[0],
            "isubq" => vals[1] - vals[0],
            "iandq" => vals[1] & vals[0],
            "ixorq" => vals[1] ^ vals[0],
            _ => unreachable!(),
        }
    }

    // The built-in architectures do not implement the extension: the
    // reference interpreter does.
    for inst in insts {
        let src = fill(
            source,
            &[
                ("vala", vals[0].to_string()),
                ("valb", vals[1].to_string()),
                ("inst", inst.to_string()),
            ],
        );
        let obj = assemble(&src, AssembleOption::default()).unwrap();
        let answer = y86_sim::isa::simulate(obj.obj.init_mem(), 100).unwrap();
        assert_eq!(answer.regs[Reg::RDX.code() as usize], eval(inst) as u64, "iopq-{inst}");
        assert_eq!(answer.n_insts, 13);
        for tester in testers() {
            assert!(matches!(tester.test_isa(&src), Err(TestError::RegisterMismatch { .. })));
        }
    }
}

#[test]
fn test_cmov() {
    let insts = ["rrmovq", "cmovle", "cmovl", "cmove", "cmovne", "cmovge", "cmovg"];

    let source = r#"
            irmovq ${vala}, %rdi
            irmovq ${valb}, %rsi
            xorq %rdx, %rdx
            subq %rdi, %rsi
            {inst} %rdi, %rdx
            halt
        "#;

    fn eval(inst: &str, vala: i64, valb: i64) -> i64 {
        let taken = match inst {
            "rrmovq" => true,
            "cmovle" => valb <= vala,
            "cmovl" => valb < vala,
            "cmove" => valb == vala,
            "cmovne" => valb != vala,
            "cmovge" => valb >= vala,
            "cmovg" => valb > vala,
            _ => unreachable!(),
        };
        if taken {
            vala
        } else {
            0
        }
    }

    for tester in testers() {
        for inst in insts {
            for valb in vals {
                let src = fill(
                    source,
                    &[
                        ("vala", vals[1].to_string()),
                        ("valb", valb.to_string()),
                        ("inst", inst.to_string()),
                    ],
                );
                let answer = eval(inst, vals[1], valb) as u64;
                let got = result(&tester, &src, Reg::RDX);
                assert_eq!(got, answer, "test failed: cmov-{inst}");
            }
        }
    }
}

#[test]
fn test_jm() {
    let insts = ["jmp", "jle", "jl", "je", "jne", "jge", "jg"];

    let source = r#"
            irmovq ${vala}, %rdi
            irmovq ${valb}, %rsi
            xorq %rdx, %rdx
            subq %rdi, %rsi
            {inst} L1
            rrmovq %rdi, %rdx
        L1:
            halt
        "#;

    fn eval(inst: &str, vala: i64, valb: i64) -> i64 {
        let taken = match inst {
            "jmp" => true,
            "jle" => valb <= vala,
            "jl" => valb < vala,
            "je" => valb == vala,
            "jne" => valb != vala,
            "jge" => valb >= vala,
            "jg" => valb > vala,
            _ => unreachable!(),
        };
        if taken {
            0
        } else {
            vala
        }
    }

    for tester in testers() {
        for inst in insts {
            for valb in vals {
                let src = fill(
                    source,
                    &[
                        ("vala", vals[1].to_string()),
                        ("valb", valb.to_string()),
                        ("inst", inst.to_string()),
                    ],
                );
                let answer = eval(inst, vals[1], valb) as u64;
                let got = result(&tester, &src, Reg::RDX);
                assert_eq!(got, answer, "test failed: jm-{inst}");
            }
        }
    }
}

#[test]
fn tester_knows_the_architectures() {
    assert!(SimTester::new("pipe_std").is_some());
    assert!(SimTester::new("pipe_stupid").is_some());
    assert!(SimTester::new("pipe_invalid").is_none());
    assert!(SimTester::new("").is_none());
    let tester = SimTester::new("seq_std").unwrap();
    assert_eq!(tester.test_isa("foo"), Err(TestError::Assemble(AsmError::Syntax(0))));
    assert_eq!(
        tester.test_isa("L: jmp L"),
        Err(TestError::Assemble(AsmError::Syntax(0)))
    );
    assert!(matches!(tester.test_isa("L:\n jmp L"), Err(TestError::Reference(_))));
    assert_eq!(tester.simulate("L:\n jmp L").err(), Some(TestError::CycleLimit));
    assert_eq!(tester.test_isa(RSUM_YS), Ok(()));
    assert_eq!(
        tester.simulate(RSUM_YS).unwrap().registers()[OpFn::ADD.code() as usize],
        (0, 0xcba)
    );
}

#[test]
#[should_panic]
fn unused_unit_in_test_invalid() {
    unused_unit_in::Arch::build_circuit().unwrap();
}

#[test]
#[should_panic]
fn pipe_invalid_test_invalid() {
    pipe_invalid::Arch::build_circuit().unwrap();
}

#[test]
fn checks_of_single_instructions() {
    // The checks of a family, by position.
    let case = Family::Opq.case(0).unwrap();
    assert_eq!(case.name, "opq-addq-%rdx-%rdx");
    assert_eq!(
        case.source,
        "irmovq $256, %rdx\nirmovq $32, %rdx\nnop\nnop\nnop\nnop\nnop\n\
         addq %rdx, %rdx\nnop\nnop\nnop\nnop\nnop\nhalt\n"
    );
    assert_eq!((case.reg, case.expected), (Reg::RDX.code(), 0x40));
    let case = Family::Opq.case(9 + 3 + 2).unwrap();
    assert_eq!(case.name, "opq-subq-%rbx-%rsp");
    assert_eq!((case.reg, case.expected), (Reg::RSP.code(), (0x20 - 0x100i64) as u64));
    let case = Family::Opq.case(35).unwrap();
    assert_eq!(case.name, "opq-xorq-%rsp-%rsp");
    assert_eq!(case.expected, 0);
    let case = Family::Iopq.case(2).unwrap();
    assert_eq!(case.name, "iopq-iandq");
    assert_eq!(case.expected, 0x100 & 0x20);
    // `cmovl` with 4 compared with 32: the move is made.
    let case = Family::Cmov.case(2 * 3 + 2).unwrap();
    assert_eq!(case.name, "cmov-cmovl");
    assert_eq!(
        case.source,
        "irmovq $32, %rdi\nirmovq $4, %rsi\nxorq %rdx, %rdx\nsubq %rdi, %rsi\n\
         cmovl %rdi, %rdx\nhalt\n"
    );
    assert_eq!(case.expected, 0x20);
    // `jg` with 32 compared with 32: the jump is not made, the move is.
    let case = Family::Jm.case(6 * 3 + 1).unwrap();
    assert_eq!(case.name, "jm-jg");
    assert_eq!(case.expected, 0x20);
    assert_eq!(
        [Family::Opq.count(), Family::Iopq.count(), Family::Cmov.count(), Family::Jm.count()],
        [36, 4, 21, 21]
    );

    for tester in testers() {
        assert_eq!(tester.test_opq(), Ok(()), "{}", tester.arch);
        assert_eq!(tester.test_cmov(), Ok(()), "{}", tester.arch);
        assert_eq!(tester.test_jm(), Ok(()), "{}", tester.arch);
        // The built-in architectures do not implement the operations on a
        // constant: the register keeps what it was loaded with.
        match tester.test_iopq() {
            Err(TestError::WrongResult { name, expected, found, .. }) => {
                assert_eq!((name.as_str(), expected, found), ("iopq-iaddq", 0x120, 0x20));
            }
            other => panic!("{other:?}"),
        }
        // The checks from a later position on.
        assert_eq!(tester.check_from(Family::Jm, 20), Ok(()));
        assert_eq!(tester.check_from(Family::Jm, 21), Ok(()));
    }
    // The byte scanner is no processor of the instruction set.
    let scanner = SimTester::new("pipe_stupid").unwrap();
    assert!(matches!(scanner.test_opq(), Err(TestError::WrongResult { .. })));
}

#[test]
fn runs_of_an_image() {
    let obj = assemble("irmovq $7, %rax\nhalt\n", AssembleOption::default()).unwrap();
    assert_eq!(check_image("seq_std", &obj.obj), Ok(()));
    assert_eq!(check_image("pipe_std", &obj.obj), Ok(()));
    let sim = run_image("pipe_std", obj.obj.init_mem()).unwrap();
    assert!(sim.is_terminate());
    assert_eq!(sim.registers()[0], (0, 7));
    assert!(matches!(
        run_image("nothing", obj.obj.init_mem()),
        Err(TestError::Create(CreateError::UnknownArchitecture(name))) if name == "nothing"
    ));
    // A jump to itself never ends.
    let obj = assemble("loop:\njmp loop\n", AssembleOption::default()).unwrap();
    assert!(matches!(check_image("seq_std", &obj.obj), Err(TestError::Reference(_))));
    // A simulator that has ended is left as it is.
    let mut sim = sim;
    let cycles = sim.cycle_count();
    assert_eq!(run_to_end(&mut sim), Ok(()));
    assert_eq!(sim.cycle_count(), cycles);
}
