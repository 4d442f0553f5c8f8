use y86_sim::architectures::{hardware_stupid, pipe_std, pipe_stupid, seq_plus_std, seq_std};
use y86_sim::framework::propagate::BuildError;
use y86_sim::framework::schema::Slot;
use y86_sim::framework::sim::{CpuSim, PipeSim};
use y86_sim::framework::MemData;
use y86_sim::hcl::lexer::split;
use y86_sim::hcl::{Expr, HclData, HclError, SignalSource};
use y86_sim::signal::{SigType, Value};

const HEAD: &str = "#![hardware = hardware_stupid]
#![program_counter = pc]
#![termination = term]
#![stage_alias(F => f)]
";

fn read(body: &str) -> Result<HclData, HclError> {
    HclData::parse(&format!("{HEAD}{body}"), hardware_stupid::hardware())
}

fn words<'a>(text: &'a str) -> Vec<&'a str> {
    split(text.as_bytes()).iter().map(|(from, to)| &text[*from..*to]).collect()
}

#[test]
fn tokens_of_a_description() {
    assert_eq!(words("u64 pc = F.pc -> imem.pc;"), ["u64", "pc", "=", "F.pc", "->", "imem.pc", ";"]);
    assert_eq!(words("a==b&&!c||d!=0x1f"), ["a", "==", "b", "&&", "!", "c", "||", "d", "!=", "0x1f"]);
    assert_eq!(words("#![x(A => b)]"), ["#", "!", "[", "x", "(", "A", "=>", "b", ")", "]"]);
    assert_eq!(words("[u8; 9] a // the rest\n= b;"), ["[", "u8", ";", "9", "]", "a", "=", "b", ";"]);
    assert_eq!(words(":=====: Fetch Stage :=====:\nbool t = 1 : 2"), ["bool", "t", "=", "1", ":", "2"]);
    assert_eq!(words("a in {B,\tC}\r\n"), ["a", "in", "{", "B", ",", "C", "}"]);
    assert_eq!(words("x / y"), ["x", "/", "y"]);
    assert_eq!(words(""), Vec::<&str>::new());
    assert_eq!(words("  // only a remark"), Vec::<&str>::new());
}

#[test]
fn a_description_is_read_from_its_text() {
    let hcl = read(
        "u64 pc = F.pc -> imem.pc;
         u8 icode = [ imem.higher == 0 : NOP; 1 : imem.higher; ];
         u64 one = 1 -> (alu.a, #[tunnel(wire)] alu.b);
         u8 fun = ADD -> alu.fun;
         u64 sum = #[tunnel(adder)] alu.e -> f.pc;
         bool term = icode in { HALT, 0x1 } || !(one != 1) && pc == 8;",
    )
    .unwrap();
    assert_eq!(hcl.program_counter, "pc");
    assert_eq!(hcl.termination, "term");
    assert_eq!(hcl.stage_alias.0, vec![("f".to_string(), "F".to_string())]);
    assert!(hcl.unresolved.is_empty());
    let names: Vec<&str> = hcl.intermediate_signals.iter().map(|s| s.name.as_str()).collect();
    assert_eq!(names, ["pc", "icode", "one", "fun", "sum", "term"]);
    let types: Vec<SigType> = hcl.intermediate_signals.iter().map(|s| s.typ).collect();
    assert_eq!(
        types,
        [SigType::U64, SigType::U8, SigType::U64, SigType::U8, SigType::U64, SigType::Bool]
    );

    // The first signal reads the stage as the cycle found it and drives the
    // memory.
    let pc = &hcl.intermediate_signals[0];
    match &pc.source {
        SignalSource::Expr(e) => {
            assert!(e.tunnel.is_none());
            assert!(matches!(e.expr, Expr::Ref(Slot::Prev(0, 0))));
        }
        _ => panic!("an expression was expected"),
    }
    assert_eq!(pc.destinations.len(), 1);
    assert!(matches!(pc.destinations[0].dest, Slot::UnitIn(0, 0)));

    // A case table keeps the order of its cases.
    match &hcl.intermediate_signals[1].source {
        SignalSource::Switch(cases) => {
            assert_eq!(cases.0.len(), 2);
            assert!(matches!(cases.0[0].value, Expr::Const(Value::U8(1))));
            assert!(matches!(cases.0[1].condition, Expr::Const(Value::U64(1))));
            assert!(matches!(cases.0[1].value, Expr::Ref(Slot::UnitOut(0, 1))));
        }
        _ => panic!("a case table was expected"),
    }

    // Destinations in parentheses, the second with a tag.
    let one = &hcl.intermediate_signals[2];
    assert_eq!(one.destinations.len(), 2);
    assert!(matches!(one.destinations[0].dest, Slot::UnitIn(1, 0)));
    assert!(one.destinations[0].tunnel.is_none());
    assert!(matches!(one.destinations[1].dest, Slot::UnitIn(1, 1)));
    assert_eq!(one.destinations[1].tunnel.as_deref(), Some("wire"));

    // A tag on a source, and the field of the stage as the cycle drives it.
    let sum = &hcl.intermediate_signals[4];
    match &sum.source {
        SignalSource::Expr(e) => assert_eq!(e.tunnel.as_deref(), Some("adder")),
        _ => panic!("an expression was expected"),
    }
    assert!(matches!(sum.destinations[0].dest, Slot::Next(0, 0)));

    // `||` binds weaker than `&&`, which binds weaker than the comparisons.
    match &hcl.intermediate_signals[5].source {
        SignalSource::Expr(e) => match &e.expr {
            Expr::Or(left, right) => {
                match &**left {
                    Expr::In(a, list) => {
                        assert!(matches!(**a, Expr::Ref(Slot::Inter(1))));
                        assert_eq!(list.len(), 2);
                        assert!(matches!(list[0], Expr::Const(Value::U8(0))));
                        assert!(matches!(list[1], Expr::Const(Value::U64(1))));
                    }
                    _ => panic!("a membership was expected"),
                }
                match &**right {
                    Expr::And(not, eq) => {
                        match &**not {
                            Expr::Not(inner) => assert!(matches!(**inner, Expr::Ne(_, _))),
                            _ => panic!("a negation was expected"),
                        }
                        match &**eq {
                            Expr::Eq(a, b) => {
                                assert!(matches!(**a, Expr::Ref(Slot::Inter(0))));
                                assert!(matches!(**b, Expr::Const(Value::U64(8))));
                            }
                            _ => panic!("an equation was expected"),
                        }
                    }
                    _ => panic!("a conjunction was expected"),
                }
            }
            _ => panic!("a disjunction was expected"),
        },
        _ => panic!("an expression was expected"),
    }
}

#[test]
fn a_signal_may_be_used_before_its_definition() {
    let hcl = read(
        "bool term = later == 0;
         u64 pc = F.pc -> imem.pc;
         u8 later = imem.higher;",
    )
    .unwrap();
    match &hcl.intermediate_signals[0].source {
        SignalSource::Expr(e) => match &e.expr {
            Expr::Eq(a, _) => assert!(matches!(**a, Expr::Ref(Slot::Inter(2)))),
            _ => panic!("an equation was expected"),
        },
        _ => panic!("an expression was expected"),
    }
}

#[test]
fn errors_of_a_text() {
    // The statement that begins in the sixth line lacks its semicolon.
    assert_eq!(read("u64 pc = F.pc\n").err(), Some(HclError::Syntax(5)));
    assert_eq!(read("\nu64 pc = F.pc;\nu64 term = ;\n").err(), Some(HclError::Syntax(7)));
    assert_eq!(read("u64 pc = (F.pc;").err(), Some(HclError::Syntax(5)));
    assert_eq!(read("u64 pc = F.pc +;").err(), Some(HclError::Syntax(5)));
    assert_eq!(read("u32 pc = F.pc;").err(), Some(HclError::Syntax(5)));
    assert_eq!(read("u64 a.b = F.pc;").err(), Some(HclError::Syntax(5)));
    assert_eq!(read("u64 pc = [ 1 : 2 ; ").err(), Some(HclError::Syntax(5)));
    assert_eq!(read("u64 pc = #[tunnel] F.pc;").err(), Some(HclError::Syntax(5)));
    assert_eq!(read("#![stage_alias(A = b)]").err(), Some(HclError::Syntax(5)));
    assert_eq!(read("#![speed = high]").err(), Some(HclError::Syntax(5)));
    // Names that stand for nothing, by the line of their statement.
    assert_eq!(
        read("u64 pc = F.pc;\nbool term = other;").err(),
        Some(HclError::UnknownName(6))
    );
    assert_eq!(read("u64 pc = G.pc;").err(), Some(HclError::UnknownName(5)));
    assert_eq!(read("u64 pc = F.sp;").err(), Some(HclError::UnknownName(5)));
    assert_eq!(read("u64 pc = imem.middle;").err(), Some(HclError::UnknownName(5)));
    // What cannot be driven: an output, a field as the cycle found it.
    assert_eq!(read("u64 pc = 0 -> imem.higher;").err(), Some(HclError::UnknownName(5)));
    assert_eq!(read("u64 pc = 0 -> F.pc;").err(), Some(HclError::UnknownName(5)));
    assert_eq!(read("u64 pc = 0 -> other;").err(), Some(HclError::UnknownName(5)));
    // A text that is not ASCII.
    assert_eq!(read("// \u{e9}\n").err(), Some(HclError::NotAscii));
    // Missing attributes.
    let hw = hardware_stupid::hardware;
    assert_eq!(
        HclData::parse("#![termination = t] bool t = 1;", hw()).err(),
        Some(HclError::MissingProgramCounter)
    );
    assert_eq!(
        HclData::parse("#![program_counter = t] bool t = 1;", hw()).err(),
        Some(HclError::MissingTermination)
    );
    assert_eq!(HclData::parse("", hw()).err(), Some(HclError::MissingProgramCounter));
}

#[test]
fn errors_behind_the_text() {
    // The text is well formed; what it describes is no circuit.
    let hcl = read("u64 pc = F.pc -> imem.pc;\nbool term = pc == 0;").unwrap();
    assert_eq!(
        hcl.build().err(),
        Some(HclError::Build(BuildError::MissingInput("alu.a".to_string())))
    );
    let hcl = read("u64 pc = F.pc;\nu64 pc = 1;\nbool term = pc == 0;").unwrap();
    assert!(matches!(hcl.build().err(), Some(HclError::Build(BuildError::DuplicateName(_)))));
    let hcl = read("u64 pc = F.pc;").unwrap();
    assert_eq!(hcl.build().err(), Some(HclError::MissingTermination));
    // Two signals that drive each other depend on each other.
    let hcl = read(
        "u64 pc = F.pc -> (imem.pc, alu.a, alu.b);
         u8 fun = ADD -> alu.fun;
         bool term = pc == 0 -> done;
         bool done = 1 -> term;",
    )
    .unwrap();
    assert!(matches!(hcl.intermediate_signals[2].destinations[0].dest, Slot::Inter(3)));
    assert_eq!(hcl.build().err(), Some(HclError::Build(BuildError::NotDag)));
}

#[test]
fn numbers_compare_by_value() {
    // The code is a byte and the literal a word: they are equal where they
    // are the same number.
    let text = format!(
        "{HEAD}
        u64 pc = F.pc -> imem.pc;
        u8 icode = imem.higher;
        u64 alua = F.pc -> alu.a;
        u64 alub = 1 -> alu.b;
        u8 alufun = ADD -> alu.fun;
        u64 next_pc = alu.e -> f.pc;
        bool term = icode == 0;"
    );
    let arch = HclData::parse(&text, hardware_stupid::hardware()).unwrap().build().unwrap();
    let mut image = vec![0u8; 3];
    image[0] = 0x10;
    image[1] = 0x21;
    let mut sim = PipeSim::new(arch, MemData::from_image(&image).unwrap(), false);
    let mut cycles = 0;
    while !sim.is_terminate() {
        sim.step().unwrap();
        cycles += 1;
        assert!(cycles < 10);
    }
    assert_eq!(cycles, 3);
    assert_eq!(sim.program_counter(), 2);
}

#[test]
fn the_built_in_descriptions_are_well_formed() {
    for (name, hcl) in [
        ("seq_std", seq_std::description()),
        ("seq_plus_std", seq_plus_std::description()),
        ("pipe_std", pipe_std::description()),
        ("pipe_stupid", pipe_stupid::description()),
    ] {
        let hcl = hcl.unwrap_or_else(|e| panic!("{name}: {e:?}"));
        assert!(hcl.unresolved.is_empty());
        assert!(hcl.build().is_ok(), "{name}");
    }
    assert_eq!(pipe_std::description().unwrap().intermediate_signals.len(), 64);
    assert_eq!(seq_std::description().unwrap().intermediate_signals.len(), 27);
}

#[test]
fn reading_twice_gives_the_same_order() {
    let a = pipe_std::description().unwrap().build().unwrap();
    let b = pipe_std::description().unwrap().build().unwrap();
    assert_eq!(format!("{:?}", a.circuit), format!("{:?}", b.circuit));
}

#[test]
fn calls_and_text_describe_the_same() {
    let read = read(
        "u64 pc = F.pc -> imem.pc;
         u8 icode = imem.higher;
         bool odd = !(icode in { HALT, NOP }) || icode == 3 && pc != 0;
         bool term = [ odd : false; 1 : true; ];",
    )
    .unwrap();

    let mut made = HclData::new(hardware_stupid::hardware(), "pc", "term");
    made.alias("F", "f");
    made.declare("pc", SigType::U64);
    made.declare("icode", SigType::U8);
    made.declare("odd", SigType::Bool);
    made.declare("term", SigType::Bool);
    let e = made.get("F", "pc");
    made.define("pc", SignalSource::of(e));
    made.drive("pc", "imem", "pc");
    let e = made.get("imem", "higher");
    made.define("icode", SignalSource::of(e));
    let e = made.sig("icode").among_bytes(&[0, 1]).negate().either(
        made.sig("icode").equals(Expr::word(3)).both(made.sig("pc").differs(Expr::word(0))),
    );
    made.define("odd", SignalSource::of(e));
    let source = SignalSource::switch()
        .case(made.sig("odd"), Expr::flag(false))
        .case(Expr::word(1), Expr::flag(true));
    made.define("term", source);

    assert_eq!(format!("{:?}", read), format!("{:?}", made));
}
