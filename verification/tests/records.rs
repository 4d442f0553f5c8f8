use y86_sim::framework::schema::Hardware;
use y86_sim::framework::sim::{CpuSim, PipeSim};
use y86_sim::framework::units::{UnitKind, Units};
use y86_sim::framework::{MemData, MEM_SIZE};
use y86_sim::hcl::{Expr, HclData, SignalSource};
use y86_sim::isa::op_code::ADD;
use y86_sim::signal::{SigType, Value};
use y86_sim::webapp::{has_suffix, record_tunnels, tunnels_with, App, InstInfo};

#[test]
fn test_array() {
    let a: [u8; 65536] = [0; 65536];
    let mut b = a;
    let c = a;
    b[0] = 12;
    println!("{:?}, {:?}", b[0], c[0]);
    assert_eq!((b[0], c[0]), (12, 0));
    // A copy of a memory is a value of its own too.
    let mem = MemData::zeroed();
    let mut copy = mem.copy();
    copy.write(0, 12);
    println!("{:?}, {:?}", copy.read()[0], mem.read()[0]);
    assert_eq!((copy.read()[0], mem.read()[0]), (12, 0));
    assert_eq!(mem.size(), MEM_SIZE);
}

#[test]
fn lib_test_array() {
    let a: [u8; 65536] = [0; 65536];
    let mut b = a;
    let c = a;
    b[0] = 12;
    println!("{:?}, {:?}", b[0], c[0]);
    assert_eq!((b[0], c[0]), (12, 0));
    // A memory is a value of its own as well: a write to one image leaves
    // the image that it was made from as it was.
    let image = vec![0u8; MEM_SIZE];
    let mut mem = MemData::from_image(&image).unwrap();
    mem.write(0, 12);
    println!("{:?}, {:?}", mem.read()[0], image[0]);
    assert_eq!((mem.read()[0], image[0]), (12, 0));
}

/// The pipelined organisation with its tunnels.
const DRAWING: &str = r#"
                     ┏━━━━━━━━━━━━━━━━━━━━━━━━━━━━━━━━━━━━━━┓
                     ┃      ┏━━━━━━━━━━━━━━━━━━━━━━━━━━━━━━┓┃
W stat icode       valE   valM      dstE dstM              ┃┃
   │     │           ┃      ┣━━━━━━━━│━━━━│━━━━━━━━━━━━━━━┓┃┃
   │     ├───#Mem.##┄┃┄┄┄┄┄Data##    │    │               ┃┃┃ 
   │     ├───Control┄┃┄┄┄┄┄memory    │    │               ┃┃┃
   │     │           ┃  Addr┛  ┃     │    │               ┃┃┃
   │     │           ┃  ┃ ┗━━━━┃━━━━━│━━━━│━━━━━━━━━━━━━━┓┃┃┃
   │     │           ┗━━╋━━━━━━┃━━━━━│━━━━│━━━━━━━━━━━━━┓┃┃┃┃
M stat icode    Cnd   valE   valA   dstE dstM           ┃┃┃┃┃
   │     │       │      ┣━━━━━━┃━━━━━│━━━━│━━━━━━━━━━━━┓┃┃┃┃┃
   │     │       CC─────ALU ┏━━┛     │    │            ┃┃┃┃┃┃
   │     │          AluA┛ ┗━┃━━AluB  │    │            ┃┃┃┃┃┃
   │     │           ┃┗━━━━━┫    ┃   │    │            ┃┃┃┃┃┃
E stat icode   ifun valC  valA valB dstE dstM srcA srcB┃┃┃┃┃┃
   │     │       │   ┃      ┃    ┃                     ┃┃┃┃┃┃
   │     │       │   ┃  #######━###━━━━━━━━━━━━━━━━━━━━┛┃┃┃┃┃
   │     │       │   ┃  #######━###━━━━━━━━━━━━━━━━━━━━━┛┃┃┃┃
   │     │       │   ┃  Sel+Fwd━Fwd━━━━━━━━━━━━━━━━━━━━━━┃┛┃┃
   │     │       │   ┃  ###A###━#B#━━━━━━━━━━━━━━━━━━━━━━┃━┫┃
   │     │       │   ┃  #######━###━━━━━━━━━━━━━━━━━━━━━━┃━┃┫
   │     │       │   ┃      ┃ ┃  ┃                       ┃ ┃┃
   │     │       │   ┃      ┃ ┗Register━━━━━━━━━━━━━━━━━━┃━┫┃
   │     │       │   ┃      ┗┓ ##file##━━━━━━━━━━━━━━━━━━┃━┃┛
   │     │       │   ┗━━━━━┓ ┗━━━┓                       ┃ ┃
D stat icode   ifun rA rB valC  valP                     ┃ ┃
   │     │       │   │ │   ┣━━━━━┃━━━━━━━━━━Predict      ┃ ┃
  Stat───┴───┐   │   │ │   ┃     ┣━━━━━━━━━━##PC###      ┃ ┃
             Instruction━━━┛  ###PC####        ┃         ┃ ┃
             ##memory###      increment        ┃         ┃ ┃
                  ┣━━━━━━━━━━━━━━┛             ┃         ┃ ┃
                Select━━━━━━━━━━━━━━━━━━━━━━━━━┃━━━━━━━━━┛ ┃
                ##PC##━━━━━━━━━━━━━━━━━━━━━━━━━┃━━━━━━━━━━━┛
F        predPC━┛                              ┃
            ┗━━━━━━━━━━━━━━━━━━━━━━━━━━━━━━━━━━┛
"#;

/// In a drawing of the architecture each tunnel starts from one or more
/// points, may split into several heads, and reaches several destinations.
/// What matters is whether the signal in the tunnel counts, which its source
/// decides, and which of its destinations are of interest. So a tunnel is a
/// source, an intermediate value and destinations, and the condition under
/// which it counts is kept apart.
#[test]
fn lib_test_draw() {
    println!("{}", DRAWING)
}

#[test]
fn test_draw() {
    println!("{}", DRAWING);
    // The drawing shows the five stage registers, from write back down to
    // fetch.
    let stages: Vec<char> = DRAWING.lines().filter_map(|l| l.chars().next()).filter(
        |c| c.is_ascii_uppercase(),
    ).collect();
    assert_eq!(stages, ['W', 'M', 'E', 'D', 'F']);
}

/// Two updates of one value: the first sets it, the second adds to it.
#[test]
fn test() {
    let b = 2u64;
    let hardware = Hardware::new().unit("alu", UnitKind::Alu);
    let mut hcl = HclData::new(hardware, "test", "done");
    hcl.declare("test", SigType::U64);
    hcl.declare("test2", SigType::U64);
    hcl.declare("fun", SigType::U8);
    hcl.declare("done", SigType::Bool);
    // "test" takes b; "test2" is the sum of "test" and b.
    hcl.define("test", SignalSource::of(Expr::word(b)));
    hcl.drive("test", "alu", "a");
    hcl.drive("test", "alu", "b");
    hcl.define("fun", SignalSource::of(Expr::byte(ADD)));
    hcl.drive("fun", "alu", "fun");
    let e = hcl.get("alu", "e");
    hcl.define("test2", SignalSource::of(e));
    let arch = hcl.build().unwrap();
    let sim = PipeSim::new(arch, MemData::zeroed(), false);
    let PipeSim { circuit, signals, mut units, .. } = sim;
    let mut rcd = circuit.updates.make_propagator(signals);
    // The updates run by their positions.
    assert!(rcd.run_update(0));
    assert!(rcd.run_update(2));
    rcd.run_unit(&mut units, 0, UnitKind::Alu);
    assert!(rcd.run_update(1));
    assert!(!rcd.run_update(4));
    let a = rcd.signals().inter[1];
    println!("a = {}, b = {}", a.as_u64(), b);
    assert_eq!(a, Value::U64(4));
    // The outputs of the units can be replaced as a whole.
    rcd.update_from_unit_out(vec![vec![Value::U64(9)]]);
    assert!(rcd.run_update(1));
    assert_eq!(rcd.signals().inter[1], Value::U64(9));
}

#[test]
fn record_test() {
    let b = 2u64;
    // Two updates drive the two operands of an adder: "test" sets the first
    // to b, "test2" adds b to it.
    let hardware = Hardware::new().unit("alu", UnitKind::Alu);
    let mut hcl = HclData::new(hardware, "test", "done");
    hcl.declare("test", SigType::U64);
    hcl.declare("test2", SigType::U64);
    hcl.declare("fun", SigType::U8);
    hcl.declare("done", SigType::Bool);
    hcl.define("test", SignalSource::of(Expr::word(b)));
    hcl.drive("test", "alu", "a");
    hcl.define("test2", SignalSource::of(Expr::word(b)));
    hcl.drive("test2", "alu", "b");
    hcl.define("fun", SignalSource::of(Expr::byte(ADD)));
    hcl.drive("fun", "alu", "fun");
    let arch = hcl.build().unwrap();
    let sim = PipeSim::new(arch, MemData::from_image(&Vec::new()).unwrap(), false);
    let PipeSim { circuit, signals, mut units, .. } = sim;
    let mut rcd = circuit.updates.make_propagator(signals);
    assert!(rcd.run_combinatorial_logic("test"));
    assert!(rcd.run_combinatorial_logic("test2"));
    assert!(rcd.run_combinatorial_logic("fun"));
    assert!(!rcd.run_combinatorial_logic("test3"));
    rcd.run_unit(&mut units, 0, UnitKind::Alu);
    let (signals, tracer) = rcd.finalize();
    let a = signals.unit_out[0][0];
    println!("a = {}, b = {}", a.as_u64(), b);
    assert_eq!(a, Value::U64(4));
    assert!(tracer.tunnel.is_empty());
    let _: Units = units;
}

#[test]
fn records_of_the_view() {
    assert!(has_suffix("f_pcFF", "FF"));
    assert!(has_suffix("FF", "FF"));
    assert!(has_suffix("anything", ""));
    assert!(!has_suffix("F", "FF"));
    assert!(!has_suffix("f_pcFD", "FF"));
    assert!(!has_suffix("FFx", "FF"));
    let tunnels: Vec<String> =
        ["aFF", "bDD", "cFF", "dWW", "e"].iter().map(|s| s.to_string()).collect();
    assert_eq!(tunnels_with(&tunnels, "FF"), ["aFF", "cFF"]);
    assert_eq!(tunnels_with(&tunnels, "MM"), Vec::<String>::new());

    // Seven instructions: the last five take the tunnels of the cycle, the
    // newest those of fetch.
    let mut insts: Vec<InstInfo> = (0..7).map(|pc| InstInfo::new(pc, &vec![])).collect();
    record_tunnels(&mut insts, &tunnels);
    let taken = |i: &InstInfo| {
        [&i.fetch, &i.decode, &i.execute, &i.memory, &i.writeback]
            .map(|s| s.as_ref().map(|s| s.tunnels.join(",")))
    };
    assert_eq!(taken(&insts[6]), [Some("aFF,cFF".to_string()), None, None, None, None]);
    assert_eq!(taken(&insts[5]), [None, Some("bDD".to_string()), None, None, None]);
    assert_eq!(taken(&insts[4]), [None, None, Some(String::new()), None, None]);
    assert_eq!(taken(&insts[3]), [None, None, None, Some(String::new()), None]);
    assert_eq!(taken(&insts[2]), [None, None, None, None, Some("dWW".to_string())]);
    assert_eq!(taken(&insts[1]), [None, None, None, None, None]);
    assert_eq!(taken(&insts[0]), [None, None, None, None, None]);
    // With fewer instructions than stages every instruction takes part.
    let mut insts: Vec<InstInfo> = vec![InstInfo::new(0, &vec![]), InstInfo::new(1, &vec![])];
    record_tunnels(&mut insts, &tunnels);
    assert_eq!(taken(&insts[1])[0], Some("aFF,cFF".to_string()));
    assert_eq!(taken(&insts[0])[1], Some("bDD".to_string()));

    // The default program: a + b.
    let mut app = App::new().unwrap();
    let mut cycles = 0;
    while !app.is_terminated() {
        app.step().unwrap();
        cycles += 1;
        assert!(cycles < 100);
    }
    assert_eq!(app.inst_info.len(), cycles);
    assert_eq!(app.cycle_info.len(), cycles);
    assert_eq!(app.cycle_info[3].cycle_id, 3);
    assert_eq!(app.cycle_info[0].stages.len(), 5);
    // The first instruction stands at address 0, the second at 10.
    assert_eq!(app.inst_info[0].addr, Some(0));
    assert_eq!(app.inst_info[1].addr, Some(10));
    assert!(app.inst_info[0].writeback.is_some());
    assert!(app.inst_info[cycles - 1].decode.is_none());
    assert_eq!(app.pipe.registers()[0], (0, 0x1234 + 0x4321));
}

#[test]
fn test_app() {
    let mut app = App::new().unwrap();
    while !app.is_terminated() {
        app.step().unwrap();
        println!("{:?}", app.cycle_info.last());
        assert!(app.cycle_info.len() < 100);
    }
    assert!(app.pipe.is_terminate());
}
