use y86_sim::architectures::{
    build_arch, create_sim, hardware_stupid, pipe_invalid, pipe_std, pipe_stupid, seq_std,
    unused_unit_in, CpuArch, CreateError,
};
use y86_sim::framework::propagate::{BuildError, PropOrderBuilder, Tracer};
use y86_sim::framework::schema::{Hardware, Slot, StageDecl};
use y86_sim::framework::sim::{CpuSim, CpuStatus, PipeSim, SimError, Step};
use y86_sim::framework::topo::topo;
use y86_sim::framework::units::UnitKind;
use y86_sim::framework::MemData;
use y86_sim::hcl::{Expr, HclData, HclError, SignalSource};
use y86_sim::isa::op_code::ADD;
use y86_sim::signal::{SigType, Value};

fn names(order: &[(bool, String)]) -> Vec<(bool, &str)> {
    order.iter().map(|(unit, name)| (*unit, name.as_str())).collect()
}

#[test]
fn topological_order_by_levels() {
    let edges = vec![(0, 1), (0, 2), (1, 3), (2, 3)];
    assert_eq!(topo(4, &edges), Some(vec![(0, 0), (1, 1), (2, 1), (3, 2)]));
    // Nodes without incoming edge come first, by rising number; then each
    // node as soon as the last of its predecessors has been released.
    let edges = vec![(3, 0), (2, 0), (3, 1)];
    assert_eq!(topo(4, &edges), Some(vec![(2, 0), (3, 0), (0, 1), (1, 1)]));
    assert_eq!(topo(3, &vec![]), Some(vec![(0, 0), (1, 0), (2, 0)]));
    assert_eq!(topo(0, &vec![]), Some(vec![]));
    // An edge that is listed twice counts twice.
    assert_eq!(topo(2, &vec![(0, 1), (0, 1)]), Some(vec![(0, 0), (1, 1)]));
    // The level is the length of the longest path.
    assert_eq!(topo(3, &vec![(0, 2), (0, 1), (1, 2)]), Some(vec![(0, 0), (1, 1), (2, 2)]));
}

#[test]
fn no_order_for_a_cycle() {
    assert_eq!(topo(2, &vec![(0, 1), (1, 0)]), None);
    assert_eq!(topo(1, &vec![(0, 0)]), None);
    assert_eq!(topo(3, &vec![(0, 1), (1, 2), (2, 1)]), None);
    // An edge to a node that does not exist.
    assert_eq!(topo(2, &vec![(0, 2)]), None);
    assert_eq!(topo(2, &vec![(2, 0)]), None);
}

#[test]
fn every_order_is_topological() {
    // Some graphs of five nodes, by the bits of a number: the order holds
    // every node once and follows every edge.
    for bits in 0u32..1024 {
        let mut edges = Vec::new();
        let mut k = 0;
        for from in 0..5usize {
            for to in (from + 1)..5 {
                if bits >> k & 1 == 1 {
                    // Mix the directions of the numbers, but keep the graph
                    // free of cycles.
                    edges.push((4 - to, 4 - from));
                }
                k += 1;
            }
        }
        let order = topo(5, &edges).unwrap();
        let mut seen: Vec<usize> = order.iter().map(|(node, _)| *node).collect();
        for (from, to) in &edges {
            let a = seen.iter().position(|n| n == from).unwrap();
            let b = seen.iter().position(|n| n == to).unwrap();
            assert!(a < b);
            assert!(order[a].1 < order[b].1);
        }
        seen.sort();
        assert_eq!(seen, vec![0, 1, 2, 3, 4]);
        // Twice the same graph, twice the same order.
        assert_eq!(topo(5, &edges), Some(order));
    }
}

fn adder() -> PropOrderBuilder {
    let mut builder = PropOrderBuilder::new("o", "i");
    builder.add_unit_node("alu");
    builder.add_unit_input("alu", "a");
    builder.add_unit_input("alu", "b");
    builder.add_unit_output("alu", "e");
    builder.add_unit_node("f");
    builder.add_unit_stage("f", "pc");
    builder
}

#[test]
fn order_of_a_small_circuit() {
    let mut builder = adder();
    builder.add_update("next", vec!["alu.e".to_string(), "alu".to_string(), "NOP".to_string()]);
    builder.add_rev_deps("next", "i.f.pc");
    builder.add_update("one", vec![]);
    builder.add_rev_deps("one", "alu.b");
    builder.add_update("pc", vec!["o.f.pc".to_string()]);
    builder.add_rev_deps("pc", "alu.a");
    let order = builder.build().unwrap();
    // The stage register runs last, and every signal before what it
    // drives.
    assert_eq!(
        names(&order.order),
        vec![(false, "one"), (false, "pc"), (true, "alu"), (false, "next"), (true, "f")]
    );
}

#[test]
fn errors_of_the_builder() {
    let mut builder = adder();
    builder.add_update("pc", vec![]);
    builder.add_rev_deps("pc", "alu.a");
    assert_eq!(builder.build().err(), Some(BuildError::MissingInput("alu.b".to_string())));

    let mut builder = adder();
    builder.add_update("x", vec!["y".to_string()]);
    builder.add_update("y", vec!["x".to_string()]);
    assert_eq!(builder.build().err(), Some(BuildError::NotDag));

    let mut builder = adder();
    builder.add_update("alu", vec![]);
    assert_eq!(builder.build().err(), Some(BuildError::DuplicateName("alu".to_string())));
    let mut builder = adder();
    builder.add_unit_node("f");
    assert_eq!(builder.build().err(), Some(BuildError::DuplicateName("f".to_string())));
}

#[test]
fn abbreviations_of_stage_outputs() {
    let circuit = |abbreviate: bool| {
        let mut builder = PropOrderBuilder::new("o", "i");
        if abbreviate {
            builder.add_stage_output("late", "L");
        }
        builder.add_update("early", vec!["L".to_string(), "nothing".to_string()]);
        builder.add_update("late", vec![]);
        builder.add_update("Lx", vec![]);
        builder.add_update("last", vec![]);
        builder.add_rev_deps("last", "L");
        builder.build().unwrap()
    };
    // Without the abbreviation "L" names nothing, and the signals keep the
    // order in which they were added.
    assert_eq!(
        names(&circuit(false).order),
        vec![(false, "early"), (false, "late"), (false, "Lx"), (false, "last")]
    );
    // With it "early" reads "late", and "last" drives it. Only the whole
    // word is an abbreviation: "Lx" is none.
    assert_eq!(
        names(&circuit(true).order),
        vec![(false, "Lx"), (false, "last"), (false, "late"), (false, "early")]
    );
    // An abbreviation that is no pattern replaces nothing.
    let mut builder = PropOrderBuilder::new("o", "i");
    builder.add_stage_output("b", "(");
    builder.add_update("a", vec!["(".to_string()]);
    builder.add_update("b", vec![]);
    assert_eq!(names(&builder.build().unwrap().order), vec![(false, "a"), (false, "b")]);
}

#[test]
fn tunnels_fire_once() {
    let mut tracer = Tracer::default();
    tracer.trigger_tunnel("a");
    tracer.trigger_tunnel("b");
    tracer.trigger_tunnel("a");
    assert_eq!(tracer.tunnel, vec!["a", "b"]);
}

#[test]
fn test_invalid_descriptions() {
    assert_eq!(
        pipe_invalid::Arch::build_circuit().err(),
        Some(HclError::Build(BuildError::NotDag))
    );
    assert_eq!(
        unused_unit_in::Arch::build_circuit().err(),
        Some(HclError::Build(BuildError::MissingInput("alu.b".to_string())))
    );
    let mut hcl = HclData::new(hardware_stupid::hardware(), "pc", "term");
    hcl.declare("pc", SigType::U64);
    assert_eq!(hcl.build().err(), Some(HclError::MissingTermination));
    let mut hcl = HclData::new(hardware_stupid::hardware(), "pc", "term");
    hcl.declare("term", SigType::Bool);
    assert_eq!(hcl.build().err(), Some(HclError::MissingProgramCounter));
    let mut hcl = HclData::new(hardware_stupid::hardware(), "pc", "term");
    hcl.declare("pc", SigType::U64);
    hcl.declare("term", SigType::Bool);
    let e = hcl.get("F", "pc");
    assert_eq!(hcl.unresolved, vec!["F.pc"]);
    hcl.define("pc", SignalSource::of(e));
    hcl.define("nothing", SignalSource::of(Expr::flag(true)));
    hcl.drive("pc", "imem", "higher");
    assert_eq!(hcl.unresolved, vec!["F.pc", "nothing", "imem.higher"]);
    assert_eq!(hcl.build().err(), Some(HclError::Unresolved("F.pc".to_string())));
    assert!(matches!(build_arch("pipe_invalid"), Err(CreateError::UnknownArchitecture(_))));
    assert!(create_sim("seq", MemData::from_image(&vec![]).unwrap(), false).is_err());
}

#[test]
fn names_are_resolved_in_order() {
    let hardware = Hardware::new()
        .unit("alu", UnitKind::Alu)
        .unit("dmem", UnitKind::DataMemory)
        .stage(StageDecl::new("d").field("icode", Value::U8(1)).field("valc", Value::U64(0)));
    let mut hcl = HclData::new(hardware, "pc", "term");
    hcl.alias("D", "d");
    hcl.declare("pc", SigType::U64);
    hcl.declare("term", SigType::Bool);
    // A bare name is a signal.
    assert_eq!(hcl.resolve_signal("term"), Some(Slot::Inter(1)));
    assert_eq!(hcl.resolve_signal("d"), None);
    // The alias stands for the stage as the cycle found it, the name of the
    // stage for the stage as the cycle drives it.
    assert_eq!(hcl.resolve("D", "valc"), Some(Slot::Prev(0, 1)));
    assert_eq!(hcl.resolve("d", "valc"), Some(Slot::Next(0, 1)));
    assert_eq!(hcl.resolve("d", "bubble"), Some(Slot::Next(0, 2)));
    assert_eq!(hcl.resolve("d", "stall"), Some(Slot::Next(0, 3)));
    assert_eq!(hcl.resolve("d", "vald"), None);
    // A unit has outputs and inputs.
    assert_eq!(hcl.resolve("alu", "e"), Some(Slot::UnitOut(0, 0)));
    assert_eq!(hcl.resolve("alu", "fun"), Some(Slot::UnitIn(0, 2)));
    assert_eq!(hcl.resolve("dmem", "error"), Some(Slot::UnitOut(1, 1)));
    assert_eq!(hcl.resolve("dmem", "write"), Some(Slot::UnitIn(1, 3)));
    assert_eq!(hcl.resolve("imem", "pc"), None);
    assert_eq!(hcl.slot_name(Slot::Prev(0, 0)), Some("prev.d.icode".to_string()));
    assert_eq!(hcl.slot_name(Slot::Next(0, 2)), Some("next.d.bubble".to_string()));
    assert_eq!(hcl.slot_name(Slot::UnitIn(1, 0)), Some("dmem.addr".to_string()));
    assert_eq!(hcl.slot_name(Slot::Inter(0)), Some("pc".to_string()));
    assert_eq!(hcl.slot_name(Slot::Inter(2)), None);
}

/// A circuit of one stage `f` with the field `n`, which counts: an adder
/// adds one in every cycle. The controls of the stage are what `bubble`
/// and `stall` say of the count.
fn counter(bubble: Expr, stall: Expr) -> PipeSim {
    let hardware = Hardware::new()
        .unit("alu", UnitKind::Alu)
        .stage(StageDecl::new("f").field("n", Value::U64(7)));
    let mut hcl = HclData::new(hardware, "n", "term");
    hcl.alias("F", "f");
    hcl.declare("n", SigType::U64);
    hcl.declare("one", SigType::U64);
    hcl.declare("fun", SigType::U8);
    hcl.declare("next", SigType::U64);
    hcl.declare("bubble", SigType::Bool);
    hcl.declare("stall", SigType::Bool);
    hcl.declare("term", SigType::Bool);
    let e = hcl.get("F", "n");
    hcl.define("n", SignalSource::of(e));
    hcl.drive("n", "alu", "a");
    hcl.define("one", SignalSource::of(Expr::word(1)));
    hcl.drive("one", "alu", "b");
    hcl.define("fun", SignalSource::of(Expr::byte(ADD)));
    hcl.drive("fun", "alu", "fun");
    let e = hcl.get("alu", "e");
    hcl.define(
        "next",
        SignalSource::switch().tagged_case(Some("count".to_string()), Expr::flag(true), e),
    );
    hcl.drive_tagged("next", "f", "n", Some("latch".to_string()));
    hcl.define("bubble", SignalSource::of(bubble));
    hcl.drive("bubble", "f", "bubble");
    hcl.define("stall", SignalSource::of(stall));
    hcl.drive("stall", "f", "stall");
    let e = hcl.sig("n").equals(Expr::word(20));
    hcl.define("term", SignalSource::of(e));
    assert!(hcl.unresolved.is_empty());
    PipeSim::new(hcl.build().unwrap(), MemData::from_image(&vec![]).unwrap(), true)
}

fn is(n: u64) -> Expr {
    Expr::Ref(Slot::Inter(0)).equals(Expr::word(n))
}

#[test]
fn stage_registers_latch_bubble_and_stall() {
    // The count is bubbled when it is at 9 and stalled when it is at 7: a
    // bubble takes the stage back to its default, 7; a stall holds it, for
    // ever.
    let mut sim = counter(is(9), Expr::flag(false));
    let mut seen = Vec::new();
    for _ in 0..7 {
        sim.step().unwrap();
        seen.push(sim.program_counter());
        assert_eq!(sim.tracer.tunnel, vec!["count", "latch"]);
    }
    assert_eq!(seen, vec![7, 8, 9, 7, 8, 9, 7]);
    assert_eq!(sim.cycle_count(), 7);
    assert!(sim.tty_out);

    let mut sim = counter(Expr::flag(false), is(9));
    let seen: Vec<u64> = (0..5).map(|_| { sim.step().unwrap(); sim.program_counter() }).collect();
    assert_eq!(seen, vec![7, 8, 9, 9, 9]);

    let mut sim = counter(Expr::flag(false), Expr::flag(false));
    while !sim.is_terminate() {
        sim.step().unwrap();
    }
    // The cycle that ends the program is counted; the stage registers do
    // not take their next state after it.
    assert_eq!(sim.cycle_count(), 14);
    assert_eq!(sim.program_counter(), 20);
    let info = sim.get_stage_info();
    assert_eq!(info.len(), 1);
    assert_eq!(info[0].name, "f");
    assert_eq!(
        info[0].signals,
        vec![
            ("n".to_string(), Value::U64(20)),
            ("bubble".to_string(), Value::Bool(false)),
            ("stall".to_string(), Value::Bool(false)),
        ]
    );
    assert_eq!(sim.signals.nex_state[0][0], Value::U64(21));
    assert_eq!(sim.status, CpuStatus::CycleEnd);
    sim.initiate_next_cycle();
    assert_eq!(sim.status, CpuStatus::CycleStart);
    assert_eq!(sim.signals.cur_state[0][0], Value::U64(21));
}

#[test]
fn bubble_and_stall_at_once_is_fatal() {
    let mut sim = counter(is(8), is(8));
    assert_eq!(sim.step(), Ok(()));
    assert_eq!(sim.step(), Err(SimError::BubbleAndStall("f".to_string())));
    // The cycle is not counted, and the stage holds what it held.
    assert_eq!(sim.cycle_count(), 1);
    assert_eq!(sim.signals.cur_state[0][0], Value::U64(8));
    assert!(!sim.is_terminate());
    assert_eq!(sim.propagate_signals(), Err(SimError::BubbleAndStall("f".to_string())));
}

#[test]
fn plan_follows_the_order() {
    let sim = counter(Expr::flag(false), Expr::flag(false));
    assert_eq!(sim.plan.len(), sim.circuit.order.order.len());
    assert_eq!(sim.plan.last(), Some(&Step::Stage(0)));
    assert_eq!(sim.plan.iter().filter(|s| **s == Step::Unit(0)).count(), 1);
    for i in 0..7 {
        assert_eq!(sim.plan.iter().filter(|s| **s == Step::Update(i)).count(), 1);
    }
    let unit = sim.plan.iter().position(|s| *s == Step::Unit(0)).unwrap();
    let next = sim.plan.iter().position(|s| *s == Step::Update(3)).unwrap();
    let n = sim.plan.iter().position(|s| *s == Step::Update(0)).unwrap();
    assert!(n < unit && unit < next);
}

#[test]
fn built_in_architectures_build() {
    for (arch, units, stages, signals) in [
        (seq_std::Arch::build_circuit(), 9, 1, 27),
        (pipe_std::Arch::build_circuit(), 8, 5, 64),
        (pipe_stupid::Arch::build_circuit(), 2, 1, 7),
    ] {
        let arch = arch.unwrap();
        assert_eq!(arch.hardware.units.len(), units);
        assert_eq!(arch.hardware.stages.len(), stages);
        assert_eq!(arch.circuit.updates.updates.len(), signals);
        assert_eq!(arch.circuit.order.order.len(), units + stages + signals);
        // The stage registers stand at the end.
        let first_stage = arch.circuit.order.order.len() - stages;
        for (i, (is_unit, name)) in arch.circuit.order.order.iter().enumerate() {
            let is_stage = *is_unit && arch.hardware.stages.iter().any(|s| &s.name == name);
            assert_eq!(is_stage, i >= first_stage, "{name}");
        }
        // Twice the same description, twice the same order.
        let mut sorted: Vec<_> = arch.circuit.order.order.clone();
        sorted.sort();
        sorted.dedup();
        assert_eq!(sorted.len(), arch.circuit.order.order.len());
    }
    let a = pipe_std::Arch::build_circuit().unwrap();
    let b = pipe_std::Arch::build_circuit().unwrap();
    assert_eq!(a.circuit.order.order, b.circuit.order.order);
    assert_eq!(a.program_counter, 0);
}

#[test]
fn a_name_has_one_update() {
    let hw = Hardware::new().unit("alu", UnitKind::Alu);
    let mut hcl = HclData::new(hw, "a", "done");
    hcl.declare("a", SigType::U64);
    hcl.declare("fun", SigType::U8);
    hcl.declare("done", SigType::Bool);
    hcl.define("a", SignalSource::of(Expr::word(1)));
    hcl.drive("a", "alu", "a");
    hcl.drive("a", "alu", "b");
    hcl.define("fun", SignalSource::of(Expr::byte(ADD)));
    hcl.drive("fun", "alu", "fun");
    let arch = hcl.build().unwrap();
    let mut circuit = arch.circuit;
    let names = |c: &y86_sim::framework::circuit::PropCircuit| -> Vec<String> {
        c.updates.updates.iter().map(|(n, _)| n.clone()).collect()
    };
    assert_eq!(names(&circuit), ["a", "fun", "done"]);
    let order = format!("{:?}", circuit.order);

    // A second update under the name takes the place of the first.
    let second = y86_sim::hcl::SignalDef {
        name: "a".to_string(),
        typ: SigType::U64,
        source: SignalSource::of(Expr::word(7)),
        destinations: vec![],
    };
    circuit.add_update("a", second);
    assert_eq!(names(&circuit), ["a", "fun", "done"]);
    assert_eq!(format!("{:?}", circuit.order), order);
    // An update under a new name is the update of the next signal.
    let third = y86_sim::hcl::SignalDef {
        name: "b".to_string(),
        typ: SigType::U64,
        source: SignalSource::of(Expr::word(9)),
        destinations: vec![],
    };
    circuit.add_update("b", third);
    assert_eq!(names(&circuit), ["a", "fun", "done", "b"]);

    // The update that is found by the name is the one that was given last.
    let sim = PipeSim::new(
        y86_sim::hcl::Architecture {
            hardware: arch.hardware,
            circuit,
            program_counter: 0,
            termination: 2,
        },
        MemData::zeroed(),
        false,
    );
    let PipeSim { circuit, signals, .. } = sim;
    let mut run = circuit.updates.make_propagator(signals);
    assert!(run.run_combinatorial_logic("a"));
    assert!(run.run_combinatorial_logic("b"));
    assert_eq!(run.signals().inter[0], Value::U64(7));
    assert_eq!(run.signals().inter[3], Value::U64(9));
    // The second update drives nothing: the inputs of the adder are as they
    // were.
    assert_eq!(run.signals().unit_in[0][0], Value::U64(0));
}

#[test]
fn a_signal_keeps_its_value_where_no_case_holds() {
    let hw = Hardware::new().unit("alu", UnitKind::Alu);
    let mut hcl = HclData::new(hw, "kept", "done");
    hcl.declare("flag", SigType::Bool);
    hcl.declare("kept", SigType::U64);
    hcl.declare("done", SigType::Bool);
    hcl.define("flag", SignalSource::switch());
    let source = SignalSource::switch().case(hcl.sig("flag"), Expr::word(5));
    hcl.define("kept", source);
    hcl.drive("kept", "alu", "a");
    hcl.drive("kept", "alu", "b");
    hcl.declare("fun", SigType::U8);
    hcl.define("fun", SignalSource::of(Expr::byte(ADD)));
    hcl.drive("fun", "alu", "fun");
    let arch = hcl.build().unwrap();
    let sim = PipeSim::new(arch, MemData::zeroed(), false);
    let PipeSim { circuit, mut signals, .. } = sim;

    // The condition holds: the signal takes the value of the case.
    signals.inter[0] = Value::Bool(true);
    let mut run = circuit.updates.make_propagator(signals);
    assert!(run.run_combinatorial_logic("kept"));
    assert_eq!(run.signals().inter[1], Value::U64(5));
    assert_eq!(run.signals().unit_in[0][0], Value::U64(5));
    let (mut signals, _) = run.finalize();

    // No condition holds: the signal holds 5 as before, and its
    // destinations are driven with that value.
    signals.inter[0] = Value::Bool(false);
    signals.unit_in[0][0] = Value::U64(0);
    let mut run = circuit.updates.make_propagator(signals);
    assert!(run.run_combinatorial_logic("kept"));
    assert_eq!(run.signals().inter[1], Value::U64(5));
    assert_eq!(run.signals().unit_in[0][0], Value::U64(5));
    // A table without cases leaves its signal as it is.
    assert!(run.run_combinatorial_logic("flag"));
    assert_eq!(run.signals().inter[0], Value::Bool(false));
}
