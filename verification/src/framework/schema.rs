//! The shape of an architecture's hardware: its functional units and stage
//! registers, and the records of signals that belong to them.
use vstd::prelude::*;
use crate::framework::names::{find_name, join, names_of, position, qualified, Name};
use crate::framework::propagate::{Graph, PropOrderBuilder};
use crate::framework::units::{ports_view, Port, UnitKind};
use crate::signal::{SigType, Value};

verus! {

/// A functional unit of an architecture: its name and its kind.
#[derive(Debug)]
pub struct UnitDecl {
    pub name: String,
    pub kind: UnitKind,
}

/// A field of a stage register. Its default is the value that it takes when
/// the stage is bubbled, and that it holds before the first cycle.
#[derive(Debug)]
pub struct StageField {
    pub name: String,
    pub ty: SigType,
    pub default: Value,
}

/// A stage register: its name and its fields. The last two fields of every
/// stage are its control inputs `bubble` and `stall`.
#[derive(Debug)]
pub struct StageDecl {
    pub name: String,
    pub fields: Vec<StageField>,
}

/// The hardware of an architecture.
#[derive(Debug)]
pub struct Hardware {
    pub units: Vec<UnitDecl>,
    pub stages: Vec<StageDecl>,
}

/// The names of the units of a list.
pub open spec fn unit_names(units: Seq<UnitDecl>) -> Seq<Name> {
    Seq::new(units.len(), |i: int| units[i].name@)
}

/// The names of the stages of a list.
pub open spec fn stage_names(stages: Seq<StageDecl>) -> Seq<Name> {
    Seq::new(stages.len(), |i: int| stages[i].name@)
}

/// The names of the fields of a stage.
pub open spec fn field_names(fields: Seq<StageField>) -> Seq<Name> {
    Seq::new(fields.len(), |i: int| fields[i].name@)
}

/// The default values of the fields of a stage.
pub open spec fn field_defaults(fields: Seq<StageField>) -> Seq<Value> {
    Seq::new(fields.len(), |i: int| fields[i].default)
}

/// The default values of the ports of a list.
pub open spec fn port_defaults(ports: Seq<(Name, SigType)>) -> Seq<Value> {
    Seq::new(ports.len(), |i: int| Value::spec_default_of(ports[i].1))
}

/// A stage register as plain values: its name, and the names, types and
/// defaults of its fields.
pub struct StageLayout {
    pub name: Name,
    pub fields: Seq<(Name, SigType, Value)>,
}

impl StageLayout {
    /// A stage register without data fields: it has the two control inputs
    /// only.
    pub open spec fn new(name: Name) -> StageLayout {
        StageLayout {
            name,
            fields: seq![
                ("bubble"@, SigType::Bool, Value::Bool(false)),
                ("stall"@, SigType::Bool, Value::Bool(false)),
            ],
        }
    }

    /// The stage with one more data field, in front of the last two fields.
    pub open spec fn with_field(self, name: Name, default: Value) -> StageLayout {
        StageLayout {
            name: self.name,
            fields: self.fields.insert(
                if self.fields.len() >= 2 {
                    self.fields.len() - 2
                } else {
                    0
                },
                (name, default.spec_type_of(), default),
            ),
        }
    }
}

/// The hardware of an architecture as plain values: the names and kinds of
/// its units, and its stage registers.
pub struct Layout {
    pub units: Seq<(Name, UnitKind)>,
    pub stages: Seq<StageLayout>,
}

impl Layout {
    /// Hardware without units and stages.
    pub open spec fn new() -> Layout {
        Layout { units: Seq::empty(), stages: Seq::empty() }
    }

    /// The hardware with one more unit.
    pub open spec fn with_unit(self, name: Name, kind: UnitKind) -> Layout {
        Layout { units: self.units.push((name, kind)), stages: self.stages }
    }

    /// The hardware with one more stage register.
    pub open spec fn with_stage(self, stage: StageLayout) -> Layout {
        Layout { units: self.units, stages: self.stages.push(stage) }
    }
}

impl View for StageDecl {
    type V = StageLayout;

    open spec fn view(&self) -> StageLayout {
        StageLayout {
            name: self.name@,
            fields: Seq::new(
                self.fields@.len(),
                |i: int| (self.fields@[i].name@, self.fields@[i].ty, self.fields@[i].default),
            ),
        }
    }
}

impl View for Hardware {
    type V = Layout;

    open spec fn view(&self) -> Layout {
        Layout {
            units: Seq::new(
                self.units@.len(),
                |i: int| (self.units@[i].name@, self.units@[i].kind),
            ),
            stages: Seq::new(self.stages@.len(), |i: int| self.stages@[i]@),
        }
    }
}

impl StageDecl {
    /// Whether the stage ends with its two control inputs.
    pub open spec fn wf(&self) -> bool {
        &&& self.fields@.len() >= 2
        &&& self.fields@[self.fields@.len() - 2].name@ == "bubble"@
        &&& self.fields@[self.fields@.len() - 2].default == Value::Bool(false)
        &&& self.fields@[self.fields@.len() - 1].name@ == "stall"@
        &&& self.fields@[self.fields@.len() - 1].default == Value::Bool(false)
    }

    /// A stage register without data fields: it has the two control inputs
    /// only.
    pub fn new(name: &str) -> (stage: StageDecl)
        ensures
            stage.wf(),
            stage.name@ == name@,
            stage.fields@.len() == 2,
            stage@ == StageLayout::new(name@),
    {
        let mut fields: Vec<StageField> = Vec::new();
        fields.push(
            StageField {
                name: "bubble".to_owned(),
                ty: SigType::Bool,
                default: Value::Bool(false),
            },
        );
        fields.push(
            StageField { name: "stall".to_owned(), ty: SigType::Bool, default: Value::Bool(false) },
        );
        let stage = StageDecl { name: name.to_owned(), fields };
        assert(stage@.fields =~= StageLayout::new(name@).fields);
        stage
    }

    /// Adds a data field with its default, in front of the control inputs.
    pub fn field(self, name: &str, default: Value) -> (stage: StageDecl)
        ensures
            self.wf() ==> stage.wf(),
            stage.name@ == self.name@,
            stage.fields@.len() == self.fields@.len() + 1,
            self.wf() ==> stage.fields@[self.fields@.len() - 2].name@ == name@
                && stage.fields@[self.fields@.len() - 2].default == default,
            forall|i: int|
                0 <= i < self.fields@.len() - 2 ==> #[trigger] stage.fields@[i]
                    == self.fields@[i],
            stage@ == self@.with_field(name@, default),
    {
        let mut stage = self;
        let count: usize = stage.fields.len();
        let at: usize = if count >= 2 { count - 2 } else { 0 };
        stage.fields.insert(
            at,
            StageField { name: name.to_owned(), ty: default.type_of(), default },
        );
        assert(stage@.fields =~= self@.with_field(name@, default).fields);
        stage
    }
}

/// The place of a signal in the records of a machine.
#[derive(Debug, Clone, Copy, PartialEq, Eq, Structural)]
pub enum Slot {
    /// An intermediate signal, by its position among the signals.
    Inter(usize),
    /// An input port, by the position of its unit and its own among the
    /// unit's inputs.
    UnitIn(usize, usize),
    /// An output port, by the position of its unit and its own among the
    /// unit's outputs.
    UnitOut(usize, usize),
    /// A stage field as the cycle found it, by the positions of the stage and
    /// of the field.
    Prev(usize, usize),
    /// A stage field as the cycle drives it for the next one.
    Next(usize, usize),
}

/// The signals of a machine within one cycle.
pub struct Signals {
    /// The inputs of each functional unit.
    pub unit_in: Vec<Vec<Value>>,
    /// The outputs of each functional unit.
    pub unit_out: Vec<Vec<Value>>,
    /// The intermediate signals.
    pub inter: Vec<Value>,
    /// The fields of each stage register as the cycle found them. A cycle
    /// only reads them.
    pub cur_state: Vec<Vec<Value>>,
    /// The fields of each stage register as the cycle drives them.
    pub nex_state: Vec<Vec<Value>>,
}

/// The rows of a record of records as plain values.
pub open spec fn rows_view(rows: Seq<Vec<Value>>) -> Seq<Seq<Value>> {
    Seq::new(rows.len(), |i: int| rows[i]@)
}

/// The signals of a machine as plain values.
pub struct Wires {
    pub unit_in: Seq<Seq<Value>>,
    pub unit_out: Seq<Seq<Value>>,
    pub inter: Seq<Value>,
    pub cur_state: Seq<Seq<Value>>,
    pub nex_state: Seq<Seq<Value>>,
}

impl View for Signals {
    type V = Wires;

    open spec fn view(&self) -> Wires {
        Wires {
            unit_in: rows_view(self.unit_in@),
            unit_out: rows_view(self.unit_out@),
            inter: self.inter@,
            cur_state: rows_view(self.cur_state@),
            nex_state: rows_view(self.nex_state@),
        }
    }
}

/// The entry at `(row, col)`; `false` where there is none.
pub open spec fn entry(rows: Seq<Seq<Value>>, row: int, col: int) -> Value {
    if 0 <= row < rows.len() && 0 <= col < rows[row].len() {
        rows[row][col]
    } else {
        Value::Bool(false)
    }
}

/// The rows with the entry at `(row, col)` replaced, as a signal of the
/// entry's type carries `v`; the rows themselves where there is no such
/// entry.
pub open spec fn with_entry(rows: Seq<Seq<Value>>, row: int, col: int, v: Value) -> Seq<
    Seq<Value>,
> {
    if 0 <= row < rows.len() && 0 <= col < rows[row].len() {
        rows.update(row, rows[row].update(col, v.spec_coerce(rows[row][col].spec_type_of())))
    } else {
        rows
    }
}

impl Wires {
    /// The value in a slot; `false` where the records have no such slot.
    pub open spec fn get(self, slot: Slot) -> Value {
        match slot {
            Slot::Inter(i) => if i < self.inter.len() {
                self.inter[i as int]
            } else {
                Value::Bool(false)
            },
            Slot::UnitIn(u, k) => entry(self.unit_in, u as int, k as int),
            Slot::UnitOut(u, k) => entry(self.unit_out, u as int, k as int),
            Slot::Prev(s, f) => entry(self.cur_state, s as int, f as int),
            Slot::Next(s, f) => entry(self.nex_state, s as int, f as int),
        }
    }

    /// The signals after `v` has been driven into a slot. The slot keeps its
    /// type: it takes `v` as a signal of that type carries it. Outputs of
    /// units and the stage fields that the cycle found cannot be driven, nor
    /// can a slot that the records do not have.
    pub open spec fn set(self, slot: Slot, v: Value) -> Wires {
        match slot {
            Slot::Inter(i) => if i < self.inter.len() {
                Wires {
                    inter: self.inter.update(
                        i as int,
                        v.spec_coerce(self.inter[i as int].spec_type_of()),
                    ),
                    ..self
                }
            } else {
                self
            },
            Slot::UnitIn(u, k) => Wires {
                unit_in: with_entry(self.unit_in, u as int, k as int, v),
                ..self
            },
            Slot::Next(s, f) => Wires {
                nex_state: with_entry(self.nex_state, s as int, f as int, v),
                ..self
            },
            _ => self,
        }
    }
}

/// Reads the entry at `(row, col)`.
pub fn read_entry(rows: &Vec<Vec<Value>>, row: usize, col: usize) -> (v: Value)
    ensures
        v == entry(rows_view(rows@), row as int, col as int),
{
    if row < rows.len() {
        if col < rows[row].len() {
            return rows[row][col];
        }
    }
    Value::Bool(false)
}

/// Replaces the entry at `(row, col)`.
pub fn write_entry(rows: &mut Vec<Vec<Value>>, row: usize, col: usize, v: Value)
    ensures
        rows_view(final(rows)@) == with_entry(rows_view(old(rows)@), row as int, col as int, v),
{
    if row < rows.len() {
        if col < rows[row].len() {
            let ty: SigType = rows[row][col].type_of();
            rows[row][col] = v.coerce(ty);
            assert(rows_view(rows@) =~= with_entry(
                rows_view(old(rows)@),
                row as int,
                col as int,
                v,
            ));
            return ;
        }
    }
}

impl Signals {
    /// Reads a slot.
    pub fn get(&self, slot: Slot) -> (v: Value)
        ensures
            v == self@.get(slot),
    {
        match slot {
            Slot::Inter(i) => if i < self.inter.len() {
                self.inter[i]
            } else {
                Value::Bool(false)
            },
            Slot::UnitIn(u, k) => read_entry(&self.unit_in, u, k),
            Slot::UnitOut(u, k) => read_entry(&self.unit_out, u, k),
            Slot::Prev(s, f) => read_entry(&self.cur_state, s, f),
            Slot::Next(s, f) => read_entry(&self.nex_state, s, f),
        }
    }

    /// Drives a value into a slot.
    pub fn set(&mut self, slot: Slot, v: Value)
        ensures
            final(self)@ == old(self)@.set(slot, v),
    {
        match slot {
            Slot::Inter(i) => {
                if i < self.inter.len() {
                    let ty: SigType = self.inter[i].type_of();
                    self.inter[i] = v.coerce(ty);
                }
            },
            Slot::UnitIn(u, k) => {
                write_entry(&mut self.unit_in, u, k, v);
            },
            Slot::Next(s, f) => {
                write_entry(&mut self.nex_state, s, f, v);
            },
            _ => {},
        }
    }
}

/// The graph with the first `k` of the given input ports of `unit`.
pub open spec fn with_inputs_upto(g: Graph, unit: Name, ports: Seq<(Name, SigType)>, k: int) -> Graph
    decreases k,
{
    if k <= 0 || k > ports.len() {
        g
    } else {
        with_inputs_upto(g, unit, ports, k - 1).with_unit_input(unit, ports[k - 1].0)
    }
}

/// The graph with the first `k` of the given output ports of `unit`.
pub open spec fn with_outputs_upto(
    g: Graph,
    unit: Name,
    ports: Seq<(Name, SigType)>,
    k: int,
) -> Graph
    decreases k,
{
    if k <= 0 || k > ports.len() {
        g
    } else {
        with_outputs_upto(g, unit, ports, k - 1).with_unit_output(unit, ports[k - 1].0)
    }
}

/// The graph with the first `k` of the given fields of the stage `stage`.
pub open spec fn with_fields_upto(g: Graph, stage: Name, fields: Seq<Name>, k: int) -> Graph
    decreases k,
{
    if k <= 0 || k > fields.len() {
        g
    } else {
        with_fields_upto(g, stage, fields, k - 1).with_unit_stage(stage, fields[k - 1])
    }
}

/// The graph with the functional unit `unit`: its node, its input ports and
/// its output ports.
pub open spec fn with_functional_unit(g: Graph, unit: Name, kind: UnitKind) -> Graph {
    with_outputs_upto(
        with_inputs_upto(
            g.with_unit(unit),
            unit,
            kind.spec_inputs(),
            kind.spec_inputs().len() as int,
        ),
        unit,
        kind.spec_outputs(),
        kind.spec_outputs().len() as int,
    )
}

/// The graph with the first `k` functional units.
pub open spec fn with_units_upto(g: Graph, units: Seq<UnitDecl>, k: int) -> Graph
    decreases k,
{
    if k <= 0 || k > units.len() {
        g
    } else {
        with_functional_unit(with_units_upto(g, units, k - 1), units[k - 1].name@, units[k - 1].kind)
    }
}

/// The graph with the first `k` stage registers: the node of each and its
/// fields.
pub open spec fn with_stages_upto(g: Graph, stages: Seq<StageDecl>, k: int) -> Graph
    decreases k,
{
    if k <= 0 || k > stages.len() {
        g
    } else {
        let stage = stages[k - 1];
        with_fields_upto(
            with_stages_upto(g, stages, k - 1).with_unit(stage.name@),
            stage.name@,
            field_names(stage.fields@),
            stage.fields@.len() as int,
        )
    }
}

/// The position of the unit named `name`, or the number of units where
/// there is none.
pub fn find_unit(units: &Vec<UnitDecl>, name: &str) -> (at: usize)
    ensures
        at == position(unit_names(units@), name@),
        at <= units@.len(),
        at < units@.len() ==> units@[at as int].name@ == name@,
{
    let key: String = name.to_owned();
    let ghost names = unit_names(units@);
    let mut i: usize = 0;
    while i < units.len()
        invariant
            i <= units@.len(),
            key@ == name@,
            names == unit_names(units@),
            crate::framework::names::position_upto(names, name@, i as int) == i,
        decreases units@.len() - i,
    {
        if units[i].name == key {
            proof {
                assert(names[i as int] == name@);
                crate::framework::names::lemma_position_rest(
                    names,
                    name@,
                    i as int + 1,
                    names.len() as int,
                );
            }
            return i;
        }
        i = i + 1;
    }
    i
}

/// The position of the stage named `name`, or the number of stages where
/// there is none.
pub fn find_stage(stages: &Vec<StageDecl>, name: &str) -> (at: usize)
    ensures
        at == position(stage_names(stages@), name@),
        at <= stages@.len(),
        at < stages@.len() ==> stages@[at as int].name@ == name@,
{
    let key: String = name.to_owned();
    let ghost names = stage_names(stages@);
    let mut i: usize = 0;
    while i < stages.len()
        invariant
            i <= stages@.len(),
            key@ == name@,
            names == stage_names(stages@),
            crate::framework::names::position_upto(names, name@, i as int) == i,
        decreases stages@.len() - i,
    {
        if stages[i].name == key {
            proof {
                assert(names[i as int] == name@);
                crate::framework::names::lemma_position_rest(
                    names,
                    name@,
                    i as int + 1,
                    names.len() as int,
                );
            }
            return i;
        }
        i = i + 1;
    }
    i
}

/// The position of the field named `name`, or the number of fields where
/// there is none.
pub fn find_field(fields: &Vec<StageField>, name: &str) -> (at: usize)
    ensures
        at == position(field_names(fields@), name@),
        at <= fields@.len(),
        at < fields@.len() ==> fields@[at as int].name@ == name@,
{
    let key: String = name.to_owned();
    let ghost names = field_names(fields@);
    let mut i: usize = 0;
    while i < fields.len()
        invariant
            i <= fields@.len(),
            key@ == name@,
            names == field_names(fields@),
            crate::framework::names::position_upto(names, name@, i as int) == i,
        decreases fields@.len() - i,
    {
        if fields[i].name == key {
            proof {
                assert(names[i as int] == name@);
                crate::framework::names::lemma_position_rest(
                    names,
                    name@,
                    i as int + 1,
                    names.len() as int,
                );
            }
            return i;
        }
        i = i + 1;
    }
    i
}

/// The default values of a list of ports.
pub fn default_row(ports: &Vec<Port>) -> (row: Vec<Value>)
    ensures
        row@ == port_defaults(ports_view(ports@)),
{
    let mut row: Vec<Value> = Vec::new();
    let mut i: usize = 0;
    while i < ports.len()
        invariant
            i <= ports@.len(),
            row@.len() == i,
            forall|j: int| 0 <= j < i
                ==> #[trigger] row@[j] == Value::spec_default_of(ports@[j].ty),
        decreases ports@.len() - i,
    {
        row.push(Value::default_of(ports[i].ty));
        i = i + 1;
    }
    assert(row@ =~= port_defaults(ports_view(ports@)));
    row
}

/// The default values of the fields of a stage.
pub fn default_fields(fields: &Vec<StageField>) -> (row: Vec<Value>)
    ensures
        row@ == field_defaults(fields@),
{
    let mut row: Vec<Value> = Vec::new();
    let mut i: usize = 0;
    while i < fields.len()
        invariant
            i <= fields@.len(),
            row@.len() == i,
            forall|j: int| 0 <= j < i ==> #[trigger] row@[j] == fields@[j].default,
        decreases fields@.len() - i,
    {
        row.push(fields[i].default);
        i = i + 1;
    }
    assert(row@ =~= field_defaults(fields@));
    row
}

impl Hardware {
    /// Whether every stage ends with its control inputs.
    pub open spec fn wf(&self) -> bool {
        forall|s: int| 0 <= s < self.stages@.len() ==> (#[trigger] self.stages@[s]).wf()
    }

    /// Hardware without units and stages.
    pub fn new() -> (hw: Hardware)
        ensures
            hw.wf(),
            hw.units@.len() == 0,
            hw.stages@.len() == 0,
            hw@ == Layout::new(),
    {
        let hw = Hardware { units: Vec::new(), stages: Vec::new() };
        assert(hw@.units =~= Layout::new().units);
        assert(hw@.stages =~= Layout::new().stages);
        hw
    }

    /// Adds a functional unit.
    pub fn unit(self, name: &str, kind: UnitKind) -> (hw: Hardware)
        ensures
            self.wf() ==> hw.wf(),
            hw.stages@ == self.stages@,
            hw.units@.len() == self.units@.len() + 1,
            hw.units@[self.units@.len() as int].name@ == name@,
            hw.units@[self.units@.len() as int].kind == kind,
            forall|i: int| 0 <= i < self.units@.len() ==> hw.units@[i] == self.units@[i],
            hw@ == self@.with_unit(name@, kind),
    {
        let mut hw = self;
        hw.units.push(UnitDecl { name: name.to_owned(), kind });
        assert(hw@.units =~= self@.with_unit(name@, kind).units);
        assert(hw@.stages =~= self@.stages);
        hw
    }

    /// Adds a stage register.
    pub fn stage(self, stage: StageDecl) -> (hw: Hardware)
        ensures
            self.wf() && stage.wf() ==> hw.wf(),
            hw.units@ == self.units@,
            hw.stages@ == self.stages@.push(stage),
            hw@ == self@.with_stage(stage@),
    {
        let mut hw = self;
        hw.stages.push(stage);
        assert(hw@.stages =~= self@.with_stage(stage@).stages);
        assert(hw@.units =~= self@.units);
        hw
    }

    /// The graph with the nodes and edges of the hardware: every functional
    /// unit with its ports, then every stage register with its fields.
    pub open spec fn setup(&self, g: Graph) -> Graph {
        with_stages_upto(
            with_units_upto(g, self.units@, self.units@.len() as int),
            self.stages@,
            self.stages@.len() as int,
        )
    }

    /// Adds the units, ports and stage fields of the hardware to a builder.
    pub fn hardware_setup(&self, builder: &mut PropOrderBuilder)
        requires
            old(builder)@.wf(),
        ensures
            final(builder)@.wf(),
            final(builder)@ == self.setup(old(builder)@),
    {
        let mut u: usize = 0;
        while u < self.units.len()
            invariant
                u <= self.units@.len(),
                builder@.wf(),
                builder@ == with_units_upto(old(builder)@, self.units@, u as int),
            decreases self.units@.len() - u,
        {
            let unit = &self.units[u];
            builder.add_unit_node(unit.name.as_str());
            let ghost start = builder@;
            let inputs: Vec<Port> = unit.kind.inputs();
            let mut k: usize = 0;
            while k < inputs.len()
                invariant
                    k <= inputs@.len(),
                    builder@.wf(),
                    ports_view(inputs@) == unit.kind.spec_inputs(),
                    builder@ == with_inputs_upto(
                        start,
                        unit.name@,
                        unit.kind.spec_inputs(),
                        k as int,
                    ),
                decreases inputs@.len() - k,
            {
                assert(ports_view(inputs@)[k as int].0 == inputs@[k as int].name@);
                builder.add_unit_input(unit.name.as_str(), inputs[k].name.as_str());
                k = k + 1;
            }
            assert(ports_view(inputs@).len() == inputs@.len());
            let ghost mid = builder@;
            let outputs: Vec<Port> = unit.kind.outputs();
            let mut k: usize = 0;
            while k < outputs.len()
                invariant
                    k <= outputs@.len(),
                    builder@.wf(),
                    ports_view(outputs@) == unit.kind.spec_outputs(),
                    builder@ == with_outputs_upto(
                        mid,
                        unit.name@,
                        unit.kind.spec_outputs(),
                        k as int,
                    ),
                decreases outputs@.len() - k,
            {
                assert(ports_view(outputs@)[k as int].0 == outputs@[k as int].name@);
                builder.add_unit_output(unit.name.as_str(), outputs[k].name.as_str());
                k = k + 1;
            }
            assert(ports_view(outputs@).len() == outputs@.len());
            u = u + 1;
        }
        let ghost units_done = builder@;
        let mut s: usize = 0;
        while s < self.stages.len()
            invariant
                s <= self.stages@.len(),
                builder@.wf(),
                builder@ == with_stages_upto(units_done, self.stages@, s as int),
            decreases self.stages@.len() - s,
        {
            let stage = &self.stages[s];
            builder.add_unit_node(stage.name.as_str());
            let ghost start = builder@;
            let mut f: usize = 0;
            while f < stage.fields.len()
                invariant
                    f <= stage.fields@.len(),
                    builder@.wf(),
                    builder@ == with_fields_upto(
                        start,
                        stage.name@,
                        field_names(stage.fields@),
                        f as int,
                    ),
                decreases stage.fields@.len() - f,
            {
                builder.add_unit_stage(stage.name.as_str(), stage.fields[f].name.as_str());
                f = f + 1;
            }
            s = s + 1;
        }
    }
}

/// What the stage register holds after the latch, from the fields `prev`
/// that the cycle found and the fields `next` that the cycle drove; the last
/// two fields are the controls `bubble` and `stall`. A bubbled stage takes
/// its defaults, a stalled stage keeps what it held, any other stage takes
/// what was driven. The controls themselves are handed on as they were
/// driven. A stage that is bubbled and stalled at once has no next state.
pub open spec fn latched(fields: Seq<StageField>, prev: Seq<Value>, next: Seq<Value>) -> Option<
    Seq<Value>,
> {
    let n = next.len() as int;
    let bubble = n >= 2 && next[n - 2].truth();
    let stall = n >= 2 && next[n - 1].truth();
    if bubble && stall {
        None
    } else {
        Some(
            Seq::new(
                next.len(),
                |i: int|
                    if i >= n - 2 {
                        next[i]
                    } else if bubble && i < fields.len() {
                        fields[i].default
                    } else if stall && i < prev.len() {
                        prev[i]
                    } else {
                        next[i]
                    },
            ),
        )
    }
}

/// Applies the controls of a stage register at the end of a cycle.
pub fn latch(fields: &Vec<StageField>, prev: &Vec<Value>, next: &Vec<Value>) -> (res: Option<
    Vec<Value>,
>)
    ensures
        res is Some <==> latched(fields@, prev@, next@) is Some,
        res matches Some(row) ==> latched(fields@, prev@, next@) == Some(row@),
{
    let n: usize = next.len();
    let bubble: bool = n >= 2 && next[n - 2].is_true();
    let stall: bool = n >= 2 && next[n - 1].is_true();
    if bubble && stall {
        return None;
    }
    let mut row: Vec<Value> = Vec::new();
    let mut i: usize = 0;
    while i < n
        invariant
            i <= n,
            n == next@.len(),
            row@.len() == i,
            bubble == (n >= 2 && next@[n - 2].truth()),
            stall == (n >= 2 && next@[n - 1].truth()),
            !(bubble && stall),
            forall|j: int| 0 <= j < i
                ==> #[trigger] row@[j] == latched(fields@, prev@, next@)->0[j],
        decreases n - i,
    {
        let v: Value = if n - i <= 2 {
            next[i]
        } else if bubble && i < fields.len() {
            fields[i].default
        } else if stall && i < prev.len() {
            prev[i]
        } else {
            next[i]
        };
        row.push(v);
        i = i + 1;
    }
    assert(row@ =~= latched(fields@, prev@, next@)->0);
    Some(row)
}

} // verus!
