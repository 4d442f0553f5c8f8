//! The records that a view of the pipeline draws from: for every cycle its
//! tunnels, and for every instruction the tunnels that it took in each of
//! the five stages.
//!
//! A tunnel belongs to a stage by the end of its name: `FF`, `DD`, `EE`,
//! `MM` and `WW` for fetch, decode, execute, memory and write back. The
//! instruction that is fetched in a cycle is in decode in the next one, and
//! so on: of the tunnels of a cycle, those of fetch belong to the newest
//! instruction, those of decode to the one before it, down to the fifth.
use vstd::prelude::*;
use crate::architectures::{create_sim, is_sim, CreateError};
use crate::assembler::{assemble, is_assembly, AsmError, AssembleOption, ObjectExt, SourceInfo};
use crate::framework::names::{names_of, Name};
use crate::framework::sim::{is_step, CpuSim, PipeSim, SimError, StageText};

verus! {

/// Whether a name ends with `suffix`.
pub open spec fn ends_with(name: Seq<char>, suffix: Seq<char>) -> bool {
    name.len() >= suffix.len() && name.subrange(name.len() - suffix.len(), name.len() as int)
        == suffix
}

/// Whether a name ends with `suffix`.
pub fn has_suffix(name: &str, suffix: &str) -> (yes: bool)
    ensures
        yes == ends_with(name@, suffix@),
{
    let n: usize = name.unicode_len();
    let m: usize = suffix.unicode_len();
    if n < m {
        return false;
    }
    let ghost end = name@.subrange(n - m, n as int);
    let mut i: usize = 0;
    while i < m
        invariant
            i <= m <= n,
            n == name@.len(),
            m == suffix@.len(),
            end == name@.subrange(n - m, n as int),
            forall|j: int| 0 <= j < i ==> end[j] == suffix@[j],
        decreases m - i,
    {
        assert(end[i as int] == name@[n - m + i]);
        if name.get_char(n - m + i) != suffix.get_char(i) {
            return false;
        }
        i = i + 1;
    }
    assert(end =~= suffix@);
    true
}

/// Those of the first `k` tunnels whose names end with `suffix`, in their
/// order.
pub open spec fn with_suffix_upto(tunnels: Seq<Name>, suffix: Seq<char>, k: int) -> Seq<Name>
    decreases k,
{
    if k <= 0 || k > tunnels.len() {
        Seq::empty()
    } else if ends_with(tunnels[k - 1], suffix) {
        with_suffix_upto(tunnels, suffix, k - 1).push(tunnels[k - 1])
    } else {
        with_suffix_upto(tunnels, suffix, k - 1)
    }
}

/// The tunnels whose names end with `suffix`.
pub open spec fn with_suffix(tunnels: Seq<Name>, suffix: Seq<char>) -> Seq<Name> {
    with_suffix_upto(tunnels, suffix, tunnels.len() as int)
}

/// Picks the tunnels whose names end with `suffix`.
pub fn tunnels_with(tunnels: &Vec<String>, suffix: &str) -> (picked: Vec<String>)
    ensures
        names_of(picked@) == with_suffix(names_of(tunnels@), suffix@),
{
    let mut picked: Vec<String> = Vec::new();
    let mut k: usize = 0;
    assert(names_of(picked@) =~= Seq::<Name>::empty());
    while k < tunnels.len()
        invariant
            k <= tunnels@.len(),
            names_of(picked@) == with_suffix_upto(names_of(tunnels@), suffix@, k as int),
        decreases tunnels@.len() - k,
    {
        if has_suffix(tunnels[k].as_str(), suffix) {
            let ghost before = names_of(picked@);
            picked.push(tunnels[k].clone());
            assert(names_of(picked@) =~= before.push(tunnels@[k as int]@));
        }
        k = k + 1;
    }
    picked
}

/// A copy of a list of names.
pub fn copy_names(names: &Vec<String>) -> (copy: Vec<String>)
    ensures
        names_of(copy@) == names_of(names@),
{
    let mut copy: Vec<String> = Vec::new();
    let mut k: usize = 0;
    while k < names.len()
        invariant
            k <= names@.len(),
            copy@.len() == k,
            forall|i: int| 0 <= i < k ==> (#[trigger] copy@[i])@ == names@[i]@,
        decreases names@.len() - k,
    {
        copy.push(names[k].clone());
        k = k + 1;
    }
    assert(names_of(copy@) =~= names_of(names@));
    copy
}

/// The end of the names of the tunnels of the stage at position `j`, from
/// fetch at 0 to write back at 4.
pub open spec fn spec_stage_suffix(j: int) -> Seq<char> {
    if j == 0 {
        "FF"@
    } else if j == 1 {
        "DD"@
    } else if j == 2 {
        "EE"@
    } else if j == 3 {
        "MM"@
    } else {
        "WW"@
    }
}

/// The end of the names of the tunnels of a stage.
pub fn stage_suffix(j: usize) -> (suffix: &'static str)
    ensures
        suffix@ == spec_stage_suffix(j as int),
{
    if j == 0 {
        "FF"
    } else if j == 1 {
        "DD"
    } else if j == 2 {
        "EE"
    } else if j == 3 {
        "MM"
    } else {
        "WW"
    }
}

/// The tunnels that an instruction took in a stage.
#[derive(Debug)]
pub struct StageInfo {
    pub tunnels: Vec<String>,
}

/// An instruction on its way through the stages: its address, if a line of
/// the source stands there, and for every stage that it has reached the
/// tunnels that it took.
#[derive(Debug)]
pub struct InstInfo {
    pub addr: Option<u64>,
    pub fetch: Option<StageInfo>,
    pub decode: Option<StageInfo>,
    pub execute: Option<StageInfo>,
    pub memory: Option<StageInfo>,
    pub writeback: Option<StageInfo>,
}

/// The tunnels of a stage as plain values.
pub open spec fn tunnels_of(stage: Option<StageInfo>) -> Option<Seq<Name>> {
    match stage {
        Some(info) => Some(names_of(info.tunnels@)),
        None => None,
    }
}

/// Whether one of the first `k` lines of a source stands at `addr`.
pub open spec fn has_line_upto(source: Seq<SourceInfo>, addr: u64, k: int) -> bool
    decreases k,
{
    if k <= 0 || k > source.len() {
        false
    } else {
        source[k - 1].addr == Some(addr) || has_line_upto(source, addr, k - 1)
    }
}

impl InstInfo {
    /// The tunnels of the instruction in the stage at position `j`.
    pub open spec fn stage(self, j: int) -> Option<Seq<Name>> {
        if j == 0 {
            tunnels_of(self.fetch)
        } else if j == 1 {
            tunnels_of(self.decode)
        } else if j == 2 {
            tunnels_of(self.execute)
        } else if j == 3 {
            tunnels_of(self.memory)
        } else {
            tunnels_of(self.writeback)
        }
    }

    /// The instruction that is fetched at `pc`, before it has reached a
    /// stage. It has an address where a line of the source stands at `pc`:
    /// behind a `halt` the fetch may go on where no line stands.
    pub fn new(pc: u64, source: &Vec<SourceInfo>) -> (info: InstInfo)
        ensures
            info.addr == (if has_line_upto(source@, pc, source@.len() as int) {
                Some(pc)
            } else {
                None
            }),
            forall|j: int| 0 <= j < 5 ==> info.stage(j) is None,
    {
        let mut found: bool = false;
        let mut k: usize = 0;
        while k < source.len()
            invariant
                k <= source@.len(),
                found == has_line_upto(source@, pc, k as int),
            decreases source@.len() - k,
        {
            match source[k].addr {
                Some(addr) => {
                    if addr == pc {
                        found = true;
                    }
                },
                None => {},
            }
            k = k + 1;
        }
        InstInfo {
            addr: if found { Some(pc) } else { None },
            fetch: None,
            decode: None,
            execute: None,
            memory: None,
            writeback: None,
        }
    }

    /// Notes the tunnels that the instruction took in the stage at
    /// position `j`.
    pub fn reach(&mut self, j: usize, tunnels: Vec<String>)
        requires
            j < 5,
        ensures
            final(self).addr == old(self).addr,
            final(self).stage(j as int) == Some(names_of(tunnels@)),
            forall|i: int| 0 <= i < 5 && i != j ==> final(self).stage(i) == old(self).stage(i),
    {
        let info = Some(StageInfo { tunnels });
        if j == 0 {
            self.fetch = info;
        } else if j == 1 {
            self.decode = info;
        } else if j == 2 {
            self.execute = info;
        } else if j == 3 {
            self.memory = info;
        } else {
            self.writeback = info;
        }
    }
}

/// Gives the tunnels of a cycle to the instructions that took them: the
/// newest instruction has those of fetch, the one before it those of decode,
/// and so on for the last five instructions. What the instructions took in
/// other stages, and the older instructions, stay as they are.
pub fn record_tunnels(insts: &mut Vec<InstInfo>, tunnels: &Vec<String>)
    ensures
        final(insts)@.len() == old(insts)@.len(),
        forall|i: int|
            #![trigger final(insts)@[i]]
            0 <= i < old(insts)@.len() ==> {
                let j = old(insts)@.len() - 1 - i;
                &&& final(insts)@[i].addr == old(insts)@[i].addr
                &&& forall|s: int|
                    0 <= s < 5 ==> #[trigger] final(insts)@[i].stage(s) == (if s == j {
                        Some(with_suffix(names_of(tunnels@), spec_stage_suffix(s)))
                    } else {
                        old(insts)@[i].stage(s)
                    })
            },
{
    let n: usize = insts.len();
    let mut j: usize = 0;
    while j < 5 && j < n
        invariant
            j <= 5,
            n == insts@.len(),
            n == old(insts)@.len(),
            forall|i: int|
                #![trigger insts@[i]]
                0 <= i < n ==> {
                    let at = n - 1 - i;
                    &&& insts@[i].addr == old(insts)@[i].addr
                    &&& forall|s: int|
                        0 <= s < 5 ==> #[trigger] insts@[i].stage(s) == (if s == at && at < j {
                            Some(with_suffix(names_of(tunnels@), spec_stage_suffix(s)))
                        } else {
                            old(insts)@[i].stage(s)
                        })
                },
        decreases 5 - j,
    {
        let picked: Vec<String> = tunnels_with(tunnels, stage_suffix(j));
        let ghost before = insts@;
        let at: usize = n - 1 - j;
        let mut inst: InstInfo = insts.remove(at);
        inst.reach(j, picked);
        insts.insert(at, inst);
        assert forall|i: int| 0 <= i < n && i != at implies #[trigger] insts@[i] == before[i] by {}
        j = j + 1;
    }
}

/// What a cycle has come to: its number, the tunnels that fired in it, and
/// the stage registers with the texts of their fields.
#[derive(Debug)]
pub struct CycleInfo {
    pub cycle_id: u64,
    pub tunnels: Vec<String>,
    pub stages: Vec<StageText>,
}

/// The program that the view shows at first: it adds two numbers.
pub const DEFAULT_SOURCE: &'static str = "
# a + b
    .pos 0
    irmovq input, %rdi
    mrmovq (%rdi), %rdx
    mrmovq 8(%rdi), %rax
    addq %rdx, %rax
    halt
    .align 8
input:
    .quad 0x1234
    .quad 0x4321
";

/// Why the view could not be set up.
#[derive(Debug)]
pub enum AppError {
    Assemble(AsmError),
    Create(CreateError),
}

/// The pipeline with the records of its instructions and cycles.
pub struct App {
    pub obj: ObjectExt,
    pub pipe: PipeSim,
    pub inst_info: Vec<InstInfo>,
    pub cycle_info: Vec<CycleInfo>,
}

impl App {
    /// The view of the default program on the pipelined organisation,
    /// before the first cycle.
    pub fn new() -> (res: Result<App, AppError>)
        ensures
            res matches Ok(app) ==> app.inst_info@.len() == 0 && app.cycle_info@.len() == 0
                && is_assembly(DEFAULT_SOURCE@, Ok(app.obj)) && is_sim(
                "pipe_std"@,
                app.obj.obj.binary@,
                false,
                Ok(app.pipe),
            ),
            res matches Err(AppError::Assemble(e)) ==> is_assembly(DEFAULT_SOURCE@, Err(e)),
    {
        let assembled = assemble(DEFAULT_SOURCE, AssembleOption::default());
        let obj = match assembled {
            Ok(obj) => obj,
            Err(e) => {
                return Err(AppError::Assemble(e));
            },
        };
        match create_sim("pipe_std", obj.obj.init_mem(), false) {
            Ok(pipe) => Ok(App { obj, pipe, inst_info: Vec::new(), cycle_info: Vec::new() }),
            Err(e) => Err(AppError::Create(e)),
        }
    }

    /// Whether the program has ended.
    pub fn is_terminated(&self) -> (ended: bool)
        ensures
            ended == self.pipe.terminate,
    {
        self.pipe.is_terminate()
    }

    /// Runs one cycle and records it: the instruction that the cycle
    /// fetches joins the instructions, the tunnels of the cycle go to the
    /// last five instructions, and the cycle joins the cycles under the next
    /// number. A cycle that fails records nothing.
    pub fn step(&mut self) -> (res: Result<(), SimError>)
        ensures
            final(self).obj == old(self).obj,
            is_step(old(self).pipe, final(self).pipe, res),
            res is Err ==> final(self).inst_info == old(self).inst_info && final(self).cycle_info
                == old(self).cycle_info,
            res is Ok ==> {
                let n = old(self).inst_info@.len();
                let tunnels = final(self).pipe.tracer@;
                &&& final(self).inst_info@.len() == n + 1
                &&& final(self).inst_info@[n as int].stage(0) == Some(
                    with_suffix(tunnels, spec_stage_suffix(0)),
                )
                &&& forall|i: int|
                    #![trigger final(self).inst_info@[i]]
                    0 <= i < n ==> final(self).inst_info@[i].addr == old(self).inst_info@[i].addr
                        && forall|s: int|
                        0 <= s < 5 ==> #[trigger] final(self).inst_info@[i].stage(s) == (if s == n
                            - i {
                            Some(with_suffix(tunnels, spec_stage_suffix(s)))
                        } else {
                            old(self).inst_info@[i].stage(s)
                        })
                &&& final(self).cycle_info@.len() == old(self).cycle_info@.len() + 1
                &&& final(self).cycle_info@.last().cycle_id == old(self).cycle_info@.len()
                &&& names_of(final(self).cycle_info@.last().tunnels@) == tunnels
                &&& forall|i: int|
                    0 <= i < old(self).cycle_info@.len() ==> final(self).cycle_info@[i] == old(
                        self,
                    ).cycle_info@[i]
            },
    {
        match self.pipe.step() {
            Err(e) => {
                return Err(e);
            },
            Ok(()) => {},
        }
        let inst = InstInfo::new(self.pipe.program_counter(), &self.obj.source);
        self.inst_info.push(inst);
        let ghost pushed = self.inst_info@;
        record_tunnels(&mut self.inst_info, &self.pipe.tracer.tunnel);
        let tunnels: Vec<String> = copy_names(&self.pipe.tracer.tunnel);
        let cycle_id: u64 = self.cycle_info.len() as u64;
        self.cycle_info.push(CycleInfo { cycle_id, tunnels, stages: self.pipe.stage_info() });
        Ok(())
    }
}

} // verus!
