//! The decisions of the debug adapter: what a request is answered with, and
//! when a running program stops. Reading requests and sending answers is the
//! caller's part.
use vstd::prelude::*;
use crate::architectures::{create_sim, is_sim, CreateError};
use crate::assembler::{assemble, is_assembly, AsmError, AssembleOption, ObjectExt, SourceInfo};
use crate::framework::sim::{
    field_text, is_next_cycle, spec_field_text, CpuSim, PipeSim, SimError,
};
use crate::isa::Stat;
use crate::signal::Value;
use crate::utils::{decimal, decimal_text};
use crate::hardware::spec_register_read;
use crate::isa::reg_code;
pub use crate::utils::{show_value, shown_value};
use crate::utils::{hex_text, hex_width};

verus! {

/// The one thread of a program.
pub const THREAD_ID: i64 = 1;

/// The one stack frame of a program.
pub const STACK_FRAME_ID: i64 = 1;

/// The reference under which the registers are listed.
pub const REG_SCOPE_VAR_REF: i64 = 1;

/// How far a program runs before it stops again.
#[derive(Debug, Clone, Copy, PartialEq, Eq, Structural)]
pub enum RunProgKind {
    /// For one cycle.
    SingleStep,
    /// Up to a breakpoint or to its end.
    Run,
}

/// What the adapter does next.
#[derive(Debug, Clone, Copy, PartialEq, Eq, Structural)]
pub enum ServerStatus {
    /// It runs the program and accepts no request.
    RunProg(RunProgKind),
    /// The program is stopped; it waits for a request.
    ServeReq,
}

/// Why a program stopped.
#[derive(Debug, Clone, Copy, PartialEq, Eq, Structural)]
pub enum StopReason {
    /// The program has ended.
    Pause,
    /// The program counter stands at a breakpoint.
    Breakpoint,
    /// One cycle has been run.
    Step,
}

/// The event that tells that a program stopped.
#[derive(Debug, Clone, Copy, PartialEq, Eq, Structural)]
pub struct Stop {
    pub reason: StopReason,
    pub pc: u64,
    pub cycle_count: u64,
    /// The address of the breakpoint that was hit, which is its id.
    pub breakpoint: Option<u64>,
}

/// A breakpoint at a line of the source. It is verified, and has the
/// address of the line as its id, where the line holds an instruction.
#[derive(Debug, Clone, Copy, PartialEq, Eq, Structural)]
pub struct Breakpoint {
    pub line: i64,
    pub addr: Option<u64>,
}

/// A request, reduced to what the answer depends on.
#[derive(Debug, Clone, PartialEq, Eq)]
pub enum Request {
    ConfigurationDone,
    /// `same_source` tells whether the request names the source that was
    /// launched.
    SetBreakpoints { same_source: bool, lines: Vec<i64> },
    /// `plain` tells whether the request comes without filters and options.
    SetExceptionBreakpoints { plain: bool },
    Threads,
    StackTrace { thread_id: i64, start_frame: i64 },
    Scopes { frame_id: i64 },
    Variables { variables_reference: i64 },
    Next { thread_id: i64 },
    Continue { thread_id: i64 },
    /// Any other request.
    Other,
}

/// The answer to a request.
#[derive(Debug, Clone, PartialEq, Eq)]
pub enum Reply {
    ConfigurationDone,
    SetBreakpoints(Vec<Breakpoint>),
    SetExceptionBreakpoints,
    /// The one thread, `main`.
    Threads,
    /// The line of the one frame, `current`; no frame where the request
    /// does not begin with the first one.
    StackTrace(Option<i64>),
    /// The one scope, `Registers`.
    Scopes,
    /// The registers by name, with their values in hexadecimal.
    Variables(Vec<(String, String)>),
    Next,
    Continue,
}

/// Why a request is refused.
#[derive(Debug, Clone, Copy, PartialEq, Eq, Structural)]
pub enum Refusal {
    NotLaunched,
    SourceMismatch,
    FiltersNotSupported,
    InvalidThread,
    InvalidFrame,
    InvalidVariables,
    NotImplemented,
}

/// Why a program could not be launched.
#[derive(Debug, PartialEq, Eq)]
pub enum LaunchError {
    Assemble(AsmError),
    Create(CreateError),
}

/// The number of the first of the first `k` lines that holds an instruction
/// at `addr`, counted from 1; 0 where there is none.
pub open spec fn line_of_addr_upto(source: Seq<SourceInfo>, addr: u64, k: int) -> int
    decreases k,
{
    if k <= 0 {
        0
    } else {
        let before = line_of_addr_upto(source, addr, k - 1);
        if before > 0 {
            before
        } else if 0 <= k - 1 < source.len() && source[k - 1].addr == Some(addr) && source[k
            - 1].inst is Some {
            k
        } else {
            0
        }
    }
}

/// The number of the line that holds the instruction at `addr`, counted
/// from 1; 0 where no line does.
pub open spec fn spec_line_of_addr(source: Seq<SourceInfo>, addr: u64) -> int {
    line_of_addr_upto(source, addr, source.len() as int)
}

/// A line that was found stays the line.
proof fn lemma_line_found(source: Seq<SourceInfo>, addr: u64, k: int, m: int)
    requires
        0 < k <= m,
        line_of_addr_upto(source, addr, k) > 0,
    ensures
        line_of_addr_upto(source, addr, m) == line_of_addr_upto(source, addr, k),
    decreases m - k,
{
    if k < m {
        lemma_line_found(source, addr, k, m - 1);
    }
}

/// The number of the line that holds the instruction at `addr`.
pub fn line_of_addr(source: &Vec<SourceInfo>, addr: u64) -> (line: usize)
    ensures
        line == spec_line_of_addr(source@, addr),
        line <= source@.len(),
{
    let mut k: usize = 0;
    while k < source.len()
        invariant
            k <= source@.len(),
            line_of_addr_upto(source@, addr, k as int) == 0,
        decreases source@.len() - k,
    {
        let here: bool = match source[k].addr {
            Some(a) => a == addr,
            None => false,
        };
        if here && source[k].inst.is_some() {
            proof {
                lemma_line_found(source@, addr, k as int + 1, source@.len() as int);
            }
            return k + 1;
        }
        k = k + 1;
    }
    0
}

/// The breakpoint that a request for `line` gives: with the address of the
/// line, where the line exists and holds an instruction.
pub open spec fn spec_breakpoint(source: Seq<SourceInfo>, line: i64) -> Breakpoint {
    Breakpoint {
        line,
        addr: if 1 <= line <= source.len() && source[line - 1].inst is Some {
            source[line - 1].addr
        } else {
            None
        },
    }
}

/// The position of the first of the first `k` breakpoints that is verified
/// and stands at `line`, or `k`.
pub open spec fn hit_upto(breakpoints: Seq<Breakpoint>, line: int, k: int) -> int
    decreases k,
{
    if k <= 0 {
        0
    } else {
        let before = hit_upto(breakpoints, line, k - 1);
        if before < k - 1 {
            before
        } else if 0 <= k - 1 < breakpoints.len() && breakpoints[k - 1].addr is Some
            && breakpoints[k - 1].line == line {
            k - 1
        } else {
            k
        }
    }
}

/// A breakpoint that was hit stays the one.
proof fn lemma_hit_found(breakpoints: Seq<Breakpoint>, line: int, k: int, m: int)
    requires
        0 < k <= m,
        hit_upto(breakpoints, line, k) < k,
    ensures
        hit_upto(breakpoints, line, m) == hit_upto(breakpoints, line, k),
    decreases m - k,
{
    if k < m {
        lemma_hit_found(breakpoints, line, k, m - 1);
    }
}

/// The text of a stop: the program counter and the number of cycles, and
/// behind them the status with which the program ended, where the stop tells
/// that the program has ended with a status other than `aok`.
pub open spec fn stop_text(stop: Stop, status: Option<Stat>) -> Seq<char> {
    let text = "pc = "@ + shown_value(stop.pc) + ", cycle count = "@ + decimal(stop.cycle_count);
    match status {
        Some(stat) => if stop.reason == StopReason::Pause && stat != Stat::Aok {
            text + ", status = "@ + spec_field_text(Value::Stat(stat))
        } else {
            text
        },
        None => text,
    }
}

/// The text of a stop.
pub fn show_stop(stop: Stop, status: Option<Stat>) -> (text: String)
    ensures
        text@ == stop_text(stop, status),
{
    let text: String = "pc = ".to_owned().concat(show_value(stop.pc).as_str()).concat(
        ", cycle count = ",
    ).concat(decimal_text(stop.cycle_count).as_str());
    let ended: bool = match stop.reason {
        StopReason::Pause => true,
        _ => false,
    };
    match status {
        Some(stat) => {
            let aok: bool = match stat {
                Stat::Aok => true,
                _ => false,
            };
            if ended && !aok {
                text.concat(", status = ").concat(field_text(&Value::Stat(stat)).as_str())
            } else {
                text
            }
        },
        None => text,
    }
}

/// A program under the debugger.
pub struct Program {
    pub sim: PipeSim,
    /// The lines of the source, each with its address.
    pub source: Vec<SourceInfo>,
}

/// A session of the debug adapter.
pub struct DebugSession {
    /// The program, once it has been launched.
    pub program: Option<Program>,
    pub breakpoints: Vec<Breakpoint>,
    pub status: ServerStatus,
}

impl DebugSession {
    /// The text of a stop of the program of the session; of a session
    /// without program, the text of the stop alone.
    pub fn stop_text(&self, stop: Stop) -> (text: String)
        ensures
            text@ == stop_text(
                stop,
                match self.program {
                    Some(program) => program.sim.spec_status(),
                    None => None,
                },
            ),
    {
        match &self.program {
            Some(program) => show_stop(stop, program.sim.status()),
            None => show_stop(stop, None),
        }
    }

    /// A session without program, which waits for requests.
    pub fn new() -> (session: DebugSession)
        ensures
            session.program is None,
            session.breakpoints@.len() == 0,
            session.status == ServerStatus::ServeReq,
    {
        DebugSession { program: None, breakpoints: Vec::new(), status: ServerStatus::ServeReq }
    }

    /// Whether `after` and `res` are what launching a program in the
    /// session `before` gives: a source that cannot be assembled and an
    /// architecture that cannot be set up are refused and leave the session
    /// as it was; else the session holds the simulator of the architecture
    /// on the image of the program, before its first cycle, with the lines
    /// of the source, and keeps its breakpoints.
    pub open spec fn is_launch(
        before: DebugSession,
        src: Seq<char>,
        arch: Seq<char>,
        after: DebugSession,
        res: Result<(), LaunchError>,
    ) -> bool {
        exists|assembled: Result<ObjectExt, AsmError>|
            is_assembly(src, assembled) && match assembled {
                Err(e) => res == Err::<(), LaunchError>(LaunchError::Assemble(e)) && after
                    == before,
                Ok(obj) => exists|made: Result<PipeSim, CreateError>|
                    is_sim(arch, obj.obj.binary@, false, made) && match made {
                        Err(e) => res == Err::<(), LaunchError>(LaunchError::Create(e)) && after
                            == before,
                        Ok(sim) => res is Ok && after.program == Some(
                            Program { sim, source: obj.source },
                        ) && after.status == ServerStatus::ServeReq && after.breakpoints
                            == before.breakpoints,
                    },
            }
    }

    /// Launches a program: assembles its source and sets a simulator of the
    /// architecture `arch` up on its image. After an error the session is as
    /// it was.
    pub fn launch(&mut self, src: &str, arch: &str) -> (res: Result<(), LaunchError>)
        ensures
            DebugSession::is_launch(*old(self), src@, arch@, *final(self), res),
            res is Ok ==> final(self).program is Some && !final(self).program->0.sim.terminate
                && final(self).program->0.sim.cycle_count == 0,
            res is Err ==> *final(self) == *old(self),
    {
        let assembled = assemble(src, AssembleOption::default());
        let ghost given = assembled;
        let obj = match assembled {
            Ok(obj) => obj,
            Err(e) => {
                return Err(LaunchError::Assemble(e));
            },
        };
        let made = create_sim(arch, obj.obj.init_mem(), false);
        let ghost set_up = made;
        let sim = match made {
            Ok(sim) => sim,
            Err(e) => {
                assert(is_sim(arch@, obj.obj.binary@, false, set_up));
                assert(is_assembly(src@, given));
                return Err(LaunchError::Create(e));
            },
        };
        self.program = Some(Program { sim, source: obj.source });
        self.status = ServerStatus::ServeReq;
        assert(is_sim(arch@, obj.obj.binary@, false, set_up) && self.program == Some(
            Program { sim, source: obj.source },
        ));
        assert(is_assembly(src@, given));
        Ok(())
    }

    /// The breakpoints that a request for the given lines gives.
    fn make_breakpoints(source: &Vec<SourceInfo>, lines: &Vec<i64>) -> (list: Vec<Breakpoint>)
        ensures
            list@.len() == lines@.len(),
            forall|i: int|
                0 <= i < lines@.len() ==> #[trigger] list@[i] == spec_breakpoint(
                    source@,
                    lines@[i],
                ),
    {
        let mut list: Vec<Breakpoint> = Vec::new();
        let mut i: usize = 0;
        while i < lines.len()
            invariant
                i <= lines@.len(),
                list@.len() == i,
                forall|j: int|
                    0 <= j < i ==> #[trigger] list@[j] == spec_breakpoint(source@, lines@[j]),
            decreases lines@.len() - i,
        {
            let line: i64 = lines[i];
            let mut addr: Option<u64> = None;
            if 1 <= line && (line as u64) <= source.len() as u64 {
                let at: usize = (line - 1) as usize;
                if source[at].inst.is_some() {
                    addr = source[at].addr;
                }
            }
            list.push(Breakpoint { line, addr });
            i = i + 1;
        }
        list
    }

    /// The sixteen registers by name, with their values. The last is
    /// `RNONE`, which names no register and reads as 0.
    fn variables(sim: &PipeSim) -> (list: Vec<(String, String)>)
        ensures
            list@.len() == 16,
            forall|i: int|
                0 <= i < 16 ==> (#[trigger] list@[i]).0@ == reg_code::spec_name_of(i as u8)
                    && list@[i].1@ == shown_value(spec_register_read(sim.units@.regs, i as u8)),
    {
        let regs = sim.registers();
        let mut list: Vec<(String, String)> = Vec::new();
        let mut i: usize = 0;
        while i < 15
            invariant
                i <= 15,
                regs@.len() == 15,
                forall|j: int|
                    0 <= j < 15 ==> #[trigger] regs@[j] == (j as u8, sim.units@.regs[j]),
                list@.len() == i,
                forall|j: int|
                    0 <= j < i ==> (#[trigger] list@[j]).0@ == reg_code::spec_name_of(j as u8)
                        && list@[j].1@ == shown_value(
                        spec_register_read(sim.units@.regs, j as u8),
                    ),
            decreases 15 - i,
        {
            let (code, val) = regs[i];
            list.push((reg_code::name_of(code).to_owned(), show_value(val)));
            i = i + 1;
        }
        list.push((reg_code::name_of(reg_code::RNONE).to_owned(), show_value(0)));
        list
    }

    /// Answers a request, and tells what the adapter does next. A request
    /// that is refused changes nothing.
    ///
    /// `ConfigurationDone` and `Continue` let the program run, `Next` lets
    /// it run for one cycle; after every other request the adapter waits
    /// for the next one. Breakpoints can be set in the source that was
    /// launched only; threads, frames and variables are known under one id
    /// each.
    pub fn handle_request(&mut self, req: Request) -> (res: Result<(Reply, ServerStatus), Refusal>)
        ensures
            final(self).program == old(self).program,
            final(self).status == old(self).status,
            !(req is SetBreakpoints && res is Ok)
                ==> final(self).breakpoints == old(self).breakpoints,
            match req {
                Request::ConfigurationDone => res == Ok::<(Reply, ServerStatus), Refusal>(
                    (Reply::ConfigurationDone, ServerStatus::RunProg(RunProgKind::Run)),
                ),
                Request::SetBreakpoints { same_source, lines } => if old(self).program is None {
                    res == Err::<(Reply, ServerStatus), Refusal>(Refusal::NotLaunched)
                } else if !same_source {
                    res == Err::<(Reply, ServerStatus), Refusal>(Refusal::SourceMismatch)
                } else {
                    &&& res matches Ok((Reply::SetBreakpoints(list), ServerStatus::ServeReq))
                    &&& list@ == final(self).breakpoints@
                    &&& list@.len() == lines@.len()
                    &&& forall|i: int|
                        0 <= i < lines@.len() ==> #[trigger] list@[i] == spec_breakpoint(
                            old(self).program->0.source@,
                            lines@[i],
                        )
                },
                Request::SetExceptionBreakpoints { plain } => if plain {
                    res == Ok::<(Reply, ServerStatus), Refusal>(
                        (Reply::SetExceptionBreakpoints, ServerStatus::ServeReq),
                    )
                } else {
                    res == Err::<(Reply, ServerStatus), Refusal>(Refusal::FiltersNotSupported)
                },
                Request::Threads => res == Ok::<(Reply, ServerStatus), Refusal>(
                    (Reply::Threads, ServerStatus::ServeReq),
                ),
                Request::StackTrace { thread_id, start_frame } => if thread_id != THREAD_ID {
                    res == Err::<(Reply, ServerStatus), Refusal>(Refusal::InvalidThread)
                } else if start_frame > 0 {
                    res == Ok::<(Reply, ServerStatus), Refusal>(
                        (Reply::StackTrace(None), ServerStatus::ServeReq),
                    )
                } else if old(self).program is None {
                    res == Err::<(Reply, ServerStatus), Refusal>(Refusal::NotLaunched)
                } else {
                    res == Ok::<(Reply, ServerStatus), Refusal>(
                        (
                            Reply::StackTrace(
                                Some(
                                    spec_line_of_addr(
                                        old(self).program->0.source@,
                                        old(self).program->0.sim.signals@.get(
                                            crate::framework::schema::Slot::Inter(
                                                old(self).program->0.sim.program_counter,
                                            ),
                                        ).word(),
                                    ) as i64,
                                ),
                            ),
                            ServerStatus::ServeReq,
                        ),
                    )
                },
                Request::Scopes { frame_id } => if frame_id != STACK_FRAME_ID {
                    res == Err::<(Reply, ServerStatus), Refusal>(Refusal::InvalidFrame)
                } else {
                    res == Ok::<(Reply, ServerStatus), Refusal>(
                        (Reply::Scopes, ServerStatus::ServeReq),
                    )
                },
                Request::Variables { variables_reference } => if variables_reference
                    != REG_SCOPE_VAR_REF {
                    res == Err::<(Reply, ServerStatus), Refusal>(Refusal::InvalidVariables)
                } else if old(self).program is None {
                    res == Err::<(Reply, ServerStatus), Refusal>(Refusal::NotLaunched)
                } else {
                    &&& res matches Ok((Reply::Variables(list), ServerStatus::ServeReq))
                    &&& list@.len() == 16
                    &&& forall|i: int|
                        0 <= i < 16 ==> (#[trigger] list@[i]).0@ == reg_code::spec_name_of(i as u8)
                            && list@[i].1@ == shown_value(
                            spec_register_read(old(self).program->0.sim.units@.regs, i as u8),
                        )
                },
                Request::Next { thread_id } => if thread_id != THREAD_ID {
                    res == Err::<(Reply, ServerStatus), Refusal>(Refusal::InvalidThread)
                } else {
                    res == Ok::<(Reply, ServerStatus), Refusal>(
                        (Reply::Next, ServerStatus::RunProg(RunProgKind::SingleStep)),
                    )
                },
                Request::Continue { thread_id } => if thread_id != THREAD_ID {
                    res == Err::<(Reply, ServerStatus), Refusal>(Refusal::InvalidThread)
                } else {
                    res == Ok::<(Reply, ServerStatus), Refusal>(
                        (Reply::Continue, ServerStatus::RunProg(RunProgKind::Run)),
                    )
                },
                Request::Other => res == Err::<(Reply, ServerStatus), Refusal>(
                    Refusal::NotImplemented,
                ),
            },
    {
        match req {
            Request::ConfigurationDone => Ok(
                (Reply::ConfigurationDone, ServerStatus::RunProg(RunProgKind::Run)),
            ),
            Request::SetBreakpoints { same_source, lines } => {
                match &self.program {
                    None => Err(Refusal::NotLaunched),
                    Some(program) => {
                        if !same_source {
                            return Err(Refusal::SourceMismatch);
                        }
                        let list: Vec<Breakpoint> = DebugSession::make_breakpoints(
                            &program.source,
                            &lines,
                        );
                        let copy: Vec<Breakpoint> = DebugSession::make_breakpoints(
                            &program.source,
                            &lines,
                        );
                        assert(list@ =~= copy@);
                        self.breakpoints = copy;
                        Ok((Reply::SetBreakpoints(list), ServerStatus::ServeReq))
                    },
                }
            },
            Request::SetExceptionBreakpoints { plain } => {
                if plain {
                    Ok((Reply::SetExceptionBreakpoints, ServerStatus::ServeReq))
                } else {
                    Err(Refusal::FiltersNotSupported)
                }
            },
            Request::Threads => Ok((Reply::Threads, ServerStatus::ServeReq)),
            Request::StackTrace { thread_id, start_frame } => {
                if thread_id != THREAD_ID {
                    return Err(Refusal::InvalidThread);
                }
                if start_frame > 0 {
                    return Ok((Reply::StackTrace(None), ServerStatus::ServeReq));
                }
                match &self.program {
                    None => Err(Refusal::NotLaunched),
                    Some(program) => {
                        let line: usize = line_of_addr(
                            &program.source,
                            program.sim.program_counter(),
                        );
                        Ok((Reply::StackTrace(Some(line as i64)), ServerStatus::ServeReq))
                    },
                }
            },
            Request::Scopes { frame_id } => {
                if frame_id != STACK_FRAME_ID {
                    return Err(Refusal::InvalidFrame);
                }
                Ok((Reply::Scopes, ServerStatus::ServeReq))
            },
            Request::Variables { variables_reference } => {
                if variables_reference != REG_SCOPE_VAR_REF {
                    return Err(Refusal::InvalidVariables);
                }
                match &self.program {
                    None => Err(Refusal::NotLaunched),
                    Some(program) => Ok(
                        (
                            Reply::Variables(DebugSession::variables(&program.sim)),
                            ServerStatus::ServeReq,
                        ),
                    ),
                }
            },
            Request::Next { thread_id } => {
                if thread_id != THREAD_ID {
                    return Err(Refusal::InvalidThread);
                }
                Ok((Reply::Next, ServerStatus::RunProg(RunProgKind::SingleStep)))
            },
            Request::Continue { thread_id } => {
                if thread_id != THREAD_ID {
                    return Err(Refusal::InvalidThread);
                }
                Ok((Reply::Continue, ServerStatus::RunProg(RunProgKind::Run)))
            },
            Request::Other => Err(Refusal::NotImplemented),
        }
    }
}

/// Why, after a cycle, a program that runs as `kind` tells stops: at a
/// breakpoint that stands at the line of the program counter and, when
/// it runs for one cycle only, in any case. A breakpoint comes before a
/// step.
pub open spec fn spec_stop_after_cycle(
    source: Seq<SourceInfo>,
    breakpoints: Seq<Breakpoint>,
    kind: RunProgKind,
    pc: u64,
    cycle_count: u64,
) -> Option<Stop> {
    let line = spec_line_of_addr(source, pc);
    let hit = hit_upto(breakpoints, line, breakpoints.len() as int);
    if line > 0 && hit < breakpoints.len() {
        Some(
            Stop {
                reason: StopReason::Breakpoint,
                pc,
                cycle_count,
                breakpoint: breakpoints[hit].addr,
            },
        )
    } else if kind == RunProgKind::SingleStep {
        Some(Stop { reason: StopReason::Step, pc, cycle_count, breakpoint: None })
    } else {
        None
    }
}

/// Decides whether a program stops after a cycle. Breakpoints are tested
/// when the signals of the cycle have been propagated and before the stage
/// registers take their next state, so that the program counter is that of
/// the instruction that is about to be executed.
pub fn stop_after_cycle(
    source: &Vec<SourceInfo>,
    breakpoints: &Vec<Breakpoint>,
    kind: RunProgKind,
    pc: u64,
    cycle_count: u64,
) -> (stop: Option<Stop>)
    ensures
        stop == spec_stop_after_cycle(source@, breakpoints@, kind, pc, cycle_count),
{
    let line: usize = line_of_addr(source, pc);
    if line > 0 {
        let mut k: usize = 0;
        while k < breakpoints.len()
            invariant
                k <= breakpoints@.len(),
                line > 0,
                line == spec_line_of_addr(source@, pc),
                hit_upto(breakpoints@, line as int, k as int) == k,
            decreases breakpoints@.len() - k,
        {
            let bp: Breakpoint = breakpoints[k];
            if bp.addr.is_some() && bp.line >= 0 && bp.line as u64 == line as u64 {
                proof {
                    lemma_hit_found(
                        breakpoints@,
                        line as int,
                        k as int + 1,
                        breakpoints@.len() as int,
                    );
                }
                return Some(
                    Stop { reason: StopReason::Breakpoint, pc, cycle_count, breakpoint: bp.addr },
                );
            }
            k = k + 1;
        }
    }
    match kind {
        RunProgKind::SingleStep => Some(
            Stop { reason: StopReason::Step, pc, cycle_count, breakpoint: None },
        ),
        RunProgKind::Run => None,
    }
}

impl DebugSession {
    /// Runs the program for one cycle more, unless it has ended, and tells
    /// whether it stops.
    ///
    /// A program that has ended stops at once, with the reason `Pause`.
    /// Otherwise the stage registers take their next state, the signals of
    /// the cycle are propagated, and the program stops at a breakpoint or
    /// after a single step. Where it stops, the adapter waits for requests
    /// again. A session without program runs nothing.
    pub fn advance(&mut self, kind: RunProgKind) -> (res: Result<Option<Stop>, SimError>)
        ensures
            final(self).breakpoints == old(self).breakpoints,
            old(self).program is None ==> res == Ok::<Option<Stop>, SimError>(None)
                && final(self).program is None && final(self).status == old(self).status,
            old(self).program matches Some(before) ==> final(self).program is Some
                && final(self).program->0.source == before.source && (before.sim.terminate
                ==> res == Ok::<
                Option<Stop>,
                SimError,
            >(
                Some(
                    Stop {
                        reason: StopReason::Pause,
                        pc: before.sim.signals@.get(
                            crate::framework::schema::Slot::Inter(before.sim.program_counter),
                        ).word(),
                        cycle_count: before.sim.cycle_count,
                        breakpoint: None,
                    },
                ),
            ) && final(self).program->0.sim == before.sim && final(self).status
                == ServerStatus::ServeReq) && (!before.sim.terminate ==> match res {
                Ok(stop) => stop == spec_stop_after_cycle(
                    before.source@,
                    old(self).breakpoints@,
                    kind,
                    final(self).program->0.sim.signals@.get(
                        crate::framework::schema::Slot::Inter(
                            final(self).program->0.sim.program_counter,
                        ),
                    ).word(),
                    final(self).program->0.sim.cycle_count,
                ) && final(self).status == (if stop is Some {
                    ServerStatus::ServeReq
                } else {
                    old(self).status
                }),
                Err(_) => final(self).status == old(self).status,
            }),
            old(self).program matches Some(before) ==> !before.sim.terminate ==> is_next_cycle(
                before.sim,
                final(self).program->0.sim,
                match res {
                    Ok(_) => Ok(()),
                    Err(e) => Err(e),
                },
            ),
    {
        let mut program = match self.program.take() {
            None => {
                return Ok(None);
            },
            Some(program) => program,
        };
        if program.sim.is_terminate() {
            let stop = Stop {
                reason: StopReason::Pause,
                pc: program.sim.program_counter(),
                cycle_count: program.sim.cycle_count(),
                breakpoint: None,
            };
            self.program = Some(program);
            self.status = ServerStatus::ServeReq;
            return Ok(Some(stop));
        }
        program.sim.initiate_next_cycle();
        match program.sim.propagate_signals() {
            Err(e) => {
                self.program = Some(program);
                Err(e)
            },
            Ok(()) => {
                let stop = stop_after_cycle(
                    &program.source,
                    &self.breakpoints,
                    kind,
                    program.sim.program_counter(),
                    program.sim.cycle_count(),
                );
                self.program = Some(program);
                if stop.is_some() {
                    self.status = ServerStatus::ServeReq;
                }
                Ok(stop)
            },
        }
    }
}

} // verus!
