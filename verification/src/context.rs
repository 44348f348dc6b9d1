//! What belongs to one thread: the phase that it is in, its name, and the compilations that it
//! starts.
use vstd::prelude::*;
use vstd::string::*;

use crate::traces::{set_trace, settable, Traces};
use crate::types::{JitLocation, JitPhase, JitTrace};

verus! {

/// Thread-specific meta-tracer context. Each thread has one.
#[derive(Debug)]
pub struct JitThreadContext {
    phase: JitPhase,
}

impl View for JitThreadContext {
    type V = JitPhase;

    closed spec fn view(&self) -> JitPhase {
        self.phase
    }
}

impl JitThreadContext {
    /// The context of a thread that has just started.
    pub fn new() -> (cx: Self)
        ensures
            cx@ == JitPhase::Interpreting,
    {
        JitThreadContext { phase: JitPhase::Interpreting }
    }

    /// Resets the per-thread state to defaults.
    pub fn reset(&mut self)
        ensures
            final(self)@ == JitPhase::Interpreting,
    {
        self.phase = JitPhase::Interpreting;
    }

    /// Get the thread's current phase.
    pub fn current_phase(&self) -> (phase: JitPhase)
        ensures
            phase == self@,
    {
        self.phase
    }

    /// Transition to a new phase.
    pub fn phase_transition(&mut self, phase: JitPhase)
        ensures
            final(self)@ == phase,
    {
        self.phase = phase;
    }

    /// Compile the trace of `loc`, in parallel with the interpreter: what comes back is the work
    /// of a compiler thread of its own.
    pub fn compile_trace(loc: JitLocation) -> (job: CompileJob)
        ensures
            job@ == compile_job(loc),
            job@.loc == loc,
            job@.name == "compile_loc_"@ + decimal(loc as nat),
    {
        let mut name: String = "compile_loc_".to_owned();
        append_decimal(&mut name, loc);
        CompileJob { name, loc }
    }
}

/// The work of a compiler thread: the thread's name, and the location whose trace it compiles.
#[derive(Debug)]
pub struct CompileJob {
    name: String,
    loc: JitLocation,
}

/// What a [`CompileJob`] holds.
pub struct CompileJobView {
    pub name: Seq<char>,
    pub loc: JitLocation,
}

impl View for CompileJob {
    type V = CompileJobView;

    closed spec fn view(&self) -> CompileJobView {
        CompileJobView { name: self.name@, loc: self.loc }
    }
}

/// The job that compiles `loc`.
pub open spec fn compile_job(loc: JitLocation) -> CompileJobView {
    CompileJobView { name: "compile_loc_"@ + decimal(loc as nat), loc }
}

impl CompileJob {
    /// The name of the compiler thread.
    pub fn name(&self) -> (name: &str)
        ensures
            name@ == self@.name,
    {
        self.name.as_str()
    }

    /// The location whose trace is compiled.
    pub fn location(&self) -> (loc: JitLocation)
        ensures
            loc == self@.loc,
    {
        self.loc
    }

    /// Compile the trace and put it into the store, where the location has been marked as pending.
    pub fn run(self, traces: &mut Traces)
        requires
            settable(old(traces)@, self@.loc, JitTrace::FinalisedTrace),
        ensures
            final(traces)@ == old(traces)@.insert(self@.loc, JitTrace::FinalisedTrace),
            old(traces)@.contains_key(self@.loc) && old(traces)@[self@.loc] is TracePending,
    {
        set_trace(traces, self.loc, JitTrace::FinalisedTrace);
    }
}

/// The decimal digit of `d`.
pub open spec fn digit(d: nat) -> char
    recommends
        d < 10,
{
    (('0' as nat) + d) as char
}

/// `n` in decimal notation, without leading zeros.
pub open spec fn decimal(n: nat) -> Seq<char>
    decreases n,
{
    if n < 10 {
        seq![digit(n)]
    } else {
        decimal(n / 10).push(digit(n % 10))
    }
}

/// Write `n` in decimal notation at the end of `text`.
fn append_decimal(text: &mut String, n: u32)
    ensures
        final(text)@ == old(text)@ + decimal(n as nat),
    decreases n,
{
    if n >= 10 {
        append_decimal(text, n / 10);
    }
    let d: u32 = n % 10;
    proof {
        reveal_strlit("0");
        reveal_strlit("1");
        reveal_strlit("2");
        reveal_strlit("3");
        reveal_strlit("4");
        reveal_strlit("5");
        reveal_strlit("6");
        reveal_strlit("7");
        reveal_strlit("8");
        reveal_strlit("9");
    }
    let figure: &str = match d {
        0 => "0",
        1 => "1",
        2 => "2",
        3 => "3",
        4 => "4",
        5 => "5",
        6 => "6",
        7 => "7",
        8 => "8",
        _ => "9",
    };
    assert(figure@ =~= seq![digit(d as nat)]);
    text.append(figure);
}

/// The name under which a thread shows up in the log: its own, or "no_name" where it has none.
pub fn debug_thread_name(name: Option<&str>) -> (shown: String)
    ensures
        shown@ == match name {
            Some(n) => n@,
            None => "no_name"@,
        },
{
    let sref: &str = match name {
        Some(n) => n,
        None => "no_name",
    };
    sref.to_owned()
}

} // verus!
