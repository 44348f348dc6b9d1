//! The vocabulary of the control point.
use vstd::prelude::*;

verus! {

/// Uniquely identifies a location in the user program: a program counter value.
pub type JitLocation = u32;

/// Counts how many times a location has been interpreted.
pub type HotCount = u32;

/// The number of times a location is interpreted before it is traced.
pub const HOT_THRESHOLD: HotCount = 10;

/// What a thread is doing at any given time.
#[derive(Debug, Clone, Copy, PartialEq, Eq, Structural)]
pub enum JitPhase {
    /// Interpreting and profiling.
    Interpreting,
    /// Recording a trace from the given location.
    Tracing(JitLocation),
    /// Running a trace that starts at the given location.
    RunningTrace(JitLocation),
}

/// The state of the machine code trace of a location.
#[derive(Debug, Clone, Copy, PartialEq, Eq, Structural)]
pub enum JitTrace {
    /// Currently being traced or compiled.
    TracePending,
    /// A finished trace with executable code.
    FinalisedTrace,
}

/// What the control point has just done.
#[derive(Debug, Clone, Copy, PartialEq, Eq, Structural)]
pub enum JitTransition {
    IncrementedHotCount,
    StartedTracing,
    ContinuedTracing,
    FinishedTracing,
    ExecutedTrace,
}

} // verus!
