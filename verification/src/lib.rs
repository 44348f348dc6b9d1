//! The control point of a meta-tracing JIT compiler.
//!
//! An interpreter calls the control point once per iteration of its dispatch loop and says
//! where in the user program it is. The control point counts how often each location comes up,
//! starts tracing a location that has become hot, hands the finished trace to a compiler
//! thread, and runs the trace once it is there.

pub mod call_laws;
pub mod context;
pub mod control;
pub mod hot_counts;
pub mod laws;
pub mod threads;
pub mod traces;
pub mod types;

pub use context::{debug_thread_name, CompileJob, JitThreadContext};
pub use control::{jit_control_point, ControlPoint, Jit};
pub use hot_counts::{hot_count, incr_hot_count, HotCounts};
pub use traces::{set_trace, store_trace, trace_pending, trace_settable, try_exec_trace, Traces};
pub use types::{HotCount, JitLocation, JitPhase, JitTrace, JitTransition, HOT_THRESHOLD};
