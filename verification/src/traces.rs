//! The trace cache: for each location that has become hot, the state of its trace.
use std::collections::HashMap;
use vstd::prelude::*;

use crate::context::JitThreadContext;
use crate::types::{JitLocation, JitPhase, JitTrace};

verus! {

broadcast use vstd::std_specs::hash::group_hash_axioms;

/// The trace store that all threads share. A location that is not in it has not been traced.
#[derive(Debug)]
pub struct Traces {
    traces: HashMap<JitLocation, JitTrace>,
}

impl View for Traces {
    type V = Map<JitLocation, JitTrace>;

    closed spec fn view(&self) -> Map<JitLocation, JitTrace> {
        self.traces@
    }
}

/// What may be stored for a location: a "trace pending" marker where nothing is stored yet, and a
/// finished trace where the location has been marked as pending first.
pub open spec fn settable(
    traces: Map<JitLocation, JitTrace>,
    loc: JitLocation,
    trace: JitTrace,
) -> bool {
    match trace {
        JitTrace::TracePending => traces.get(loc) is None,
        JitTrace::FinalisedTrace => traces.get(loc) == Some(JitTrace::TracePending),
    }
}

impl Traces {
    /// A store without any trace.
    pub fn new() -> (traces: Self)
        ensures
            traces@ == Map::<JitLocation, JitTrace>::empty(),
    {
        Traces { traces: HashMap::new() }
    }

    /// What is stored for the given location.
    pub fn get(&self, loc: JitLocation) -> (trace: Option<JitTrace>)
        ensures
            trace == self@.get(loc),
    {
        match self.traces.get(&loc) {
            Some(trace) => Some(*trace),
            None => None,
        }
    }
}

/// Execute the trace for the specified location, if there is a finished one.
///
/// Returns true if the trace was there (and thus was executed), or false otherwise. The thread is
/// back to interpreting once a trace has been executed.
pub fn try_exec_trace(traces: &Traces, cx: &mut JitThreadContext, loc: JitLocation) -> (ran: bool)
    ensures
        ran == (traces@.get(loc) == Some(JitTrace::FinalisedTrace)),
        final(cx)@ == if ran {
            JitPhase::Interpreting
        } else {
            old(cx)@
        },
{
    match traces.get(loc) {
        Some(JitTrace::FinalisedTrace) => {
            cx.phase_transition(JitPhase::RunningTrace(loc));
            cx.phase_transition(JitPhase::Interpreting);
            true
        },
        _ => false,
    }
}

/// Is a thread currently tracing or compiling the specified location?
pub fn trace_pending(traces: &Traces, loc: JitLocation) -> (pending: bool)
    ensures
        pending == (traces@.get(loc) == Some(JitTrace::TracePending)),
{
    match traces.get(loc) {
        Some(JitTrace::TracePending) => true,
        _ => false,
    }
}

/// The sanity check that comes before a trace is stored: it needs no more than read access.
pub fn trace_settable(traces: &Traces, loc: JitLocation, trace: JitTrace) -> (ok: bool)
    ensures
        ok == settable(traces@, loc, trace),
        trace is TracePending ==> (ok <==> !traces@.contains_key(loc)),
        trace is FinalisedTrace ==> (ok <==> traces@.contains_key(loc) && traces@[loc]
            is TracePending),
{
    let old_val = traces.get(loc);
    match trace {
        // If we are collecting a trace, the location should not already be in the cache.
        JitTrace::TracePending => old_val.is_none(),
        // A finished trace should have been marked as "pending" first.
        JitTrace::FinalisedTrace => match old_val {
            Some(JitTrace::TracePending) => true,
            _ => false,
        },
    }
}

/// Store a trace without looking at what was there. Whoever calls this has made the check of
/// [`trace_settable`].
pub fn store_trace(traces: &mut Traces, loc: JitLocation, trace: JitTrace)
    ensures
        final(traces)@ == old(traces)@.insert(loc, trace),
{
    traces.traces.insert(loc, trace);
}

/// Store a trace, or a "trace pending" marker, in the cache for the specified location.
pub fn set_trace(traces: &mut Traces, loc: JitLocation, trace: JitTrace)
    requires
        settable(old(traces)@, loc, trace),
    ensures
        final(traces)@ == old(traces)@.insert(loc, trace),
        trace is TracePending <==> !old(traces)@.contains_key(loc),
        trace is FinalisedTrace <==> old(traces)@.contains_key(loc) && old(traces)@[loc]
            is TracePending,
{
    store_trace(traces, loc, trace);
}

} // verus!
