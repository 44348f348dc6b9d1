//! The control point.
//!
//! Threads share the hot counts and the trace store, each behind a lock of its own, and a call of
//! the control point visits one of them at a time. A [`ControlPoint`] is such a call between two
//! visits: each of its methods makes one visit. [`jit_control_point`] is the call as a whole, for
//! whoever owns the shared state.
use vstd::prelude::*;

use crate::context::{compile_job, decimal, CompileJob, CompileJobView, JitThreadContext};
use crate::hot_counts::{count_of, incr_hot_count, HotCounts};
use crate::traces::{
    settable, store_trace, trace_pending, try_exec_trace, Traces,
};
use crate::types::{HotCount, JitLocation, JitPhase, JitTrace, JitTransition, HOT_THRESHOLD};

verus! {

/// A call of the control point, named by what it does next.
#[derive(Debug, Clone, Copy, PartialEq, Eq, Structural)]
pub enum ControlPoint {
    /// Read the trace store and execute the location's trace, if it is finished.
    TryExec { loc: JitLocation },
    /// Increment the location's hot count.
    Count { loc: JitLocation },
    /// The location has just become hot: read the trace store to see whether it is pending.
    CheckPending { loc: JitLocation },
    /// Read the trace store to see that nothing is stored for the location.
    CheckUntraced { loc: JitLocation },
    /// Write the "trace pending" marker, and start tracing.
    Mark { loc: JitLocation },
    /// Start the compilation of the location's trace, and stop tracing.
    Compile { loc: JitLocation },
    /// Nothing is left but to return.
    Finished { transition: JitTransition },
}

/// The state that all threads share, and the compiler threads that are to be started.
#[verifier::ext_equal]
pub struct JitView {
    pub traces: Map<JitLocation, JitTrace>,
    pub counts: Map<JitLocation, HotCount>,
    pub jobs: Seq<CompileJobView>,
}

/// How a call starts, for a thread in the given phase.
pub open spec fn entered(phase: JitPhase, loc: JitLocation) -> ControlPoint
    recommends
        !(phase is RunningTrace),
{
    match phase {
        JitPhase::Tracing(start_loc) => if loc == start_loc {
            ControlPoint::Compile { loc }
        } else {
            ControlPoint::Finished { transition: JitTransition::ContinuedTracing }
        },
        _ => ControlPoint::TryExec { loc },
    }
}

/// How a call goes on once it has looked for a finished trace.
pub open spec fn tried(traces: Map<JitLocation, JitTrace>, loc: JitLocation) -> ControlPoint {
    if traces.get(loc) == Some(JitTrace::FinalisedTrace) {
        ControlPoint::Finished { transition: JitTransition::ExecutedTrace }
    } else {
        ControlPoint::Count { loc }
    }
}

/// How a call goes on once it has raised the location's hot count to `count`.
pub open spec fn counted(count: int, loc: JitLocation) -> ControlPoint {
    if count == HOT_THRESHOLD {
        ControlPoint::CheckPending { loc }
    } else {
        ControlPoint::Finished { transition: JitTransition::IncrementedHotCount }
    }
}

/// How a call goes on once it has seen whether the location is pending.
pub open spec fn pending_checked(
    traces: Map<JitLocation, JitTrace>,
    loc: JitLocation,
) -> ControlPoint {
    if traces.get(loc) == Some(JitTrace::TracePending) {
        ControlPoint::Finished { transition: JitTransition::IncrementedHotCount }
    } else {
        ControlPoint::CheckUntraced { loc }
    }
}

impl ControlPoint {
    /// The step that this call takes next, in the shared state `jit`, by a thread in phase
    /// `phase`: the shared state, the thread's phase and the call as they are afterwards.
    pub open spec fn step(self, jit: JitView, phase: JitPhase) -> (JitView, JitPhase, ControlPoint) {
        match self {
            ControlPoint::TryExec { loc } => {
                let call = tried(jit.traces, loc);
                (jit, if call is Finished { JitPhase::Interpreting } else { phase }, call)
            },
            ControlPoint::Count { loc } => {
                let count = count_of(jit.counts, loc) + 1;
                (
                    JitView { counts: jit.counts.insert(loc, count as HotCount), ..jit },
                    phase,
                    counted(count, loc),
                )
            },
            ControlPoint::CheckPending { loc } => (jit, phase, pending_checked(jit.traces, loc)),
            ControlPoint::CheckUntraced { loc } => (jit, phase, ControlPoint::Mark { loc }),
            ControlPoint::Mark { loc } => (
                JitView { traces: jit.traces.insert(loc, JitTrace::TracePending), ..jit },
                JitPhase::Tracing(loc),
                ControlPoint::Finished { transition: JitTransition::StartedTracing },
            ),
            ControlPoint::Compile { loc } => (
                JitView { jobs: jit.jobs.push(compile_job(loc)), ..jit },
                JitPhase::Interpreting,
                ControlPoint::Finished { transition: JitTransition::FinishedTracing },
            ),
            ControlPoint::Finished { .. } => (jit, phase, self),
        }
    }

    /// Whether the next step can be taken in the shared state `jit`: the hot count is not
    /// exhausted, and a location that is to be marked is not in the trace store.
    pub open spec fn ready(self, jit: JitView) -> bool {
        match self {
            ControlPoint::Count { loc } => count_of(jit.counts, loc) < HotCount::MAX,
            ControlPoint::CheckUntraced { loc } => settable(
                jit.traces,
                loc,
                JitTrace::TracePending,
            ),
            ControlPoint::Finished { .. } => false,
            _ => true,
        }
    }

    /// What holds of the call's location in the shared state `jit` where no other thread has
    /// interfered since the call began.
    pub open spec fn undisturbed(self, jit: JitView) -> bool {
        match self {
            ControlPoint::TryExec { loc } => callable(jit, JitPhase::Interpreting, loc),
            ControlPoint::Count { loc } => {
                &&& count_of(jit.counts, loc) < HotCount::MAX
                &&& jit.traces.get(loc) != Some(JitTrace::FinalisedTrace)
            },
            ControlPoint::CheckPending { loc } => jit.traces.get(loc) != Some(
                JitTrace::FinalisedTrace,
            ),
            ControlPoint::CheckUntraced { loc } => jit.traces.get(loc) is None,
            _ => true,
        }
    }

    /// The phase that a thread is in while it is at this place of a call. After the call it may
    /// be in any phase but that of running a trace.
    pub open spec fn fits(self, phase: JitPhase) -> bool {
        match self {
            ControlPoint::Compile { loc } => phase == JitPhase::Tracing(loc),
            ControlPoint::Finished { .. } => !(phase is RunningTrace),
            _ => phase is Interpreting,
        }
    }

    /// The most steps that are left until the call is finished.
    pub open spec fn steps_left(self) -> nat {
        match self {
            ControlPoint::TryExec { .. } => 5,
            ControlPoint::Count { .. } => 4,
            ControlPoint::CheckPending { .. } => 3,
            ControlPoint::CheckUntraced { .. } => 2,
            ControlPoint::Mark { .. } => 1,
            ControlPoint::Compile { .. } => 1,
            ControlPoint::Finished { .. } => 0,
        }
    }

    /// Enter the control point. It must not be entered from within a trace.
    pub fn enter(cx: &JitThreadContext, loc: JitLocation) -> (call: Self)
        requires
            !(cx@ is RunningTrace),
        ensures
            call == entered(cx@, loc),
            call.fits(cx@),
            cx@ is Interpreting ==> call == (ControlPoint::TryExec { loc }),
            cx@ == JitPhase::Tracing(loc) ==> call == (ControlPoint::Compile { loc }),
            cx@ is Tracing && cx@ != JitPhase::Tracing(loc) ==> call == (ControlPoint::Finished {
                transition: JitTransition::ContinuedTracing,
            }),
    {
        match cx.current_phase() {
            JitPhase::Tracing(start_loc) => {
                // If we have traced one iteration of the loop, stop tracing.
                if loc == start_loc {
                    ControlPoint::Compile { loc }
                } else {
                    ControlPoint::Finished { transition: JitTransition::ContinuedTracing }
                }
            },
            _ => ControlPoint::TryExec { loc },
        }
    }

    /// Read the trace store, and execute the trace of `loc` if it is finished.
    pub fn try_exec(traces: &Traces, cx: &mut JitThreadContext, loc: JitLocation) -> (call: Self)
        ensures
            call == tried(traces@, loc),
            final(cx)@ == if call is Finished {
                JitPhase::Interpreting
            } else {
                old(cx)@
            },
            call == (ControlPoint::Finished { transition: JitTransition::ExecutedTrace }) <==>
                traces@.contains_key(loc) && traces@[loc] is FinalisedTrace,
            call == (ControlPoint::Count { loc }) <==> !(traces@.contains_key(loc) && traces@[loc]
                is FinalisedTrace),
            forall|jit: JitView|
                jit.traces == traces@ ==> #[trigger] (ControlPoint::TryExec { loc }).step(
                    jit,
                    old(cx)@,
                ) == (jit, final(cx)@, call),
    {
        if try_exec_trace(traces, cx, loc) {
            ControlPoint::Finished { transition: JitTransition::ExecutedTrace }
        } else {
            // There is no trace for this location (yet), so we just increment the hot count.
            ControlPoint::Count { loc }
        }
    }

    /// Increment the hot count of `loc`.
    pub fn count(counts: &mut HotCounts, loc: JitLocation) -> (call: Self)
        requires
            count_of(old(counts)@, loc) < HotCount::MAX,
        ensures
            final(counts)@ == old(counts)@.insert(
                loc,
                (count_of(old(counts)@, loc) + 1) as HotCount,
            ),
            call == counted(count_of(old(counts)@, loc) + 1, loc),
            final(counts)@.contains_key(loc),
            old(counts)@.contains_key(loc) ==> final(counts)@[loc] == old(counts)@[loc] + 1,
            !old(counts)@.contains_key(loc) ==> final(counts)@[loc] == 1,
            call == (ControlPoint::CheckPending { loc }) <==> final(counts)@[loc] == HOT_THRESHOLD,
            call == (ControlPoint::Finished { transition: JitTransition::IncrementedHotCount })
                <==> final(counts)@[loc] != HOT_THRESHOLD,
            forall|jit: JitView, phase: JitPhase|
                jit.counts == old(counts)@ ==> #[trigger] (ControlPoint::Count { loc }).step(
                    jit,
                    phase,
                ) == (JitView { counts: final(counts)@, ..jit }, phase, call),
    {
        let ct: HotCount = incr_hot_count(counts, loc);
        if ct == HOT_THRESHOLD {
            // Location becomes hot.
            ControlPoint::CheckPending { loc }
        } else {
            ControlPoint::Finished { transition: JitTransition::IncrementedHotCount }
        }
    }

    /// Read the trace store to see whether `loc`, which has just become hot, is pending.
    pub fn check_pending(traces: &Traces, loc: JitLocation) -> (call: Self)
        ensures
            call == pending_checked(traces@, loc),
            call == (ControlPoint::Finished { transition: JitTransition::IncrementedHotCount })
                <==> traces@.contains_key(loc) && traces@[loc] is TracePending,
            call == (ControlPoint::CheckUntraced { loc }) <==> !(traces@.contains_key(loc)
                && traces@[loc] is TracePending),
            forall|jit: JitView, phase: JitPhase|
                jit.traces == traces@ ==> #[trigger] (ControlPoint::CheckPending { loc }).step(
                    jit,
                    phase,
                ) == (jit, phase, call),
    {
        if trace_pending(traces, loc) {
            ControlPoint::Finished { transition: JitTransition::IncrementedHotCount }
        } else {
            ControlPoint::CheckUntraced { loc }
        }
    }

    /// Go on to mark `loc`. The trace store must not hold it:
    /// [`trace_settable`](crate::traces::trace_settable) tells.
    pub fn check_untraced(traces: &Traces, loc: JitLocation) -> (call: Self)
        requires
            settable(traces@, loc, JitTrace::TracePending),
        ensures
            call == (ControlPoint::Mark { loc }),
            !traces@.contains_key(loc),
            forall|jit: JitView, phase: JitPhase|
                jit.traces == traces@ ==> #[trigger] (ControlPoint::CheckUntraced { loc }).step(
                    jit,
                    phase,
                ) == (jit, phase, call),
    {
        ControlPoint::Mark { loc }
    }

    /// Mark `loc` as pending in the trace store, and start tracing it.
    pub fn mark(traces: &mut Traces, cx: &mut JitThreadContext, loc: JitLocation) -> (call: Self)
        ensures
            final(traces)@ == old(traces)@.insert(loc, JitTrace::TracePending),
            final(cx)@ == JitPhase::Tracing(loc),
            call == (ControlPoint::Finished { transition: JitTransition::StartedTracing }),
            forall|jit: JitView|
                jit.traces == old(traces)@ ==> #[trigger] (ControlPoint::Mark { loc }).step(
                    jit,
                    old(cx)@,
                ) == (JitView { traces: final(traces)@, ..jit }, final(cx)@, call),
    {
        store_trace(traces, loc, JitTrace::TracePending);
        cx.phase_transition(JitPhase::Tracing(loc));
        ControlPoint::Finished { transition: JitTransition::StartedTracing }
    }

    /// Stop tracing, once the compilation of the trace has been started.
    pub fn stop_tracing(cx: &mut JitThreadContext) -> (call: Self)
        ensures
            final(cx)@ == JitPhase::Interpreting,
            call == (ControlPoint::Finished { transition: JitTransition::FinishedTracing }),
            forall|jit: JitView, loc: JitLocation|
                (#[trigger] (ControlPoint::Compile { loc }).step(jit, old(cx)@)).1 == final(cx)@,
            forall|jit: JitView, loc: JitLocation|
                (#[trigger] (ControlPoint::Compile { loc }).step(jit, old(cx)@)).2 == call,
    {
        cx.phase_transition(JitPhase::Interpreting);
        ControlPoint::Finished { transition: JitTransition::FinishedTracing }
    }
}

/// The state that all threads share, in one hand.
#[derive(Debug)]
pub struct Jit {
    /// The trace store.
    pub traces: Traces,
    /// The hot counts.
    pub counts: HotCounts,
    /// The compilations that have been started, oldest first, for whoever runs them.
    pub jobs: Vec<CompileJob>,
}

impl View for Jit {
    type V = JitView;

    open spec fn view(&self) -> JitView {
        JitView {
            traces: self.traces@,
            counts: self.counts@,
            jobs: self.jobs@.map_values(|job: CompileJob| job@),
        }
    }
}

/// The shared state before anything has happened.
pub open spec fn fresh() -> JitView {
    JitView { traces: Map::empty(), counts: Map::empty(), jobs: Seq::empty() }
}

impl Jit {
    /// Shared state in which nothing has been counted or traced.
    pub fn new() -> (jit: Self)
        ensures
            jit@ == fresh(),
            jit.traces@ == Map::<JitLocation, JitTrace>::empty(),
            jit.counts@ == Map::<JitLocation, HotCount>::empty(),
            jit.jobs@.len() == 0,
    {
        let jit: Jit = Jit { traces: Traces::new(), counts: HotCounts::new(), jobs: Vec::new() };
        assert(jit@.jobs =~= Seq::empty());
        jit
    }
}

/// What a call of the control point does as a whole, in the shared state `jit`, by a thread in
/// phase `phase`: the shared state and the phase as they are afterwards, and what is returned.
pub open spec fn control_point(
    jit: JitView,
    phase: JitPhase,
    loc: JitLocation,
) -> (JitView, JitPhase, JitTransition)
    recommends
        !(phase is RunningTrace),
{
    match phase {
        JitPhase::Tracing(start_loc) => if loc == start_loc {
            (
                JitView { jobs: jit.jobs.push(compile_job(loc)), ..jit },
                JitPhase::Interpreting,
                JitTransition::FinishedTracing,
            )
        } else {
            (jit, phase, JitTransition::ContinuedTracing)
        },
        _ => if jit.traces.get(loc) == Some(JitTrace::FinalisedTrace) {
            (jit, phase, JitTransition::ExecutedTrace)
        } else {
            let count = count_of(jit.counts, loc) + 1;
            let counts = jit.counts.insert(loc, count as HotCount);
            if count == HOT_THRESHOLD && jit.traces.get(loc) is None {
                (
                    JitView {
                        traces: jit.traces.insert(loc, JitTrace::TracePending),
                        counts,
                        ..jit
                    },
                    JitPhase::Tracing(loc),
                    JitTransition::StartedTracing,
                )
            } else {
                (JitView { counts, ..jit }, phase, JitTransition::IncrementedHotCount)
            }
        },
    }
}

/// The inputs on which a call of the control point is defined: it is not made from within a trace,
/// and where the location is counted, its hot count has room for one more.
pub open spec fn callable(jit: JitView, phase: JitPhase, loc: JitLocation) -> bool {
    match phase {
        JitPhase::Interpreting => jit.traces.get(loc) == Some(JitTrace::FinalisedTrace) || count_of(
            jit.counts,
            loc,
        ) < HotCount::MAX,
        JitPhase::Tracing(_) => true,
        JitPhase::RunningTrace(_) => false,
    }
}

/// What is left of a call, step by step: the outcome of `call` when no other thread interferes.
pub open spec fn outcome(jit: JitView, phase: JitPhase, call: ControlPoint) -> (
    JitView,
    JitPhase,
    JitTransition,
)
    decreases call.steps_left(),
{
    match call {
        ControlPoint::Finished { transition } => (jit, phase, transition),
        _ => {
            let (jit1, phase1, call1) = call.step(jit, phase);
            outcome(jit1, phase1, call1)
        },
    }
}

/// A call with which no other thread interferes does what [`control_point`] says.
pub proof fn law_steps_make_the_call(jit: JitView, phase: JitPhase, loc: JitLocation)
    requires
        !(phase is RunningTrace),
    ensures
        outcome(jit, phase, entered(phase, loc)) == control_point(jit, phase, loc),
{
    reveal_with_fuel(outcome, 6);
}

/// The control point.
///
/// The interpreter calls this periodically to say where in the user program it is: in a bytecode
/// interpreter, immediately inside the dispatch loop. `loc` identifies the position in the user
/// program. The result says what work the JIT undertook.
pub fn jit_control_point(jit: &mut Jit, cx: &mut JitThreadContext, loc: JitLocation) -> (ret:
    JitTransition)
    requires
        callable(old(jit)@, old(cx)@, loc),
    ensures
        (final(jit)@, final(cx)@, ret) == control_point(old(jit)@, old(cx)@, loc),
        // A finished trace is executed, and nothing changes.
        ret == JitTransition::ExecutedTrace <==> old(cx)@ is Interpreting && old(
            jit,
        ).traces@.contains_key(loc) && old(jit).traces@[loc] is FinalisedTrace,
        // The call counts the location where it interprets without such a trace.
        ret == JitTransition::IncrementedHotCount || ret == JitTransition::StartedTracing <==> old(
            cx,
        )@ is Interpreting && ret != JitTransition::ExecutedTrace,
        final(jit).counts@ == if ret == JitTransition::IncrementedHotCount || ret
            == JitTransition::StartedTracing {
            old(jit).counts@.insert(
                loc,
                if old(jit).counts@.contains_key(loc) {
                    (old(jit).counts@[loc] + 1) as HotCount
                } else {
                    1
                },
            )
        } else {
            old(jit).counts@
        },
        // The call that brings an untraced location to the threshold starts tracing it.
        ret == JitTransition::StartedTracing <==> old(cx)@ is Interpreting && !old(
            jit,
        ).traces@.contains_key(loc) && old(jit).counts@.contains_key(loc) && old(
            jit,
        ).counts@[loc] == HOT_THRESHOLD - 1,
        final(jit).traces@ == if ret == JitTransition::StartedTracing {
            old(jit).traces@.insert(loc, JitTrace::TracePending)
        } else {
            old(jit).traces@
        },
        // Tracing stops, and the compilation starts, where the trace began.
        ret == JitTransition::FinishedTracing <==> old(cx)@ == JitPhase::Tracing(loc),
        ret == JitTransition::FinishedTracing ==> {
            &&& final(jit).jobs@.len() == old(jit).jobs@.len() + 1
            &&& final(jit).jobs@.drop_last() == old(jit).jobs@
            &&& final(jit).jobs@.last()@.loc == loc
            &&& final(jit).jobs@.last()@.name == "compile_loc_"@ + decimal(loc as nat)
        },
        ret != JitTransition::FinishedTracing ==> final(jit).jobs@ == old(jit).jobs@,
        ret == JitTransition::ContinuedTracing <==> old(cx)@ is Tracing && old(cx)@
            != JitPhase::Tracing(loc),
        final(cx)@ == match ret {
            JitTransition::StartedTracing => JitPhase::Tracing(loc),
            JitTransition::FinishedTracing => JitPhase::Interpreting,
            _ => old(cx)@,
        },
{
    let mut call: ControlPoint = ControlPoint::enter(cx, loc);
    proof {
        law_steps_make_the_call(jit@, cx@, loc);
    }
    loop
        invariant
            call.fits(cx@),
            call.undisturbed(jit@),
            callable(old(jit)@, old(cx)@, loc),
            outcome(jit@, cx@, call) == control_point(old(jit)@, old(cx)@, loc),
            if call == (ControlPoint::Finished { transition: JitTransition::FinishedTracing }) {
                &&& jit.jobs@.len() == old(jit).jobs@.len() + 1
                &&& jit.jobs@.drop_last() == old(jit).jobs@
            } else {
                jit.jobs@ == old(jit).jobs@
            },
        decreases call.steps_left(),
    {
        let ghost jit0 = jit@;
        match call {
            ControlPoint::TryExec { loc: at } => {
                call = ControlPoint::try_exec(&jit.traces, cx, at);
            },
            ControlPoint::Count { loc: at } => {
                call = ControlPoint::count(&mut jit.counts, at);
            },
            ControlPoint::CheckPending { loc: at } => {
                call = ControlPoint::check_pending(&jit.traces, at);
            },
            ControlPoint::CheckUntraced { loc: at } => {
                call = ControlPoint::check_untraced(&jit.traces, at);
            },
            ControlPoint::Mark { loc: at } => {
                call = ControlPoint::mark(&mut jit.traces, cx, at);
            },
            ControlPoint::Compile { loc: at } => {
                jit.jobs.push(JitThreadContext::compile_trace(at));
                assert(jit@.jobs =~= jit0.jobs.push(compile_job(at)));
                call = ControlPoint::stop_tracing(cx);
            },
            ControlPoint::Finished { transition } => {
                assert(transition == JitTransition::FinishedTracing ==> jit@.jobs.last()
                    == jit.jobs@.last()@);
                return transition;
            },
        }
    }
}

} // verus!
